//! Bookkeeping of a simulated bus: which servos it knows and whether each
//! holds torque. Positions and their motion over time are kept by the caller.

use crate::error::{ServoError, ServoErrorView};
use std::collections::HashMap;
use vstd::prelude::*;

verus! {

broadcast use vstd::std_specs::hash::group_hash_axioms;

/// Torque state of each servo of a simulated bus, by id.
pub struct MockRegistry {
    torque: HashMap<u8, bool>,
}

impl View for MockRegistry {
    type V = Map<u8, bool>;

    closed spec fn view(&self) -> Map<u8, bool> {
        self.torque@
    }
}

/// Number of leading ids of `ids` that `known` holds: the index of the first unknown id,
/// or the length of `ids` when all are known.
pub open spec fn known_prefix(ids: Seq<u8>, known: Set<u8>) -> nat
    decreases ids.len(),
{
    if ids.len() == 0 {
        0
    } else if !known.contains(ids[0]) {
        0
    } else {
        1 + known_prefix(ids.drop_first(), known)
    }
}

/// `m` with the value of each id of `ids` that it holds replaced by `on`.
pub open spec fn set_torque(m: Map<u8, bool>, ids: Seq<u8>, on: bool) -> Map<u8, bool> {
    Map::new(|k: u8| m.dom().contains(k), |k: u8| if ids.contains(k) { on } else { m[k] })
}

/// The ids before `known_prefix` are known, and the id at it (if any) is not.
pub proof fn lemma_known_prefix(ids: Seq<u8>, known: Set<u8>)
    ensures
        known_prefix(ids, known) <= ids.len(),
        forall|i: int| 0 <= i < known_prefix(ids, known) ==> known.contains(#[trigger] ids[i]),
        known_prefix(ids, known) < ids.len() ==> !known.contains(ids[known_prefix(ids, known) as int]),
    decreases ids.len(),
{
    if ids.len() > 0 && known.contains(ids[0]) {
        lemma_known_prefix(ids.drop_first(), known);
        assert forall|i: int| 0 <= i < known_prefix(ids, known) implies known.contains(
            #[trigger] ids[i],
        ) by {
            if i > 0 {
                assert(ids[i] == ids.drop_first()[i - 1]);
            }
        }
    }
}

/// Adding an id to the list sets that id alone, where the map holds it.
proof fn lemma_set_torque_push(m: Map<u8, bool>, ids: Seq<u8>, id: u8, on: bool)
    ensures
        set_torque(m, ids.push(id), on) == if m.dom().contains(id) {
            set_torque(m, ids, on).insert(id, on)
        } else {
            set_torque(m, ids, on)
        },
        set_torque(m, ids, on).dom() == m.dom(),
{
    assert forall|k: u8| #[trigger] ids.push(id).contains(k) <==> (ids.contains(k) || k == id) by {
        if ids.push(id).contains(k) && k != id {
            let j = choose|j: int| 0 <= j < ids.push(id).len() && #[trigger] ids.push(id)[j] == k;
            assert(ids[j] == k);
        }
        if ids.contains(k) {
            let j = choose|j: int| 0 <= j < ids.len() && #[trigger] ids[j] == k;
            assert(ids.push(id)[j] == k);
        }
        if k == id {
            assert(ids.push(id)[ids.len() as int] == k);
        }
    }
    assert(set_torque(m, ids, on).dom() =~= m.dom());
    if m.dom().contains(id) {
        assert(set_torque(m, ids.push(id), on) =~= set_torque(m, ids, on).insert(id, on));
    } else {
        assert(set_torque(m, ids.push(id), on) =~= set_torque(m, ids, on));
    }
}

/// Setting torque for a list of ids keeps the servos the bus knows, sets
/// each listed known servo to the value given, and leaves every servo not
/// listed as it was.
pub proof fn lemma_set_torque_frame(m: Map<u8, bool>, ids: Seq<u8>, on: bool)
    ensures
        set_torque(m, ids, on).dom() == m.dom(),
        forall|k: u8| m.dom().contains(k) && !ids.contains(k) ==> #[trigger] set_torque(m, ids, on)[k] == m[k],
        forall|k: u8| m.dom().contains(k) && ids.contains(k) ==> #[trigger] set_torque(m, ids, on)[k] == on,
{
    assert(set_torque(m, ids, on).dom() =~= m.dom());
}

/// Switching torque off for a list of ids undoes switching it on for the same list.
pub proof fn lemma_disable_undoes_enable(m: Map<u8, bool>, ids: Seq<u8>)
    ensures
        set_torque(set_torque(m, ids, true), ids, false) == set_torque(m, ids, false),
{
    assert(set_torque(set_torque(m, ids, true), ids, false) =~= set_torque(m, ids, false));
}

impl MockRegistry {
    /// A registry of the servos `ids`, none holding torque.
    pub fn new(ids: &[u8]) -> (r: Self)
        ensures
            r@ == Map::new(|k: u8| ids@.contains(k), |k: u8| false),
    {
        let mut torque: HashMap<u8, bool> = HashMap::new();
        let mut i: usize = 0;
        while i < ids.len()
            invariant
                i <= ids@.len(),
                torque@ == Map::new(|k: u8| ids@.take(i as int).contains(k), |k: u8| false),
            decreases ids@.len() - i,
        {
            let id = ids[i];
            torque.insert(id, false);
            proof {
                let next = Map::new(|k: u8| ids@.take(i + 1).contains(k), |k: u8| false);
                assert forall|k: u8| ids@.take(i + 1).contains(k) implies #[trigger] torque@.dom().contains(k) by {
                    let j = choose|j: int| 0 <= j < i + 1 && #[trigger] ids@.take(i + 1)[j] == k;
                    if j < i {
                        assert(ids@.take(i as int)[j] == k);
                    }
                }
                assert forall|k: u8| #[trigger] torque@.dom().contains(k) implies ids@.take(i + 1).contains(k) by {
                    if k != id {
                        let j = choose|j: int| 0 <= j < i && #[trigger] ids@.take(i as int)[j] == k;
                        assert(ids@.take(i + 1)[j] == k);
                    } else {
                        assert(ids@.take(i + 1)[i as int] == k);
                    }
                }
                assert(torque@ =~= next);
            }
            i = i + 1;
        }
        assert(ids@.take(i as int) =~= ids@);
        MockRegistry { torque }
    }

    /// Whether the bus simulates servo `id`.
    pub fn contains(&self, id: u8) -> (b: bool)
        ensures
            b == self@.dom().contains(id),
    {
        self.torque.contains_key(&id)
    }

    /// Whether servo `id` is simulated and holds torque.
    pub fn torque_enabled(&self, id: u8) -> (b: bool)
        ensures
            b == (self@.dom().contains(id) && self@[id]),
    {
        match self.torque.get(&id) {
            Some(on) => *on,
            None => false,
        }
    }

    /// `Ok` for a simulated servo; the timeout a real bus would give otherwise.
    pub fn check_known(&self, id: u8) -> (r: Result<(), ServoError>)
        ensures
            self@.dom().contains(id) ==> r is Ok,
            !self@.dom().contains(id) ==> (r matches Err(e) && e@ == ServoErrorView::Timeout { id }),
    {
        if self.contains(id) {
            Ok(())
        } else {
            Err(ServoError::Timeout { id })
        }
    }

    /// Switches torque on for `ids` in order, stopping at the first unknown id.
    /// Returns how many leading ids were switched on, and the timeout for the
    /// unknown id where it stopped.
    pub fn enable_torque(&mut self, ids: &[u8]) -> (r: (usize, Result<(), ServoError>))
        ensures
            r.0 == known_prefix(ids@, old(self)@.dom()),
            final(self)@ == set_torque(old(self)@, ids@.take(r.0 as int), true),
            r.0 == ids@.len() ==> r.1 is Ok,
            r.0 < ids@.len() ==> (r.1 matches Err(e) && e@ == ServoErrorView::Timeout {
                id: ids@[r.0 as int],
            }),
    {
        let ghost start = self@;
        proof {
            lemma_known_prefix(ids@, start.dom());
        }
        let mut i: usize = 0;
        while i < ids.len()
            invariant
                i <= ids@.len(),
                i <= known_prefix(ids@, start.dom()),
                known_prefix(ids@, start.dom()) <= ids@.len(),
                forall|j: int| 0 <= j < known_prefix(ids@, start.dom()) ==> start.dom().contains(#[trigger] ids@[j]),
                known_prefix(ids@, start.dom()) < ids@.len() ==> !start.dom().contains(ids@[known_prefix(ids@, start.dom()) as int]),
                self@ == set_torque(start, ids@.take(i as int), true),
                self@.dom() == start.dom(),
                start == old(self)@,
            decreases ids@.len() - i,
        {
            let id = ids[i];
            proof {
                assert(ids@.take(i + 1) =~= ids@.take(i as int).push(id));
                lemma_set_torque_push(start, ids@.take(i as int), id, true);
            }
            if self.torque.contains_key(&id) {
                self.torque.insert(id, true);
                proof {
                    lemma_set_torque_push(start, ids@.take(i + 1), id, true);
                    if i == known_prefix(ids@, start.dom()) {
                        assert(false);
                    }
                }
            } else {
                return (i, Err(ServoError::Timeout { id }));
            }
            i = i + 1;
        }
        (i, Ok(()))
    }

    /// Switches torque off for every id of `ids` the bus simulates; unknown ids are skipped.
    pub fn disable_torque(&mut self, ids: &[u8])
        ensures
            final(self)@ == set_torque(old(self)@, ids@, false),
    {
        let ghost start = self@;
        let mut i: usize = 0;
        while i < ids.len()
            invariant
                i <= ids@.len(),
                self@ == set_torque(start, ids@.take(i as int), false),
                self@.dom() == start.dom(),
            decreases ids@.len() - i,
        {
            let id = ids[i];
            proof {
                assert(ids@.take(i + 1) =~= ids@.take(i as int).push(id));
                lemma_set_torque_push(start, ids@.take(i as int), id, false);
                lemma_set_torque_push(start, ids@.take(i + 1), id, false);
            }
            if self.torque.contains_key(&id) {
                self.torque.insert(id, false);
            }
            i = i + 1;
        }
        assert(ids@.take(i as int) =~= ids@);
    }
}

} // verus!
