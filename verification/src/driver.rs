//! Bus operations as the exact packets they send and the decoding of the
//! replies they read. The transport (writing, reading, timeouts, sleeps)
//! belongs to the caller; every decision about bytes is here.

use crate::error::{ServoError, ServoErrorView};
use crate::protocol::{
    frame, pack_instruction, parse_response, spec_parse_response, Instruction, ADDR_GOAL_POSITION,
    ADDR_PRESENT_POSITION, ADDR_TORQUE_ENABLE,
};
use vstd::prelude::*;

verus! {

/// Id that addresses every servo on the bus; no servo replies to it.
pub const BROADCAST_ID: u8 = 0xFE;

/// Length of the status reply to a write: header, id, length, status, checksum.
pub const STATUS_REPLY_LEN: usize = 6;

/// Length of the reply to a two-byte position read.
pub const POSITION_REPLY_LEN: usize = 8;

/// Read timeout of a controller built without an explicit one, in milliseconds.
pub const DEFAULT_READ_TIMEOUT_MS: u64 = 20;

/// Time given to the receive buffer to drain before each request, in milliseconds.
pub const FLUSH_TIMEOUT_MS: u64 = 2;

/// Timeout configured on a serial port when it is opened, in milliseconds.
pub const SERIAL_PORT_TIMEOUT_MS: u64 = 100;

/// Value written to the torque register that makes the present position the middle.
pub const MIDDLE_POSITION_COMMAND: u8 = 128;

/// Number of attempts made to set the middle position.
pub const MIDDLE_POSITION_ATTEMPTS: u8 = 3;

/// Reply timeout of one attempt to set the middle position, in milliseconds.
pub const MIDDLE_POSITION_TIMEOUT_MS: u64 = 1000;

/// Pause between two attempts to set the middle position, in milliseconds.
pub const MIDDLE_POSITION_RETRY_DELAY_MS: u64 = 50;

/// Two's-complement bit pattern of a 16-bit signed value, as a number in `0..65536`.
pub open spec fn i16_bits(v: i16) -> int {
    if v < 0 {
        v + 65536
    } else {
        v as int
    }
}

/// Low byte of the little-endian encoding of `v`.
pub open spec fn i16_low(v: i16) -> u8 {
    (i16_bits(v) % 256) as u8
}

/// High byte of the little-endian encoding of `v`.
pub open spec fn i16_high(v: i16) -> u8 {
    (i16_bits(v) / 256) as u8
}

/// The signed 16-bit value whose little-endian bytes are `lo`, `hi`.
pub open spec fn i16_of_le(lo: u8, hi: u8) -> int {
    let u = lo + 256 * hi;
    if u >= 32768 {
        u - 65536
    } else {
        u
    }
}

/// Little-endian bytes of a signed 16-bit value (`i16::to_le_bytes`).
pub fn i16_to_le(v: i16) -> (bytes: (u8, u8))
    ensures
        bytes.0 == i16_low(v),
        bytes.1 == i16_high(v),
{
    let bits: u32 = if v < 0 {
        (v as i32 + 65536) as u32
    } else {
        v as u32
    };
    ((bits % 256) as u8, (bits / 256) as u8)
}

/// Signed 16-bit value from its little-endian bytes (`i16::from_le_bytes`).
pub fn i16_from_le(lo: u8, hi: u8) -> (v: i16)
    ensures
        v as int == i16_of_le(lo, hi),
{
    let u: u32 = lo as u32 + 256 * (hi as u32);
    if u >= 32768 {
        (u as i32 - 65536) as i16
    } else {
        u as i16
    }
}

/// The decoded value is the signed 16-bit number whose two's-complement
/// bit pattern is `lo + 256 * hi`: it lies in the `i16` range and agrees
/// with `lo + 256 * hi` modulo 65536.
pub proof fn lemma_i16_of_le_value(lo: u8, hi: u8)
    ensures
        -32768 <= i16_of_le(lo, hi) < 32768,
        i16_of_le(lo, hi) % 65536 == lo + 256 * hi,
{
}

/// The little-endian bytes of a value are its low and high byte: both below
/// 256, and `low + 256 * high` agrees with the value modulo 65536.
pub proof fn lemma_i16_le_bytes_value(v: i16)
    ensures
        i16_low(v) < 256,
        i16_high(v) < 256,
        i16_low(v) + 256 * i16_high(v) == (v as int) % 65536,
{
}

/// Decoding the little-endian bytes of a value gives the value back.
pub proof fn lemma_i16_le_roundtrip(v: i16)
    ensures
        i16_of_le(i16_low(v), i16_high(v)) == v,
{
}

/// Encoding a decoded value gives the bytes back.
pub proof fn lemma_i16_le_bytes_roundtrip(lo: u8, hi: u8)
    ensures
        i16_low(i16_of_le(lo, hi) as i16) == lo,
        i16_high(i16_of_le(lo, hi) as i16) == hi,
{
}

/// Packet writing one byte `value` to register `address` of servo `id`.
pub fn write_byte_packet(id: u8, address: u8, value: u8) -> (packet: Vec<u8>)
    ensures
        packet@ == frame(id, Instruction::Write.code_of(), seq![address, value]),
{
    let params: [u8; 2] = [address, value];
    let packet = pack_instruction(id, Instruction::Write, params.as_slice());
    assert(params@ =~= seq![address, value]);
    packet
}

/// Packet writing the 16-bit `value`, low byte first, to registers
/// `address` and `address + 1` of servo `id`.
pub fn write_word_packet(id: u8, address: u8, value: u16) -> (packet: Vec<u8>)
    ensures
        packet@ == frame(
            id,
            Instruction::Write.code_of(),
            seq![address, (value % 256) as u8, (value / 256) as u8],
        ),
{
    let lo = (value % 256) as u8;
    let hi = (value / 256) as u8;
    let params: [u8; 3] = [address, lo, hi];
    let packet = pack_instruction(id, Instruction::Write, params.as_slice());
    assert(params@ =~= seq![address, lo, hi]);
    packet
}

/// Packet switching the torque of servo `id` on (`1`) or off (`0`).
pub fn torque_packet(id: u8, enable: bool) -> (packet: Vec<u8>)
    ensures
        packet@ == frame(
            id,
            Instruction::Write.code_of(),
            seq![ADDR_TORQUE_ENABLE, if enable { 1u8 } else { 0u8 }],
        ),
{
    write_byte_packet(id, ADDR_TORQUE_ENABLE, if enable { 1 } else { 0 })
}

/// Packet making the present position of servo `id` its middle position.
pub fn middle_position_packet(id: u8) -> (packet: Vec<u8>)
    ensures
        packet@ == frame(
            id,
            Instruction::Write.code_of(),
            seq![ADDR_TORQUE_ENABLE, MIDDLE_POSITION_COMMAND],
        ),
{
    write_byte_packet(id, ADDR_TORQUE_ENABLE, MIDDLE_POSITION_COMMAND)
}

/// Packet reading the two bytes of the present position of servo `id`.
pub fn read_position_packet(id: u8) -> (packet: Vec<u8>)
    ensures
        packet@ == frame(id, Instruction::Read.code_of(), seq![ADDR_PRESENT_POSITION, 2u8]),
{
    let params: [u8; 2] = [ADDR_PRESENT_POSITION, 2];
    let packet = pack_instruction(id, Instruction::Read, params.as_slice());
    assert(params@ =~= seq![ADDR_PRESENT_POSITION, 2u8]);
    packet
}

/// Raw position of servo `id` from its reply to [`read_position_packet`]:
/// the first two parameters, little endian, or the reply's error. An
/// accepted reply must carry at least two parameters, as every reply of
/// [`POSITION_REPLY_LEN`] bytes does.
pub fn decode_position(id: u8, reply: &[u8]) -> (r: Result<i16, ServoError>)
    requires
        spec_parse_response(id, reply@) matches Ok(params) ==> params.len() >= 2,
    ensures
        match spec_parse_response(id, reply@) {
            Ok(params) => r matches Ok(v) && v as int == i16_of_le(params[0], params[1]),
            Err(e) => r matches Err(err) && err@ == e,
        },
{
    match parse_response(id, reply) {
        Ok(params) => Ok(i16_from_le(params[0], params[1])),
        Err(e) => Err(e),
    }
}

/// A goal for one servo, in raw position ticks, or a control mode that
/// the packet being built does not carry.
#[derive(Debug, Clone, Copy, PartialEq, Eq, Structural)]
pub enum GoalTarget {
    /// Goal position in raw ticks.
    Ticks(i16),
    /// A control mode with no goal-position encoding.
    Unsupported,
}

/// Parameters of a goal-position write: the register, then the tick value low byte first.
pub open spec fn goal_params(ticks: i16) -> Seq<u8> {
    seq![ADDR_GOAL_POSITION, i16_low(ticks), i16_high(ticks)]
}

/// A goal write carries the goal it was given: the goal-position register,
/// then two bytes `lo`, `hi` with `lo + 256 * hi` equal to the ticks
/// modulo 65536.
pub proof fn lemma_goal_params_carry_ticks(t: i16)
    ensures
        goal_params(t).len() == 3,
        goal_params(t)[0] == 42,
        goal_params(t)[1] + 256 * goal_params(t)[2] == (t as int) % 65536,
{
    lemma_i16_le_bytes_value(t);
}

/// Packet writing the goal of servo `id`, or the error for a mode it cannot carry.
pub fn goal_packet(id: u8, target: GoalTarget) -> (r: Result<Vec<u8>, ServoError>)
    ensures
        match target {
            GoalTarget::Ticks(t) => r matches Ok(packet) && packet@ == frame(
                id,
                Instruction::Write.code_of(),
                goal_params(t),
            ),
            GoalTarget::Unsupported => r matches Err(e) && e@ == ServoErrorView::Protocol(
                "Unsupported control mode"@,
            ),
        },
{
    match target {
        GoalTarget::Ticks(t) => {
            let (lo, hi) = i16_to_le(t);
            let params: [u8; 3] = [ADDR_GOAL_POSITION, lo, hi];
            let packet = pack_instruction(id, Instruction::Write, params.as_slice());
            assert(params@ =~= goal_params(t));
            Ok(packet)
        },
        GoalTarget::Unsupported => Err(
            ServoError::Protocol(String::from_str("Unsupported control mode")),
        ),
    }
}

/// Bytes of one servo's entry in a synchronized write: id, then ticks low byte first.
pub open spec fn sync_entry(goal: (u8, GoalTarget)) -> Seq<u8> {
    match goal.1 {
        GoalTarget::Ticks(t) => seq![goal.0, i16_low(t), i16_high(t)],
        GoalTarget::Unsupported => Seq::empty(),
    }
}

/// Parameters of a synchronized goal-position write: register, data length
/// per servo (2), then one entry per goal in order.
pub open spec fn sync_params(goals: Seq<(u8, GoalTarget)>) -> Seq<u8>
    decreases goals.len(),
{
    if goals.len() == 0 {
        seq![ADDR_GOAL_POSITION, 2u8]
    } else {
        sync_params(goals.drop_last()) + sync_entry(goals.last())
    }
}

/// Whether every goal is in ticks.
pub open spec fn all_ticks(goals: Seq<(u8, GoalTarget)>) -> bool {
    forall|i: int| 0 <= i < goals.len() ==> #[trigger] goals[i].1 is Ticks
}

/// A synchronized write carries two bytes of header and three per goal.
pub proof fn lemma_sync_params_len(goals: Seq<(u8, GoalTarget)>)
    requires
        all_ticks(goals),
    ensures
        sync_params(goals).len() == 2 + 3 * goals.len(),
    decreases goals.len(),
{
    if goals.len() > 0 {
        assert(all_ticks(goals.drop_last()));
        lemma_sync_params_len(goals.drop_last());
        assert(goals.last().1 is Ticks);
    }
}

/// The synchronized goal-position write for `goals`, sent to all servos at once:
/// nothing when there are no goals, the error when a goal is not in ticks,
/// and otherwise the broadcast packet.
pub fn sync_write_packet(goals: &[(u8, GoalTarget)]) -> (r: Result<Option<Vec<u8>>, ServoError>)
    requires
        3 * goals@.len() + 8 <= isize::MAX,
    ensures
        goals@.len() == 0 ==> r matches Ok(None),
        goals@.len() > 0 && !all_ticks(goals@) ==> (r matches Err(e) && e@
            == ServoErrorView::Protocol("SyncWrite only supports Position currently"@)),
        goals@.len() > 0 && all_ticks(goals@) ==> (r matches Ok(Some(packet)) && packet@ == frame(
            BROADCAST_ID,
            Instruction::SyncWrite.code_of(),
            sync_params(goals@),
        )),
{
    if goals.len() == 0 {
        return Ok(None);
    }
    let mut params: Vec<u8> = Vec::new();
    params.push(ADDR_GOAL_POSITION);
    params.push(2);

    let mut i: usize = 0;
    while i < goals.len()
        invariant
            i <= goals@.len(),
            all_ticks(goals@.take(i as int)),
            params@ == sync_params(goals@.take(i as int)),
        decreases goals@.len() - i,
    {
        assert(goals@.take(i + 1).drop_last() =~= goals@.take(i as int));
        let (id, target) = goals[i];
        match target {
            GoalTarget::Ticks(t) => {
                let (lo, hi) = i16_to_le(t);
                params.push(id);
                params.push(lo);
                params.push(hi);
                assert(params@ =~= sync_params(goals@.take(i + 1)));
            },
            GoalTarget::Unsupported => {
                assert(!all_ticks(goals@));
                return Err(
                    ServoError::Protocol(
                        String::from_str("SyncWrite only supports Position currently"),
                    ),
                );
            },
        }
        i = i + 1;
    }
    assert(goals@.take(i as int) =~= goals@);
    proof {
        lemma_sync_params_len(goals@);
    }
    let packet = pack_instruction(BROADCAST_ID, Instruction::SyncWrite, params.as_slice());
    Ok(Some(packet))
}

/// The ticks of a goal, where it has some.
pub open spec fn goal_ticks(target: GoalTarget) -> i16 {
    match target {
        GoalTarget::Ticks(t) => t,
        GoalTarget::Unsupported => 0,
    }
}

/// A synchronized write carries the goals in the order given: entry `k`
/// starts at parameter `2 + 3k` with the servo id, followed by the ticks
/// that decode back to that goal's ticks.
pub proof fn lemma_sync_params_entries(goals: Seq<(u8, GoalTarget)>, k: int)
    requires
        all_ticks(goals),
        0 <= k < goals.len(),
    ensures
        sync_params(goals)[2 + 3 * k] == goals[k].0,
        i16_of_le(sync_params(goals)[3 + 3 * k], sync_params(goals)[4 + 3 * k]) == goal_ticks(
            goals[k].1,
        ),
    decreases goals.len(),
{
    let rest = goals.drop_last();
    assert(all_ticks(rest));
    lemma_sync_params_len(rest);
    assert(goals.last().1 is Ticks);
    if k < goals.len() - 1 {
        lemma_sync_params_entries(rest, k);
        assert(rest[k] == goals[k]);
    } else {
        lemma_i16_le_roundtrip(goal_ticks(goals[k].1));
    }
}

/// What to do after one attempt to set the middle position.
#[derive(Debug)]
pub enum RetryAction<E> {
    /// Stop and report this result.
    Finish(Result<(), E>),
    /// Wait `delay_ms` milliseconds, then make attempt `next_attempt`.
    Retry { next_attempt: u8, delay_ms: u64 },
}

/// Decides, after attempt `attempt` (counted from 1) of setting the middle
/// position ended with `outcome`, whether to stop or to try again.
/// Success stops at once; a failure is retried after a pause until the
/// last attempt, whose error is the one reported.
pub fn middle_position_step<T, E>(attempt: u8, outcome: Result<T, E>) -> (action: RetryAction<E>)
    requires
        1 <= attempt <= MIDDLE_POSITION_ATTEMPTS,
    ensures
        match outcome {
            Ok(_) => action matches RetryAction::Finish(Ok(())),
            Err(e) => if attempt < MIDDLE_POSITION_ATTEMPTS {
                action matches RetryAction::Retry { next_attempt, delay_ms } && next_attempt
                    == attempt + 1 && delay_ms == MIDDLE_POSITION_RETRY_DELAY_MS
            } else {
                action == RetryAction::<E>::Finish(Err(e))
            },
        },
{
    match outcome {
        Ok(_) => RetryAction::Finish(Ok(())),
        Err(e) => {
            if attempt < MIDDLE_POSITION_ATTEMPTS {
                RetryAction::Retry {
                    next_attempt: attempt + 1,
                    delay_ms: MIDDLE_POSITION_RETRY_DELAY_MS,
                }
            } else {
                RetryAction::Finish(Err(e))
            }
        },
    }
}

} // verus!
