//! Properties of the packet format that span framing and checking.

use crate::error::ServoErrorView;
use crate::protocol::{byte_sum, fault_message, frame, length_byte, spec_checksum, spec_parse_response};
use vstd::prelude::*;

verus! {

/// The byte sum of a concatenation is the sum of the byte sums.
pub proof fn lemma_byte_sum_concat(a: Seq<u8>, b: Seq<u8>)
    ensures
        byte_sum(a + b) == byte_sum(a) + byte_sum(b),
    decreases b.len(),
{
    if b.len() == 0 {
        assert(a + b =~= a);
    } else {
        lemma_byte_sum_concat(a, b.drop_last());
        assert((a + b).drop_last() =~= a + b.drop_last());
    }
}

/// The byte sum of a single byte is that byte; with the concatenation law
/// this fixes the byte sum of every sequence.
pub proof fn lemma_byte_sum_single(b: u8)
    ensures
        byte_sum(seq![b]) == b,
{
    assert(seq![b].drop_last() =~= Seq::<u8>::empty());
    reveal_with_fuel(byte_sum, 2);
}

/// Replacing one byte changes the byte sum by the difference of the two bytes.
pub proof fn lemma_byte_sum_update(s: Seq<u8>, j: int, b: u8)
    requires
        0 <= j < s.len(),
    ensures
        byte_sum(s.update(j, b)) == byte_sum(s) - s[j] + b,
    decreases s.len(),
{
    if j == s.len() - 1 {
        assert(s.update(j, b).drop_last() =~= s.drop_last());
    } else {
        lemma_byte_sum_update(s.drop_last(), j, b);
        assert(s.update(j, b).drop_last() =~= s.drop_last().update(j, b));
    }
}

/// Adding two different bytes to the same number gives different residues mod 256.
proof fn lemma_residue_differs(x: int, a: int, b: int)
    requires
        0 <= a < 256,
        0 <= b < 256,
        a != b,
    ensures
        (x + a) % 256 != (x + b) % 256,
{
    assert((x + a) % 256 != (x + b) % 256) by (nonlinear_arith)
        requires
            0 <= a < 256,
            0 <= b < 256,
            a != b,
    ;
}

/// Checksums over the same id, length and code byte differ when the parameters'
/// byte sums differ by less than 256 in either direction and are not equal.
proof fn lemma_checksum_differs(id: u8, length: u8, code: u8, p: Seq<u8>, q: Seq<u8>)
    requires
        byte_sum(p) != byte_sum(q),
        byte_sum(q) - 256 < byte_sum(p) < byte_sum(q) + 256,
    ensures
        spec_checksum(id, length, code, p) != spec_checksum(id, length, code, q),
{
    let x = id + length + code + byte_sum(q);
    let d = byte_sum(p) - byte_sum(q);
    if d > 0 {
        lemma_residue_differs(x, d, 0);
    } else {
        lemma_residue_differs(x + d, 0, -d);
    }
}

/// The bytes after the header of a packet with any length byte, followed by
/// its checksum, sum to 255 modulo 256.
proof fn lemma_balance(id: u8, length: u8, code: u8, params: Seq<u8>)
    ensures
        byte_sum(seq![id, length, code] + params + seq![spec_checksum(id, length, code, params)])
            % 256 == 255,
{
    let c = spec_checksum(id, length, code, params);
    let head = seq![id, length, code];
    lemma_byte_sum_concat(head + params, seq![c]);
    lemma_byte_sum_concat(head, params);
    assert(head.drop_last().drop_last().drop_last() =~= Seq::<u8>::empty());
    assert(head.drop_last().drop_last() =~= seq![id]);
    assert(head.drop_last() =~= seq![id, length]);
    assert(byte_sum(head) == id + length + code) by {
        reveal_with_fuel(byte_sum, 4);
    }
    assert(seq![c].drop_last() =~= Seq::<u8>::empty());
    assert(byte_sum(seq![c]) == c) by {
        reveal_with_fuel(byte_sum, 2);
    }
    let t = id + length + code + byte_sum(params);
    assert((t + (255 - t % 256)) % 256 == 255) by (nonlinear_arith)
        requires
            t >= 0,
    ;
}

/// Every packet balances: the bytes after the header sum to 255 modulo 256.
pub proof fn lemma_frame_sums_to_255(id: u8, code: u8, params: Seq<u8>)
    ensures
        ({
            let f = frame(id, code, params);
            byte_sum(f.subrange(2, f.len() as int)) % 256 == 255
        }),
{
    let f = frame(id, code, params);
    let length = length_byte(params.len());
    let c = spec_checksum(id, length, code, params);
    assert(f.subrange(2, f.len() as int) =~= seq![id, length, code] + params + seq![c]);
    lemma_balance(id, length, code, params);
}

/// A reply is accepted only when it starts with the header, comes from the
/// servo addressed, reports a zero status, and balances: its bytes after the
/// header sum to 255 modulo 256. What it returns is the bytes between the
/// status byte and the checksum.
pub proof fn lemma_accepted_reply(id: u8, data: Seq<u8>)
    requires
        spec_parse_response(id, data) is Ok,
    ensures
        data.len() >= 6,
        data[0] == 0xFF && data[1] == 0xFF,
        data[2] == id,
        data[4] == 0,
        byte_sum(data.subrange(2, data.len() as int)) % 256 == 255,
        spec_parse_response(id, data) == Ok::<Seq<u8>, ServoErrorView>(
            data.subrange(5, data.len() - 1),
        ),
{
    let params = data.subrange(5, data.len() - 1);
    assert(data.subrange(2, data.len() as int) =~= seq![data[2], data[3], data[4]] + params + seq![
        data[data.len() - 1],
    ]);
    lemma_balance(id, data[3], data[4], params);
}

/// A status packet in the packet format parses back to its parameters when the
/// status byte is zero, and to a hardware error naming the status otherwise.
pub proof fn lemma_parse_frame(id: u8, status: u8, params: Seq<u8>)
    ensures
        spec_parse_response(id, frame(id, status, params)) == if status == 0 {
            Ok::<Seq<u8>, ServoErrorView>(params)
        } else {
            Err(ServoErrorView::HardwareError { id, status_byte: status, msg: fault_message(status) })
        },
{
    let f = frame(id, status, params);
    assert(f.subrange(5, f.len() - 1) =~= params);
}

/// A packet with any one byte changed is never accepted: its parse is an error.
pub proof fn lemma_single_byte_corruption_rejected(id: u8, status: u8, params: Seq<u8>, i: int, b: u8)
    requires
        0 <= i < frame(id, status, params).len(),
        b != frame(id, status, params)[i],
    ensures
        spec_parse_response(id, frame(id, status, params).update(i, b)) is Err,
{
    let f = frame(id, status, params);
    let g = f.update(i, b);
    let n = params.len() as int;
    let length = length_byte(params.len());
    assert(f.len() == n + 6);
    if i < 3 {
    } else if i == 3 {
        assert(g.subrange(5, g.len() - 1) =~= params);
        let x = id + status + byte_sum(params);
        lemma_residue_differs(x, length as int, b as int);
        assert(g[g.len() - 1] == f[f.len() - 1]);
    } else if i == 4 {
        assert(g.subrange(5, g.len() - 1) =~= params);
        let x = id + length + byte_sum(params);
        lemma_residue_differs(x, status as int, b as int);
        assert(g[g.len() - 1] == f[f.len() - 1]);
    } else if i < n + 5 {
        let j = i - 5;
        assert(g.subrange(5, g.len() - 1) =~= params.update(j, b));
        lemma_byte_sum_update(params, j, b);
        assert(params[j] == f[i]);
        lemma_checksum_differs(id, length, status, params.update(j, b), params);
        assert(g[g.len() - 1] == f[f.len() - 1]);
    } else {
        assert(g.subrange(5, g.len() - 1) =~= params);
    }
}

/// The layout of every packet: two `0xFF` header bytes, the id, a length
/// byte equal to the parameter count plus two (kept to eight bits), the
/// instruction or status code, the parameters in order, and a last byte
/// that brings the sum of id, length, code, parameters and itself to 255
/// modulo 256.
pub proof fn lemma_frame_layout(id: u8, code: u8, params: Seq<u8>)
    ensures
        ({
            let f = frame(id, code, params);
            &&& f.len() == params.len() + 6
            &&& f[0] == 0xFF
            &&& f[1] == 0xFF
            &&& f[2] == id
            &&& f[3] as int == (params.len() + 2) % 256
            &&& f[4] == code
            &&& forall|i: int| 0 <= i < params.len() ==> f[5 + i] == #[trigger] params[i]
            &&& (id + f[3] + code + byte_sum(params) + f[f.len() - 1]) % 256 == 255
        }),
{
    let f = frame(id, code, params);
    let length = length_byte(params.len());
    let t = id + length + code + byte_sum(params);
    assert((t + (255 - t % 256)) % 256 == 255) by (nonlinear_arith)
        requires
            t >= 0,
    ;
}

/// A reply that starts with the header and the id addressed, but whose bytes
/// after the header do not sum to 255 modulo 256, is rejected as a checksum
/// mismatch whatever its status byte: the error names the servo, carries the
/// reply's last byte as the one received, and as the one expected the byte
/// that would have balanced the reply.
pub proof fn lemma_unbalanced_reply_is_checksum_mismatch(id: u8, data: Seq<u8>)
    requires
        data.len() >= 6,
        data[0] == 0xFF,
        data[1] == 0xFF,
        data[2] == id,
        byte_sum(data.subrange(2, data.len() as int)) % 256 != 255,
    ensures
        spec_parse_response(id, data) matches Err(ServoErrorView::ChecksumMismatch { id: i, expected, actual })
            && i == id && actual == data[data.len() - 1]
            && (byte_sum(data.subrange(2, data.len() - 1)) + expected) % 256 == 255,
{
    let n = data.len() as int;
    let params = data.subrange(5, n - 1);
    let head = seq![data[2], data[3], data[4]];
    let last = data[n - 1];
    assert(data.subrange(2, n - 1) =~= head + params);
    assert(data.subrange(2, n) =~= head + params + seq![last]);
    lemma_byte_sum_concat(head, params);
    lemma_byte_sum_concat(head + params, seq![last]);
    assert(head.drop_last().drop_last().drop_last() =~= Seq::<u8>::empty());
    assert(head.drop_last().drop_last() =~= seq![data[2]]);
    assert(head.drop_last() =~= seq![data[2], data[3]]);
    assert(byte_sum(head) == data[2] + data[3] + data[4]) by {
        reveal_with_fuel(byte_sum, 4);
    }
    assert(seq![last].drop_last() =~= Seq::<u8>::empty());
    assert(byte_sum(seq![last]) == last) by {
        reveal_with_fuel(byte_sum, 2);
    }
    let expected = spec_checksum(id, data[3], data[4], params);
    let t = data[2] + data[3] + data[4] + byte_sum(params);
    assert((t + (255 - t % 256)) % 256 == 255) by (nonlinear_arith)
        requires
            t >= 0,
    ;
    if last == expected {
        assert((t + last) % 256 == 255);
        assert(false);
    }
}

/// A balanced reply from the servo addressed with a non-zero status byte is
/// reported as that servo's hardware fault, with the status byte and its
/// fault names.
pub proof fn lemma_balanced_reply_with_status_is_hardware_error(id: u8, data: Seq<u8>)
    requires
        data.len() >= 6,
        data[0] == 0xFF,
        data[1] == 0xFF,
        data[2] == id,
        data[4] != 0,
        byte_sum(data.subrange(2, data.len() as int)) % 256 == 255,
    ensures
        spec_parse_response(id, data) == Err::<Seq<u8>, ServoErrorView>(
            ServoErrorView::HardwareError { id, status_byte: data[4], msg: fault_message(data[4]) },
        ),
{
    let n = data.len() as int;
    let params = data.subrange(5, n - 1);
    let head = seq![data[2], data[3], data[4]];
    let last = data[n - 1];
    assert(data.subrange(2, n) =~= head + params + seq![last]);
    lemma_byte_sum_concat(head, params);
    lemma_byte_sum_concat(head + params, seq![last]);
    assert(head.drop_last().drop_last().drop_last() =~= Seq::<u8>::empty());
    assert(head.drop_last().drop_last() =~= seq![data[2]]);
    assert(head.drop_last() =~= seq![data[2], data[3]]);
    assert(byte_sum(head) == data[2] + data[3] + data[4]) by {
        reveal_with_fuel(byte_sum, 4);
    }
    assert(seq![last].drop_last() =~= Seq::<u8>::empty());
    assert(byte_sum(seq![last]) == last) by {
        reveal_with_fuel(byte_sum, 2);
    }
    let t = data[2] + data[3] + data[4] + byte_sum(params);
    let expected = spec_checksum(id, data[3], data[4], params);
    assert(expected == last) by (nonlinear_arith)
        requires
            t >= 0,
            (t + last) % 256 == 255,
            expected == 255 - t % 256,
            0 <= last < 256,
    ;
}

} // verus!
