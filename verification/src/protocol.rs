use crate::error::{bytes_result_view, ServoError, ServoErrorView};
use vstd::prelude::*;

verus! {

/// The two-byte frame header `0xFF 0xFF`.
pub const HEADER: u16 = 0xFFFF;

/// Control-table address of the torque switch (STS/SMS).
pub const ADDR_TORQUE_ENABLE: u8 = 40;

/// Control-table address of the goal position (STS/SMS).
pub const ADDR_GOAL_POSITION: u8 = 42;

/// Control-table address of the present position (STS/SMS).
pub const ADDR_PRESENT_POSITION: u8 = 56;

/// Instruction set of the protocol.
#[derive(Debug, Clone, Copy, PartialEq, Eq, Structural)]
pub enum Instruction {
    Ping,
    Read,
    Write,
    RegWrite,
    Action,
    SyncWrite,
}

impl Instruction {
    /// The instruction byte sent on the wire.
    pub open spec fn code_of(self) -> u8 {
        match self {
            Instruction::Ping => 0x01,
            Instruction::Read => 0x02,
            Instruction::Write => 0x03,
            Instruction::RegWrite => 0x04,
            Instruction::Action => 0x05,
            Instruction::SyncWrite => 0x83,
        }
    }

    /// The instruction byte sent on the wire.
    pub fn code(self) -> (c: u8)
        ensures
            c == self.code_of(),
    {
        match self {
            Instruction::Ping => 0x01,
            Instruction::Read => 0x02,
            Instruction::Write => 0x03,
            Instruction::RegWrite => 0x04,
            Instruction::Action => 0x05,
            Instruction::SyncWrite => 0x83,
        }
    }
}

/// Sum of a byte sequence as a natural number.
pub open spec fn byte_sum(s: Seq<u8>) -> nat
    decreases s.len(),
{
    if s.len() == 0 {
        0
    } else {
        byte_sum(s.drop_last()) + s.last() as nat
    }
}

/// `~(id + length + instruction + params) & 0xFF`.
pub open spec fn spec_checksum(id: u8, length: u8, instruction: u8, params: Seq<u8>) -> u8 {
    (255 - ((id + length + instruction + byte_sum(params)) % 256)) as u8
}

/// Checksum of a packet: the bitwise complement of the low byte of
/// `id + length + instruction + sum(params)`.
pub fn calculate_checksum(id: u8, length: u8, instruction: u8, params: &[u8]) -> (c: u8)
    ensures
        c == spec_checksum(id, length, instruction, params@),
{
    let mut sum: u8 = ((id as u16 + length as u16 + instruction as u16) % 256) as u8;
    let mut i: usize = 0;
    while i < params.len()
        invariant
            i <= params@.len(),
            sum as int == (id + length + instruction + byte_sum(params@.take(i as int))) % 256,
        decreases params@.len() - i,
    {
        assert(params@.take(i + 1).drop_last() =~= params@.take(i as int));
        sum = ((sum as u16 + params[i] as u16) % 256) as u8;
        i = i + 1;
    }
    assert(params@.take(i as int) =~= params@);
    let c = !sum;
    assert(!sum == 255 - sum) by (bit_vector);
    c
}

/// The length byte of a packet with `n` parameters: instruction (or
/// status), parameters and checksum, kept to its low eight bits.
pub open spec fn length_byte(n: nat) -> u8 {
    ((n + 2) % 256) as u8
}

/// A packet on the wire: `0xFF 0xFF id length code params.. checksum`.
/// Instruction packets carry an instruction code, status packets the
/// servo's status byte, in the same place.
pub open spec fn frame(id: u8, code: u8, params: Seq<u8>) -> Seq<u8> {
    let length = length_byte(params.len());
    seq![0xFFu8, 0xFFu8, id, length, code] + params + seq![
        spec_checksum(id, length, code, params),
    ]
}

/// `BufMut::put_u8` of the `bytes` crate on a `Vec<u8>`: appends one byte.
/// It extends the vector by one element, which panics only when the
/// vector would exceed `isize::MAX` bytes.
#[verifier::external_body]
fn put_u8(buf: &mut Vec<u8>, n: u8)
    requires
        old(buf)@.len() < isize::MAX,
    ensures
        final(buf)@ == old(buf)@.push(n),
{
    bytes::BufMut::put_u8(buf, n);
}

/// Builds an instruction packet for servo `id`.
pub fn pack_instruction(id: u8, instr: Instruction, params: &[u8]) -> (packet: Vec<u8>)
    requires
        params@.len() + 6 <= isize::MAX,
    ensures
        packet@ == frame(id, instr.code_of(), params@),
{
    let length: u8 = ((params.len() + 2) % 256) as u8;
    let instr_byte = instr.code();

    let mut buf: Vec<u8> = Vec::with_capacity(length as usize + 4);
    put_u8(&mut buf, 0xFF);
    put_u8(&mut buf, 0xFF);
    put_u8(&mut buf, id);
    put_u8(&mut buf, length);
    put_u8(&mut buf, instr_byte);
    buf.extend_from_slice(params);
    assert(buf@ =~= seq![0xFFu8, 0xFFu8, id, length, instr_byte] + params@);

    let checksum = calculate_checksum(id, length, instr_byte, params);
    put_u8(&mut buf, checksum);
    buf
}

/// Names of the faults flagged in a status byte, lowest bit first:
/// bit 0 input voltage, bit 1 angle limit, bit 2 overheating,
/// bit 3 range, bit 4 overload. Bits 5 to 7 name no fault.
pub open spec fn fault_names(status: u8) -> Seq<Seq<char>> {
    let s0: Seq<Seq<char>> = Seq::empty();
    let s1 = if status & 0x01 != 0 { s0.push("Input Voltage Error"@) } else { s0 };
    let s2 = if status & 0x02 != 0 { s1.push("Angle Limit Error"@) } else { s1 };
    let s3 = if status & 0x04 != 0 { s2.push("Overheating"@) } else { s2 };
    let s4 = if status & 0x08 != 0 { s3.push("Range Error"@) } else { s3 };
    if status & 0x10 != 0 { s4.push("Overload"@) } else { s4 }
}

/// `parts` joined with `sep` between neighbours.
pub open spec fn join(parts: Seq<Seq<char>>, sep: Seq<char>) -> Seq<char>
    decreases parts.len(),
{
    if parts.len() == 0 {
        Seq::empty()
    } else if parts.len() == 1 {
        parts[0]
    } else {
        join(parts.drop_last(), sep) + sep + parts.last()
    }
}

/// The message describing the faults of a status byte.
pub open spec fn fault_message(status: u8) -> Seq<char> {
    join(fault_names(status), ", "@)
}

/// The characters of each part.
pub open spec fn part_views(parts: Seq<&str>) -> Seq<Seq<char>> {
    parts.map_values(|p: &str| p@)
}

/// Concatenates `parts` with `sep` between neighbours.
pub fn join_parts(parts: &Vec<&str>, sep: &str) -> (s: String)
    ensures
        s@ == join(part_views(parts@), sep@),
{
    let mut s = String::new();
    let mut i: usize = 0;
    while i < parts.len()
        invariant
            i <= parts@.len(),
            s@ == join(part_views(parts@.take(i as int)), sep@),
        decreases parts@.len() - i,
    {
        let ghost before = part_views(parts@.take(i as int));
        assert(part_views(parts@.take(i + 1)) =~= before.push(parts@[i as int]@));
        assert(before.push(parts@[i as int]@).drop_last() =~= before);
        if i > 0 {
            s.append(sep);
        }
        s.append(parts[i]);
        i = i + 1;
    }
    assert(parts@.take(i as int) =~= parts@);
    s
}

/// Describes the hardware faults flagged in a status byte, joined by `", "`.
pub fn decode_hardware_error(status: u8) -> (msg: String)
    ensures
        msg@ == fault_message(status),
        msg@.len() == 0 <==> status & 0x1F == 0,
{
    let mut errs: Vec<&str> = Vec::new();
    if status & 0x01 != 0 {
        errs.push("Input Voltage Error");
    }
    if status & 0x02 != 0 {
        errs.push("Angle Limit Error");
    }
    if status & 0x04 != 0 {
        errs.push("Overheating");
    }
    if status & 0x08 != 0 {
        errs.push("Range Error");
    }
    if status & 0x10 != 0 {
        errs.push("Overload");
    }
    assert(part_views(errs@) =~= fault_names(status));
    proof {
        lemma_fault_message_empty(status);
    }
    join_parts(&errs, ", ")
}

/// Each of the five fault names is listed exactly when its bit is set:
/// input voltage bit 0, angle limit bit 1, overheating bit 2, range bit 3,
/// overload bit 4; no other name is listed, and each at most once.
pub proof fn lemma_fault_names_by_bit(status: u8)
    ensures
        fault_names(status).contains("Input Voltage Error"@) <==> status & 0x01 != 0,
        fault_names(status).contains("Angle Limit Error"@) <==> status & 0x02 != 0,
        fault_names(status).contains("Overheating"@) <==> status & 0x04 != 0,
        fault_names(status).contains("Range Error"@) <==> status & 0x08 != 0,
        fault_names(status).contains("Overload"@) <==> status & 0x10 != 0,
        forall|x: Seq<char>| #[trigger] fault_names(status).contains(x) ==> x == "Input Voltage Error"@
            || x == "Angle Limit Error"@ || x == "Overheating"@ || x == "Range Error"@ || x
            == "Overload"@,
        fault_names(status).no_duplicates(),
{
    reveal_strlit("Input Voltage Error");
    reveal_strlit("Angle Limit Error");
    reveal_strlit("Overheating");
    reveal_strlit("Range Error");
    reveal_strlit("Overload");
    let a = "Input Voltage Error"@;
    let b = "Angle Limit Error"@;
    let c = "Overheating"@;
    let d = "Range Error"@;
    let e = "Overload"@;
    assert(a != b && a != c && a != d && a != e) by {
        assert(a.len() != b.len() && a.len() != c.len() && a.len() != d.len() && a.len() != e.len());
    }
    assert(b != c && b != d && b != e) by {
        assert(b.len() != c.len() && b.len() != d.len() && b.len() != e.len());
    }
    assert(c != d) by {
        assert(c[0] != d[0]);
    }
    assert(c != e && d != e) by {
        assert(c.len() != e.len() && d.len() != e.len());
    }
    let s0: Seq<Seq<char>> = Seq::empty();
    let s1 = if status & 0x01 != 0 { s0.push(a) } else { s0 };
    let s2 = if status & 0x02 != 0 { s1.push(b) } else { s1 };
    let s3 = if status & 0x04 != 0 { s2.push(c) } else { s2 };
    let s4 = if status & 0x08 != 0 { s3.push(d) } else { s3 };
    let s5 = if status & 0x10 != 0 { s4.push(e) } else { s4 };
    assert(s5 == fault_names(status));
    lemma_push_contains(s0, a);
    lemma_push_contains(s1, b);
    lemma_push_contains(s2, c);
    lemma_push_contains(s3, d);
    lemma_push_contains(s4, e);
}

/// Pushing `x` adds exactly `x` to the contents, and keeps a list without
/// repeats free of repeats when `x` is new.
proof fn lemma_push_contains(s: Seq<Seq<char>>, x: Seq<char>)
    ensures
        forall|y: Seq<char>| #[trigger] s.push(x).contains(y) <==> (s.contains(y) || y == x),
        s.no_duplicates() && !s.contains(x) ==> s.push(x).no_duplicates(),
{
    assert forall|y: Seq<char>| #[trigger] s.push(x).contains(y) <==> (s.contains(y) || y == x) by {
        if s.push(x).contains(y) && y != x {
            let j = choose|j: int| 0 <= j < s.push(x).len() && s.push(x)[j] == y;
            assert(s[j] == y);
        }
        if s.contains(y) {
            let j = choose|j: int| 0 <= j < s.len() && s[j] == y;
            assert(s.push(x)[j] == y);
        }
        if y == x {
            assert(s.push(x)[s.len() as int] == y);
        }
    }
    if s.no_duplicates() && !s.contains(x) {
        assert forall|i: int, j: int| 0 <= i < s.push(x).len() && 0 <= j < s.push(x).len() && i != j
            implies s.push(x)[i] != s.push(x)[j] by {
            if i == s.len() {
                assert(s[j] == s.push(x)[j]);
            } else if j == s.len() {
                assert(s[i] == s.push(x)[i]);
            }
        }
    }
}

/// The fault message is empty exactly when none of the five fault bits is set.
pub proof fn lemma_fault_message_empty(status: u8)
    ensures
        fault_message(status).len() == 0 <==> status & 0x1F == 0,
{
    reveal_strlit("Input Voltage Error");
    reveal_strlit("Angle Limit Error");
    reveal_strlit("Overheating");
    reveal_strlit("Range Error");
    reveal_strlit("Overload");
    reveal_strlit(", ");
    let names = fault_names(status);
    lemma_join_empty(names, ", "@);
    assert(status & 0x1F == 0 <==> (status & 0x01 == 0 && status & 0x02 == 0 && status & 0x04 == 0
        && status & 0x08 == 0 && status & 0x10 == 0)) by (bit_vector);
    assert(names.len() == 0 <==> status & 0x1F == 0);
}

/// A join of parts that are all non-empty is empty exactly when there are no parts.
proof fn lemma_join_empty(parts: Seq<Seq<char>>, sep: Seq<char>)
    requires
        forall|i: int| 0 <= i < parts.len() ==> #[trigger] parts[i].len() > 0,
    ensures
        join(parts, sep).len() == 0 <==> parts.len() == 0,
    decreases parts.len(),
{
    if parts.len() > 1 {
        lemma_join_empty(parts.drop_last(), sep);
        assert(parts.last().len() > 0);
    } else if parts.len() == 1 {
        assert(parts[0].len() > 0);
    }
}

/// The character of a decimal digit `d < 10`.
pub open spec fn digit_char(d: nat) -> char {
    (d + 48) as char
}

/// Decimal notation of `n`, most significant digit first, no leading zeros.
pub open spec fn decimal(n: nat) -> Seq<char>
    decreases n,
{
    if n < 10 {
        seq![digit_char(n)]
    } else {
        decimal(n / 10).push(digit_char(n % 10))
    }
}

/// `ToString::to_string` on a `u8`, through its `Display` impl: std
/// documents integer `Display` as the decimal number, and unsigned values
/// carry no sign and no leading zeros.
#[verifier::external_body]
fn u8_to_decimal(n: u8) -> (s: String)
    ensures
        s@ == decimal(n as nat),
{
    n.to_string()
}

/// Text of the error for a reply from another servo than the one addressed.
pub open spec fn id_mismatch_text(sent: u8, got: u8) -> Seq<char> {
    "ID mismatch, sent "@ + decimal(sent as nat) + ", got "@ + decimal(got as nat)
}

/// What a reply of servo `id` holds: its parameters, or the error that
/// the first failing check gives. Checks, in order: at least six bytes,
/// the `0xFF 0xFF` header, the id byte, the checksum over id, length
/// byte, status byte and parameters, and a zero status byte.
pub open spec fn spec_parse_response(id: u8, data: Seq<u8>) -> Result<Seq<u8>, ServoErrorView> {
    if data.len() < 6 {
        Err(ServoErrorView::Protocol("Response too short"@))
    } else if data[0] != 0xFF || data[1] != 0xFF {
        Err(ServoErrorView::Protocol("Invalid header"@))
    } else if data[2] != id {
        Err(ServoErrorView::Protocol(id_mismatch_text(id, data[2])))
    } else {
        let length = data[3];
        let status = data[4];
        let params = data.subrange(5, data.len() - 1);
        let received = data[data.len() - 1];
        let expected = spec_checksum(id, length, status, params);
        if received != expected {
            Err(ServoErrorView::ChecksumMismatch { id, expected, actual: received })
        } else if status != 0 {
            Err(ServoErrorView::HardwareError { id, status_byte: status, msg: fault_message(status) })
        } else {
            Ok(params)
        }
    }
}

/// Parses and checks a status packet `0xFF 0xFF id length status params.. checksum`
/// from servo `id` and returns its parameters.
pub fn parse_response(id: u8, data: &[u8]) -> (r: Result<Vec<u8>, ServoError>)
    ensures
        bytes_result_view(r) == spec_parse_response(id, data@),
{
    if data.len() < 6 {
        return Err(ServoError::Protocol(String::from_str("Response too short")));
    }
    if data[0] != 0xFF || data[1] != 0xFF {
        return Err(ServoError::Protocol(String::from_str("Invalid header")));
    }
    if data[2] != id {
        let mut msg = String::from_str("ID mismatch, sent ");
        let sent_text = u8_to_decimal(id);
        msg.append(sent_text.as_str());
        msg.append(", got ");
        let got_text = u8_to_decimal(data[2]);
        msg.append(got_text.as_str());
        return Err(ServoError::Protocol(msg));
    }
    let length = data[3];
    let status = data[4];

    let params = vstd::slice::slice_subrange(data, 5, data.len() - 1);
    let received_checksum = data[data.len() - 1];
    let calc_checksum = calculate_checksum(id, length, status, params);

    if received_checksum != calc_checksum {
        return Err(ServoError::ChecksumMismatch { id, expected: calc_checksum, actual: received_checksum });
    }
    if status != 0 {
        let msg = decode_hardware_error(status);
        return Err(ServoError::HardwareError { id, status_byte: status, msg });
    }
    Ok(vstd::slice::slice_to_vec(params))
}

} // verus!
