use feetech_servo_sdk::error::ServoError;
use feetech_servo_sdk::protocol::{
    calculate_checksum, decode_hardware_error, join_parts, pack_instruction, parse_response, Instruction,
    ADDR_GOAL_POSITION, ADDR_PRESENT_POSITION, ADDR_TORQUE_ENABLE, HEADER,
};

/// A status packet in the wire format, built by hand.
fn status_packet(id: u8, length: u8, status: u8, params: &[u8]) -> Vec<u8> {
    let mut sum: u32 = id as u32 + length as u32 + status as u32;
    for p in params {
        sum += *p as u32;
    }
    let mut v = vec![0xFF, 0xFF, id, length, status];
    v.extend_from_slice(params);
    v.push(!(sum as u8));
    v
}

#[test]
fn constants_match_the_control_table() {
    assert_eq!(HEADER, 0xFFFF);
    assert_eq!(ADDR_TORQUE_ENABLE, 40);
    assert_eq!(ADDR_GOAL_POSITION, 42);
    assert_eq!(ADDR_PRESENT_POSITION, 56);
}

#[test]
fn instruction_codes() {
    assert_eq!(Instruction::Ping.code(), 0x01);
    assert_eq!(Instruction::Read.code(), 0x02);
    assert_eq!(Instruction::Write.code(), 0x03);
    assert_eq!(Instruction::RegWrite.code(), 0x04);
    assert_eq!(Instruction::Action.code(), 0x05);
    assert_eq!(Instruction::SyncWrite.code(), 0x83);
}

#[test]
fn checksum_is_complement_of_low_byte() {
    // 1 + 4 + 3 + 40 + 1 = 49, !49 = 0xCE
    assert_eq!(calculate_checksum(1, 4, 3, &[40, 1]), 0xCE);
    assert_eq!(calculate_checksum(0, 0, 0, &[]), 0xFF);
    // sums above 255 keep their low byte: 255 * 4 = 1020 = 0x3FC, !0xFC = 0x03
    assert_eq!(calculate_checksum(255, 255, 255, &[255]), 0x03);
}

#[test]
fn pack_torque_enable_packet() {
    let p = pack_instruction(1, Instruction::Write, &[40, 1]);
    assert_eq!(p, vec![0xFF, 0xFF, 0x01, 0x04, 0x03, 0x28, 0x01, 0xCE]);
}

#[test]
fn pack_without_params() {
    // 7 + 2 + 1 = 10, !10 = 0xF5
    let p = pack_instruction(7, Instruction::Ping, &[]);
    assert_eq!(p, vec![0xFF, 0xFF, 0x07, 0x02, 0x01, 0xF5]);
}

#[test]
fn pack_length_byte_keeps_low_eight_bits() {
    let params = vec![0u8; 254];
    let p = pack_instruction(1, Instruction::Write, &params);
    assert_eq!(p.len(), 260);
    assert_eq!(p[3], 0);
    // 1 + 0 + 3 = 4, !4 = 0xFB
    assert_eq!(p[259], 0xFB);
}

#[test]
fn packets_balance_to_255() {
    for (id, instr, params) in [
        (1u8, Instruction::Write, vec![40u8, 1]),
        (0xFE, Instruction::SyncWrite, vec![42, 2, 1, 0, 8, 2, 0, 4]),
        (200, Instruction::Read, vec![56, 2]),
    ] {
        let p = pack_instruction(id, instr, &params);
        let sum: u32 = p[2..].iter().map(|b| *b as u32).sum();
        assert_eq!(sum % 256, 255);
    }
}

#[test]
fn parse_accepts_valid_reply() {
    let data = status_packet(1, 4, 0, &[0x00, 0x08]);
    assert_eq!(data, vec![0xFF, 0xFF, 1, 4, 0, 0x00, 0x08, 0xF2]);
    assert_eq!(parse_response(1, &data).unwrap(), vec![0x00, 0x08]);
}

#[test]
fn parse_accepts_reply_without_params() {
    let data = vec![0xFF, 0xFF, 3, 2, 0, 0xFA];
    assert_eq!(parse_response(3, &data).unwrap(), Vec::<u8>::new());
}

#[test]
fn parse_does_not_check_length_byte() {
    let data = status_packet(1, 9, 0, &[5]);
    assert_eq!(parse_response(1, &data).unwrap(), vec![5]);
}

#[test]
fn parse_rejects_short_reply() {
    let r = parse_response(1, &[0xFF, 0xFF, 1, 2, 0]);
    assert!(matches!(r, Err(ServoError::Protocol(ref m)) if m == "Response too short"));
    let r = parse_response(1, &[]);
    assert!(matches!(r, Err(ServoError::Protocol(ref m)) if m == "Response too short"));
}

#[test]
fn parse_rejects_bad_header() {
    let mut data = status_packet(1, 2, 0, &[]);
    data[1] = 0xFE;
    let r = parse_response(1, &data);
    assert!(matches!(r, Err(ServoError::Protocol(ref m)) if m == "Invalid header"));
}

#[test]
fn parse_rejects_other_servo() {
    let data = status_packet(2, 2, 0, &[]);
    let r = parse_response(1, &data);
    assert!(matches!(r, Err(ServoError::Protocol(ref m)) if m == "ID mismatch, sent 1, got 2"));
    let data = status_packet(0, 2, 0, &[]);
    let r = parse_response(254, &data);
    assert!(matches!(r, Err(ServoError::Protocol(ref m)) if m == "ID mismatch, sent 254, got 0"));
    let data = status_packet(57, 2, 0, &[]);
    let r = parse_response(100, &data);
    assert!(matches!(r, Err(ServoError::Protocol(ref m)) if m == "ID mismatch, sent 100, got 57"));
}

#[test]
fn parse_rejects_bad_checksum() {
    let mut data = status_packet(1, 4, 0, &[0x00, 0x08]);
    data[7] = 0x12;
    let r = parse_response(1, &data);
    assert!(matches!(
        r,
        Err(ServoError::ChecksumMismatch { id: 1, expected: 0xF2, actual: 0x12 })
    ));
}

#[test]
fn parse_reports_hardware_fault() {
    let data = status_packet(4, 2, 0x05, &[]);
    match parse_response(4, &data) {
        Err(ServoError::HardwareError { id, status_byte, msg }) => {
            assert_eq!(id, 4);
            assert_eq!(status_byte, 0x05);
            assert_eq!(msg, "Input Voltage Error, Overheating");
        }
        other => panic!("unexpected {:?}", other),
    }
}

#[test]
fn parse_reports_unnamed_status_bits() {
    let data = status_packet(4, 2, 0x20, &[]);
    match parse_response(4, &data) {
        Err(ServoError::HardwareError { status_byte, msg, .. }) => {
            assert_eq!(status_byte, 0x20);
            assert_eq!(msg, "");
        }
        other => panic!("unexpected {:?}", other),
    }
}

#[test]
fn parse_of_an_instruction_packet_reads_its_code_as_status() {
    // The status byte sits where instruction packets carry the instruction.
    let p = pack_instruction(9, Instruction::Ping, &[1, 2, 3]);
    match parse_response(9, &p) {
        Err(ServoError::HardwareError { id, status_byte, msg }) => {
            assert_eq!(id, 9);
            assert_eq!(status_byte, 0x01);
            assert_eq!(msg, "Input Voltage Error");
        }
        other => panic!("unexpected {:?}", other),
    }
}

#[test]
fn frame_round_trip_with_zero_status() {
    for params in [vec![], vec![1u8], vec![0, 255, 17, 42]] {
        let data = status_packet(12, (params.len() + 2) as u8, 0, &params);
        assert_eq!(parse_response(12, &data).unwrap(), params);
    }
}

#[test]
fn every_single_byte_corruption_is_rejected() {
    let good = status_packet(3, 5, 0, &[10, 20, 30]);
    assert!(parse_response(3, &good).is_ok());
    for i in 0..good.len() {
        for delta in [1u8, 2, 128, 255] {
            let mut bad = good.clone();
            bad[i] = bad[i].wrapping_add(delta);
            assert!(parse_response(3, &bad).is_err(), "byte {} changed by {}", i, delta);
        }
    }
}

#[test]
fn decode_hardware_error_names() {
    assert_eq!(decode_hardware_error(0), "");
    assert_eq!(decode_hardware_error(0x01), "Input Voltage Error");
    assert_eq!(decode_hardware_error(0x02), "Angle Limit Error");
    assert_eq!(decode_hardware_error(0x04), "Overheating");
    assert_eq!(decode_hardware_error(0x08), "Range Error");
    assert_eq!(decode_hardware_error(0x10), "Overload");
    assert_eq!(
        decode_hardware_error(0xFF),
        "Input Voltage Error, Angle Limit Error, Overheating, Range Error, Overload"
    );
    assert_eq!(decode_hardware_error(0x12), "Angle Limit Error, Overload");
}

#[test]
fn decode_hardware_error_empty_exactly_without_fault_bits() {
    for s in 0..=255u8 {
        assert_eq!(decode_hardware_error(s).is_empty(), s & 0x1F == 0, "status {}", s);
    }
}

#[test]
fn join_parts_separates_neighbours() {
    assert_eq!(join_parts(&vec![], ", "), "");
    assert_eq!(join_parts(&vec!["a"], ", "), "a");
    assert_eq!(join_parts(&vec!["a", "b", "c"], "-"), "a-b-c");
}

#[test]
fn accepted_replies_balance() {
    let candidates = vec![
        status_packet(1, 4, 0, &[0x00, 0x08]),
        status_packet(1, 77, 0, &[1, 2, 3]),
        vec![0xFF, 0xFF, 1, 2, 0, 0xFC],
        vec![0xFF, 0xFF, 1, 2, 0, 0xFD],
        status_packet(1, 2, 3, &[]),
    ];
    let mut accepted = 0;
    for data in candidates {
        if let Ok(params) = parse_response(1, &data) {
            accepted += 1;
            let sum: u32 = data[2..].iter().map(|b| *b as u32).sum();
            assert_eq!(sum % 256, 255);
            assert_eq!(data[4], 0);
            assert_eq!(params, data[5..data.len() - 1].to_vec());
        }
    }
    assert_eq!(accepted, 3);
}
