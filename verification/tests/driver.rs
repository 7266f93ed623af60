use feetech_servo_sdk::driver::{
    decode_position, goal_packet, i16_from_le, i16_to_le, middle_position_packet, middle_position_step,
    read_position_packet, sync_write_packet, torque_packet, write_byte_packet, write_word_packet,
    GoalTarget, RetryAction, BROADCAST_ID, DEFAULT_READ_TIMEOUT_MS, MIDDLE_POSITION_ATTEMPTS,
    MIDDLE_POSITION_COMMAND, MIDDLE_POSITION_RETRY_DELAY_MS, MIDDLE_POSITION_TIMEOUT_MS,
    POSITION_REPLY_LEN, STATUS_REPLY_LEN,
};
use feetech_servo_sdk::error::ServoError;
use feetech_servo_sdk::protocol::parse_response;

fn status_packet(id: u8, status: u8, params: &[u8]) -> Vec<u8> {
    let length = (params.len() + 2) as u8;
    let mut sum: u32 = id as u32 + length as u32 + status as u32;
    for p in params {
        sum += *p as u32;
    }
    let mut v = vec![0xFF, 0xFF, id, length, status];
    v.extend_from_slice(params);
    v.push(!(sum as u8));
    v
}

#[test]
fn constants() {
    assert_eq!(BROADCAST_ID, 0xFE);
    assert_eq!(STATUS_REPLY_LEN, 6);
    assert_eq!(POSITION_REPLY_LEN, 8);
    assert_eq!(DEFAULT_READ_TIMEOUT_MS, 20);
    assert_eq!(MIDDLE_POSITION_COMMAND, 128);
    assert_eq!(MIDDLE_POSITION_ATTEMPTS, 3);
    assert_eq!(MIDDLE_POSITION_TIMEOUT_MS, 1000);
    assert_eq!(MIDDLE_POSITION_RETRY_DELAY_MS, 50);
}

#[test]
fn write_byte_packet_bytes() {
    // 3 + 4 + 3 + 11 + 7 = 28, !28 = 0xE3
    assert_eq!(write_byte_packet(3, 11, 7), vec![0xFF, 0xFF, 3, 4, 3, 11, 7, 0xE3]);
}

#[test]
fn write_word_packet_is_little_endian() {
    // 1 + 5 + 3 + 42 + 0 + 8 = 59, !59 = 0xC4
    assert_eq!(write_word_packet(1, 42, 2048), vec![0xFF, 0xFF, 1, 5, 3, 42, 0x00, 0x08, 0xC4]);
    let p = write_word_packet(1, 42, 0x1234);
    assert_eq!(&p[5..8], &[42, 0x34, 0x12]);
}

#[test]
fn torque_packets() {
    assert_eq!(torque_packet(1, true), vec![0xFF, 0xFF, 0x01, 0x04, 0x03, 0x28, 0x01, 0xCE]);
    assert_eq!(torque_packet(1, false), vec![0xFF, 0xFF, 0x01, 0x04, 0x03, 0x28, 0x00, 0xCF]);
}

#[test]
fn middle_position_packet_writes_128_to_torque_register() {
    // 2 + 4 + 3 + 40 + 128 = 177, !177 = 0x4E
    assert_eq!(middle_position_packet(2), vec![0xFF, 0xFF, 2, 4, 3, 40, 128, 0x4E]);
}

#[test]
fn read_position_packet_bytes() {
    // 1 + 4 + 2 + 56 + 2 = 65, !65 = 0xBE
    assert_eq!(read_position_packet(1), vec![0xFF, 0xFF, 1, 4, 2, 56, 2, 0xBE]);
}

#[test]
fn decode_position_values() {
    assert_eq!(decode_position(1, &status_packet(1, 0, &[0x00, 0x08])).unwrap(), 2048);
    assert_eq!(decode_position(1, &status_packet(1, 0, &[0xFF, 0x0F])).unwrap(), 4095);
    assert_eq!(decode_position(1, &status_packet(1, 0, &[0xFF, 0xFF])).unwrap(), -1);
    assert_eq!(decode_position(1, &status_packet(1, 0, &[0x00, 0x80])).unwrap(), i16::MIN);
}

#[test]
fn decode_position_passes_errors_on() {
    let r = decode_position(1, &status_packet(2, 0, &[0x00, 0x08]));
    assert!(matches!(r, Err(ServoError::Protocol(ref m)) if m == "ID mismatch, sent 1, got 2"));
    let r = decode_position(1, &status_packet(1, 0x10, &[0x00, 0x08]));
    assert!(matches!(r, Err(ServoError::HardwareError { id: 1, status_byte: 0x10, ref msg }) if msg == "Overload"));
    let r = decode_position(1, &[0u8; 8]);
    assert!(matches!(r, Err(ServoError::Protocol(ref m)) if m == "Invalid header"));
    let r = decode_position(1, &[0xFF, 0xFF, 1, 2]);
    assert!(matches!(r, Err(ServoError::Protocol(ref m)) if m == "Response too short"));
    let mut short = status_packet(1, 0, &[]);
    short[5] = short[5].wrapping_add(1);
    assert!(matches!(decode_position(1, &short), Err(ServoError::ChecksumMismatch { id: 1, .. })));
}

#[test]
fn i16_little_endian_round_trip() {
    for v in [0i16, 1, -1, 2048, 4095, i16::MIN, i16::MAX, -300] {
        let (lo, hi) = i16_to_le(v);
        assert_eq!([lo, hi], v.to_le_bytes());
        assert_eq!(i16_from_le(lo, hi), v);
    }
    for lo in [0u8, 1, 127, 128, 255] {
        for hi in [0u8, 1, 127, 128, 255] {
            assert_eq!(i16_from_le(lo, hi), i16::from_le_bytes([lo, hi]));
            assert_eq!(i16_to_le(i16_from_le(lo, hi)), (lo, hi));
        }
    }
}

#[test]
fn goal_packet_in_ticks() {
    assert_eq!(
        goal_packet(1, GoalTarget::Ticks(2048)).unwrap(),
        vec![0xFF, 0xFF, 1, 5, 3, 42, 0x00, 0x08, 0xC4]
    );
    // -1 is 0xFFFF: 1 + 5 + 3 + 42 + 255 + 255 = 561, low byte 49, !49 = 0xCE
    assert_eq!(
        goal_packet(1, GoalTarget::Ticks(-1)).unwrap(),
        vec![0xFF, 0xFF, 1, 5, 3, 42, 0xFF, 0xFF, 0xCE]
    );
}

#[test]
fn goal_packet_unsupported_mode() {
    let r = goal_packet(1, GoalTarget::Unsupported);
    assert!(matches!(r, Err(ServoError::Protocol(ref m)) if m == "Unsupported control mode"));
}

#[test]
fn sync_write_nothing_for_no_goals() {
    assert!(matches!(sync_write_packet(&[]), Ok(None)));
}

#[test]
fn sync_write_broadcast_packet() {
    let p = sync_write_packet(&[(1, GoalTarget::Ticks(2048)), (2, GoalTarget::Ticks(1024))])
        .unwrap()
        .unwrap();
    assert_eq!(
        p,
        vec![0xFF, 0xFF, 0xFE, 0x0A, 0x83, 0x2A, 0x02, 0x01, 0x00, 0x08, 0x02, 0x00, 0x04, 0x39]
    );
}

#[test]
fn sync_write_keeps_goal_order() {
    let goals = [(6u8, GoalTarget::Ticks(-5)), (3, GoalTarget::Ticks(300)), (9, GoalTarget::Ticks(0))];
    let p = sync_write_packet(&goals).unwrap().unwrap();
    assert_eq!(p.len(), 6 + 2 + 3 * goals.len());
    for (k, (id, target)) in goals.iter().enumerate() {
        let at = 7 + 3 * k;
        assert_eq!(p[at], *id);
        let ticks = i16_from_le(p[at + 1], p[at + 2]);
        assert_eq!(GoalTarget::Ticks(ticks), *target);
    }
}

#[test]
fn sync_write_rejects_unsupported_goal() {
    let r = sync_write_packet(&[(1, GoalTarget::Ticks(5)), (2, GoalTarget::Unsupported)]);
    assert!(
        matches!(r, Err(ServoError::Protocol(ref m)) if m == "SyncWrite only supports Position currently")
    );
}

#[test]
fn middle_position_retry_policy() {
    match middle_position_step::<(), &str>(1, Err("no reply")) {
        RetryAction::Retry { next_attempt, delay_ms } => {
            assert_eq!(next_attempt, 2);
            assert_eq!(delay_ms, 50);
        }
        other => panic!("unexpected {:?}", other),
    }
    match middle_position_step::<(), &str>(2, Err("no reply")) {
        RetryAction::Retry { next_attempt, .. } => assert_eq!(next_attempt, 3),
        other => panic!("unexpected {:?}", other),
    }
    assert!(matches!(
        middle_position_step::<(), &str>(3, Err("third")),
        RetryAction::Finish(Err("third"))
    ));
    assert!(matches!(middle_position_step::<u8, &str>(2, Ok(0)), RetryAction::Finish(Ok(()))));
}

#[test]
fn middle_position_retry_runs_at_most_three_attempts() {
    // Drive the policy with a servo that never answers.
    let mut attempt = 1u8;
    let mut attempts = 0;
    let result = loop {
        attempts += 1;
        match middle_position_step::<(), u8>(attempt, Err(attempt)) {
            RetryAction::Finish(r) => break r,
            RetryAction::Retry { next_attempt, .. } => attempt = next_attempt,
        }
    };
    assert_eq!(attempts, 3);
    assert_eq!(result, Err(3));
}

#[test]
fn reply_to_a_status_only_write_has_no_params() {
    let reply = status_packet(5, 0, &[]);
    assert_eq!(reply.len(), STATUS_REPLY_LEN);
    assert!(parse_response(5, &reply).unwrap().is_empty());
}
