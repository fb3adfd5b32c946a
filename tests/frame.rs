use mycobot::command::{GET_ANGLES, IS_POWER_ON, IS_SERVO_ENABLE, SEND_ANGLE};
use mycobot::{concat_message, decode_payload, parse_frame, process_received};

const H: u8 = 0xFE;

#[test]
fn builds_frame() {
    let f = concat_message(SEND_ANGLE, &[0x01, 0x11, 0x94, 0x32]);
    assert_eq!(f, vec![H, H, 6, 0x21, 0x01, 0x11, 0x94, 0x32, H]);
}

#[test]
fn builds_empty_frame() {
    assert_eq!(concat_message(0x10, &[]), vec![H, H, 2, 0x10, H]);
}

#[test]
fn length_byte_wraps_past_255() {
    let payload = vec![7u8; 300];
    let f = concat_message(0x22, &payload);
    assert_eq!(f.len(), 305);
    assert_eq!(f[2], (302 % 256) as u8);
}

#[test]
fn frame_round_trip() {
    for n in [0usize, 1, 2, 12, 100, 252, 253] {
        let payload: Vec<u8> = (0..n).map(|i| (i % 200) as u8).collect();
        let f = concat_message(0x42, &payload);
        assert_eq!(parse_frame(&f, 0x42), payload);
    }
}

#[test]
fn round_trip_with_sentinels_in_payload() {
    let payload = vec![H, H, 1, H];
    let f = concat_message(0x23, &payload);
    assert_eq!(parse_frame(&f, 0x23), payload);
}

#[test]
fn other_opcode_gives_empty() {
    let f = concat_message(0x20, &[1, 2, 3]);
    assert_eq!(parse_frame(&f, 0x21), Vec::<u8>::new());
}

#[test]
fn leading_noise_is_skipped() {
    let f = concat_message(0x20, &[9, 8, 7]);
    let mut raw = vec![0x00, H, 0x13, 0xFA, H, 0x01];
    raw.extend_from_slice(&f);
    assert_eq!(parse_frame(&raw, 0x20), vec![9, 8, 7]);
    assert_eq!(parse_frame(&raw, 0x21), Vec::<u8>::new());
}

#[test]
fn noise_ending_in_sentinel_shifts_the_header() {
    let f = concat_message(0x20, &[9, 8, 7]);
    let mut raw = vec![0x05, H];
    raw.extend_from_slice(&f);
    assert_eq!(parse_frame(&raw, 0x20), Vec::<u8>::new());
}

#[test]
fn no_header_gives_empty() {
    assert_eq!(parse_frame(&[], 0x20), Vec::<u8>::new());
    assert_eq!(parse_frame(&[H], 0x20), Vec::<u8>::new());
    assert_eq!(parse_frame(&[1, H, 2, H, 3], 0x20), Vec::<u8>::new());
}

#[test]
fn undersized_frame_gives_empty() {
    assert_eq!(parse_frame(&[H, H, 5], 0x20), Vec::<u8>::new());
    assert_eq!(parse_frame(&[H, H, 5, 0x20, 1, 2], 0x20), Vec::<u8>::new());
    assert_eq!(parse_frame(&[H, H, 1, 0x20, 1, 2], 0x20), Vec::<u8>::new());
}

#[test]
fn trailer_is_not_checked() {
    assert_eq!(parse_frame(&[H, H, 4, 0x20, 1, 2], 0x20), vec![1, 2]);
}

#[test]
fn decodes_twelve_bytes_as_six_shorts() {
    let p = [0, 0, 0, 1, 0xFF, 0xFF, 0x80, 0x00, 0x13, 0x88, 0x7F, 0xFF];
    assert_eq!(decode_payload(&p, GET_ANGLES), vec![0, 1, -1, -32768, 5000, 32767]);
}

#[test]
fn decodes_two_bytes_as_one_short() {
    assert_eq!(decode_payload(&[0x13, 0x88], 0x3B), vec![5000]);
    assert_eq!(decode_payload(&[0xFF, 0xFE], 0x3B), vec![-2]);
}

#[test]
fn servo_enabled_reads_second_byte() {
    assert_eq!(decode_payload(&[0x13, 0x01], IS_SERVO_ENABLE), vec![1]);
    assert_eq!(decode_payload(&[0x13, 0xFF], IS_SERVO_ENABLE), vec![-1]);
}

#[test]
fn other_lengths_read_first_byte_signed() {
    assert_eq!(decode_payload(&[1], IS_POWER_ON), vec![1]);
    assert_eq!(decode_payload(&[0x80], IS_POWER_ON), vec![-128]);
    assert_eq!(decode_payload(&[5, 6, 7], IS_POWER_ON), vec![5]);
    assert_eq!(decode_payload(&[], IS_POWER_ON), Vec::<i16>::new());
}

#[test]
fn process_received_parses_then_decodes() {
    let mut raw = vec![0x11];
    raw.extend_from_slice(&concat_message(0x3B, &[0x01, 0x02]));
    assert_eq!(process_received(&raw, 0x3B), vec![0x0102]);
    assert_eq!(process_received(&raw, 0x3A), Vec::<i16>::new());
}
