use rustcooling::protocol::{
    build_frame, build_frequency_frame, build_show_frame, build_temperature_frame,
    build_usage_frame, CMD_FREQUENCY, CMD_SHOW, CMD_TEMPERATURE, CMD_USAGE, MAGIC_HEADER,
    REPORT_SIZE,
};

#[test]
fn test_temperature_frame_45c() {
    let frame = build_temperature_frame(45);
    assert_eq!(frame.len(), REPORT_SIZE);
    assert_eq!(frame.len(), 64);
    assert_eq!(
        &frame[0..8],
        &[0x55, 0xAA, 0x01, 0x00, 0x01, 0x00, 0x2D, 0x2E]
    );
    for &b in &frame[8..64] {
        assert_eq!(b, 0);
    }
}

#[test]
fn test_checksum_and_length() {
    let commands = [
        (CMD_TEMPERATURE, 0x1234u16),
        (CMD_FREQUENCY, 4200u16),
        (CMD_USAGE, 99u16),
        (CMD_SHOW, 1u16),
    ];

    for (cmd, val) in commands {
        let frame = build_frame(cmd, val);
        assert_eq!(frame.len(), 64);
        let bytes = val.to_be_bytes();
        let expected_checksum = cmd.wrapping_add(bytes[0]).wrapping_add(bytes[1]);
        assert_eq!(frame[7], expected_checksum);
        assert_eq!(frame[4], cmd);
        assert_eq!(frame[5], bytes[0]);
        assert_eq!(frame[6], bytes[1]);
        assert_eq!(&frame[0..4], &MAGIC_HEADER);
        for &b in &frame[8..] {
            assert_eq!(b, 0);
        }
    }
}

#[test]
fn test_helper_methods() {
    let freq_frame = build_frequency_frame(3500);
    assert_eq!(freq_frame[4], CMD_FREQUENCY);
    assert_eq!(freq_frame[5..7], 3500u16.to_be_bytes());

    let usage_frame = build_usage_frame(50);
    assert_eq!(usage_frame[4], CMD_USAGE);
    assert_eq!(usage_frame[5..7], 50u16.to_be_bytes());

    let show_on = build_show_frame(true);
    assert_eq!(show_on[4], CMD_SHOW);
    assert_eq!(show_on[5..7], 1u16.to_be_bytes());

    let show_off = build_show_frame(false);
    assert_eq!(show_off[4], CMD_SHOW);
    assert_eq!(show_off[5..7], 0u16.to_be_bytes());
}

#[test]
fn checksum_wraps_around() {
    // 0x04 + 0xFF + 0xFF = 0x202, which wraps to 0x02.
    let frame = build_frame(CMD_SHOW, 0xFFFF);
    assert_eq!(&frame[4..8], &[0x04, 0xFF, 0xFF, 0x02]);
}

#[test]
fn frame_value_reads_back_big_endian() {
    for value in [0u16, 1, 255, 256, 4200, 0xABCD, u16::MAX] {
        let frame = build_frame(CMD_USAGE, value);
        assert_eq!(frame[5] as u16 * 256 + frame[6] as u16, value);
    }
}

#[test]
fn distinct_inputs_give_distinct_frames() {
    assert_ne!(build_frame(CMD_USAGE, 7), build_frame(CMD_FREQUENCY, 7));
    assert_ne!(build_frame(CMD_USAGE, 7), build_frame(CMD_USAGE, 8));
    assert_eq!(build_temperature_frame(77), build_frame(CMD_TEMPERATURE, 77));
    assert_eq!(build_usage_frame(3), build_frame(CMD_USAGE, 3));
}
