//! The 64-byte HID report understood by the cooler's LCD.
//!
//! A report is the magic header `55 AA 01 00`, a command byte, the value as
//! two big-endian bytes, a checksum byte (the wrapping sum of the command
//! and the two value bytes) and zero padding up to 64 bytes.

use vstd::prelude::*;

verus! {

/// USB vendor id of the cooler.
pub const VID: u16 = 0x3402;

/// USB product id of the cooler.
pub const PID: u16 = 0x0100;

/// Length of every HID report, in bytes.
pub const REPORT_SIZE: usize = 64;

/// Command: show a CPU temperature.
pub const CMD_TEMPERATURE: u8 = 0x01;

/// Command: show a CPU frequency.
pub const CMD_FREQUENCY: u8 = 0x02;

/// Command: show a CPU usage.
pub const CMD_USAGE: u8 = 0x03;

/// Command: switch the display on or off.
pub const CMD_SHOW: u8 = 0x04;

/// The four bytes every report starts with.
pub const MAGIC_HEADER: [u8; 4] = [0x55, 0xaa, 0x01, 0x00];

/// The magic header as a sequence.
pub open spec fn magic_header() -> Seq<u8> {
    seq![0x55u8, 0xaau8, 0x01u8, 0x00u8]
}

/// High byte of the big-endian encoding of `value`.
pub open spec fn high_byte(value: u16) -> u8 {
    (value / 256) as u8
}

/// Low byte of the big-endian encoding of `value`.
pub open spec fn low_byte(value: u16) -> u8 {
    (value % 256) as u8
}

/// The checksum byte: command plus both value bytes, modulo 256.
pub open spec fn checksum(command: u8, value: u16) -> u8 {
    ((command as int + high_byte(value) as int + low_byte(value) as int) % 256) as u8
}

/// The complete report for `command` and `value`.
pub open spec fn frame_spec(command: u8, value: u16) -> Seq<u8> {
    magic_header() + seq![command, high_byte(value), low_byte(value), checksum(command, value)]
        + Seq::new(56, |i: int| 0u8)
}

/// Builds the report that carries `value` under `command`.
pub fn build_frame(command: u8, value: u16) -> (frame: [u8; REPORT_SIZE])
    ensures
        frame@ == frame_spec(command, value),
{
    let hi: u8 = (value / 256) as u8;
    let lo: u8 = (value % 256) as u8;
    let sum: u8 = command.wrapping_add(hi).wrapping_add(lo);
    let frame: [u8; REPORT_SIZE] = [
        MAGIC_HEADER[0], MAGIC_HEADER[1], MAGIC_HEADER[2], MAGIC_HEADER[3],
        command, hi, lo, sum,
        0, 0, 0, 0, 0, 0, 0, 0,
        0, 0, 0, 0, 0, 0, 0, 0,
        0, 0, 0, 0, 0, 0, 0, 0,
        0, 0, 0, 0, 0, 0, 0, 0,
        0, 0, 0, 0, 0, 0, 0, 0,
        0, 0, 0, 0, 0, 0, 0, 0,
        0, 0, 0, 0, 0, 0, 0, 0,
    ];
    assert(frame@ =~= frame_spec(command, value));
    frame
}

/// Report showing a temperature.
pub fn build_temperature_frame(temp: u16) -> (frame: [u8; REPORT_SIZE])
    ensures
        frame@ == frame_spec(CMD_TEMPERATURE, temp),
{
    build_frame(CMD_TEMPERATURE, temp)
}

/// Report showing a frequency.
pub fn build_frequency_frame(freq: u16) -> (frame: [u8; REPORT_SIZE])
    ensures
        frame@ == frame_spec(CMD_FREQUENCY, freq),
{
    build_frame(CMD_FREQUENCY, freq)
}

/// Report showing a usage.
pub fn build_usage_frame(usage: u16) -> (frame: [u8; REPORT_SIZE])
    ensures
        frame@ == frame_spec(CMD_USAGE, usage),
{
    build_frame(CMD_USAGE, usage)
}

/// Report switching the display on (value 1) or off (value 0).
pub fn build_show_frame(on: bool) -> (frame: [u8; REPORT_SIZE])
    ensures
        frame@ == frame_spec(CMD_SHOW, if on { 1u16 } else { 0u16 }),
{
    build_frame(CMD_SHOW, if on { 1 } else { 0 })
}

/// Every report is 64 bytes long, starts with the magic header, carries the
/// command at byte 4, and is zero from byte 8 on.
pub proof fn lemma_frame_layout(command: u8, value: u16)
    ensures
        frame_spec(command, value).len() == REPORT_SIZE,
        frame_spec(command, value).subrange(0, 4) == magic_header(),
        frame_spec(command, value)[4] == command,
        forall|i: int| 8 <= i < 64 ==> #[trigger] frame_spec(command, value)[i] == 0u8,
{
    assert(frame_spec(command, value).subrange(0, 4) =~= magic_header());
}

/// Bytes 5 and 6 hold the value in big-endian order, so the value can be
/// read back from the report.
pub proof fn lemma_frame_value_roundtrip(command: u8, value: u16)
    ensures
        frame_spec(command, value)[5] as int * 256 + frame_spec(command, value)[6] as int
            == value as int,
{
}

/// Byte 7 is the wrapping sum of bytes 4, 5 and 6: a receiver's checksum
/// test accepts every report.
pub proof fn lemma_frame_checksum_valid(command: u8, value: u16)
    ensures
        frame_spec(command, value)[7] as int == (frame_spec(command, value)[4] as int
            + frame_spec(command, value)[5] as int + frame_spec(command, value)[6] as int) % 256,
{
}

/// Distinct commands or values never give the same report.
pub proof fn lemma_frame_injective(c1: u8, v1: u16, c2: u8, v2: u16)
    requires
        frame_spec(c1, v1) == frame_spec(c2, v2),
    ensures
        c1 == c2,
        v1 == v2,
{
    lemma_frame_layout(c1, v1);
    lemma_frame_layout(c2, v2);
    assert(frame_spec(c1, v1)[5] == frame_spec(c2, v2)[5]);
    assert(frame_spec(c1, v1)[6] == frame_spec(c2, v2)[6]);
    lemma_frame_value_roundtrip(c1, v1);
    lemma_frame_value_roundtrip(c2, v2);
}

} // verus!
