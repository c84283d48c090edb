//! The decisions of the monitor loop: when to reconnect and to poll the
//! sensors, how readings become displayed values, and which reports go to
//! the device. The loop itself, the clock and the device belong to the
//! caller.

use vstd::prelude::*;

use crate::animation::{AnimationMode, DisplayAnimator};
use crate::protocol::{
    build_frequency_frame, build_temperature_frame, build_usage_frame, frame_spec,
    CMD_FREQUENCY, CMD_TEMPERATURE, CMD_USAGE, REPORT_SIZE,
};

verus! {

/// Least time between two attempts to open the device, in milliseconds.
pub const RECONNECT_INTERVAL_MS: u64 = 2000;

/// Largest temperature shown, in °C.
pub const MAX_TEMPERATURE: u16 = 999;

/// Largest load shown, in percent.
pub const MAX_LOAD: u16 = 100;

/// Largest frequency shown, in MHz.
pub const MAX_FREQUENCY: u16 = 9999;

/// `x` limited to `0..=max`.
pub open spec fn clamped(x: int, max: int) -> int {
    if x < 0 {
        0
    } else if x > max {
        max
    } else {
        x
    }
}

/// A rounded sensor reading limited to `0..=max`.
pub fn clamp_reading(rounded: i64, max: u16) -> (v: u16)
    ensures
        v == clamped(rounded as int, max as int),
{
    if rounded < 0 {
        0
    } else if rounded > max as i64 {
        max
    } else {
        rounded as u16
    }
}

/// Whether to try opening the device again: not connected, and the last
/// attempt at least `RECONNECT_INTERVAL_MS` ago.
pub fn should_reconnect(connected: bool, since_attempt_ms: u64) -> (b: bool)
    ensures
        b == (!connected && since_attempt_ms >= RECONNECT_INTERVAL_MS),
{
    !connected && since_attempt_ms >= RECONNECT_INTERVAL_MS
}

/// Whether to read the sensors: the last poll at least `interval_ms` ago.
pub fn should_poll(since_poll_ms: u64, interval_ms: u64) -> (b: bool)
    ensures
        b == (since_poll_ms >= interval_ms),
{
    since_poll_ms >= interval_ms
}

/// The reports a poll sends: usage, then frequency, for the readings
/// present, and none without a connection.
pub open spec fn poll_reports(load: Option<i64>, freq: Option<i64>, connected: bool) -> Seq<Seq<u8>> {
    let usage: Seq<Seq<u8>> = match load {
        Some(l) => if connected {
            seq![frame_spec(CMD_USAGE, clamped(l as int, MAX_LOAD as int) as u16)]
        } else {
            Seq::empty()
        },
        None => Seq::empty(),
    };
    let frequency: Seq<Seq<u8>> = match freq {
        Some(f) => if connected {
            seq![frame_spec(CMD_FREQUENCY, clamped(f as int, MAX_FREQUENCY as int) as u16)]
        } else {
            Seq::empty()
        },
        None => Seq::empty(),
    };
    usage + frequency
}

/// The contents of a list of reports.
pub open spec fn report_bytes(frames: Seq<[u8; REPORT_SIZE]>) -> Seq<Seq<u8>> {
    frames.map_values(|f: [u8; REPORT_SIZE]| f@)
}

/// The monitor's state: the temperature animation and the values shown on
/// the status line.
pub struct MonitorController {
    pub animator: DisplayAnimator,
    pub temp_display: u16,
    pub load_display: u16,
    pub freq_display: u16,
}

impl MonitorController {
    pub open spec fn wf(&self) -> bool {
        self.animator.wf()
    }

    /// A monitor showing zeros, animating in `mode` over `anim_duration_ms`.
    pub fn new(mode: AnimationMode, anim_duration_ms: u64) -> (m: Self)
        ensures
            m.wf(),
            m.animator.mode == mode,
            m.animator.duration_ms == anim_duration_ms,
            m.animator.current_val == 0,
            m.animator.target_val == 0,
            m.animator.last_sent == 0,
            m.temp_display == 0,
            m.load_display == 0,
            m.freq_display == 0,
    {
        MonitorController {
            animator: DisplayAnimator::new(mode, anim_duration_ms),
            temp_display: 0,
            load_display: 0,
            freq_display: 0,
        }
    }

    /// Takes a poll's readings, rounded to whole units: the temperature
    /// (limited to 0..=999) becomes the animation's target; load (0..=100)
    /// and frequency (0..=9999) are shown at once and, with a connection,
    /// sent. Returns the reports to write, in order.
    pub fn apply_readings(
        &mut self,
        temp: Option<i64>,
        load: Option<i64>,
        freq: Option<i64>,
        connected: bool,
    ) -> (frames: Vec<[u8; REPORT_SIZE]>)
        requires
            old(self).wf(),
        ensures
            final(self).wf(),
            report_bytes(frames@) == poll_reports(load, freq, connected),
            match temp {
                Some(t) => old(self).animator.retargeted(
                    &final(self).animator,
                    clamped(t as int, MAX_TEMPERATURE as int) as u16,
                ),
                None => final(self).animator == old(self).animator,
            },
            final(self).load_display == (match load {
                Some(l) => clamped(l as int, MAX_LOAD as int) as u16,
                None => old(self).load_display,
            }),
            final(self).freq_display == (match freq {
                Some(f) => clamped(f as int, MAX_FREQUENCY as int) as u16,
                None => old(self).freq_display,
            }),
            final(self).temp_display == old(self).temp_display,
    {
        let mut frames: Vec<[u8; REPORT_SIZE]> = Vec::new();
        match temp {
            Some(t) => {
                let target = clamp_reading(t, MAX_TEMPERATURE);
                self.animator.set_target(target);
            },
            None => {},
        }
        match load {
            Some(l) => {
                let value = clamp_reading(l, MAX_LOAD);
                self.load_display = value;
                if connected {
                    let frame = build_usage_frame(value);
                    frames.push(frame);
                }
            },
            None => {},
        }
        match freq {
            Some(f) => {
                let value = clamp_reading(f, MAX_FREQUENCY);
                self.freq_display = value;
                if connected {
                    let frame = build_frequency_frame(value);
                    frames.push(frame);
                }
            },
            None => {},
        }
        assert(report_bytes(frames@) =~= poll_reports(load, freq, connected));
        frames
    }

    /// One animation tick: when the shown temperature changes, it goes on
    /// the status line and, with a connection, to the device.
    pub fn animate(&mut self, connected: bool) -> (frame: Option<[u8; REPORT_SIZE]>)
        requires
            old(self).wf(),
        ensures
            final(self).wf(),
            final(self).load_display == old(self).load_display,
            final(self).freq_display == old(self).freq_display,
            exists|elapsed: int, shown: Option<u16>|
                0 <= elapsed && #[trigger] old(self).animator.ticked(&final(self).animator, shown, elapsed)
                    && match shown {
                    Some(v) => {
                        &&& final(self).temp_display == v
                        &&& connected ==> (frame matches Some(f) && f@ == frame_spec(CMD_TEMPERATURE, v))
                        &&& !connected ==> frame is None
                    },
                    None => final(self).temp_display == old(self).temp_display && frame is None,
                },
    {
        let shown = self.animator.tick();
        match shown {
            Some(v) => {
                self.temp_display = v;
                if connected {
                    Some(build_temperature_frame(v))
                } else {
                    None
                }
            },
            None => None,
        }
    }
}

} // verus!
