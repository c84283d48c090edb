//! Verified core of an LCD controller for ID-COOLING FX liquid coolers:
//! the HID report protocol, the display animator, the monitor loop's
//! decisions, and the parsing of the operating system's CPU counters.

pub mod protocol;
pub mod animation;
mod clock;
pub mod text;
pub mod hardware;
pub mod hid;
pub mod cli;
pub mod autostart;
pub mod monitor;
