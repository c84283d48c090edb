//! The connection to the cooler's HID device.
//!
//! The device handle and its reads and writes belong to the caller; this
//! module decides: which enumerated device to open, whether a report may be
//! sent, and what an open or a write that failed means for the connection
//! and for the error reported.

use vstd::prelude::*;

use crate::protocol::REPORT_SIZE;
use crate::text::{hex4, push_hex4};

verus! {

/// USB vendor id of the cooler.
pub const VENDOR_ID: u16 = 0x3402;

/// USB product id of the cooler.
pub const PRODUCT_ID: u16 = 0x0100;

/// `"(VID: 0x3402, PID: 0x0100)"`, as the error messages name the device.
pub open spec fn device_ids_text() -> Seq<char> {
    "(VID: 0x"@ + hex4(VENDOR_ID) + ", PID: 0x"@ + hex4(PRODUCT_ID) + ")"@
}

/// The error when no enumerated device has the cooler's ids.
pub open spec fn not_found_message() -> Seq<char> {
    "Device not found "@ + device_ids_text()
}

/// The error when the cooler's device could not be opened.
pub open spec fn open_failed_message(cause: Seq<char>) -> Seq<char> {
    "Failed to open device "@ + device_ids_text() + ": "@ + cause
}

/// The error when the HID library could not start.
pub open spec fn init_failed_message(cause: Seq<char>) -> Seq<char> {
    "Failed to initialize HidApi: "@ + cause
}

/// The error when a report could not be written.
pub open spec fn write_failed_message(cause: Seq<char>) -> Seq<char> {
    "HID write error: "@ + cause
}

/// The error when a report is sent without an open device.
pub open spec fn not_opened_message() -> Seq<char> {
    "Device is not opened"@
}

fn device_ids() -> (s: String)
    ensures
        s@ == device_ids_text(),
{
    let mut s = String::from_str("(VID: 0x");
    push_hex4(&mut s, VENDOR_ID);
    s.append(", PID: 0x");
    push_hex4(&mut s, PRODUCT_ID);
    s.append(")");
    s
}

/// The error for a failed start of the HID library, with its cause.
pub fn init_failed_error(cause: &str) -> (e: String)
    ensures
        e@ == init_failed_message(cause@),
{
    let mut e = String::from_str("Failed to initialize HidApi: ");
    e.append(cause);
    e
}

/// Whether a device with these ids is the cooler.
pub open spec fn is_cooler(ids: (u16, u16)) -> bool {
    ids.0 == VENDOR_ID && ids.1 == PRODUCT_ID
}

/// The link to the cooler: whether a device is open.
pub struct HidDeviceManager {
    connected: bool,
}

impl View for HidDeviceManager {
    type V = bool;

    /// Whether a device is open.
    closed spec fn view(&self) -> bool {
        self.connected
    }
}

impl HidDeviceManager {
    /// No device open.
    pub fn new() -> (m: Self)
        ensures
            !m@,
    {
        HidDeviceManager { connected: false }
    }

    /// Whether a device is open.
    pub fn is_connected(&self) -> (b: bool)
        ensures
            b == self@,
    {
        self.connected
    }

    /// Forgets the open device.
    pub fn close(&mut self)
        ensures
            !final(self)@,
    {
        self.connected = false;
    }

    /// Picks the device to open among the enumerated `(vendor, product)`
    /// ids: the first that is the cooler. Fails with the not-found error
    /// when there is none.
    pub fn open_device(&self, devices: &[(u16, u16)]) -> (r: Result<usize, String>)
        ensures
            match r {
                Ok(i) => {
                    &&& i < devices@.len()
                    &&& is_cooler(devices@[i as int])
                    &&& forall|j: int| 0 <= j < i ==> !is_cooler(#[trigger] devices@[j])
                },
                Err(e) => {
                    &&& forall|j: int| 0 <= j < devices@.len() ==> !is_cooler(#[trigger] devices@[j])
                    &&& e@ == not_found_message()
                },
            },
    {
        let mut i: usize = 0;
        while i < devices.len()
            invariant
                i <= devices@.len(),
                forall|j: int| 0 <= j < i ==> !is_cooler(#[trigger] devices@[j]),
            decreases devices.len() - i,
        {
            let (vendor, product) = devices[i];
            if vendor == VENDOR_ID && product == PRODUCT_ID {
                return Ok(i);
            }
            i = i + 1;
        }
        let mut e = String::from_str("Device not found ");
        let ids = device_ids();
        e.append(ids.as_str());
        Err(e)
    }

    /// Records how opening the chosen device went: on success the device
    /// is open; on failure the link is unchanged and the cause is reported.
    pub fn record_open(&mut self, outcome: Result<(), String>) -> (r: Result<(), String>)
        ensures
            match outcome {
                Ok(()) => final(self)@ && r == Ok::<(), String>(()),
                Err(cause) => final(self)@ == old(self)@ && (r matches Err(e) && e@
                    == open_failed_message(cause@)),
            },
    {
        match outcome {
            Ok(()) => {
                self.connected = true;
                Ok(())
            },
            Err(cause) => {
                let mut e = String::from_str("Failed to open device ");
                let ids = device_ids();
                e.append(ids.as_str());
                e.append(": ");
                e.append(cause.as_str());
                Err(e)
            },
        }
    }

    /// Decides the sending of a raw report: with a device open, the report
    /// to write now; without one, the not-opened error.
    pub fn send_raw<'a>(&self, frame: &'a [u8; REPORT_SIZE]) -> (r: Result<&'a [u8; REPORT_SIZE], String>)
        ensures
            self@ ==> r == Ok::<&'a [u8; REPORT_SIZE], String>(frame),
            !self@ ==> (r matches Err(e) && e@ == not_opened_message()),
    {
        if self.connected {
            Ok(frame)
        } else {
            Err(String::from_str("Device is not opened"))
        }
    }

    /// Records how writing a report went: a failed write closes the link
    /// and is reported with its cause.
    pub fn record_write(&mut self, outcome: Result<(), String>) -> (r: Result<(), String>)
        ensures
            match outcome {
                Ok(()) => final(self)@ == old(self)@ && r == Ok::<(), String>(()),
                Err(cause) => !final(self)@ && (r matches Err(e) && e@ == write_failed_message(
                    cause@,
                )),
            },
    {
        match outcome {
            Ok(()) => Ok(()),
            Err(cause) => {
                self.connected = false;
                let mut e = String::from_str("HID write error: ");
                e.append(cause.as_str());
                Err(e)
            },
        }
    }
}

impl Default for HidDeviceManager {
    fn default() -> (m: Self) {
        Self::new()
    }
}

} // verus!
