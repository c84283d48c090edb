//! Windows: CPU load from the system's idle, kernel and user times.

use vstd::prelude::*;

use super::{sat_sub, LoadSample};

verus! {

/// A 64-bit count from the two halves of a `FILETIME`.
pub fn filetime_to_u64(high: u32, low: u32) -> (t: u64)
    ensures
        t as int == high as int * 0x1_0000_0000 + low as int,
{
    let t: u64 = ((high as u64) << 32u64) | (low as u64);
    assert(((high as u64) << 32u64) | (low as u64) == (high as u64) * 0x1_0000_0000u64 + (low as u64))
        by (bit_vector);
    t
}

/// CPU load bookkeeping on Windows: the system times of the previous reading.
pub struct WindowsHardwareProvider {
    pub prev_idle: u64,
    pub prev_kernel: u64,
    pub prev_user: u64,
}

impl WindowsHardwareProvider {
    /// No previous reading.
    pub fn new() -> (p: Self)
        ensures
            p.prev_idle == 0,
            p.prev_kernel == 0,
            p.prev_user == 0,
    {
        WindowsHardwareProvider { prev_idle: 0, prev_kernel: 0, prev_user: 0 }
    }

    /// Records a reading of the idle, kernel and user times (kernel time
    /// includes idle time). Returns the busy and total time since the
    /// previous reading, or `None` when no time passed. Counters that went
    /// back count as zero.
    pub fn record_system_times(&mut self, idle: u64, kernel: u64, user: u64) -> (sample: Option<LoadSample>)
        requires
            sat_sub(kernel, old(self).prev_kernel) + sat_sub(user, old(self).prev_user) <= u64::MAX,
        ensures
            final(self).prev_idle == idle,
            final(self).prev_kernel == kernel,
            final(self).prev_user == user,
            ({
                let total = sat_sub(kernel, old(self).prev_kernel) + sat_sub(user, old(self).prev_user);
                match sample {
                    Some(s) => total > 0 && s.total == total && s.busy == sat_sub(
                        total as u64,
                        sat_sub(idle, old(self).prev_idle),
                    ),
                    None => total == 0,
                }
            }),
    {
        let diff_idle = idle.saturating_sub(self.prev_idle);
        let diff_kernel = kernel.saturating_sub(self.prev_kernel);
        let diff_user = user.saturating_sub(self.prev_user);
        self.prev_idle = idle;
        self.prev_kernel = kernel;
        self.prev_user = user;
        let total_sys = diff_kernel + diff_user;
        if total_sys > 0 {
            Some(LoadSample { busy: total_sys.saturating_sub(diff_idle), total: total_sys })
        } else {
            None
        }
    }
}

} // verus!
