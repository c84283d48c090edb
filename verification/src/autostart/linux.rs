//! Autostart through a systemd user unit.

use vstd::prelude::*;

use crate::text::{chars_of, trim, trim_chars};

verus! {

/// The unit file's name.
pub open spec fn service_name() -> Seq<char> {
    "rustcooling.service"@
}

/// The unit file's text up to the program path.
pub open spec fn unit_head() -> Seq<char> {
    "[Unit]\nDescription=RustCooling ID-COOLING LCD Daemon\nAfter=default.target\n\n[Service]\nExecStart="@
}

/// The unit file's text after the program path.
pub open spec fn unit_tail() -> Seq<char> {
    " --daemon\nRestart=on-failure\nRestartSec=3\n\n[Install]\nWantedBy=default.target\n"@
}

/// Autostart through `~/.config/systemd/user/rustcooling.service`.
pub struct LinuxAutostart;

impl LinuxAutostart {
    pub fn new() -> (a: Self) {
        LinuxAutostart
    }

    /// The unit that starts `exe_path` in daemon mode at login and restarts
    /// it when it fails.
    pub fn unit_file_contents(exe_path: &str) -> (text: String)
        ensures
            text@ == unit_head() + exe_path@ + unit_tail(),
    {
        let mut text = String::from_str(
            "[Unit]\nDescription=RustCooling ID-COOLING LCD Daemon\nAfter=default.target\n\n[Service]\nExecStart=",
        );
        text.append(exe_path);
        text.append(" --daemon\nRestart=on-failure\nRestartSec=3\n\n[Install]\nWantedBy=default.target\n");
        text
    }

    /// Whether `systemctl --user is-enabled` printed that the unit is
    /// enabled: its output, trimmed, is exactly `enabled`.
    pub fn is_enabled_reply(stdout: &str) -> (enabled: bool)
        ensures
            enabled == (trim(stdout@) == "enabled"@),
    {
        let chars = chars_of(stdout);
        let t = trim_chars(chars.as_slice());
        let word = chars_of("enabled");
        if t.len() != word.len() {
            return false;
        }
        let mut i: usize = 0;
        while i < t.len()
            invariant
                t@.len() == word@.len(),
                t@ == trim(stdout@),
                word@ == "enabled"@,
                i <= t@.len(),
                forall|j: int| 0 <= j < i ==> t@[j] == word@[j],
            decreases t.len() - i,
        {
            if t[i] != word[i] {
                assert(t@[i as int] != word@[i as int]);
                return false;
            }
            i = i + 1;
        }
        assert(t@ =~= word@);
        true
    }
}

impl Default for LinuxAutostart {
    fn default() -> (a: Self) {
        Self::new()
    }
}

} // verus!
