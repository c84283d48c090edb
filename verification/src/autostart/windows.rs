//! Autostart through a Windows Task Scheduler logon task.

use vstd::prelude::*;

verus! {

/// Autostart through the logon task `RustCoolingDaemon`.
pub struct WindowsAutostart {
    pub task_name: &'static str,
}

impl WindowsAutostart {
    pub fn new() -> (a: Self)
        ensures
            a.task_name@ == "RustCoolingDaemon"@,
    {
        WindowsAutostart { task_name: "RustCoolingDaemon" }
    }

    /// The task's command: the program path in quotes, in daemon mode.
    pub fn task_command(exe_path: &str) -> (cmd: String)
        ensures
            cmd@ == "\""@ + exe_path@ + "\" --daemon"@,
    {
        let mut cmd = String::from_str("\"");
        cmd.append(exe_path);
        cmd.append("\" --daemon");
        cmd
    }
}

impl Default for WindowsAutostart {
    fn default() -> (a: Self)
        ensures
            a.task_name@ == "RustCoolingDaemon"@,
    {
        Self::new()
    }
}

} // verus!
