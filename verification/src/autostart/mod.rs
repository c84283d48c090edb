//! Starting the program with the user's session: the texts and arguments
//! behind the systemd user unit (Linux) and the logon task (Windows).

pub mod linux;
pub mod windows;
