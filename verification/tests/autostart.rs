use rustcooling::autostart::linux::LinuxAutostart;
use rustcooling::autostart::windows::WindowsAutostart;

#[test]
fn systemd_unit_text() {
    assert_eq!(
        LinuxAutostart::unit_file_contents("/usr/bin/rustcooling"),
        "[Unit]\nDescription=RustCooling ID-COOLING LCD Daemon\nAfter=default.target\n\n[Service]\nExecStart=/usr/bin/rustcooling --daemon\nRestart=on-failure\nRestartSec=3\n\n[Install]\nWantedBy=default.target\n"
    );
}

#[test]
fn systemd_is_enabled_reply() {
    assert!(LinuxAutostart::is_enabled_reply("enabled\n"));
    assert!(LinuxAutostart::is_enabled_reply("  enabled "));
    assert!(!LinuxAutostart::is_enabled_reply("disabled\n"));
    assert!(!LinuxAutostart::is_enabled_reply("enabled-runtime"));
    assert!(!LinuxAutostart::is_enabled_reply(""));
}

#[test]
fn scheduler_task() {
    let a = WindowsAutostart::new();
    assert_eq!(a.task_name, "RustCoolingDaemon");
    assert_eq!(
        WindowsAutostart::task_command("C:\\Tools\\rustcooling.exe"),
        "\"C:\\Tools\\rustcooling.exe\" --daemon"
    );
    let _ = LinuxAutostart::new();
}
