use rustcooling::hardware::linux::choose_temp_sensor;
use rustcooling::hardware::linux::{
    cpu_mhz_fields, is_supported_temp_driver, is_temp_input_name, parse_cpu_stat, CpuTimes,
    LinuxHardwareProvider,
};
use rustcooling::hardware::windows::{filetime_to_u64, WindowsHardwareProvider};
use rustcooling::hardware::DummyProvider;

#[test]
fn stat_line_gives_all_counters() {
    let content = "cpu  10 20 30 40 50 60 70 80 90 100\ncpu0 1 2 3 4 5 6 7 8\nintr 5\n";
    let times = parse_cpu_stat(content).unwrap();
    assert_eq!(
        times,
        CpuTimes {
            user: 10,
            nice: 20,
            system: 30,
            idle: 40,
            iowait: 50,
            irq: 60,
            softirq: 70,
            steal: 80
        }
    );
    assert_eq!(times.idle_and_total(), Some((90, 360)));
}

#[test]
fn stat_line_with_four_counters() {
    let times = parse_cpu_stat("cpu 1 2 3 4").unwrap();
    assert_eq!(times.iowait, 0);
    assert_eq!(times.steal, 0);
    assert_eq!(times.idle_and_total(), Some((4, 10)));
}

#[test]
fn stat_words_that_are_not_numbers_are_skipped() {
    let times = parse_cpu_stat("cpu 1 x 2 +3 4\r\n").unwrap();
    assert_eq!((times.user, times.nice, times.system, times.idle), (1, 2, 3, 4));
}

#[test]
fn stat_rejections() {
    assert_eq!(parse_cpu_stat(""), None);
    assert_eq!(parse_cpu_stat("cpu 1 2 3"), None);
    assert_eq!(parse_cpu_stat("cpu0 1 2 3 4"), None);
    assert_eq!(parse_cpu_stat("intr 1 2 3 4\ncpu 1 2 3 4"), None);
    assert_eq!(parse_cpu_stat("\ncpu 1 2 3 4"), None);
}

#[test]
fn counter_sums_that_overflow_are_refused() {
    let times = CpuTimes {
        user: u64::MAX,
        nice: 1,
        system: 0,
        idle: 0,
        iowait: 0,
        irq: 0,
        softirq: 0,
        steal: 0,
    };
    assert_eq!(times.idle_and_total(), None);
}

#[test]
fn load_sample_from_consecutive_readings() {
    let mut p = LinuxHardwareProvider::new();
    let first = p.record_counters(90, 360);
    assert_eq!((first.busy, first.total), (270, 360));
    let second = p.record_counters(100, 400);
    assert_eq!((second.busy, second.total), (30, 40));
    assert_eq!((p.prev_idle, p.prev_total), (100, 400));
    // counters that went back count as zero
    let third = p.record_counters(50, 300);
    assert_eq!((third.busy, third.total), (0, 0));
}

#[test]
fn cpuinfo_frequency_fields() {
    let content = "processor\t: 0\ncpu MHz\t\t: 3600.000\nmodel\t: x\ncpu MHz : abc\ncpu MHz without colon\n";
    assert_eq!(cpu_mhz_fields(content), vec!["3600.000".to_string(), "abc".to_string()]);
    assert!(cpu_mhz_fields("").is_empty());
}

#[test]
fn temperature_drivers() {
    assert!(is_supported_temp_driver("k10temp\n"));
    assert!(is_supported_temp_driver("  CoreTemp"));
    assert!(is_supported_temp_driver("cpu_thermal"));
    assert!(is_supported_temp_driver("acpitz"));
    assert!(is_supported_temp_driver("zenpower"));
    assert!(!is_supported_temp_driver("nvme"));
    assert!(!is_supported_temp_driver("k10temp2"));
}

#[test]
fn temperature_input_files() {
    assert!(is_temp_input_name("temp1_input"));
    assert!(is_temp_input_name("temp_input"));
    assert!(!is_temp_input_name("temp1_label"));
    assert!(!is_temp_input_name("in0_input"));
    assert!(!is_temp_input_name("temp"));
}

#[test]
fn filetime_halves() {
    assert_eq!(filetime_to_u64(1, 2), 4_294_967_298);
    assert_eq!(filetime_to_u64(u32::MAX, u32::MAX), u64::MAX);
    assert_eq!(filetime_to_u64(0, 7), 7);
}

#[test]
fn windows_load_samples() {
    let mut p = WindowsHardwareProvider::new();
    let s = p.record_system_times(100, 300, 100).unwrap();
    assert_eq!((s.busy, s.total), (300, 400));
    let s = p.record_system_times(150, 380, 120).unwrap();
    assert_eq!((s.busy, s.total), (50, 100));
    assert!(p.record_system_times(150, 380, 120).is_none());
}

#[test]
fn dummy_provider_builds() {
    let _ = DummyProvider::new();
    let _ = DummyProvider::default();
}

#[test]
fn sensor_choice_takes_first_directory_with_an_input_and_least_name() {
    let dir = |names: &[&str]| names.iter().map(|n| n.to_string()).collect::<Vec<String>>();
    let dirs = vec![
        dir(&["name", "power1_input"]),
        dir(&["name", "temp3_input", "temp1_label", "temp10_input", "temp1_input"]),
        dir(&["temp0_input"]),
    ];
    // "temp10_input" < "temp1_input" < "temp3_input" in byte order, as a path sort gives
    assert_eq!(choose_temp_sensor(&dirs), Some((1, 3)));
    assert_eq!(choose_temp_sensor(&vec![dir(&["name"]), vec![]]), None);
    assert_eq!(choose_temp_sensor(&vec![]), None);
}
