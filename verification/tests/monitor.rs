use popmgr::ui::monitor::{disk_name, TURBO_HELPER, TURBO_HELPER_SCRIPT};

#[test]
fn partition_names() {
    assert_eq!(disk_name("nvme0n1p3"), "nvme0n1");
    assert_eq!(disk_name("sda2"), "sda");
    assert_eq!(disk_name("mmcblk0p1"), "mmcblk0");
}

#[test]
fn helper_script_is_fixed() {
    assert!(TURBO_HELPER_SCRIPT.contains("case \"${1:-}\" in"));
    assert!(TURBO_HELPER_SCRIPT.contains("no_turbo"));
    assert!(TURBO_HELPER_SCRIPT.contains("boost"));
    for path in TURBO_HELPER_SCRIPT.split_whitespace().filter(|x| x.contains("/sys/")) {
        assert!(path.contains("intel_pstate/no_turbo") || path.contains("cpufreq/boost"));
    }
}

#[test]
fn sudoers_line() {
    let u = "dell";
    assert_eq!(format!("{u} ALL=(root) NOPASSWD: {TURBO_HELPER}"), "dell ALL=(root) NOPASSWD: /usr/local/bin/popmgr-turbo");
}
