use microfetch::error::{ErrorKind, ProbeError};
use microfetch::facts::build_facts;

const OS_RELEASE: &str = "NAME=\"Ubuntu\"\nPRETTY_NAME=\"Ubuntu 22.04.3 LTS\"\nID=ubuntu\n";
const MEMINFO: &str = "MemTotal:       33554432 kB\nMemAvailable:    8388608 kB\n";
const CPUINFO: &str = "flags\t\t: fpu vme de pse tsc msr pae mce cx8 lm constant_tsc\n";

#[test]
fn facts_record_golden_output() {
    let facts = build_facts(
        Some("alice"),
        "worklaptop",
        Some("/usr/bin/fish"),
        Some("none+GNOME"),
        Some("wayland"),
        Some(OS_RELEASE),
        false,
        "6.6.32\n",
        None,
        Some(CPUINFO),
        90000,
        Some(MEMINFO),
        4096,
        262144,
        131072,
    )
    .unwrap();

    assert_eq!(facts.identity, "alice@worklaptop");
    assert_eq!(facts.shell, "fish");
    assert_eq!(facts.kernel_info, "Linux 6.6.32 (x86_64)");
    assert_eq!(facts.pretty_name, "Ubuntu 22.04.3 LTS");
    assert_eq!(facts.desktop, "GNOME (wayland)");
    assert_eq!(facts.uptime, "1 days, 1 hours, 0 minutes");
    assert_eq!(facts.memory, "24.00 GiB / 32.00 GiB (75%)");
    assert_eq!(facts.disk, "0.50 GiB / 1.00 GiB (50%)");
}

#[test]
fn facts_record_all_fallbacks() {
    let facts = build_facts(
        None,
        "box",
        None,
        None,
        None,
        None,
        false,
        "5.10.0",
        None,
        None,
        0,
        Some(MEMINFO),
        4096,
        262144,
        131072,
    )
    .unwrap();

    assert_eq!(facts.identity, "unknown_user@box");
    assert_eq!(facts.shell, "unknown_shell");
    assert_eq!(facts.kernel_info, "Unknown 5.10.0 (unknown)");
    assert_eq!(facts.pretty_name, "Unknown");
    assert_eq!(facts.desktop, "Unknown (Unknown)");
    assert_eq!(facts.uptime, "");
}

#[test]
fn facts_record_missing_meminfo_is_source_unavailable() {
    let err = build_facts(
        None, "box", None, None, None, None, false, "5.10.0", None, None, 0, None, 4096, 262144,
        131072,
    )
    .unwrap_err();
    assert_eq!(err.kind, ErrorKind::SourceUnavailable);
    assert_eq!(err.probe, "memory");
    assert_eq!(err.message(), "memory probe: source unavailable");
}

#[test]
fn facts_record_bad_disk_is_disk_error() {
    let err = build_facts(
        None, "box", None, None, None, None, false, "5.10.0", None, None, 0, Some(MEMINFO), 0, 0,
        0,
    )
    .unwrap_err();
    assert_eq!(err.kind, ErrorKind::ParseFailure);
    assert_eq!(err.probe, "disk");
    assert_eq!(err.message(), "disk probe: parse failure");
}

#[test]
fn probe_error_carries_probe_name() {
    let e = ProbeError::new("uptime", ErrorKind::SyscallFailure);
    assert_eq!(e.message(), "uptime probe: system call failure");
}
