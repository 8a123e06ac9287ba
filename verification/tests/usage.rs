use microfetch::error::ErrorKind;
use microfetch::system::{
    disk_usage_stats, get_memory_usage, get_root_disk_usage, memory_usage_stats,
};

#[test]
fn memory_golden_output() {
    let meminfo = "MemTotal:       33554432 kB\nMemFree:         4194304 kB\nMemAvailable:    8388608 kB\nBuffers:          123456 kB\n";
    assert_eq!(get_memory_usage(meminfo).unwrap(), "24.00 GiB / 32.00 GiB (75%)");
}

#[test]
fn memory_stats_fields() {
    let meminfo = "MemTotal: 33554432 kB\nMemAvailable: 8388608 kB\n";
    let stats = memory_usage_stats(meminfo).unwrap();
    assert_eq!(stats.used_hundredths, 2400);
    assert_eq!(stats.total_hundredths, 3200);
    assert_eq!(stats.pct, 75);
}

#[test]
fn memory_probe_is_idempotent_on_same_content() {
    let meminfo = "MemTotal: 16384 kB\nMemAvailable: 8192 kB\n";
    let first = get_memory_usage(meminfo).unwrap();
    let second = get_memory_usage(meminfo).unwrap();
    assert_eq!(first, second);
}

#[test]
fn memory_missing_key_is_parse_failure() {
    let meminfo = "MemTotal: 16384 kB\nSwapTotal: 0 kB\n";
    let err = get_memory_usage(meminfo).unwrap_err();
    assert_eq!(err.kind, ErrorKind::ParseFailure);
    assert_eq!(err.probe, "memory");
}

#[test]
fn memory_zero_total_is_error_not_division() {
    let meminfo = "MemTotal: 0 kB\nMemAvailable: 0 kB\n";
    let err = get_memory_usage(meminfo).unwrap_err();
    assert_eq!(err.kind, ErrorKind::ParseFailure);
    assert_eq!(err.probe, "memory");
}

#[test]
fn memory_available_above_total_is_error() {
    let meminfo = "MemTotal: 1024 kB\nMemAvailable: 2048 kB\n";
    assert!(get_memory_usage(meminfo).is_err());
}

#[test]
fn memory_last_line_wins() {
    let meminfo =
        "MemTotal: 1024 kB\nMemAvailable: 1024 kB\nMemTotal: 2097152 kB\nMemAvailable: 1048576 kB\n";
    assert_eq!(get_memory_usage(meminfo).unwrap(), "1.00 GiB / 2.00 GiB (50%)");
}

#[test]
fn memory_line_without_unit_is_ignored() {
    // The first MemTotal line has only two fields and does not count.
    let meminfo = "MemTotal: 1024\nMemTotal: 2097152 kB\nMemAvailable: 1048576 kB\n";
    assert_eq!(get_memory_usage(meminfo).unwrap(), "1.00 GiB / 2.00 GiB (50%)");
}

#[test]
fn memory_non_numeric_available_is_parse_failure() {
    let meminfo = "MemTotal: 9 kB\nMemAvailable: x kB\n";
    let err = get_memory_usage(meminfo).unwrap_err();
    assert_eq!(err.kind, ErrorKind::ParseFailure);
    assert_eq!(err.probe, "memory");
}

#[test]
fn memory_non_numeric_total_is_parse_failure() {
    let meminfo = "MemTotal: lots kB\nMemAvailable: 0 kB\n";
    let err = get_memory_usage(meminfo).unwrap_err();
    assert_eq!(err.kind, ErrorKind::ParseFailure);
    assert_eq!(err.probe, "memory");
}

#[test]
fn memory_overflowing_value_is_parse_failure() {
    let meminfo = "MemTotal: 99999999999999999999999999 kB\nMemAvailable: 1 kB\n";
    let err = get_memory_usage(meminfo).unwrap_err();
    assert_eq!(err.kind, ErrorKind::ParseFailure);
    assert_eq!(err.probe, "memory");
}

#[test]
fn memory_last_line_governs_even_when_malformed() {
    // A well-formed earlier line does not rescue a malformed governing line.
    let meminfo = "MemTotal: 2097152 kB\nMemAvailable: 1048576 kB\nMemAvailable: x kB\n";
    let err = get_memory_usage(meminfo).unwrap_err();
    assert_eq!(err.kind, ErrorKind::ParseFailure);
    assert_eq!(err.probe, "memory");
}

#[test]
fn memory_malformed_line_overridden_by_later_one() {
    let meminfo = "MemAvailable: x kB\nMemTotal: 2097152 kB\nMemAvailable: 1048576 kB\n";
    assert_eq!(get_memory_usage(meminfo).unwrap(), "1.00 GiB / 2.00 GiB (50%)");
}

#[test]
fn disk_golden_output() {
    // 4096-byte blocks: 262144 blocks are one gibibyte, half of them free.
    assert_eq!(get_root_disk_usage(4096, 262144, 131072).unwrap(), "0.50 GiB / 1.00 GiB (50%)");
}

#[test]
fn disk_stats_fields() {
    let stats = disk_usage_stats(4096, 262144, 65536).unwrap();
    assert_eq!(stats.used_hundredths, 75);
    assert_eq!(stats.total_hundredths, 100);
    assert_eq!(stats.pct, 75);
}

#[test]
fn disk_zero_total_blocks_is_defined_error() {
    let err = get_root_disk_usage(4096, 0, 0).unwrap_err();
    assert_eq!(err.kind, ErrorKind::ParseFailure);
    assert_eq!(err.probe, "disk");
}

#[test]
fn disk_zero_block_size_is_defined_error() {
    let err = get_root_disk_usage(0, 262144, 131072).unwrap_err();
    assert_eq!(err.kind, ErrorKind::ParseFailure);
    assert_eq!(err.probe, "disk");
}

#[test]
fn disk_nothing_available_is_fully_used() {
    assert_eq!(get_root_disk_usage(4096, 262144, 0).unwrap(), "1.00 GiB / 1.00 GiB (100%)");
}
