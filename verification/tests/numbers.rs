use microfetch::numfmt::{gib_hundredths_of_bytes, gib_string, percentage, two_digit_string, u64_to_string};
use microfetch::uptime::get_current;

#[test]
fn uptime_zero_rounds_to_empty_string() {
    assert_eq!(get_current(0), "");
    assert_eq!(get_current(29), "");
}

#[test]
fn uptime_one_hour_keeps_minutes_segment() {
    assert_eq!(get_current(3600), "1 hours, 0 minutes");
}

#[test]
fn uptime_one_day_one_hour() {
    assert_eq!(get_current(90000), "1 days, 1 hours, 0 minutes");
}

#[test]
fn uptime_rounds_to_nearest_minute() {
    assert_eq!(get_current(30), "1 minutes");
    assert_eq!(get_current(89), "1 minutes");
    assert_eq!(get_current(90), "2 minutes");
}

#[test]
fn uptime_minutes_only() {
    assert_eq!(get_current(25 * 60), "25 minutes");
}

#[test]
fn uptime_large_value() {
    // 40 days, 23 hours, 7 minutes
    assert_eq!(get_current(40 * 86400 + 23 * 3600 + 7 * 60), "40 days, 23 hours, 7 minutes");
}

#[test]
fn percentage_rounds_halves_up() {
    assert_eq!(percentage(99, 200), 50); // 49.5%
    assert_eq!(percentage(101, 200), 51); // 50.5%
}

#[test]
fn percentage_bounds() {
    assert_eq!(percentage(0, 7), 0);
    assert_eq!(percentage(7, 7), 100);
    assert_eq!(percentage(1, 3), 33);
    assert_eq!(percentage(2, 3), 67);
}

#[test]
fn decimal_rendering() {
    assert_eq!(u64_to_string(0), "0");
    assert_eq!(u64_to_string(10), "10");
    assert_eq!(u64_to_string(907), "907");
    assert_eq!(u64_to_string(u64::MAX), "18446744073709551615");
}

#[test]
fn two_digit_rendering_pads() {
    assert_eq!(two_digit_string(0), "00");
    assert_eq!(two_digit_string(5), "05");
    assert_eq!(two_digit_string(42), "42");
}

#[test]
fn gib_rendering() {
    assert_eq!(gib_string(0), "0.00");
    assert_eq!(gib_string(5), "0.05");
    assert_eq!(gib_string(123), "1.23");
    assert_eq!(gib_string(2400), "24.00");
}

#[test]
fn gib_hundredths_conversion() {
    assert_eq!(gib_hundredths_of_bytes(1 << 30), 100);
    assert_eq!(gib_hundredths_of_bytes(1 << 29), 50);
    // 12.5 hundredths of a gibibyte round up to 13
    assert_eq!(gib_hundredths_of_bytes(134217728), 13);
    assert_eq!(gib_hundredths_of_bytes(0), 0);
}
