use pomimi::cli::{decode_key, parse_duration_arg, Key};
use pomimi::fmt::{decimal_string, format_duration, two_digits_string};
use pomimi::session::sum_rows_to_total;

#[test]
fn countdowns_render_as_minutes_and_seconds() {
    assert_eq!(format_duration(0), "00:00");
    assert_eq!(format_duration(59), "00:59");
    assert_eq!(format_duration(60), "01:00");
    assert_eq!(format_duration(1500), "25:00");
    assert_eq!(format_duration(3599), "59:59");
    assert_eq!(format_duration(3661), "61:01");
    assert_eq!(format_duration(3000), "50:00");
}

#[test]
fn decimal_rendering_is_exact() {
    assert_eq!(decimal_string(0), "0");
    assert_eq!(decimal_string(7), "7");
    assert_eq!(decimal_string(10), "10");
    assert_eq!(decimal_string(90061), "90061");
    assert_eq!(two_digits_string(5), "05");
    assert_eq!(two_digits_string(42), "42");
    assert_eq!(two_digits_string(100), "100");
}

#[test]
fn plain_numbers_are_minutes() {
    assert_eq!(parse_duration_arg("25"), Some(25 * 60));
    assert_eq!(parse_duration_arg("1"), Some(60));
}

#[test]
fn suffixes_pick_the_unit() {
    assert_eq!(parse_duration_arg("15m"), Some(15 * 60));
    assert_eq!(parse_duration_arg("30s"), Some(30));
    assert_eq!(parse_duration_arg("90s"), Some(90));
}

#[test]
fn bad_shapes_are_rejected() {
    assert_eq!(parse_duration_arg(""), None);
    assert_eq!(parse_duration_arg("m"), None);
    assert_eq!(parse_duration_arg("s"), None);
    assert_eq!(parse_duration_arg("abc"), None);
    assert_eq!(parse_duration_arg("10x"), None);
    assert_eq!(parse_duration_arg("1 5"), None);
    assert_eq!(parse_duration_arg("-5"), None);
}

#[test]
fn zero_durations_are_rejected() {
    assert_eq!(parse_duration_arg("0"), None);
    assert_eq!(parse_duration_arg("0s"), None);
    assert_eq!(parse_duration_arg("000m"), None);
}

#[test]
fn oversized_durations_are_rejected() {
    // The seconds value itself fits, but scaling to minutes does not.
    assert_eq!(parse_duration_arg("18446744073709551615s"), Some(u64::MAX));
    assert_eq!(parse_duration_arg("18446744073709551615"), None);
    assert_eq!(parse_duration_arg("18446744073709551616s"), None);
    assert_eq!(parse_duration_arg("99999999999999999999999"), None);
}

#[test]
fn keys_decode_as_the_terminal_sends_them() {
    assert_eq!(decode_key(b'\n', None), Key::Enter);
    assert_eq!(decode_key(b'\r', None), Key::Enter);
    assert_eq!(decode_key(27, Some((b'[', b'A'))), Key::Up);
    assert_eq!(decode_key(27, Some((b'[', b'B'))), Key::Down);
    assert_eq!(decode_key(27, Some((b'[', b'C'))), Key::Unknown);
    assert_eq!(decode_key(27, Some((b'x', b'A'))), Key::Unknown);
    assert_eq!(decode_key(27, None), Key::Char('\x1b'));
    assert_eq!(decode_key(b'q', None), Key::Char('q'));
    assert_eq!(decode_key(b'j', Some((b'[', b'A'))), Key::Char('j'));
}

#[test]
fn a_sum_over_no_rows_is_zero() {
    assert_eq!(sum_rows_to_total(None), 0);
    assert_eq!(sum_rows_to_total(Some(0)), 0);
    assert_eq!(sum_rows_to_total(Some(4500)), 4500);
    assert_eq!(sum_rows_to_total(Some(-1)), -1);
}
