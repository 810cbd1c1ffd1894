use pagi_knowledge::scalar::{clamp_milli, read_milli, write_milli};
use pagi_knowledge::text::decimal;

#[test]
fn decimals_read_as_thousandths() {
    assert_eq!(read_milli("0.5"), Some(500));
    assert_eq!(read_milli("1.6"), Some(1600));
    assert_eq!(read_milli("0.15"), Some(150));
    assert_eq!(read_milli("5"), Some(5000));
    assert_eq!(read_milli("5.0"), Some(5000));
    assert_eq!(read_milli("0"), Some(0));
    assert_eq!(read_milli("0.001"), Some(1));
    assert_eq!(read_milli("80.25"), Some(80250));
}

#[test]
fn digits_past_the_third_place_are_cut_off() {
    assert_eq!(read_milli("0.1239"), Some(123));
    assert_eq!(read_milli("0.9999"), Some(999));
    assert_eq!(read_milli("0.30000001192092896"), Some(300));
}

#[test]
fn what_is_no_unsigned_decimal_does_not_read() {
    assert_eq!(read_milli(""), None);
    assert_eq!(read_milli("."), None);
    assert_eq!(read_milli(".5"), None);
    assert_eq!(read_milli("1."), None);
    assert_eq!(read_milli("-1"), None);
    assert_eq!(read_milli("1e3"), None);
    assert_eq!(read_milli("1.5e3"), None);
    assert_eq!(read_milli("1.2.3"), None);
    assert_eq!(read_milli("abc"), None);
    assert_eq!(read_milli(" 1"), None);
    assert_eq!(read_milli("\"1\""), None);
    assert_eq!(read_milli("null"), None);
}

#[test]
fn thousandths_that_do_not_fit_do_not_read() {
    assert_eq!(read_milli("4294967.295"), Some(4_294_967_295));
    assert_eq!(read_milli("4294967.296"), None);
    assert_eq!(read_milli("4294968"), None);
    assert_eq!(read_milli("99999999999999999999999999"), None);
}

#[test]
fn thousandths_are_written_with_three_places() {
    assert_eq!(write_milli(0), "0.000");
    assert_eq!(write_milli(500), "0.500");
    assert_eq!(write_milli(1600), "1.600");
    assert_eq!(write_milli(1005), "1.005");
    assert_eq!(write_milli(4_294_967_295), "4294967.295");
}

#[test]
fn written_thousandths_read_back() {
    for m in [0u32, 1, 9, 10, 99, 100, 150, 500, 999, 1000, 1600, 123_456, 4_294_967_295] {
        assert_eq!(read_milli(&write_milli(m)), Some(m));
    }
}

#[test]
fn clamp_confines_to_the_interval() {
    assert_eq!(clamp_milli(5, 10, 20), 10);
    assert_eq!(clamp_milli(15, 10, 20), 15);
    assert_eq!(clamp_milli(25, 10, 20), 20);
}

#[test]
fn integers_are_written_in_decimal() {
    assert_eq!(decimal(0), "0");
    assert_eq!(decimal(7), "7");
    assert_eq!(decimal(1234567890), "1234567890");
    assert_eq!(decimal(-42), "-42");
    assert_eq!(decimal(i64::MAX), "9223372036854775807");
    assert_eq!(decimal(i64::MIN), "-9223372036854775808");
}
