use agent_platform::number::{int_to_string, parse_i32, parse_u16};
use agent_platform::text::chars_of;

fn i32_of(s: &str) -> Option<i32> {
    parse_i32(&chars_of(s))
}

fn u16_of(s: &str) -> Option<u16> {
    parse_u16(&chars_of(s))
}

#[test]
fn parses_like_std_i32() {
    for s in [
        "0", "7", "-7", "+7", "007", "-0", "2147483647", "-2147483648", "2147483648",
        "-2147483649", "", "+", "-", "1a", " 1", "1 ", "--1", "+-1", "٣", "0000000000000000000042",
    ] {
        assert_eq!(i32_of(s), s.parse::<i32>().ok(), "input {:?}", s);
    }
}

#[test]
fn parses_like_std_u16() {
    for s in ["0", "8080", "+80", "-0", "-1", "65535", "65536", "", "80x", "99999999999999"] {
        assert_eq!(u16_of(s), s.parse::<u16>().ok(), "input {:?}", s);
    }
}

#[test]
fn writes_like_display() {
    for v in [0i64, 7, -7, 10, 42, -100, i64::MAX, i64::MIN, i32::MIN as i64] {
        assert_eq!(int_to_string(v), v.to_string());
    }
}

#[test]
fn decimal_roundtrip_on_samples() {
    for v in [0i32, 1, -1, 123456, i32::MAX, i32::MIN] {
        assert_eq!(i32_of(&int_to_string(v as i64)), Some(v));
    }
}
