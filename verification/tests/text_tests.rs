use sslboard_desktop::text::{decimal, parse_u64, to_lowercase};

#[test]
fn decimal_reads_back() {
    for n in [0u64, 9, 10, 99, 100, 4096, u64::MAX] {
        assert_eq!(decimal(n), n.to_string());
        assert_eq!(parse_u64(&decimal(n)), Some(n));
    }
}

#[test]
fn parse_u64_like_std() {
    for s in ["", "+", "-1", "1 ", "00012", "+5", "18446744073709551616", "x"] {
        assert_eq!(parse_u64(s), s.parse::<u64>().ok());
    }
}

#[test]
fn lowercase_is_unicode() {
    assert_eq!(to_lowercase("ÉCOLE.FR"), "école.fr");
}
