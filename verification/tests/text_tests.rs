use rust_servicemesh::text::{decimal_string, parse_u64};

#[test]
fn text_parse_u64_like_std() {
    for s in ["0", "42", "+7", "18446744073709551615", "007"] {
        assert_eq!(parse_u64(s), s.parse::<u64>().ok(), "{}", s);
    }
    for s in ["", "+", "-1", "18446744073709551616", "1 2", " 1", "x"] {
        assert_eq!(parse_u64(s), None, "{}", s);
        assert_eq!(s.parse::<u64>().ok(), None);
    }
}

#[test]
fn text_decimal_string() {
    assert_eq!(decimal_string(0), "0");
    assert_eq!(decimal_string(10), "10");
    assert_eq!(decimal_string(u64::MAX), u64::MAX.to_string());
}
