use cryptos::text::{split_fields, field_at, parse_i64, parse_i32, format_i64};

fn owned(items: &[&str]) -> Vec<String> {
    items.iter().map(|s| s.to_string()).collect()
}

#[test]
fn split_keeps_empty_fields() {
    assert_eq!(split_fields("a,,b", ','), owned(&["a", "", "b"]));
    assert_eq!(split_fields("", ','), owned(&[""]));
    assert_eq!(split_fields(",", ','), owned(&["", ""]));
    assert_eq!(split_fields("1,0.5,0.25,1700000000000", ','), owned(&["1", "0.5", "0.25", "1700000000000"]));
}

#[test]
fn field_at_picks_by_index() {
    assert_eq!(field_at("x,y,z", ',', 2), Some("z".to_string()));
    assert_eq!(field_at("x,y,z", ',', 3), None);
    assert_eq!(field_at("", ',', 0), Some(String::new()));
}

#[test]
fn parse_signed_integers() {
    assert_eq!(parse_i64("0"), Some(0));
    assert_eq!(parse_i64("007"), Some(7));
    assert_eq!(parse_i64("+5"), Some(5));
    assert_eq!(parse_i64("-42"), Some(-42));
    assert_eq!(parse_i64("1700000000000"), Some(1700000000000));
    assert_eq!(parse_i64("9223372036854775807"), Some(i64::MAX));
    assert_eq!(parse_i64("-9223372036854775808"), Some(i64::MIN));
}

#[test]
fn parse_rejects_malformed_text() {
    assert_eq!(parse_i64(""), None);
    assert_eq!(parse_i64("-"), None);
    assert_eq!(parse_i64("+"), None);
    assert_eq!(parse_i64("1.5"), None);
    assert_eq!(parse_i64(" 1"), None);
    assert_eq!(parse_i64("9223372036854775808"), None);
    assert_eq!(parse_i64("-9223372036854775809"), None);
    assert_eq!(parse_i64("99999999999999999999999"), None);
}

#[test]
fn parse_i32_range() {
    assert_eq!(parse_i32("2147483647"), Some(i32::MAX));
    assert_eq!(parse_i32("-2147483648"), Some(i32::MIN));
    assert_eq!(parse_i32("2147483648"), None);
    assert_eq!(parse_i32("-1"), Some(-1));
    for s in ["12", "-3", "+0", "x", "", "4000000000"] {
        assert_eq!(parse_i32(s), s.parse::<i32>().ok());
        assert_eq!(parse_i64(s), s.parse::<i64>().ok());
    }
}

#[test]
fn parse_reads_back_format() {
    for n in [0, 7, -7, 10, 1700000000000, -60000, i64::MAX, i64::MIN] {
        assert_eq!(format_i64(n), n.to_string());
        assert_eq!(parse_i64(&format_i64(n)), Some(n));
    }
}
