use hello_routes::json::{encode_json_object2, encode_json_string};
use hello_routes::text::{parse_u32, u32_to_decimal};

#[test]
fn parse_u32_accepts_decimal_numerals() {
    assert_eq!(parse_u32("0"), Some(0));
    assert_eq!(parse_u32("42"), Some(42));
    assert_eq!(parse_u32("007"), Some(7));
    assert_eq!(parse_u32("+13"), Some(13));
    assert_eq!(parse_u32("4294967295"), Some(u32::MAX));
}

#[test]
fn parse_u32_rejects_everything_else() {
    assert_eq!(parse_u32(""), None);
    assert_eq!(parse_u32("+"), None);
    assert_eq!(parse_u32("-1"), None);
    assert_eq!(parse_u32("1x"), None);
    assert_eq!(parse_u32("x1"), None);
    assert_eq!(parse_u32("1 "), None);
    assert_eq!(parse_u32("1+1"), None);
    assert_eq!(parse_u32("4294967296"), None);
    assert_eq!(parse_u32("99999999999999999999"), None);
    assert_eq!(parse_u32("é"), None);
}

#[test]
fn parse_u32_agrees_with_std() {
    for s in ["0", "42", "007", "+13", "4294967295", "", "+", "-1", "1x", "4294967296"] {
        assert_eq!(parse_u32(s), s.parse::<u32>().ok());
    }
}

#[test]
fn u32_to_decimal_formats_as_std_does() {
    for n in [0u32, 7, 10, 42, 100, 999, 1000, 65536, u32::MAX] {
        assert_eq!(u32_to_decimal(n), format!("{}", n));
    }
}

#[test]
fn json_string_plain_text_is_only_quoted() {
    assert_eq!(encode_json_string("Received name: Ada"), "\"Received name: Ada\"");
    assert_eq!(encode_json_string(""), "\"\"");
}

#[test]
fn json_string_escapes_exactly_as_serde_does() {
    for s in [
        "plain",
        "with \"quotes\"",
        "back\\slash",
        "control \u{0}\u{1}\u{8}\t\n\u{c}\r\u{1f}",
        "space bar \u{20}\u{7f}",
        "unicode é 日本",
        "",
    ] {
        assert_eq!(encode_json_string(s), serde_json::to_string(s).unwrap());
    }
}

#[test]
fn json_object2_writes_members_in_order() {
    assert_eq!(encode_json_object2("name", "Good!", "age", "21"), "{\"name\":\"Good!\",\"age\":\"21\"}");
    assert_eq!(encode_json_object2("a\"b", "x", "k", "\n"), "{\"a\\\"b\":\"x\",\"k\":\"\\n\"}");
}
