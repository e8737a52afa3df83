use openagents::hash::{short_hash, to_base36};
use openagents::json_parse::{parse_json_with_repair, parse_streaming_json, repair_json};
use openagents::numbers::parse_i64;
use openagents::text::{decimal_u64, i64_string, is_blank, join_with, sanitize_surrogates, trimmed, truncate_str};

#[test]
fn short_hash_known_values() {
    assert_eq!(short_hash(""), "k4n83c7h0j2b");
    assert_eq!(short_hash("hello"), "1h6qa0qrowduu");
    assert_eq!(short_hash("abc"), "y0biex7f9bbh");
    assert_eq!(short_hash("call_123|fc_456"), "1l8gxfc1027wt9");
}

#[test]
fn short_hash_counts_utf16_units() {
    // A character outside the basic plane hashes as two UTF-16 units.
    assert_eq!(short_hash("😀"), "13wj7r7usi372");
}

#[test]
fn short_hash_is_deterministic() {
    assert_eq!(short_hash("same input"), short_hash("same input"));
    assert_ne!(short_hash("a"), short_hash("b"));
}

#[test]
fn repair_escapes_control_characters_in_strings() {
    assert_eq!(repair_json("{\"a\":\"x\ny\"}"), "{\"a\":\"x\\ny\"}");
    assert_eq!(repair_json("{\"a\":\"\u{1}\"}"), "{\"a\":\"\\u0001\"}");
    assert_eq!(repair_json("{\"a\":\"\t\r\u{8}\u{c}\"}"), "{\"a\":\"\\t\\r\\b\\f\"}");
}

#[test]
fn repair_doubles_invalid_escapes() {
    assert_eq!(repair_json("{\"p\":\"C:\\dir\"}"), "{\"p\":\"C:\\\\dir\"}");
    assert_eq!(repair_json("{\"p\":\"\\n\\u0041\"}"), "{\"p\":\"\\n\\u0041\"}");
    assert_eq!(repair_json("\"\\u12\""), "\"\\u12\"");
    assert_eq!(repair_json("\"abc\\"), "\"abc\\\\");
}

#[test]
fn repair_leaves_text_outside_strings() {
    assert_eq!(repair_json("{\n  \"a\": 1\n}"), "{\n  \"a\": 1\n}");
    assert_eq!(repair_json("no quotes\there"), "no quotes\there");
}

#[test]
fn parse_with_repair_accepts_valid_json() {
    assert_eq!(parse_json_with_repair("{\"b\": 2, \"a\": [1, true]}").ok().unwrap(), "{\"a\":[1,true],\"b\":2}");
}

#[test]
fn parse_with_repair_repairs_raw_newlines() {
    assert_eq!(parse_json_with_repair("{\"a\":\"x\ny\"}").ok().unwrap(), "{\"a\":\"x\\ny\"}");
}

#[test]
fn parse_with_repair_reports_first_error() {
    let e = parse_json_with_repair("{\"a\":").err().unwrap();
    assert!(!e.message.is_empty());
}

#[test]
fn streaming_json_closes_partial_values() {
    assert_eq!(parse_streaming_json(""), "{}");
    assert_eq!(parse_streaming_json("   "), "{}");
    assert_eq!(parse_streaming_json("{\"a\":\"hel"), "{\"a\":\"hel\"}");
    assert_eq!(parse_streaming_json("[1,2"), "[1]");
    assert_eq!(parse_streaming_json("{\"a\":1,"), "{\"a\":1}");
    assert_eq!(parse_streaming_json("{\"a\":{\"b\":[true"), "{\"a\":{\"b\":[]}}");
}

#[test]
fn streaming_json_falls_back_to_empty_object() {
    assert_eq!(parse_streaming_json("}}"), "{}");
    assert_eq!(parse_streaming_json("{\"a\":1}"), "{\"a\":1}");
}

#[test]
fn truncation_adds_ellipsis_over_limit() {
    assert_eq!(truncate_str("abcdef", 3), "abc...");
    assert_eq!(truncate_str("abc", 3), "abc");
    assert_eq!(truncate_str("héllo", 2), "hé...");
}

#[test]
fn blank_and_trim_follow_unicode_whitespace() {
    assert!(is_blank(" \t\n\u{3000}"));
    assert!(!is_blank(" a "));
    assert_eq!(trimmed("\u{a0} x y \n"), "x y");
}

#[test]
fn join_and_sanitize() {
    let parts = vec!["a".to_string(), "b".to_string(), "c".to_string()];
    assert_eq!(join_with(&parts, ", "), "a, b, c");
    assert_eq!(join_with(&Vec::new(), ", "), "");
    assert_eq!(sanitize_surrogates("text 😀"), "text 😀");
}

#[test]
fn integers_round_trip_through_decimal() {
    for n in [0i64, 7, -7, 1234567, i64::MAX, i64::MIN] {
        assert_eq!(i64_string(n), n.to_string());
        assert_eq!(parse_i64(&i64_string(n)), Some(n));
    }
    assert_eq!(decimal_u64(u64::MAX), u64::MAX.to_string());
}

#[test]
fn parse_i64_matches_std_rules() {
    assert_eq!(parse_i64("+42"), Some(42));
    assert_eq!(parse_i64("-0"), Some(0));
    assert_eq!(parse_i64(""), None);
    assert_eq!(parse_i64("-"), None);
    assert_eq!(parse_i64("12a"), None);
    assert_eq!(parse_i64(" 1"), None);
    assert_eq!(parse_i64("9223372036854775808"), None);
    assert_eq!(parse_i64("-9223372036854775808"), Some(i64::MIN));
    assert_eq!(parse_i64("99999999999999999999999"), None);
}

#[test]
fn failed_parse_reports_the_first_error() {
    let bad = "{\"a\":";
    let e = parse_json_with_repair(bad).err().unwrap();
    let expected = serde_json::from_str::<serde_json::Value>(bad).unwrap_err().to_string();
    assert_eq!(e.message, expected);
}

#[test]
fn repairing_twice_changes_nothing() {
    for s in ["{\"a\":\"x\ny\\q\"}", "{\"a\":\"\\u12\"}", "\"tab\there\\", "{\"u\":\"\u{1}\"}", "plain"] {
        let once = repair_json(s);
        assert_eq!(repair_json(&once), once);
    }
}

#[test]
fn base36_reads_back_with_std() {
    for n in [0u32, 1, 35, 36, 1295, 1296, 123456789, u32::MAX] {
        let s = to_base36(n);
        assert_eq!(u32::from_str_radix(&s, 36), Ok(n));
        assert!(n == 0 || !s.starts_with('0'));
    }
    assert_eq!(to_base36(0), "0");
    assert_eq!(to_base36(35), "z");
    assert_eq!(to_base36(36), "10");
    assert_eq!(to_base36(u32::MAX), "1z141z3");
}
