use rush_cache_server::telemetry::{otel_disabled, otlp_endpoint};
use rush_cache_server::text::{is_whitespace, list_contains, parse_unsigned_str, str_eq, trim_str};

#[test]
fn trim_str_agrees_with_std() {
    for text in ["", "   ", " a ", "\t\na b\r\n", "\u{2003}x\u{2028}", "abc", " \u{85}y"] {
        assert_eq!(trim_str(text), text.trim(), "{text:?}");
    }
}

#[test]
fn parse_unsigned_str_agrees_with_std() {
    for text in ["0", "65535", "65536", "+1", "++1", "-1", "+", "", " 1", "1 ", "0x10", "00042"] {
        assert_eq!(parse_unsigned_str(text, u16::MAX as u64), text.parse::<u16>().ok().map(u64::from), "{text}");
    }
    for text in ["18446744073709551615", "18446744073709551616", "99999999999999999999999"] {
        assert_eq!(parse_unsigned_str(text, u64::MAX), text.parse::<u64>().ok(), "{text}");
    }
}

#[test]
fn str_eq_and_list_contains() {
    assert!(str_eq("abc", "abc"));
    assert!(!str_eq("abc", "abd"));
    assert!(!str_eq("abc", "ab"));
    let items = vec!["x".to_string(), "y".to_string()];
    assert!(list_contains(&items, &"y".to_string()));
    assert!(!list_contains(&items, &"z".to_string()));
}

#[test]
fn otel_disabled_values() {
    assert!(otel_disabled(Some("true")));
    assert!(otel_disabled(Some("1")));
    assert!(!otel_disabled(Some("TRUE")));
    assert!(!otel_disabled(Some("0")));
    assert!(!otel_disabled(Some("")));
    assert!(!otel_disabled(None));
}

#[test]
fn otlp_endpoint_default() {
    assert_eq!(otlp_endpoint(None), "http://localhost:4317");
    assert_eq!(otlp_endpoint(Some("http://collector:4317".to_string())), "http://collector:4317");
}


#[test]
fn is_whitespace_agrees_with_std() {
    for code in 0..=0x10FFFFu32 {
        if let Some(c) = char::from_u32(code) {
            assert_eq!(is_whitespace(c), c.is_whitespace(), "{code:#x}");
        }
    }
}
