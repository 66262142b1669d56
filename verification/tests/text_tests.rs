use ev3dev_lang_rust::numbers::format_i32;
use ev3dev_lang_rust::numbers::format_u32_dec;
use ev3dev_lang_rust::numbers::parse_i32;
use ev3dev_lang_rust::text::find_char;
use ev3dev_lang_rust::text::rfind_char;
use ev3dev_lang_rust::text::split_whitespace_tokens;
use ev3dev_lang_rust::text::str_contains;
use ev3dev_lang_rust::text::str_eq;
use ev3dev_lang_rust::text::trim_end;

#[test]
fn parse_accepts_signed_decimals() {
    assert_eq!(parse_i32("0").unwrap(), 0);
    assert_eq!(parse_i32("0042").unwrap(), 42);
    assert_eq!(parse_i32("-75").unwrap(), -75);
    assert_eq!(parse_i32("+75").unwrap(), 75);
    assert_eq!(parse_i32("2147483647").unwrap(), 2147483647);
    assert_eq!(parse_i32("-2147483648").unwrap(), -2147483648);
}

#[test]
fn parse_rejects_what_is_not_a_decimal() {
    assert!(parse_i32("").is_err());
    assert!(parse_i32("-").is_err());
    assert!(parse_i32("+").is_err());
    assert!(parse_i32("12a").is_err());
    assert!(parse_i32(" 12").is_err());
    assert!(parse_i32("1.5").is_err());
    assert!(parse_i32("2147483648").is_err());
    assert!(parse_i32("-2147483649").is_err());
    assert!(parse_i32("99999999999999999999").is_err());
}

#[test]
fn format_produces_canonical_decimals() {
    assert_eq!(format_i32(0), "0");
    assert_eq!(format_i32(7), "7");
    assert_eq!(format_i32(-7), "-7");
    assert_eq!(format_i32(1050), "1050");
    assert_eq!(format_i32(2147483647), "2147483647");
    assert_eq!(format_i32(-2147483648), "-2147483648");
    assert_eq!(format_u32_dec(100), "100");
}

#[test]
fn format_then_parse_round_trips() {
    for v in [0i32, 1, -1, 99, -100, 12345, i32::MAX, i32::MIN] {
        assert_eq!(parse_i32(&format_i32(v)).unwrap(), v);
    }
}

#[test]
fn trailing_whitespace_is_trimmed() {
    assert_eq!(trim_end("running\n"), "running");
    assert_eq!(trim_end("57 \t\r\n"), "57");
    assert_eq!(trim_end("  inner  kept  "), "  inner  kept");
    assert_eq!(trim_end(""), "");
    assert_eq!(trim_end(" \n "), "");
}

#[test]
fn whitespace_tokenization_keeps_order() {
    assert_eq!(
        split_whitespace_tokens("running ramping holding"),
        vec!["running".to_string(), "ramping".to_string(), "holding".to_string()]
    );
    assert_eq!(
        split_whitespace_tokens("  COL-REFLECT\tCOL-AMBIENT\n COL-COLOR "),
        vec!["COL-REFLECT".to_string(), "COL-AMBIENT".to_string(), "COL-COLOR".to_string()]
    );
    assert!(split_whitespace_tokens("").is_empty());
    assert!(split_whitespace_tokens(" \t\n").is_empty());
}

#[test]
fn substring_search_is_containment() {
    assert!(str_contains("ev3-ports:outA", "outA"));
    assert!(str_contains("outA", "outA"));
    assert!(str_contains("anything", ""));
    assert!(!str_contains("outA", "outB"));
    assert!(!str_contains("out", "outA"));
}

#[test]
fn character_search_finds_first_and_last() {
    assert_eq!(find_char("a'b'c", '\''), Some(1));
    assert_eq!(rfind_char("a'b'c", '\''), Some(3));
    assert_eq!(find_char("abc", 'x'), None);
    assert_eq!(rfind_char("abc", 'x'), None);
    assert!(str_eq("same", "same"));
    assert!(!str_eq("same", "sam"));
}
