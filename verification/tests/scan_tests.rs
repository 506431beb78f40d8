use vcf_stream::scan::float_text;
use vcf_stream::scan::parse_u32;
use vcf_stream::scan::starts_with_prefix;
use vcf_stream::scan::trim;
use vcf_stream::split::split_char;
use vcf_stream::split::splitn_char;

#[test]
fn parse_u32_accepts_decimal() {
    assert_eq!(parse_u32("0"), Some(0));
    assert_eq!(parse_u32("42"), Some(42));
    assert_eq!(parse_u32("+7"), Some(7));
    assert_eq!(parse_u32("007"), Some(7));
    assert_eq!(parse_u32("4294967295"), Some(u32::MAX));
}

#[test]
fn parse_u32_rejects_everything_else() {
    assert_eq!(parse_u32(""), None);
    assert_eq!(parse_u32("+"), None);
    assert_eq!(parse_u32("-1"), None);
    assert_eq!(parse_u32("1x"), None);
    assert_eq!(parse_u32(" 1"), None);
    assert_eq!(parse_u32("4294967296"), None);
    assert_eq!(parse_u32("99999999999999999999"), None);
}

#[test]
fn float_text_accepts_the_grammar() {
    for s in [
        "0", "3.14", ".5", "5.", "-2", "+2.5", "1e5", "1E5", "1e+5", "2.5e-3",
        "inf", "INF", "-inf", "infinity", "Infinity", "nan", "NaN", "+nan",
    ] {
        assert!(float_text(s), "{:?} should be floating-point text", s);
    }
}

#[test]
fn float_text_rejects_the_rest() {
    for s in [
        "", ".", "+", "-", "e5", "5e", "1e5.5", "1.2.3", "abc", "1,5", "0x1",
        "in", "infinit", "nano", "1 ", " 1", "--1", "5e+",
    ] {
        assert!(!float_text(s), "{:?} should not be floating-point text", s);
    }
}

#[test]
fn trim_strips_surrounding_whitespace() {
    assert_eq!(trim("  a b \r\n"), "a b");
    assert_eq!(trim("a"), "a");
    assert_eq!(trim(""), "");
    assert_eq!(trim(" \t\n"), "");
    assert_eq!(trim("\tx\ty\t"), "x\ty");
}

#[test]
fn split_char_keeps_empty_pieces() {
    assert_eq!(
        split_char("a,,b", ','),
        vec!["a".to_string(), "".to_string(), "b".to_string()]
    );
    assert_eq!(split_char("", ','), vec!["".to_string()]);
    assert_eq!(split_char("x,", ','), vec!["x".to_string(), "".to_string()]);
}

#[test]
fn splitn_char_leaves_the_rest_in_one_piece() {
    assert_eq!(
        splitn_char("a\tb\tc\td", '\t', 3),
        vec!["a".to_string(), "b".to_string(), "c\td".to_string()]
    );
    assert_eq!(splitn_char("a\tb", '\t', 5), vec!["a".to_string(), "b".to_string()]);
    assert_eq!(splitn_char("abc", '\t', 1), vec!["abc".to_string()]);
}

#[test]
fn prefix_test() {
    assert!(starts_with_prefix("##fileformat=VCFv4.2", "##"));
    assert!(starts_with_prefix("abc", ""));
    assert!(!starts_with_prefix("#x", "##"));
    assert!(!starts_with_prefix("", "#"));
}
