use logtail::text::{find_colon, join_tokens, parse_u32, str_eq, tokenize, trim_nul_str, trim_ws_str};

#[test]
fn tokenize_splits_on_whitespace_runs() {
    assert_eq!(tokenize("a b  c"), vec!["a", "b", "c"]);
    assert_eq!(tokenize("  lead and\ttrail \n"), vec!["lead", "and", "trail"]);
    assert!(tokenize("").is_empty());
    assert!(tokenize(" \t ").is_empty());
}

#[test]
fn join_tokens_rebuilds_with_single_spaces() {
    let toks: Vec<String> = ["a", "b", "c"].iter().map(|s| s.to_string()).collect();
    assert_eq!(join_tokens(&toks, 0), "a b c");
    assert_eq!(join_tokens(&toks, 1), "b c");
    assert_eq!(join_tokens(&toks, 3), "");
}

#[test]
fn find_colon_reports_the_first_colon_or_the_length() {
    assert_eq!(find_colon("ab:cd:e"), 2);
    assert_eq!(find_colon(":x"), 0);
    assert_eq!(find_colon("none"), 4);
    assert_eq!(find_colon(""), 0);
}

#[test]
fn trims_whitespace_and_nuls_separately() {
    assert_eq!(trim_ws_str("  x y\t"), "x y");
    assert_eq!(trim_ws_str("   "), "");
    assert_eq!(trim_nul_str("\u{0}v\u{0}\u{0}"), "v");
    assert_eq!(trim_nul_str(" \u{0}a\u{0} "), " \u{0}a\u{0} ");
}

#[test]
fn str_eq_compares_contents() {
    assert!(str_eq("abc", "abc"));
    assert!(!str_eq("abc", "abd"));
    assert!(!str_eq("abc", "ab"));
    assert!(str_eq("", ""));
}

#[test]
fn parse_u32_accepts_what_the_standard_parser_accepts() {
    assert_eq!(parse_u32("123"), Some(123));
    assert_eq!(parse_u32("+7"), Some(7));
    assert_eq!(parse_u32("0"), Some(0));
    assert_eq!(parse_u32("099"), Some(99));
    assert_eq!(parse_u32("4294967295"), Some(u32::MAX));
    assert_eq!(parse_u32("4294967296"), None);
    assert_eq!(parse_u32("99999999999999999999"), None);
    assert_eq!(parse_u32(""), None);
    assert_eq!(parse_u32("+"), None);
    assert_eq!(parse_u32("-1"), None);
    assert_eq!(parse_u32("12a"), None);
    assert_eq!(parse_u32(" 1"), None);
}
