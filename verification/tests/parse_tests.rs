use logtail::parse::parse_line;

#[test]
fn parses_canonical_line() {
    let p = parse_line("2024-01-01 10:00:00.000 123 456 I MyTag: hello world").unwrap();
    assert_eq!(p.entry.date, "2024-01-01");
    assert_eq!(p.entry.time, "10:00:00.000");
    assert_eq!(p.entry.pid, Some(123));
    assert_eq!(p.entry.tid, Some(456));
    assert_eq!(p.entry.level, "I");
    assert_eq!(p.entry.tag, "MyTag");
    assert_eq!(p.entry.message, "hello world");
    assert_eq!(p.entry.package, None);
    assert_eq!(p.pid_text, "123");
}

#[test]
fn six_tokens_parse_with_verbatim_positional_fields() {
    let p = parse_line("a b x y Z tail").unwrap();
    assert_eq!(p.entry.date, "a");
    assert_eq!(p.entry.time, "b");
    assert_eq!(p.entry.pid, None);
    assert_eq!(p.entry.tid, None);
    assert_eq!(p.entry.level, "Z");
    assert_eq!(p.pid_text, "x");
}

#[test]
fn five_tokens_are_rejected() {
    assert!(parse_line("one two three four five").is_none());
    assert!(parse_line("").is_none());
    assert!(parse_line("   ").is_none());
}

#[test]
fn no_colon_makes_the_remainder_the_tag() {
    let p = parse_line("d t 1 2 I NoColonHere extra words").unwrap();
    assert_eq!(p.entry.tag, "NoColonHere extra words");
    assert_eq!(p.entry.message, "");
}

#[test]
fn splits_remainder_at_first_colon_only() {
    let p = parse_line("d t 1 2 I A: b: c").unwrap();
    assert_eq!(p.entry.tag, "A");
    assert_eq!(p.entry.message, "b: c");
}

#[test]
fn tag_and_message_are_trimmed_around_the_colon() {
    let p = parse_line("d t 1 2 I My Tag : spaced out").unwrap();
    assert_eq!(p.entry.tag, "My Tag");
    assert_eq!(p.entry.message, "spaced out");
}

#[test]
fn colon_leading_remainder_gives_an_empty_tag() {
    let p = parse_line("d t 1 2 I :message only").unwrap();
    assert_eq!(p.entry.tag, "");
    assert_eq!(p.entry.message, "message only");
}

#[test]
fn extra_whitespace_between_tokens_is_collapsed() {
    let p = parse_line("  2024-01-01\t10:00  9  8   W  T: m  ").unwrap();
    assert_eq!(p.entry.date, "2024-01-01");
    assert_eq!(p.entry.time, "10:00");
    assert_eq!(p.entry.pid, Some(9));
    assert_eq!(p.entry.tid, Some(8));
    assert_eq!(p.entry.level, "W");
    assert_eq!(p.entry.tag, "T");
    assert_eq!(p.entry.message, "m");
}

#[test]
fn bad_numeric_fields_leave_the_entry_usable() {
    let p = parse_line("d t 12x -3 E Tag: msg").unwrap();
    assert_eq!(p.entry.pid, None);
    assert_eq!(p.entry.tid, None);
    assert_eq!(p.pid_text, "12x");
    assert_eq!(p.entry.message, "msg");
}
