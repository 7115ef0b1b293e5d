use logtail::resolve::{command_for, normalize_identity, Resolver};

#[test]
fn command_carries_pid_sentinel_and_newline() {
    assert_eq!(command_for("42"), "cat /proc/42/cmdline && echo \u{0}\n");
}

#[test]
fn response_is_trimmed_of_nuls_and_whitespace() {
    assert_eq!(normalize_identity("7", "com.example.app\u{0}"), "com.example.app");
    assert_eq!(normalize_identity("7", "\u{0}\u{0} spaced \u{0}"), "spaced");
}

#[test]
fn empty_identity_yields_the_placeholder() {
    assert_eq!(normalize_identity("123", "\u{0}"), "pid-123");
    assert_eq!(normalize_identity("123", "\u{0} \n\u{0}"), "pid-123");
    assert_eq!(normalize_identity("123", ""), "pid-123");
}

#[test]
fn lookup_misses_until_a_response_is_recorded() {
    let mut r = Resolver::new();
    assert!(r.lookup("10").is_none());
    let pkg = r.resolve_response("10", "com.ten\u{0}");
    assert_eq!(pkg, "com.ten");
    assert_eq!(r.lookup("10").as_deref(), Some("com.ten"));
}

#[test]
fn second_resolution_returns_the_identical_value() {
    let mut r = Resolver::new();
    let first = r.resolve_response("5", "com.five\u{0}");
    let again = r.lookup("5").unwrap();
    assert_eq!(first, again);
    let other = r.resolve_response("6", "com.six\u{0}");
    assert_eq!(other, "com.six");
    assert_eq!(r.lookup("5").as_deref(), Some("com.five"));
    assert_eq!(r.lookup("6").as_deref(), Some("com.six"));
}

#[test]
fn placeholder_is_cached_like_a_real_identity() {
    let mut r = Resolver::new();
    let pkg = r.resolve_response("77", "  \u{0}");
    assert_eq!(pkg, "pid-77");
    assert_eq!(r.lookup("77").as_deref(), Some("pid-77"));
}
