use logtail::format::{format_line, level_color, pad, pad_center, tag_color_code, truncate, LevelColor};
use logtail::input::{action_for_key, Action};

#[test]
fn pad_fills_or_cuts_to_width() {
    assert_eq!(pad("abc", 5), "abc  ");
    assert_eq!(pad("abcdef", 4), "abcd");
    assert_eq!(pad("", 3), "   ");
    assert_eq!(pad("abc", 3), "abc");
}

#[test]
fn truncate_matches_pad() {
    assert_eq!(truncate("abcdef", 4), "abcd");
    assert_eq!(truncate("ab", 4), "ab  ");
}

#[test]
fn pad_center_splits_space_with_the_odd_space_right() {
    assert_eq!(pad_center("ab", 5), " ab  ");
    assert_eq!(pad_center("ab", 4), " ab ");
    assert_eq!(pad_center("abcdef", 3), "abc");
    assert_eq!(pad_center("", 2), "  ");
}

#[test]
fn format_line_lays_out_fixed_columns() {
    let parts: Vec<String> = ["01-01", "10:00", "123", "456", "I", "Tag:", "hello", "world"]
        .iter()
        .map(|s| s.to_string())
        .collect();
    let expected = [
        "01-01", " ", "10:00   ", " [", "123  ", "-", "456  ", "] ", "Tag:           ", " ",
        "com.x          ", " ", "I", " ", "hello world",
    ]
    .concat();
    assert_eq!(format_line(&parts, "com.x"), expected);
}

#[test]
fn format_line_needs_seven_tokens() {
    let parts: Vec<String> = ["a", "b", "c", "d", "e", "f"].iter().map(|s| s.to_string()).collect();
    assert_eq!(format_line(&parts, "pkg"), "");
}

#[test]
fn levels_map_to_their_colors() {
    assert!(matches!(level_color("E"), LevelColor::Red));
    assert!(matches!(level_color("W"), LevelColor::Yellow));
    assert!(matches!(level_color("I"), LevelColor::Green));
    assert!(matches!(level_color("D"), LevelColor::Cyan));
    assert!(matches!(level_color("V"), LevelColor::White));
    assert!(matches!(level_color("weird"), LevelColor::White));
}

#[test]
fn tag_color_is_the_character_code_sum() {
    assert_eq!(tag_color_code("ab"), 195);
    assert_eq!(tag_color_code(""), 0);
    assert_eq!(tag_color_code("A"), 65);
}

#[test]
fn keys_map_to_their_actions() {
    assert!(matches!(action_for_key('q', false), Action::Quit));
    assert!(matches!(action_for_key('j', false), Action::ScrollDown));
    assert!(matches!(action_for_key('k', false), Action::ScrollUp));
    assert!(matches!(action_for_key('G', false), Action::GoToEnd));
    assert!(matches!(action_for_key('d', true), Action::PageDown));
    assert!(matches!(action_for_key('u', true), Action::PageUp));
    assert!(matches!(action_for_key('d', false), Action::Idle));
    assert!(matches!(action_for_key('u', false), Action::Idle));
    assert!(matches!(action_for_key('x', false), Action::Idle));
    assert!(matches!(action_for_key('q', true), Action::Quit));
}
