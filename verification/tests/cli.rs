use zound::cli::{parse_args, DEFAULT_DURATION_SECS};
use zound::text::{char_count, ends_with, parse_u64, starts_with, strip_prefix, trim};

fn args(v: &[&str]) -> Vec<String> {
    v.iter().map(|s| s.to_string()).collect()
}

#[test]
fn no_arguments_give_defaults() {
    let a = parse_args(Vec::new());
    assert!(!a.list);
    assert!(a.play.is_empty());
    assert!(!a.play_default);
    assert_eq!(a.duration, DEFAULT_DURATION_SECS);
    assert_eq!(a.duration, 5);
    assert!(!a.self_test);
}

#[test]
fn flags_and_values_are_read() {
    let a = parse_args(args(&[
        "--list",
        "--play",
        "Kitchen",
        "--bogus",
        "--play",
        "Hall",
        "--duration",
        "12",
        "--play-default",
        "--self-test",
    ]));
    assert!(a.list);
    assert_eq!(a.play, vec!["Kitchen".to_string(), "Hall".to_string()]);
    assert_eq!(a.duration, 12);
    assert!(a.play_default);
    assert!(a.self_test);
}

#[test]
fn bad_duration_keeps_previous_value() {
    let a = parse_args(args(&["--duration", "7", "--duration", "x1"]));
    assert_eq!(a.duration, 7);
    let a = parse_args(args(&["--duration", "+9"]));
    assert_eq!(a.duration, 9);
    let a = parse_args(args(&["--duration", "18446744073709551616"]));
    assert_eq!(a.duration, 5);
}

#[test]
fn trailing_value_flag_is_ignored() {
    let a = parse_args(args(&["--list", "--play"]));
    assert!(a.list);
    assert!(a.play.is_empty());
    let a = parse_args(args(&["--duration"]));
    assert_eq!(a.duration, 5);
}

#[test]
fn value_of_play_may_look_like_a_flag() {
    let a = parse_args(args(&["--play", "--list"]));
    assert!(!a.list);
    assert_eq!(a.play, vec!["--list".to_string()]);
}

#[test]
fn u64_parsing_matches_std() {
    for s in ["0", "42", "+7", "", "+", "-1", " 1", "1 ", "18446744073709551615", "18446744073709551616", "1a", "٣"] {
        assert_eq!(parse_u64(s), s.parse::<u64>().ok(), "input {s:?}");
    }
}

#[test]
fn text_helpers() {
    assert_eq!(trim("  a b \t\n"), "a b");
    assert_eq!(trim("   "), "");
    assert_eq!(trim("\u{3000}x\u{2003}"), "x");
    assert!(starts_with("device not found: a", "device not found: "));
    assert!(!starts_with("dev", "device"));
    assert!(ends_with("Speakers.monitor", ".monitor"));
    assert!(!ends_with("monitor", ".monitor"));
    assert_eq!(strip_prefix("abc", "ab"), Some("c".to_string()));
    assert_eq!(strip_prefix("abc", "b"), None);
    assert_eq!(char_count("Колонки"), 7);
}
