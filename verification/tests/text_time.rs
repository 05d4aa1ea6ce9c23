use terminal_note::search::tokenize;
use terminal_note::text::{chars_of, decimal_string, split_lines, split_whitespace, white_space};
use terminal_note::time::Timestamp;

#[test]
fn split_whitespace_skips_runs_of_blanks() {
    let words = split_whitespace("  hello \t wide\u{3000}world\n ");
    assert_eq!(words, vec!["hello".to_string(), "wide".to_string(), "world".to_string()]);
    assert!(split_whitespace("").is_empty());
    assert!(split_whitespace(" \n\t ").is_empty());
}

#[test]
fn white_space_matches_std() {
    for c in ['\t', '\n', '\u{b}', '\u{c}', '\r', ' ', '\u{85}', '\u{a0}', '\u{1680}', '\u{2000}', '\u{200a}', '\u{2028}', '\u{2029}', '\u{202f}', '\u{205f}', '\u{3000}', 'a', '\u{200b}', '_', '\u{feff}'] {
        assert_eq!(white_space(c), c.is_whitespace(), "{:?}", c);
    }
}

#[test]
fn tokenize_lower_cases_words() {
    assert_eq!(tokenize("Hello WORLD, hello!"), vec!["hello", "world,", "hello!"]);
    assert_eq!(tokenize("ÄPFEL Straße"), vec!["äpfel", "straße"]);
}

#[test]
fn lines_follow_str_lines() {
    for text in ["", "a", "a\n", "a\nb", "a\r\nb\r\n", "\n", "\n\n", "x\r", "a\n\nb", "line\rmid\n"] {
        let ours = split_lines(text);
        let theirs: Vec<String> = text.lines().map(|l| l.to_string()).collect();
        assert_eq!(ours, theirs, "{:?}", text);
    }
}

#[test]
fn decimal_matches_format() {
    for n in [0i128, 7, 10, 1234567890123, -1, -1000000000, i128::MAX, i128::MIN] {
        assert_eq!(decimal_string(n), format!("{}", n));
    }
}

#[test]
fn chars_in_order() {
    let cs = chars_of("añ🔒b");
    assert_eq!(cs, vec!['a', 'ñ', '🔒', 'b']);
}

#[test]
fn timestamp_rfc3339_text() {
    let epoch = Timestamp::from_unix(0, 0).unwrap();
    assert_eq!(epoch.to_rfc3339(), "1970-01-01T00:00:00+00:00");
    let t = Timestamp::from_unix(1700000000, 500_000_000).unwrap();
    assert_eq!(t.to_rfc3339(), "2023-11-14T22:13:20.500+00:00");
    assert_eq!(t.secs(), 1700000000);
    assert_eq!(t.subsec_nanos(), 500_000_000);
}

#[test]
fn timestamp_out_of_range_is_refused() {
    assert!(Timestamp::from_unix(i64::MAX, 0).is_none());
    assert!(Timestamp::from_unix(0, 2_000_000_000).is_none());
}

#[test]
fn timestamp_parse_converts_to_utc() {
    let t = Timestamp::parse_rfc3339("2023-11-15T00:13:20.5+02:00").unwrap();
    assert_eq!((t.secs(), t.subsec_nanos()), (1700000000, 500_000_000));
    let e = Timestamp::parse_rfc3339("yesterday");
    assert!(e.is_err());
}

#[test]
fn timestamp_text_reads_back() {
    let t = Timestamp::from_unix(-86_399, 123_456_789).unwrap();
    let back = Timestamp::parse_rfc3339(&t.to_rfc3339()).unwrap();
    assert_eq!((back.secs(), back.subsec_nanos()), (-86_399, 123_456_789));
}

#[test]
fn timestamp_order() {
    let a = Timestamp::from_unix(5, 10).unwrap();
    let b = Timestamp::from_unix(5, 11).unwrap();
    let c = Timestamp::from_unix(6, 0).unwrap();
    assert!(a.is_before(&b) && b.is_before(&c) && a.is_before(&c));
    assert!(!b.is_before(&a) && !a.is_before(&a));
}

#[test]
fn timestamp_now_is_representable() {
    let now = Timestamp::now();
    assert!(Timestamp::from_unix(now.secs(), now.subsec_nanos()).is_some());
    assert!(now.secs() > 1_600_000_000);
    assert!(now.subsec_nanos() < 1_000_000_000);
}

#[test]
fn leap_seconds_are_written_as_second_60_and_read_back() {
    let t = Timestamp::from_unix(1700000039, 1_500_000_000).unwrap();
    let text = t.to_rfc3339();
    assert!(text.contains(":60.5"), "{}", text);
    let back = Timestamp::parse_rfc3339(&text).ok().unwrap();
    assert_eq!((back.secs(), back.subsec_nanos()), (1700000039, 1_500_000_000));
    assert!(Timestamp::from_unix(1700000000, 1_500_000_000).is_none());
}

#[test]
fn from_unix_accepts_leap_nanoseconds_only_at_a_minute_end() {
    assert!(Timestamp::from_unix(59, 1_999_999_999).is_some());
    assert!(Timestamp::from_unix(58, 1_000_000_000).is_none());
    assert!(Timestamp::from_unix(-1, 1_500_000_000).is_some());
    assert!(Timestamp::from_unix(-2, 1_500_000_000).is_none());
    assert!(Timestamp::from_unix(253402300799, 999_999_999).is_some());
}
