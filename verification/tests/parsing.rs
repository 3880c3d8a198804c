//! Tests for the lyric text parser and the string utilities.

use lyric_fetch::lyric_parser::parse_tag_line;
use lyric_fetch::lyric_parser::parse_netease_lyrics;
use lyric_fetch::text::{
    candidate_name_matches, numeric_suffix, parse_u64_str, split_lines, str_ends_with, str_eq,
};

#[test]
fn tag_basic() {
    let r = parse_tag_line("[01:23.45]text").unwrap();
    assert_eq!(r.0, 60_000 + 23_000 + 450);
    assert_eq!(r.1, "text");
}

#[test]
fn tag_without_fraction() {
    let r = parse_tag_line("[3:07]x").unwrap();
    assert_eq!(r.0, 3 * 60_000 + 7_000);
    assert_eq!(r.1, "x");
}

#[test]
fn tag_fraction_widths() {
    assert_eq!(parse_tag_line("[00:00.5]a").unwrap().0, 500);
    assert_eq!(parse_tag_line("[00:00.05]a").unwrap().0, 50);
    assert_eq!(parse_tag_line("[00:00.005]a").unwrap().0, 5);
}

#[test]
fn tag_empty_text() {
    let r = parse_tag_line("[00:10.00]").unwrap();
    assert_eq!(r.0, 10_000);
    assert_eq!(r.1, "");
}

#[test]
fn tag_malformed() {
    assert!(parse_tag_line("no tag").is_none());
    assert!(parse_tag_line("").is_none());
    assert!(parse_tag_line("[aa:bb]x").is_none());
    assert!(parse_tag_line("[00:1]x").is_none());
    assert!(parse_tag_line("[00:12.3456]x").is_none());
    assert!(parse_tag_line("[00:12]").is_some());
    assert!(parse_tag_line("[123456789:00]x").is_none());
    assert!(parse_tag_line("[00:12,34]x").is_none());
    assert!(parse_tag_line("00:12]x").is_none());
}

#[test]
fn merge_translation() {
    let lyric = vec![
        "[00:00.000]a".to_string(),
        "[00:01.000]b".to_string(),
        "[00:02.000]c".to_string(),
    ];
    let tlyric = vec!["[00:01.000]B".to_string(), "[00:03.000]D".to_string()];
    let r = parse_netease_lyrics(lyric, tlyric);
    assert_eq!(r.len(), 3);
    assert_eq!(r[0].time_ms, 0);
    assert_eq!(r[0].text, "a");
    assert!(r[0].tlyric.is_none());
    assert_eq!(r[1].time_ms, 1000);
    assert_eq!(r[1].text, "b");
    assert_eq!(r[1].tlyric, Some("B".to_string()));
    assert_eq!(r[2].time_ms, 2000);
    assert_eq!(r[2].text, "c");
    assert!(r[2].tlyric.is_none());
}

#[test]
fn merge_skips_malformed_and_sorts() {
    let lyric = vec![
        "[00:02.000]late".to_string(),
        "bad line".to_string(),
        "[00:01.000]early".to_string(),
    ];
    let r = parse_netease_lyrics(lyric, Vec::new());
    assert_eq!(r.len(), 2);
    assert_eq!(r[0].time_ms, 1000);
    assert_eq!(r[0].text, "early");
    assert_eq!(r[1].time_ms, 2000);
    assert_eq!(r[1].text, "late");
}

#[test]
fn merge_first_text_wins() {
    let lyric = vec!["[00:00.000]x".to_string(), "[00:00.000]y".to_string()];
    let r = parse_netease_lyrics(lyric, Vec::new());
    assert_eq!(r.len(), 1);
    assert_eq!(r[0].text, "x");
}

#[test]
fn merge_empty_inputs() {
    let r = parse_netease_lyrics(Vec::new(), Vec::new());
    assert!(r.is_empty());
}

#[test]
fn title_prefix_case_insensitive() {
    assert!(candidate_name_matches("Song Title (Live)", "song title"));
    assert!(!candidate_name_matches("Other Song", "Song"));
    assert!(candidate_name_matches("anything", ""));
    assert!(candidate_name_matches("BLUE", "blue"));
}

#[test]
fn decimal_parse() {
    assert_eq!(parse_u64_str("123"), Some(123));
    assert_eq!(parse_u64_str("+5"), Some(5));
    assert_eq!(parse_u64_str("0007"), Some(7));
    assert_eq!(parse_u64_str(""), None);
    assert_eq!(parse_u64_str("+"), None);
    assert_eq!(parse_u64_str("12a"), None);
    assert_eq!(parse_u64_str("18446744073709551615"), Some(u64::MAX));
    assert_eq!(parse_u64_str("18446744073709551616"), None);
}

#[test]
fn numeric_suffix_of_track_id() {
    assert_eq!(numeric_suffix("/org/mpd/track/456"), Some(456));
    assert_eq!(numeric_suffix("123"), Some(123));
    assert_eq!(numeric_suffix("/a/b/"), None);
    assert_eq!(numeric_suffix("/a/song"), None);
    assert_eq!(numeric_suffix(""), None);
}

#[test]
fn string_helpers() {
    assert!(str_eq("abc", "abc"));
    assert!(!str_eq("abc", "abd"));
    assert!(!str_eq("abc", "ab"));
    assert!(str_ends_with("hello world", "world"));
    assert!(!str_ends_with("hello", "world"));
    assert!(str_ends_with("x", ""));
}

#[test]
fn split_lines_basic() {
    let r = split_lines("a\nb");
    assert_eq!(r, vec!["a".to_string(), "b".to_string()]);
    let r2 = split_lines("");
    assert_eq!(r2, vec!["".to_string()]);
    let r3 = split_lines("a\n");
    assert_eq!(r3, vec!["a".to_string(), "".to_string()]);
}
