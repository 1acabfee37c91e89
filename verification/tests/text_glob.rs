use traits::clock::{format_compact, format_iso, format_iso_padded, format_short_id, UtcTime};
use traits::glob::{glob_match_inner, simple_glob_match};
use traits::number::parse_u32;
use traits::text::{
    byte_len, contains_str, decimal_string, str_eq, str_starts_with, to_lowercase, trim_str,
    zero_padded_string,
};
use traits::vcs::{file_safe_key, normalize_key};

#[test]
fn glob_star_matches_any_run_of_bytes() {
    assert!(simple_glob_match("*.md", "docs/readme.md"));
    assert!(simple_glob_match("*", ""));
    assert!(simple_glob_match("a*c", "abbbc"));
    assert!(simple_glob_match("docs/*", "docs/"));
    assert!(!simple_glob_match("*.md", "readme.txt"));
}

#[test]
fn glob_question_matches_exactly_one_byte() {
    assert!(simple_glob_match("docs/?.md", "docs/a.md"));
    assert!(!simple_glob_match("docs/?.md", "docs/ab.md"));
    assert!(!simple_glob_match("?", ""));
    // 'é' is two bytes in UTF-8, so one '?' does not cover it
    assert!(!simple_glob_match("?", "é"));
    assert!(simple_glob_match("??", "é"));
}

#[test]
fn glob_literals_match_only_themselves() {
    assert!(simple_glob_match("abc", "abc"));
    assert!(!simple_glob_match("abc", "abd"));
    assert!(!simple_glob_match("abc", "abcd"));
    assert!(simple_glob_match("", ""));
    assert!(!simple_glob_match("", "a"));
    assert!(glob_match_inner(b"a?c", b"abc"));
    assert!(!glob_match_inner(b"a?c", b"ac"));
}

#[test]
fn normalize_key_keeps_key_characters() {
    assert_eq!(normalize_key("  My Game!! "), "my-game");
    assert_eq!(normalize_key("--Hello World--"), "hello-world");
    assert_eq!(normalize_key("Team/Sub_Game"), "team/sub_game");
    assert_eq!(normalize_key("a\tb"), "a-b");
    assert_eq!(normalize_key("ÄBC"), "bc");
    assert_eq!(normalize_key("!!!"), "");
    assert_eq!(normalize_key(""), "");
}

#[test]
fn normalize_key_is_idempotent() {
    for k in ["  My Game!! ", "a - b", "X/Y_z", "--", "Ünïcode Name 2"] {
        let once = normalize_key(k);
        assert_eq!(normalize_key(&once), once);
    }
}

#[test]
fn file_safe_key_replaces_slashes() {
    assert_eq!(file_safe_key("team/sub/game"), "team__sub__game");
    assert_eq!(file_safe_key("plain"), "plain");
    assert_eq!(file_safe_key(""), "");
}

#[test]
fn parse_u32_reads_like_std() {
    assert_eq!(parse_u32("256"), Some(256));
    assert_eq!(parse_u32("+5"), Some(5));
    assert_eq!(parse_u32("0007"), Some(7));
    assert_eq!(parse_u32("4294967295"), Some(4294967295));
    assert_eq!(parse_u32("4294967296"), None);
    assert_eq!(parse_u32(""), None);
    assert_eq!(parse_u32("+"), None);
    assert_eq!(parse_u32("-1"), None);
    assert_eq!(parse_u32("12a"), None);
    for s in ["0", "17", "99999", "+1", "x", " 1"] {
        assert_eq!(parse_u32(s), s.parse::<u32>().ok());
    }
}

#[test]
fn decimal_of_a_number_reads_back() {
    for n in [0u32, 9, 10, 256, 4294967295] {
        let text = decimal_string(n as u64);
        assert_eq!(text, n.to_string());
        assert_eq!(parse_u32(&text), Some(n));
    }
}

#[test]
fn text_helpers() {
    assert_eq!(to_lowercase("ÀB"), "àb");
    assert_eq!(trim_str("\u{3000} x \n"), "x");
    assert_eq!(trim_str("   "), "");
    assert_eq!(zero_padded_string(7, 3), "007");
    assert_eq!(zero_padded_string(1234, 2), "1234");
    assert_eq!(byte_len("é"), 2);
    assert_eq!(byte_len("abc"), 3);
    assert!(str_eq("a", "a"));
    assert!(!str_eq("a", "b"));
    assert!(contains_str(&"a..b".chars().collect(), ".."));
    assert!(!contains_str(&"a.b".chars().collect(), ".."));
    assert!(str_starts_with("dall-e-3", "dall-e"));
    assert!(!str_starts_with("gpt-image-1", "dall-e"));
}

#[test]
fn clock_formats() {
    let t = UtcTime { year: 2025, month: 3, day: 7, hour: 4, minute: 5, second: 6 };
    assert_eq!(format_iso(&t), "2025-03-07T04:05:06Z");
    assert_eq!(format_iso_padded(&t), "2025-03-07T04:05:06Z");
    assert_eq!(format_compact(&t), "250307040506");
    let early = UtcTime { year: 25, month: 12, day: 31, hour: 23, minute: 59, second: 58 };
    assert_eq!(format_iso(&early), "25-12-31T23:59:58Z");
    assert_eq!(format_iso_padded(&early), "0025-12-31T23:59:58Z");
    assert_eq!(format_compact(&early), "251231235958");
}

#[test]
fn short_ids_are_eight_hex_digits() {
    let t = UtcTime { year: 2025, month: 1, day: 1, hour: 0, minute: 0, second: 0 };
    assert_eq!(format_short_id(&t, 0), "300eee00");
    assert_eq!(format_short_id(&t, 1), "300eee01");
    let late = UtcTime { year: 2099, month: 12, day: 31, hour: 23, minute: 59, second: 59 };
    assert_eq!(format_short_id(&late, 7), "bfbd2806");
    let id = format_short_id(&late, 123456);
    assert_eq!(id.len(), 8);
    assert!(id.chars().all(|c| c.is_ascii_hexdigit()));
}

#[test]
fn short_ids_in_one_second_differ() {
    let t = UtcTime { year: 2025, month: 6, day: 15, hour: 12, minute: 30, second: 45 };
    let later = UtcTime { second: 46, ..t };
    let a = format_short_id(&t, 10);
    let b = format_short_id(&t, 11);
    let c = format_short_id(&later, 12);
    assert_ne!(a, b);
    assert_ne!(b, c);
    assert_ne!(a, c);
}
