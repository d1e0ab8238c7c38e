use evmcrispr_api::text::{
    chars_of, clip, join, keep_alphanumerics, parse_u64, same, sanitize_err, split, split_once,
    starts_with, strip_prefix, text_of, to_ascii_lowercase, trim, trim_end_matches,
    trim_hex_prefix, u64_text,
};

#[test]
fn text_characters_and_parts() {
    let chars = chars_of("añ€😀");
    assert_eq!(chars, vec!['a', 'ñ', '€', '😀']);
    assert_eq!(text_of(&chars, 1, 3), "ñ€");
    assert_eq!(text_of(&chars, 2, 2), "");
}

#[test]
fn text_comparison() {
    assert!(same("abc", "abc"));
    assert!(!same("abc", "abd"));
    assert!(!same("abc", "ab"));
    assert!(starts_with("abc", ""));
    assert!(starts_with("abc", "ab"));
    assert!(!starts_with("ab", "abc"));
    assert_eq!(strip_prefix("/fetch/x", "/fetch/"), Some("x".to_string()));
    assert_eq!(strip_prefix("/fetc", "/fetch/"), None);
}

#[test]
fn text_split_keeps_empty_pieces() {
    assert_eq!(split("a,,b,", ','), vec!["a", "", "b", ""]);
    assert_eq!(split("", ','), vec![""]);
}

#[test]
fn text_joined_pieces_are_the_text() {
    for s in ["", ",", "a,b", ",a,,b"] {
        assert_eq!(join(&split(s, ','), ","), s);
    }
    assert_eq!(join(&Vec::new(), ", "), "");
}

#[test]
fn text_joined_texts_split_again() {
    let list = vec!["a".to_string(), "".to_string(), "b c".to_string()];
    assert_eq!(split(join(&list, ";").as_str(), ';'), list);
}

#[test]
fn text_pieces_hold_no_separator() {
    for piece in split("k=v&x&&y=", '&') {
        assert!(!piece.contains('&'));
    }
}

#[test]
fn text_split_once_at_the_first() {
    assert_eq!(split_once("k=v=w", '='), Some(("k".to_string(), "v=w".to_string())));
    assert_eq!(split_once("=", '='), Some(("".to_string(), "".to_string())));
    assert_eq!(split_once("kv", '='), None);
}

#[test]
fn text_trims_unicode_spaces() {
    assert_eq!(trim(" \t\n x y \u{a0}\u{3000}\u{85}"), "x y");
    assert_eq!(trim(" \u{2003} "), "");
    assert_eq!(trim("\u{200b}x"), "\u{200b}x");
}

#[test]
fn text_trims_every_hex_prefix() {
    assert_eq!(trim_hex_prefix("0x0x12"), "12");
    assert_eq!(trim_hex_prefix("0X12"), "0X12");
    assert_eq!(trim_hex_prefix("00x1"), "00x1");
    assert_eq!(trim_end_matches("a//", '/'), "a");
    assert_eq!(trim_end_matches("//", '/'), "");
}

#[test]
fn text_lower_case_of_ascii() {
    assert_eq!(to_ascii_lowercase("Set-COOKIE Ñ"), "set-cookie Ñ");
}

#[test]
fn text_numbers() {
    assert_eq!(parse_u64("18446744073709551615"), Some(u64::MAX));
    assert_eq!(parse_u64("18446744073709551616"), None);
    assert_eq!(parse_u64("+007"), Some(7));
    assert_eq!(parse_u64(""), None);
    assert_eq!(parse_u64("+"), None);
    assert_eq!(parse_u64("-1"), None);
    assert_eq!(parse_u64("1 "), None);
    assert_eq!(parse_u64("a"), None);
}

#[test]
fn text_decimal_reads_back() {
    for n in [0, 9, 10, 12345, u64::MAX] {
        assert_eq!(u64_text(n), n.to_string());
        assert_eq!(parse_u64(u64_text(n).as_str()), Some(n));
    }
}

#[test]
fn text_sanitized_text_is_harmless() {
    assert_eq!(sanitize_err("a \"b\"\r\nc"), "a bc");
    assert_eq!(sanitize_err("plain 'text'"), "plain 'text'");
}

#[test]
fn text_keeps_letters_and_digits() {
    assert_eq!(keep_alphanumerics("aZ-9&x=ñ"), "aZ9x");
}

#[test]
fn text_clips_characters() {
    assert_eq!(clip("añ€x", 3), "añ€");
    assert_eq!(clip("ab", 3), "ab");
    assert_eq!(clip("ab", 0), "");
}
