use notoize::text::{
    ascii_lower, contains_substr, ends_with_str, hex4, parse_u32_decimal, split_words,
    starts_with_str, str_eq, strip_space_hyphen,
};

#[test]
fn hex_rendering_pads_to_four_digits() {
    assert_eq!(hex4(0x41), "0041");
    assert_eq!(hex4(0), "0000");
    assert_eq!(hex4(0xABC), "0abc");
    assert_eq!(hex4(0xFFFF), "ffff");
}

#[test]
fn hex_rendering_grows_past_four_digits() {
    assert_eq!(hex4(0x1F600), "1f600");
    assert_eq!(hex4(0x10FFFF), "10ffff");
}

#[test]
fn decimal_parse_reads_plain_digits() {
    assert_eq!(parse_u32_decimal("0"), Some(0));
    assert_eq!(parse_u32_decimal("65"), Some(65));
    assert_eq!(parse_u32_decimal("1114111"), Some(0x10FFFF));
    assert_eq!(parse_u32_decimal("4294967295"), Some(u32::MAX));
}

#[test]
fn decimal_parse_rejects_bad_keys() {
    assert_eq!(parse_u32_decimal(""), None);
    assert_eq!(parse_u32_decimal("+5"), None);
    assert_eq!(parse_u32_decimal("12a"), None);
    assert_eq!(parse_u32_decimal("-1"), None);
    assert_eq!(parse_u32_decimal("4294967296"), None);
}

#[test]
fn string_comparisons() {
    assert!(str_eq("Sans Arabic", "Sans Arabic"));
    assert!(!str_eq("Sans Arabic", "Sans Arabi"));
    assert!(starts_with_str("Serif Telugu", "Serif"));
    assert!(!starts_with_str("Serif Telugu", "Sans"));
    assert!(ends_with_str("Sans Arabic UI", " UI"));
    assert!(!ends_with_str("Sans Arabic", " UI"));
    assert!(contains_substr("Noto Sans CJK JP", "CJK"));
    assert!(!contains_substr("Noto Sans Adlam", "CJK"));
    assert!(contains_substr("abc", ""));
}

#[test]
fn word_splitting_drops_empty_pieces() {
    assert_eq!(split_words("Noto Sans CJK JP"), vec!["Noto", "Sans", "CJK", "JP"]);
    assert_eq!(split_words("  a  b "), vec!["a", "b"]);
    assert_eq!(split_words(""), Vec::<String>::new());
}

#[test]
fn ascii_lowering_and_stripping() {
    assert_eq!(ascii_lower("JP"), "jp");
    assert_eq!(ascii_lower("TradChinese7"), "tradchinese7");
    assert_eq!(strip_space_hyphen("Noto Sans Pau-Cin-Hau"), "NotoSansPauCinHau");
}
