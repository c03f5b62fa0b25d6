use hack_toolchain::text::find_char;
use hack_toolchain::text::parse_u16;
use hack_toolchain::text::parse_u32;
use hack_toolchain::text::remove_spaces_str;
use hack_toolchain::text::split_line_words;
use hack_toolchain::text::str_eq;
use hack_toolchain::text::strip_comment_str;
use hack_toolchain::text::to_decimal;

#[test]
fn decimal_rendering_round_trips() {
    assert_eq!(to_decimal(0), "0");
    assert_eq!(to_decimal(7), "7");
    assert_eq!(to_decimal(10), "10");
    assert_eq!(to_decimal(1234), "1234");
    assert_eq!(to_decimal(65535), "65535");
}

#[test]
fn sixteen_bit_parsing_accepts_digits_in_range() {
    assert_eq!(parse_u16("0"), Some(0));
    assert_eq!(parse_u16("123"), Some(123));
    assert_eq!(parse_u16("0123"), Some(123));
    assert_eq!(parse_u16("65535"), Some(65535));
}

#[test]
fn sixteen_bit_parsing_rejects_empty_nondigit_and_oversized() {
    assert_eq!(parse_u16(""), None);
    assert_eq!(parse_u16("12a"), None);
    assert_eq!(parse_u16("-1"), None);
    assert_eq!(parse_u16("65536"), None);
    assert_eq!(parse_u16("99999999999"), None);
}

#[test]
fn thirty_two_bit_parsing_has_the_wider_bound() {
    assert_eq!(parse_u32("65536"), Some(65536));
    assert_eq!(parse_u32("4294967295"), Some(4294967295));
    assert_eq!(parse_u32("4294967296"), None);
    assert_eq!(parse_u32("x"), None);
}

#[test]
fn character_search_finds_the_first_occurrence() {
    assert_eq!(find_char("a=b=c", '='), Some(1));
    assert_eq!(find_char("abc", '='), None);
    assert_eq!(find_char("", 'x'), None);
}

#[test]
fn string_equality_is_by_characters() {
    assert!(str_eq("abc", "abc"));
    assert!(!str_eq("abc", "abd"));
    assert!(!str_eq("abc", "ab"));
    assert!(str_eq("", ""));
}

#[test]
fn comment_stripping_cuts_at_the_first_double_slash() {
    assert_eq!(strip_comment_str("D=M // read"), "D=M ");
    assert_eq!(strip_comment_str("no comment"), "no comment");
    assert_eq!(strip_comment_str("//all"), "");
    assert_eq!(strip_comment_str("a/b"), "a/b");
}

#[test]
fn removing_whitespace_keeps_the_rest_in_order() {
    assert_eq!(remove_spaces_str("D = M + 1"), "D=M+1");
    assert_eq!(remove_spaces_str("\t a\tb \r"), "ab");
    assert_eq!(remove_spaces_str("   "), "");
    assert_eq!(remove_spaces_str(""), "");
}

#[test]
fn word_splitting_drops_all_whitespace() {
    let words = split_line_words("  push   constant\t7  ");
    assert_eq!(words, vec!["push".to_string(), "constant".to_string(), "7".to_string()]);
    assert!(split_line_words("   ").is_empty());
    assert!(split_line_words("").is_empty());
}
