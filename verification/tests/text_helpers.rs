use winlog::text::{
    before_first, chars_of, contains_char, decimal_text, hex_text, signed_decimal_text,
    sorts_before, starts_with, text_eq, trim,
};

#[test]
fn chars_of_gives_each_character() {
    assert_eq!(chars_of("aé日"), vec!['a', 'é', '日']);
    assert_eq!(chars_of(""), Vec::<char>::new());
}

#[test]
fn text_eq_compares_characters() {
    assert!(text_eq("", ""));
    assert!(text_eq("abc", "abc"));
    assert!(!text_eq("abc", "abd"));
    assert!(!text_eq("abc", "ab"));
    assert!(!text_eq("ab", "abc"));
}

#[test]
fn starts_with_finds_a_prefix() {
    assert!(starts_with("Winlog/0.1.0 (Windows)", "Winlog/"));
    assert!(starts_with("Winlog", "Winlog"));
    assert!(starts_with("anything", ""));
    assert!(starts_with("", ""));
    assert!(!starts_with("Win", "Winlog"));
    assert!(!starts_with("winlog/0.1.0", "Winlog"));
    assert!(!starts_with(" Winlog", "Winlog"));
}

#[test]
fn contains_char_finds_a_character() {
    assert!(contains_char("2024-01-01T09:00:00Z", 'T'));
    assert!(contains_char("T", 'T'));
    assert!(!contains_char("2024-01-01 09:00:00", 'T'));
    assert!(!contains_char("t", 'T'));
    assert!(!contains_char("", 'T'));
}

#[test]
fn sorts_before_is_the_order_of_strings() {
    assert!(sorts_before("2024-01-01T09:00:00Z", "2024-01-01T17:00:00Z"));
    assert!(!sorts_before("2024-01-01T17:00:00Z", "2024-01-01T09:00:00Z"));
    assert!(!sorts_before("same", "same"));
    assert!(sorts_before("", "a"));
    assert!(!sorts_before("a", ""));
    assert!(!sorts_before("", ""));
    assert!(sorts_before("ab", "abc"));
    assert!(!sorts_before("abc", "ab"));
    assert!(sorts_before("Z", "a"));
    assert!(sorts_before("z", "é"));
    assert!(sorts_before("é", "日"));
}

#[test]
fn sorts_before_agrees_with_the_standard_order() {
    let samples = ["", "a", "ab", "b", "é", "日本", "2024-01-01T09:00:00Z", "2024-01-01T09:00:00+00:00"];
    for a in samples {
        for b in samples {
            assert_eq!(sorts_before(a, b), a < b, "{:?} {:?}", a, b);
        }
    }
}

#[test]
fn before_first_stops_at_the_separator() {
    assert_eq!(before_first("1.2.3.4, 5.6.7.8", ','), "1.2.3.4");
    assert_eq!(before_first("1.2.3.4", ','), "1.2.3.4");
    assert_eq!(before_first(",1.2.3.4", ','), "");
    assert_eq!(before_first("", ','), "");
    assert_eq!(before_first("a,b,c", ','), "a");
    assert_eq!(before_first("é日,x", ','), "é日");
}

#[test]
fn trim_drops_white_space_at_both_ends() {
    assert_eq!(trim("  1.2.3.4\t"), "1.2.3.4");
    assert_eq!(trim("1.2.3.4"), "1.2.3.4");
    assert_eq!(trim("a b"), "a b");
    assert_eq!(trim("   "), "");
    assert_eq!(trim(""), "");
    assert_eq!(trim("\u{a0}x\u{3000}"), "x");
    assert_eq!(trim("\n x y \r\n"), "x y");
}

#[test]
fn decimal_text_writes_numbers() {
    assert_eq!(decimal_text(0), "0");
    assert_eq!(decimal_text(7), "7");
    assert_eq!(decimal_text(10), "10");
    assert_eq!(decimal_text(3000), "3000");
    assert_eq!(decimal_text(65535), "65535");
    assert_eq!(decimal_text(u64::MAX), "18446744073709551615");
}

#[test]
fn signed_decimal_text_writes_the_sign() {
    assert_eq!(signed_decimal_text(0), "0");
    assert_eq!(signed_decimal_text(42), "42");
    assert_eq!(signed_decimal_text(-1), "-1");
    assert_eq!(signed_decimal_text(-2000), "-2000");
    assert_eq!(signed_decimal_text(i64::MAX), "9223372036854775807");
    assert_eq!(signed_decimal_text(i64::MIN), "-9223372036854775808");
}

#[test]
fn hex_text_writes_two_digits_for_each_byte() {
    assert_eq!(hex_text(&[]), "");
    assert_eq!(hex_text(&[0]), "00");
    assert_eq!(hex_text(&[0x0f, 0xf0, 0xab]), "0ff0ab");
    assert_eq!(hex_text(&[255, 16, 1]), "ff1001");
}
