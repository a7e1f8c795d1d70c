use cpm::text::{
    append_chars, append_str, chars_of, digit_char, digit_of, find_char, is_white_space, is_word,
    parse_digits, parse_u32, parse_u64, remove_char, render_decimal, same_chars,
    slice_of, split_at_each, split_words, starts_with_at, string_of, strings_of, to_lower,
    to_lower_char, trim,
};

fn chars(s: &str) -> Vec<char> {
    s.chars().collect()
}

fn text(v: &Vec<char>) -> String {
    v.iter().collect()
}

#[test]
fn strings_and_characters_convert_both_ways() {
    assert_eq!(chars_of("a\u{e9}\u{4eac}"), vec!['a', '\u{e9}', '\u{4eac}']);
    assert_eq!(string_of(&vec!['a', '\u{e9}', '\u{4eac}']), "a\u{e9}\u{4eac}");
    assert_eq!(string_of(&Vec::new()), "");
    assert_eq!(strings_of(&vec![chars("ab"), chars("")]), vec!["ab".to_string(), String::new()]);
}

#[test]
fn texts_are_compared_by_their_characters() {
    assert!(same_chars(&chars("abc"), &chars("abc")));
    assert!(!same_chars(&chars("abc"), &chars("abd")));
    assert!(!same_chars(&chars("abc"), &chars("ab")));
    assert!(same_chars(&chars(""), &chars("")));
    assert!(!same_chars(&chars("a"), &chars("A")));
}

#[test]
fn appending_and_slicing() {
    let mut v = chars("ab");
    append_chars(&mut v, &chars("cd"));
    append_str(&mut v, "ef");
    assert_eq!(text(&v), "abcdef");
    assert_eq!(text(&slice_of(&v, 1, 4)), "bcd");
    assert_eq!(text(&slice_of(&v, 2, 2)), "");
}

#[test]
fn white_space_is_what_the_standard_library_calls_so() {
    let mut n: u32 = 0;
    while n <= 0x10FFFF {
        if let Some(c) = char::from_u32(n) {
            assert_eq!(is_white_space(c), c.is_whitespace(), "U+{:04X}", n);
        }
        n += 1;
    }
}

#[test]
fn lower_case_folds_ascii_capitals_only() {
    assert_eq!(to_lower_char('A'), 'a');
    assert_eq!(to_lower_char('Z'), 'z');
    assert_eq!(to_lower_char('a'), 'a');
    assert_eq!(to_lower_char('@'), '@');
    assert_eq!(to_lower_char('['), '[');
    assert_eq!(to_lower_char('\u{c9}'), '\u{c9}');
    assert_eq!(text(&to_lower(&chars("PowerSave_9"))), "powersave_9");
    let mut n: u32 = 0;
    while n < 128 {
        let c = char::from_u32(n).unwrap();
        assert_eq!(to_lower_char(c), c.to_ascii_lowercase());
        n += 1;
    }
}

#[test]
fn words_are_matched_in_any_case() {
    assert!(is_word(&chars("ALL"), "all"));
    assert!(is_word(&chars("aLl"), "all"));
    assert!(!is_word(&chars("al"), "all"));
    assert!(!is_word(&chars("all "), "all"));
}

#[test]
fn trimming_matches_the_standard_library() {
    for s in ["", " ", "  a b \n", "\t\u{a0}x\u{3000}", "abc", "\n\n", " \u{200b} "] {
        assert_eq!(text(&trim(&chars(s))), s.trim(), "{:?}", s);
    }
}

#[test]
fn words_match_the_standard_library() {
    for s in ["", " ", "performance powersave\n", "  a  b\tc\u{2003}d ", "one", "\u{85}x\u{85}"] {
        let expected: Vec<String> = s.split_whitespace().map(|w| w.to_string()).collect();
        let got: Vec<String> = split_words(&chars(s)).iter().map(text).collect();
        assert_eq!(got, expected, "{:?}", s);
    }
}

#[test]
fn pieces_match_the_standard_library() {
    for s in ["", ",", "a,b", "a,,b", ",a,", "abc", "0,2,5"] {
        let expected: Vec<String> = s.split(',').map(|w| w.to_string()).collect();
        let got: Vec<String> = split_at_each(&chars(s), ',').iter().map(text).collect();
        assert_eq!(got, expected, "{:?}", s);
    }
}

#[test]
fn removing_and_finding_characters() {
    assert_eq!(text(&remove_char(&chars("2,500,000"), ',')), "2500000");
    assert_eq!(text(&remove_char(&chars(",,"), ',')), "");
    assert_eq!(find_char(&chars("a:b:c"), ':'), Some(1));
    assert_eq!(find_char(&chars("abc"), ':'), None);
    assert_eq!(find_char(&chars(""), ':'), None);
    assert!(starts_with_at(&chars("policy12"), 0, &chars("policy")));
    assert!(starts_with_at(&chars("xpolicy"), 1, &chars("policy")));
    assert!(!starts_with_at(&chars("polic"), 0, &chars("policy")));
    assert!(!starts_with_at(&chars("Policy1"), 0, &chars("policy")));
    assert!(starts_with_at(&chars("abc"), 3, &chars("")));
}

#[test]
fn digits_and_their_values() {
    assert_eq!(digit_of('0'), Some(0));
    assert_eq!(digit_of('9'), Some(9));
    assert_eq!(digit_of('a'), None);
    assert_eq!(digit_of('\u{661}'), None);
    assert_eq!(digit_char(0), '0');
    assert_eq!(digit_char(9), '9');
}

#[test]
fn unsigned_numbers_match_the_standard_library() {
    for s in [
        "", "0", "7", "+7", "007", "-7", "+", "++7", "7+", " 7", "7 ", "1_000", "4294967295",
        "4294967296", "18446744073709551615", "18446744073709551616", "99999999999999999999999",
        "12a", "\u{661}",
    ] {
        assert_eq!(parse_u64(&chars(s)), s.parse::<u64>().ok(), "{:?}", s);
        assert_eq!(parse_u32(&chars(s)), s.parse::<u32>().ok(), "{:?}", s);
    }
}

#[test]
fn digit_ranges_are_read_in_place() {
    let v = chars("ab123cd");
    assert_eq!(parse_digits(&v, 2, 5), Some(123));
    assert_eq!(parse_digits(&v, 2, 2), Some(0));
    assert_eq!(parse_digits(&v, 1, 5), None);
}

#[test]
fn numbers_are_written_as_the_standard_library_writes_them() {
    for n in [0u128, 1, 9, 10, 11, 99, 100, 1_000_000, u64::MAX as u128, u128::MAX] {
        assert_eq!(text(&render_decimal(n)), n.to_string());
    }
}

#[test]
fn written_numbers_read_back() {
    for n in [0u64, 5, 10, 1234567890, u64::MAX] {
        assert_eq!(parse_u64(&render_decimal(n as u128)), Some(n));
        assert_eq!(parse_u64(&trim(&render_decimal(n as u128))), Some(n));
    }
}
