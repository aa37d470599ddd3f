use onboarding::text::{
    chars_of, contains_char, contains_text, digit_of, parse_unsigned, push_decimal, same_text,
    split_on, string_of, strip_char,
};

fn pieces(s: &str) -> Vec<String> {
    let cut = split_on(&chars_of(s), ' ');
    let mut out = Vec::new();
    for piece in &cut {
        out.push(string_of(piece));
    }
    out
}

#[test]
fn chars_and_strings_convert_both_ways() {
    assert_eq!(chars_of("a\u{1F393}b"), vec!['a', '\u{1F393}', 'b']);
    assert_eq!(chars_of(""), Vec::<char>::new());
    assert_eq!(string_of(&vec!['L', '2']), "L2");
    assert_eq!(string_of(&chars_of("Mudd Admin")), "Mudd Admin");
}

#[test]
fn digits_have_their_values() {
    assert_eq!(digit_of('0'), Some(0));
    assert_eq!(digit_of('7'), Some(7));
    assert_eq!(digit_of('9'), Some(9));
    assert_eq!(digit_of('/'), None);
    assert_eq!(digit_of(':'), None);
    assert_eq!(digit_of('a'), None);
    assert_eq!(digit_of('\u{0663}'), None);
}

#[test]
fn unsigned_numbers_are_read_in_decimal() {
    assert_eq!(parse_unsigned(&chars_of("0")), Some(0));
    assert_eq!(parse_unsigned(&chars_of("2019")), Some(2019));
    assert_eq!(parse_unsigned(&chars_of("+7")), Some(7));
    assert_eq!(parse_unsigned(&chars_of("007")), Some(7));
    assert_eq!(parse_unsigned(&chars_of("18446744073709551615")), Some(u64::MAX));
}

#[test]
fn unsigned_numbers_reject_what_is_no_number() {
    assert_eq!(parse_unsigned(&chars_of("")), None);
    assert_eq!(parse_unsigned(&chars_of("+")), None);
    assert_eq!(parse_unsigned(&chars_of("-1")), None);
    assert_eq!(parse_unsigned(&chars_of("++1")), None);
    assert_eq!(parse_unsigned(&chars_of("1+")), None);
    assert_eq!(parse_unsigned(&chars_of("12 ")), None);
    assert_eq!(parse_unsigned(&chars_of("1a")), None);
    assert_eq!(parse_unsigned(&chars_of("18446744073709551616")), None);
    assert_eq!(parse_unsigned(&chars_of("184467440737095516150")), None);
}

#[test]
fn unsigned_numbers_agree_with_the_standard_parser() {
    let tokens = [
        "", "0", "1", "+1", "-1", "+", "-", "00", "9", "10", "4294967296", "1_000", " 1", "1 ",
        "18446744073709551615", "18446744073709551616", "018446744073709551615", "+-1", "0x10",
    ];
    for token in tokens {
        assert_eq!(parse_unsigned(&chars_of(token)), token.parse::<u64>().ok());
    }
}

#[test]
fn split_cuts_at_every_space() {
    assert_eq!(pieces("2015 L1"), vec!["2015", "L1"]);
    assert_eq!(pieces("2015"), vec!["2015"]);
    assert_eq!(pieces(""), vec![""]);
    assert_eq!(pieces(" "), vec!["", ""]);
    assert_eq!(pieces("a  b"), vec!["a", "", "b"]);
    assert_eq!(pieces(" a"), vec!["", "a"]);
    assert_eq!(pieces("a "), vec!["a", ""]);
    assert_eq!(pieces("a\tb\nc"), vec!["a\tb\nc"]);
}

#[test]
fn split_agrees_with_the_standard_split() {
    let texts = ["", " ", "  ", "x", "x y", " x y ", "2015 L1", "a  b   c", "\u{1F3EB} \u{1F393}"];
    for text in texts {
        let expected: Vec<String> = text.split(' ').map(String::from).collect();
        assert_eq!(pieces(text), expected);
    }
}

#[test]
fn characters_are_found_and_stripped() {
    assert!(contains_char(&chars_of("l2"), 'l'));
    assert!(!contains_char(&chars_of("L2"), 'l'));
    assert!(!contains_char(&chars_of(""), 'l'));
    assert_eq!(strip_char(&chars_of("l2"), 'l'), vec!['2']);
    assert_eq!(strip_char(&chars_of("hello world"), 'l'), chars_of("heo word"));
    assert_eq!(strip_char(&chars_of("lll"), 'l'), Vec::<char>::new());
    assert_eq!(strip_char(&chars_of("abc"), 'l'), chars_of("abc"));
}

#[test]
fn substrings_are_found() {
    assert!(contains_text(&chars_of("none"), &chars_of("none")));
    assert!(contains_text(&chars_of("xxnonexx"), &chars_of("none")));
    assert!(contains_text(&chars_of("nonone"), &chars_of("none")));
    assert!(contains_text(&chars_of("abc"), &chars_of("")));
    assert!(contains_text(&chars_of(""), &chars_of("")));
    assert!(!contains_text(&chars_of("non"), &chars_of("none")));
    assert!(!contains_text(&chars_of("no ne"), &chars_of("none")));
    assert!(!contains_text(&chars_of(""), &chars_of("none")));
}

#[test]
fn same_text_is_exact() {
    assert!(same_text("Alumni", "Alumni"));
    assert!(!same_text("Alumni", "alumni"));
    assert!(!same_text("Alumni", "Alumni "));
    assert!(same_text("", ""));
}

#[test]
fn decimal_notation_is_appended() {
    let mut s = String::from("n=");
    push_decimal(&mut s, 0);
    assert_eq!(s, "n=0");
    push_decimal(&mut s, 7);
    assert_eq!(s, "n=07");
    push_decimal(&mut s, 1900);
    assert_eq!(s, "n=071900");
    let mut t = String::new();
    push_decimal(&mut t, u64::MAX);
    assert_eq!(t, "18446744073709551615");
}

#[test]
fn decimal_notation_reads_back() {
    for n in [0u64, 1, 9, 10, 99, 100, 1901, 9998, 4294967296, u64::MAX] {
        let mut s = String::new();
        push_decimal(&mut s, n);
        assert_eq!(s, format!("{}", n));
        assert_eq!(parse_unsigned(&chars_of(&s)), Some(n));
    }
}
