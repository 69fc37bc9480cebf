use quizpal::command::{
    parse_four_delimited_strings, parse_two_delimited_strings, read_u64, NumberError, ParseError,
};
use quizpal::text::{answers_match, escape_md_v2, normalize_answer, trim};

#[test]
fn escape_marks_every_special_character() {
    assert_eq!(escape_md_v2("a_b*c"), "a\\_b\\*c");
    assert_eq!(escape_md_v2("1.5! (x) [y] {z}"), "1\\.5\\! \\(x\\) \\[y\\] \\{z\\}");
    assert_eq!(escape_md_v2("~`>#+-=|\\"), "\\~\\`\\>\\#\\+\\-\\=\\|\\\\");
    assert_eq!(escape_md_v2("plain text"), "plain text");
    assert_eq!(escape_md_v2(""), "");
}

#[test]
fn answers_compare_trimmed_and_case_insensitive() {
    assert!(answers_match("  Paris\n", "paris"));
    assert!(answers_match("ÉCOLE", "école"));
    assert!(!answers_match("Pari", "Paris"));
    assert!(!answers_match("New  York", "New York"));
    assert_eq!(normalize_answer("\t MiXeD Case "), "mixed case");
    assert_eq!(trim("\u{2003} a b \n"), "a b");
    assert_eq!(trim("   "), "");
}

#[test]
fn four_fields_parse() {
    let (q, a, t, d) =
        parse_four_delimited_strings(" What? | This | topic | 7 ".to_string()).unwrap();
    assert_eq!((q.as_str(), a.as_str(), t.as_str(), d), ("What?", "This", "topic", 7));
    let (_, _, _, d) = parse_four_delimited_strings("a|b|c|+12".to_string()).unwrap();
    assert_eq!(d, 12);
}

#[test]
fn four_fields_wrong_count() {
    match parse_four_delimited_strings("a | b | c".to_string()) {
        Err(ParseError::TooFewArguments { expected, found, .. }) => {
            assert_eq!(expected, 4);
            assert_eq!(found, 3);
        }
        _ => panic!("expected a count error"),
    }
    match parse_four_delimited_strings("".to_string()) {
        Err(ParseError::TooFewArguments { found, .. }) => assert_eq!(found, 1),
        _ => panic!("expected a count error"),
    }
}

#[test]
fn four_fields_bad_number() {
    assert!(matches!(
        parse_four_delimited_strings("a|b|c|seven".to_string()),
        Err(ParseError::IncorrectFormat(NumberError::InvalidDigit))
    ));
    assert!(matches!(
        parse_four_delimited_strings("a|b|c| ".to_string()),
        Err(ParseError::IncorrectFormat(NumberError::Empty))
    ));
    assert!(matches!(
        parse_four_delimited_strings("a|b|c|18446744073709551616".to_string()),
        Err(ParseError::IncorrectFormat(NumberError::PosOverflow))
    ));
}

#[test]
fn read_u64_edges() {
    assert_eq!(read_u64("18446744073709551615"), Ok(u64::MAX));
    assert_eq!(read_u64("0"), Ok(0));
    assert_eq!(read_u64("+"), Err(NumberError::InvalidDigit));
    assert_eq!(read_u64("-1"), Err(NumberError::InvalidDigit));
    assert_eq!(read_u64(""), Err(NumberError::Empty));
}

#[test]
fn two_fields_parse() {
    let (a, b) = parse_two_delimited_strings("French |  good morning ".to_string()).unwrap();
    assert_eq!(a, "French");
    assert_eq!(b, "good morning");
    match parse_two_delimited_strings("a|b|c".to_string()) {
        Err(ParseError::TooFewArguments { expected, found, .. }) => {
            assert_eq!((expected, found), (2, 3));
        }
        _ => panic!("expected a count error"),
    }
}

#[test]
fn trim_knows_unicode_white_space() {
    assert_eq!(trim("\u{85}\u{a0}\u{1680}x\u{202f}\u{205f}\u{3000}\u{2028}"), "x");
    assert_eq!(trim("\u{200b}x"), "\u{200b}x");
    assert_eq!(trim("\t\r\n\u{b}\u{c} y"), "y");
}
