use spotify_info::address::{default_address, local_address, DEFAULT_PORT};
use spotify_info::decimal::{parse_number, parse_or_zero, push_decimal};
use spotify_info::fields::{split, unescape_field, DELIMITER, ESCAPE_TOKEN};
use spotify_info::text::{to_chars, to_text};

fn chars(text: &str) -> Vec<char> {
    text.chars().collect()
}

fn fields_of(text: &str) -> Vec<String> {
    let chars = chars(text);
    split(&chars).into_iter().map(|(from, to)| to_text(&chars, from, to)).collect()
}

fn unescaped(text: &str) -> String {
    let chars = chars(text);
    unescape_field(&chars, 0, chars.len())
}

fn number(text: &str, max: u64) -> Option<u64> {
    let chars = chars(text);
    parse_number(&chars, 0, chars.len(), max)
}

#[test]
fn characters_of_a_text() {
    assert_eq!(to_chars(""), Vec::<char>::new());
    assert_eq!(to_chars("a;b"), vec!['a', ';', 'b']);
    assert_eq!(to_chars("\u{e9}\u{1f3b5}"), vec!['\u{e9}', '\u{1f3b5}']);
}

#[test]
fn text_of_some_characters() {
    let chars = chars("hello world");
    assert_eq!(to_text(&chars, 0, 5), "hello");
    assert_eq!(to_text(&chars, 6, 11), "world");
    assert_eq!(to_text(&chars, 3, 3), "");
    assert_eq!(to_text(&chars, 0, 11), "hello world");
}

#[test]
fn split_gives_one_field_more_than_delimiters() {
    assert_eq!(fields_of(""), vec![""]);
    assert_eq!(fields_of("a"), vec!["a"]);
    assert_eq!(fields_of(";"), vec!["", ""]);
    assert_eq!(fields_of("a;b"), vec!["a", "b"]);
    assert_eq!(fields_of("a;;b;"), vec!["a", "", "b", ""]);
    assert_eq!(fields_of(";;;"), vec!["", "", "", ""]);
}

#[test]
fn split_marks_where_fields_stand() {
    let chars = chars("ab;c;;def");
    assert_eq!(split(&chars), vec![(0, 2), (3, 4), (5, 5), (6, 9)]);
}

#[test]
fn joined_fields_give_the_text_back() {
    for text in ["", ";", "a;b;c", ";;x;;", "no delimiter", "\u{e9};\u{1f3b5}"] {
        let fields = fields_of(text);
        assert_eq!(fields.join(";"), text);
        assert!(fields.iter().all(|f| !f.contains(DELIMITER)));
        assert_eq!(fields.len(), text.matches(DELIMITER).count() + 1);
    }
}

#[test]
fn escape_token_becomes_delimiter() {
    assert_eq!(ESCAPE_TOKEN, "$SEMICOLON");
    assert_eq!(unescaped("$SEMICOLON"), ";");
    assert_eq!(unescaped("a$SEMICOLONb"), "a;b");
    assert_eq!(unescaped("$SEMICOLON$SEMICOLON"), ";;");
    assert_eq!(unescaped("x$SEMICOLONy$SEMICOLONz"), "x;y;z");
}

#[test]
fn what_is_no_whole_token_stays() {
    assert_eq!(unescaped(""), "");
    assert_eq!(unescaped("plain"), "plain");
    assert_eq!(unescaped("$SEMICOLO"), "$SEMICOLO");
    assert_eq!(unescaped("$semicolon"), "$semicolon");
    assert_eq!(unescaped("$$SEMICOLON"), "$;");
    assert_eq!(unescaped("$SEMI$SEMICOLON"), "$SEMI;");
    assert_eq!(unescaped("$SEMICOLO$SEMICOLONN"), "$SEMICOLO;N");
    assert_eq!(unescaped("SEMICOLON$"), "SEMICOLON$");
}

#[test]
fn unescape_works_on_a_stretch() {
    let chars = chars("ab$SEMICOLONcd");
    assert_eq!(unescape_field(&chars, 2, 12), ";");
    assert_eq!(unescape_field(&chars, 2, 11), "$SEMICOLO");
    assert_eq!(unescape_field(&chars, 1, 13), "b;c");
    assert_eq!(unescape_field(&chars, 3, 14), "SEMICOLONcd");
}

#[test]
fn numbers_are_digits_with_an_optional_plus() {
    assert_eq!(number("0", u64::MAX), Some(0));
    assert_eq!(number("7", u64::MAX), Some(7));
    assert_eq!(number("180000", u64::MAX), Some(180000));
    assert_eq!(number("+15", u64::MAX), Some(15));
    assert_eq!(number("007", u64::MAX), Some(7));
    assert_eq!(number("", u64::MAX), None);
    assert_eq!(number("+", u64::MAX), None);
    assert_eq!(number("-1", u64::MAX), None);
    assert_eq!(number("1+", u64::MAX), None);
    assert_eq!(number("12a", u64::MAX), None);
    assert_eq!(number("1 ", u64::MAX), None);
    assert_eq!(number("\u{663}", u64::MAX), None);
}

#[test]
fn numbers_above_the_limit_are_none() {
    assert_eq!(number("4294967295", 4294967295), Some(4294967295));
    assert_eq!(number("4294967296", 4294967295), None);
    assert_eq!(number("18446744073709551615", u64::MAX), Some(u64::MAX));
    assert_eq!(number("18446744073709551616", u64::MAX), None);
    assert_eq!(number("18446744073709551620", u64::MAX), None);
    assert_eq!(number("9", 9), Some(9));
    assert_eq!(number("10", 9), None);
    assert_eq!(number("0", 0), Some(0));
    assert_eq!(number("000", 0), Some(0));
    assert_eq!(number("1", 0), None);
    assert_eq!(number("5", 3), None);
    assert_eq!(number("3", 3), Some(3));
    assert_eq!(number("99999999999999999999x", u64::MAX), None);
}

#[test]
fn lenient_numbers_default_to_zero() {
    let chars = chars("12;x;+3");
    assert_eq!(parse_or_zero(&chars, 0, 2, u64::MAX), 12);
    assert_eq!(parse_or_zero(&chars, 3, 4, u64::MAX), 0);
    assert_eq!(parse_or_zero(&chars, 5, 7, u64::MAX), 3);
    assert_eq!(parse_or_zero(&chars, 0, 4, u64::MAX), 0);
    assert_eq!(parse_or_zero(&chars, 0, 2, 11), 0);
}

#[test]
fn decimal_writing_has_no_leading_zeros() {
    for (n, text) in [(0u64, "0"), (9, "9"), (10, "10"), (19532, "19532"), (1000000, "1000000"), (u64::MAX, "18446744073709551615")] {
        let mut out = String::from(">");
        push_decimal(&mut out, n);
        assert_eq!(out, format!(">{text}"));
    }
}

#[test]
fn written_numbers_read_back() {
    for n in [0u64, 1, 9, 10, 99, 100, 12345, u32::MAX as u64, u64::MAX - 1, u64::MAX] {
        let mut out = String::new();
        push_decimal(&mut out, n);
        assert_eq!(number(&out, u64::MAX), Some(n));
    }
}

#[test]
fn loopback_address_with_port() {
    assert_eq!(DEFAULT_PORT, 19532);
    assert_eq!(default_address(), "127.0.0.1:19532");
    assert_eq!(local_address(0), "127.0.0.1:0");
    assert_eq!(local_address(8080), "127.0.0.1:8080");
    assert_eq!(local_address(u16::MAX), "127.0.0.1:65535");
}

#[test]
fn escaped_text_comes_back() {
    for text in ["", ";", "a;b", ";;", "One; Two; Three", "$", "$SEMI;COLON", "50$; 60$", "\u{e9};\u{1f3b5}"] {
        let field = text.replace(DELIMITER, ESCAPE_TOKEN);
        assert!(!field.contains(DELIMITER));
        assert_eq!(unescaped(&field), text);
    }
}

#[test]
fn text_that_holds_the_token_does_not_come_back() {
    let text = "a$SEMICOLONb";
    let field = text.replace(DELIMITER, ESCAPE_TOKEN);
    assert_eq!(field, text);
    assert_eq!(unescaped(&field), "a;b");
}

#[test]
fn split_undoes_join() {
    let cases: Vec<Vec<&str>> = vec![
        vec![""],
        vec!["a"],
        vec!["", ""],
        vec!["TRACK_CHANGED", "id", "", "2"],
        vec!["", "x", "", ""],
    ];
    for fields in cases {
        assert_eq!(fields_of(&fields.join(";")), fields);
    }
}
