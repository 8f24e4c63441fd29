use just_etf::decimal::{parse_digits, run_start, to_numeral};
use just_etf::number::reads_as_float;
use just_etf::text::{
    chars_of, commas_to_points, eq_ignore_ascii_case, find_from, holds, join, trim,
    trim_end_matches, white_space,
};

#[test]
fn white_space_is_that_of_unicode() {
    for code in 0..=0x10ffffu32 {
        if let Some(c) = char::from_u32(code) {
            assert_eq!(white_space(c), c.is_whitespace());
        }
    }
}

#[test]
fn trimming() {
    for text in ["", " ", "a", " a b ", "\u{a0}\n\ta\u{3000}", "\u{200b}a", "  \u{e9} \u{e9}"] {
        assert_eq!(trim(text), text.trim());
    }
    assert_eq!(trim_end_matches("12%", '%'), "12");
    assert_eq!(trim_end_matches("%12%%", '%'), "%12");
    assert_eq!(trim_end_matches("%%", '%'), "");
    assert_eq!(trim_end_matches("12 % ", '%'), "12 % ");
}

#[test]
fn commas_become_points() {
    assert_eq!(commas_to_points("1,5"), "1.5");
    assert_eq!(commas_to_points("1.234,5"), "1.234.5");
    assert_eq!(commas_to_points(",\u{e9},"), ".\u{e9}.");
    assert_eq!(commas_to_points(""), "");
}

#[test]
fn joining() {
    let parts = |texts: &[&str]| texts.iter().map(|text| String::from(*text)).collect::<Vec<_>>();
    assert_eq!(join(&parts(&[]), " "), "");
    assert_eq!(join(&parts(&["a"]), " "), "a");
    assert_eq!(join(&parts(&["a", "", "b"]), " "), "a  b");
    assert_eq!(join(&parts(&["a", "b", "c"]), ""), "abc");
}

#[test]
fn searching() {
    let text = chars_of("ab\u{e9}abab");
    let pattern = chars_of("ab");
    assert_eq!(find_from(&text, &pattern, 0), Some(0));
    assert_eq!(find_from(&text, &pattern, 1), Some(2));
    assert_eq!(find_from(&text, &pattern, 6), None);
    assert_eq!(find_from(&text, &pattern, 7), None);
    assert_eq!(find_from(&text, &chars_of(""), 7), Some(0));
    assert!(holds("distributing", "tribu"));
    assert!(!holds("distributing", "accumulating"));
    assert!(!holds("", "a"));
}

#[test]
fn ascii_case() {
    assert!(eq_ignore_ascii_case("OTHER", "Other"));
    assert!(eq_ignore_ascii_case("other", "Other"));
    assert!(!eq_ignore_ascii_case("Others", "Other"));
    assert!(!eq_ignore_ascii_case("\u{c9}", "\u{e9}"));
    assert!(!eq_ignore_ascii_case("[", "{"));
}

#[test]
fn numerals_read_back() {
    for number in [0, 7, 10, 99, 100, 1234567890, u64::MAX] {
        let numeral = to_numeral(number);
        assert_eq!(numeral, number.to_string());
        let chars = chars_of(&numeral);
        assert_eq!(run_start(&chars, chars.len()), 0);
        assert_eq!(parse_digits(&chars, 0, chars.len()), Some(number));
    }
    let chars = chars_of("18446744073709551616");
    assert_eq!(parse_digits(&chars, 0, chars.len()), None);
    assert_eq!(parse_digits(&chars, 3, 3), None);
    let chars = chars_of("x0042y");
    assert_eq!(run_start(&chars, 5), 1);
    assert_eq!(parse_digits(&chars, 1, 5), Some(42));
}

#[test]
fn float_texts_are_those_that_parse() {
    let alphabet = ['1', '0', '.', 'e', '+', '-', 'n'];
    let mut texts = vec![String::new()];
    let mut checked = 0;
    for _ in 0..6 {
        let mut longer = Vec::new();
        for text in &texts {
            for c in alphabet {
                let mut next = text.clone();
                next.push(c);
                assert_eq!(reads_as_float(&next), next.parse::<f64>().is_ok(), "{:?}", next);
                checked += 1;
                longer.push(next);
            }
        }
        texts = longer;
    }
    assert!(checked > 100000);
}

#[test]
fn float_texts_with_words_and_spaces() {
    let words = [
        "", "inf", "INF", "+Infinity", "-infinity", "nan", "NaN", "-nan", "infinit", "nano", "1E5",
        "1e", "1e+", "1E-05", "e5", ".e5", "1.e5", " 1", "1 ", "1_000", "0x10", "1.2.3", "12.5",
        "--1", "+-1", "\u{661}", "1e999", "\u{130}nf", ".5", "5.", "+.5", "-5.", ".",
    ];
    for word in words {
        assert_eq!(reads_as_float(word), word.parse::<f64>().is_ok(), "{:?}", word);
    }
    assert!(reads_as_float("12.5"));
    assert!(!reads_as_float("12.5 "));
}
