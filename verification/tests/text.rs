use classlist_core::text::{
    is_whitespace, join_words, push_decimal, split_words, to_chars, to_decimal, trim,
};

#[test]
fn white_space_is_what_std_calls_white_space() {
    for code in 0u32..0x3100 {
        if let Some(c) = char::from_u32(code) {
            assert_eq!(is_whitespace(c), c.is_whitespace(), "U+{:04X}", code);
        }
    }
    assert!(!is_whitespace('\u{feff}'));
    assert!(!is_whitespace('\u{10ffff}'));
}

#[test]
fn trim_is_what_std_calls_trim() {
    let texts = ["", " ", "a", " a", "a ", " a b ", "\t\n a\u{a0}b \u{3000}", "\u{2003}x"];
    for text in texts {
        assert_eq!(trim(text), text.trim());
    }
}

#[test]
fn split_words_is_what_std_calls_split_whitespace() {
    let texts = ["", "   ", "one", " one  two\tthree\n", "a\u{a0}b", "x y"];
    for text in texts {
        let words: Vec<String> = text.split_whitespace().map(|w| w.to_string()).collect();
        assert_eq!(split_words(text), words);
    }
}

#[test]
fn join_words_puts_one_space_between() {
    assert_eq!(join_words(&vec![]), "");
    assert_eq!(join_words(&vec!["a".to_string()]), "a");
    assert_eq!(join_words(&vec!["a".to_string(), "b".to_string(), "c".to_string()]), "a b c");
}

#[test]
fn decimal_of_numbers() {
    assert_eq!(to_decimal(0), "0");
    assert_eq!(to_decimal(9), "9");
    assert_eq!(to_decimal(10), "10");
    assert_eq!(to_decimal(255), "255");
    assert_eq!(to_decimal(1234567890), "1234567890");
    assert_eq!(to_decimal(u64::MAX), "18446744073709551615");
    let mut text = String::from("n=");
    push_decimal(&mut text, 42);
    assert_eq!(text, "n=42");
}

#[test]
fn chars_of_a_text() {
    assert_eq!(to_chars("héllo"), vec!['h', 'é', 'l', 'l', 'o']);
    assert_eq!(to_chars(""), Vec::<char>::new());
}
