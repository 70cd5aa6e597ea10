use vocab_core::text::{
    breaks_term, chars_of, decimal_text, is_empty_text, is_whitespace, join_terms,
    normalize_terms, split_terms, text_of, trim,
};

fn normal(s: &str) -> Option<String> {
    normalize_terms(Some(s.to_string()))
}

#[test]
fn normalize_terms_keeps_absent_list_absent() {
    assert_eq!(normalize_terms(None), None);
}

#[test]
fn normalize_terms_turns_commas_into_single_spaces() {
    assert_eq!(normal("客户,用户，买家"), Some("客户 用户 买家".to_string()));
    assert_eq!(normal("a, b ,c"), Some("a b c".to_string()));
}

#[test]
fn normalize_terms_collapses_whitespace_and_trims() {
    assert_eq!(normal("  id \t\n identifier   key  "), Some("id identifier key".to_string()));
    assert_eq!(normal("one\u{3000}two"), Some("one two".to_string()));
}

#[test]
fn normalize_terms_of_separators_only_is_empty() {
    assert_eq!(normal(""), Some(String::new()));
    assert_eq!(normal(" , ，  ,"), Some(String::new()));
}

#[test]
fn normalize_terms_is_idempotent_on_examples() {
    for s in ["a,b  c", "  x ", "客户，用户 , 买家", "", "single"] {
        let once = normal(s);
        let twice = normalize_terms(once.clone());
        assert_eq!(once, twice);
    }
}

#[test]
fn normalize_terms_agrees_with_the_standard_library() {
    for s in ["a,,b", " ,a", "a\u{a0}b\u{2003}c，d", "x\r\ny\u{85}z", "\u{1680}q\u{202f}r\u{205f}"] {
        let expected =
            s.replace(',', " ").replace('，', " ").split_whitespace().collect::<Vec<_>>().join(" ");
        assert_eq!(normal(s), Some(expected));
    }
}

#[test]
fn is_whitespace_agrees_with_the_standard_library_on_every_char() {
    let mut n: u32 = 0;
    while n <= 0x10FFFF {
        if let Some(c) = char::from_u32(n) {
            assert_eq!(is_whitespace(c), c.is_whitespace(), "U+{:04X}", n);
        }
        n += 1;
    }
}

#[test]
fn breaks_term_is_whitespace_or_a_comma() {
    assert!(breaks_term(' '));
    assert!(breaks_term(','));
    assert!(breaks_term('，'));
    assert!(breaks_term('\t'));
    assert!(!breaks_term('、'));
    assert!(!breaks_term('a'));
    assert!(!breaks_term('根'));
}

#[test]
fn trim_removes_whitespace_at_both_ends_only() {
    assert_eq!(trim("  客户 编号\t\n"), "客户 编号");
    assert_eq!(trim("x"), "x");
    assert_eq!(trim(""), "");
    assert_eq!(trim(" \u{3000}\u{a0} "), "");
}

#[test]
fn trim_agrees_with_the_standard_library() {
    for s in ["", " ", "a", " a", "a ", "\u{2028}a b\u{2029}", "\u{feff}a", "　全角　"] {
        assert_eq!(trim(s), s.trim());
    }
}

#[test]
fn split_and_join_terms() {
    assert_eq!(split_terms(" a,b ,, c"), vec!["a".to_string(), "b".to_string(), "c".to_string()]);
    assert_eq!(split_terms(""), Vec::<String>::new());
    assert_eq!(join_terms(&vec!["a".to_string(), "b".to_string()]), "a b");
    assert_eq!(join_terms(&vec!["a".to_string()]), "a");
    assert_eq!(join_terms(&Vec::new()), "");
}

#[test]
fn chars_and_text_convert_back_and_forth() {
    let chars = chars_of("标准abc");
    assert_eq!(chars, vec!['标', '准', 'a', 'b', 'c']);
    assert_eq!(text_of(&chars, 0, 5), "标准abc");
    assert_eq!(text_of(&chars, 1, 3), "准a");
    assert_eq!(text_of(&chars, 2, 2), "");
}

#[test]
fn decimal_text_writes_numbers_as_the_standard_library_does() {
    for n in [0u64, 1, 9, 10, 11, 99, 100, 12345, 4294967296, u64::MAX] {
        assert_eq!(decimal_text(n), n.to_string());
    }
}

#[test]
fn is_empty_text_counts_characters() {
    assert!(is_empty_text(""));
    assert!(!is_empty_text(" "));
    assert!(!is_empty_text("根"));
}
