use vocab_core::matching::{
    char_precedes, contains_chars, contains_ignoring_case, contains_lowercase, occurs,
    text_precedes,
};

fn chars(s: &str) -> Vec<char> {
    s.chars().collect()
}

#[test]
fn occurs_tests_one_position() {
    assert!(occurs(&chars("abcabc"), &chars("bc"), 1));
    assert!(occurs(&chars("abcabc"), &chars("bc"), 4));
    assert!(!occurs(&chars("abcabc"), &chars("bc"), 0));
    assert!(occurs(&chars("abc"), &chars(""), 3));
}

#[test]
fn contains_chars_finds_a_substring_anywhere() {
    assert!(contains_chars(&chars("客户 用户 买家"), &chars("用户")));
    assert!(contains_chars(&chars("abc"), &chars("abc")));
    assert!(contains_chars(&chars("abc"), &chars("c")));
    assert!(contains_chars(&chars("abc"), &chars("")));
    assert!(contains_chars(&chars(""), &chars("")));
    assert!(!contains_chars(&chars("abc"), &chars("abcd")));
    assert!(!contains_chars(&chars("abc"), &chars("ac")));
    assert!(!contains_chars(&chars(""), &chars("a")));
}

#[test]
fn contains_chars_agrees_with_the_standard_library() {
    let hays = ["", "a", "aaab", "abababc", "客户编号", "xyzxyz"];
    let needles = ["", "a", "ab", "abc", "aab", "编号", "zx", "q"];
    for hay in hays {
        for needle in needles {
            assert_eq!(contains_chars(&chars(hay), &chars(needle)), hay.contains(needle));
        }
    }
}

#[test]
fn contains_ignoring_case_folds_both_sides() {
    assert!(contains_ignoring_case("Customer ID", "id"));
    assert!(contains_ignoring_case("customer id", "ID"));
    assert!(contains_ignoring_case("ＡＢＣ", "ａｂｃ"));
    assert!(contains_ignoring_case("Straße", "STRA"));
    assert!(!contains_ignoring_case("customer", "id"));
}

#[test]
fn contains_lowercase_folds_the_hay_only() {
    assert!(contains_lowercase("Customer ID", &chars("id")));
    assert!(!contains_lowercase("Customer ID", &chars("ID")));
}

#[test]
fn text_precedes_is_the_order_of_code_points() {
    assert!(text_precedes("", "a"));
    assert!(!text_precedes("a", ""));
    assert!(!text_precedes("", ""));
    assert!(text_precedes("a", "b"));
    assert!(text_precedes("a", "ab"));
    assert!(!text_precedes("ab", "a"));
    assert!(!text_precedes("abc", "abc"));
    assert!(text_precedes("Z", "a"));
    assert!(text_precedes("客户", "用户"));
}

#[test]
fn text_precedes_agrees_with_the_standard_library() {
    let words = ["", "a", "ab", "b", "B", "客户", "客户编号", "用户", "\u{10000}", "\u{ffff}"];
    for a in words {
        for b in words {
            assert_eq!(text_precedes(a, b), a < b, "{:?} {:?}", a, b);
        }
    }
}

#[test]
fn char_precedes_compares_code_points() {
    assert!(char_precedes('a', 'b'));
    assert!(!char_precedes('b', 'a'));
    assert!(!char_precedes('a', 'a'));
    assert!(char_precedes('\u{ffff}', '\u{10000}'));
}
