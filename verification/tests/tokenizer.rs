use vocab_core::tokenizer::{learnable, Tokenizer, LEARNED_WEIGHT};

fn words(list: &[&str]) -> Vec<String> {
    list.iter().map(|w| w.to_string()).collect()
}

#[test]
fn segment_cuts_a_sentence_into_dictionary_words() {
    let tokenizer = Tokenizer::new();
    assert_eq!(
        tokenizer.segment("我们中出了一个叛徒"),
        words(&["我们", "中", "出", "了", "一个", "叛徒"])
    );
}

#[test]
fn segment_of_the_empty_text_is_empty() {
    let tokenizer = Tokenizer::new();
    assert_eq!(tokenizer.segment(""), Vec::<String>::new());
}

#[test]
fn segment_keeps_whitespace_as_tokens_of_its_own() {
    let tokenizer = Tokenizer::new();
    assert_eq!(tokenizer.segment("客户 编号"), words(&["客户", " ", "编号"]));
}

#[test]
fn a_learned_name_is_cut_as_one_token() {
    let mut tokenizer = Tokenizer::new();
    let name = "数标治元";
    let before = tokenizer.segment(name);
    assert!(before.len() > 1, "{:?}", before);
    assert!(tokenizer.learn(name));
    assert_eq!(tokenizer.segment(name), words(&[name]));
}

#[test]
fn a_learned_name_stays_whole_inside_a_longer_text() {
    let mut tokenizer = Tokenizer::new();
    assert!(tokenizer.learn("数标治元"));
    let cut = tokenizer.segment("查询数标治元编号");
    assert!(cut.contains(&"数标治元".to_string()), "{:?}", cut);
    assert_eq!(cut.concat(), "查询数标治元编号");
}

#[test]
fn learn_refuses_terms_that_the_dictionary_cannot_hold() {
    let mut tokenizer = Tokenizer::new();
    assert!(!tokenizer.learn(""));
    assert!(!tokenizer.learn("a\0b"));
    assert!(tokenizer.learn("客户编号"));
    assert!(tokenizer.learn("客户编号"));
}

#[test]
fn learnable_terms_are_not_empty_and_hold_no_nul() {
    assert!(learnable("根"));
    assert!(learnable("a b"));
    assert!(!learnable(""));
    assert!(!learnable("\0"));
    assert!(!learnable("ab\0"));
}

#[test]
fn learn_all_counts_the_terms_taken() {
    let mut tokenizer = Tokenizer::new();
    let taken = tokenizer.learn_all(&words(&["数标治元", "", "标元治数", "x\0"]));
    assert_eq!(taken, 2);
    assert_eq!(tokenizer.segment("数标治元"), words(&["数标治元"]));
    assert_eq!(tokenizer.segment("标元治数"), words(&["标元治数"]));
}

#[test]
fn the_learned_weight_is_fixed() {
    assert_eq!(LEARNED_WEIGHT, 99999);
}

#[test]
fn a_learned_name_with_a_space_is_still_cut_at_the_space() {
    let mut tokenizer = Tokenizer::new();
    assert!(tokenizer.learn("客户 编号"));
    assert_eq!(tokenizer.segment("客户 编号"), words(&["客户", " ", "编号"]));
}
