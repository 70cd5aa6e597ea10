use vocab_core::exchange::{
    Action, Body, Collection, Event, FieldHit, Hit, PayloadValue, PointId, Reply,
};
use vocab_core::model::{RootSuggestion, StandardField, SuggestQuery, SuggestResponseV2, WordRoot};
use vocab_core::search::{
    escape, field_hits_from, id_text, lexical_hits_from, pattern_for, search_field,
    search_similar_roots, suggest_mapping, suggestions_from, text_fits, text_in_payload,
    FieldSearch, RootSearch, Suggesting, LEXICAL_LIMIT, NEAREST,
};
use vocab_core::tokenizer::Tokenizer;

fn query(q: &str) -> SuggestQuery {
    SuggestQuery { q: q.to_string() }
}

fn field(id: i32, name: &str) -> StandardField {
    StandardField {
        id,
        field_cn_name: name.to_string(),
        field_en_name: "en".to_string(),
        composition_ids: vec![1],
        data_type: None,
        associated_terms: None,
        is_standard: false,
        created_at: Some(1),
    }
}

fn root(id: i32, cn_name: &str) -> WordRoot {
    WordRoot {
        id,
        cn_name: cn_name.to_string(),
        en_abbr: "ab".to_string(),
        en_full_name: None,
        associated_terms: None,
        remark: None,
        created_at: None,
    }
}

fn entry(key: &str, value: &str) -> (String, PayloadValue) {
    (key.to_string(), PayloadValue::Text(value.to_string()))
}

fn hits_reply(hits: Vec<FieldHit>) -> Action {
    Action::Respond(Reply { status: 200, body: Body::FieldHits(hits) })
}

fn lexical(id: u64, name: &str) -> FieldHit {
    FieldHit {
        id: PointId::Num(id),
        field_cn_name: Some(name.to_string()),
        field_en_name: Some("en".to_string()),
        score: None,
    }
}

fn no_suggestion() -> Action {
    Action::Respond(Reply { status: 200, body: Body::Suggestions(vec![]) })
}

fn text(status: u16, body: &str) -> Action {
    Action::Respond(Reply { status, body: Body::Text(body.to_string()) })
}

#[test]
fn the_limits_of_a_search_are_fixed() {
    assert_eq!(LEXICAL_LIMIT, 10);
    assert_eq!(NEAREST, 5);
}

#[test]
fn pattern_for_wraps_the_query() {
    assert_eq!(pattern_for("客户"), "%客户%");
    assert_eq!(pattern_for(""), "%%");
    assert_eq!(pattern_for(" a "), "% a %");
}

#[test]
fn pattern_for_escapes_what_a_pattern_reads_as_more_than_itself() {
    assert_eq!(pattern_for("a_b"), "%a\\_b%");
    assert_eq!(pattern_for("100%"), "%100\\%%");
    assert_eq!(pattern_for("a\\b"), "%a\\\\b%");
    assert_eq!(pattern_for("%_\\"), "%\\%\\_\\\\%");
    assert_eq!(escape(""), "");
    assert_eq!(escape("客户_编号"), "客户\\_编号");
    assert_eq!(escape("plain"), "plain");
}

#[test]
fn search_field_answers_with_the_lexical_hits_and_asks_no_model() {
    let (state, action) = search_field(FieldSearch::Received(query("客户")), Event::Start);
    assert_eq!(state, FieldSearch::Searching("客户".to_string()));
    assert_eq!(action, Action::FindFields { like: "%客户%".to_string(), at_most: 10 });
    let (state, action) =
        search_field(state, Event::Fields(Ok(vec![field(3, "客户编号"), field(1, "客户名称")])));
    assert_eq!(state, FieldSearch::Finished);
    assert_eq!(action, hits_reply(vec![lexical(3, "客户编号"), lexical(1, "客户名称")]));
    let (state, action) = search_field(state, Event::Embedded(Ok(1)));
    assert_eq!((state, action), (FieldSearch::Failed, Action::Abort));
}

#[test]
fn search_field_falls_back_to_the_nearest_points() {
    let state = FieldSearch::Searching(" 客户 ".to_string());
    let (state, action) = search_field(state, Event::Fields(Ok(vec![])));
    assert_eq!(state, FieldSearch::Embedding);
    assert_eq!(action, Action::Embed(vec![" 客户 ".to_string()]));
    let (state, action) = search_field(state, Event::Embedded(Ok(1)));
    assert_eq!(state, FieldSearch::Querying);
    assert_eq!(
        action,
        Action::SearchPoints { collection: Collection::StandardFields, nearest: 5 }
    );
    let hits = vec![
        Hit {
            id: PointId::Num(8),
            score: 0x3f4ccccd,
            payload: vec![entry("en_name", "cust_no"), entry("cn_name", "客户编号")],
        },
        Hit { id: PointId::Uuid("u-1".to_string()), score: 7, payload: vec![] },
        Hit {
            id: PointId::Missing,
            score: 0,
            payload: vec![("cn_name".to_string(), PayloadValue::Other)],
        },
    ];
    let (state, action) = search_field(state, Event::Hits(Ok(hits)));
    assert_eq!(state, FieldSearch::Finished);
    assert_eq!(
        action,
        Action::Respond(Reply {
            status: 200,
            body: Body::FieldHits(vec![
                FieldHit {
                    id: PointId::Num(8),
                    field_cn_name: Some("客户编号".to_string()),
                    field_en_name: Some("cust_no".to_string()),
                    score: Some(0x3f4ccccd),
                },
                FieldHit {
                    id: PointId::Uuid("u-1".to_string()),
                    field_cn_name: None,
                    field_en_name: None,
                    score: Some(7),
                },
                FieldHit {
                    id: PointId::Missing,
                    field_cn_name: None,
                    field_en_name: None,
                    score: Some(0),
                },
            ]),
        })
    );
}

#[test]
fn search_field_goes_on_when_the_store_fails() {
    let state = FieldSearch::Searching("q".to_string());
    let (state, action) = search_field(state, Event::Fields(Err("down".to_string())));
    assert_eq!(state, FieldSearch::Embedding);
    assert_eq!(action, Action::Embed(vec!["q".to_string()]));
}

#[test]
fn search_field_is_empty_when_model_or_index_fails() {
    let (state, action) = search_field(FieldSearch::Embedding, Event::Embedded(Err("x".to_string())));
    assert_eq!((state, action), (FieldSearch::Finished, hits_reply(vec![])));
    let (state, action) = search_field(FieldSearch::Embedding, Event::Embedded(Ok(0)));
    assert_eq!((state, action), (FieldSearch::Finished, hits_reply(vec![])));
    let (state, action) = search_field(FieldSearch::Querying, Event::Hits(Err("x".to_string())));
    assert_eq!((state, action), (FieldSearch::Finished, hits_reply(vec![])));
}

#[test]
fn search_similar_roots_refuses_a_blank_query() {
    for q in ["", "   ", "\t\n"] {
        let (state, action) = search_similar_roots(RootSearch::Received(query(q)), Event::Start);
        assert_eq!(state, RootSearch::Finished);
        assert_eq!(action, text(400, "查询内容不能为空"));
    }
}

#[test]
fn search_similar_roots_embeds_the_trimmed_query_and_reads_the_hits() {
    let (state, action) = search_similar_roots(RootSearch::Received(query("  客户 ")), Event::Start);
    assert_eq!(state, RootSearch::Embedding);
    assert_eq!(action, Action::Embed(vec!["客户".to_string()]));
    let (state, action) = search_similar_roots(state, Event::Embedded(Ok(1)));
    assert_eq!(state, RootSearch::Querying);
    assert_eq!(action, Action::SearchPoints { collection: Collection::WordRoots, nearest: 5 });
    let hits = vec![
        Hit {
            id: PointId::Num(12),
            score: 9,
            payload: vec![entry("cn_name", "客户"), entry("en_abbr", "cust")],
        },
        Hit { id: PointId::Uuid("abc".to_string()), score: 8, payload: vec![entry("x", "y")] },
        Hit { id: PointId::Missing, score: 1, payload: vec![] },
    ];
    let (state, action) = search_similar_roots(state, Event::Hits(Ok(hits)));
    assert_eq!(state, RootSearch::Finished);
    assert_eq!(
        action,
        Action::Respond(Reply {
            status: 200,
            body: Body::Suggestions(vec![
                RootSuggestion {
                    id: "12".to_string(),
                    cn_name: "客户".to_string(),
                    en_abbr: "cust".to_string(),
                    score: 9,
                },
                RootSuggestion {
                    id: "abc".to_string(),
                    cn_name: String::new(),
                    en_abbr: String::new(),
                    score: 8,
                },
                RootSuggestion {
                    id: "0".to_string(),
                    cn_name: String::new(),
                    en_abbr: String::new(),
                    score: 1,
                },
            ]),
        })
    );
}

#[test]
fn search_similar_roots_is_empty_when_model_or_index_fails() {
    let (state, action) =
        search_similar_roots(RootSearch::Embedding, Event::Embedded(Err("no model".to_string())));
    assert_eq!((state, action), (RootSearch::Finished, no_suggestion()));
    let (state, action) = search_similar_roots(RootSearch::Embedding, Event::Embedded(Ok(0)));
    assert_eq!((state, action), (RootSearch::Finished, no_suggestion()));
    let (state, action) =
        search_similar_roots(RootSearch::Querying, Event::Hits(Err("down".to_string())));
    assert_eq!((state, action), (RootSearch::Finished, no_suggestion()));
}

#[test]
fn both_passes_of_a_search_answer_with_records_of_one_shape() {
    let by_letter = lexical_hits_from(&vec![field(8, "客户编号")]);
    let by_meaning = field_hits_from(&vec![Hit {
        id: PointId::Num(8),
        score: 5,
        payload: vec![entry("cn_name", "客户编号"), entry("en_name", "en")],
    }]);
    assert_eq!(by_letter.len(), 1);
    assert_eq!(by_meaning.len(), 1);
    assert_eq!(by_letter[0].id, by_meaning[0].id);
    assert_eq!(by_letter[0].field_cn_name, by_meaning[0].field_cn_name);
    assert_eq!(by_letter[0].field_en_name, by_meaning[0].field_en_name);
    assert_eq!(by_letter[0].score, None);
    assert_eq!(by_meaning[0].score, Some(5));
}

#[test]
fn reading_a_payload() {
    let payload = vec![
        entry("a", "1"),
        ("b".to_string(), PayloadValue::Other),
        entry("a", "2"),
        entry("c", ""),
    ];
    assert_eq!(text_in_payload(&payload, "a"), Some("1".to_string()));
    assert_eq!(text_in_payload(&payload, "b"), None);
    assert_eq!(text_in_payload(&payload, "c"), Some(String::new()));
    assert_eq!(text_in_payload(&payload, "d"), None);
    assert_eq!(text_in_payload(&vec![], "a"), None);
}

#[test]
fn identifiers_as_text() {
    assert_eq!(id_text(&PointId::Num(0)), "0");
    assert_eq!(id_text(&PointId::Num(18446744073709551615)), "18446744073709551615");
    assert_eq!(id_text(&PointId::Uuid("550e8400-e29b".to_string())), "550e8400-e29b");
    assert_eq!(id_text(&PointId::Missing), "0");
}

#[test]
fn hits_of_no_points_are_none() {
    assert_eq!(suggestions_from(&vec![]), Vec::<RootSuggestion>::new());
    assert_eq!(field_hits_from(&vec![]), Vec::<FieldHit>::new());
}

#[test]
fn suggest_mapping_refuses_a_blank_text() {
    let tokenizer = Tokenizer::new();
    for q in ["", "  "] {
        let (state, action) = suggest_mapping(Suggesting::Received(query(q)), Event::Start, &tokenizer);
        assert_eq!(state, Suggesting::Finished);
        assert_eq!(action, text(400, "查询内容不能为空"));
    }
}

#[test]
fn suggest_mapping_resolves_the_text_against_the_roots_read() {
    let tokenizer = Tokenizer::new();
    let (state, action) =
        suggest_mapping(Suggesting::Received(query(" 客户编号 ")), Event::Start, &tokenizer);
    assert_eq!(state, Suggesting::Loading(" 客户编号 ".to_string()));
    assert_eq!(action, Action::LoadRoots);
    let roots = vec![root(1, "客户"), root(2, "编号")];
    let (state, action) = suggest_mapping(state, Event::Roots(Ok(roots)), &tokenizer);
    assert_eq!(state, Suggesting::Finished);
    let segments = match action {
        Action::Respond(Reply { status: 200, body: Body::Segments(SuggestResponseV2 { segments }) }) => {
            segments
        },
        other => panic!("{:?}", other),
    };
    let seen: Vec<(&str, Vec<i32>)> = segments
        .iter()
        .map(|s| (s.word.as_str(), s.candidates.iter().map(|c| c.id).collect()))
        .collect();
    assert_eq!(seen, vec![("客户", vec![1]), ("编号", vec![2])]);
}

#[test]
fn suggest_mapping_resolves_against_nothing_when_the_store_fails() {
    let tokenizer = Tokenizer::new();
    let state = Suggesting::Loading("客户编号".to_string());
    let (_, action) = suggest_mapping(state, Event::Roots(Err("down".to_string())), &tokenizer);
    let segments = match action {
        Action::Respond(Reply { status: 200, body: Body::Segments(SuggestResponseV2 { segments }) }) => {
            segments
        },
        other => panic!("{:?}", other),
    };
    assert_eq!(segments.len(), 2);
    assert!(segments.iter().all(|s| s.candidates.is_empty()));
}

#[test]
fn text_fits_short_texts() {
    assert!(text_fits(""));
    assert!(text_fits("客户编号"));
}
