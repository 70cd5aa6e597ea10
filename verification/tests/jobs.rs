use vocab_core::exchange::{Action, Body, Collection, Event, Reply, EMBEDDING_DIMENSION};
use vocab_core::jobs::{
    health_check, init_custom_dictionary, init_qdrant_collections, names_of_roots, plan_fields,
    plan_roots, sync_fields_to_qdrant, sync_roots_to_qdrant, HealthCheck, Resync, Setup, WarmUp,
};
use vocab_core::model::{StandardField, WordRoot};

fn root(id: i32, cn_name: &str, terms: Option<&str>) -> WordRoot {
    WordRoot {
        id,
        cn_name: cn_name.to_string(),
        en_abbr: "ab".to_string(),
        en_full_name: Some("full".to_string()),
        associated_terms: terms.map(|t| t.to_string()),
        remark: None,
        created_at: None,
    }
}

fn field(id: i32, name: &str) -> StandardField {
    StandardField {
        id,
        field_cn_name: name.to_string(),
        field_en_name: "en".to_string(),
        composition_ids: vec![1],
        data_type: None,
        associated_terms: Some("t".to_string()),
        is_standard: true,
        created_at: None,
    }
}

fn done() -> Event {
    Event::Completed(Ok(()))
}

#[test]
fn resync_embeds_every_root_and_writes_a_point_for_each() {
    let (state, action) = sync_roots_to_qdrant(Resync::Requested, Event::Start);
    assert_eq!(state, Resync::Loading);
    assert_eq!(action, Action::LoadRoots);
    let roots = vec![root(5, "客户", Some("用户")), root(3, "编号", None), root(9, "日期", None)];
    let (state, action) = sync_roots_to_qdrant(state, Event::Roots(Ok(roots)));
    assert_eq!(
        action,
        Action::Embed(vec![
            "客户 full 用户".to_string(),
            "编号 full ".to_string(),
            "日期 full ".to_string()
        ])
    );
    let (state, action) = sync_roots_to_qdrant(state, Event::Embedded(Ok(3)));
    assert_eq!(state, Resync::Indexing);
    let points = match action {
        Action::Upsert { collection: Collection::WordRoots, points } => points,
        other => panic!("{:?}", other),
    };
    let placed: Vec<(u64, usize)> = points.iter().map(|p| (p.id, p.vector)).collect();
    assert_eq!(placed, vec![(5, 0), (3, 1), (9, 2)]);
    assert_eq!(points[1].payload[0], ("cn_name".to_string(), "编号".to_string()));
    let (state, action) = sync_roots_to_qdrant(state, Event::Completed(Err("x".to_string())));
    assert_eq!((state, action), (Resync::Finished, Action::Done));
}

#[test]
fn resync_of_an_empty_or_unreadable_store_writes_nothing() {
    assert_eq!(
        sync_roots_to_qdrant(Resync::Loading, Event::Roots(Ok(vec![]))),
        (Resync::Finished, Action::Done)
    );
    assert_eq!(
        sync_roots_to_qdrant(Resync::Loading, Event::Roots(Err("down".to_string()))),
        (Resync::Finished, Action::Done)
    );
    assert_eq!(
        sync_fields_to_qdrant(Resync::Loading, Event::Fields(Ok(vec![]))),
        (Resync::Finished, Action::Done)
    );
    assert_eq!(
        sync_fields_to_qdrant(Resync::Loading, Event::Roots(Ok(vec![]))),
        (Resync::Failed, Action::Abort)
    );
}

#[test]
fn resync_writes_nothing_when_the_model_fails() {
    let (points, _) = plan_roots(&vec![root(1, "a", None)]);
    assert_eq!(
        sync_roots_to_qdrant(Resync::Embedding(points), Event::Embedded(Err("x".to_string()))),
        (Resync::Finished, Action::Done)
    );
    let (points, _) = plan_roots(&vec![root(1, "a", None)]);
    assert_eq!(
        sync_roots_to_qdrant(Resync::Embedding(points), Event::Embedded(Ok(2))),
        (Resync::Finished, Action::Done)
    );
}

#[test]
fn resync_of_fields_uses_their_texts_and_collection() {
    let (state, action) = sync_fields_to_qdrant(Resync::Requested, Event::Start);
    assert_eq!(action, Action::LoadFields);
    let (state, action) = sync_fields_to_qdrant(state, Event::Fields(Ok(vec![field(4, "客户编号")])));
    assert_eq!(action, Action::Embed(vec!["客户编号 t".to_string()]));
    let (_, action) = sync_fields_to_qdrant(state, Event::Embedded(Ok(1)));
    let points = match action {
        Action::Upsert { collection: Collection::StandardFields, points } => points,
        other => panic!("{:?}", other),
    };
    assert_eq!(points.len(), 1);
    assert_eq!((points[0].id, points[0].vector), (4, 0));
    assert_eq!(
        points[0].payload,
        vec![
            ("cn_name".to_string(), "客户编号".to_string()),
            ("en_name".to_string(), "en".to_string())
        ]
    );
}

#[test]
fn plans_hold_one_point_and_one_text_for_each_entry() {
    let (points, texts) = plan_fields(&vec![field(1, "a"), field(2, "b")]);
    assert_eq!(points.len(), 2);
    assert_eq!(texts, vec!["a t".to_string(), "b t".to_string()]);
    let (points, texts) = plan_roots(&vec![]);
    assert!(points.is_empty() && texts.is_empty());
}

#[test]
fn warm_up_learns_the_name_of_every_root() {
    let (state, action) = init_custom_dictionary(WarmUp::Requested, Event::Start);
    assert_eq!((state, action), (WarmUp::Loading, Action::LoadRoots));
    let roots = vec![root(1, "客户", None), root(2, "编号", None)];
    let (state, action) = init_custom_dictionary(WarmUp::Loading, Event::Roots(Ok(roots)));
    assert_eq!(state, WarmUp::Learning);
    assert_eq!(action, Action::Learn(vec!["客户".to_string(), "编号".to_string()]));
    assert_eq!(init_custom_dictionary(state, done()), (WarmUp::Finished, Action::Done));
}

#[test]
fn warm_up_fails_when_the_store_cannot_be_read() {
    let (state, action) =
        init_custom_dictionary(WarmUp::Loading, Event::Roots(Err("no connection".to_string())));
    assert_eq!(state, WarmUp::Finished);
    assert_eq!(action, Action::Fatal("no connection".to_string()));
}

#[test]
fn names_of_roots_keeps_the_order() {
    assert_eq!(
        names_of_roots(&vec![root(3, "c", None), root(1, "a", None)]),
        vec!["c".to_string(), "a".to_string()]
    );
}

#[test]
fn setup_creates_the_collections_that_do_not_exist() {
    let roots = Collection::WordRoots;
    let fields = Collection::StandardFields;
    let (state, action) = init_qdrant_collections(Setup::Requested, Event::Start);
    assert_eq!((state, action), (Setup::Checking(roots), Action::CollectionExists(roots)));
    let (state, action) = init_qdrant_collections(Setup::Checking(roots), Event::Exists(Ok(true)));
    assert_eq!((state, action), (Setup::Checking(fields), Action::CollectionExists(fields)));
    let (state, action) = init_qdrant_collections(Setup::Checking(fields), Event::Exists(Ok(false)));
    assert_eq!(state, Setup::Creating(fields));
    assert_eq!(action, Action::CreateCollection { collection: fields, dimension: 384 });
    assert_eq!(init_qdrant_collections(state, done()), (Setup::Finished, Action::Done));
    assert_eq!(EMBEDDING_DIMENSION, 384);
}

#[test]
fn setup_creates_a_collection_of_which_the_index_cannot_say() {
    let roots = Collection::WordRoots;
    let (state, action) =
        init_qdrant_collections(Setup::Checking(roots), Event::Exists(Err("x".to_string())));
    assert_eq!(state, Setup::Creating(roots));
    assert_eq!(action, Action::CreateCollection { collection: roots, dimension: 384 });
    let (state, action) = init_qdrant_collections(state, done());
    assert_eq!(
        (state, action),
        (
            Setup::Checking(Collection::StandardFields),
            Action::CollectionExists(Collection::StandardFields)
        )
    );
}

#[test]
fn setup_fails_when_a_collection_cannot_be_created() {
    let (state, action) = init_qdrant_collections(
        Setup::Creating(Collection::WordRoots),
        Event::Completed(Err("denied".to_string())),
    );
    assert_eq!(state, Setup::Finished);
    assert_eq!(action, Action::Fatal("无法创建 Qdrant 集合: word_roots".to_string()));
    let (_, action) = init_qdrant_collections(
        Setup::Creating(Collection::StandardFields),
        Event::Completed(Err("denied".to_string())),
    );
    assert_eq!(action, Action::Fatal("无法创建 Qdrant 集合: standard_fields".to_string()));
}

#[test]
fn collections_have_their_names() {
    assert_eq!(Collection::WordRoots.name(), "word_roots");
    assert_eq!(Collection::StandardFields.name(), "standard_fields");
}

#[test]
fn health_is_up_when_the_store_answers() {
    let (state, action) = health_check(HealthCheck::Requested, Event::Start);
    assert_eq!((state, action), (HealthCheck::Pinging, Action::Ping));
    let (state, action) = health_check(HealthCheck::Pinging, done());
    assert_eq!(state, HealthCheck::Finished);
    assert_eq!(action, Action::Respond(Reply { status: 200, body: Body::Up }));
    let (_, action) = health_check(HealthCheck::Pinging, Event::Completed(Err("x".to_string())));
    assert_eq!(action, Action::Respond(Reply { status: 503, body: Body::Down }));
}
