use vocab_core::exchange::{Action, Body, Collection, Event, IndexPoint, Reply};
use vocab_core::model::{
    BatchCreateWordRoot, CreateFieldRequest, CreateWordRoot, ImportResult, StandardField, WordRoot,
};
use vocab_core::sync::{
    batch_create_roots, clear_all_fields, clear_all_roots, create_field, create_root,
    delete_field, delete_root, field_embedding_text, normalize_root, point_id, point_of_field,
    point_of_root, prepare_batch, root_embedding_text, tally, update_field, update_root,
    BatchImport, Clearing, FieldWrite, Removal, RootWrite,
};

fn draft(cn_name: &str, terms: Option<&str>) -> CreateWordRoot {
    CreateWordRoot {
        cn_name: cn_name.to_string(),
        en_abbr: "ab".to_string(),
        en_full_name: Some("full name".to_string()),
        associated_terms: terms.map(|t| t.to_string()),
        remark: None,
    }
}

fn stored(id: i32, cn_name: &str, terms: Option<&str>) -> WordRoot {
    WordRoot {
        id,
        cn_name: cn_name.to_string(),
        en_abbr: "ab".to_string(),
        en_full_name: Some("full name".to_string()),
        associated_terms: terms.map(|t| t.to_string()),
        remark: None,
        created_at: Some(5),
    }
}

fn field_draft() -> CreateFieldRequest {
    CreateFieldRequest {
        field_cn_name: "客户编号".to_string(),
        field_en_name: "cust_no".to_string(),
        composition_ids: vec![2, 1],
        data_type: Some("varchar".to_string()),
        associated_terms: Some("客户号, 编号".to_string()),
    }
}

fn field(id: i32) -> StandardField {
    StandardField {
        id,
        field_cn_name: "客户编号".to_string(),
        field_en_name: "cust_no".to_string(),
        composition_ids: vec![2, 1],
        data_type: Some("varchar".to_string()),
        associated_terms: Some("客户号".to_string()),
        is_standard: true,
        created_at: None,
    }
}

fn pair(k: &str, v: &str) -> (String, String) {
    (k.to_string(), v.to_string())
}

fn text(status: u16, body: &str) -> Action {
    Action::Respond(Reply { status, body: Body::Text(body.to_string()) })
}

fn empty(status: u16) -> Action {
    Action::Respond(Reply { status, body: Body::Empty })
}

fn done() -> Event {
    Event::Completed(Ok(()))
}

fn failed(message: &str) -> Event {
    Event::Completed(Err(message.to_string()))
}

#[test]
fn point_id_reads_the_identifier_as_unsigned() {
    assert_eq!(point_id(0), 0);
    assert_eq!(point_id(7), 7);
    assert_eq!(point_id(i32::MAX), 2147483647);
    assert_eq!(point_id(-1), u64::MAX);
    assert_eq!(point_id(i32::MIN), (i32::MIN as i64) as u64);
    assert_eq!(point_id(-12345), -12345i32 as u64);
}

#[test]
fn embedding_texts_join_the_parts_with_single_spaces() {
    assert_eq!(
        root_embedding_text("客户", &Some("customer".to_string()), &Some("用户 买家".to_string())),
        "客户 customer 用户 买家"
    );
    assert_eq!(root_embedding_text("客户", &None, &None), "客户  ");
    assert_eq!(root_embedding_text("客户", &None, &Some("x".to_string())), "客户  x");
    assert_eq!(field_embedding_text("客户编号", &Some("a b".to_string())), "客户编号 a b");
    assert_eq!(field_embedding_text("客户编号", &None), "客户编号 ");
}

#[test]
fn points_carry_the_display_names() {
    assert_eq!(
        point_of_root(&stored(3, "客户", None), 4),
        IndexPoint { id: 3, vector: 4, payload: vec![pair("cn_name", "客户"), pair("en_abbr", "ab")] }
    );
    assert_eq!(
        point_of_field(&field(8), 0),
        IndexPoint {
            id: 8,
            vector: 0,
            payload: vec![pair("cn_name", "客户编号"), pair("en_name", "cust_no")]
        }
    );
}

#[test]
fn normalize_root_touches_the_synonyms_only() {
    let out = normalize_root(draft(" 客户 ", Some("a,,b  c")));
    assert_eq!(out, draft(" 客户 ", Some("a b c")));
    assert_eq!(normalize_root(draft("x", None)), draft("x", None));
}

#[test]
fn create_root_runs_store_tokenizer_model_index_in_turn() {
    let (state, action) = create_root(RootWrite::Create(draft("客户", Some("用户, 买家"))), Event::Start);
    assert_eq!(state, RootWrite::Storing);
    assert_eq!(action, Action::InsertRoot(draft("客户", Some("用户 买家"))));

    let root = stored(42, "客户", Some("用户 买家"));
    let (state, action) = create_root(state, Event::Root(Ok(root.clone())));
    assert_eq!(state, RootWrite::Learning(root.clone()));
    assert_eq!(action, Action::Learn(vec!["客户".to_string()]));

    let (state, action) = create_root(state, done());
    assert_eq!(state, RootWrite::Embedding(root.clone()));
    assert_eq!(action, Action::Embed(vec!["客户 full name 用户 买家".to_string()]));

    let (state, action) = create_root(state, Event::Embedded(Ok(1)));
    assert_eq!(state, RootWrite::Indexing(root.clone()));
    assert_eq!(
        action,
        Action::Upsert {
            collection: Collection::WordRoots,
            points: vec![IndexPoint {
                id: 42,
                vector: 0,
                payload: vec![pair("cn_name", "客户"), pair("en_abbr", "ab")],
            }],
        }
    );

    let (state, action) = create_root(state, failed("index down"));
    assert_eq!(state, RootWrite::Finished);
    assert_eq!(action, Action::Respond(Reply { status: 201, body: Body::Root(root) }));
}

#[test]
fn create_root_stops_at_a_refusal_of_the_store() {
    let (state, action) =
        create_root(RootWrite::Storing, Event::Root(Err("duplicate key".to_string())));
    assert_eq!(state, RootWrite::Finished);
    assert_eq!(action, text(500, "创建失败: duplicate key"));
}

#[test]
fn create_root_succeeds_though_the_model_fails() {
    let root = stored(1, "客户", None);
    let (state, action) =
        create_root(RootWrite::Embedding(root.clone()), Event::Embedded(Err("no model".to_string())));
    assert_eq!(state, RootWrite::Finished);
    assert_eq!(action, Action::Respond(Reply { status: 201, body: Body::Root(root.clone()) }));
    let (state, action) = create_root(RootWrite::Embedding(root.clone()), Event::Embedded(Ok(0)));
    assert_eq!(state, RootWrite::Finished);
    assert_eq!(action, Action::Respond(Reply { status: 201, body: Body::Root(root) }));
}

#[test]
fn update_root_answers_with_a_status_only() {
    let (state, action) = update_root(RootWrite::Update(9, draft("客户", Some("a ,b"))), Event::Start);
    assert_eq!(state, RootWrite::Storing);
    assert_eq!(action, Action::UpdateRoot(9, draft("客户", Some("a b"))));
    let root = stored(9, "客户", Some("a b"));
    let (state, action) = update_root(state, Event::Root(Ok(root.clone())));
    assert_eq!(action, Action::Learn(vec!["客户".to_string()]));
    let (state, _) = update_root(state, done());
    let (state, action) = update_root(state, Event::Embedded(Ok(1)));
    assert!(matches!(action, Action::Upsert { collection: Collection::WordRoots, .. }));
    let (state, action) = update_root(state, done());
    assert_eq!(state, RootWrite::Finished);
    assert_eq!(action, empty(200));
    let (_, action) = update_root(RootWrite::Storing, Event::Root(Err("gone".to_string())));
    assert_eq!(action, text(500, "更新失败: gone"));
}

#[test]
fn a_flow_does_not_take_the_request_of_another() {
    assert_eq!(
        create_root(RootWrite::Update(1, draft("x", None)), Event::Start),
        (RootWrite::Failed, Action::Abort)
    );
    assert_eq!(
        update_root(RootWrite::Create(draft("x", None)), Event::Start),
        (RootWrite::Failed, Action::Abort)
    );
    assert_eq!(create_root(RootWrite::Storing, Event::Start), (RootWrite::Failed, Action::Abort));
    assert_eq!(create_root(RootWrite::Finished, done()), (RootWrite::Failed, Action::Abort));
    assert_eq!(create_root(RootWrite::Failed, Event::Start), (RootWrite::Failed, Action::Abort));
}

#[test]
fn create_field_stores_the_content_as_it_came() {
    let (state, action) = create_field(FieldWrite::Create(field_draft()), Event::Start);
    assert_eq!(state, FieldWrite::Storing);
    assert_eq!(action, Action::InsertField(field_draft()));
    let (state, action) = create_field(state, Event::Field(Ok(field(5))));
    assert_eq!(state, FieldWrite::Embedding(field(5)));
    assert_eq!(action, Action::Embed(vec!["客户编号 客户号".to_string()]));
    let (state, action) = create_field(state, Event::Embedded(Ok(1)));
    assert_eq!(state, FieldWrite::Indexing(field(5)));
    assert_eq!(
        action,
        Action::Upsert {
            collection: Collection::StandardFields,
            points: vec![IndexPoint {
                id: 5,
                vector: 0,
                payload: vec![pair("cn_name", "客户编号"), pair("en_name", "cust_no")],
            }],
        }
    );
    let (state, action) = create_field(state, done());
    assert_eq!(state, FieldWrite::Finished);
    assert_eq!(action, Action::Respond(Reply { status: 201, body: Body::Field(field(5)) }));
}

#[test]
fn field_writes_report_the_refusal_of_the_store() {
    let (_, action) = create_field(FieldWrite::Storing, Event::Field(Err("bad".to_string())));
    assert_eq!(action, text(500, "数据库错误: bad"));
    let (_, action) = update_field(FieldWrite::Storing, Event::Field(Err("bad".to_string())));
    assert_eq!(action, text(500, "更新失败: bad"));
}

#[test]
fn update_field_answers_with_a_status_only() {
    let (state, action) = update_field(FieldWrite::Update(3, field_draft()), Event::Start);
    assert_eq!(action, Action::UpdateField(3, field_draft()));
    let (state, _) = update_field(state, Event::Field(Ok(field(3))));
    let (state, action) = update_field(state, Event::Embedded(Err("x".to_string())));
    assert_eq!(state, FieldWrite::Finished);
    assert_eq!(action, empty(200));
}

#[test]
fn deleting_a_row_deletes_its_point() {
    let (state, action) = delete_root(Removal::Requested(12), Event::Start);
    assert_eq!(state, Removal::Deleting(12));
    assert_eq!(action, Action::Delete(Collection::WordRoots, 12));
    let (state, action) = delete_root(state, Event::Affected(Ok(1)));
    assert_eq!(state, Removal::Unindexing);
    assert_eq!(action, Action::DeletePoints { collection: Collection::WordRoots, ids: vec![12] });
    let (state, action) = delete_root(state, failed("index down"));
    assert_eq!(state, Removal::Finished);
    assert_eq!(action, empty(204));
}

#[test]
fn deleting_nothing_is_not_found_and_leaves_the_index_alone() {
    let (state, action) = delete_root(Removal::Deleting(12), Event::Affected(Ok(0)));
    assert_eq!(state, Removal::Finished);
    assert_eq!(action, empty(404));
    let (state, action) = delete_field(Removal::Deleting(12), Event::Affected(Ok(0)));
    assert_eq!(state, Removal::Finished);
    assert_eq!(action, empty(404));
}

#[test]
fn deletions_report_the_refusal_of_the_store() {
    let (_, action) = delete_root(Removal::Deleting(1), Event::Affected(Err("e".to_string())));
    assert_eq!(action, text(500, "删除异常: e"));
    let (_, action) = delete_field(Removal::Deleting(1), Event::Affected(Err("e".to_string())));
    assert_eq!(action, text(500, "删除失败: e"));
    let (_, action) = delete_field(Removal::Deleting(4), Event::Affected(Ok(2)));
    assert_eq!(action, Action::DeletePoints { collection: Collection::StandardFields, ids: vec![4] });
}

#[test]
fn clearing_empties_the_store_then_the_index() {
    let (state, action) = clear_all_roots(Clearing::Requested, Event::Start);
    assert_eq!(state, Clearing::Truncating);
    assert_eq!(action, Action::Truncate(Collection::WordRoots));
    let (state, action) = clear_all_roots(state, done());
    assert_eq!(state, Clearing::Unindexing);
    assert_eq!(action, Action::DeleteAllPoints(Collection::WordRoots));
    let (state, action) = clear_all_roots(state, done());
    assert_eq!(state, Clearing::Finished);
    assert_eq!(action, text(200, "所有词根数据已成功清空"));
    let (_, action) = clear_all_fields(Clearing::Unindexing, done());
    assert_eq!(action, text(200, "标准字段库已完全清空"));
}

#[test]
fn clearing_reports_each_failure_apart() {
    let (state, action) = clear_all_roots(Clearing::Truncating, failed("locked"));
    assert_eq!(state, Clearing::Finished);
    assert_eq!(action, text(500, "清空异常: locked"));
    let (_, action) = clear_all_fields(Clearing::Truncating, failed("locked"));
    assert_eq!(action, text(500, "数据库清空失败: locked"));
    let (_, action) = clear_all_fields(Clearing::Unindexing, failed("timeout"));
    assert_eq!(action, text(206, "DB已清空但向量库失败: timeout"));
    let (_, action) = clear_all_roots(Clearing::Unindexing, failed("timeout"));
    assert_eq!(action, text(206, "DB已清空但向量库失败: timeout"));
}

#[test]
fn prepare_batch_normalizes_and_gives_a_text_for_each_item() {
    let batch = BatchCreateWordRoot { items: vec![draft("a", Some("x,y")), draft("b", None)] };
    let (items, texts) = prepare_batch(batch);
    assert_eq!(items, vec![draft("a", Some("x y")), draft("b", None)]);
    assert_eq!(texts, vec!["a full name x y".to_string(), "b full name ".to_string()]);
}

#[test]
fn tally_counts_each_item_once() {
    let names = vec!["a".to_string(), "b".to_string(), "c".to_string()];
    let results =
        vec![Ok(stored(10, "a", None)), Err("duplicate".to_string()), Ok(stored(11, "c", None))];
    let (report, points, learned) = tally(&names, &results);
    assert_eq!(
        report,
        ImportResult {
            success_count: 2,
            failure_count: 1,
            errors: vec!["行 2: 词根 [b] 失败: duplicate".to_string()],
        }
    );
    assert_eq!(points.len(), 2);
    assert_eq!((points[0].id, points[0].vector), (10, 0));
    assert_eq!((points[1].id, points[1].vector), (11, 2));
    assert_eq!(learned, vec!["a".to_string(), "c".to_string()]);
}

#[test]
fn batch_import_with_one_failure_reports_it_and_indexes_the_rest() {
    let n = 5;
    let k = 3;
    let items: Vec<CreateWordRoot> =
        (0..n).map(|i| draft(&format!("root{}", i), Some("a,b"))).collect();
    let (state, action) =
        batch_create_roots(BatchImport::Received(BatchCreateWordRoot { items }), Event::Start);
    let texts = match action {
        Action::Embed(texts) => texts,
        other => panic!("{:?}", other),
    };
    assert_eq!(texts.len(), n);
    assert_eq!(texts[1], "root1 full name a b");

    let (state, action) = batch_create_roots(state, Event::Embedded(Ok(n)));
    let sent = match action {
        Action::InsertRoots(sent) => sent,
        other => panic!("{:?}", other),
    };
    assert_eq!(sent.len(), n);
    assert_eq!(sent[0], draft("root0", Some("a b")));

    let results: Vec<Result<WordRoot, String>> = (0..n)
        .map(|i| {
            if i == k {
                Err("duplicate key".to_string())
            } else {
                Ok(stored(100 + i as i32, &format!("root{}", i), Some("a b")))
            }
        })
        .collect();
    let (state, action) = batch_create_roots(state, Event::RootBatch(results));
    let learned = match action {
        Action::Learn(learned) => learned,
        other => panic!("{:?}", other),
    };
    assert_eq!(learned, vec!["root0", "root1", "root2", "root4"]);

    let (state, action) = batch_create_roots(state, done());
    let points = match action {
        Action::Upsert { collection: Collection::WordRoots, points } => points,
        other => panic!("{:?}", other),
    };
    assert_eq!(points.len(), n - 1);
    let placed: Vec<(u64, usize)> = points.iter().map(|p| (p.id, p.vector)).collect();
    assert_eq!(placed, vec![(100, 0), (101, 1), (102, 2), (104, 4)]);

    let (state, action) = batch_create_roots(state, failed("index down"));
    assert_eq!(state, BatchImport::Finished);
    assert_eq!(
        action,
        Action::Respond(Reply {
            status: 200,
            body: Body::Import(ImportResult {
                success_count: n - 1,
                failure_count: 1,
                errors: vec!["行 4: 词根 [root3] 失败: duplicate key".to_string()],
            }),
        })
    );
}

#[test]
fn batch_import_stores_the_items_though_the_model_fails() {
    for answer in [Err("no model".to_string()), Ok(2), Ok(0)] {
        let items = vec![draft("a", None), draft("b", None), draft("c", None)];
        let (state, action) = batch_create_roots(BatchImport::Embedding(items), Event::Embedded(answer));
        assert_eq!(
            state,
            BatchImport::Storing {
                names: vec!["a".to_string(), "b".to_string(), "c".to_string()],
                embedded: false
            }
        );
        assert_eq!(
            action,
            Action::InsertRoots(vec![draft("a", None), draft("b", None), draft("c", None)])
        );
        let results =
            vec![Ok(stored(1, "a", None)), Err("duplicate".to_string()), Ok(stored(2, "c", None))];
        let (state, action) = batch_create_roots(state, Event::RootBatch(results));
        assert_eq!(action, Action::Learn(vec!["a".to_string(), "c".to_string()]));
        let (state, action) = batch_create_roots(state, done());
        assert_eq!(state, BatchImport::Finished);
        assert_eq!(
            action,
            Action::Respond(Reply {
                status: 200,
                body: Body::Import(ImportResult {
                    success_count: 2,
                    failure_count: 1,
                    errors: vec!["行 2: 词根 [b] 失败: duplicate".to_string()],
                }),
            })
        );
    }
}

#[test]
fn batch_import_of_refused_items_only_asks_nothing_of_the_index() {
    let names = vec!["a".to_string(), "b".to_string()];
    let results = vec![Err("x".to_string()), Err("y".to_string())];
    let (state, action) = batch_create_roots(
        BatchImport::Storing { names, embedded: true },
        Event::RootBatch(results),
    );
    assert_eq!(state, BatchImport::Finished);
    assert_eq!(
        action,
        Action::Respond(Reply {
            status: 200,
            body: Body::Import(ImportResult {
                success_count: 0,
                failure_count: 2,
                errors: vec![
                    "行 1: 词根 [a] 失败: x".to_string(),
                    "行 2: 词根 [b] 失败: y".to_string()
                ],
            }),
        })
    );
}

#[test]
fn batch_import_of_nothing_reports_nothing() {
    let (state, action) =
        batch_create_roots(BatchImport::Received(BatchCreateWordRoot { items: vec![] }), Event::Start);
    assert_eq!(action, Action::Embed(vec![]));
    let (state, action) = batch_create_roots(state, Event::Embedded(Ok(0)));
    assert_eq!(action, Action::InsertRoots(vec![]));
    let (state, action) = batch_create_roots(state, Event::RootBatch(vec![]));
    assert_eq!(state, BatchImport::Finished);
    assert_eq!(
        action,
        Action::Respond(Reply {
            status: 200,
            body: Body::Import(ImportResult { success_count: 0, failure_count: 0, errors: vec![] }),
        })
    );
}

#[test]
fn batch_import_needs_one_result_for_each_item() {
    let names = vec!["a".to_string(), "b".to_string()];
    let (state, action) = batch_create_roots(
        BatchImport::Storing { names, embedded: true },
        Event::RootBatch(vec![Err("x".to_string())]),
    );
    assert_eq!((state, action), (BatchImport::Failed, Action::Abort));
}
