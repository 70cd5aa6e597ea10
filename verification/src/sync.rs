//! The write path. The store is the source of truth and is written first;
//! only when it took the write are the tokenizer, the embedding model and the
//! vector index asked, and what they answer never fails the request.

use crate::exchange::{
    empty_reply, labelled, responds_empty, responds_text, text_reply, Action, Body, Collection,
    Event, IndexPoint, IndexPointView, Reply,
};
use crate::model::{
    BatchCreateWordRoot, CreateFieldRequest, CreateWordRoot, CreateWordRootView, ImportResult,
    ImportResultView, StandardField, StandardFieldView, WordRoot, WordRootView,
};
use crate::text::{
    copy_text, decimal, normalize_terms, normalized, push_decimal, text_or_empty,
};
use vstd::prelude::*;

verus! {

// ---------------------------------------------------------------------------
// What is written where
// ---------------------------------------------------------------------------
/// The identifier of an entry's point in the vector index: the entry's own
/// identifier, read as an unsigned number of 64 bits.
pub open spec fn point_id_of(id: i32) -> u64 {
    if id >= 0 {
        id as u64
    } else {
        (0x1_0000_0000_0000_0000 + id) as u64
    }
}

/// The identifier of an entry's point in the vector index.
pub fn point_id(id: i32) -> (point: u64)
    ensures
        point == point_id_of(id),
{
    if id >= 0 {
        id as u64
    } else {
        let below: u64 = (-(id + 1)) as u64;
        u64::MAX - below
    }
}

/// A word root's content with its synonyms in normal form.
pub open spec fn normalized_root(draft: CreateWordRootView) -> CreateWordRootView {
    CreateWordRootView {
        associated_terms: match draft.associated_terms {
            Some(terms) => Some(normalized(terms)),
            None => None,
        },
        ..draft
    }
}

/// The text that is embedded for a word root: its name, its full English
/// name and its synonyms, one space apart, an absent part being empty.
pub open spec fn root_text(
    cn_name: Seq<char>,
    en_full_name: Option<Seq<char>>,
    associated_terms: Option<Seq<char>>,
) -> Seq<char> {
    cn_name + seq![' '] + text_or_empty(en_full_name) + seq![' '] + text_or_empty(associated_terms)
}

/// The text that is embedded for a standard field: its name and its
/// synonyms, one space apart, absent synonyms being empty.
pub open spec fn field_text(field_cn_name: Seq<char>, associated_terms: Option<Seq<char>>) -> Seq<
    char,
> {
    field_cn_name + seq![' '] + text_or_empty(associated_terms)
}

/// The point of a word root: its display names under `cn_name` and `en_abbr`.
pub open spec fn root_point(root: WordRootView, vector: usize) -> IndexPointView {
    IndexPointView {
        id: point_id_of(root.id),
        vector,
        payload: seq![("cn_name"@, root.cn_name), ("en_abbr"@, root.en_abbr)],
    }
}

/// The point of a standard field: its display names under `cn_name` and
/// `en_name`.
pub open spec fn field_point(field: StandardFieldView, vector: usize) -> IndexPointView {
    IndexPointView {
        id: point_id_of(field.id),
        vector,
        payload: seq![("cn_name"@, field.field_cn_name), ("en_name"@, field.field_en_name)],
    }
}

/// A word root's content with its synonyms in normal form.
pub fn normalize_root(draft: CreateWordRoot) -> (out: CreateWordRoot)
    ensures
        out@ == normalized_root(draft@),
{
    CreateWordRoot {
        cn_name: draft.cn_name,
        en_abbr: draft.en_abbr,
        en_full_name: draft.en_full_name,
        associated_terms: normalize_terms(draft.associated_terms),
        remark: draft.remark,
    }
}

/// Appends the text of an optional part.
fn append_part(out: &mut String, part: &Option<String>)
    ensures
        final(out)@ == old(out)@ + text_or_empty(part.deep_view()),
{
    match part {
        Some(text) => {
            out.append(text.as_str());
        },
        None => {
            assert(out@ + Seq::<char>::empty() =~= out@);
        },
    }
}

/// The text that is embedded for a word root.
pub fn root_embedding_text(
    cn_name: &str,
    en_full_name: &Option<String>,
    associated_terms: &Option<String>,
) -> (text: String)
    ensures
        text@ == root_text(cn_name@, en_full_name.deep_view(), associated_terms.deep_view()),
{
    let mut text = copy_text(cn_name);
    text.push(' ');
    append_part(&mut text, en_full_name);
    text.push(' ');
    append_part(&mut text, associated_terms);
    assert(text@ =~= root_text(cn_name@, en_full_name.deep_view(), associated_terms.deep_view()));
    text
}

/// The text that is embedded for a standard field.
pub fn field_embedding_text(field_cn_name: &str, associated_terms: &Option<String>) -> (text: String)
    ensures
        text@ == field_text(field_cn_name@, associated_terms.deep_view()),
{
    let mut text = copy_text(field_cn_name);
    text.push(' ');
    append_part(&mut text, associated_terms);
    assert(text@ =~= field_text(field_cn_name@, associated_terms.deep_view()));
    text
}

/// A payload of two texts.
fn payload_of(first_key: &str, first: &str, second_key: &str, second: &str) -> (payload: Vec<
    (String, String),
>)
    ensures
        payload.deep_view() == seq![(first_key@, first@), (second_key@, second@)],
{
    let mut payload: Vec<(String, String)> = Vec::new();
    payload.push((copy_text(first_key), copy_text(first)));
    payload.push((copy_text(second_key), copy_text(second)));
    assert(payload.deep_view() =~= seq![(first_key@, first@), (second_key@, second@)]);
    payload
}

/// The point of a word root, with the vector at index `vector`.
pub fn point_of_root(root: &WordRoot, vector: usize) -> (point: IndexPoint)
    ensures
        point@ == root_point(root@, vector),
{
    IndexPoint {
        id: point_id(root.id),
        vector,
        payload: payload_of("cn_name", root.cn_name.as_str(), "en_abbr", root.en_abbr.as_str()),
    }
}

/// The point of a standard field, with the vector at index `vector`.
pub fn point_of_field(field: &StandardField, vector: usize) -> (point: IndexPoint)
    ensures
        point@ == field_point(field@, vector),
{
    IndexPoint {
        id: point_id(field.id),
        vector,
        payload: payload_of(
            "cn_name",
            field.field_cn_name.as_str(),
            "en_name",
            field.field_en_name.as_str(),
        ),
    }
}

/// One item in a list.
pub fn single<T: DeepView>(item: T) -> (list: Vec<T>)
    ensures
        list.deep_view() == seq![item.deep_view()],
        list@ == seq![item],
{
    let mut list: Vec<T> = Vec::new();
    list.push(item);
    assert(list.deep_view() =~= seq![item.deep_view()]);
    list
}

// ---------------------------------------------------------------------------
// Writing a word root
// ---------------------------------------------------------------------------
/// Where the writing of a word root stands.
#[derive(Debug, PartialEq, Eq)]
pub enum RootWrite {
    /// A request to create a root, not yet acted on.
    Create(CreateWordRoot),
    /// A request to replace the content of the root with this identifier,
    /// not yet acted on.
    Update(i32, CreateWordRoot),
    /// The store was asked to write.
    Storing,
    /// The store holds the root; the tokenizer was asked to learn its name.
    Learning(WordRoot),
    /// The model was asked to embed the root.
    Embedding(WordRoot),
    /// The index was asked to take the root's point.
    Indexing(WordRoot),
    /// The request was answered.
    Finished,
    /// An event came that answers nothing.
    Failed,
}

/// The answer to a word root written: the root itself for one created, only
/// a status for one changed.
pub open spec fn root_written(creating: bool, root: WordRootView, action: Action) -> bool {
    if creating {
        action matches Action::Respond(reply) && reply.status == 201 && (reply.body matches Body::Root(
            body,
        ) && body@ == root)
    } else {
        responds_empty(action, 200)
    }
}

/// The message that starts the answer to a write that the store refused.
pub open spec fn root_refusal(creating: bool) -> Seq<char> {
    if creating {
        "创建失败: "@
    } else {
        "更新失败: "@
    }
}

/// One step in the writing of a word root.
///
/// The content is stored first, its synonyms in normal form. A refusal of the
/// store is the answer, and nothing else is asked. Once stored, the name is
/// learned, the root embedded and its point written under the root's own
/// identifier; if the model or the index fails, the request still succeeds.
pub open spec fn root_write_step(
    creating: bool,
    state: RootWrite,
    event: Event,
    next: RootWrite,
    action: Action,
) -> bool {
    match (state, event) {
        (RootWrite::Create(draft), Event::Start) if creating => {
            &&& next is Storing
            &&& action matches Action::InsertRoot(content)
            &&& content@ == normalized_root(draft@)
        },
        (RootWrite::Update(id, draft), Event::Start) if !creating => {
            &&& next is Storing
            &&& action matches Action::UpdateRoot(target, content)
            &&& target == id
            &&& content@ == normalized_root(draft@)
        },
        (RootWrite::Storing, Event::Root(Ok(root))) => {
            &&& next matches RootWrite::Learning(kept)
            &&& kept@ == root@
            &&& action matches Action::Learn(terms)
            &&& terms.deep_view() == seq![root.cn_name@]
        },
        (RootWrite::Storing, Event::Root(Err(refusal))) => {
            &&& next is Finished
            &&& responds_text(action, 500, root_refusal(creating) + refusal@)
        },
        (RootWrite::Learning(root), Event::Completed(_)) => {
            &&& next matches RootWrite::Embedding(kept)
            &&& kept@ == root@
            &&& action matches Action::Embed(texts)
            &&& texts.deep_view() == seq![
                root_text(
                    root.cn_name@,
                    root.en_full_name.deep_view(),
                    root.associated_terms.deep_view(),
                ),
            ]
        },
        (RootWrite::Embedding(root), Event::Embedded(Ok(vectors))) if vectors >= 1 => {
            &&& next matches RootWrite::Indexing(kept)
            &&& kept@ == root@
            &&& action matches Action::Upsert { collection, points }
            &&& collection == Collection::WordRoots
            &&& points.deep_view() == seq![root_point(root@, 0)]
        },
        (RootWrite::Embedding(root), Event::Embedded(_)) => {
            &&& next is Finished
            &&& root_written(creating, root@, action)
        },
        (RootWrite::Indexing(root), Event::Completed(_)) => {
            &&& next is Finished
            &&& root_written(creating, root@, action)
        },
        _ => next is Failed && action is Abort,
    }
}

/// A word root that the store took reaches the tokenizer and the index: its
/// name is handed on to be learned, and once the model has embedded it, one
/// point is written to the collection of the word roots under the root's own
/// identifier. This holds of a root created and of a root changed.
pub proof fn lemma_stored_root_is_learned_and_indexed(
    creating: bool,
    root: WordRoot,
    learned: Result<(), String>,
    vectors: usize,
    learning: RootWrite,
    learn: Action,
    embedding: RootWrite,
    embed: Action,
    indexing: RootWrite,
    index: Action,
)
    requires
        vectors >= 1,
        root_write_step(creating, RootWrite::Storing, Event::Root(Ok(root)), learning, learn),
        root_write_step(creating, learning, Event::Completed(learned), embedding, embed),
        root_write_step(creating, embedding, Event::Embedded(Ok(vectors)), indexing, index),
    ensures
        learn matches Action::Learn(terms) && terms.deep_view() == seq![root.cn_name@],
        index matches Action::Upsert { collection, points } && collection == Collection::WordRoots
            && points.len() == 1 && points[0].id == point_id_of(root.id),
{
    assert(learning is Learning);
    assert(embedding is Embedding);
    assert(index is Upsert);
    if let Action::Upsert { collection, points } = index {
        let sent = points.deep_view();
        assert(sent == seq![root_point(root@, 0)]);
        assert(sent.len() == 1);
        assert(sent.len() == points@.len());
        assert(sent[0] == points@[0].deep_view());
    }
}

/// The answer to a word root written.
fn answer_root(creating: bool, root: WordRoot) -> (action: Action)
    ensures
        root_written(creating, root@, action),
{
    if creating {
        Action::Respond(Reply { status: 201, body: Body::Root(root) })
    } else {
        empty_reply(200)
    }
}

fn write_root(creating: bool, state: RootWrite, event: Event) -> (step: (RootWrite, Action))
    ensures
        root_write_step(creating, state, event, step.0, step.1),
{
    match (state, event) {
        (RootWrite::Create(draft), Event::Start) => {
            if creating {
                (RootWrite::Storing, Action::InsertRoot(normalize_root(draft)))
            } else {
                (RootWrite::Failed, Action::Abort)
            }
        },
        (RootWrite::Update(id, draft), Event::Start) => {
            if !creating {
                (RootWrite::Storing, Action::UpdateRoot(id, normalize_root(draft)))
            } else {
                (RootWrite::Failed, Action::Abort)
            }
        },
        (RootWrite::Storing, Event::Root(Ok(root))) => {
            let terms = single(copy_text(root.cn_name.as_str()));
            (RootWrite::Learning(root), Action::Learn(terms))
        },
        (RootWrite::Storing, Event::Root(Err(refusal))) => {
            let label = if creating {
                "创建失败: "
            } else {
                "更新失败: "
            };
            (RootWrite::Finished, text_reply(500, labelled(label, refusal.as_str())))
        },
        (RootWrite::Learning(root), Event::Completed(_)) => {
            let text = root_embedding_text(
                root.cn_name.as_str(),
                &root.en_full_name,
                &root.associated_terms,
            );
            (RootWrite::Embedding(root), Action::Embed(single(text)))
        },
        (RootWrite::Embedding(root), Event::Embedded(embedded)) => {
            match embedded {
                Ok(vectors) => {
                    if vectors >= 1 {
                        let points = single(point_of_root(&root, 0));
                        (
                            RootWrite::Indexing(root),
                            Action::Upsert { collection: Collection::WordRoots, points },
                        )
                    } else {
                        (RootWrite::Finished, answer_root(creating, root))
                    }
                },
                Err(_) => (RootWrite::Finished, answer_root(creating, root)),
            }
        },
        (RootWrite::Indexing(root), Event::Completed(_)) => {
            (RootWrite::Finished, answer_root(creating, root))
        },
        _ => (RootWrite::Failed, Action::Abort),
    }
}

/// One step in the creation of a word root: see `root_write_step`. The flow
/// starts in `RootWrite::Create` with `Event::Start` and ends with the root
/// and status 201, or with the store's refusal and status 500.
pub fn create_root(state: RootWrite, event: Event) -> (step: (RootWrite, Action))
    ensures
        root_write_step(true, state, event, step.0, step.1),
{
    write_root(true, state, event)
}

/// One step in the change of a word root: see `root_write_step`. The flow
/// starts in `RootWrite::Update` with `Event::Start` and ends with status
/// 200, or with the store's refusal and status 500.
pub fn update_root(state: RootWrite, event: Event) -> (step: (RootWrite, Action))
    ensures
        root_write_step(false, state, event, step.0, step.1),
{
    write_root(false, state, event)
}

// ---------------------------------------------------------------------------
// Writing a standard field
// ---------------------------------------------------------------------------
/// Where the writing of a standard field stands.
#[derive(Debug, PartialEq, Eq)]
pub enum FieldWrite {
    /// A request to create a field, not yet acted on.
    Create(CreateFieldRequest),
    /// A request to replace the content of the field with this identifier,
    /// not yet acted on.
    Update(i32, CreateFieldRequest),
    /// The store was asked to write.
    Storing,
    /// The model was asked to embed the field.
    Embedding(StandardField),
    /// The index was asked to take the field's point.
    Indexing(StandardField),
    /// The request was answered.
    Finished,
    /// An event came that answers nothing.
    Failed,
}

/// The answer to a field written: the field itself for one created, only a
/// status for one changed.
pub open spec fn field_written(creating: bool, field: StandardFieldView, action: Action) -> bool {
    if creating {
        action matches Action::Respond(reply) && reply.status == 201 && (reply.body matches Body::Field(
            body,
        ) && body@ == field)
    } else {
        responds_empty(action, 200)
    }
}

/// The message that starts the answer to a write that the store refused.
pub open spec fn field_refusal(creating: bool) -> Seq<char> {
    if creating {
        "数据库错误: "@
    } else {
        "更新失败: "@
    }
}

/// One step in the writing of a standard field.
///
/// The content is stored first, as it came: whether the identifiers of its
/// composition name word roots is left to the store. A refusal of the store
/// is the answer, and nothing else is asked. Once stored, the field is embedded and
/// its point written under the field's own identifier; if the model or the
/// index fails, the request still succeeds.
pub open spec fn field_write_step(
    creating: bool,
    state: FieldWrite,
    event: Event,
    next: FieldWrite,
    action: Action,
) -> bool {
    match (state, event) {
        (FieldWrite::Create(draft), Event::Start) if creating => {
            &&& next is Storing
            &&& action matches Action::InsertField(content)
            &&& content@ == draft@
        },
        (FieldWrite::Update(id, draft), Event::Start) if !creating => {
            &&& next is Storing
            &&& action matches Action::UpdateField(target, content)
            &&& target == id
            &&& content@ == draft@
        },
        (FieldWrite::Storing, Event::Field(Ok(field))) => {
            &&& next matches FieldWrite::Embedding(kept)
            &&& kept@ == field@
            &&& action matches Action::Embed(texts)
            &&& texts.deep_view() == seq![
                field_text(field.field_cn_name@, field.associated_terms.deep_view()),
            ]
        },
        (FieldWrite::Storing, Event::Field(Err(refusal))) => {
            &&& next is Finished
            &&& responds_text(action, 500, field_refusal(creating) + refusal@)
        },
        (FieldWrite::Embedding(field), Event::Embedded(Ok(vectors))) if vectors >= 1 => {
            &&& next matches FieldWrite::Indexing(kept)
            &&& kept@ == field@
            &&& action matches Action::Upsert { collection, points }
            &&& collection == Collection::StandardFields
            &&& points.deep_view() == seq![field_point(field@, 0)]
        },
        (FieldWrite::Embedding(field), Event::Embedded(_)) => {
            &&& next is Finished
            &&& field_written(creating, field@, action)
        },
        (FieldWrite::Indexing(field), Event::Completed(_)) => {
            &&& next is Finished
            &&& field_written(creating, field@, action)
        },
        _ => next is Failed && action is Abort,
    }
}

/// The answer to a field written.
fn answer_field(creating: bool, field: StandardField) -> (action: Action)
    ensures
        field_written(creating, field@, action),
{
    if creating {
        Action::Respond(Reply { status: 201, body: Body::Field(field) })
    } else {
        empty_reply(200)
    }
}

fn write_field(creating: bool, state: FieldWrite, event: Event) -> (step: (FieldWrite, Action))
    ensures
        field_write_step(creating, state, event, step.0, step.1),
{
    match (state, event) {
        (FieldWrite::Create(draft), Event::Start) => {
            if creating {
                (FieldWrite::Storing, Action::InsertField(draft))
            } else {
                (FieldWrite::Failed, Action::Abort)
            }
        },
        (FieldWrite::Update(id, draft), Event::Start) => {
            if !creating {
                (FieldWrite::Storing, Action::UpdateField(id, draft))
            } else {
                (FieldWrite::Failed, Action::Abort)
            }
        },
        (FieldWrite::Storing, Event::Field(Ok(field))) => {
            let text = field_embedding_text(field.field_cn_name.as_str(), &field.associated_terms);
            (FieldWrite::Embedding(field), Action::Embed(single(text)))
        },
        (FieldWrite::Storing, Event::Field(Err(refusal))) => {
            let label = if creating {
                "数据库错误: "
            } else {
                "更新失败: "
            };
            (FieldWrite::Finished, text_reply(500, labelled(label, refusal.as_str())))
        },
        (FieldWrite::Embedding(field), Event::Embedded(embedded)) => {
            match embedded {
                Ok(vectors) => {
                    if vectors >= 1 {
                        let points = single(point_of_field(&field, 0));
                        (
                            FieldWrite::Indexing(field),
                            Action::Upsert { collection: Collection::StandardFields, points },
                        )
                    } else {
                        (FieldWrite::Finished, answer_field(creating, field))
                    }
                },
                Err(_) => (FieldWrite::Finished, answer_field(creating, field)),
            }
        },
        (FieldWrite::Indexing(field), Event::Completed(_)) => {
            (FieldWrite::Finished, answer_field(creating, field))
        },
        _ => (FieldWrite::Failed, Action::Abort),
    }
}

/// One step in the creation of a standard field: see `field_write_step`.
/// The flow starts in `FieldWrite::Create` with `Event::Start` and ends with
/// the field and status 201, or with the store's refusal and status 500.
pub fn create_field(state: FieldWrite, event: Event) -> (step: (FieldWrite, Action))
    ensures
        field_write_step(true, state, event, step.0, step.1),
{
    write_field(true, state, event)
}

/// One step in the change of a standard field: see `field_write_step`. The
/// flow starts in `FieldWrite::Update` with `Event::Start` and ends with
/// status 200, or with the store's refusal and status 500.
pub fn update_field(state: FieldWrite, event: Event) -> (step: (FieldWrite, Action))
    ensures
        field_write_step(false, state, event, step.0, step.1),
{
    write_field(false, state, event)
}

// ---------------------------------------------------------------------------
// Deleting an entry
// ---------------------------------------------------------------------------
/// Where the deletion of an entry stands.
#[derive(Debug, PartialEq, Eq)]
pub enum Removal {
    /// A request to delete the entry with this identifier, not yet acted on.
    Requested(i32),
    /// The store was asked to delete the entry.
    Deleting(i32),
    /// The index was asked to delete the entry's point.
    Unindexing,
    /// The request was answered.
    Finished,
    /// An event came that answers nothing.
    Failed,
}

/// The message that starts the answer to a deletion that the store refused.
pub open spec fn removal_refusal(collection: Collection) -> Seq<char> {
    match collection {
        Collection::WordRoots => "删除异常: "@,
        Collection::StandardFields => "删除失败: "@,
    }
}

/// One step in the deletion of an entry.
///
/// The entry is deleted from the store first. Only if that deleted a row is
/// the index asked to delete the point of the same identifier, and the answer
/// is status 204 whatever the index says. If no row was deleted the answer is
/// status 404, and the index is not asked.
pub open spec fn removal_step(
    collection: Collection,
    state: Removal,
    event: Event,
    next: Removal,
    action: Action,
) -> bool {
    match (state, event) {
        (Removal::Requested(id), Event::Start) => {
            &&& next == Removal::Deleting(id)
            &&& action == Action::Delete(collection, id)
        },
        (Removal::Deleting(id), Event::Affected(Ok(rows))) => if rows > 0 {
            &&& next is Unindexing
            &&& action matches Action::DeletePoints { collection: from, ids }
            &&& from == collection
            &&& ids@ == seq![point_id_of(id)]
        } else {
            &&& next is Finished
            &&& responds_empty(action, 404)
        },
        (Removal::Deleting(_), Event::Affected(Err(refusal))) => {
            &&& next is Finished
            &&& responds_text(action, 500, removal_refusal(collection) + refusal@)
        },
        (Removal::Unindexing, Event::Completed(_)) => {
            &&& next is Finished
            &&& responds_empty(action, 204)
        },
        _ => next is Failed && action is Abort,
    }
}

/// A deletion that affected no row is answered "not found", and no step of
/// a deletion that has not seen a row deleted asks anything of the index.
pub proof fn lemma_nothing_deleted_leaves_index_alone(
    collection: Collection,
    state: Removal,
    event: Event,
    next: Removal,
    action: Action,
)
    requires
        removal_step(collection, state, event, next, action),
    ensures
        state is Deleting && event == Event::Affected(Ok(0)) ==> next is Finished && responds_empty(
            action,
            404,
        ),
        action is DeletePoints ==> state is Deleting && (event matches Event::Affected(Ok(rows))
            && rows > 0),
        !(action is Upsert) && !(action is DeleteAllPoints),
{
}

fn remove_entry(collection: Collection, state: Removal, event: Event) -> (step: (Removal, Action))
    ensures
        removal_step(collection, state, event, step.0, step.1),
{
    match (state, event) {
        (Removal::Requested(id), Event::Start) => {
            (Removal::Deleting(id), Action::Delete(collection, id))
        },
        (Removal::Deleting(id), Event::Affected(Ok(rows))) => {
            if rows > 0 {
                let mut ids: Vec<u64> = Vec::new();
                ids.push(point_id(id));
                (Removal::Unindexing, Action::DeletePoints { collection, ids })
            } else {
                (Removal::Finished, empty_reply(404))
            }
        },
        (Removal::Deleting(_), Event::Affected(Err(refusal))) => {
            let label = match collection {
                Collection::WordRoots => "删除异常: ",
                Collection::StandardFields => "删除失败: ",
            };
            (Removal::Finished, text_reply(500, labelled(label, refusal.as_str())))
        },
        (Removal::Unindexing, Event::Completed(_)) => (Removal::Finished, empty_reply(204)),
        _ => (Removal::Failed, Action::Abort),
    }
}

/// One step in the deletion of a word root: see `removal_step`.
pub fn delete_root(state: Removal, event: Event) -> (step: (Removal, Action))
    ensures
        removal_step(Collection::WordRoots, state, event, step.0, step.1),
{
    remove_entry(Collection::WordRoots, state, event)
}

/// One step in the deletion of a standard field: see `removal_step`.
pub fn delete_field(state: Removal, event: Event) -> (step: (Removal, Action))
    ensures
        removal_step(Collection::StandardFields, state, event, step.0, step.1),
{
    remove_entry(Collection::StandardFields, state, event)
}

// ---------------------------------------------------------------------------
// Clearing a kind of entry
// ---------------------------------------------------------------------------
/// Where the clearing of all entries of a kind stands.
#[derive(Debug, PartialEq, Eq)]
pub enum Clearing {
    /// A request to clear, not yet acted on.
    Requested,
    /// The store was asked to delete every entry.
    Truncating,
    /// The index was asked to delete every point.
    Unindexing,
    /// The request was answered.
    Finished,
    /// An event came that answers nothing.
    Failed,
}

/// The answer to a clearing that went through.
pub open spec fn cleared_message(collection: Collection) -> Seq<char> {
    match collection {
        Collection::WordRoots => "所有词根数据已成功清空"@,
        Collection::StandardFields => "标准字段库已完全清空"@,
    }
}

/// The message that starts the answer to a clearing that the store refused.
pub open spec fn clearing_refusal(collection: Collection) -> Seq<char> {
    match collection {
        Collection::WordRoots => "清空异常: "@,
        Collection::StandardFields => "数据库清空失败: "@,
    }
}

/// The message that starts the answer to a clearing that the store performed
/// and the index did not.
pub open spec fn half_cleared_message() -> Seq<char> {
    "DB已清空但向量库失败: "@
}

/// One step in the clearing of a kind of entry.
///
/// The store is cleared first; its refusal is the answer, with status 500.
/// Then the index is asked to delete every point of the collection. If it
/// does, the answer is status 200; if it fails, the store stays cleared and
/// the answer says so, with status 206.
pub open spec fn clearing_step(
    collection: Collection,
    state: Clearing,
    event: Event,
    next: Clearing,
    action: Action,
) -> bool {
    match (state, event) {
        (Clearing::Requested, Event::Start) => {
            &&& next is Truncating
            &&& action == Action::Truncate(collection)
        },
        (Clearing::Truncating, Event::Completed(Ok(_))) => {
            &&& next is Unindexing
            &&& action == Action::DeleteAllPoints(collection)
        },
        (Clearing::Truncating, Event::Completed(Err(refusal))) => {
            &&& next is Finished
            &&& responds_text(action, 500, clearing_refusal(collection) + refusal@)
        },
        (Clearing::Unindexing, Event::Completed(Ok(_))) => {
            &&& next is Finished
            &&& responds_text(action, 200, cleared_message(collection))
        },
        (Clearing::Unindexing, Event::Completed(Err(failure))) => {
            &&& next is Finished
            &&& responds_text(action, 206, half_cleared_message() + failure@)
        },
        _ => next is Failed && action is Abort,
    }
}

fn clear_entries(collection: Collection, state: Clearing, event: Event) -> (step: (
    Clearing,
    Action,
))
    ensures
        clearing_step(collection, state, event, step.0, step.1),
{
    match (state, event) {
        (Clearing::Requested, Event::Start) => (Clearing::Truncating, Action::Truncate(collection)),
        (Clearing::Truncating, Event::Completed(Ok(_))) => {
            (Clearing::Unindexing, Action::DeleteAllPoints(collection))
        },
        (Clearing::Truncating, Event::Completed(Err(refusal))) => {
            let label = match collection {
                Collection::WordRoots => "清空异常: ",
                Collection::StandardFields => "数据库清空失败: ",
            };
            (Clearing::Finished, text_reply(500, labelled(label, refusal.as_str())))
        },
        (Clearing::Unindexing, Event::Completed(Ok(_))) => {
            let message = match collection {
                Collection::WordRoots => "所有词根数据已成功清空",
                Collection::StandardFields => "标准字段库已完全清空",
            };
            (Clearing::Finished, text_reply(200, copy_text(message)))
        },
        (Clearing::Unindexing, Event::Completed(Err(failure))) => {
            (
                Clearing::Finished,
                text_reply(206, labelled("DB已清空但向量库失败: ", failure.as_str())),
            )
        },
        _ => (Clearing::Failed, Action::Abort),
    }
}

/// One step in the clearing of all word roots: see `clearing_step`.
pub fn clear_all_roots(state: Clearing, event: Event) -> (step: (Clearing, Action))
    ensures
        clearing_step(Collection::WordRoots, state, event, step.0, step.1),
{
    clear_entries(Collection::WordRoots, state, event)
}

/// One step in the clearing of all standard fields: see `clearing_step`.
pub fn clear_all_fields(state: Clearing, event: Event) -> (step: (Clearing, Action))
    ensures
        clearing_step(Collection::StandardFields, state, event, step.0, step.1),
{
    clear_entries(Collection::StandardFields, state, event)
}

// ---------------------------------------------------------------------------
// Importing word roots in a batch
// ---------------------------------------------------------------------------
/// Where a batch import stands.
#[derive(Debug, PartialEq, Eq)]
pub enum BatchImport {
    /// A request to import these items, not yet acted on.
    Received(BatchCreateWordRoot),
    /// The model was asked to embed all items at once.
    Embedding(Vec<CreateWordRoot>),
    /// The store was asked to write the items with these names; `embedded`
    /// says whether the model gave a vector for each.
    Storing { names: Vec<String>, embedded: bool },
    /// The tokenizer was asked to learn the names of the items stored; the
    /// points are those that the index is to take, none where the model
    /// gave no vectors.
    Learning { report: ImportResult, points: Vec<IndexPoint> },
    /// The index was asked to take the points of the items stored.
    Indexing(ImportResult),
    /// The request was answered.
    Finished,
    /// An event came that answers nothing.
    Failed,
}

/// The result of one item's write, seen through the views.
pub open spec fn outcome_of(result: Result<WordRoot, String>) -> Result<WordRootView, Seq<char>> {
    match result {
        Ok(root) => Ok(root@),
        Err(refusal) => Err(refusal@),
    }
}

/// The results of a batch's writes, seen through the views.
pub open spec fn outcomes_of(results: Seq<Result<WordRoot, String>>) -> Seq<
    Result<WordRootView, Seq<char>>,
> {
    results.map_values(|result: Result<WordRoot, String>| outcome_of(result))
}

/// The items of a batch, each with its synonyms in normal form.
pub open spec fn normalized_batch(items: Seq<CreateWordRootView>) -> Seq<CreateWordRootView> {
    items.map_values(|draft: CreateWordRootView| normalized_root(draft))
}

/// The texts that are embedded for the items of a batch, in order.
pub open spec fn batch_texts(items: Seq<CreateWordRootView>) -> Seq<Seq<char>> {
    items.map_values(
        |draft: CreateWordRootView|
            root_text(draft.cn_name, draft.en_full_name, draft.associated_terms),
    )
}

/// The names of the items of a batch, in order.
pub open spec fn batch_names(items: Seq<CreateWordRootView>) -> Seq<Seq<char>> {
    items.map_values(|draft: CreateWordRootView| draft.cn_name)
}

/// The message for the item in row `row` (counted from one) that the store
/// refused.
pub open spec fn row_error(row: nat, name: Seq<char>, refusal: Seq<char>) -> Seq<char> {
    "行 "@ + decimal(row) + ": 词根 ["@ + name + "] 失败: "@ + refusal
}

/// One message for each item that the store refused, in order.
pub open spec fn import_errors(
    names: Seq<Seq<char>>,
    outcomes: Seq<Result<WordRootView, Seq<char>>>,
) -> Seq<Seq<char>>
    decreases outcomes.len(),
{
    if outcomes.len() == 0 {
        Seq::empty()
    } else {
        let earlier = import_errors(names, outcomes.drop_last());
        match outcomes.last() {
            Ok(_) => earlier,
            Err(refusal) => earlier.push(
                row_error(outcomes.len(), names[outcomes.len() - 1], refusal),
            ),
        }
    }
}

/// One point for each item that the store took, in order; the point of the
/// item at index `k` has the vector at index `k`.
pub open spec fn import_points(outcomes: Seq<Result<WordRootView, Seq<char>>>) -> Seq<
    IndexPointView,
>
    decreases outcomes.len(),
{
    if outcomes.len() == 0 {
        Seq::empty()
    } else {
        let earlier = import_points(outcomes.drop_last());
        match outcomes.last() {
            Ok(root) => earlier.push(root_point(root, (outcomes.len() - 1) as usize)),
            Err(_) => earlier,
        }
    }
}

/// The names of the items that the store took, in order.
pub open spec fn import_names(outcomes: Seq<Result<WordRootView, Seq<char>>>) -> Seq<Seq<char>>
    decreases outcomes.len(),
{
    if outcomes.len() == 0 {
        Seq::empty()
    } else {
        let earlier = import_names(outcomes.drop_last());
        match outcomes.last() {
            Ok(root) => earlier.push(root.cn_name),
            Err(_) => earlier,
        }
    }
}

/// What a batch import reports.
pub open spec fn import_report(
    names: Seq<Seq<char>>,
    outcomes: Seq<Result<WordRootView, Seq<char>>>,
) -> ImportResultView {
    ImportResultView {
        success_count: import_points(outcomes).len() as usize,
        failure_count: import_errors(names, outcomes).len() as usize,
        errors: import_errors(names, outcomes),
    }
}

/// Every item is counted once: as stored, with a point and a name to learn,
/// or as refused, with a message.
pub proof fn lemma_import_counts(
    names: Seq<Seq<char>>,
    outcomes: Seq<Result<WordRootView, Seq<char>>>,
)
    ensures
        import_points(outcomes).len() + import_errors(names, outcomes).len() == outcomes.len(),
        import_names(outcomes).len() == import_points(outcomes).len(),
        forall|k: int|
            0 <= k < import_points(outcomes).len() ==> (#[trigger] import_points(
                outcomes,
            )[k]).vector < outcomes.len(),
    decreases outcomes.len(),
{
    if outcomes.len() > 0 {
        lemma_import_counts(names, outcomes.drop_last());
    }
}

/// A batch whose items the store took, all of them, has no message and a
/// point for each item.
pub proof fn lemma_import_without_failure(
    names: Seq<Seq<char>>,
    outcomes: Seq<Result<WordRootView, Seq<char>>>,
)
    requires
        forall|j: int| 0 <= j < outcomes.len() ==> (#[trigger] outcomes[j]) is Ok,
    ensures
        import_errors(names, outcomes).len() == 0,
        import_points(outcomes).len() == outcomes.len(),
    decreases outcomes.len(),
{
    if outcomes.len() > 0 {
        let front = outcomes.drop_last();
        assert forall|j: int| 0 <= j < front.len() implies (#[trigger] front[j]) is Ok by {
            assert(front[j] == outcomes[j]);
        }
        lemma_import_without_failure(names, front);
        assert(outcomes.last() == outcomes[outcomes.len() - 1]);
    }
}

/// A batch of N items of which the store refused exactly one reports N-1
/// items stored and one refused, and hands exactly N-1 points to the index.
pub proof fn lemma_import_with_one_failure(
    names: Seq<Seq<char>>,
    outcomes: Seq<Result<WordRootView, Seq<char>>>,
    failed: int,
)
    requires
        outcomes.len() <= usize::MAX,
        0 <= failed < outcomes.len(),
        outcomes[failed] is Err,
        forall|j: int| 0 <= j < outcomes.len() && j != failed ==> (#[trigger] outcomes[j]) is Ok,
    ensures
        import_report(names, outcomes).success_count == outcomes.len() - 1,
        import_report(names, outcomes).failure_count == 1,
        import_points(outcomes).len() == outcomes.len() - 1,
    decreases outcomes.len(),
{
    let front = outcomes.drop_last();
    let last = outcomes.len() - 1;
    assert(outcomes.last() == outcomes[last]);
    if failed == last {
        assert forall|j: int| 0 <= j < front.len() implies (#[trigger] front[j]) is Ok by {
            assert(front[j] == outcomes[j]);
        }
        lemma_import_without_failure(names, front);
    } else {
        assert(front[failed] == outcomes[failed]);
        assert forall|j: int| 0 <= j < front.len() && j != failed implies (
        #[trigger] front[j]) is Ok by {
            assert(front[j] == outcomes[j]);
        }
        lemma_import_with_one_failure(names, front, failed);
    }
}

/// Whether the action answers the request with this status and this report.
pub open spec fn responds_import(action: Action, status: u16, report: ImportResultView) -> bool {
    action matches Action::Respond(reply) && reply.status == status && (reply.body matches Body::Import(
        body,
    ) && body@ == report)
}

/// The points that the index is to take for a batch: one for each item
/// stored where the model gave a vector for each item, none where it did not.
pub open spec fn batch_points(
    embedded: bool,
    outcomes: Seq<Result<WordRootView, Seq<char>>>,
) -> Seq<IndexPointView> {
    if embedded {
        import_points(outcomes)
    } else {
        Seq::empty()
    }
}

/// One step of a batch import.
///
/// The synonyms of every item are brought into normal form, and all items
/// are embedded in one call. Whatever the model answers, the store is then
/// asked to write each item on its own: a failure of the model fails no
/// import. An item that the store refuses becomes a message in the report
/// and gets no point. The names of the others are learned, and their points
/// are written in one call, each point with the vector of its own item;
/// where the model failed, or gave another number of vectors than there are
/// items, no point is written. The answer is the report, with status 200,
/// whatever the index says.
pub open spec fn batch_import_step(
    state: BatchImport,
    event: Event,
    next: BatchImport,
    action: Action,
) -> bool {
    match (state, event) {
        (BatchImport::Received(batch), Event::Start) => {
            &&& next matches BatchImport::Embedding(items)
            &&& items.deep_view() == normalized_batch(batch@)
            &&& action matches Action::Embed(texts)
            &&& texts.deep_view() == batch_texts(normalized_batch(batch@))
        },
        (BatchImport::Embedding(items), Event::Embedded(answer)) => {
            &&& next matches BatchImport::Storing { names, embedded }
            &&& names.deep_view() == batch_names(items.deep_view())
            &&& embedded == (answer matches Ok(vectors) && vectors == items.len())
            &&& action matches Action::InsertRoots(content)
            &&& content.deep_view() == items.deep_view()
        },
        (BatchImport::Storing { names, embedded }, Event::RootBatch(results)) if results.len()
            == names.len() => {
            let outcomes = outcomes_of(results@);
            if import_names(outcomes).len() == 0 {
                &&& next is Finished
                &&& responds_import(action, 200, import_report(names.deep_view(), outcomes))
            } else {
                &&& next matches BatchImport::Learning { report, points }
                &&& report@ == import_report(names.deep_view(), outcomes)
                &&& points.deep_view() == batch_points(embedded, outcomes)
                &&& action matches Action::Learn(terms)
                &&& terms.deep_view() == import_names(outcomes)
            }
        },
        (BatchImport::Learning { report, points }, Event::Completed(_)) => if points.len() > 0 {
            &&& next matches BatchImport::Indexing(kept)
            &&& kept@ == report@
            &&& action matches Action::Upsert { collection, points: sent }
            &&& collection == Collection::WordRoots
            &&& sent.deep_view() == points.deep_view()
        } else {
            &&& next is Finished
            &&& responds_import(action, 200, report@)
        },
        (BatchImport::Indexing(report), Event::Completed(_)) => {
            &&& next is Finished
            &&& responds_import(action, 200, report@)
        },
        _ => next is Failed && action is Abort,
    }
}

/// A failure of the model fails no import: whatever the model answers, the
/// store is asked to write the items, and where the model gave no vectors
/// the items stored are reported and no point is kept for the index.
pub proof fn lemma_import_survives_the_model(
    items: Vec<CreateWordRoot>,
    answer: Result<usize, String>,
    results: Vec<Result<WordRoot, String>>,
    storing: BatchImport,
    store: Action,
    next: BatchImport,
    action: Action,
)
    requires
        answer is Err,
        results.len() == items.len(),
        batch_import_step(BatchImport::Embedding(items), Event::Embedded(answer), storing, store),
        batch_import_step(storing, Event::RootBatch(results), next, action),
    ensures
        store matches Action::InsertRoots(content) && content.deep_view() == items.deep_view(),
        !(action is Upsert),
        next matches BatchImport::Learning { report, points } ==> points.len() == 0 && report@
            == import_report(batch_names(items.deep_view()), outcomes_of(results@)),
        next is Finished ==> responds_import(
            action,
            200,
            import_report(batch_names(items.deep_view()), outcomes_of(results@)),
        ),
{
    if let BatchImport::Storing { names, embedded } = storing {
        assert(names.deep_view().len() == names@.len());
        assert(items.deep_view().len() == items@.len());
        if let BatchImport::Learning { report, points } = next {
            assert(points.deep_view().len() == points@.len());
        }
    }
}

/// A batch of N items, all embedded, of which the store refused exactly one:
/// the names of the other N-1 are learned, exactly N-1 points are kept for
/// the index, and the report counts N-1 items stored and one refused.
pub proof fn lemma_batch_with_one_failure(
    names: Vec<String>,
    results: Vec<Result<WordRoot, String>>,
    failed: int,
    next: BatchImport,
    action: Action,
)
    requires
        results.len() == names.len(),
        results.len() >= 2,
        0 <= failed < results.len(),
        results[failed] is Err,
        forall|j: int| 0 <= j < results.len() && j != failed ==> (#[trigger] results[j]) is Ok,
        batch_import_step(
            BatchImport::Storing { names, embedded: true },
            Event::RootBatch(results),
            next,
            action,
        ),
    ensures
        next matches BatchImport::Learning { report, points } && points.len() == results.len() - 1
            && report.success_count == results.len() - 1 && report.failure_count == 1
            && report.errors.len() == 1,
        action matches Action::Learn(terms) && terms.len() == results.len() - 1,
{
    let outcomes = outcomes_of(results@);
    assert(outcomes[failed] == outcome_of(results@[failed]));
    assert forall|j: int| 0 <= j < outcomes.len() && j != failed implies (
    #[trigger] outcomes[j]) is Ok by {
        assert(outcomes[j] == outcome_of(results@[j]));
    }
    lemma_import_with_one_failure(names.deep_view(), outcomes, failed);
    lemma_import_counts(names.deep_view(), outcomes);
    if let BatchImport::Learning { report, points } = next {
        assert(points.deep_view().len() == points@.len());
        assert(report.errors.deep_view().len() == report.errors@.len());
    }
    if let Action::Learn(terms) = action {
        assert(terms.deep_view().len() == terms@.len());
    }
}

/// Brings the items of a batch into normal form and gives the text to embed
/// for each.
pub fn prepare_batch(batch: BatchCreateWordRoot) -> (prepared: (Vec<CreateWordRoot>, Vec<String>))
    ensures
        prepared.0.deep_view() == normalized_batch(batch@),
        prepared.1.deep_view() == batch_texts(normalized_batch(batch@)),
{
    let mut source = batch.items;
    let ghost all = source.deep_view();
    let mut items: Vec<CreateWordRoot> = Vec::new();
    let mut texts: Vec<String> = Vec::new();
    let mut i: usize = 0;
    while i < source.len()
        invariant
            i <= source.len(),
            source.deep_view() == all,
            items.deep_view() == normalized_batch(all.take(i as int)),
            texts.deep_view() == batch_texts(normalized_batch(all.take(i as int))),
        decreases source.len() - i,
    {
        let item = normalize_root(source[i].clone());
        let text = root_embedding_text(
            item.cn_name.as_str(),
            &item.en_full_name,
            &item.associated_terms,
        );
        proof {
            let upto = all.take(i + 1);
            assert(upto =~= all.take(i as int).push(source@[i as int]@));
            assert(normalized_batch(upto) =~= normalized_batch(all.take(i as int)).push(item@));
            assert(batch_texts(normalized_batch(upto)) =~= batch_texts(
                normalized_batch(all.take(i as int)),
            ).push(text@));
        }
        let ghost items_before = items.deep_view();
        let ghost texts_before = texts.deep_view();
        items.push(item);
        texts.push(text);
        assert(items.deep_view() =~= items_before.push(item@));
        assert(texts.deep_view() =~= texts_before.push(text@));
        i += 1;
    }
    assert(all.take(i as int) =~= all);
    assert(items.deep_view() =~= normalized_batch(all));
    (items, texts)
}

/// The names of the items, in order.
pub fn names_of(items: &Vec<CreateWordRoot>) -> (names: Vec<String>)
    ensures
        names.deep_view() == batch_names(items.deep_view()),
{
    let mut names: Vec<String> = Vec::new();
    let mut i: usize = 0;
    while i < items.len()
        invariant
            i <= items.len(),
            names.deep_view() == batch_names(items.deep_view().take(i as int)),
        decreases items.len() - i,
    {
        let name = copy_text(items[i].cn_name.as_str());
        let ghost before = names.deep_view();
        names.push(name);
        assert(names.deep_view() =~= before.push(name@));
        assert(batch_names(items.deep_view().take(i + 1)) =~= batch_names(
            items.deep_view().take(i as int),
        ).push(name@));
        i += 1;
    }
    assert(items.deep_view().take(i as int) =~= items.deep_view());
    names
}

/// The message for the item in row `row` (counted from one) that the store
/// refused.
pub fn row_error_text(row: u64, name: &str, refusal: &str) -> (text: String)
    ensures
        text@ == row_error(row as nat, name@, refusal@),
{
    let mut text = String::from_str("行 ");
    push_decimal(&mut text, row);
    text.append(": 词根 [");
    text.append(name);
    text.append("] 失败: ");
    text.append(refusal);
    text
}

/// Counts what the store made of a batch: the report, the points of the
/// items stored and their names.
pub fn tally(names: &Vec<String>, results: &Vec<Result<WordRoot, String>>) -> (out: (
    ImportResult,
    Vec<IndexPoint>,
    Vec<String>,
))
    requires
        results.len() == names.len(),
    ensures
        out.0@ == import_report(names.deep_view(), outcomes_of(results@)),
        out.1.deep_view() == import_points(outcomes_of(results@)),
        out.2.deep_view() == import_names(outcomes_of(results@)),
{
    let ghost outcomes = outcomes_of(results@);
    let mut errors: Vec<String> = Vec::new();
    let mut points: Vec<IndexPoint> = Vec::new();
    let mut learned: Vec<String> = Vec::new();
    let mut i: usize = 0;
    while i < results.len()
        invariant
            i <= results.len() == names.len(),
            outcomes == outcomes_of(results@),
            errors.deep_view() == import_errors(names.deep_view(), outcomes.take(i as int)),
            points.deep_view() == import_points(outcomes.take(i as int)),
            learned.deep_view() == import_names(outcomes.take(i as int)),
        decreases results.len() - i,
    {
        proof {
            let upto = outcomes.take(i + 1);
            assert(upto.drop_last() =~= outcomes.take(i as int));
            assert(upto.last() == outcome_of(results@[i as int]));
        }
        match &results[i] {
            Ok(root) => {
                let point = point_of_root(root, i);
                let name = copy_text(root.cn_name.as_str());
                let ghost points_before = points.deep_view();
                let ghost learned_before = learned.deep_view();
                points.push(point);
                learned.push(name);
                assert(points.deep_view() =~= points_before.push(point@));
                assert(learned.deep_view() =~= learned_before.push(name@));
            },
            Err(refusal) => {
                let text = row_error_text((i + 1) as u64, names[i].as_str(), refusal.as_str());
                let ghost before = errors.deep_view();
                errors.push(text);
                assert(errors.deep_view() =~= before.push(text@));
            },
        }
        i += 1;
    }
    assert(outcomes.take(i as int) =~= outcomes);
    let report = ImportResult {
        success_count: points.len(),
        failure_count: errors.len(),
        errors,
    };
    (report, points, learned)
}

/// The answer that carries a report.
fn answer_import(report: ImportResult) -> (action: Action)
    ensures
        responds_import(action, 200, report@),
{
    Action::Respond(Reply { status: 200, body: Body::Import(report) })
}

/// One step of a batch import: see `batch_import_step`. The flow starts in
/// `BatchImport::Received` with `Event::Start`.
pub fn batch_create_roots(state: BatchImport, event: Event) -> (step: (BatchImport, Action))
    ensures
        batch_import_step(state, event, step.0, step.1),
{
    match (state, event) {
        (BatchImport::Received(batch), Event::Start) => {
            let (items, texts) = prepare_batch(batch);
            (BatchImport::Embedding(items), Action::Embed(texts))
        },
        (BatchImport::Embedding(items), Event::Embedded(answer)) => {
            let embedded = match answer {
                Ok(vectors) => vectors == items.len(),
                Err(_) => false,
            };
            let names = names_of(&items);
            (BatchImport::Storing { names, embedded }, Action::InsertRoots(items))
        },
        (BatchImport::Storing { names, embedded }, Event::RootBatch(results)) => {
            if results.len() == names.len() {
                let (report, points, learned) = tally(&names, &results);
                if learned.len() == 0 {
                    (BatchImport::Finished, answer_import(report))
                } else if embedded {
                    (BatchImport::Learning { report, points }, Action::Learn(learned))
                } else {
                    let none: Vec<IndexPoint> = Vec::new();
                    assert(none.deep_view() =~= Seq::empty());
                    (BatchImport::Learning { report, points: none }, Action::Learn(learned))
                }
            } else {
                (BatchImport::Failed, Action::Abort)
            }
        },
        (BatchImport::Learning { report, points }, Event::Completed(_)) => {
            if points.len() > 0 {
                (
                    BatchImport::Indexing(report),
                    Action::Upsert { collection: Collection::WordRoots, points },
                )
            } else {
                (BatchImport::Finished, answer_import(report))
            }
        },
        (BatchImport::Indexing(report), Event::Completed(_)) => {
            (BatchImport::Finished, answer_import(report))
        },
        _ => (BatchImport::Failed, Action::Abort),
    }
}

} // verus!
