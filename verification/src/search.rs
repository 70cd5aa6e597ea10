//! The read path: hybrid search for standard fields, search for word roots
//! that are near in meaning, and suggestions for a free text.

use crate::exchange::{
    responds_text, text_reply, Action, Body, Collection, Event, FieldHit, FieldHitView, Hit,
    PayloadValue, PointId, PointIdView, Reply,
};
use crate::model::{
    RootSuggestion, RootSuggestionView, SegmentView, StandardField, StandardFieldView,
    SuggestQuery, SuggestResponseV2, WordRoot, WordRootView,
};
use crate::resolve::{suggest_field_name, suggestion};
use crate::sync::{point_id, point_id_of, single};
use crate::text::{
    chars_of, copy_text, decimal, decimal_text, is_empty_text, text_or_empty, trim, trimmed,
};
use crate::tokenizer::{max_text_len, Tokenizer};
use vstd::prelude::*;

verus! {

/// How many fields the lexical pass of a search returns at most.
pub const LEXICAL_LIMIT: i64 = 10;

/// How many points the semantic pass of a search asks for.
pub const NEAREST: u64 = 5;

// ---------------------------------------------------------------------------
// Reading a hit
// ---------------------------------------------------------------------------
/// The text that a payload holds under a key: that of the first entry with
/// the key, if it is a text.
pub open spec fn payload_text(payload: Seq<(String, PayloadValue)>, key: Seq<char>) -> Option<
    Seq<char>,
>
    decreases payload.len(),
{
    if payload.len() == 0 {
        None
    } else if payload[0].0@ == key {
        match payload[0].1 {
            PayloadValue::Text(text) => Some(text@),
            PayloadValue::Other => None,
        }
    } else {
        payload_text(payload.drop_first(), key)
    }
}

/// The identifier of a point as a text: a number in decimal notation, a
/// UUID as it is, and `0` where the index gave none.
pub open spec fn point_id_text(id: PointId) -> Seq<char> {
    match id {
        PointId::Num(n) => decimal(n as nat),
        PointId::Uuid(text) => text@,
        PointId::Missing => "0"@,
    }
}

/// The suggestion that a hit among the word roots stands for: its names
/// from the payload, empty where the payload has none.
pub open spec fn suggestion_of(hit: Hit) -> RootSuggestionView {
    RootSuggestionView {
        id: point_id_text(hit.id),
        cn_name: text_or_empty(payload_text(hit.payload@, "cn_name"@)),
        en_abbr: text_or_empty(payload_text(hit.payload@, "en_abbr"@)),
        score: hit.score,
    }
}

/// The suggestions that hits stand for, in order.
pub open spec fn suggestions_of(hits: Seq<Hit>) -> Seq<RootSuggestionView> {
    Seq::new(hits.len(), |k: int| suggestion_of(hits[k]))
}

/// The field that a hit among the standard fields stands for.
pub open spec fn field_hit_of(hit: Hit) -> FieldHitView {
    FieldHitView {
        id: hit.id@,
        field_cn_name: payload_text(hit.payload@, "cn_name"@),
        field_en_name: payload_text(hit.payload@, "en_name"@),
        score: Some(hit.score),
    }
}

/// The fields that hits stand for, in order.
pub open spec fn field_hits_of(hits: Seq<Hit>) -> Seq<FieldHitView> {
    Seq::new(hits.len(), |k: int| field_hit_of(hits[k]))
}

/// The text that the payload holds under `key`.
pub fn text_in_payload(payload: &Vec<(String, PayloadValue)>, key: &str) -> (found: Option<String>)
    ensures
        found.deep_view() == payload_text(payload@, key@),
{
    let wanted = copy_text(key);
    let mut i: usize = 0;
    assert(payload@.skip(0) =~= payload@);
    while i < payload.len()
        invariant
            i <= payload.len(),
            wanted@ == key@,
            payload_text(payload@, key@) == payload_text(payload@.skip(i as int), key@),
        decreases payload.len() - i,
    {
        proof {
            let rest = payload@.skip(i as int);
            assert(rest[0] == payload@[i as int]);
            assert(rest.drop_first() =~= payload@.skip(i + 1));
        }
        if payload[i].0 == wanted {
            return match &payload[i].1 {
                PayloadValue::Text(text) => Some(text.clone()),
                PayloadValue::Other => None,
            };
        }
        i += 1;
    }
    None
}

/// The identifier of a point as a text.
pub fn id_text(id: &PointId) -> (text: String)
    ensures
        text@ == point_id_text(*id),
{
    match id {
        PointId::Num(n) => decimal_text(*n),
        PointId::Uuid(text) => text.clone(),
        PointId::Missing => copy_text("0"),
    }
}

/// The text of an optional text, empty where there is none.
fn or_empty(text: Option<String>) -> (out: String)
    ensures
        out@ == text_or_empty(text.deep_view()),
{
    match text {
        Some(text) => text,
        None => String::new(),
    }
}

/// The suggestions that hits among the word roots stand for, in order.
pub fn suggestions_from(hits: &Vec<Hit>) -> (found: Vec<RootSuggestion>)
    ensures
        found.deep_view() == suggestions_of(hits@),
{
    let mut found: Vec<RootSuggestion> = Vec::new();
    let mut i: usize = 0;
    while i < hits.len()
        invariant
            i <= hits.len(),
            found.deep_view() == suggestions_of(hits@.take(i as int)),
        decreases hits.len() - i,
    {
        let suggestion = RootSuggestion {
            id: id_text(&hits[i].id),
            cn_name: or_empty(text_in_payload(&hits[i].payload, "cn_name")),
            en_abbr: or_empty(text_in_payload(&hits[i].payload, "en_abbr")),
            score: hits[i].score,
        };
        let ghost before = found.deep_view();
        found.push(suggestion);
        proof {
            let upto = hits@.take(i + 1);
            assert(upto[i as int] == hits@[i as int]);
            assert(found.deep_view() =~= before.push(suggestion@));
            assert(found.deep_view() =~= suggestions_of(upto));
        }
        i += 1;
    }
    assert(hits@.take(i as int) =~= hits@);
    found
}

/// The fields that hits among the standard fields stand for, in order.
pub fn field_hits_from(hits: &Vec<Hit>) -> (found: Vec<FieldHit>)
    ensures
        found.deep_view() == field_hits_of(hits@),
{
    let mut found: Vec<FieldHit> = Vec::new();
    let mut i: usize = 0;
    while i < hits.len()
        invariant
            i <= hits.len(),
            found.deep_view() == field_hits_of(hits@.take(i as int)),
        decreases hits.len() - i,
    {
        let hit = FieldHit {
            id: copy_id(&hits[i].id),
            field_cn_name: text_in_payload(&hits[i].payload, "cn_name"),
            field_en_name: text_in_payload(&hits[i].payload, "en_name"),
            score: Some(hits[i].score),
        };
        let ghost before = found.deep_view();
        found.push(hit);
        proof {
            let upto = hits@.take(i + 1);
            assert(upto[i as int] == hits@[i as int]);
            assert(found.deep_view() =~= before.push(hit@));
            assert(found.deep_view() =~= field_hits_of(upto));
        }
        i += 1;
    }
    assert(hits@.take(i as int) =~= hits@);
    found
}

/// A copy of the identifier.
fn copy_id(id: &PointId) -> (copy: PointId)
    ensures
        copy@ == id@,
{
    match id {
        PointId::Num(n) => PointId::Num(*n),
        PointId::Uuid(text) => PointId::Uuid(text.clone()),
        PointId::Missing => PointId::Missing,
    }
}

// ---------------------------------------------------------------------------
// Hybrid search for standard fields
// ---------------------------------------------------------------------------
/// Where a search for standard fields stands.
#[derive(Debug, PartialEq, Eq)]
pub enum FieldSearch {
    /// A query, not yet acted on.
    Received(SuggestQuery),
    /// The store was asked for the fields that match this query by letter.
    Searching(String),
    /// The model was asked to embed the query.
    Embedding,
    /// The index was asked for the points nearest to the query.
    Querying,
    /// The request was answered.
    Finished,
    /// An event came that answers nothing.
    Failed,
}

/// The characters that a pattern of the store reads as more than
/// themselves: the two wildcards and the escape character.
pub open spec fn is_pattern_sign(c: char) -> bool {
    c == '%' || c == '_' || c == '\\'
}

/// The text with a backslash before each character that a pattern would read
/// as more than itself, so that the pattern matches the text as it stands.
pub open spec fn escaped(text: Seq<char>) -> Seq<char>
    decreases text.len(),
{
    if text.len() == 0 {
        Seq::empty()
    } else {
        let earlier = escaped(text.drop_last());
        if is_pattern_sign(text.last()) {
            earlier.push('\\').push(text.last())
        } else {
            earlier.push(text.last())
        }
    }
}

/// The pattern that matches every text in which `query` stands, and no
/// other: the query, escaped, between two wildcards.
pub open spec fn like_pattern(query: Seq<char>) -> Seq<char> {
    seq!['%'] + escaped(query) + seq!['%']
}

/// The record of a field that the lexical pass found: the identifier of the
/// field's point, its two names, and no score.
pub open spec fn lexical_hit_of(field: StandardFieldView) -> FieldHitView {
    FieldHitView {
        id: PointIdView::Num(point_id_of(field.id)),
        field_cn_name: Some(field.field_cn_name),
        field_en_name: Some(field.field_en_name),
        score: None,
    }
}

/// The records of the fields that the lexical pass found, in order.
pub open spec fn lexical_hits_of(fields: Seq<StandardFieldView>) -> Seq<FieldHitView> {
    Seq::new(fields.len(), |k: int| lexical_hit_of(fields[k]))
}

/// The action answers the request with these records and status 200.
pub open spec fn responds_hits(action: Action, hits: Seq<FieldHitView>) -> bool {
    action matches Action::Respond(reply) && reply.status == 200 && (reply.body matches Body::FieldHits(
        found,
    ) && found.deep_view() == hits)
}

/// One step of a search for standard fields.
///
/// The lexical pass comes first: the store is asked for up to ten fields
/// whose name or synonyms hold the query, letter case set aside. If it finds
/// any, they are the answer, one record for each and in the store's order,
/// and neither the model nor the index is asked. Only if it finds none, or
/// fails, the query is embedded as it came and the index asked for the five
/// nearest points; the answer is what those points say of themselves. If the
/// model or the index fails, the answer is empty. Every answer has status
/// 200 and is a list of the same records, whichever pass gave it.
pub open spec fn field_search_step(
    state: FieldSearch,
    event: Event,
    next: FieldSearch,
    action: Action,
) -> bool {
    match (state, event) {
        (FieldSearch::Received(query), Event::Start) => {
            &&& next matches FieldSearch::Searching(kept)
            &&& kept@ == query@
            &&& action matches Action::FindFields { like, at_most }
            &&& like@ == like_pattern(query@)
            &&& at_most == LEXICAL_LIMIT
        },
        (FieldSearch::Searching(_), Event::Fields(Ok(fields))) if fields.len() > 0 => {
            &&& next is Finished
            &&& responds_hits(action, lexical_hits_of(fields.deep_view()))
        },
        (FieldSearch::Searching(query), Event::Fields(_)) => {
            &&& next is Embedding
            &&& action matches Action::Embed(texts)
            &&& texts.deep_view() == seq![query@]
        },
        (FieldSearch::Embedding, Event::Embedded(Ok(vectors))) if vectors >= 1 => {
            &&& next is Querying
            &&& action == Action::SearchPoints {
                collection: Collection::StandardFields,
                nearest: NEAREST,
            }
        },
        (FieldSearch::Embedding, Event::Embedded(_)) => {
            &&& next is Finished
            &&& responds_hits(action, Seq::empty())
        },
        (FieldSearch::Querying, Event::Hits(Ok(hits))) => {
            &&& next is Finished
            &&& responds_hits(action, field_hits_of(hits@))
        },
        (FieldSearch::Querying, Event::Hits(Err(_))) => {
            &&& next is Finished
            &&& responds_hits(action, Seq::empty())
        },
        _ => next is Failed && action is Abort,
    }
}

/// Where the lexical pass finds a field, the answer is what it found, one
/// record for each field and in the same order, and no step that follows a
/// lexical hit asks the model or the index.
pub proof fn lemma_lexical_hits_are_the_answer(
    state: FieldSearch,
    fields: Vec<StandardField>,
    next: FieldSearch,
    action: Action,
)
    requires
        state is Searching,
        fields.len() > 0,
        field_search_step(state, Event::Fields(Ok(fields)), next, action),
    ensures
        next is Finished,
        responds_hits(action, lexical_hits_of(fields.deep_view())),
        lexical_hits_of(fields.deep_view()).len() == fields.len(),
        !(action is Embed) && !(action is SearchPoints),
{
}

/// Both passes answer with records of one shape: a search that ends with an
/// answer ends with status 200 and a list of field records.
pub proof fn lemma_search_answers_have_one_shape(
    state: FieldSearch,
    event: Event,
    next: FieldSearch,
    action: Action,
)
    requires
        field_search_step(state, event, next, action),
        action is Respond,
    ensures
        action matches Action::Respond(reply) && reply.status == 200 && reply.body is FieldHits,
{
}

/// The answer that carries these records.
fn answer_hits(found: Vec<FieldHit>) -> (action: Action)
    ensures
        responds_hits(action, found.deep_view()),
{
    Action::Respond(Reply { status: 200, body: Body::FieldHits(found) })
}

/// The answer that carries no record.
fn answer_nothing() -> (action: Action)
    ensures
        responds_hits(action, Seq::empty()),
{
    let found: Vec<FieldHit> = Vec::new();
    assert(found.deep_view() =~= Seq::empty());
    answer_hits(found)
}

/// The records of the fields that the lexical pass found, in order.
pub fn lexical_hits_from(fields: &Vec<StandardField>) -> (found: Vec<FieldHit>)
    ensures
        found.deep_view() == lexical_hits_of(fields.deep_view()),
{
    let mut found: Vec<FieldHit> = Vec::new();
    let mut i: usize = 0;
    while i < fields.len()
        invariant
            i <= fields.len(),
            found.deep_view() == lexical_hits_of(fields.deep_view().take(i as int)),
        decreases fields.len() - i,
    {
        let hit = FieldHit {
            id: PointId::Num(point_id(fields[i].id)),
            field_cn_name: Some(copy_text(fields[i].field_cn_name.as_str())),
            field_en_name: Some(copy_text(fields[i].field_en_name.as_str())),
            score: None,
        };
        let ghost before = found.deep_view();
        found.push(hit);
        proof {
            let upto = fields.deep_view().take(i + 1);
            assert(upto[i as int] == fields@[i as int]@);
            assert(found.deep_view() =~= before.push(hit@));
            assert(found.deep_view() =~= lexical_hits_of(upto));
        }
        i += 1;
    }
    assert(fields.deep_view().take(i as int) =~= fields.deep_view());
    found
}

/// Whether a pattern of the store reads the character as more than itself.
pub fn pattern_sign(c: char) -> (sign: bool)
    ensures
        sign == is_pattern_sign(c),
{
    c == '%' || c == '_' || c == '\\'
}

/// The text with a backslash before each character that a pattern would read
/// as more than itself.
pub fn escape(text: &str) -> (out: String)
    ensures
        out@ == escaped(text@),
{
    let chars = chars_of(text);
    let mut out = String::new();
    let mut i: usize = 0;
    assert(chars@.take(0) =~= Seq::empty());
    while i < chars.len()
        invariant
            i <= chars.len(),
            chars@ == text@,
            out@ == escaped(chars@.take(i as int)),
        decreases chars.len() - i,
    {
        proof {
            let upto = chars@.take(i + 1);
            assert(upto.drop_last() =~= chars@.take(i as int));
            assert(upto.last() == chars@[i as int]);
        }
        if pattern_sign(chars[i]) {
            out.push('\\');
        }
        out.push(chars[i]);
        i += 1;
    }
    assert(chars@.take(i as int) =~= chars@);
    out
}

/// The pattern that matches every text in which `query` stands, and no
/// other.
pub fn pattern_for(query: &str) -> (pattern: String)
    ensures
        pattern@ == like_pattern(query@),
{
    let mut pattern = String::new();
    pattern.push('%');
    let inner = escape(query);
    pattern.append(inner.as_str());
    pattern.push('%');
    assert(pattern@ =~= like_pattern(query@));
    pattern
}

/// One step of a search for standard fields: see `field_search_step`. The
/// flow starts in `FieldSearch::Received` with `Event::Start`.
pub fn search_field(state: FieldSearch, event: Event) -> (step: (FieldSearch, Action))
    ensures
        field_search_step(state, event, step.0, step.1),
{
    match (state, event) {
        (FieldSearch::Received(query), Event::Start) => {
            let like = pattern_for(query.q.as_str());
            (FieldSearch::Searching(query.q), Action::FindFields { like, at_most: LEXICAL_LIMIT })
        },
        (FieldSearch::Searching(query), Event::Fields(found)) => {
            match found {
                Ok(fields) => {
                    if fields.len() > 0 {
                        (FieldSearch::Finished, answer_hits(lexical_hits_from(&fields)))
                    } else {
                        (FieldSearch::Embedding, Action::Embed(single(query)))
                    }
                },
                Err(_) => (FieldSearch::Embedding, Action::Embed(single(query))),
            }
        },
        (FieldSearch::Embedding, Event::Embedded(embedded)) => {
            match embedded {
                Ok(vectors) => {
                    if vectors >= 1 {
                        (
                            FieldSearch::Querying,
                            Action::SearchPoints {
                                collection: Collection::StandardFields,
                                nearest: NEAREST,
                            },
                        )
                    } else {
                        (FieldSearch::Finished, answer_nothing())
                    }
                },
                Err(_) => (FieldSearch::Finished, answer_nothing()),
            }
        },
        (FieldSearch::Querying, Event::Hits(Ok(hits))) => {
            (FieldSearch::Finished, answer_hits(field_hits_from(&hits)))
        },
        (FieldSearch::Querying, Event::Hits(Err(_))) => (FieldSearch::Finished, answer_nothing()),
        _ => (FieldSearch::Failed, Action::Abort),
    }
}

// ---------------------------------------------------------------------------
// Word roots near in meaning
// ---------------------------------------------------------------------------
/// Where a search for word roots near in meaning stands.
#[derive(Debug, PartialEq, Eq)]
pub enum RootSearch {
    /// A query, not yet acted on.
    Received(SuggestQuery),
    /// The model was asked to embed the query.
    Embedding,
    /// The index was asked for the points nearest to the query.
    Querying,
    /// The request was answered.
    Finished,
    /// An event came that answers nothing.
    Failed,
}

/// The action answers the request with these suggestions and status 200.
pub open spec fn responds_suggestions(action: Action, found: Seq<RootSuggestionView>) -> bool {
    action matches Action::Respond(reply) && reply.status == 200 && (reply.body matches Body::Suggestions(
        given,
    ) && given.deep_view() == found)
}

/// One step of a search for word roots near in meaning.
///
/// The query is trimmed; a blank one is refused with status 400. Else it is
/// embedded and the index asked for the five nearest points among the word
/// roots; the answer is what those points say of themselves, with status
/// 200. If the model fails or gives no vector the index is not asked, and if
/// the model or the index fails the answer is no suggestion, with status
/// 200: a search does not pass a failure behind it on to the caller.
pub open spec fn root_search_step(
    state: RootSearch,
    event: Event,
    next: RootSearch,
    action: Action,
) -> bool {
    match (state, event) {
        (RootSearch::Received(query), Event::Start) => if trimmed(query@).len() == 0 {
            &&& next is Finished
            &&& responds_text(action, 400, "查询内容不能为空"@)
        } else {
            &&& next is Embedding
            &&& action matches Action::Embed(texts)
            &&& texts.deep_view() == seq![trimmed(query@)]
        },
        (RootSearch::Embedding, Event::Embedded(Ok(vectors))) if vectors >= 1 => {
            &&& next is Querying
            &&& action == Action::SearchPoints { collection: Collection::WordRoots, nearest: NEAREST }
        },
        (RootSearch::Embedding, Event::Embedded(_)) => {
            &&& next is Finished
            &&& responds_suggestions(action, Seq::empty())
        },
        (RootSearch::Querying, Event::Hits(Ok(hits))) => {
            &&& next is Finished
            &&& responds_suggestions(action, suggestions_of(hits@))
        },
        (RootSearch::Querying, Event::Hits(Err(_))) => {
            &&& next is Finished
            &&& responds_suggestions(action, Seq::empty())
        },
        _ => next is Failed && action is Abort,
    }
}

/// A search for word roots never answers with a failure of the model or of
/// the index: once the query is taken, every answer has status 200.
pub proof fn lemma_root_search_degrades_to_nothing(
    state: RootSearch,
    event: Event,
    next: RootSearch,
    action: Action,
)
    requires
        state is Embedding || state is Querying,
        root_search_step(state, event, next, action),
        action is Respond,
    ensures
        action matches Action::Respond(reply) && reply.status == 200 && reply.body is Suggestions,
        event is Embedded ==> responds_suggestions(action, Seq::empty()),
        event matches Event::Hits(Err(_)) ==> responds_suggestions(action, Seq::empty()),
{
}

/// The answer that carries these suggestions.
fn answer_suggestions(found: Vec<RootSuggestion>) -> (action: Action)
    ensures
        responds_suggestions(action, found.deep_view()),
{
    Action::Respond(Reply { status: 200, body: Body::Suggestions(found) })
}

/// The answer that carries no suggestion.
fn answer_no_suggestion() -> (action: Action)
    ensures
        responds_suggestions(action, Seq::empty()),
{
    let found: Vec<RootSuggestion> = Vec::new();
    assert(found.deep_view() =~= Seq::empty());
    answer_suggestions(found)
}

/// One step of a search for word roots near in meaning: see
/// `root_search_step`. The flow starts in `RootSearch::Received` with
/// `Event::Start`.
pub fn search_similar_roots(state: RootSearch, event: Event) -> (step: (RootSearch, Action))
    ensures
        root_search_step(state, event, step.0, step.1),
{
    match (state, event) {
        (RootSearch::Received(query), Event::Start) => {
            let input = trim(query.q.as_str());
            if is_empty_text(input.as_str()) {
                (RootSearch::Finished, text_reply(400, copy_text("查询内容不能为空")))
            } else {
                (RootSearch::Embedding, Action::Embed(single(input)))
            }
        },
        (RootSearch::Embedding, Event::Embedded(embedded)) => {
            match embedded {
                Ok(vectors) => {
                    if vectors >= 1 {
                        (
                            RootSearch::Querying,
                            Action::SearchPoints {
                                collection: Collection::WordRoots,
                                nearest: NEAREST,
                            },
                        )
                    } else {
                        (RootSearch::Finished, answer_no_suggestion())
                    }
                },
                Err(_) => (RootSearch::Finished, answer_no_suggestion()),
            }
        },
        (RootSearch::Querying, Event::Hits(Ok(hits))) => {
            (RootSearch::Finished, answer_suggestions(suggestions_from(&hits)))
        },
        (RootSearch::Querying, Event::Hits(Err(_))) => {
            (RootSearch::Finished, answer_no_suggestion())
        },
        _ => (RootSearch::Failed, Action::Abort),
    }
}

// ---------------------------------------------------------------------------
// Suggestions for a free text
// ---------------------------------------------------------------------------
/// Where a request for suggestions stands.
#[derive(Debug, PartialEq, Eq)]
pub enum Suggesting {
    /// A query, not yet acted on.
    Received(SuggestQuery),
    /// The store was asked for every word root, to resolve this text.
    Loading(String),
    /// The request was answered.
    Finished,
    /// An event came that answers nothing.
    Failed,
}

impl Suggesting {
    /// The text in hand is short enough for the tokenizer.
    pub open spec fn fits(self) -> bool {
        match self {
            Suggesting::Received(query) => query@.len() <= max_text_len(),
            Suggesting::Loading(text) => text@.len() <= max_text_len(),
            _ => true,
        }
    }
}

/// The roots that the store read, or none if it failed.
pub open spec fn roots_read(read: Result<Vec<WordRoot>, String>) -> Seq<WordRootView> {
    match read {
        Ok(roots) => roots.deep_view(),
        Err(_) => Seq::empty(),
    }
}

/// The action answers the request with these segments and status 200.
pub open spec fn responds_segments(action: Action, segments: Seq<SegmentView>) -> bool {
    action matches Action::Respond(reply) && reply.status == 200 && (reply.body matches Body::Segments(
        found,
    ) && found@ == segments)
}

/// One step of a request for suggestions.
///
/// A blank text is refused with status 400. Else the word roots are read and
/// the text resolved against them: see `suggestion`. If the store cannot be
/// read the text is resolved against no root, so that every segment is
/// without candidates.
pub open spec fn suggesting_step(
    tokenizer: Tokenizer,
    state: Suggesting,
    event: Event,
    next: Suggesting,
    action: Action,
) -> bool {
    match (state, event) {
        (Suggesting::Received(query), Event::Start) => if trimmed(query@).len() == 0 {
            &&& next is Finished
            &&& responds_text(action, 400, "查询内容不能为空"@)
        } else {
            &&& next matches Suggesting::Loading(text)
            &&& text@ == query@
            &&& action is LoadRoots
        },
        (Suggesting::Loading(text), Event::Roots(read)) => {
            &&& next is Finished
            &&& responds_segments(action, suggestion(roots_read(read), text@, tokenizer))
        },
        _ => next is Failed && action is Abort,
    }
}

/// Whether the text is short enough for the tokenizer.
pub fn text_fits(text: &str) -> (fits: bool)
    ensures
        fits == (text@.len() <= max_text_len()),
{
    text.unicode_len() <= usize::MAX / 10
}

/// One step of a request for suggestions: see `suggesting_step`. The flow
/// starts in `Suggesting::Received` with `Event::Start`.
pub fn suggest_mapping(state: Suggesting, event: Event, tokenizer: &Tokenizer) -> (step: (
    Suggesting,
    Action,
))
    requires
        state.fits(),
    ensures
        suggesting_step(*tokenizer, state, event, step.0, step.1),
        step.0.fits(),
{
    match (state, event) {
        (Suggesting::Received(query), Event::Start) => {
            let input = trim(query.q.as_str());
            if is_empty_text(input.as_str()) {
                (Suggesting::Finished, text_reply(400, copy_text("查询内容不能为空")))
            } else {
                (Suggesting::Loading(query.q), Action::LoadRoots)
            }
        },
        (Suggesting::Loading(text), Event::Roots(read)) => {
            let roots = match read {
                Ok(roots) => roots,
                Err(_) => {
                    let none: Vec<WordRoot> = Vec::new();
                    assert(none.deep_view() =~= Seq::empty());
                    none
                },
            };
            let segments = suggest_field_name(&roots, tokenizer, text.as_str());
            (
                Suggesting::Finished,
                Action::Respond(
                    Reply { status: 200, body: Body::Segments(SuggestResponseV2 { segments }) },
                ),
            )
        },
        _ => (Suggesting::Failed, Action::Abort),
    }
}

} // verus!
