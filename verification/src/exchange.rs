//! What passes between the library and the services around it.
//!
//! The library performs no input or output. A request is a flow: a state, and
//! a function that takes the state and an event and gives the next state and
//! an action. The caller performs the action (a statement for the store, a
//! call of the embedding model or of the vector index) and hands back the
//! event that answers it, until the action ends the flow.

use crate::auth::{AuthResponse, User};
use crate::model::{
    CreateFieldRequest, CreateWordRoot, ImportResult, PaginatedResponse, RootSuggestion,
    StandardField, SuggestResponseV2, WordRoot,
};
use vstd::prelude::*;

verus! {

/// The number of dimensions of an embedding.
pub const EMBEDDING_DIMENSION: u64 = 384;

/// The two kinds of vocabulary entry. Each has a table in the store and a
/// collection in the vector index.
#[derive(Debug, PartialEq, Eq, Clone, Copy)]
pub enum Collection {
    WordRoots,
    StandardFields,
}

impl Collection {
    /// The name of the collection in the vector index.
    pub open spec fn name_text(self) -> Seq<char> {
        match self {
            Collection::WordRoots => "word_roots"@,
            Collection::StandardFields => "standard_fields"@,
        }
    }

    /// The name of the collection in the vector index.
    pub fn name(&self) -> (name: &'static str)
        ensures
            name@ == self.name_text(),
    {
        match self {
            Collection::WordRoots => "word_roots",
            Collection::StandardFields => "standard_fields",
        }
    }
}

/// A point for the vector index. Its identifier is that of the entry in the
/// store. Its vector is the one at index `vector` of the embeddings that the
/// last `Embed` action produced.
#[derive(Debug, PartialEq, Eq)]
pub struct IndexPoint {
    pub id: u64,
    pub vector: usize,
    pub payload: Vec<(String, String)>,
}

pub struct IndexPointView {
    pub id: u64,
    pub vector: usize,
    pub payload: Seq<(Seq<char>, Seq<char>)>,
}

impl View for IndexPoint {
    type V = IndexPointView;

    open spec fn view(&self) -> IndexPointView {
        IndexPointView { id: self.id, vector: self.vector, payload: self.payload.deep_view() }
    }
}

impl DeepView for IndexPoint {
    type V = IndexPointView;

    open spec fn deep_view(&self) -> IndexPointView {
        self@
    }
}

/// The identifier of a point as the vector index reports it.
#[derive(Debug, PartialEq, Eq)]
pub enum PointId {
    Num(u64),
    Uuid(String),
    Missing,
}

pub enum PointIdView {
    Num(u64),
    Uuid(Seq<char>),
    Missing,
}

impl View for PointId {
    type V = PointIdView;

    open spec fn view(&self) -> PointIdView {
        match self {
            PointId::Num(n) => PointIdView::Num(*n),
            PointId::Uuid(text) => PointIdView::Uuid(text@),
            PointId::Missing => PointIdView::Missing,
        }
    }
}

/// A value of a point's payload: a text, or anything else.
#[derive(Debug, PartialEq, Eq)]
pub enum PayloadValue {
    Text(String),
    Other,
}

/// A point that the vector index found near a query. `score` holds the bits
/// of the similarity.
#[derive(Debug, PartialEq, Eq)]
pub struct Hit {
    pub id: PointId,
    pub score: u32,
    pub payload: Vec<(String, PayloadValue)>,
}

/// A standard field that a search found. Both passes of a search answer
/// with this record: a field found by letter has no score, one found near in
/// meaning has the bits of its similarity.
#[derive(Debug, PartialEq, Eq)]
pub struct FieldHit {
    pub id: PointId,
    pub field_cn_name: Option<String>,
    pub field_en_name: Option<String>,
    pub score: Option<u32>,
}

pub struct FieldHitView {
    pub id: PointIdView,
    pub field_cn_name: Option<Seq<char>>,
    pub field_en_name: Option<Seq<char>>,
    pub score: Option<u32>,
}

impl View for FieldHit {
    type V = FieldHitView;

    open spec fn view(&self) -> FieldHitView {
        FieldHitView {
            id: self.id@,
            field_cn_name: self.field_cn_name.deep_view(),
            field_en_name: self.field_en_name.deep_view(),
            score: self.score,
        }
    }
}

impl DeepView for FieldHit {
    type V = FieldHitView;

    open spec fn deep_view(&self) -> FieldHitView {
        self@
    }
}

/// What a request is answered with.
#[derive(Debug, PartialEq, Eq)]
pub struct Reply {
    /// The HTTP status.
    pub status: u16,
    pub body: Body,
}

#[derive(Debug, PartialEq, Eq)]
pub enum Body {
    Empty,
    Text(String),
    Root(WordRoot),
    Field(StandardField),
    Roots(Vec<WordRoot>),
    FieldHits(Vec<FieldHit>),
    Suggestions(Vec<RootSuggestion>),
    RootPage(PaginatedResponse<WordRoot>),
    FieldPage(PaginatedResponse<StandardField>),
    Import(ImportResult),
    Segments(SuggestResponseV2),
    /// The service is up, the store connected.
    Up,
    /// The service is down, the store unreachable.
    Down,
    Auth(AuthResponse),
}

/// Work that the caller performs for a flow.
#[derive(Debug, PartialEq, Eq)]
pub enum Action {
    /// Store a new word root; answered by `Event::Root`.
    InsertRoot(CreateWordRoot),
    /// Store new word roots, one by one and each on its own; answered by
    /// `Event::RootBatch` with one result for each, in order.
    InsertRoots(Vec<CreateWordRoot>),
    /// Replace the content of a word root; answered by `Event::Root`.
    UpdateRoot(i32, CreateWordRoot),
    /// Store a new standard field; answered by `Event::Field`.
    InsertField(CreateFieldRequest),
    /// Replace the content of a standard field; answered by `Event::Field`.
    UpdateField(i32, CreateFieldRequest),
    /// Delete the entry with this identifier; answered by `Event::Affected`.
    Delete(Collection, i32),
    /// Delete every entry of the kind and restart its identifiers; answered
    /// by `Event::Completed`.
    Truncate(Collection),
    /// Count the entries of the kind that match the pattern, or all of them;
    /// answered by `Event::Counted`.
    Count(Collection, Option<String>),
    /// Read a page of word roots, newest first; answered by `Event::Roots`.
    PageRoots { pattern: Option<String>, limit: i64, offset: i64 },
    /// Read a page of fields, newest first; answered by `Event::Fields`.
    PageFields { pattern: Option<String>, limit: i64, offset: i64 },
    /// Read up to `at_most` fields whose name or synonyms are like the
    /// pattern, in the store's order; answered by `Event::Fields`.
    FindFields { like: String, at_most: i64 },
    /// Read every word root; answered by `Event::Roots`.
    LoadRoots,
    /// Read every standard field; answered by `Event::Fields`.
    LoadFields,
    /// Read the word roots with these identifiers, in any order; answered by
    /// `Event::Roots`.
    LoadRootsById(Vec<i32>),
    /// Read the composition of a field; answered by `Event::Composition`.
    LoadComposition(i32),
    /// Ask the store for a sign of life; answered by `Event::Completed`.
    Ping,
    /// Read the user of this name; answered by `Event::User`.
    FindUser(String),
    /// Store a new user; answered by `Event::Completed`.
    InsertUser { username: String, password_hash: String, role: String },
    /// Draw a salt; answered by `Event::Salt`.
    DrawSalt,
    /// Sign a token for this user that expires after `hours`; answered by
    /// `Event::Token`.
    IssueToken { user: i32, role: String, hours: i64 },
    /// Check a token's signature and expiry; answered by `Event::Claims`.
    ReadToken(String),
    /// Hand the request on to what the guard protects; ends the flow.
    Forward,
    /// Let the tokenizer learn these terms; answered by `Event::Completed`.
    Learn(Vec<String>),
    /// Embed these texts, one vector for each, in order; answered by
    /// `Event::Embedded`.
    Embed(Vec<String>),
    /// Write these points; answered by `Event::Completed`.
    Upsert { collection: Collection, points: Vec<IndexPoint> },
    /// Delete the points with these identifiers; answered by
    /// `Event::Completed`.
    DeletePoints { collection: Collection, ids: Vec<u64> },
    /// Delete every point of the collection; answered by `Event::Completed`.
    DeleteAllPoints(Collection),
    /// Find the `nearest` points closest to the first vector of the last
    /// `Embed`, by cosine similarity, with their payloads; answered by
    /// `Event::Hits`.
    SearchPoints { collection: Collection, nearest: u64 },
    /// Ask whether the collection exists; answered by `Event::Exists`.
    CollectionExists(Collection),
    /// Create the collection for vectors of this dimension under cosine
    /// similarity; answered by `Event::Completed`.
    CreateCollection { collection: Collection, dimension: u64 },
    /// Answer the request; ends the flow.
    Respond(Reply),
    /// The job is done; ends the flow.
    Done,
    /// The job failed and the service must not start; ends the flow.
    Fatal(String),
    /// The event did not answer the flow's action; ends the flow.
    Abort,
}

/// What happened: the request arrived, or an action was performed. A failure
/// carries the message of the service that failed.
#[derive(Debug, PartialEq, Eq)]
pub enum Event {
    /// The request arrived, or the job was started.
    Start,
    Root(Result<WordRoot, String>),
    RootBatch(Vec<Result<WordRoot, String>>),
    Field(Result<StandardField, String>),
    Roots(Result<Vec<WordRoot>, String>),
    Fields(Result<Vec<StandardField>, String>),
    /// How many rows a statement affected.
    Affected(Result<u64, String>),
    Counted(Result<i64, String>),
    /// The composition of a field, or `None` if there is no such field.
    Composition(Result<Option<Vec<i32>>, String>),
    User(Result<Option<User>, String>),
    Salt(String),
    Token(Result<String, String>),
    /// The role that a valid token names.
    Claims(Result<String, String>),
    /// How many vectors the model produced.
    Embedded(Result<usize, String>),
    Hits(Result<Vec<Hit>, String>),
    Exists(Result<bool, String>),
    /// An action without a result of its own was performed.
    Completed(Result<(), String>),
}

/// The action answers the request with this status and this text.
pub open spec fn responds_text(action: Action, status: u16, text: Seq<char>) -> bool {
    action matches Action::Respond(reply) && reply.status == status && (reply.body matches Body::Text(
        t,
    ) && t@ == text)
}

/// The action answers the request with this status and no body.
pub open spec fn responds_empty(action: Action, status: u16) -> bool {
    action matches Action::Respond(reply) && reply.status == status && reply.body is Empty
}

/// The reply with this status and this text.
pub fn text_reply(status: u16, text: String) -> (action: Action)
    ensures
        responds_text(action, status, text@),
{
    Action::Respond(Reply { status, body: Body::Text(text) })
}

/// The reply with this status and no body.
pub fn empty_reply(status: u16) -> (action: Action)
    ensures
        responds_empty(action, status),
{
    Action::Respond(Reply { status, body: Body::Empty })
}

/// `label` followed by `detail`.
pub fn labelled(label: &str, detail: &str) -> (text: String)
    ensures
        text@ == label@ + detail@,
{
    let mut text = String::from_str(label);
    text.append(detail);
    text
}

} // verus!
