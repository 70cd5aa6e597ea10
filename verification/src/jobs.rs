//! Jobs that run when the service starts, and the check of its health.

use crate::exchange::{
    labelled, Action, Body, Collection, Event, IndexPoint, IndexPointView, Reply,
    EMBEDDING_DIMENSION,
};
use crate::model::{StandardField, StandardFieldView, WordRoot, WordRootView};
use crate::sync::{
    field_embedding_text, field_point, field_text, point_id_of, point_of_field, point_of_root,
    root_embedding_text, root_point, root_text,
};
use crate::text::copy_text;
use vstd::prelude::*;

verus! {

// ---------------------------------------------------------------------------
// Bringing the vector index in line with the store
// ---------------------------------------------------------------------------
/// Where a resynchronisation stands.
#[derive(Debug, PartialEq, Eq)]
pub enum Resync {
    /// The job was asked for and has not begun.
    Requested,
    /// The store was asked for every entry of the kind.
    Loading,
    /// The model was asked to embed every entry; these are their points.
    Embedding(Vec<IndexPoint>),
    /// The index was asked to take the points.
    Indexing,
    /// The job ended.
    Finished,
    /// An event came that answers nothing.
    Failed,
}

/// The points of all word roots: the point of the root at index `k` has the
/// vector at index `k`.
pub open spec fn root_points(roots: Seq<WordRootView>) -> Seq<IndexPointView> {
    Seq::new(roots.len(), |k: int| root_point(roots[k], k as usize))
}

/// The texts that are embedded for all word roots, in order.
pub open spec fn root_texts(roots: Seq<WordRootView>) -> Seq<Seq<char>> {
    Seq::new(
        roots.len(),
        |k: int| root_text(roots[k].cn_name, roots[k].en_full_name, roots[k].associated_terms),
    )
}

/// The points of all standard fields: the point of the field at index `k`
/// has the vector at index `k`.
pub open spec fn field_points(fields: Seq<StandardFieldView>) -> Seq<IndexPointView> {
    Seq::new(fields.len(), |k: int| field_point(fields[k], k as usize))
}

/// The texts that are embedded for all standard fields, in order.
pub open spec fn field_texts(fields: Seq<StandardFieldView>) -> Seq<Seq<char>> {
    Seq::new(fields.len(), |k: int| field_text(fields[k].field_cn_name, fields[k].associated_terms))
}

/// What a resynchronisation does once the entries are read and embedded, and
/// how it ends. The same for both kinds.
pub open spec fn resync_tail(
    collection: Collection,
    state: Resync,
    event: Event,
    next: Resync,
    action: Action,
) -> bool {
    match (state, event) {
        (Resync::Embedding(points), Event::Embedded(Ok(vectors))) if vectors == points.len() => {
            &&& next is Indexing
            &&& action matches Action::Upsert { collection: into, points: sent }
            &&& into == collection
            &&& sent.deep_view() == points.deep_view()
        },
        (Resync::Embedding(_), Event::Embedded(_)) => next is Finished && action is Done,
        (Resync::Indexing, Event::Completed(_)) => next is Finished && action is Done,
        _ => next is Failed && action is Abort,
    }
}

/// One step in the resynchronisation of the word roots.
///
/// Every root the store holds is read and embedded, all in one call, and one
/// point for each is written, all in one call, under the root's own
/// identifier and with the vector of that root. If the store holds nothing
/// or cannot be read, or the model fails, nothing is written; what the index
/// answers is not looked at.
pub open spec fn resync_roots_step(state: Resync, event: Event, next: Resync, action: Action) -> bool {
    match (state, event) {
        (Resync::Requested, Event::Start) => next is Loading && action is LoadRoots,
        (Resync::Loading, Event::Roots(Ok(roots))) if roots.len() > 0 => {
            &&& next matches Resync::Embedding(points)
            &&& points.deep_view() == root_points(roots.deep_view())
            &&& action matches Action::Embed(texts)
            &&& texts.deep_view() == root_texts(roots.deep_view())
        },
        (Resync::Loading, Event::Roots(_)) => next is Finished && action is Done,
        (Resync::Loading, _) => next is Failed && action is Abort,
        _ => resync_tail(Collection::WordRoots, state, event, next, action),
    }
}

/// One step in the resynchronisation of the standard fields: as for the word
/// roots, with the fields' texts and points.
pub open spec fn resync_fields_step(state: Resync, event: Event, next: Resync, action: Action) -> bool {
    match (state, event) {
        (Resync::Requested, Event::Start) => next is Loading && action is LoadFields,
        (Resync::Loading, Event::Fields(Ok(fields))) if fields.len() > 0 => {
            &&& next matches Resync::Embedding(points)
            &&& points.deep_view() == field_points(fields.deep_view())
            &&& action matches Action::Embed(texts)
            &&& texts.deep_view() == field_texts(fields.deep_view())
        },
        (Resync::Loading, Event::Fields(_)) => next is Finished && action is Done,
        (Resync::Loading, _) => next is Failed && action is Abort,
        _ => resync_tail(Collection::StandardFields, state, event, next, action),
    }
}

/// A resynchronisation writes one point for each entry of the store, the
/// point of entry `k` under that entry's identifier.
pub proof fn lemma_resync_covers_every_root(roots: Seq<WordRootView>)
    requires
        roots.len() <= usize::MAX,
    ensures
        root_points(roots).len() == roots.len(),
        root_texts(roots).len() == roots.len(),
        forall|k: int|
            0 <= k < roots.len() ==> (#[trigger] root_points(roots)[k]).id == point_id_of(roots[k].id) && root_points(roots)[k].vector == k,
{
}

/// The points and the texts of all word roots.
pub fn plan_roots(roots: &Vec<WordRoot>) -> (plan: (Vec<IndexPoint>, Vec<String>))
    ensures
        plan.0.deep_view() == root_points(roots.deep_view()),
        plan.1.deep_view() == root_texts(roots.deep_view()),
{
    let mut points: Vec<IndexPoint> = Vec::new();
    let mut texts: Vec<String> = Vec::new();
    let mut i: usize = 0;
    while i < roots.len()
        invariant
            i <= roots.len(),
            points.deep_view() == root_points(roots.deep_view().take(i as int)),
            texts.deep_view() == root_texts(roots.deep_view().take(i as int)),
        decreases roots.len() - i,
    {
        let point = point_of_root(&roots[i], i);
        let text = root_embedding_text(
            roots[i].cn_name.as_str(),
            &roots[i].en_full_name,
            &roots[i].associated_terms,
        );
        let ghost points_before = points.deep_view();
        let ghost texts_before = texts.deep_view();
        points.push(point);
        texts.push(text);
        proof {
            let upto = roots.deep_view().take(i + 1);
            assert(upto[i as int] == roots@[i as int]@);
            assert(points.deep_view() =~= points_before.push(point@));
            assert(texts.deep_view() =~= texts_before.push(text@));
            assert(points.deep_view() =~= root_points(upto));
            assert(texts.deep_view() =~= root_texts(upto));
        }
        i += 1;
    }
    assert(roots.deep_view().take(i as int) =~= roots.deep_view());
    (points, texts)
}

/// The points and the texts of all standard fields.
pub fn plan_fields(fields: &Vec<StandardField>) -> (plan: (Vec<IndexPoint>, Vec<String>))
    ensures
        plan.0.deep_view() == field_points(fields.deep_view()),
        plan.1.deep_view() == field_texts(fields.deep_view()),
{
    let mut points: Vec<IndexPoint> = Vec::new();
    let mut texts: Vec<String> = Vec::new();
    let mut i: usize = 0;
    while i < fields.len()
        invariant
            i <= fields.len(),
            points.deep_view() == field_points(fields.deep_view().take(i as int)),
            texts.deep_view() == field_texts(fields.deep_view().take(i as int)),
        decreases fields.len() - i,
    {
        let point = point_of_field(&fields[i], i);
        let text = field_embedding_text(
            fields[i].field_cn_name.as_str(),
            &fields[i].associated_terms,
        );
        let ghost points_before = points.deep_view();
        let ghost texts_before = texts.deep_view();
        points.push(point);
        texts.push(text);
        proof {
            let upto = fields.deep_view().take(i + 1);
            assert(upto[i as int] == fields@[i as int]@);
            assert(points.deep_view() =~= points_before.push(point@));
            assert(texts.deep_view() =~= texts_before.push(text@));
            assert(points.deep_view() =~= field_points(upto));
            assert(texts.deep_view() =~= field_texts(upto));
        }
        i += 1;
    }
    assert(fields.deep_view().take(i as int) =~= fields.deep_view());
    (points, texts)
}

fn finish_resync(collection: Collection, state: Resync, event: Event) -> (step: (Resync, Action))
    requires
        !(state is Requested),
        !(state is Loading),
    ensures
        resync_tail(collection, state, event, step.0, step.1),
{
    match (state, event) {
        (Resync::Embedding(points), Event::Embedded(embedded)) => {
            match embedded {
                Ok(vectors) => {
                    if vectors == points.len() {
                        (Resync::Indexing, Action::Upsert { collection, points })
                    } else {
                        (Resync::Finished, Action::Done)
                    }
                },
                Err(_) => (Resync::Finished, Action::Done),
            }
        },
        (Resync::Indexing, Event::Completed(_)) => (Resync::Finished, Action::Done),
        _ => (Resync::Failed, Action::Abort),
    }
}

/// One step in the resynchronisation of the word roots: see
/// `resync_roots_step`. The job starts in `Resync::Requested` with
/// `Event::Start`.
pub fn sync_roots_to_qdrant(state: Resync, event: Event) -> (step: (Resync, Action))
    ensures
        resync_roots_step(state, event, step.0, step.1),
{
    match (state, event) {
        (Resync::Requested, Event::Start) => (Resync::Loading, Action::LoadRoots),
        (Resync::Requested, _) => (Resync::Failed, Action::Abort),
        (Resync::Loading, Event::Roots(Ok(roots))) => {
            if roots.len() > 0 {
                let (points, texts) = plan_roots(&roots);
                (Resync::Embedding(points), Action::Embed(texts))
            } else {
                (Resync::Finished, Action::Done)
            }
        },
        (Resync::Loading, Event::Roots(Err(_))) => (Resync::Finished, Action::Done),
        (Resync::Loading, _) => (Resync::Failed, Action::Abort),
        (state, event) => finish_resync(Collection::WordRoots, state, event),
    }
}

/// One step in the resynchronisation of the standard fields: see
/// `resync_fields_step`. The job starts in `Resync::Requested` with
/// `Event::Start`.
pub fn sync_fields_to_qdrant(state: Resync, event: Event) -> (step: (Resync, Action))
    ensures
        resync_fields_step(state, event, step.0, step.1),
{
    match (state, event) {
        (Resync::Requested, Event::Start) => (Resync::Loading, Action::LoadFields),
        (Resync::Requested, _) => (Resync::Failed, Action::Abort),
        (Resync::Loading, Event::Fields(Ok(fields))) => {
            if fields.len() > 0 {
                let (points, texts) = plan_fields(&fields);
                (Resync::Embedding(points), Action::Embed(texts))
            } else {
                (Resync::Finished, Action::Done)
            }
        },
        (Resync::Loading, Event::Fields(Err(_))) => (Resync::Finished, Action::Done),
        (Resync::Loading, _) => (Resync::Failed, Action::Abort),
        (state, event) => finish_resync(Collection::StandardFields, state, event),
    }
}

// ---------------------------------------------------------------------------
// Warming up the tokenizer
// ---------------------------------------------------------------------------
/// Where the warm-up of the tokenizer stands.
#[derive(Debug, PartialEq, Eq)]
pub enum WarmUp {
    /// The job was asked for and has not begun.
    Requested,
    /// The store was asked for every word root.
    Loading,
    /// The tokenizer was asked to learn the names.
    Learning,
    /// The job ended.
    Finished,
    /// An event came that answers nothing.
    Failed,
}

/// The names of the word roots, in order.
pub open spec fn root_names(roots: Seq<WordRootView>) -> Seq<Seq<char>> {
    Seq::new(roots.len(), |k: int| roots[k].cn_name)
}

/// One step in the warm-up of the tokenizer.
///
/// The name of every word root the store holds is learned before the service
/// takes requests. If the store cannot be read, the job fails with the
/// store's message, and the service must not start.
pub open spec fn warm_up_step(state: WarmUp, event: Event, next: WarmUp, action: Action) -> bool {
    match (state, event) {
        (WarmUp::Requested, Event::Start) => next is Loading && action is LoadRoots,
        (WarmUp::Loading, Event::Roots(Ok(roots))) => {
            &&& next is Learning
            &&& action matches Action::Learn(terms)
            &&& terms.deep_view() == root_names(roots.deep_view())
        },
        (WarmUp::Loading, Event::Roots(Err(failure))) => {
            &&& next is Finished
            &&& action matches Action::Fatal(message)
            &&& message@ == failure@
        },
        (WarmUp::Learning, Event::Completed(_)) => next is Finished && action is Done,
        _ => next is Failed && action is Abort,
    }
}

/// The names of the word roots, in order.
pub fn names_of_roots(roots: &Vec<WordRoot>) -> (names: Vec<String>)
    ensures
        names.deep_view() == root_names(roots.deep_view()),
{
    let mut names: Vec<String> = Vec::new();
    let mut i: usize = 0;
    while i < roots.len()
        invariant
            i <= roots.len(),
            names.deep_view() == root_names(roots.deep_view().take(i as int)),
        decreases roots.len() - i,
    {
        let name = copy_text(roots[i].cn_name.as_str());
        let ghost before = names.deep_view();
        names.push(name);
        proof {
            let upto = roots.deep_view().take(i + 1);
            assert(upto[i as int] == roots@[i as int]@);
            assert(names.deep_view() =~= before.push(name@));
            assert(names.deep_view() =~= root_names(upto));
        }
        i += 1;
    }
    assert(roots.deep_view().take(i as int) =~= roots.deep_view());
    names
}

/// One step in the warm-up of the tokenizer: see `warm_up_step`. The job
/// starts in `WarmUp::Requested` with `Event::Start`.
pub fn init_custom_dictionary(state: WarmUp, event: Event) -> (step: (WarmUp, Action))
    ensures
        warm_up_step(state, event, step.0, step.1),
{
    match (state, event) {
        (WarmUp::Requested, Event::Start) => (WarmUp::Loading, Action::LoadRoots),
        (WarmUp::Loading, Event::Roots(Ok(roots))) => {
            (WarmUp::Learning, Action::Learn(names_of_roots(&roots)))
        },
        (WarmUp::Loading, Event::Roots(Err(failure))) => (WarmUp::Finished, Action::Fatal(failure)),
        (WarmUp::Learning, Event::Completed(_)) => (WarmUp::Finished, Action::Done),
        _ => (WarmUp::Failed, Action::Abort),
    }
}

// ---------------------------------------------------------------------------
// Setting up the collections of the vector index
// ---------------------------------------------------------------------------
/// Where the setting up of the collections stands.
#[derive(Debug, PartialEq, Eq)]
pub enum Setup {
    /// The job was asked for and has not begun.
    Requested,
    /// The index was asked whether this collection exists.
    Checking(Collection),
    /// The index was asked to create this collection.
    Creating(Collection),
    /// The job ended.
    Finished,
    /// An event came that answers nothing.
    Failed,
}

/// What follows once a collection is known to exist: the check of the next
/// collection, or the end of the job after the last.
pub open spec fn after_collection(collection: Collection, next: Setup, action: Action) -> bool {
    match collection {
        Collection::WordRoots => {
            &&& next == Setup::Checking(Collection::StandardFields)
            &&& action == Action::CollectionExists(Collection::StandardFields)
        },
        Collection::StandardFields => next is Finished && action is Done,
    }
}

/// One step in the setting up of the collections.
///
/// The two collections are taken in turn, the word roots first. One that
/// exists is left alone. One that does not, or of which the index cannot
/// say, is created for vectors of 384 dimensions. If that fails the job
/// fails, and the service must not start.
pub open spec fn setup_step(state: Setup, event: Event, next: Setup, action: Action) -> bool {
    match (state, event) {
        (Setup::Requested, Event::Start) => {
            &&& next == Setup::Checking(Collection::WordRoots)
            &&& action == Action::CollectionExists(Collection::WordRoots)
        },
        (Setup::Checking(collection), Event::Exists(Ok(true))) => after_collection(
            collection,
            next,
            action,
        ),
        (Setup::Checking(collection), Event::Exists(_)) => {
            &&& next == Setup::Creating(collection)
            &&& action == Action::CreateCollection { collection, dimension: EMBEDDING_DIMENSION }
        },
        (Setup::Creating(collection), Event::Completed(Ok(_))) => after_collection(
            collection,
            next,
            action,
        ),
        (Setup::Creating(collection), Event::Completed(Err(_))) => {
            &&& next is Finished
            &&& action matches Action::Fatal(message)
            &&& message@ == "无法创建 Qdrant 集合: "@ + collection.name_text()
        },
        _ => next is Failed && action is Abort,
    }
}

fn next_collection(collection: Collection) -> (step: (Setup, Action))
    ensures
        after_collection(collection, step.0, step.1),
{
    match collection {
        Collection::WordRoots => (
            Setup::Checking(Collection::StandardFields),
            Action::CollectionExists(Collection::StandardFields),
        ),
        Collection::StandardFields => (Setup::Finished, Action::Done),
    }
}

/// One step in the setting up of the collections: see `setup_step`. The job
/// starts in `Setup::Requested` with `Event::Start`.
pub fn init_qdrant_collections(state: Setup, event: Event) -> (step: (Setup, Action))
    ensures
        setup_step(state, event, step.0, step.1),
{
    match (state, event) {
        (Setup::Requested, Event::Start) => (
            Setup::Checking(Collection::WordRoots),
            Action::CollectionExists(Collection::WordRoots),
        ),
        (Setup::Checking(collection), Event::Exists(answer)) => {
            match answer {
                Ok(true) => next_collection(collection),
                _ => (
                    Setup::Creating(collection),
                    Action::CreateCollection { collection, dimension: EMBEDDING_DIMENSION },
                ),
            }
        },
        (Setup::Creating(collection), Event::Completed(Ok(_))) => next_collection(collection),
        (Setup::Creating(collection), Event::Completed(Err(_))) => {
            (
                Setup::Finished,
                Action::Fatal(labelled("无法创建 Qdrant 集合: ", collection.name())),
            )
        },
        _ => (Setup::Failed, Action::Abort),
    }
}

// ---------------------------------------------------------------------------
// The check of health
// ---------------------------------------------------------------------------
/// Where a check of health stands.
#[derive(Debug, PartialEq, Eq)]
pub enum HealthCheck {
    /// The check was asked for and has not begun.
    Requested,
    /// The store was asked for a sign of life.
    Pinging,
    /// The request was answered.
    Finished,
    /// An event came that answers nothing.
    Failed,
}

/// One step in a check of health: the service is up, with status 200, if the
/// store answers, and down, with status 503, if it does not.
pub open spec fn health_step(state: HealthCheck, event: Event, next: HealthCheck, action: Action) -> bool {
    match (state, event) {
        (HealthCheck::Requested, Event::Start) => next is Pinging && action is Ping,
        (HealthCheck::Pinging, Event::Completed(Ok(_))) => {
            &&& next is Finished
            &&& action matches Action::Respond(reply)
            &&& reply.status == 200
            &&& reply.body is Up
        },
        (HealthCheck::Pinging, Event::Completed(Err(_))) => {
            &&& next is Finished
            &&& action matches Action::Respond(reply)
            &&& reply.status == 503
            &&& reply.body is Down
        },
        _ => next is Failed && action is Abort,
    }
}

/// One step in a check of health: see `health_step`. The flow starts in
/// `HealthCheck::Requested` with `Event::Start`.
pub fn health_check(state: HealthCheck, event: Event) -> (step: (HealthCheck, Action))
    ensures
        health_step(state, event, step.0, step.1),
{
    match (state, event) {
        (HealthCheck::Requested, Event::Start) => (HealthCheck::Pinging, Action::Ping),
        (HealthCheck::Pinging, Event::Completed(Ok(_))) => (
            HealthCheck::Finished,
            Action::Respond(Reply { status: 200, body: Body::Up }),
        ),
        (HealthCheck::Pinging, Event::Completed(Err(_))) => (
            HealthCheck::Finished,
            Action::Respond(Reply { status: 503, body: Body::Down }),
        ),
        _ => (HealthCheck::Failed, Action::Abort),
    }
}

} // verus!
