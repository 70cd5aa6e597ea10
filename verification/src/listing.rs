//! Listings of the vocabulary by page, and the word roots that a standard
//! field is composed of.

use crate::exchange::{labelled, responds_text, text_reply, Action, Body, Collection, Event, Reply};
use crate::model::{
    PaginatedResponse, PaginationQuery, StandardField, StandardFieldView, WordRoot, WordRootView,
};
use crate::search::{like_pattern, pattern_for};
use crate::text::{copy_opt_text, copy_text, is_empty_text};
use vstd::prelude::*;

verus! {

/// The page that is listed where the request names none.
pub const DEFAULT_PAGE: i64 = 1;

/// The size of a page where the request names none.
pub const DEFAULT_PAGE_SIZE: i64 = 20;

// ---------------------------------------------------------------------------
// Pages
// ---------------------------------------------------------------------------
/// Where a listing stands.
#[derive(Debug, PartialEq, Eq)]
pub enum Listing {
    /// A request for a page, not yet acted on.
    Received(PaginationQuery),
    /// The store was asked how many entries match; the page comes next.
    Counting { pattern: Option<String>, limit: i64, offset: i64 },
    /// The store was asked for the page; the entries that match number
    /// this many.
    Paging(i64),
    /// The request was answered.
    Finished,
    /// An event came that answers nothing.
    Failed,
}

/// The page that a request asks for.
pub open spec fn page_of(page: Option<i64>) -> int {
    match page {
        Some(page) => page as int,
        None => DEFAULT_PAGE as int,
    }
}

/// The size of the pages that a request asks for.
pub open spec fn page_size_of(page_size: Option<i64>) -> int {
    match page_size {
        Some(size) => size as int,
        None => DEFAULT_PAGE_SIZE as int,
    }
}

/// How many entries come before the page that a request asks for.
pub open spec fn offset_of(page: Option<i64>, page_size: Option<i64>) -> int {
    (page_of(page) - 1) * page_size_of(page_size)
}

/// The offset of the page is a number of 64 bits.
pub open spec fn page_in_range(page: Option<i64>, page_size: Option<i64>) -> bool {
    i64::MIN <= offset_of(page, page_size) <= i64::MAX
}

/// The pattern of a listing: none where the request has no search text or
/// an empty one, else the pattern that matches every text which holds it.
pub open spec fn listing_pattern(q: Option<Seq<char>>) -> Option<Seq<char>> {
    match q {
        Some(text) => if text.len() == 0 {
            None
        } else {
            Some(like_pattern(text))
        },
        None => None,
    }
}

impl Listing {
    /// The request in hand asks for a page whose offset is a number of 64
    /// bits.
    pub open spec fn fits(self) -> bool {
        self matches Listing::Received(query) ==> page_in_range(query.page, query.page_size)
    }
}

/// The message that starts the answer to a listing that the store refused.
pub open spec fn listing_refusal(collection: Collection) -> Seq<char> {
    match collection {
        Collection::WordRoots => "查询异常: "@,
        Collection::StandardFields => "查询列表失败: "@,
    }
}

/// What the first two steps of a listing do. The same for both kinds.
///
/// The page defaults to the first and its size to twenty. The store is asked
/// how many entries match the search text, all of them where there is none;
/// a count that fails stands as zero. Then the store is asked for the page.
pub open spec fn listing_head(
    collection: Collection,
    state: Listing,
    event: Event,
    next: Listing,
    action: Action,
) -> bool {
    match (state, event) {
        (Listing::Received(query), Event::Start) => {
            &&& next matches Listing::Counting { pattern, limit, offset }
            &&& pattern.deep_view() == listing_pattern(query.q.deep_view())
            &&& limit == page_size_of(query.page_size)
            &&& offset == offset_of(query.page, query.page_size)
            &&& action matches Action::Count(kind, counted)
            &&& kind == collection
            &&& counted.deep_view() == listing_pattern(query.q.deep_view())
        },
        (Listing::Counting { pattern, limit, offset }, Event::Counted(counted)) => {
            &&& next == Listing::Paging(
                match counted {
                    Ok(total) => total,
                    Err(_) => 0,
                },
            )
            &&& match collection {
                Collection::WordRoots => {
                    &&& action matches Action::PageRoots { pattern: like, limit: size, offset: skip }
                    &&& like.deep_view() == pattern.deep_view()
                    &&& size == limit
                    &&& skip == offset
                },
                Collection::StandardFields => {
                    &&& action matches Action::PageFields {
                        pattern: like,
                        limit: size,
                        offset: skip,
                    }
                    &&& like.deep_view() == pattern.deep_view()
                    &&& size == limit
                    &&& skip == offset
                },
            }
        },
        _ => next is Failed && action is Abort,
    }
}

/// One step in a listing of word roots: see `listing_head`; then the page
/// is the answer, with the count and status 200, or the store's refusal,
/// with status 500.
pub open spec fn root_listing_step(state: Listing, event: Event, next: Listing, action: Action) -> bool {
    match (state, event) {
        (Listing::Paging(total), Event::Roots(Ok(items))) => {
            &&& next is Finished
            &&& action matches Action::Respond(reply)
            &&& reply.status == 200
            &&& reply.body matches Body::RootPage(page)
            &&& page.total == total
            &&& page.items.deep_view() == items.deep_view()
        },
        (Listing::Paging(_), Event::Roots(Err(refusal))) => {
            &&& next is Finished
            &&& responds_text(action, 500, listing_refusal(Collection::WordRoots) + refusal@)
        },
        (Listing::Paging(_), _) => next is Failed && action is Abort,
        _ => listing_head(Collection::WordRoots, state, event, next, action),
    }
}

/// One step in a listing of standard fields: see `listing_head`; then the
/// page is the answer, with the count and status 200, or the store's
/// refusal, with status 500.
pub open spec fn field_listing_step(state: Listing, event: Event, next: Listing, action: Action) -> bool {
    match (state, event) {
        (Listing::Paging(total), Event::Fields(Ok(items))) => {
            &&& next is Finished
            &&& action matches Action::Respond(reply)
            &&& reply.status == 200
            &&& reply.body matches Body::FieldPage(page)
            &&& page.total == total
            &&& page.items.deep_view() == items.deep_view()
        },
        (Listing::Paging(_), Event::Fields(Err(refusal))) => {
            &&& next is Finished
            &&& responds_text(action, 500, listing_refusal(Collection::StandardFields) + refusal@)
        },
        (Listing::Paging(_), _) => next is Failed && action is Abort,
        _ => listing_head(Collection::StandardFields, state, event, next, action),
    }
}

/// Whether the offset of the page that the request asks for is a number of
/// 64 bits.
pub fn page_fits(query: &PaginationQuery) -> (fits: bool)
    ensures
        fits == page_in_range(query.page, query.page_size),
{
    let page: i64 = match query.page {
        Some(page) => page,
        None => DEFAULT_PAGE,
    };
    let size: i64 = match query.page_size {
        Some(size) => size,
        None => DEFAULT_PAGE_SIZE,
    };
    let before: i128 = (page as i128) - 1;
    assert(-0x8000_0000_0000_0001 <= before <= 0x7fff_ffff_ffff_fffe);
    assert(-0x8000_0000_0000_0000 <= size <= 0x7fff_ffff_ffff_ffff);
    assert(-0x4000_0000_0000_0000_8000_0000_0000_0000 <= before * size
        <= 0x4000_0000_0000_0000_8000_0000_0000_0000) by (nonlinear_arith)
        requires
            -0x8000_0000_0000_0001 <= before <= 0x7fff_ffff_ffff_fffe,
            -0x8000_0000_0000_0000 <= size <= 0x7fff_ffff_ffff_ffff,
    ;
    let offset: i128 = before * (size as i128);
    offset >= (i64::MIN as i128) && offset <= (i64::MAX as i128)
}

/// The pattern of a listing.
pub fn pattern_of(q: &Option<String>) -> (pattern: Option<String>)
    ensures
        pattern.deep_view() == listing_pattern(q.deep_view()),
{
    match q {
        Some(text) => {
            if is_empty_text(text.as_str()) {
                None
            } else {
                Some(pattern_for(text.as_str()))
            }
        },
        None => None,
    }
}

fn begin_listing(collection: Collection, state: Listing, event: Event) -> (step: (Listing, Action))
    requires
        state.fits(),
        !(state is Paging),
    ensures
        listing_head(collection, state, event, step.0, step.1),
{
    match (state, event) {
        (Listing::Received(query), Event::Start) => {
            let page: i64 = match query.page {
                Some(page) => page,
                None => DEFAULT_PAGE,
            };
            let limit: i64 = match query.page_size {
                Some(size) => size,
                None => DEFAULT_PAGE_SIZE,
            };
            let before: i128 = (page as i128) - 1;
            let offset: i64 = (before * (limit as i128)) as i64;
            let pattern = pattern_of(&query.q);
            let counted = copy_opt_text(&pattern);
            (Listing::Counting { pattern, limit, offset }, Action::Count(collection, counted))
        },
        (Listing::Counting { pattern, limit, offset }, Event::Counted(counted)) => {
            let total: i64 = match counted {
                Ok(total) => total,
                Err(_) => 0,
            };
            let action = match collection {
                Collection::WordRoots => Action::PageRoots { pattern, limit, offset },
                Collection::StandardFields => Action::PageFields { pattern, limit, offset },
            };
            (Listing::Paging(total), action)
        },
        _ => (Listing::Failed, Action::Abort),
    }
}

/// One step in a listing of word roots: see `root_listing_step`. The flow
/// starts in `Listing::Received` with `Event::Start`.
pub fn list_roots(state: Listing, event: Event) -> (step: (Listing, Action))
    requires
        state.fits(),
    ensures
        root_listing_step(state, event, step.0, step.1),
        step.0.fits(),
{
    match (state, event) {
        (Listing::Paging(total), Event::Roots(Ok(items))) => {
            (
                Listing::Finished,
                Action::Respond(
                    Reply { status: 200, body: Body::RootPage(PaginatedResponse { items, total }) },
                ),
            )
        },
        (Listing::Paging(_), Event::Roots(Err(refusal))) => {
            (Listing::Finished, text_reply(500, labelled("查询异常: ", refusal.as_str())))
        },
        (Listing::Paging(_), _) => (Listing::Failed, Action::Abort),
        (state, event) => begin_listing(Collection::WordRoots, state, event),
    }
}

/// One step in a listing of standard fields: see `field_listing_step`. The
/// flow starts in `Listing::Received` with `Event::Start`.
pub fn list_fields(state: Listing, event: Event) -> (step: (Listing, Action))
    requires
        state.fits(),
    ensures
        field_listing_step(state, event, step.0, step.1),
        step.0.fits(),
{
    match (state, event) {
        (Listing::Paging(total), Event::Fields(Ok(items))) => {
            (
                Listing::Finished,
                Action::Respond(
                    Reply { status: 200, body: Body::FieldPage(PaginatedResponse { items, total }) },
                ),
            )
        },
        (Listing::Paging(_), Event::Fields(Err(refusal))) => {
            (Listing::Finished, text_reply(500, labelled("查询列表失败: ", refusal.as_str())))
        },
        (Listing::Paging(_), _) => (Listing::Failed, Action::Abort),
        (state, event) => begin_listing(Collection::StandardFields, state, event),
    }
}

// ---------------------------------------------------------------------------
// The word roots of a standard field
// ---------------------------------------------------------------------------
/// Where a request for the details of a field stands.
#[derive(Debug, PartialEq, Eq)]
pub enum Details {
    /// A request for the field with this identifier, not yet acted on.
    Received(i32),
    /// The store was asked for the composition of the field.
    Loading,
    /// The store was asked for the word roots of this composition.
    Joining(Vec<i32>),
    /// The request was answered.
    Finished,
    /// An event came that answers nothing.
    Failed,
}

/// The rows with this identifier, in the order of the rows.
pub open spec fn rows_with(rows: Seq<WordRootView>, id: i32) -> Seq<WordRootView>
    decreases rows.len(),
{
    if rows.len() == 0 {
        Seq::empty()
    } else {
        let earlier = rows_with(rows.drop_last(), id);
        if rows.last().id == id {
            earlier.push(rows.last())
        } else {
            earlier
        }
    }
}

/// The word roots of a composition, in the order of the composition: for
/// each identifier in turn, the rows that have it. An identifier without a
/// row is passed over; one that stands twice brings its row twice.
pub open spec fn arranged(ids: Seq<i32>, rows: Seq<WordRootView>) -> Seq<WordRootView>
    decreases ids.len(),
{
    if ids.len() == 0 {
        Seq::empty()
    } else {
        arranged(ids.drop_last(), rows) + rows_with(rows, ids.last())
    }
}

/// Every row that `rows_with` gives has the identifier asked for.
pub proof fn lemma_rows_with_have_the_id(rows: Seq<WordRootView>, id: i32)
    ensures
        forall|k: int| 0 <= k < rows_with(rows, id).len() ==> (#[trigger] rows_with(rows, id)[k]).id == id,
    decreases rows.len(),
{
    if rows.len() > 0 {
        lemma_rows_with_have_the_id(rows.drop_last(), id);
    }
}

/// Where the store holds exactly one word root for each identifier of a
/// composition, the details list the roots of the composition one for one
/// and in its order, whatever the order in which the store gave the rows.
pub proof fn lemma_details_keep_composition_order(ids: Seq<i32>, rows: Seq<WordRootView>)
    requires
        forall|k: int| 0 <= k < ids.len() ==> (#[trigger] rows_with(rows, ids[k])).len() == 1,
    ensures
        arranged(ids, rows).len() == ids.len(),
        forall|k: int| 0 <= k < ids.len() ==> (#[trigger] arranged(ids, rows)[k]).id == ids[k],
    decreases ids.len(),
{
    if ids.len() > 0 {
        let front = ids.drop_last();
        assert forall|k: int| 0 <= k < front.len() implies (#[trigger] rows_with(
            rows,
            front[k],
        )).len() == 1 by {
            assert(front[k] == ids[k]);
        }
        lemma_details_keep_composition_order(front, rows);
        lemma_rows_with_have_the_id(rows, ids.last());
        let last = rows_with(rows, ids.last());
        assert(last == rows_with(rows, ids[ids.len() - 1]));
        assert(last.len() == 1);
        let all = arranged(ids, rows);
        assert(all == arranged(front, rows) + last);
        assert forall|k: int| 0 <= k < ids.len() implies (#[trigger] all[k]).id == ids[k] by {
            if k < front.len() {
                assert(all[k] == arranged(front, rows)[k]);
                assert(front[k] == ids[k]);
            } else {
                assert(all[k] == last[0]);
            }
        }
    }
}

/// The action answers the request with these word roots and status 200.
pub open spec fn responds_roots(action: Action, roots: Seq<WordRootView>) -> bool {
    action matches Action::Respond(reply) && reply.status == 200 && (reply.body matches Body::Roots(
        found,
    ) && found.deep_view() == roots)
}

/// One step in a request for the details of a field.
///
/// The composition of the field is read. A field that the store does not
/// hold is answered with status 404. An empty composition is answered with
/// no root. Else the word roots of the composition are read, and the answer
/// lists them in the order of the composition: see `arranged`. Where the
/// store fails, at either reading, the answer is no root, with status 200:
/// a reading does not pass a failure of the store on to the caller.
pub open spec fn details_step(state: Details, event: Event, next: Details, action: Action) -> bool {
    match (state, event) {
        (Details::Received(id), Event::Start) => {
            &&& next is Loading
            &&& action == Action::LoadComposition(id)
        },
        (Details::Loading, Event::Composition(Ok(Some(ids)))) => if ids.len() == 0 {
            &&& next is Finished
            &&& responds_roots(action, Seq::empty())
        } else {
            &&& next matches Details::Joining(kept)
            &&& kept@ == ids@
            &&& action matches Action::LoadRootsById(wanted)
            &&& wanted@ == ids@
        },
        (Details::Loading, Event::Composition(Ok(None))) => {
            &&& next is Finished
            &&& responds_text(action, 404, "未找到该字段"@)
        },
        (Details::Loading, Event::Composition(Err(_))) => {
            &&& next is Finished
            &&& responds_roots(action, Seq::empty())
        },
        (Details::Joining(ids), Event::Roots(Ok(rows))) => {
            &&& next is Finished
            &&& responds_roots(action, arranged(ids@, rows.deep_view()))
        },
        (Details::Joining(_), Event::Roots(Err(_))) => {
            &&& next is Finished
            &&& responds_roots(action, Seq::empty())
        },
        _ => next is Failed && action is Abort,
    }
}

/// The word roots of a composition, in the order of the composition.
pub fn arrange(ids: &Vec<i32>, rows: &Vec<WordRoot>) -> (roots: Vec<WordRoot>)
    ensures
        roots.deep_view() == arranged(ids@, rows.deep_view()),
{
    let mut roots: Vec<WordRoot> = Vec::new();
    let mut i: usize = 0;
    assert(ids@.take(0) =~= Seq::empty());
    while i < ids.len()
        invariant
            i <= ids.len(),
            roots.deep_view() == arranged(ids@.take(i as int), rows.deep_view()),
        decreases ids.len() - i,
    {
        let id = ids[i];
        let ghost before = roots.deep_view();
        let mut k: usize = 0;
        assert(rows.deep_view().take(0) =~= Seq::empty());
        assert(before + Seq::<WordRootView>::empty() =~= before);
        while k < rows.len()
            invariant
                k <= rows.len(),
                roots.deep_view() == before + rows_with(rows.deep_view().take(k as int), id),
            decreases rows.len() - k,
        {
            proof {
                let upto = rows.deep_view().take(k + 1);
                assert(upto.drop_last() =~= rows.deep_view().take(k as int));
                assert(upto.last() == rows@[k as int]@);
            }
            if rows[k].id == id {
                let row = rows[k].clone();
                let ghost so_far = roots.deep_view();
                roots.push(row);
                assert(roots.deep_view() =~= so_far.push(row@));
                assert(roots.deep_view() =~= before + rows_with(
                    rows.deep_view().take(k as int),
                    id,
                ).push(row@));
            }
            k += 1;
        }
        proof {
            assert(rows.deep_view().take(k as int) =~= rows.deep_view());
            let upto = ids@.take(i + 1);
            assert(upto.drop_last() =~= ids@.take(i as int));
            assert(upto.last() == id);
        }
        i += 1;
    }
    assert(ids@.take(i as int) =~= ids@);
    roots
}

/// A copy of the identifiers.
fn copy_ids(ids: &Vec<i32>) -> (copy: Vec<i32>)
    ensures
        copy@ == ids@,
{
    let mut copy: Vec<i32> = Vec::new();
    let mut i: usize = 0;
    while i < ids.len()
        invariant
            i <= ids.len(),
            copy@ == ids@.take(i as int),
        decreases ids.len() - i,
    {
        copy.push(ids[i]);
        assert(copy@ =~= ids@.take(i + 1));
        i += 1;
    }
    assert(ids@.take(i as int) =~= ids@);
    copy
}

/// The answer that lists these word roots.
fn answer_roots(roots: Vec<WordRoot>) -> (action: Action)
    ensures
        responds_roots(action, roots.deep_view()),
{
    Action::Respond(Reply { status: 200, body: Body::Roots(roots) })
}

/// The answer that lists no word root.
fn answer_no_root() -> (action: Action)
    ensures
        responds_roots(action, Seq::empty()),
{
    let none: Vec<WordRoot> = Vec::new();
    assert(none.deep_view() =~= Seq::empty());
    answer_roots(none)
}

/// One step in a request for the details of a field: see `details_step`.
/// The flow starts in `Details::Received` with `Event::Start`.
pub fn get_field_details(state: Details, event: Event) -> (step: (Details, Action))
    ensures
        details_step(state, event, step.0, step.1),
{
    match (state, event) {
        (Details::Received(id), Event::Start) => (Details::Loading, Action::LoadComposition(id)),
        (Details::Loading, Event::Composition(Ok(Some(ids)))) => {
            if ids.len() == 0 {
                (Details::Finished, answer_no_root())
            } else {
                let wanted = copy_ids(&ids);
                (Details::Joining(ids), Action::LoadRootsById(wanted))
            }
        },
        (Details::Loading, Event::Composition(Ok(None))) => {
            (Details::Finished, text_reply(404, copy_text("未找到该字段")))
        },
        (Details::Loading, Event::Composition(Err(_))) => (Details::Finished, answer_no_root()),
        (Details::Joining(ids), Event::Roots(Ok(rows))) => {
            (Details::Finished, answer_roots(arrange(&ids, &rows)))
        },
        (Details::Joining(_), Event::Roots(Err(_))) => (Details::Finished, answer_no_root()),
        _ => (Details::Failed, Action::Abort),
    }
}

} // verus!
