//! The vocabulary: word roots, standard fields, and the values that requests
//! and answers carry. Each type has a view in which texts are sequences of
//! characters; contracts speak of the views.

use crate::text::{copy_opt_text, copy_text};
use vstd::prelude::*;

verus! {

// ---------------------------------------------------------------------------
// Word roots
// ---------------------------------------------------------------------------
/// An atomic vocabulary unit as the store holds it. The identifier is the
/// store's, and is also the identifier of the root's point in the vector index.
#[derive(Debug, PartialEq, Eq)]
pub struct WordRoot {
    pub id: i32,
    pub cn_name: String,
    pub en_abbr: String,
    pub en_full_name: Option<String>,
    pub associated_terms: Option<String>,
    pub remark: Option<String>,
    /// Microseconds since the Unix epoch.
    pub created_at: Option<i64>,
}

pub struct WordRootView {
    pub id: i32,
    pub cn_name: Seq<char>,
    pub en_abbr: Seq<char>,
    pub en_full_name: Option<Seq<char>>,
    pub associated_terms: Option<Seq<char>>,
    pub remark: Option<Seq<char>>,
    pub created_at: Option<i64>,
}

impl View for WordRoot {
    type V = WordRootView;

    open spec fn view(&self) -> WordRootView {
        WordRootView {
            id: self.id,
            cn_name: self.cn_name@,
            en_abbr: self.en_abbr@,
            en_full_name: self.en_full_name.deep_view(),
            associated_terms: self.associated_terms.deep_view(),
            remark: self.remark.deep_view(),
            created_at: self.created_at,
        }
    }
}

impl DeepView for WordRoot {
    type V = WordRootView;

    open spec fn deep_view(&self) -> WordRootView {
        self@
    }
}

impl Clone for WordRoot {
    fn clone(&self) -> (copy: WordRoot)
        ensures
            copy@ == self@,
    {
        WordRoot {
            id: self.id,
            cn_name: copy_text(self.cn_name.as_str()),
            en_abbr: copy_text(self.en_abbr.as_str()),
            en_full_name: copy_opt_text(&self.en_full_name),
            associated_terms: copy_opt_text(&self.associated_terms),
            remark: copy_opt_text(&self.remark),
            created_at: self.created_at,
        }
    }
}

/// The content of a word root, as a request to create or change one gives it.
#[derive(Debug, PartialEq, Eq)]
pub struct CreateWordRoot {
    pub cn_name: String,
    pub en_abbr: String,
    pub en_full_name: Option<String>,
    pub associated_terms: Option<String>,
    pub remark: Option<String>,
}

pub struct CreateWordRootView {
    pub cn_name: Seq<char>,
    pub en_abbr: Seq<char>,
    pub en_full_name: Option<Seq<char>>,
    pub associated_terms: Option<Seq<char>>,
    pub remark: Option<Seq<char>>,
}

impl View for CreateWordRoot {
    type V = CreateWordRootView;

    open spec fn view(&self) -> CreateWordRootView {
        CreateWordRootView {
            cn_name: self.cn_name@,
            en_abbr: self.en_abbr@,
            en_full_name: self.en_full_name.deep_view(),
            associated_terms: self.associated_terms.deep_view(),
            remark: self.remark.deep_view(),
        }
    }
}

impl DeepView for CreateWordRoot {
    type V = CreateWordRootView;

    open spec fn deep_view(&self) -> CreateWordRootView {
        self@
    }
}

impl Clone for CreateWordRoot {
    fn clone(&self) -> (copy: CreateWordRoot)
        ensures
            copy@ == self@,
    {
        CreateWordRoot {
            cn_name: copy_text(self.cn_name.as_str()),
            en_abbr: copy_text(self.en_abbr.as_str()),
            en_full_name: copy_opt_text(&self.en_full_name),
            associated_terms: copy_opt_text(&self.associated_terms),
            remark: copy_opt_text(&self.remark),
        }
    }
}

/// The items of a batch import.
#[derive(Debug, PartialEq, Eq)]
pub struct BatchCreateWordRoot {
    pub items: Vec<CreateWordRoot>,
}

impl View for BatchCreateWordRoot {
    type V = Seq<CreateWordRootView>;

    open spec fn view(&self) -> Seq<CreateWordRootView> {
        self.items.deep_view()
    }
}

impl DeepView for BatchCreateWordRoot {
    type V = Seq<CreateWordRootView>;

    open spec fn deep_view(&self) -> Seq<CreateWordRootView> {
        self@
    }
}

/// What a batch import reports: how many items were stored, how many were
/// not, and one message for each that was not.
#[derive(Debug, PartialEq, Eq)]
pub struct ImportResult {
    pub success_count: usize,
    pub failure_count: usize,
    pub errors: Vec<String>,
}

pub struct ImportResultView {
    pub success_count: usize,
    pub failure_count: usize,
    pub errors: Seq<Seq<char>>,
}

impl View for ImportResult {
    type V = ImportResultView;

    open spec fn view(&self) -> ImportResultView {
        ImportResultView {
            success_count: self.success_count,
            failure_count: self.failure_count,
            errors: self.errors.deep_view(),
        }
    }
}

impl DeepView for ImportResult {
    type V = ImportResultView;

    open spec fn deep_view(&self) -> ImportResultView {
        self@
    }
}

// ---------------------------------------------------------------------------
// Standard fields
// ---------------------------------------------------------------------------
/// A composite vocabulary unit as the store holds it. `composition_ids` lists
/// the word roots it is assembled from, in the order of assembly.
#[derive(Debug, PartialEq, Eq)]
pub struct StandardField {
    pub id: i32,
    pub field_cn_name: String,
    pub field_en_name: String,
    pub composition_ids: Vec<i32>,
    pub data_type: Option<String>,
    pub associated_terms: Option<String>,
    pub is_standard: bool,
    /// Microseconds since the Unix epoch.
    pub created_at: Option<i64>,
}

pub struct StandardFieldView {
    pub id: i32,
    pub field_cn_name: Seq<char>,
    pub field_en_name: Seq<char>,
    pub composition_ids: Seq<i32>,
    pub data_type: Option<Seq<char>>,
    pub associated_terms: Option<Seq<char>>,
    pub is_standard: bool,
    pub created_at: Option<i64>,
}

impl View for StandardField {
    type V = StandardFieldView;

    open spec fn view(&self) -> StandardFieldView {
        StandardFieldView {
            id: self.id,
            field_cn_name: self.field_cn_name@,
            field_en_name: self.field_en_name@,
            composition_ids: self.composition_ids@,
            data_type: self.data_type.deep_view(),
            associated_terms: self.associated_terms.deep_view(),
            is_standard: self.is_standard,
            created_at: self.created_at,
        }
    }
}

impl DeepView for StandardField {
    type V = StandardFieldView;

    open spec fn deep_view(&self) -> StandardFieldView {
        self@
    }
}

/// The content of a standard field, as a request to create or change one
/// gives it.
#[derive(Debug, PartialEq, Eq)]
pub struct CreateFieldRequest {
    pub field_cn_name: String,
    pub field_en_name: String,
    pub composition_ids: Vec<i32>,
    pub data_type: Option<String>,
    pub associated_terms: Option<String>,
}

pub struct CreateFieldRequestView {
    pub field_cn_name: Seq<char>,
    pub field_en_name: Seq<char>,
    pub composition_ids: Seq<i32>,
    pub data_type: Option<Seq<char>>,
    pub associated_terms: Option<Seq<char>>,
}

impl View for CreateFieldRequest {
    type V = CreateFieldRequestView;

    open spec fn view(&self) -> CreateFieldRequestView {
        CreateFieldRequestView {
            field_cn_name: self.field_cn_name@,
            field_en_name: self.field_en_name@,
            composition_ids: self.composition_ids@,
            data_type: self.data_type.deep_view(),
            associated_terms: self.associated_terms.deep_view(),
        }
    }
}

impl DeepView for CreateFieldRequest {
    type V = CreateFieldRequestView;

    open spec fn deep_view(&self) -> CreateFieldRequestView {
        self@
    }
}

// ---------------------------------------------------------------------------
// Resolution and search
// ---------------------------------------------------------------------------
/// A piece of a resolved text with the word roots that match it, best first.
#[derive(Debug, PartialEq, Eq)]
pub struct Segment {
    pub word: String,
    pub candidates: Vec<WordRoot>,
}

pub struct SegmentView {
    pub word: Seq<char>,
    pub candidates: Seq<WordRootView>,
}

impl View for Segment {
    type V = SegmentView;

    open spec fn view(&self) -> SegmentView {
        SegmentView { word: self.word@, candidates: self.candidates.deep_view() }
    }
}

impl DeepView for Segment {
    type V = SegmentView;

    open spec fn deep_view(&self) -> SegmentView {
        self@
    }
}

/// A free-text query.
#[derive(Debug, PartialEq, Eq)]
pub struct SuggestQuery {
    pub q: String,
}

impl View for SuggestQuery {
    type V = Seq<char>;

    open spec fn view(&self) -> Seq<char> {
        self.q@
    }
}

/// The answer to a request for suggestions: the segments of the text.
#[derive(Debug, PartialEq, Eq)]
pub struct SuggestResponseV2 {
    pub segments: Vec<Segment>,
}

impl View for SuggestResponseV2 {
    type V = Seq<SegmentView>;

    open spec fn view(&self) -> Seq<SegmentView> {
        self.segments.deep_view()
    }
}

impl DeepView for SuggestResponseV2 {
    type V = Seq<SegmentView>;

    open spec fn deep_view(&self) -> Seq<SegmentView> {
        self@
    }
}

/// A word root that the vector index found near a query. `score` holds the
/// bits of the similarity, which this library carries and never reads.
#[derive(Debug, PartialEq, Eq)]
pub struct RootSuggestion {
    pub id: String,
    pub cn_name: String,
    pub en_abbr: String,
    pub score: u32,
}

pub struct RootSuggestionView {
    pub id: Seq<char>,
    pub cn_name: Seq<char>,
    pub en_abbr: Seq<char>,
    pub score: u32,
}

impl View for RootSuggestion {
    type V = RootSuggestionView;

    open spec fn view(&self) -> RootSuggestionView {
        RootSuggestionView {
            id: self.id@,
            cn_name: self.cn_name@,
            en_abbr: self.en_abbr@,
            score: self.score,
        }
    }
}

impl DeepView for RootSuggestion {
    type V = RootSuggestionView;

    open spec fn deep_view(&self) -> RootSuggestionView {
        self@
    }
}

// ---------------------------------------------------------------------------
// Listing
// ---------------------------------------------------------------------------
/// Which page of a listing is asked for, and an optional search text.
#[derive(Debug, PartialEq, Eq)]
pub struct PaginationQuery {
    pub page: Option<i64>,
    pub page_size: Option<i64>,
    pub q: Option<String>,
}

pub struct PaginationQueryView {
    pub page: Option<i64>,
    pub page_size: Option<i64>,
    pub q: Option<Seq<char>>,
}

impl View for PaginationQuery {
    type V = PaginationQueryView;

    open spec fn view(&self) -> PaginationQueryView {
        PaginationQueryView { page: self.page, page_size: self.page_size, q: self.q.deep_view() }
    }
}

/// One page of a listing, with the number of entries in the whole listing.
#[derive(Debug, PartialEq, Eq)]
pub struct PaginatedResponse<T> {
    pub items: Vec<T>,
    pub total: i64,
}

pub struct PaginatedResponseView<V> {
    pub items: Seq<V>,
    pub total: i64,
}

impl<T: DeepView> DeepView for PaginatedResponse<T> {
    type V = PaginatedResponseView<T::V>;

    open spec fn deep_view(&self) -> PaginatedResponseView<T::V> {
        PaginatedResponseView { items: self.items.deep_view(), total: self.total }
    }
}

} // verus!
