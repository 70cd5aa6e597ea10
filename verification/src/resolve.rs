//! Term resolution: a free text is resolved as a whole against the word
//! roots, and only if nothing matches is it cut into words that are resolved
//! one by one.

use crate::matching::{
    contains_chars, contains_folded, lemma_precedes_irreflexive, lemma_precedes_total,
    lemma_precedes_transitive, lowercased, precedes, text_precedes,
};
use crate::model::{Segment, SegmentView, WordRoot, WordRootView};
use crate::text::{
    chars_of, copy_text, is_blank, is_empty_text, lemma_trimmed_blank, lemma_trimmed_is_tight,
    trim, trimmed,
};
use crate::tokenizer::{max_text_len, Tokenizer};
use vstd::prelude::*;

verus! {

// ---------------------------------------------------------------------------
// Candidates
// ---------------------------------------------------------------------------
/// The root's name is the term, character for character.
pub open spec fn is_exact(root: WordRootView, term: Seq<char>) -> bool {
    root.cn_name == term
}

/// The root has synonyms, and the term stands in them, letter case set aside.
pub open spec fn mentions(root: WordRootView, term: Seq<char>) -> bool {
    root.associated_terms matches Some(synonyms) && contains_folded(synonyms, term)
}

/// The root answers the term: by its name or by its synonyms.
pub open spec fn is_candidate(root: WordRootView, term: Seq<char>) -> bool {
    is_exact(root, term) || mentions(root, term)
}

/// `a` ranks strictly before `b` for the term: a root named exactly as the
/// term comes before one that is not, and otherwise the names decide.
pub open spec fn outranks(a: WordRootView, b: WordRootView, term: Seq<char>) -> bool {
    if is_exact(a, term) != is_exact(b, term) {
        is_exact(a, term)
    } else {
        precedes(a.cn_name, b.cn_name)
    }
}

/// No root ranks before an earlier one.
pub open spec fn is_ranked(roots: Seq<WordRootView>, term: Seq<char>) -> bool {
    forall|i: int, j: int| 0 <= i < j < roots.len() ==> !outranks(roots[j], roots[i], term)
}

/// `ranked` with `root` put in: behind every root it does not outrank, so
/// that roots of equal rank keep the order in which they came.
pub open spec fn placed(ranked: Seq<WordRootView>, root: WordRootView, term: Seq<char>) -> Seq<
    WordRootView,
>
    decreases ranked.len(),
{
    if ranked.len() > 0 && outranks(root, ranked.last(), term) {
        placed(ranked.drop_last(), root, term).push(ranked.last())
    } else {
        ranked.push(root)
    }
}

/// The candidates for a term among the roots, best first.
pub open spec fn candidates(roots: Seq<WordRootView>, term: Seq<char>) -> Seq<WordRootView>
    decreases roots.len(),
{
    if roots.len() == 0 {
        Seq::empty()
    } else {
        let earlier = candidates(roots.drop_last(), term);
        if is_candidate(roots.last(), term) {
            placed(earlier, roots.last(), term)
        } else {
            earlier
        }
    }
}

/// The roots that answer the term, in the order of the store.
pub open spec fn answering(roots: Seq<WordRootView>, term: Seq<char>) -> Seq<WordRootView> {
    roots.filter(|root: WordRootView| is_candidate(root, term))
}

/// Ranking is a strict weak order: nothing outranks itself, no two roots
/// outrank each other, and "does not come after" is transitive.
pub proof fn lemma_outranks_is_an_order(
    a: WordRootView,
    b: WordRootView,
    c: WordRootView,
    term: Seq<char>,
)
    ensures
        !outranks(a, a, term),
        outranks(a, b, term) ==> !outranks(b, a, term),
        outranks(a, b, term) && outranks(b, c, term) ==> outranks(a, c, term),
        !outranks(b, a, term) && !outranks(c, b, term) ==> !outranks(c, a, term),
{
    lemma_precedes_irreflexive(a.cn_name);
    lemma_precedes_total(a.cn_name, b.cn_name);
    lemma_precedes_total(b.cn_name, c.cn_name);
    lemma_precedes_total(a.cn_name, c.cn_name);
    if precedes(a.cn_name, b.cn_name) && precedes(b.cn_name, c.cn_name) {
        lemma_precedes_transitive(a.cn_name, b.cn_name, c.cn_name);
    }
    if precedes(c.cn_name, a.cn_name) && precedes(a.cn_name, b.cn_name) {
        lemma_precedes_transitive(c.cn_name, a.cn_name, b.cn_name);
    }
    if precedes(b.cn_name, c.cn_name) && precedes(c.cn_name, a.cn_name) {
        lemma_precedes_transitive(b.cn_name, c.cn_name, a.cn_name);
    }
}

/// Where `placed` puts the root: at the index behind which it outranks all,
/// and before which it outranks none of its neighbour.
pub proof fn lemma_placed_at(
    ranked: Seq<WordRootView>,
    root: WordRootView,
    term: Seq<char>,
    at: int,
)
    requires
        0 <= at <= ranked.len(),
        forall|k: int| at <= k < ranked.len() ==> outranks(root, #[trigger] ranked[k], term),
        at > 0 ==> !outranks(root, ranked[at - 1], term),
    ensures
        placed(ranked, root, term) == ranked.insert(at, root),
    decreases ranked.len() - at,
{
    if at == ranked.len() {
        assert(ranked.insert(at, root) =~= ranked.push(root));
    } else {
        let front = ranked.drop_last();
        assert(outranks(root, ranked[ranked.len() - 1], term));
        assert forall|k: int| at <= k < front.len() implies outranks(
            root,
            #[trigger] front[k],
            term,
        ) by {
            assert(front[k] == ranked[k]);
        }
        lemma_placed_at(front, root, term, at);
        assert(front.insert(at, root).push(ranked.last()) =~= ranked.insert(at, root));
    }
}

/// Putting a root into a ranked list leaves it ranked, and adds that root
/// and nothing else.
pub proof fn lemma_placed_keeps_rank(ranked: Seq<WordRootView>, root: WordRootView, term: Seq<char>)
    requires
        is_ranked(ranked, term),
    ensures
        is_ranked(placed(ranked, root, term), term),
        placed(ranked, root, term).to_multiset() == ranked.to_multiset().insert(root),
        placed(ranked, root, term).len() == ranked.len() + 1,
    decreases ranked.len(),
{
    broadcast use vstd::seq_lib::group_to_multiset_ensures;

    let out = placed(ranked, root, term);
    if ranked.len() > 0 && outranks(root, ranked.last(), term) {
        let front = ranked.drop_last();
        let last = ranked.last();
        assert(is_ranked(front, term)) by {
            assert forall|i: int, j: int| 0 <= i < j < front.len() implies !outranks(
                front[j],
                front[i],
                term,
            ) by {
                assert(front[i] == ranked[i] && front[j] == ranked[j]);
            }
        }
        lemma_placed_keeps_rank(front, root, term);
        let inner = placed(front, root, term);
        assert(out == inner.push(last));
        assert(ranked =~= front.push(last));
        assert(out.to_multiset() =~= ranked.to_multiset().insert(root));
        assert forall|i: int, j: int| 0 <= i < j < out.len() implies !outranks(
            out[j],
            out[i],
            term,
        ) by {
            if j < inner.len() {
                assert(out[i] == inner[i] && out[j] == inner[j]);
            } else {
                // every root of `inner` is the new root or one of `front`
                assert(out[j] == last);
                assert(out[i] == inner[i]);
                assert(inner.to_multiset().count(inner[i]) > 0);
                if inner[i] == root {
                    lemma_outranks_is_an_order(root, last, last, term);
                } else {
                    assert(front.to_multiset().count(inner[i]) > 0);
                    assert(front.contains(inner[i]));
                    let k = choose|k: int| 0 <= k < front.len() && front[k] == inner[i];
                    assert(ranked[k] == inner[i]);
                    assert(!outranks(ranked[ranked.len() - 1], ranked[k], term));
                }
            }
        }
    } else {
        assert(out == ranked.push(root));
        assert forall|i: int, j: int| 0 <= i < j < out.len() implies !outranks(
            out[j],
            out[i],
            term,
        ) by {
            if j < ranked.len() {
                assert(out[i] == ranked[i] && out[j] == ranked[j]);
            } else {
                assert(out[j] == root && out[i] == ranked[i]);
                assert(!outranks(root, ranked.last(), term));
                if i < ranked.len() - 1 {
                    assert(!outranks(ranked[ranked.len() - 1], ranked[i], term));
                    lemma_outranks_is_an_order(ranked[i], ranked.last(), root, term);
                }
            }
        }
    }
}

/// The candidates are ranked, and they are the roots that answer the term:
/// each as often as the store holds it.
pub proof fn lemma_candidates_are_ranked(roots: Seq<WordRootView>, term: Seq<char>)
    ensures
        is_ranked(candidates(roots, term), term),
        candidates(roots, term).to_multiset() == answering(roots, term).to_multiset(),
        candidates(roots, term).len() == answering(roots, term).len(),
    decreases roots.len(),
{
    broadcast use vstd::seq_lib::group_to_multiset_ensures;

    reveal(Seq::filter);
    if roots.len() > 0 {
        lemma_candidates_are_ranked(roots.drop_last(), term);
        if is_candidate(roots.last(), term) {
            lemma_placed_keeps_rank(candidates(roots.drop_last(), term), roots.last(), term);
        }
    }
}

/// Among the candidates, every root named exactly as the term comes before
/// every root that is not, whatever the order in which the store held them.
pub proof fn lemma_exact_matches_come_first(roots: Seq<WordRootView>, term: Seq<char>)
    ensures
        forall|i: int, j: int|
            #![trigger candidates(roots, term)[i], candidates(roots, term)[j]]
            0 <= i < j < candidates(roots, term).len() && is_exact(candidates(roots, term)[j], term)
                ==> is_exact(candidates(roots, term)[i], term),
{
    lemma_candidates_are_ranked(roots, term);
    let found = candidates(roots, term);
    assert forall|i: int, j: int|
        #![trigger found[i], found[j]]
        0 <= i < j < found.len() && is_exact(found[j], term) implies is_exact(found[i], term) by {
        assert(!outranks(found[j], found[i], term));
    }
}

/// A candidate is a root of the store that answers the term, and every such
/// root is a candidate.
pub proof fn lemma_candidates_are_the_answers(roots: Seq<WordRootView>, term: Seq<char>)
    ensures
        forall|root: WordRootView|
            #[trigger] candidates(roots, term).contains(root) <==> roots.contains(root)
                && is_candidate(root, term),
{
    broadcast use vstd::seq_lib::group_to_multiset_ensures;
    broadcast use vstd::seq_lib::group_filter_ensures;

    lemma_candidates_are_ranked(roots, term);
    let found = candidates(roots, term);
    let kept = answering(roots, term);
    assert forall|root: WordRootView| #[trigger]
        found.contains(root) <==> roots.contains(root) && is_candidate(root, term) by {
        assert(found.contains(root) <==> found.to_multiset().count(root) > 0);
        assert(kept.contains(root) <==> kept.to_multiset().count(root) > 0);
        if kept.contains(root) {
            let k = choose|k: int| 0 <= k < kept.len() && kept[k] == root;
            roots.lemma_filter_pred(|r: WordRootView| is_candidate(r, term), k);
            roots.lemma_filter_contains_rev(|r: WordRootView| is_candidate(r, term), root);
        }
        if roots.contains(root) && is_candidate(root, term) {
            let k = choose|k: int| 0 <= k < roots.len() && roots[k] == root;
            roots.lemma_filter_contains(|r: WordRootView| is_candidate(r, term), k);
        }
    }
}

/// Whether `a` ranks strictly before `b` for the term.
pub fn ranks_before(a: &WordRoot, b: &WordRoot, term: &String) -> (before: bool)
    ensures
        before == outranks(a@, b@, term@),
{
    let a_exact = a.cn_name == *term;
    let b_exact = b.cn_name == *term;
    if a_exact != b_exact {
        a_exact
    } else {
        text_precedes(a.cn_name.as_str(), b.cn_name.as_str())
    }
}

/// Whether the root answers the term, given the term and its lowercase form.
pub fn answers(root: &WordRoot, term: &String, folded: &Vec<char>) -> (yes: bool)
    requires
        folded@ == lowercased(term@),
    ensures
        yes == is_candidate(root@, term@),
{
    if root.cn_name == *term {
        return true;
    }
    match &root.associated_terms {
        Some(synonyms) => {
            let hay = synonyms.as_str().to_lowercase();
            let chars = chars_of(hay.as_str());
            contains_chars(&chars, folded)
        },
        None => false,
    }
}

/// Puts `root` into the ranked list `ranked`.
pub fn place(ranked: &mut Vec<WordRoot>, root: WordRoot, term: &String)
    ensures
        final(ranked).deep_view() == placed(old(ranked).deep_view(), root@, term@),
{
    let mut at: usize = ranked.len();
    while at > 0 && ranks_before(&root, &ranked[at - 1], term)
        invariant
            at <= ranked.len(),
            *ranked == *old(ranked),
            forall|k: int|
                at <= k < ranked.len() ==> outranks(root@, #[trigger] ranked.deep_view()[k], term@),
        decreases at,
    {
        at -= 1;
    }
    proof {
        lemma_placed_at(ranked.deep_view(), root@, term@, at as int);
    }
    let ghost before = ranked.deep_view();
    ranked.insert(at, root);
    assert(ranked.deep_view() =~= before.insert(at as int, root@));
}

/// The candidates for a term among the roots of the store, best first: the
/// roots named exactly as the term, then the others, each group by name.
pub fn lexical_candidates(roots: &Vec<WordRoot>, term: &str) -> (found: Vec<WordRoot>)
    ensures
        found.deep_view() == candidates(roots.deep_view(), term@),
{
    let needle = copy_text(term);
    let folded_text = term.to_lowercase();
    let folded = chars_of(folded_text.as_str());
    let mut found: Vec<WordRoot> = Vec::new();
    let mut i: usize = 0;
    assert(roots.deep_view().take(0) =~= Seq::empty());
    while i < roots.len()
        invariant
            i <= roots.len(),
            needle@ == term@,
            folded@ == lowercased(term@),
            found.deep_view() == candidates(roots.deep_view().take(i as int), term@),
        decreases roots.len() - i,
    {
        proof {
            let upto = roots.deep_view().take(i + 1);
            assert(upto.drop_last() =~= roots.deep_view().take(i as int));
            assert(upto.last() == roots@[i as int]@);
        }
        if answers(&roots[i], &needle, &folded) {
            place(&mut found, roots[i].clone(), &needle);
        }
        i += 1;
    }
    assert(roots.deep_view().take(i as int) =~= roots.deep_view());
    found
}

// ---------------------------------------------------------------------------
// Segments
// ---------------------------------------------------------------------------
/// The segment of a word: the word with its candidates.
pub open spec fn segment_of(roots: Seq<WordRootView>, word: Seq<char>) -> SegmentView {
    SegmentView { word, candidates: candidates(roots, word) }
}

/// The segments of a text that was cut into `tokens`: one for each token
/// that is not blank, trimmed, in the order of the tokens. A token that no
/// root answers keeps its segment, with no candidates.
pub open spec fn token_segments(roots: Seq<WordRootView>, tokens: Seq<Seq<char>>) -> Seq<
    SegmentView,
>
    decreases tokens.len(),
{
    if tokens.len() == 0 {
        Seq::empty()
    } else {
        let earlier = token_segments(roots, tokens.drop_last());
        let word = trimmed(tokens.last());
        if word.len() == 0 {
            earlier
        } else {
            earlier.push(segment_of(roots, word))
        }
    }
}

/// The segments of a trimmed, non-empty text: the text as one segment if any
/// root answers it as a whole, else the segments of its tokens.
pub open spec fn resolved(roots: Seq<WordRootView>, text: Seq<char>, tokens: Seq<Seq<char>>) -> Seq<
    SegmentView,
> {
    if candidates(roots, text).len() > 0 {
        seq![segment_of(roots, text)]
    } else {
        token_segments(roots, tokens)
    }
}

/// The segments that a free text resolves to, given how a tokenizer cuts it.
pub open spec fn suggestion(roots: Seq<WordRootView>, input: Seq<char>, tokenizer: Tokenizer) -> Seq<
    SegmentView,
> {
    let text = trimmed(input);
    if text.len() == 0 {
        Seq::empty()
    } else {
        resolved(roots, text, tokenizer.segments(text))
    }
}

/// A blank text resolves to no segment.
pub proof fn lemma_blank_input_has_no_segments(
    roots: Seq<WordRootView>,
    input: Seq<char>,
    tokenizer: Tokenizer,
)
    requires
        is_blank(input),
    ensures
        suggestion(roots, input, tokenizer).len() == 0,
{
    lemma_trimmed_blank(input);
}

/// Where a text is answered as a whole, its segmentation plays no part: the
/// result is the one segment of the whole text, however the text would be
/// cut.
pub proof fn lemma_whole_phrase_skips_segmentation(
    roots: Seq<WordRootView>,
    text: Seq<char>,
    tokens: Seq<Seq<char>>,
    other_tokens: Seq<Seq<char>>,
)
    requires
        candidates(roots, text).len() > 0,
    ensures
        resolved(roots, text, tokens) == seq![segment_of(roots, text)],
        resolved(roots, text, tokens) == resolved(roots, text, other_tokens),
{
}

/// The segments come in the order of the tokens: each is the segment of a
/// token that is not blank, and later segments belong to later tokens.
pub proof fn lemma_segments_follow_tokens(roots: Seq<WordRootView>, tokens: Seq<Seq<char>>)
    ensures
        token_segments(roots, tokens).len() <= tokens.len(),
        forall|k: int|
            0 <= k < tokens.len() ==> #[trigger] token_segments(roots, tokens.take(k + 1))
                == if trimmed(tokens[k]).len() == 0 {
                token_segments(roots, tokens.take(k))
            } else {
                token_segments(roots, tokens.take(k)).push(segment_of(roots, trimmed(tokens[k])))
            },
    decreases tokens.len(),
{
    if tokens.len() > 0 {
        lemma_segments_follow_tokens(roots, tokens.drop_last());
        assert forall|k: int| 0 <= k < tokens.len() implies #[trigger] token_segments(
            roots,
            tokens.take(k + 1),
        ) == if trimmed(tokens[k]).len() == 0 {
            token_segments(roots, tokens.take(k))
        } else {
            token_segments(roots, tokens.take(k)).push(segment_of(roots, trimmed(tokens[k])))
        } by {
            let upto = tokens.take(k + 1);
            assert(upto.drop_last() =~= tokens.take(k));
            assert(upto.last() == tokens[k]);
        }
    }
}

/// Resolves the tokens of a text, one segment for each token that is not
/// blank.
pub fn resolve_tokens(roots: &Vec<WordRoot>, tokens: &Vec<String>) -> (segments: Vec<Segment>)
    ensures
        segments.deep_view() == token_segments(roots.deep_view(), tokens.deep_view()),
{
    let mut segments: Vec<Segment> = Vec::new();
    let mut i: usize = 0;
    assert(tokens.deep_view().take(0) =~= Seq::empty());
    while i < tokens.len()
        invariant
            i <= tokens.len(),
            segments.deep_view() == token_segments(
                roots.deep_view(),
                tokens.deep_view().take(i as int),
            ),
        decreases tokens.len() - i,
    {
        proof {
            let upto = tokens.deep_view().take(i + 1);
            assert(upto.drop_last() =~= tokens.deep_view().take(i as int));
            assert(upto.last() == tokens@[i as int]@);
        }
        let word = trim(tokens[i].as_str());
        if !is_empty_text(word.as_str()) {
            let found = lexical_candidates(roots, word.as_str());
            let ghost before = segments.deep_view();
            let segment = Segment { word, candidates: found };
            segments.push(segment);
            assert(segments.deep_view() =~= before.push(segment@));
        }
        i += 1;
    }
    assert(tokens.deep_view().take(i as int) =~= tokens.deep_view());
    segments
}

/// Every segment of a cut text is the segment of its own word, and its word
/// is not empty.
pub proof fn lemma_token_segments_are_resolved(roots: Seq<WordRootView>, tokens: Seq<Seq<char>>)
    ensures
        forall|k: int|
            0 <= k < token_segments(roots, tokens).len() ==> {
                let segment = #[trigger] token_segments(roots, tokens)[k];
                segment == segment_of(roots, segment.word) && segment.word.len() > 0
            },
    decreases tokens.len(),
{
    if tokens.len() > 0 {
        let all = token_segments(roots, tokens);
        let earlier = token_segments(roots, tokens.drop_last());
        let word = trimmed(tokens.last());
        lemma_token_segments_are_resolved(roots, tokens.drop_last());
        assert forall|k: int| 0 <= k < all.len() implies {
            let segment = #[trigger] all[k];
            segment == segment_of(roots, segment.word) && segment.word.len() > 0
        } by {
            if k < earlier.len() {
                assert(all[k] == earlier[k]);
            } else {
                assert(all == earlier.push(segment_of(roots, word)));
                assert(all[k] == segment_of(roots, word));
            }
        }
    }
}

/// Where any root answers the whole of a text that is not blank, the result
/// is the one segment of the trimmed text with those candidates, whatever
/// the tokenizer holds: the text is not cut.
pub proof fn lemma_whole_phrase_is_one_segment(
    roots: Seq<WordRootView>,
    input: Seq<char>,
    tokenizer: Tokenizer,
    other: Tokenizer,
)
    requires
        trimmed(input).len() > 0,
        candidates(roots, trimmed(input)).len() > 0,
    ensures
        suggestion(roots, input, tokenizer) == seq![segment_of(roots, trimmed(input))],
        suggestion(roots, input, tokenizer) == suggestion(roots, input, other),
{
}

/// In every segment of every result, a candidate named exactly as the
/// segment's word stands before every candidate that is not, whatever the
/// order in which the store holds the roots.
pub proof fn lemma_suggestion_ranks_exact_first(
    roots: Seq<WordRootView>,
    input: Seq<char>,
    tokenizer: Tokenizer,
)
    ensures
        forall|k: int, i: int, j: int|
            #![trigger suggestion(roots, input, tokenizer)[k].candidates[i], suggestion(roots, input, tokenizer)[k].candidates[j]]
            0 <= k < suggestion(roots, input, tokenizer).len() && 0 <= i < j < suggestion(
                roots,
                input,
                tokenizer,
            )[k].candidates.len() && is_exact(
                suggestion(roots, input, tokenizer)[k].candidates[j],
                suggestion(roots, input, tokenizer)[k].word,
            ) ==> is_exact(
                suggestion(roots, input, tokenizer)[k].candidates[i],
                suggestion(roots, input, tokenizer)[k].word,
            ),
{
    let found = suggestion(roots, input, tokenizer);
    let text = trimmed(input);
    if text.len() > 0 && candidates(roots, text).len() == 0 {
        lemma_token_segments_are_resolved(roots, tokenizer.segments(text));
    }
    assert forall|k: int, i: int, j: int|
        #![trigger found[k].candidates[i], found[k].candidates[j]]
        0 <= k < found.len() && 0 <= i < j < found[k].candidates.len() && is_exact(
            found[k].candidates[j],
            found[k].word,
        ) implies is_exact(found[k].candidates[i], found[k].word) by {
        assert(found[k] == segment_of(roots, found[k].word));
        lemma_exact_matches_come_first(roots, found[k].word);
        let ranked = candidates(roots, found[k].word);
        assert(ranked[i] == found[k].candidates[i] && ranked[j] == found[k].candidates[j]);
    }
}

/// Suggests word roots for a free text. The text is trimmed; a blank text
/// has no segments. If any root answers the whole text, the result is that
/// one segment and the text is not cut. Otherwise the tokenizer cuts it, and
/// each token that is not blank gets a segment, in order, with its
/// candidates, which may be none.
pub fn suggest_field_name(roots: &Vec<WordRoot>, tokenizer: &Tokenizer, cn_input: &str) -> (segments:
    Vec<Segment>)
    requires
        cn_input@.len() <= max_text_len(),
    ensures
        segments.deep_view() == suggestion(roots.deep_view(), cn_input@, *tokenizer),
        is_blank(cn_input@) ==> segments@.len() == 0,
        trimmed(cn_input@).len() > 0 && candidates(roots.deep_view(), trimmed(cn_input@)).len() > 0
            ==> segments.deep_view() == seq![segment_of(roots.deep_view(), trimmed(cn_input@))],
{
    let text = trim(cn_input);
    proof {
        lemma_trimmed_blank(cn_input@);
        lemma_trimmed_is_tight(cn_input@);
    }
    if is_empty_text(text.as_str()) {
        return Vec::new();
    }
    let whole = lexical_candidates(roots, text.as_str());
    if whole.len() > 0 {
        let segment = Segment { word: text, candidates: whole };
        let mut segments: Vec<Segment> = Vec::new();
        segments.push(segment);
        assert(segments.deep_view() =~= seq![segment@]);
        return segments;
    }
    let tokens = tokenizer.segment(text.as_str());
    resolve_tokens(roots, &tokens)
}

/// Suggests word roots for a free text of any length: the segments of
/// `suggest_field_name` where the text is short enough for the tokenizer,
/// and `None` where it is longer than that.
pub fn suggest(roots: &Vec<WordRoot>, tokenizer: &Tokenizer, text: &str) -> (found: Option<
    Vec<Segment>,
>)
    ensures
        found is Some <==> text@.len() <= max_text_len(),
        found matches Some(segments) ==> segments.deep_view() == suggestion(
            roots.deep_view(),
            text@,
            *tokenizer,
        ),
{
    if text.unicode_len() <= usize::MAX / 10 {
        Some(suggest_field_name(roots, tokenizer, text))
    } else {
        None
    }
}

} // verus!
