//! Lexical matching: substring search, case folding and the order of names.

use crate::text::chars_of;
use vstd::prelude::*;
use vstd::std_specs::iter::IteratorSpec;

verus! {

/// The lowercase form of a text, as the standard library's Unicode tables give it.
pub uninterp spec fn lowercased(s: Seq<char>) -> Seq<char>;

/// `str::to_lowercase` returns the lowercase form of the text. The mapping is a
/// function of the characters alone: it consults no locale.
pub assume_specification[ str::to_lowercase ](s: &str) -> (out: String)
    ensures
        out@ == lowercased(s@),
;

// ---------------------------------------------------------------------------
// Substring search
// ---------------------------------------------------------------------------
/// `needle` stands in `hay` at index `at`.
pub open spec fn occurs_at(hay: Seq<char>, needle: Seq<char>, at: int) -> bool {
    &&& 0 <= at
    &&& at + needle.len() <= hay.len()
    &&& hay.subrange(at, at + needle.len()) == needle
}

/// `needle` stands somewhere in `hay`. The empty text stands in every text.
pub open spec fn contains(hay: Seq<char>, needle: Seq<char>) -> bool {
    exists|at: int| occurs_at(hay, needle, at)
}

/// `needle` stands somewhere in `hay` once both are in lowercase.
pub open spec fn contains_folded(hay: Seq<char>, needle: Seq<char>) -> bool {
    contains(lowercased(hay), lowercased(needle))
}

/// Whether `needle` stands in `hay` at index `at`.
pub fn occurs(hay: &Vec<char>, needle: &Vec<char>, at: usize) -> (found: bool)
    requires
        at + needle.len() <= hay.len(),
    ensures
        found == occurs_at(hay@, needle@, at as int),
{
    let mut k: usize = 0;
    while k < needle.len()
        invariant
            k <= needle.len(),
            at + needle.len() <= hay.len(),
            forall|j: int| 0 <= j < k ==> hay@[at + j] == needle@[j],
        decreases needle.len() - k,
    {
        if hay[at + k] != needle[k] {
            proof {
                let window = hay@.subrange(at as int, at + needle.len());
                assert(window[k as int] == hay@[at + k]);
            }
            return false;
        }
        k += 1;
    }
    assert(hay@.subrange(at as int, at + needle.len()) =~= needle@);
    true
}

/// Whether `needle` stands somewhere in `hay`.
pub fn contains_chars(hay: &Vec<char>, needle: &Vec<char>) -> (found: bool)
    ensures
        found == contains(hay@, needle@),
{
    if needle.len() > hay.len() {
        return false;
    }
    if needle.len() == 0 {
        assert(occurs_at(hay@, needle@, 0)) by {
            assert(hay@.subrange(0, 0) =~= needle@);
        }
        return true;
    }
    let last: usize = hay.len() - needle.len();
    let mut at: usize = 0;
    while at <= last
        invariant
            at <= last + 1,
            last == hay.len() - needle.len(),
            0 < needle.len() <= hay.len(),
            forall|j: int| 0 <= j < at ==> !occurs_at(hay@, needle@, j),
        decreases last + 1 - at,
    {
        if occurs(hay, needle, at) {
            return true;
        }
        at += 1;
    }
    false
}

/// Whether `hay`, in lowercase, holds the characters `needle`.
pub fn contains_lowercase(hay: &str, needle: &Vec<char>) -> (found: bool)
    ensures
        found == contains(lowercased(hay@), needle@),
{
    let folded = hay.to_lowercase();
    let chars = chars_of(folded.as_str());
    contains_chars(&chars, needle)
}

/// Whether `needle` stands somewhere in `hay`, letter case set aside.
pub fn contains_ignoring_case(hay: &str, needle: &str) -> (found: bool)
    ensures
        found == contains_folded(hay@, needle@),
{
    let folded = needle.to_lowercase();
    let chars = chars_of(folded.as_str());
    contains_lowercase(hay, &chars)
}

// ---------------------------------------------------------------------------
// The order of names
// ---------------------------------------------------------------------------
/// `a` comes strictly before `b` in the lexicographic order of code points.
pub open spec fn precedes(a: Seq<char>, b: Seq<char>) -> bool
    decreases a.len(),
{
    if b.len() == 0 {
        false
    } else if a.len() == 0 {
        true
    } else if a[0] != b[0] {
        (a[0] as int) < (b[0] as int)
    } else {
        precedes(a.drop_first(), b.drop_first())
    }
}

/// No text comes before itself.
pub proof fn lemma_precedes_irreflexive(a: Seq<char>)
    ensures
        !precedes(a, a),
    decreases a.len(),
{
    if a.len() > 0 {
        lemma_precedes_irreflexive(a.drop_first());
    }
}

/// Of two different texts exactly one comes before the other.
pub proof fn lemma_precedes_total(a: Seq<char>, b: Seq<char>)
    ensures
        a != b ==> (precedes(a, b) <==> !precedes(b, a)),
        a == b ==> !precedes(a, b),
    decreases a.len(),
{
    if a == b {
        lemma_precedes_irreflexive(a);
    } else if a.len() > 0 && b.len() > 0 {
        if a[0] == b[0] {
            if a.drop_first() == b.drop_first() {
                assert(a =~= seq![a[0]] + a.drop_first());
                assert(b =~= seq![b[0]] + b.drop_first());
            }
            lemma_precedes_total(a.drop_first(), b.drop_first());
        } else {
            assert(a[0] as int != b[0] as int);
        }
    } else {
        if a.len() == 0 && b.len() == 0 {
            assert(a =~= b);
        }
    }
}

/// The order of names is transitive.
pub proof fn lemma_precedes_transitive(a: Seq<char>, b: Seq<char>, c: Seq<char>)
    requires
        precedes(a, b),
        precedes(b, c),
    ensures
        precedes(a, c),
    decreases a.len(),
{
    if a.len() > 0 && b.len() > 0 && c.len() > 0 {
        if a[0] == b[0] && b[0] == c[0] {
            lemma_precedes_transitive(a.drop_first(), b.drop_first(), c.drop_first());
        }
    }
}

/// Whether the code point of `x` is smaller than that of `y`.
pub fn char_precedes(x: char, y: char) -> (before: bool)
    ensures
        before == ((x as int) < (y as int)),
{
    (x as u32) < (y as u32)
}

/// Whether `a` comes strictly before `b` in the order of names.
pub fn text_precedes(a: &str, b: &str) -> (before: bool)
    ensures
        before == precedes(a@, b@),
{
    broadcast use vstd::string::group_string_axioms;

    let mut left = a.chars();
    let mut right = b.chars();
    loop
        invariant
            left.obeys_prophetic_iter_laws(),
            right.obeys_prophetic_iter_laws(),
            left.decrease() is Some,
            right.decrease() is Some,
            precedes(a@, b@) == precedes(left.remaining(), right.remaining()),
        decreases right.decrease()->0,
    {
        let ghost l = left.remaining();
        let ghost r = right.remaining();
        match right.next() {
            None => {
                return false;
            },
            Some(y) => {
                match left.next() {
                    None => {
                        return true;
                    },
                    Some(x) => {
                        if x != y {
                            return char_precedes(x, y);
                        }
                    },
                }
            },
        }
    }
}

} // verus!
