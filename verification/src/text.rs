//! Text primitives: characters, trimming and synonym lists.
//!
//! Every function is stated over `Seq<char>`, the view of a string.

use vstd::prelude::*;
use vstd::std_specs::iter::IteratorSpec;

verus! {

/// `String::push` appends one character to the string's view.
pub assume_specification[ String::push ](s: &mut String, c: char)
    ensures
        final(s)@ == old(s)@.push(c),
;

/// The characters of `s`, in order.
pub fn chars_of(s: &str) -> (out: Vec<char>)
    ensures
        out@ == s@,
{
    broadcast use vstd::string::group_string_axioms;

    let mut out: Vec<char> = Vec::new();
    let mut it = s.chars();
    loop
        invariant
            it.obeys_prophetic_iter_laws(),
            it.decrease() is Some,
            out@ + it.remaining() == s@,
        ensures
            out@ == s@,
        decreases it.decrease()->0,
    {
        match it.next() {
            Some(c) => {
                out.push(c);
            },
            None => {
                break ;
            },
        }
    }
    out
}

/// The string made of `chars[from..to]`.
pub fn text_of(chars: &Vec<char>, from: usize, to: usize) -> (out: String)
    requires
        from <= to <= chars.len(),
    ensures
        out@ == chars@.subrange(from as int, to as int),
{
    let mut out = String::new();
    let mut i: usize = from;
    while i < to
        invariant
            from <= i <= to <= chars.len(),
            out@ == chars@.subrange(from as int, i as int),
        decreases to - i,
    {
        out.push(chars[i]);
        i += 1;
    }
    out
}

/// An owned copy of `s`.
pub fn copy_text(s: &str) -> (out: String)
    ensures
        out@ == s@,
{
    s.to_owned()
}

/// An owned copy of an optional text.
pub fn copy_opt_text(s: &Option<String>) -> (out: Option<String>)
    ensures
        out.deep_view() == s.deep_view(),
{
    match s {
        Some(t) => Some(t.clone()),
        None => None,
    }
}

/// The text of an optional field, or the empty text when the field is absent.
pub open spec fn text_or_empty(s: Option<Seq<char>>) -> Seq<char> {
    match s {
        Some(t) => t,
        None => Seq::empty(),
    }
}

// ---------------------------------------------------------------------------
// Whitespace and trimming
// ---------------------------------------------------------------------------
/// The characters with the Unicode property White_Space.
pub open spec fn is_space(c: char) -> bool {
    let n = c as u32;
    ||| 0x09 <= n <= 0x0D
    ||| n == 0x20
    ||| n == 0x85
    ||| n == 0xA0
    ||| n == 0x1680
    ||| 0x2000 <= n <= 0x200A
    ||| n == 0x2028
    ||| n == 0x2029
    ||| n == 0x202F
    ||| n == 0x205F
    ||| n == 0x3000
}

pub fn is_whitespace(c: char) -> (b: bool)
    ensures
        b == is_space(c),
{
    let n: u32 = c as u32;
    (0x09 <= n && n <= 0x0D) || n == 0x20 || n == 0x85 || n == 0xA0 || n == 0x1680 || (0x2000 <= n
        && n <= 0x200A) || n == 0x2028 || n == 0x2029 || n == 0x202F || n == 0x205F || n == 0x3000
}

/// How many whitespace characters `s` starts with.
pub open spec fn leading_spaces(s: Seq<char>) -> nat
    decreases s.len(),
{
    if s.len() > 0 && is_space(s[0]) {
        1 + leading_spaces(s.drop_first())
    } else {
        0
    }
}

/// How many whitespace characters `s` ends with.
pub open spec fn trailing_spaces(s: Seq<char>) -> nat
    decreases s.len(),
{
    if s.len() > 0 && is_space(s.last()) {
        1 + trailing_spaces(s.drop_last())
    } else {
        0
    }
}

/// `s` without its leading and trailing whitespace.
pub open spec fn trimmed(s: Seq<char>) -> Seq<char> {
    let rest = s.skip(leading_spaces(s) as int);
    rest.take(rest.len() - trailing_spaces(rest))
}

/// Every character of `s` is whitespace (true of the empty text).
pub open spec fn is_blank(s: Seq<char>) -> bool {
    forall|i: int| 0 <= i < s.len() ==> is_space(#[trigger] s[i])
}

proof fn lemma_leading_spaces(s: Seq<char>, i: int)
    requires
        0 <= i <= s.len(),
        forall|k: int| 0 <= k < i ==> is_space(#[trigger] s[k]),
        i == s.len() || !is_space(s[i]),
    ensures
        leading_spaces(s) == i,
    decreases i,
{
    if i > 0 {
        let rest = s.drop_first();
        assert forall|k: int| 0 <= k < i - 1 implies is_space(#[trigger] rest[k]) by {
            assert(rest[k] == s[k + 1]);
        }
        if i - 1 < rest.len() {
            assert(rest[i - 1] == s[i]);
        }
        lemma_leading_spaces(rest, i - 1);
    }
}

proof fn lemma_trailing_spaces(s: Seq<char>, j: int)
    requires
        0 <= j <= s.len(),
        forall|k: int| j <= k < s.len() ==> is_space(#[trigger] s[k]),
        j == 0 || !is_space(s[j - 1]),
    ensures
        trailing_spaces(s) == s.len() - j,
    decreases s.len() - j,
{
    if j < s.len() {
        let rest = s.drop_last();
        assert forall|k: int| j <= k < rest.len() implies is_space(#[trigger] rest[k]) by {
            assert(rest[k] == s[k]);
        }
        if j > 0 {
            assert(rest[j - 1] == s[j - 1]);
        }
        lemma_trailing_spaces(rest, j);
    }
}

/// A text trims to nothing exactly when it is blank.
pub proof fn lemma_trimmed_blank(s: Seq<char>)
    ensures
        trimmed(s).len() == 0 <==> is_blank(s),
{
    let a = leading_spaces(s) as int;
    lemma_leading_bounds(s);
    let rest = s.skip(a);
    lemma_trailing_bounds(rest);
    if is_blank(s) {
        lemma_leading_spaces(s, s.len() as int);
    } else {
        let k = choose|k: int| 0 <= k < s.len() && !is_space(#[trigger] s[k]);
        assert(a <= k);
        assert(rest[k - a] == s[k]);
        if trimmed(s).len() == 0 {
            assert(trailing_spaces(rest) == rest.len());
            assert(is_space(rest[k - a]));
        }
    }
}

/// The leading whitespace is a prefix of whitespace that stops at the first
/// other character.
pub proof fn lemma_leading_bounds(s: Seq<char>)
    ensures
        leading_spaces(s) <= s.len(),
        forall|k: int| 0 <= k < leading_spaces(s) ==> is_space(#[trigger] s[k]),
        leading_spaces(s) < s.len() ==> !is_space(s[leading_spaces(s) as int]),
    decreases s.len(),
{
    if s.len() > 0 && is_space(s[0]) {
        let rest = s.drop_first();
        lemma_leading_bounds(rest);
        assert forall|k: int| 0 <= k < leading_spaces(s) implies is_space(#[trigger] s[k]) by {
            if k > 0 {
                assert(s[k] == rest[k - 1]);
            }
        }
        if leading_spaces(s) < s.len() {
            assert(s[leading_spaces(s) as int] == rest[leading_spaces(rest) as int]);
        }
    }
}

/// The trailing whitespace is a suffix of whitespace that stops at the last
/// other character.
pub proof fn lemma_trailing_bounds(s: Seq<char>)
    ensures
        trailing_spaces(s) <= s.len(),
        forall|k: int| s.len() - trailing_spaces(s) <= k < s.len() ==> is_space(#[trigger] s[k]),
        trailing_spaces(s) < s.len() ==> !is_space(s[s.len() - trailing_spaces(s) - 1]),
    decreases s.len(),
{
    if s.len() > 0 && is_space(s.last()) {
        let rest = s.drop_last();
        lemma_trailing_bounds(rest);
        assert forall|k: int| s.len() - trailing_spaces(s) <= k < s.len() implies is_space(
            #[trigger] s[k],
        ) by {
            if k < s.len() - 1 {
                assert(s[k] == rest[k]);
            }
        }
        if trailing_spaces(s) < s.len() {
            assert(s[s.len() - trailing_spaces(s) - 1] == rest[rest.len() - trailing_spaces(rest)
                - 1]);
        }
    }
}

/// A trimmed text neither starts nor ends with whitespace, and is no longer
/// than the text it came from.
pub proof fn lemma_trimmed_is_tight(s: Seq<char>)
    ensures
        trimmed(s).len() <= s.len(),
        trimmed(s).len() > 0 ==> !is_space(trimmed(s)[0]) && !is_space(trimmed(s).last()),
{
    lemma_leading_bounds(s);
    let rest = s.skip(leading_spaces(s) as int);
    lemma_trailing_bounds(rest);
    let t = trimmed(s);
    if t.len() > 0 {
        assert(t[0] == rest[0]);
        assert(rest[0] == s[leading_spaces(s) as int]);
        assert(t.last() == rest[rest.len() - trailing_spaces(rest) - 1]);
    }
}

/// `s` without its leading and trailing whitespace.
pub fn trim(s: &str) -> (out: String)
    ensures
        out@ == trimmed(s@),
{
    let chars = chars_of(s);
    let n = chars.len();
    let mut from: usize = 0;
    while from < n && is_whitespace(chars[from])
        invariant
            from <= n == chars.len(),
            forall|k: int| 0 <= k < from ==> is_space(#[trigger] chars@[k]),
        decreases n - from,
    {
        from += 1;
    }
    let mut to: usize = n;
    while to > from && is_whitespace(chars[to - 1])
        invariant
            from <= to <= n == chars.len(),
            forall|k: int| to <= k < n ==> is_space(#[trigger] chars@[k]),
        decreases to,
    {
        to -= 1;
    }
    proof {
        lemma_leading_spaces(chars@, from as int);
        let rest = chars@.skip(from as int);
        assert forall|k: int| to - from <= k < rest.len() implies is_space(#[trigger] rest[k]) by {
            assert(rest[k] == chars@[k + from]);
        }
        if to > from {
            assert(rest[to - from - 1] == chars@[to - 1]);
        }
        lemma_trailing_spaces(rest, to - from);
        assert(rest.take(to - from) =~= chars@.subrange(from as int, to as int));
    }
    text_of(&chars, from, to)
}

// ---------------------------------------------------------------------------
// Synonym lists
// ---------------------------------------------------------------------------
/// The characters that separate the terms of a synonym list: whitespace, the
/// comma and the fullwidth comma.
pub open spec fn is_term_break(c: char) -> bool {
    is_space(c) || c == ',' || c == '\u{FF0C}'
}

/// The terms of `s` that follow a term begun as `run`: the maximal runs of
/// characters that are not breaks, in order of appearance.
pub open spec fn terms_after(s: Seq<char>, run: Seq<char>) -> Seq<Seq<char>>
    decreases s.len(),
{
    if s.len() == 0 {
        closed_term(run)
    } else if is_term_break(s[0]) {
        closed_term(run) + terms_after(s.drop_first(), Seq::empty())
    } else {
        terms_after(s.drop_first(), run.push(s[0]))
    }
}

/// A finished run counts as a term unless it is empty.
pub open spec fn closed_term(run: Seq<char>) -> Seq<Seq<char>> {
    if run.len() > 0 {
        seq![run]
    } else {
        Seq::empty()
    }
}

/// The terms of a synonym list.
pub open spec fn terms(s: Seq<char>) -> Seq<Seq<char>> {
    terms_after(s, Seq::empty())
}

/// The words, with one space between neighbours.
pub open spec fn joined(words: Seq<Seq<char>>) -> Seq<char>
    decreases words.len(),
{
    if words.len() == 0 {
        Seq::empty()
    } else if words.len() == 1 {
        words[0]
    } else {
        joined(words.drop_last()) + seq![' '] + words.last()
    }
}

/// A synonym list in normal form: its terms, one space apart.
pub open spec fn normalized(s: Seq<char>) -> Seq<char> {
    joined(terms(s))
}

/// A non-empty run of characters none of which is a break.
pub open spec fn is_solid(word: Seq<char>) -> bool {
    word.len() > 0 && forall|k: int| 0 <= k < word.len() ==> !is_term_break(#[trigger] word[k])
}

/// Every term is a non-empty run free of breaks.
pub proof fn lemma_terms_are_solid(s: Seq<char>, run: Seq<char>)
    requires
        run.len() > 0 ==> is_solid(run),
    ensures
        forall|i: int|
            0 <= i < terms_after(s, run).len() ==> is_solid(#[trigger] terms_after(s, run)[i]),
    decreases s.len(),
{
    let all = terms_after(s, run);
    let head = closed_term(run);
    if s.len() == 0 {
        assert(all == head);
    } else if is_term_break(s[0]) {
        let tail = terms_after(s.drop_first(), Seq::empty());
        lemma_terms_are_solid(s.drop_first(), Seq::empty());
        assert(all == head + tail);
        assert forall|i: int| 0 <= i < all.len() implies is_solid(#[trigger] all[i]) by {
            if i < head.len() {
                assert(all[i] == run);
            } else {
                assert(all[i] == tail[i - head.len()]);
            }
        }
    } else {
        let longer = run.push(s[0]);
        assert forall|k: int| 0 <= k < longer.len() implies !is_term_break(
            #[trigger] longer[k],
        ) by {
            if k < run.len() {
                assert(longer[k] == run[k]);
            }
        }
        lemma_terms_are_solid(s.drop_first(), longer);
        assert(all == terms_after(s.drop_first(), longer));
    }
}

/// Whether `c` separates the terms of a synonym list.
pub fn breaks_term(c: char) -> (b: bool)
    ensures
        b == is_term_break(c),
{
    is_whitespace(c) || c == ',' || c == '\u{FF0C}'
}

/// The terms of a synonym list.
pub fn split_terms(s: &str) -> (out: Vec<String>)
    ensures
        out.deep_view() == terms(s@),
{
    let chars = chars_of(s);
    let mut out: Vec<String> = Vec::new();
    let mut run = String::new();
    let mut started = false;
    let mut i: usize = 0;
    assert(chars@.skip(0) =~= chars@);
    assert(out.deep_view() + terms(s@) =~= terms(s@));
    while i < chars.len()
        invariant
            i <= chars.len(),
            chars@ == s@,
            started == (run@.len() > 0),
            terms(s@) == out.deep_view() + terms_after(chars@.skip(i as int), run@),
        decreases chars.len() - i,
    {
        let c = chars[i];
        proof {
            let rest = chars@.skip(i as int);
            assert(rest[0] == c);
            assert(rest.drop_first() =~= chars@.skip(i + 1));
        }
        let ghost before = out.deep_view();
        if breaks_term(c) {
            if started {
                let ghost word = run@;
                out.push(run);
                assert(out.deep_view() =~= before + closed_term(word));
            }
            run = String::new();
            started = false;
        } else {
            run.push(c);
            started = true;
        }
        i += 1;
    }
    let ghost before = out.deep_view();
    assert(chars@.skip(i as int).len() == 0);
    if started {
        let ghost word = run@;
        out.push(run);
        assert(out.deep_view() =~= before + closed_term(word));
    }
    out
}

/// The words, with one space between neighbours.
pub fn join_terms(words: &Vec<String>) -> (out: String)
    ensures
        out@ == joined(words.deep_view()),
{
    let mut out = String::new();
    let mut i: usize = 0;
    while i < words.len()
        invariant
            i <= words.len(),
            out@ == joined(words.deep_view().take(i as int)),
        decreases words.len() - i,
    {
        proof {
            let upto = words.deep_view().take(i + 1);
            assert(upto.drop_last() =~= words.deep_view().take(i as int));
            assert(upto.last() == words@[i as int]@);
        }
        if i > 0 {
            out.push(' ');
        }
        out.append(words[i].as_str());
        i += 1;
    }
    assert(words.deep_view().take(i as int) =~= words.deep_view());
    out
}

/// Brings a synonym list into normal form: commas (ASCII or fullwidth) count
/// as whitespace, runs of whitespace collapse to one space, and none is left
/// at either end. An absent list stays absent.
pub fn normalize_terms(input: Option<String>) -> (out: Option<String>)
    ensures
        input is None ==> out is None,
        input matches Some(s) ==> out matches Some(t) && t@ == normalized(s@),
{
    match input {
        Some(s) => {
            let words = split_terms(s.as_str());
            Some(join_terms(&words))
        },
        None => None,
    }
}

// ---------------------------------------------------------------------------
// Small formatters
// ---------------------------------------------------------------------------
/// Whether the text holds no character.
pub fn is_empty_text(s: &str) -> (empty: bool)
    ensures
        empty == (s@.len() == 0),
{
    s.unicode_len() == 0
}

/// The decimal digit for a number below ten.
pub open spec fn digit(d: nat) -> char {
    if d == 0 {
        '0'
    } else if d == 1 {
        '1'
    } else if d == 2 {
        '2'
    } else if d == 3 {
        '3'
    } else if d == 4 {
        '4'
    } else if d == 5 {
        '5'
    } else if d == 6 {
        '6'
    } else if d == 7 {
        '7'
    } else if d == 8 {
        '8'
    } else {
        '9'
    }
}

/// A number in decimal notation, without sign or leading zeros.
pub open spec fn decimal(n: nat) -> Seq<char>
    decreases n,
{
    if n < 10 {
        seq![digit(n)]
    } else {
        decimal(n / 10).push(digit(n % 10))
    }
}

/// The decimal digit for a number below ten.
pub fn digit_char(d: u8) -> (c: char)
    requires
        d < 10,
    ensures
        c == digit(d as nat),
{
    if d == 0 {
        '0'
    } else if d == 1 {
        '1'
    } else if d == 2 {
        '2'
    } else if d == 3 {
        '3'
    } else if d == 4 {
        '4'
    } else if d == 5 {
        '5'
    } else if d == 6 {
        '6'
    } else if d == 7 {
        '7'
    } else if d == 8 {
        '8'
    } else {
        '9'
    }
}

/// Appends `n` in decimal notation.
pub fn push_decimal(out: &mut String, n: u64)
    ensures
        final(out)@ == old(out)@ + decimal(n as nat),
    decreases n,
{
    if n >= 10 {
        push_decimal(out, n / 10);
    }
    let ghost before = out@;
    out.push(digit_char((n % 10) as u8));
    assert(out@ =~= old(out)@ + decimal(n as nat));
}

/// `n` in decimal notation.
pub fn decimal_text(n: u64) -> (out: String)
    ensures
        out@ == decimal(n as nat),
{
    let mut out = String::new();
    push_decimal(&mut out, n);
    assert(Seq::<char>::empty() + decimal(n as nat) =~= decimal(n as nat));
    out
}

} // verus!
