//! The segmentation dictionary: texts are cut into words against it, and it
//! learns the names of the vocabulary so that none of them is cut apart.

use crate::text::chars_of;
use jieba_rs::Jieba;
use vstd::prelude::*;

verus! {

/// The outside segmenter. Nothing of its inside is visible here.
#[verifier::external_type_specification]
#[verifier::external_body]
pub struct ExJieba(Jieba);

/// The words a segmenter holds, each with its frequency.
pub uninterp spec fn dictionary(jieba: Jieba) -> Map<Seq<char>, nat>;

/// The sum of the frequencies a segmenter holds.
pub uninterp spec fn dictionary_total(jieba: Jieba) -> nat;

/// The words into which a segmenter cuts a text in precise mode, without the
/// hidden Markov model.
pub uninterp spec fn segmentation(jieba: Jieba, text: Seq<char>) -> Seq<Seq<char>>;

/// The frequency under which a vocabulary term is learned.
pub const LEARNED_WEIGHT: usize = 99999;

/// An upper bound on the frequencies of the dictionary that a new segmenter
/// starts from.
pub const INITIAL_LOAD: usize = 60_101_964;

/// The longest text, in characters, that is handed to the segmenter.
pub open spec fn max_text_len() -> nat {
    (usize::MAX / 10) as nat
}

/// A term that the dictionary can take: not empty, and free of the NUL
/// character, with which the dictionary's trie ends every key.
pub open spec fn is_learnable(term: Seq<char>) -> bool {
    term.len() > 0 && forall|k: int| 0 <= k < term.len() ==> #[trigger] term[k] != '\0'
}

/// `Jieba::new` builds a segmenter over the dictionary that the crate embeds;
/// the frequencies in that dictionary sum to no more than `INITIAL_LOAD`.
pub assume_specification[ Jieba::new ]() -> (jieba: Jieba)
    ensures
        dictionary_total(jieba) <= INITIAL_LOAD,
;

/// `Jieba::add_word` with a given frequency sets the word's frequency, adding
/// the word if it is new, and returns the frequency. The total grows by the
/// frequency and shrinks by the one the word had. Left out: the call without
/// a frequency, words the trie cannot hold, and a total past `usize::MAX`.
pub assume_specification[ Jieba::add_word ](
    jieba: &mut Jieba,
    word: &str,
    freq: Option<usize>,
    tag: Option<&str>,
) -> (given: usize)
    requires
        freq is Some,
        is_learnable(word@),
        dictionary_total(*old(jieba)) + freq->0 <= usize::MAX,
    ensures
        given == freq->0,
        dictionary(*final(jieba)) == dictionary(*old(jieba)).insert(word@, freq->0 as nat),
        dictionary_total(*final(jieba)) <= dictionary_total(*old(jieba)) + freq->0,
;

/// `Jieba::cut` returns the words of the sentence, in order; the result is a
/// function of the dictionary and the sentence. Left out: sentences so long
/// that the size of the scratch space, five halves of the byte length, would
/// pass `usize::MAX` (a character takes at most four bytes).
pub assume_specification<'a>[ Jieba::cut ](jieba: &Jieba, sentence: &'a str, hmm: bool) -> (words:
    Vec<&'a str>)
    requires
        !hmm,
        sentence@.len() <= max_text_len(),
    ensures
        words.deep_view() == segmentation(*jieba, sentence@),
;

/// The tokenizer state: a segmenter with the vocabulary it has learned.
pub struct Tokenizer {
    jieba: Jieba,
    load: usize,
}

impl Tokenizer {
    /// The words the tokenizer knows, each with its frequency.
    pub closed spec fn vocabulary(&self) -> Map<Seq<char>, nat> {
        dictionary(self.jieba)
    }

    /// An upper bound on the sum of the frequencies the tokenizer holds.
    pub closed spec fn load(&self) -> nat {
        self.load as nat
    }

    /// The words into which the tokenizer cuts `text`.
    pub closed spec fn segments(&self, text: Seq<char>) -> Seq<Seq<char>> {
        segmentation(self.jieba, text)
    }

    /// The bound that `load` keeps: it is no smaller than the sum of the
    /// frequencies held. Every tokenizer that `new` made and `learn` changed
    /// is well formed.
    pub closed spec fn wf(&self) -> bool {
        dictionary_total(self.jieba) <= self.load
    }

    /// Whether one more term fits under the machine's limit.
    pub open spec fn has_room(&self) -> bool {
        self.load() + LEARNED_WEIGHT <= usize::MAX
    }

    /// A tokenizer over the embedded dictionary.
    pub fn new() -> (tokenizer: Tokenizer)
        ensures
            tokenizer.wf(),
            tokenizer.load() == INITIAL_LOAD,
    {
        Tokenizer { jieba: Jieba::new(), load: INITIAL_LOAD }
    }

    /// Learns `term` under the fixed weight, so that segmentation prefers it
    /// whole. Returns whether the term was taken: it is, unless it is empty,
    /// holds a NUL character, or no room is left.
    pub fn learn(&mut self, term: &str) -> (learned: bool)
        requires
            old(self).wf(),
        ensures
            final(self).wf(),
            learned == (is_learnable(term@) && old(self).has_room()),
            learned ==> final(self).vocabulary() == old(self).vocabulary().insert(
                term@,
                LEARNED_WEIGHT as nat,
            ) && final(self).load() == old(self).load() + LEARNED_WEIGHT,
            !learned ==> final(self).vocabulary() == old(self).vocabulary() && final(self).load()
                == old(self).load(),
    {
        if !learnable(term) || self.load > usize::MAX - LEARNED_WEIGHT {
            return false;
        }
        self.jieba.add_word(term, Some(LEARNED_WEIGHT), None);
        self.load = self.load + LEARNED_WEIGHT;
        true
    }

    /// Learns the terms, in order, each as `learn` does. Returns how many
    /// were taken.
    pub fn learn_all(&mut self, terms: &Vec<String>) -> (taken: usize)
        requires
            old(self).wf(),
        ensures
            final(self).wf(),
            ({
                let learned = after_learning(
                    old(self).vocabulary(),
                    old(self).load(),
                    terms.deep_view(),
                );
                &&& final(self).vocabulary() == learned.vocabulary
                &&& final(self).load() == learned.load
                &&& taken == learned.taken
            }),
    {
        let mut taken: usize = 0;
        let mut i: usize = 0;
        assert(terms.deep_view().take(0) =~= Seq::empty());
        while i < terms.len()
            invariant
                i <= terms.len(),
                taken <= i,
                self.wf(),
                ({
                    let learned = after_learning(
                        old(self).vocabulary(),
                        old(self).load(),
                        terms.deep_view().take(i as int),
                    );
                    &&& self.vocabulary() == learned.vocabulary
                    &&& self.load() == learned.load
                    &&& taken == learned.taken
                }),
            decreases terms.len() - i,
        {
            proof {
                let upto = terms.deep_view().take(i + 1);
                assert(upto.drop_last() =~= terms.deep_view().take(i as int));
                assert(upto.last() == terms@[i as int]@);
            }
            if self.learn(terms[i].as_str()) {
                taken += 1;
            }
            i += 1;
        }
        assert(terms.deep_view().take(i as int) =~= terms.deep_view());
        taken
    }

    /// Cuts `text` into words, in precise mode.
    pub fn segment(&self, text: &str) -> (words: Vec<String>)
        requires
            text@.len() <= max_text_len(),
        ensures
            words.deep_view() == self.segments(text@),
    {
        let cut = self.jieba.cut(text, false);
        let mut words: Vec<String> = Vec::new();
        let mut i: usize = 0;
        while i < cut.len()
            invariant
                i <= cut.len(),
                words.deep_view() == cut.deep_view().take(i as int),
            decreases cut.len() - i,
        {
            let word: &str = cut[i];
            let ghost before = words.deep_view();
            words.push(word.to_owned());
            assert(words.deep_view() =~= before.push(word@));
            assert(cut.deep_view().take(i + 1) =~= cut.deep_view().take(i as int).push(
                cut.deep_view()[i as int],
            ));
            i += 1;
        }
        assert(cut.deep_view().take(i as int) =~= cut.deep_view());
        words
    }
}

/// What a tokenizer holds after it was asked to learn terms: its
/// vocabulary, its load, and how many of the terms it took.
pub struct Learned {
    pub vocabulary: Map<Seq<char>, nat>,
    pub load: nat,
    pub taken: nat,
}

/// What a tokenizer with this vocabulary and load holds after it was asked to
/// learn the terms in order: it takes each term that can be learned while
/// there is room.
pub open spec fn after_learning(
    vocabulary: Map<Seq<char>, nat>,
    load: nat,
    terms: Seq<Seq<char>>,
) -> Learned
    decreases terms.len(),
{
    if terms.len() == 0 {
        Learned { vocabulary, load, taken: 0 }
    } else {
        let earlier = after_learning(vocabulary, load, terms.drop_last());
        if is_learnable(terms.last()) && earlier.load + LEARNED_WEIGHT <= usize::MAX {
            Learned {
                vocabulary: earlier.vocabulary.insert(terms.last(), LEARNED_WEIGHT as nat),
                load: (earlier.load + LEARNED_WEIGHT) as nat,
                taken: earlier.taken + 1,
            }
        } else {
            earlier
        }
    }
}

/// Whether the dictionary can take `term`.
pub fn learnable(term: &str) -> (ok: bool)
    ensures
        ok == is_learnable(term@),
{
    let chars = chars_of(term);
    if chars.len() == 0 {
        return false;
    }
    let mut i: usize = 0;
    while i < chars.len()
        invariant
            i <= chars.len(),
            chars@ == term@,
            forall|k: int| 0 <= k < i ==> #[trigger] chars@[k] != '\0',
        decreases chars.len() - i,
    {
        if chars[i] == '\0' {
            assert(term@[i as int] == '\0');
            return false;
        }
        i += 1;
    }
    true
}

} // verus!
