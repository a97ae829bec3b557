//! The relevance weight of a matched token, the source of document
//! frequencies, and what every matcher promises of a lookup.

use vstd::hash_map::StringHashMap;
use vstd::prelude::*;
use vstd::string::StringExecFns;

use crate::term::Term;

verus! {

/// The source of document frequencies: an index that knows in how many
/// documents a term occurs.
pub trait GetDocFreq {
    /// The number of documents that hold `term`; 0 for a term that none
    /// holds. The term that a matcher hands over is always text.
    fn get_doc_freq(&self, term: &Term) -> u64
        requires
            term.is_text(),
    ;
}

/// The weight `1 / (doc_freq + 1)` of a term that occurs in `doc_freq`
/// documents, held exactly, as the document frequency it was derived from.
/// The rarer the term, the higher the weight.
#[derive(Clone, Copy, Debug, PartialEq, Eq, Structural)]
pub struct DocFreqReciprocal {
    pub doc_freq: u64,
}

impl DocFreqReciprocal {
    /// The numerator of the weight, written as a fraction.
    pub open spec fn numerator(self) -> int {
        1
    }

    /// The denominator of the weight, written as a fraction.
    pub open spec fn denominator(self) -> int {
        self.doc_freq + 1
    }

    /// Whether the weight is less than that of `other`, as fractions are
    /// compared: by cross multiplication.
    pub open spec fn less_than(self, other: DocFreqReciprocal) -> bool {
        self.numerator() * other.denominator() < other.numerator() * self.denominator()
    }

    /// The weight of a term seen in `doc_freq` documents; a term that no
    /// document holds has none.
    pub open spec fn of(doc_freq: u64) -> Option<DocFreqReciprocal> {
        if doc_freq == 0 {
            None
        } else {
            Some(DocFreqReciprocal { doc_freq })
        }
    }

    /// The weight of a term seen in `doc_freq` documents; none for a term
    /// that no document holds.
    pub fn from_doc_freq(doc_freq: u64) -> (weight: Option<DocFreqReciprocal>)
        ensures
            weight == Self::of(doc_freq),
    {
        if doc_freq == 0 {
            None
        } else {
            Some(DocFreqReciprocal { doc_freq })
        }
    }
}

/// A term that no document holds has no weight; any other has the weight
/// `1 / (doc_freq + 1)`, which lies above 0 and is at most one half.
pub proof fn lemma_weight_of_doc_freq(doc_freq: u64)
    ensures
        doc_freq == 0 <==> DocFreqReciprocal::of(doc_freq) is None,
        DocFreqReciprocal::of(doc_freq) matches Some(weight) ==> {
            &&& weight.numerator() == 1
            &&& weight.denominator() == doc_freq + 1
            &&& 0 < weight.numerator()
            &&& 2 * weight.numerator() <= weight.denominator()
        },
{
}

/// The weight falls strictly as the document frequency rises.
pub proof fn lemma_weight_strictly_decreasing(rarer: u64, commoner: u64)
    requires
        1 <= rarer < commoner,
    ensures
        DocFreqReciprocal::of(commoner).unwrap().less_than(DocFreqReciprocal::of(rarer).unwrap()),
{
}

/// Records under `token_text` the weight that belongs to `doc_freq`, and
/// returns it. A frequency of 0 is recorded as well, as the absence of a
/// weight.
pub fn record_doc_freq(
    cache: &mut StringHashMap<Option<DocFreqReciprocal>>,
    token_text: &str,
    doc_freq: u64,
) -> (weight: Option<DocFreqReciprocal>)
    ensures
        weight == DocFreqReciprocal::of(doc_freq),
        final(cache)@ == old(cache)@.insert(token_text@, weight),
{
    let weight = DocFreqReciprocal::from_doc_freq(doc_freq);
    cache.insert(String::from_str(token_text), weight);
    weight
}

/// What a matcher is to its callers.
#[verifier::ext_equal]
pub struct MatcherModel {
    /// The tokens that the matcher's predicates accept.
    pub accepted: Set<Seq<char>>,
    /// The answers that the matcher holds without asking the
    /// document-frequency source: for each token on record its weight, or
    /// that it has none.
    pub recorded: Map<Seq<char>, Option<DocFreqReciprocal>>,
}

/// What a lookup of `token` does to a matcher and returns. A token that the
/// predicates do not accept has no weight. For one that they accept the
/// answer on record is returned; where there is none yet, the answer is the
/// weight for some document frequency, and it is put on record.
pub open spec fn lookup_outcome(
    before: MatcherModel,
    after: MatcherModel,
    token: Seq<char>,
    weight: Option<DocFreqReciprocal>,
) -> bool {
    if !before.accepted.contains(token) {
        weight is None && after == before
    } else if before.recorded.contains_key(token) {
        weight == before.recorded[token] && after == before
    } else {
        &&& exists|doc_freq: u64| weight == #[trigger] DocFreqReciprocal::of(doc_freq)
        &&& after.accepted == before.accepted
        &&& after.recorded == before.recorded.insert(token, weight)
    }
}

/// A matcher: built from a predicate set, it tells for a token whether the
/// set accepts it, and with what weight.
pub trait LookupDocFreqReciprocal {
    /// What the matcher is to its callers.
    spec fn model(&self) -> MatcherModel;

    /// Looks up the weight of a token. A token that the predicates do not
    /// accept has none. For one that they accept the answer on record is
    /// returned; where there is none yet, the document-frequency source is
    /// asked and its answer recorded. A token that no document holds has no
    /// weight either.
    fn lookup_doc_freq_reciprocal(
        &mut self,
        token_text: &str,
        get_doc_freq: &impl GetDocFreq,
    ) -> (weight: Option<DocFreqReciprocal>)
        ensures
            lookup_outcome(old(self).model(), final(self).model(), token_text@, weight),
    ;
}

/// Looking a token up a second time returns what the first lookup returned
/// and leaves the matcher as the first lookup left it.
pub proof fn lemma_lookup_is_idempotent(
    start: MatcherModel,
    first: MatcherModel,
    second: MatcherModel,
    token: Seq<char>,
    first_weight: Option<DocFreqReciprocal>,
    second_weight: Option<DocFreqReciprocal>,
)
    requires
        lookup_outcome(start, first, token, first_weight),
        lookup_outcome(first, second, token, second_weight),
    ensures
        second_weight == first_weight,
        second == first,
{
}

} // verus!
