//! The matcher for predicate sets without patterns: a table from term to
//! weight.
//!
//! Where no predicate holds a wildcard there is nothing to compile: a token
//! matches when it is one of the terms.

use vstd::hash_map::StringHashMap;
use vstd::prelude::*;

use crate::predicate::PredicateView;
use crate::score::{DocFreqReciprocal, GetDocFreq, LookupDocFreqReciprocal, MatcherModel};

verus! {

/// A matcher that accepts the terms of its table and nothing else.
pub struct HashMatcher {
    term_doc_freq_reciprocals_map: StringHashMap<DocFreqReciprocal>,
}

impl HashMatcher {
    /// The table of the matcher: the weight of each term.
    pub closed spec fn weights(&self) -> Map<Seq<char>, DocFreqReciprocal> {
        self.term_doc_freq_reciprocals_map@
    }

    /// A matcher on the given table, which it takes over.
    pub fn new(term_doc_freq_reciprocals_map: StringHashMap<DocFreqReciprocal>) -> (matcher:
        HashMatcher)
        ensures
            matcher.weights() == term_doc_freq_reciprocals_map@,
    {
        HashMatcher { term_doc_freq_reciprocals_map }
    }
}

impl LookupDocFreqReciprocal for HashMatcher {
    /// The terms of the table are accepted, and the weight of each is on
    /// record.
    open spec fn model(&self) -> MatcherModel {
        MatcherModel {
            accepted: self.weights().dom(),
            recorded: self.weights().map_values(|weight: DocFreqReciprocal| Some(weight)),
        }
    }

    fn lookup_doc_freq_reciprocal(
        &mut self,
        token_text: &str,
        _get_doc_freq: &impl GetDocFreq,
    ) -> (weight: Option<DocFreqReciprocal>)
        ensures
            weight == old(self).weights().get(token_text@),
            final(self).weights() == old(self).weights(),
    {
        match self.term_doc_freq_reciprocals_map.get(token_text) {
            Some(weight) => Some(*weight),
            None => None,
        }
    }
}

/// The table that gives each term of `predicates` the weight `weight`.
pub open spec fn term_table(predicates: Seq<PredicateView>, weight: DocFreqReciprocal) -> Map<
    Seq<char>,
    DocFreqReciprocal,
> {
    Map::new(
        |text: Seq<char>| predicates.contains(PredicateView::Term(text)),
        |text: Seq<char>| weight,
    )
}

/// A matcher on the table of the terms of a set accepts a token exactly
/// when the token is one of the terms, whole: no term is matched by a part
/// of a token or by a token that goes on after it.
pub proof fn lemma_terms_match_whole_tokens_only(
    matcher: HashMatcher,
    predicates: Seq<PredicateView>,
    weight: DocFreqReciprocal,
    token: Seq<char>,
)
    requires
        matcher.weights() == term_table(predicates, weight),
    ensures
        matcher.model().accepted.contains(token) <==> predicates.contains(
            PredicateView::Term(token),
        ),
        matcher.model().accepted.contains(token) ==> matcher.model().recorded[token] == Some(
            weight,
        ),
{
}

} // verus!
