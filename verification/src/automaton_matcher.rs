//! The matcher that runs a deterministic automaton over the bytes of a
//! token.
//!
//! The automaton is slow to build and fast to run. It is built once from a
//! predicate set and can be shared by any number of matchers.

use std::sync::Arc;

use regex_automata::DFA;
use vstd::hash_map::StringHashMap;
use vstd::prelude::*;
use vstd::string::StringExecFns;
use vstd::utf8::*;

use crate::expression::{
    escape, escaped, join, joined, nodes_expr, nodes_to_regex_expr, part_if, strings_view,
    WILDCARD_EXPR,
};
use crate::hash_matcher::{term_table, HashMatcher};
use crate::pattern::{PatternASTNode, PatternNodeView};
use crate::predicate::{lemma_terms_of_next, MatchPredicate, MatchPredicateSet, PredicateView};
use crate::regex_util::{patterns_view, shaped_of, terms_of, texts_view, GroupedPatterns};
use crate::score::{
    record_doc_freq, DocFreqReciprocal, GetDocFreq, LookupDocFreqReciprocal, MatcherModel,
};
use crate::term::Term;
use crate::test_util::{
    create_predicate_set, term_doc_freq_reciprocals_from_predicate_set, written_set,
};

verus! {

/// The alternative that stands for one pattern of a group: a lone literal
/// escaped, two or more nodes in parentheses. An entry without nodes, or a
/// lone wildcard, has none.
pub open spec fn alternative(nodes: Seq<PatternNodeView>, wildcard: Seq<char>) -> Option<
    Seq<char>,
> {
    if nodes.len() == 0 {
        None
    } else if nodes.len() == 1 {
        match nodes[0] {
            PatternNodeView::Literal(text) => Some(escaped(text)),
            PatternNodeView::Wildcard => None,
        }
    } else {
        Some("("@ + nodes_expr(nodes, wildcard) + ")"@)
    }
}

/// The alternatives of the patterns of a group, in order.
pub open spec fn alternatives(patterns: Seq<Seq<PatternNodeView>>, wildcard: Seq<char>) -> Seq<
    Seq<char>,
> {
    patterns.filter_map(|nodes: Seq<PatternNodeView>| alternative(nodes, wildcard))
}

/// The alternation of the patterns of a group.
pub open spec fn alternation(patterns: Seq<Seq<PatternNodeView>>, wildcard: Seq<char>) -> Seq<
    char,
> {
    joined(alternatives(patterns, wildcard), "|"@)
}

/// The terms of a set, each escaped.
pub open spec fn escaped_terms(terms: Seq<Seq<char>>) -> Seq<Seq<char>> {
    terms.map_values(|text: Seq<char>| escaped(text))
}

/// The expressions of the groups of `predicates` that are not empty, in the
/// order of the groups. The patterns of a group with a wildcard at an end
/// share one wildcard.
pub open spec fn group_exprs(predicates: Seq<PredicateView>, wildcard: Seq<char>) -> Seq<
    Seq<char>,
> {
    let terms = terms_of(predicates);
    let terms_wc = shaped_of(predicates, false, true);
    let terms_internal_wc = shaped_of(predicates, false, false);
    let wc_terms = shaped_of(predicates, true, false);
    let wc_terms_wc = shaped_of(predicates, true, true);
    part_if(terms.len() > 0, joined(escaped_terms(terms), "|"@)) + part_if(
        terms_wc.len() > 0,
        "(("@ + alternation(terms_wc, wildcard) + ")"@ + wildcard + ")"@,
    ) + part_if(terms_internal_wc.len() > 0, alternation(terms_internal_wc, wildcard)) + part_if(
        wc_terms.len() > 0,
        "("@ + wildcard + "("@ + alternation(wc_terms, wildcard) + "))"@,
    ) + part_if(
        wc_terms_wc.len() > 0,
        "("@ + wildcard + "("@ + alternation(wc_terms_wc, wildcard) + ")"@ + wildcard + ")"@,
    )
}

/// The expression that the automaton of a predicate set is built from: the
/// expressions of its groups as alternatives.
pub open spec fn automaton_pattern(predicates: Seq<PredicateView>, wildcard: Seq<char>) -> Seq<
    char,
> {
    joined(group_exprs(predicates, wildcard), "|"@)
}

/// Writes out the alternation of the patterns of one group.
pub fn pattern_asts_to_regex_string(
    pattern_asts: &[&[PatternASTNode]],
    wildcard_expr: &str,
) -> (expr: String)
    ensures
        expr@ == alternation(patterns_view(pattern_asts@), wildcard_expr@),
{
    let ghost patterns = patterns_view(pattern_asts@);
    let ghost wildcard = wildcard_expr@;
    let mut exprs: Vec<String> = Vec::new();
    let mut index: usize = 0;
    while index < pattern_asts.len()
        invariant
            index <= pattern_asts@.len(),
            patterns == patterns_view(pattern_asts@),
            wildcard == wildcard_expr@,
            strings_view(exprs@) == alternatives(patterns.take(index as int), wildcard),
        decreases pattern_asts@.len() - index,
    {
        let ast_nodes = pattern_asts[index];
        proof {
            patterns.lemma_filter_map_take_succ(
                |nodes: Seq<PatternNodeView>| alternative(nodes, wildcard),
                index as int,
            );
        }
        if ast_nodes.len() == 1 {
            match &ast_nodes[0] {
                PatternASTNode::Literal(text) => {
                    exprs.push(escape(text.as_str()));
                },
                PatternASTNode::Wildcard => {},
            }
        } else if ast_nodes.len() > 1 {
            let mut expr = String::from_str("(");
            let inner = nodes_to_regex_expr(ast_nodes, wildcard_expr);
            expr.append(inner.as_str());
            expr.append(")");
            exprs.push(expr);
        }
        index = index + 1;
    }
    assert(patterns.take(index as int) =~= patterns);
    join(&exprs, "|")
}

/// Writes out the expression that stands for a whole predicate set, with
/// `wildcard_expr` for each wildcard.
pub fn generate_regex_pattern(predicate_set: &MatchPredicateSet, wildcard_expr: &str) -> (pattern:
    String)
    ensures
        pattern@ == automaton_pattern(predicate_set@, wildcard_expr@),
{
    let groups = GroupedPatterns::group(predicate_set);
    let ghost predicates = predicate_set@;
    let ghost wildcard = wildcard_expr@;
    let mut regex_exprs: Vec<String> = Vec::new();

    if groups.terms.len() > 0 {
        let mut quoted: Vec<String> = Vec::new();
        let mut index: usize = 0;
        while index < groups.terms.len()
            invariant
                index <= groups.terms@.len(),
                strings_view(quoted@) == escaped_terms(
                    texts_view(groups.terms@).take(index as int),
                ),
            decreases groups.terms@.len() - index,
        {
            let ghost texts = texts_view(groups.terms@);
            let ghost before = strings_view(quoted@);
            quoted.push(escape(groups.terms[index]));
            assert(strings_view(quoted@) =~= before.push(escaped(texts[index as int])));
            index = index + 1;
        }
        assert(texts_view(groups.terms@).take(index as int) =~= texts_view(groups.terms@));
        regex_exprs.push(join(&quoted, "|"));
    }
    let ghost with_terms = strings_view(regex_exprs@);
    assert(with_terms =~= part_if(
        terms_of(predicates).len() > 0,
        joined(escaped_terms(terms_of(predicates)), "|"@),
    ));

    if groups.terms_wc.len() > 0 {
        let mut expr = String::from_str("((");
        let inner = pattern_asts_to_regex_string(groups.terms_wc.as_slice(), wildcard_expr);
        expr.append(inner.as_str());
        expr.append(")");
        expr.append(wildcard_expr);
        expr.append(")");
        regex_exprs.push(expr);
    }
    let ghost with_terms_wc = strings_view(regex_exprs@);
    assert(with_terms_wc =~= with_terms + part_if(
        shaped_of(predicates, false, true).len() > 0,
        "(("@ + alternation(shaped_of(predicates, false, true), wildcard) + ")"@ + wildcard + ")"@,
    ));

    if groups.terms_internal_wc.len() > 0 {
        regex_exprs.push(
            pattern_asts_to_regex_string(groups.terms_internal_wc.as_slice(), wildcard_expr),
        );
    }
    let ghost with_terms_internal_wc = strings_view(regex_exprs@);
    assert(with_terms_internal_wc =~= with_terms_wc + part_if(
        shaped_of(predicates, false, false).len() > 0,
        alternation(shaped_of(predicates, false, false), wildcard),
    ));

    if groups.wc_terms.len() > 0 {
        let mut expr = String::from_str("(");
        expr.append(wildcard_expr);
        expr.append("(");
        let inner = pattern_asts_to_regex_string(groups.wc_terms.as_slice(), wildcard_expr);
        expr.append(inner.as_str());
        expr.append("))");
        regex_exprs.push(expr);
    }
    let ghost with_wc_terms = strings_view(regex_exprs@);
    assert(with_wc_terms =~= with_terms_internal_wc + part_if(
        shaped_of(predicates, true, false).len() > 0,
        "("@ + wildcard + "("@ + alternation(shaped_of(predicates, true, false), wildcard) + "))"@,
    ));

    if groups.wc_terms_wc.len() > 0 {
        let mut expr = String::from_str("(");
        expr.append(wildcard_expr);
        expr.append("(");
        let inner = pattern_asts_to_regex_string(groups.wc_terms_wc.as_slice(), wildcard_expr);
        expr.append(inner.as_str());
        expr.append(")");
        expr.append(wildcard_expr);
        expr.append(")");
        regex_exprs.push(expr);
    }
    assert(strings_view(regex_exprs@) =~= with_wc_terms + part_if(
        shaped_of(predicates, true, true).len() > 0,
        "("@ + wildcard + "("@ + alternation(shaped_of(predicates, true, true), wildcard) + ")"@
            + wildcard + ")"@,
    ));

    join(&regex_exprs, "|")
}

/// A deterministic automaton that matchers can share. It holds a dense
/// automaton of `regex_automata`, of which nothing is known here but what
/// `build` and `find` say.
#[verifier::external_body]
pub struct Automaton {
    dense_dfa: regex_automata::DenseDFA<Vec<usize>, usize>,
}

/// The error of `regex_automata` for an expression that it cannot parse or
/// compile.
#[verifier::external_type_specification]
#[verifier::external_body]
pub struct ExAutomatonError(regex_automata::Error);

/// What a search of `bytes` with `automaton` reports: the offset at which
/// its match ends, if it matches at all.
pub uninterp spec fn automaton_find(automaton: &Automaton, bytes: Seq<u8>) -> Option<usize>;

/// What `regex_automata` says against building an automaton from `pattern`,
/// with the match anchored at the first byte or not and the longest match
/// looked for or not: nothing where it builds one, else the `Debug` text of
/// its error.
pub uninterp spec fn build_refusal(
    pattern: Seq<char>,
    anchored: bool,
    longest_match: bool,
) -> Option<Seq<char>>;

/// What a search of `bytes` reports with the automaton that
/// `regex_automata` builds from `pattern`, with the match anchored at the
/// first byte or not and the longest match looked for or not.
pub uninterp spec fn built_find(
    pattern: Seq<char>,
    anchored: bool,
    longest_match: bool,
    bytes: Seq<u8>,
) -> Option<usize>;

/// The `Debug` text of an error of `regex_automata`.
pub uninterp spec fn error_debug(error: &regex_automata::Error) -> Seq<char>;

/// Whether `automaton` searches as the automaton of `pattern` does that is
/// anchored at the first byte and looks for the longest match.
pub open spec fn built_from(automaton: &Automaton, pattern: Seq<char>) -> bool {
    forall|bytes: Seq<u8>| #[trigger]
        automaton_find(automaton, bytes) == built_find(pattern, true, true, bytes)
}

/// `regex_automata::dense::Builder::build`, on a new builder with the two
/// settings `anchored` and `longest_match`: the dense automaton of
/// `pattern`, or the error for a pattern that cannot be parsed or compiled
/// with these settings. The builder has no other input than the pattern and
/// the settings, so they alone give whether an automaton is built, what it
/// reports for each input, and which error comes otherwise.
#[verifier::external_body]
fn build(pattern: &str, anchored: bool, longest_match: bool) -> (built: Result<
    Automaton,
    regex_automata::Error,
>)
    ensures
        built is Ok <==> build_refusal(pattern@, anchored, longest_match) is None,
        built matches Ok(automaton) ==> forall|bytes: Seq<u8>| #[trigger]
            automaton_find(&automaton, bytes) == built_find(
                pattern@,
                anchored,
                longest_match,
                bytes,
            ),
        built matches Err(error) ==> build_refusal(pattern@, anchored, longest_match) == Some(
            error_debug(&error),
        ),
{
    regex_automata::dense::Builder::new().anchored(anchored).longest_match(longest_match).build(
        pattern,
    ).map(|dense_dfa| Automaton { dense_dfa })
}

/// `regex_automata::DFA::find` on the automaton: the end offset of the match
/// that it finds in `bytes`, if any. The search reads the automaton and the
/// bytes and nothing else.
#[verifier::external_body]
fn find(automaton: &Automaton, bytes: &[u8]) -> (end: Option<usize>)
    ensures
        end == automaton_find(automaton, bytes@),
{
    automaton.dense_dfa.find(bytes)
}

/// The `Debug` text of an error of `regex_automata`, which is given by the
/// error alone.
#[verifier::external_body]
fn error_text(error: &regex_automata::Error) -> (text: String)
    ensures
        text@ == error_debug(error),
{
    format!("{:?}", error)
}

/// The message for an automaton that could not be built, with the words of
/// `regex_automata` on why.
pub open spec fn failure_text(detail: Seq<char>) -> Seq<char> {
    "compile_automaton failed. "@ + detail
}

/// Writes the message for an automaton that could not be built.
pub fn failure_message(detail: &str) -> (message: String)
    ensures
        message@ == failure_text(detail@),
{
    let mut message = String::from_str("compile_automaton failed. ");
    message.append(detail);
    message
}

/// What stands against building the automaton of a predicate set: nothing
/// where `regex_automata` builds it, else its words on why not.
pub open spec fn automaton_refusal(predicates: Seq<PredicateView>) -> Option<Seq<char>> {
    build_refusal(automaton_pattern(predicates, WILDCARD_EXPR@), true, true)
}

/// Builds the automaton of a predicate set, anchored at the first byte and
/// looking for the longest match, so that it tells how much of a token the
/// set's expression can cover. The automaton is returned exactly where
/// `regex_automata` builds one from the expression; where it does not, the
/// error holds its words on why.
pub fn compile_automaton(predicate_set: &MatchPredicateSet) -> (compiled: Result<
    Arc<Automaton>,
    String,
>)
    ensures
        compiled is Ok <==> automaton_refusal(predicate_set@) is None,
        match compiled {
            Ok(automaton) => built_from(
                &*automaton,
                automaton_pattern(predicate_set@, WILDCARD_EXPR@),
            ),
            Err(message) => message@ == failure_text(automaton_refusal(predicate_set@).unwrap()),
        },
{
    let regex_pattern = generate_regex_pattern(predicate_set, WILDCARD_EXPR);
    match build(regex_pattern.as_str(), true, true) {
        Ok(automaton) => Ok(Arc::new(automaton)),
        Err(error) => {
            let detail = error_text(&error);
            Err(failure_message(detail.as_str()))
        },
    }
}

/// Whether a match that ends at `end`, if there is one, covers the whole of
/// `token`.
pub open spec fn covers(end: Option<usize>, token: Seq<char>) -> bool {
    match end {
        Some(end) => end >= encode_utf8(token).len(),
        None => false,
    }
}

/// Whether `automaton` accepts the whole of `token`: its match from the
/// first byte of the token does not end before the last.
pub open spec fn accepts_whole(automaton: &Automaton, token: Seq<char>) -> bool {
    covers(automaton_find(automaton, encode_utf8(token)), token)
}

/// For each term of `predicates` its weight in `weights`, or that it has
/// none there.
pub open spec fn term_weights(
    predicates: Seq<PredicateView>,
    weights: Map<Seq<char>, DocFreqReciprocal>,
) -> Map<Seq<char>, Option<DocFreqReciprocal>> {
    Map::new(
        |text: Seq<char>| predicates.contains(PredicateView::Term(text)),
        |text: Seq<char>| weights.get(text),
    )
}

/// A matcher that runs a shared automaton, and remembers the weight of each
/// token that it has looked up.
pub struct AutomatonMatcher {
    automaton: Arc<Automaton>,
    doc_freq_cache: StringHashMap<Option<DocFreqReciprocal>>,
    term_buf: Term,
}

impl AutomatonMatcher {
    /// The automaton that the matcher runs.
    pub closed spec fn automaton(&self) -> &Automaton {
        &*self.automaton
    }

    /// The weights that the matcher remembers.
    pub closed spec fn cache(&self) -> Map<Seq<char>, Option<DocFreqReciprocal>> {
        self.doc_freq_cache@
    }

    /// The bytes of the term that the matcher last asked about.
    pub closed spec fn term_bytes(&self) -> Seq<u8> {
        self.term_buf.0@
    }

    /// A matcher on `automaton` that knows the weight of each term of the
    /// set from the start.
    pub fn new(
        automaton: Arc<Automaton>,
        predicate_set: &MatchPredicateSet,
        term_doc_freq_reciprocals: &StringHashMap<DocFreqReciprocal>,
    ) -> (matcher: AutomatonMatcher)
        ensures
            matcher.automaton() == &*automaton,
            matcher.cache() == term_weights(predicate_set@, term_doc_freq_reciprocals@),
    {
        let ghost predicates = predicate_set@;
        let ghost weights = term_doc_freq_reciprocals@;
        let mut doc_freq_cache: StringHashMap<Option<DocFreqReciprocal>> = StringHashMap::new();
        let mut index: usize = 0;
        while index < predicate_set.len()
            invariant
                index <= predicates.len(),
                predicates == predicate_set@,
                weights == term_doc_freq_reciprocals@,
                doc_freq_cache@ == term_weights(predicates.take(index as int), weights),
            decreases predicates.len() - index,
        {
            if let MatchPredicate::Term(term_text) = predicate_set.get(index) {
                let weight = match term_doc_freq_reciprocals.get(term_text.as_str()) {
                    Some(weight) => Some(*weight),
                    None => None,
                };
                doc_freq_cache.insert(term_text.clone(), weight);
            }
            proof {
                lemma_terms_of_next(predicates, index as int);
            }
            index = index + 1;
        }
        assert(predicates.take(index as int) =~= predicates);
        AutomatonMatcher { automaton, doc_freq_cache, term_buf: Term::default() }
    }

    /// The answer for a token in which the automaton found a match that
    /// ends at `match_length`, or none. A match that ends before the token
    /// does is no match, and the token has no weight. For a match of the
    /// whole token the weight that the matcher remembers is returned; where
    /// it remembers none, the document-frequency source is asked about the
    /// token and its answer remembered.
    pub fn lookup_matched(
        &mut self,
        match_length: Option<usize>,
        token_text: &str,
        get_doc_freq: &impl GetDocFreq,
    ) -> (weight: Option<DocFreqReciprocal>)
        ensures
            final(self).automaton() == old(self).automaton(),
            if !covers(match_length, token_text@) {
                weight is None && *final(self) == *old(self)
            } else if old(self).cache().contains_key(token_text@) {
                weight == old(self).cache()[token_text@] && *final(self) == *old(self)
            } else {
                &&& exists|doc_freq: u64| weight == #[trigger] DocFreqReciprocal::of(doc_freq)
                &&& final(self).cache() == old(self).cache().insert(token_text@, weight)
                &&& final(self).term_bytes() == encode_utf8(token_text@)
            },
    {
        let match_length = match match_length {
            Some(match_length) => match_length,
            None => {
                return None;
            },
        };
        if match_length < token_text.as_bytes().len() {
            return None;
        }
        if let Some(weight) = self.doc_freq_cache.get(token_text) {
            return *weight;
        }
        self.term_buf.set_text(token_text);
        let doc_freq = get_doc_freq.get_doc_freq(&self.term_buf);
        record_doc_freq(&mut self.doc_freq_cache, token_text, doc_freq)
    }
}

impl LookupDocFreqReciprocal for AutomatonMatcher {
    /// The automaton says which tokens are accepted; the weights on record
    /// are those that the matcher remembers.
    open spec fn model(&self) -> MatcherModel {
        MatcherModel {
            accepted: Set::new(|token: Seq<char>| accepts_whole(self.automaton(), token)),
            recorded: self.cache(),
        }
    }

    fn lookup_doc_freq_reciprocal(
        &mut self,
        token_text: &str,
        get_doc_freq: &impl GetDocFreq,
    ) -> (weight: Option<DocFreqReciprocal>)
        ensures
            final(self).automaton() == old(self).automaton(),
            !old(self).model().accepted.contains(token_text@) || old(
                self,
            ).model().recorded.contains_key(token_text@) ==> *final(self) == *old(self),
            old(self).model().accepted.contains(token_text@) && !old(
                self,
            ).model().recorded.contains_key(token_text@) ==> final(self).cache() == old(
                self,
            ).cache().insert(token_text@, weight) && final(self).term_bytes() == encode_utf8(
                token_text@,
            ),
    {
        let match_length = find(&self.automaton, token_text.as_bytes());
        self.lookup_matched(match_length, token_text, get_doc_freq)
    }
}

/// A matcher on an automaton has on record for each term of its set what
/// a matcher on the table of weights has: where both accept the term, they
/// give it the same weight.
pub proof fn lemma_terms_weigh_as_in_the_table(
    matcher: AutomatonMatcher,
    table: HashMatcher,
    predicates: Seq<PredicateView>,
    term: Seq<char>,
)
    requires
        matcher.cache() == term_weights(predicates, table.weights()),
        predicates.contains(PredicateView::Term(term)),
        table.model().accepted.contains(term),
    ensures
        matcher.model().recorded.contains_key(term),
        matcher.model().recorded[term] == table.model().recorded[term],
{
}

/// Builds the automaton of the written patterns and a matcher on it in
/// which every term has the weight of a term that one document holds. The
/// matcher is returned exactly where `regex_automata` builds the automaton.
pub fn test_automaton_matcher(patterns: &[&[&str]]) -> (built: Result<AutomatonMatcher, String>)
    ensures
        built is Ok <==> automaton_refusal(written_set(patterns@)) is None,
        match built {
            Ok(matcher) => {
                &&& built_from(
                    matcher.automaton(),
                    automaton_pattern(written_set(patterns@), WILDCARD_EXPR@),
                )
                &&& matcher.cache() == term_weights(
                    written_set(patterns@),
                    term_table(written_set(patterns@), DocFreqReciprocal { doc_freq: 1 }),
                )
            },
            Err(message) => message@ == failure_text(
                automaton_refusal(written_set(patterns@)).unwrap(),
            ),
        },
{
    let predicate_set = create_predicate_set(patterns);
    let term_doc_freq_reciprocals = term_doc_freq_reciprocals_from_predicate_set(&predicate_set);
    match compile_automaton(&predicate_set) {
        Ok(automaton) => Ok(
            AutomatonMatcher::new(automaton, &predicate_set, &term_doc_freq_reciprocals),
        ),
        Err(message) => Err(message),
    }
}

} // verus!
