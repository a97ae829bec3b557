//! The matcher that runs a compiled regular expression.
//!
//! Each term of the predicate set stands in a capture group of its own, so
//! that a match tells which term it was and the weight of the term can be
//! read from a table.

use vstd::hash_map::StringHashMap;
use vstd::prelude::*;
use vstd::string::StringExecFns;
use vstd::utf8::*;

use crate::expression::{
    escape, escaped, join, joined, nodes_expr, nodes_to_regex_expr, part_if, strings_view,
    WILDCARD_EXPR,
};
use crate::hash_matcher::term_table;
use crate::order::{lemma_strictly_increasing_drop_last, strictly_increasing};
use crate::pattern::{nodes_view, PatternASTNode, PatternNodeView};
use crate::predicate::{predicate_order, MatchPredicate, MatchPredicateSet, PredicateView};
use crate::regex_util::{patterns_view, shaped_of, terms_of, texts_view, GroupedPatterns};
use crate::score::{
    record_doc_freq, DocFreqReciprocal, GetDocFreq, LookupDocFreqReciprocal, MatcherModel,
};
use crate::term::Term;
use crate::test_util::{
    create_predicate_set, term_doc_freq_reciprocals_from_predicate_set, written_set,
};

verus! {

/// The text that an optional string holds.
pub open spec fn option_text(text: Option<String>) -> Option<Seq<char>> {
    match text {
        Some(text) => Some(text@),
        None => None,
    }
}

/// The expression of one pattern: its nodes one after the other. An entry
/// without nodes, or a lone wildcard, has none.
pub open spec fn pattern_expr(nodes: Seq<PatternNodeView>, wildcard: Seq<char>) -> Option<
    Seq<char>,
> {
    if nodes.len() == 0 {
        None
    } else if nodes.len() == 1 {
        match nodes[0] {
            PatternNodeView::Literal(text) => Some(escaped(text)),
            PatternNodeView::Wildcard => None,
        }
    } else {
        Some(nodes_expr(nodes, wildcard))
    }
}

/// The expression of one pattern between `prefix` and `suffix`.
pub open spec fn framed_expr(
    nodes: Seq<PatternNodeView>,
    wildcard: Seq<char>,
    prefix: Seq<char>,
    suffix: Seq<char>,
) -> Option<Seq<char>> {
    match pattern_expr(nodes, wildcard) {
        Some(expr) => Some(prefix + expr + suffix),
        None => None,
    }
}

/// The alternation of the patterns of a group, each between `prefix` and
/// `suffix`.
pub open spec fn framed_alternation(
    patterns: Seq<Seq<PatternNodeView>>,
    wildcard: Seq<char>,
    prefix: Seq<char>,
    suffix: Seq<char>,
) -> Seq<char> {
    joined(
        patterns.filter_map(
            |nodes: Seq<PatternNodeView>| framed_expr(nodes, wildcard, prefix, suffix),
        ),
        "|"@,
    )
}

/// The terms of a set, each escaped, in a capture group and anchored at both
/// ends.
pub open spec fn captured_terms(terms: Seq<Seq<char>>) -> Seq<Seq<char>> {
    terms.map_values(|text: Seq<char>| "^("@ + escaped(text) + ")$"@)
}

/// The expressions of the groups of `predicates` that are not empty, in the
/// order of the groups. A search with a regular expression can begin and end
/// anywhere in the token, so each alternative is anchored where its pattern
/// has no wildcard, and holds the wildcard where it has one.
pub open spec fn group_exprs(predicates: Seq<PredicateView>, wildcard: Seq<char>) -> Seq<
    Seq<char>,
> {
    let terms = terms_of(predicates);
    let terms_wc = shaped_of(predicates, false, true);
    let terms_internal_wc = shaped_of(predicates, false, false);
    let wc_terms = shaped_of(predicates, true, false);
    let wc_terms_wc = shaped_of(predicates, true, true);
    part_if(terms.len() > 0, joined(captured_terms(terms), "|"@)) + part_if(
        terms_wc.len() > 0,
        framed_alternation(terms_wc, wildcard, "^"@, wildcard),
    ) + part_if(
        terms_internal_wc.len() > 0,
        framed_alternation(terms_internal_wc, wildcard, "^"@, "$"@),
    ) + part_if(wc_terms.len() > 0, framed_alternation(wc_terms, wildcard, wildcard, "$"@))
        + part_if(
        wc_terms_wc.len() > 0,
        framed_alternation(wc_terms_wc, wildcard, "^"@ + wildcard, wildcard + "$"@),
    )
}

/// The regular expression of a predicate set: the expressions of its groups
/// as alternatives. Capture group `i + 1` is that of term `i` of the set.
pub open spec fn regex_pattern(predicates: Seq<PredicateView>, wildcard: Seq<char>) -> Seq<char> {
    joined(group_exprs(predicates, wildcard), "|"@)
}

/// Writes out the expression of one pattern, if it has one.
pub fn pattern_to_regex_expr(ast_nodes: &[PatternASTNode], wildcard_expr: &str) -> (expr: Option<
    String,
>)
    ensures
        option_text(expr) == pattern_expr(nodes_view(ast_nodes@), wildcard_expr@),
{
    if ast_nodes.len() == 0 {
        None
    } else if ast_nodes.len() == 1 {
        match &ast_nodes[0] {
            PatternASTNode::Literal(text) => Some(escape(text.as_str())),
            PatternASTNode::Wildcard => None,
        }
    } else {
        Some(nodes_to_regex_expr(ast_nodes, wildcard_expr))
    }
}

/// Writes out the alternation of the patterns of one group, each between
/// `prefix` and `suffix`.
pub fn framed_patterns_to_regex_expr(
    pattern_asts: &[&[PatternASTNode]],
    wildcard_expr: &str,
    prefix: &str,
    suffix: &str,
) -> (expr: String)
    ensures
        expr@ == framed_alternation(
            patterns_view(pattern_asts@),
            wildcard_expr@,
            prefix@,
            suffix@,
        ),
{
    let ghost patterns = patterns_view(pattern_asts@);
    let ghost frame = |nodes: Seq<PatternNodeView>|
        framed_expr(nodes, wildcard_expr@, prefix@, suffix@);
    let mut exprs: Vec<String> = Vec::new();
    let mut index: usize = 0;
    while index < pattern_asts.len()
        invariant
            index <= pattern_asts@.len(),
            patterns == patterns_view(pattern_asts@),
            frame == |nodes: Seq<PatternNodeView>|
                framed_expr(nodes, wildcard_expr@, prefix@, suffix@),
            strings_view(exprs@) == patterns.take(index as int).filter_map(frame),
        decreases pattern_asts@.len() - index,
    {
        proof {
            patterns.lemma_filter_map_take_succ(frame, index as int);
        }
        if let Some(inner) = pattern_to_regex_expr(pattern_asts[index], wildcard_expr) {
            let mut expr = String::from_str(prefix);
            expr.append(inner.as_str());
            expr.append(suffix);
            exprs.push(expr);
        }
        index = index + 1;
    }
    assert(patterns.take(index as int) =~= patterns);
    join(&exprs, "|")
}

/// Writes out the alternation of the patterns of one group as they stand.
pub fn patterns_to_regex_expr(pattern_asts: &[&[PatternASTNode]], wildcard_expr: &str) -> (expr:
    String)
    ensures
        expr@ == framed_alternation(
            patterns_view(pattern_asts@),
            wildcard_expr@,
            Seq::empty(),
            Seq::empty(),
        ),
{
    proof {
        reveal_strlit("");
        assert(""@ =~= Seq::<char>::empty());
    }
    framed_patterns_to_regex_expr(pattern_asts, wildcard_expr, "", "")
}

/// Writes out the regular expression that stands for a whole predicate set,
/// with `wildcard_expr` for each wildcard.
pub fn generate_regex_pattern(predicate_set: &MatchPredicateSet, wildcard_expr: &str) -> (pattern:
    String)
    ensures
        pattern@ == regex_pattern(predicate_set@, wildcard_expr@),
{
    let groups = GroupedPatterns::group(predicate_set);
    let ghost predicates = predicate_set@;
    let ghost wildcard = wildcard_expr@;
    let mut regex_exprs: Vec<String> = Vec::new();

    if groups.terms.len() > 0 {
        let mut captured: Vec<String> = Vec::new();
        let mut index: usize = 0;
        while index < groups.terms.len()
            invariant
                index <= groups.terms@.len(),
                strings_view(captured@) == captured_terms(
                    texts_view(groups.terms@).take(index as int),
                ),
            decreases groups.terms@.len() - index,
        {
            let ghost texts = texts_view(groups.terms@);
            let ghost before = strings_view(captured@);
            let mut expr = String::from_str("^(");
            let quoted = escape(groups.terms[index]);
            expr.append(quoted.as_str());
            expr.append(")$");
            captured.push(expr);
            assert(strings_view(captured@) =~= before.push(
                "^("@ + escaped(texts[index as int]) + ")$"@,
            ));
            index = index + 1;
        }
        assert(texts_view(groups.terms@).take(index as int) =~= texts_view(groups.terms@));
        regex_exprs.push(join(&captured, "|"));
    }
    let ghost with_terms = strings_view(regex_exprs@);
    assert(with_terms =~= part_if(
        terms_of(predicates).len() > 0,
        joined(captured_terms(terms_of(predicates)), "|"@),
    ));

    if groups.terms_wc.len() > 0 {
        regex_exprs.push(
            framed_patterns_to_regex_expr(
                groups.terms_wc.as_slice(),
                wildcard_expr,
                "^",
                wildcard_expr,
            ),
        );
    }
    let ghost with_terms_wc = strings_view(regex_exprs@);
    assert(with_terms_wc =~= with_terms + part_if(
        shaped_of(predicates, false, true).len() > 0,
        framed_alternation(shaped_of(predicates, false, true), wildcard, "^"@, wildcard),
    ));

    if groups.terms_internal_wc.len() > 0 {
        regex_exprs.push(
            framed_patterns_to_regex_expr(
                groups.terms_internal_wc.as_slice(),
                wildcard_expr,
                "^",
                "$",
            ),
        );
    }
    let ghost with_terms_internal_wc = strings_view(regex_exprs@);
    assert(with_terms_internal_wc =~= with_terms_wc + part_if(
        shaped_of(predicates, false, false).len() > 0,
        framed_alternation(shaped_of(predicates, false, false), wildcard, "^"@, "$"@),
    ));

    if groups.wc_terms.len() > 0 {
        regex_exprs.push(
            framed_patterns_to_regex_expr(
                groups.wc_terms.as_slice(),
                wildcard_expr,
                wildcard_expr,
                "$",
            ),
        );
    }
    let ghost with_wc_terms = strings_view(regex_exprs@);
    assert(with_wc_terms =~= with_terms_internal_wc + part_if(
        shaped_of(predicates, true, false).len() > 0,
        framed_alternation(shaped_of(predicates, true, false), wildcard, wildcard, "$"@),
    ));

    if groups.wc_terms_wc.len() > 0 {
        let mut prefix = String::from_str("^");
        prefix.append(wildcard_expr);
        let mut suffix = String::from_str(wildcard_expr);
        suffix.append("$");
        regex_exprs.push(
            framed_patterns_to_regex_expr(
                groups.wc_terms_wc.as_slice(),
                wildcard_expr,
                prefix.as_str(),
                suffix.as_str(),
            ),
        );
    }
    assert(strings_view(regex_exprs@) =~= with_wc_terms + part_if(
        shaped_of(predicates, true, true).len() > 0,
        framed_alternation(
            shaped_of(predicates, true, true),
            wildcard,
            "^"@ + wildcard,
            wildcard + "$"@,
        ),
    ));

    join(&regex_exprs, "|")
}

/// A compiled regular expression of the `regex` crate.
#[verifier::external_type_specification]
#[verifier::external_body]
pub struct ExRegex(regex::Regex);

/// The error of the `regex` crate for an expression that it cannot parse or
/// compile.
#[verifier::external_type_specification]
#[verifier::external_body]
pub struct ExRegexError(regex::Error);

/// The expression that `regex` was compiled from: the string that
/// `Regex::as_str` returns.
pub uninterp spec fn regex_source(regex: &regex::Regex) -> Seq<char>;

/// What the `regex` crate says against compiling `pattern`: nothing where
/// it compiles, else the `Debug` text of its error.
pub uninterp spec fn regex_refusal(pattern: Seq<char>) -> Option<Seq<char>>;

/// The `Debug` text of an error of the `regex` crate.
pub uninterp spec fn error_debug(error: &regex::Error) -> Seq<char>;

/// What the first match of `regex` in `text` captures: for each capture
/// group, in the order of the groups and with the whole match as group 0,
/// the byte offsets at which the group begins and ends, if it took part in
/// the match. There is no value where `regex` matches nowhere in `text`.
pub uninterp spec fn regex_captures(regex: &regex::Regex, text: Seq<char>) -> Option<
    Seq<Option<(usize, usize)>>,
>;

/// `regex::Regex::new`: the compiled expression, or the error for one that
/// cannot be parsed or that compiles to more than the size limit. It has no
/// other input than the expression, which alone gives whether it compiles
/// and which error comes otherwise. The compiled expression keeps the
/// string that it was compiled from, which `Regex::as_str` returns.
#[verifier::external_body]
fn regex_new(pattern: &str) -> (compiled: Result<regex::Regex, regex::Error>)
    ensures
        compiled is Ok <==> regex_refusal(pattern@) is None,
        compiled matches Ok(regex) ==> regex_source(&regex) == pattern@,
        compiled matches Err(error) ==> regex_refusal(pattern@) == Some(error_debug(&error)),
{
    regex::Regex::new(pattern)
}

/// The spans that an optional run of spans holds.
pub open spec fn option_spans(spans: Option<Vec<Option<(usize, usize)>>>) -> Option<
    Seq<Option<(usize, usize)>>,
> {
    match spans {
        Some(spans) => Some(spans@),
        None => None,
    }
}

/// `regex::Regex::captures`: the capture groups of the first match of
/// `regex` in `text`, each as the byte offsets of its start and end, or
/// nothing where there is no match. The search reads the compiled
/// expression and the text and nothing else.
#[verifier::external_body]
fn captures(regex: &regex::Regex, text: &str) -> (spans: Option<Vec<Option<(usize, usize)>>>)
    ensures
        option_spans(spans) == regex_captures(regex, text@),
{
    regex.captures(text).map(
        |groups|
            groups.iter().map(|group| group.map(|found| (found.start(), found.end()))).collect(),
    )
}

/// The `Debug` text of an error of the `regex` crate, which is given by the
/// error alone.
#[verifier::external_body]
fn error_text(error: &regex::Error) -> (text: String)
    ensures
        text@ == error_debug(error),
{
    format!("{:?}", error)
}

/// The message for an expression that could not be compiled, with the
/// words of the `regex` crate on why.
pub open spec fn failure_text(detail: Seq<char>) -> Seq<char> {
    "compile_regex failed. "@ + detail
}

/// Writes the message for an expression that could not be compiled.
pub fn failure_message(detail: &str) -> (message: String)
    ensures
        message@ == failure_text(detail@),
{
    let mut message = String::from_str("compile_regex failed. ");
    message.append(detail);
    message
}

/// What stands against compiling the regular expression of a predicate
/// set: nothing where the `regex` crate compiles it, else its words on why
/// not.
pub open spec fn set_refusal(predicates: Seq<PredicateView>) -> Option<Seq<char>> {
    regex_refusal(regex_pattern(predicates, WILDCARD_EXPR@))
}

/// Compiles the regular expression of a predicate set. The compiled
/// expression is returned exactly where the `regex` crate compiles the
/// set's expression; where it does not, the error holds its words on why.
pub fn compile_regex(predicate_set: &MatchPredicateSet) -> (compiled: Result<regex::Regex, String>)
    ensures
        compiled is Ok <==> set_refusal(predicate_set@) is None,
        match compiled {
            Ok(regex) => regex_source(&regex) == regex_pattern(predicate_set@, WILDCARD_EXPR@),
            Err(message) => message@ == failure_text(set_refusal(predicate_set@).unwrap()),
        },
{
    let regex_pattern = generate_regex_pattern(predicate_set, WILDCARD_EXPR);
    match regex_new(regex_pattern.as_str()) {
        Ok(regex) => Ok(regex),
        Err(error) => {
            let detail = error_text(&error);
            Err(failure_message(detail.as_str()))
        },
    }
}

/// The texts of the terms of a set, in the set's order. Unlike `terms_of`
/// this leaves out the patterns that are a single literal.
pub open spec fn term_texts(predicates: Seq<PredicateView>) -> Seq<Seq<char>> {
    predicates.filter_map(
        |predicate: PredicateView|
            match predicate {
                PredicateView::Term(text) => Some(text),
                PredicateView::Pattern(_) => None,
            },
    )
}

/// For each term of `predicates`, in order, its weight in `weights`, or
/// that it has none there.
pub open spec fn term_scores(
    predicates: Seq<PredicateView>,
    weights: Map<Seq<char>, DocFreqReciprocal>,
) -> Seq<Option<DocFreqReciprocal>> {
    term_texts(predicates).map_values(|text: Seq<char>| weights.get(text))
}

/// Where every predicate is a term, the terms group holds the terms and
/// nothing else.
proof fn lemma_terms_alone(predicates: Seq<PredicateView>)
    requires
        forall|index: int| 0 <= index < predicates.len() ==> predicates[index] is Term,
    ensures
        term_texts(predicates) == terms_of(predicates),
    decreases predicates.len(),
{
    if predicates.len() > 0 {
        lemma_terms_alone(predicates.drop_last());
    }
}

/// In a set the terms come before the patterns, so the terms, in order, are
/// the first entries of the terms group.
pub proof fn lemma_terms_lead_their_group(predicates: Seq<PredicateView>)
    requires
        strictly_increasing(predicates, predicate_order()),
    ensures
        term_texts(predicates).is_prefix_of(terms_of(predicates)),
    decreases predicates.len(),
{
    if predicates.len() > 0 {
        let rest = predicates.drop_last();
        let last = predicates.last();
        lemma_strictly_increasing_drop_last(predicates, predicate_order());
        lemma_terms_lead_their_group(rest);
        if last is Term {
            assert forall|index: int| 0 <= index < rest.len() implies rest[index] is Term by {
                assert(predicate_order()(predicates[index], predicates[predicates.len() - 1]));
            }
            lemma_terms_alone(rest);
        }
    }
}

/// The capture groups of the regular expression of a set and the weights of
/// a matcher on it go together: the text in capture group `index + 1` is
/// that of term `index` of the set, and the weight at `index` is the weight
/// of that term.
pub proof fn lemma_capture_groups_go_with_scores(
    predicates: Seq<PredicateView>,
    weights: Map<Seq<char>, DocFreqReciprocal>,
    index: int,
)
    requires
        strictly_increasing(predicates, predicate_order()),
        0 <= index < term_texts(predicates).len(),
    ensures
        index < terms_of(predicates).len(),
        captured_terms(terms_of(predicates))[index] == "^("@ + escaped(
            term_texts(predicates)[index],
        ) + ")$"@,
        term_scores(predicates, weights)[index] == weights.get(term_texts(predicates)[index]),
{
    lemma_terms_lead_their_group(predicates);
}

/// The first of the terms `from`, `from + 1`, ... below `count` whose
/// capture group took part in the match.
pub open spec fn first_captured_term(
    spans: Seq<Option<(usize, usize)>>,
    from: int,
    count: int,
) -> Option<int>
    decreases count - from,
{
    if from >= count {
        None
    } else if from + 1 < spans.len() && spans[from + 1] is Some {
        Some(from)
    } else {
        first_captured_term(spans, from + 1, count)
    }
}

/// A matcher that runs a regular expression, reads the weight of a matched
/// term from its table, and remembers the weight of each other token that
/// it has looked up.
pub struct RegexMatcher {
    regex: regex::Regex,
    term_count: usize,
    term_doc_freq_reciprocals: Vec<Option<DocFreqReciprocal>>,
    pattern_doc_freq_cache: StringHashMap<Option<DocFreqReciprocal>>,
    term_buf: Term,
}

impl RegexMatcher {
    /// The regular expression that the matcher runs.
    pub closed spec fn regex(&self) -> &regex::Regex {
        &self.regex
    }

    /// The number of capture groups that stand for a term.
    pub closed spec fn term_count(&self) -> int {
        self.term_count as int
    }

    /// The weight of each term, by the number of the term.
    pub closed spec fn scores(&self) -> Seq<Option<DocFreqReciprocal>> {
        self.term_doc_freq_reciprocals@
    }

    /// The weights that the matcher remembers.
    pub closed spec fn cache(&self) -> Map<Seq<char>, Option<DocFreqReciprocal>> {
        self.pattern_doc_freq_cache@
    }

    /// The bytes of the term that the matcher last asked about.
    pub closed spec fn term_bytes(&self) -> Seq<u8> {
        self.term_buf.0@
    }

    /// The term whose capture group tells that it matched `token`, if the
    /// regular expression matches `token` through one.
    pub open spec fn matched_term(&self, token: Seq<char>) -> Option<int> {
        match regex_captures(self.regex(), token) {
            Some(spans) => first_captured_term(spans, 0, self.term_count()),
            None => None,
        }
    }

    /// The weight of term `index`.
    pub open spec fn score(&self, index: int) -> Option<DocFreqReciprocal> {
        if 0 <= index < self.scores().len() {
            self.scores()[index]
        } else {
            None
        }
    }

    /// A matcher on `regex` that knows the weight of each term of the set
    /// from the start.
    pub fn new(
        regex: regex::Regex,
        predicate_set: &MatchPredicateSet,
        term_doc_freq_reciprocals_map: &StringHashMap<DocFreqReciprocal>,
    ) -> (matcher: RegexMatcher)
        ensures
            matcher.regex() == &regex,
            matcher.scores() == term_scores(predicate_set@, term_doc_freq_reciprocals_map@),
            matcher.term_count() == term_texts(predicate_set@).len(),
            matcher.cache() == Map::<Seq<char>, Option<DocFreqReciprocal>>::empty(),
    {
        let ghost predicates = predicate_set@;
        let ghost weights = term_doc_freq_reciprocals_map@;
        let ghost term_text = |predicate: PredicateView|
            match predicate {
                PredicateView::Term(text) => Some(text),
                PredicateView::Pattern(_) => None,
            };
        let mut term_doc_freq_reciprocals: Vec<Option<DocFreqReciprocal>> = Vec::new();
        let mut term_count: usize = 0;
        let mut index: usize = 0;
        while index < predicate_set.len()
            invariant
                index <= predicates.len(),
                predicates == predicate_set@,
                weights == term_doc_freq_reciprocals_map@,
                term_text == |predicate: PredicateView|
                    match predicate {
                        PredicateView::Term(text) => Some(text),
                        PredicateView::Pattern(_) => None,
                    },
                term_count == term_texts(predicates.take(index as int)).len(),
                term_count <= index,
                term_doc_freq_reciprocals@ == term_scores(predicates.take(index as int), weights),
            decreases predicates.len() - index,
        {
            proof {
                predicates.lemma_filter_map_take_succ(term_text, index as int);
            }
            if let MatchPredicate::Term(term_text) = predicate_set.get(index) {
                let weight = match term_doc_freq_reciprocals_map.get(term_text.as_str()) {
                    Some(weight) => Some(*weight),
                    None => None,
                };
                term_doc_freq_reciprocals.push(weight);
                term_count = term_count + 1;
            }
            index = index + 1;
        }
        assert(predicates.take(index as int) =~= predicates);
        RegexMatcher {
            regex,
            term_count,
            term_doc_freq_reciprocals,
            pattern_doc_freq_cache: StringHashMap::new(),
            term_buf: Term::default(),
        }
    }

    /// The term, among the first `term_count`, whose capture group is the
    /// first that took part in the match.
    pub fn captured_term(spans: &Vec<Option<(usize, usize)>>, term_count: usize) -> (term: Option<
        usize,
    >)
        ensures
            match term {
                Some(index) => first_captured_term(spans@, 0, term_count as int) == Some(
                    index as int,
                ),
                None => first_captured_term(spans@, 0, term_count as int) is None,
            },
    {
        let mut term_index: usize = 0;
        while term_index < term_count
            invariant
                term_index <= term_count,
                first_captured_term(spans@, 0, term_count as int) == first_captured_term(
                    spans@,
                    term_index as int,
                    term_count as int,
                ),
            decreases term_count - term_index,
        {
            if term_index + 1 < spans.len() && spans[term_index + 1].is_some() {
                return Some(term_index);
            }
            term_index = term_index + 1;
        }
        None
    }

    /// The answer for a token in which the regular expression captured
    /// `spans`. Without a match the token has no weight. A match through the
    /// capture group of a term has the weight of the term. For any other
    /// match the weight that the matcher remembers is returned; where it
    /// remembers none, the document-frequency source is asked about the
    /// token and its answer remembered.
    pub fn lookup_captured(
        &mut self,
        spans: Option<Vec<Option<(usize, usize)>>>,
        token_text: &str,
        get_doc_freq: &impl GetDocFreq,
    ) -> (weight: Option<DocFreqReciprocal>)
        ensures
            final(self).regex() == old(self).regex(),
            final(self).scores() == old(self).scores(),
            final(self).term_count() == old(self).term_count(),
            match option_spans(spans) {
                None => weight is None && *final(self) == *old(self),
                Some(spans) => match first_captured_term(spans, 0, old(self).term_count()) {
                    Some(index) => weight == old(self).score(index) && *final(self) == *old(self),
                    None => if old(self).cache().contains_key(token_text@) {
                        weight == old(self).cache()[token_text@] && *final(self) == *old(self)
                    } else {
                        &&& exists|doc_freq: u64|
                            weight == #[trigger] DocFreqReciprocal::of(doc_freq)
                        &&& final(self).cache() == old(self).cache().insert(token_text@, weight)
                        &&& final(self).term_bytes() == encode_utf8(token_text@)
                    },
                },
            },
    {
        let spans = match spans {
            Some(spans) => spans,
            None => {
                return None;
            },
        };
        if let Some(term_index) = Self::captured_term(&spans, self.term_count) {
            return if term_index < self.term_doc_freq_reciprocals.len() {
                self.term_doc_freq_reciprocals[term_index]
            } else {
                None
            };
        }
        if let Some(weight) = self.pattern_doc_freq_cache.get(token_text) {
            return *weight;
        }
        self.term_buf.set_text(token_text);
        let doc_freq = get_doc_freq.get_doc_freq(&self.term_buf);
        record_doc_freq(&mut self.pattern_doc_freq_cache, token_text, doc_freq)
    }
}

impl LookupDocFreqReciprocal for RegexMatcher {
    /// The regular expression says which tokens are accepted. On record are
    /// the weight of each term, for the tokens that match through the
    /// capture group of a term, and the weights that the matcher remembers,
    /// for the others.
    open spec fn model(&self) -> MatcherModel {
        MatcherModel {
            accepted: Set::new(|token: Seq<char>| regex_captures(self.regex(), token) is Some),
            recorded: Map::new(
                |token: Seq<char>|
                    self.matched_term(token) is Some || self.cache().contains_key(token),
                |token: Seq<char>|
                    match self.matched_term(token) {
                        Some(index) => self.score(index),
                        None => self.cache()[token],
                    },
            ),
        }
    }

    fn lookup_doc_freq_reciprocal(
        &mut self,
        token_text: &str,
        get_doc_freq: &impl GetDocFreq,
    ) -> (weight: Option<DocFreqReciprocal>)
        ensures
            final(self).regex() == old(self).regex(),
            final(self).scores() == old(self).scores(),
            final(self).term_count() == old(self).term_count(),
            !old(self).model().accepted.contains(token_text@) || old(
                self,
            ).model().recorded.contains_key(token_text@) ==> *final(self) == *old(self),
            old(self).model().accepted.contains(token_text@) && !old(
                self,
            ).model().recorded.contains_key(token_text@) ==> final(self).cache() == old(
                self,
            ).cache().insert(token_text@, weight) && final(self).term_bytes() == encode_utf8(
                token_text@,
            ),
    {
        let spans = captures(&self.regex, token_text);
        let weight = self.lookup_captured(spans, token_text, get_doc_freq);
        proof {
            if old(self).model().accepted.contains(token_text@) && !old(
                self,
            ).model().recorded.contains_key(token_text@) {
                assert(self.model().recorded =~= old(self).model().recorded.insert(
                    token_text@,
                    weight,
                ));
            }
        }
        weight
    }
}

/// A term that is found through its capture group is no later than the
/// last term.
proof fn lemma_captured_term_in_range(spans: Seq<Option<(usize, usize)>>, from: int, count: int)
    requires
        0 <= from,
    ensures
        first_captured_term(spans, from, count) matches Some(index) ==> from <= index < count,
    decreases count - from,
{
    if from < count && !(from + 1 < spans.len() && spans[from + 1] is Some) {
        lemma_captured_term_in_range(spans, from + 1, count);
    }
}

/// A token that matches through the capture group of a term has the weight
/// that the table gives to that term: the match is put down to the right
/// term without another lookup.
pub proof fn lemma_captured_term_weighs_as_in_the_table(
    matcher: RegexMatcher,
    predicates: Seq<PredicateView>,
    weights: Map<Seq<char>, DocFreqReciprocal>,
    token: Seq<char>,
)
    requires
        matcher.scores() == term_scores(predicates, weights),
        matcher.term_count() == term_texts(predicates).len(),
        matcher.matched_term(token) is Some,
    ensures
        0 <= matcher.matched_term(token).unwrap() < term_texts(predicates).len(),
        matcher.model().accepted.contains(token),
        matcher.model().recorded.contains_key(token),
        matcher.model().recorded[token] == weights.get(
            term_texts(predicates)[matcher.matched_term(token).unwrap()],
        ),
{
    lemma_captured_term_in_range(
        regex_captures(matcher.regex(), token).unwrap(),
        0,
        matcher.term_count(),
    );
}

/// Compiles the regular expression of the written patterns and builds a
/// matcher on it in which every term has the weight of a term that one
/// document holds. The matcher is returned exactly where the `regex` crate
/// compiles the expression.
pub fn test_regex_matcher(patterns: &[&[&str]]) -> (built: Result<RegexMatcher, String>)
    ensures
        built is Ok <==> set_refusal(written_set(patterns@)) is None,
        match built {
            Ok(matcher) => {
                &&& regex_source(matcher.regex()) == regex_pattern(
                    written_set(patterns@),
                    WILDCARD_EXPR@,
                )
                &&& matcher.scores() == term_scores(
                    written_set(patterns@),
                    term_table(written_set(patterns@), DocFreqReciprocal { doc_freq: 1 }),
                )
                &&& matcher.term_count() == term_texts(written_set(patterns@)).len()
                &&& matcher.cache() == Map::<Seq<char>, Option<DocFreqReciprocal>>::empty()
            },
            Err(message) => message@ == failure_text(set_refusal(written_set(patterns@)).unwrap()),
        },
{
    let predicate_set = create_predicate_set(patterns);
    let term_doc_freq_reciprocals = term_doc_freq_reciprocals_from_predicate_set(&predicate_set);
    match compile_regex(&predicate_set) {
        Ok(regex) => Ok(RegexMatcher::new(regex, &predicate_set, &term_doc_freq_reciprocals)),
        Err(message) => Err(message),
    }
}

} // verus!
