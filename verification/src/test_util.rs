//! Helpers that build predicate sets and weight tables from plain strings.

use vstd::hash_map::StringHashMap;
use vstd::prelude::*;
use vstd::string::StringExecFns;

use crate::hash_matcher::term_table;
use crate::order::{strictly_increasing, text_equal};
use crate::pattern::{nodes_view, PatternAST, PatternASTNode, PatternNodeView};
use crate::predicate::{
    lemma_order_fixes_the_set, lemma_terms_of_next, predicate_order, MatchPredicate,
    MatchPredicateSet, PredicateView,
};
use crate::regex_util::texts_view;
use crate::score::DocFreqReciprocal;

verus! {

/// The node that a piece of a written pattern stands for: `*` is the
/// wildcard, anything else a literal.
pub open spec fn written_node(text: Seq<char>) -> PatternNodeView {
    if text == "*"@ {
        PatternNodeView::Wildcard
    } else {
        PatternNodeView::Literal(text)
    }
}

/// The predicate that a written pattern stands for: a single piece is a
/// term, anything else a pattern of one node for each piece.
pub open spec fn written_predicate(pieces: Seq<Seq<char>>) -> PredicateView {
    if pieces.len() == 1 {
        PredicateView::Term(pieces[0])
    } else {
        PredicateView::Pattern(pieces.map_values(|text: Seq<char>| written_node(text)))
    }
}

/// Builds the predicate that a written pattern stands for.
pub fn create_predicate(pattern: &[&str]) -> (predicate: MatchPredicate)
    ensures
        predicate@ == written_predicate(texts_view(pattern@)),
{
    if pattern.len() == 1 {
        MatchPredicate::Term(String::from_str(pattern[0]))
    } else {
        let ghost pieces = texts_view(pattern@);
        let mut nodes: Vec<PatternASTNode> = Vec::new();
        let mut index: usize = 0;
        while index < pattern.len()
            invariant
                index <= pattern@.len(),
                pieces == texts_view(pattern@),
                nodes_view(nodes@) == pieces.take(index as int).map_values(
                    |text: Seq<char>| written_node(text),
                ),
            decreases pattern@.len() - index,
        {
            let ghost before = nodes_view(nodes@);
            if text_equal(pattern[index], "*") {
                nodes.push(PatternASTNode::Wildcard);
            } else {
                nodes.push(PatternASTNode::Literal(String::from_str(pattern[index])));
            }
            assert(nodes_view(nodes@) =~= before.push(written_node(pieces[index as int])));
            assert(pieces.take(index + 1).map_values(|text: Seq<char>| written_node(text))
                =~= before.push(written_node(pieces[index as int])));
            index = index + 1;
        }
        assert(pieces.take(index as int) =~= pieces);
        MatchPredicate::Pattern(PatternAST(nodes))
    }
}

/// Whether `predicates` is the set of the predicates that the written
/// patterns stand for: in order, each once.
pub open spec fn is_written_set(predicates: Seq<PredicateView>, patterns: Seq<&[&str]>) -> bool {
    &&& strictly_increasing(predicates, predicate_order())
    &&& forall|predicate: PredicateView|
        predicates.contains(predicate) <==> exists|index: int|
            0 <= index < patterns.len() && predicate == written_predicate(
                texts_view(#[trigger] patterns[index]@),
            )
}

/// The set of the predicates that the written patterns stand for.
pub open spec fn written_set(patterns: Seq<&[&str]>) -> Seq<PredicateView> {
    choose|predicates: Seq<PredicateView>| is_written_set(predicates, patterns)
}

/// There is one set of the predicates that written patterns stand for.
pub proof fn lemma_written_set(predicates: Seq<PredicateView>, patterns: Seq<&[&str]>)
    requires
        is_written_set(predicates, patterns),
    ensures
        predicates == written_set(patterns),
{
    lemma_order_fixes_the_set(predicates, written_set(patterns));
}

/// Builds the set of the predicates that the written patterns stand for,
/// for example `&[&["bar"], &["*", "foo"]]`.
pub fn create_predicate_set(patterns: &[&[&str]]) -> (set: MatchPredicateSet)
    ensures
        is_written_set(set@, patterns@),
        set@ == written_set(patterns@),
{
    let mut set = MatchPredicateSet::new();
    let mut count: usize = 0;
    while count < patterns.len()
        invariant
            count <= patterns@.len(),
            is_written_set(set@, patterns@.take(count as int)),
        decreases patterns@.len() - count,
    {
        let ghost before = set@;
        let predicate = create_predicate(patterns[count]);
        let ghost added = predicate@;
        set.insert(predicate);
        assert forall|predicate: PredicateView|
            set@.contains(predicate) <==> exists|index: int|
                0 <= index < count + 1 && predicate == written_predicate(
                    texts_view(#[trigger] patterns@.take(count + 1)[index]@),
                ) by {
            assert(added == written_predicate(
                texts_view(patterns@.take(count + 1)[count as int]@),
            ));
            if before.contains(predicate) {
                let index = choose|index: int|
                    0 <= index < count && predicate == written_predicate(
                        texts_view(#[trigger] patterns@.take(count as int)[index]@),
                    );
                assert(predicate == written_predicate(
                    texts_view(patterns@.take(count + 1)[index]@),
                ));
            }
            if exists|index: int|
                0 <= index < count + 1 && predicate == written_predicate(
                    texts_view(#[trigger] patterns@.take(count + 1)[index]@),
                ) {
                let index = choose|index: int|
                    0 <= index < count + 1 && predicate == written_predicate(
                        texts_view(#[trigger] patterns@.take(count + 1)[index]@),
                    );
                if index < count {
                    assert(predicate == written_predicate(
                        texts_view(patterns@.take(count as int)[index]@),
                    ));
                }
            }
        }
        count = count + 1;
    }
    assert(patterns@.take(count as int) =~= patterns@);
    proof {
        lemma_written_set(set@, patterns@);
    }
    set
}

/// A table that gives every term of the set the weight of a term that one
/// document holds.
pub fn term_doc_freq_reciprocals_from_predicate_set(predicate_set: &MatchPredicateSet) -> (table:
    StringHashMap<DocFreqReciprocal>)
    ensures
        table@ == term_table(predicate_set@, DocFreqReciprocal { doc_freq: 1 }),
{
    let ghost predicates = predicate_set@;
    let weight = DocFreqReciprocal::from_doc_freq(1).unwrap();
    let mut table: StringHashMap<DocFreqReciprocal> = StringHashMap::new();
    let mut index: usize = 0;
    while index < predicate_set.len()
        invariant
            index <= predicates.len(),
            predicates == predicate_set@,
            weight == (DocFreqReciprocal { doc_freq: 1 }),
            table@ == term_table(predicates.take(index as int), weight),
        decreases predicates.len() - index,
    {
        if let MatchPredicate::Term(term_text) = predicate_set.get(index) {
            table.insert(term_text.clone(), weight);
        }
        proof {
            lemma_terms_of_next(predicates, index as int);
        }
        index = index + 1;
    }
    assert(predicates.take(index as int) =~= predicates);
    table
}

} // verus!
