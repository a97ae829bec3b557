//! The expression of a single predicate, for each shape that a predicate
//! can have.
//!
//! What a matcher accepts is for the engine to say that runs its
//! expression. What the expression is, is said here: for a set of one
//! predicate, of each shape and with any literal, the expression that each
//! of the two engines is given.

use vstd::prelude::*;

use crate::automaton_matcher::{alternation, alternative, automaton_pattern};
use crate::expression::{escaped, node_expr, nodes_expr};
use crate::pattern::PatternNodeView;
use crate::predicate::PredicateView;
use crate::regex_matcher::{framed_alternation, framed_expr, pattern_expr, regex_pattern};
use crate::regex_util::{lemma_one_group_each, shaped_entry, shaped_of, term_entry, terms_of};

verus! {

/// The groups of a set of one predicate: each group holds what the
/// predicate has to give to it, and nothing else.
proof fn lemma_groups_of_one(predicate: PredicateView)
    ensures
        terms_of(seq![predicate]) == match term_entry(predicate) {
            Some(text) => seq![text],
            None => Seq::empty(),
        },
        forall|leading: bool, trailing: bool|
            #[trigger] shaped_of(seq![predicate], leading, trailing) == match shaped_entry(
                predicate,
                leading,
                trailing,
            ) {
                Some(nodes) => seq![nodes],
                None => Seq::empty(),
            },
{
    Seq::lemma_filter_map_singleton(predicate, |predicate: PredicateView| term_entry(predicate));
    assert forall|leading: bool, trailing: bool|
        #[trigger] shaped_of(seq![predicate], leading, trailing) == match shaped_entry(
            predicate,
            leading,
            trailing,
        ) {
            Some(nodes) => seq![nodes],
            None => Seq::empty(),
        } by {
        Seq::lemma_filter_map_singleton(
            predicate,
            |predicate: PredicateView| shaped_entry(predicate, leading, trailing),
        );
    }
}

/// The alternation of a group of one pattern is the alternative of the
/// pattern, if it has one.
proof fn lemma_alternation_of_one(
    nodes: Seq<PatternNodeView>,
    wildcard: Seq<char>,
    prefix: Seq<char>,
    suffix: Seq<char>,
)
    ensures
        framed_alternation(seq![nodes], wildcard, prefix, suffix) == match pattern_expr(
            nodes,
            wildcard,
        ) {
            Some(expr) => prefix + expr + suffix,
            None => Seq::empty(),
        },
        alternation(seq![nodes], wildcard) == match alternative(nodes, wildcard) {
            Some(expr) => expr,
            None => Seq::empty(),
        },
{
    Seq::lemma_filter_map_singleton(
        nodes,
        |nodes: Seq<PatternNodeView>| framed_expr(nodes, wildcard, prefix, suffix),
    );
    Seq::lemma_filter_map_singleton(
        nodes,
        |nodes: Seq<PatternNodeView>| alternative(nodes, wildcard),
    );
}

/// The expression of a set of one predicate is the expression of the one
/// group that the predicate is put in.
proof fn lemma_parts(predicate: PredicateView, wildcard: Seq<char>)
    ensures
        term_entry(predicate) matches Some(text) ==> {
            &&& regex_pattern(seq![predicate], wildcard) == "^("@ + escaped(text) + ")$"@
            &&& automaton_pattern(seq![predicate], wildcard) == escaped(text)
        },
        shaped_entry(predicate, false, true) matches Some(nodes) ==> {
            &&& regex_pattern(seq![predicate], wildcard) == framed_alternation(
                seq![nodes],
                wildcard,
                "^"@,
                wildcard,
            )
            &&& automaton_pattern(seq![predicate], wildcard) == "(("@ + alternation(
                seq![nodes],
                wildcard,
            ) + ")"@ + wildcard + ")"@
        },
        shaped_entry(predicate, false, false) matches Some(nodes) ==> {
            &&& regex_pattern(seq![predicate], wildcard) == framed_alternation(
                seq![nodes],
                wildcard,
                "^"@,
                "$"@,
            )
            &&& automaton_pattern(seq![predicate], wildcard) == alternation(seq![nodes], wildcard)
        },
        shaped_entry(predicate, true, false) matches Some(nodes) ==> {
            &&& regex_pattern(seq![predicate], wildcard) == framed_alternation(
                seq![nodes],
                wildcard,
                wildcard,
                "$"@,
            )
            &&& automaton_pattern(seq![predicate], wildcard) == "("@ + wildcard + "("@
                + alternation(seq![nodes], wildcard) + "))"@
        },
        shaped_entry(predicate, true, true) matches Some(nodes) ==> {
            &&& regex_pattern(seq![predicate], wildcard) == framed_alternation(
                seq![nodes],
                wildcard,
                "^"@ + wildcard,
                wildcard + "$"@,
            )
            &&& automaton_pattern(seq![predicate], wildcard) == "("@ + wildcard + "("@
                + alternation(seq![nodes], wildcard) + ")"@ + wildcard + ")"@
        },
{
    lemma_groups_of_one(predicate);
    lemma_one_group_each(predicate);
}

/// The expression of one, two and three nodes.
proof fn lemma_nodes_expr_unfolds(
    first: PatternNodeView,
    second: PatternNodeView,
    third: PatternNodeView,
    wildcard: Seq<char>,
)
    ensures
        nodes_expr(seq![first], wildcard) == node_expr(first, wildcard),
        nodes_expr(seq![first, second], wildcard) == node_expr(first, wildcard) + node_expr(
            second,
            wildcard,
        ),
        nodes_expr(seq![first, second, third], wildcard) == node_expr(first, wildcard) + node_expr(
            second,
            wildcard,
        ) + node_expr(third, wildcard),
{
    assert(seq![first].drop_last() =~= Seq::<PatternNodeView>::empty());
    assert(nodes_expr(Seq::<PatternNodeView>::empty(), wildcard) =~= Seq::<char>::empty());
    assert(nodes_expr(seq![first], wildcard) =~= node_expr(first, wildcard));
    assert(seq![first, second].drop_last() =~= seq![first]);
    assert(nodes_expr(seq![first, second], wildcard) =~= node_expr(first, wildcard) + node_expr(
        second,
        wildcard,
    ));
    assert(seq![first, second, third].drop_last() =~= seq![first, second]);
}

/// A term stands in the expression as itself, escaped: between anchors and
/// in a capture group for a regular expression, bare for an automaton.
pub proof fn lemma_expression_of_a_term(text: Seq<char>, wildcard: Seq<char>)
    ensures
        regex_pattern(seq![PredicateView::Term(text)], wildcard) == "^("@ + escaped(text) + ")$"@,
        automaton_pattern(seq![PredicateView::Term(text)], wildcard) == escaped(text),
{
    lemma_parts(PredicateView::Term(text), wildcard);
}

/// A literal before a wildcard stands in the expression escaped, with the
/// wildcard expression after it: anchored at the start for a regular
/// expression.
pub proof fn lemma_expression_of_a_prefix(text: Seq<char>, wildcard: Seq<char>)
    ensures
        regex_pattern(
            seq![
                PredicateView::Pattern(
                    seq![PatternNodeView::Literal(text), PatternNodeView::Wildcard],
                ),
            ],
            wildcard,
        ) == "^"@ + escaped(text) + wildcard,
        automaton_pattern(
            seq![
                PredicateView::Pattern(
                    seq![PatternNodeView::Literal(text), PatternNodeView::Wildcard],
                ),
            ],
            wildcard,
        ) == "(("@ + escaped(text) + ")"@ + wildcard + ")"@,
{
    let nodes = seq![PatternNodeView::Literal(text), PatternNodeView::Wildcard];
    let predicate = PredicateView::Pattern(nodes);
    let entry = seq![PatternNodeView::Literal(text)];
    assert(nodes.subrange(0, 1) =~= entry);
    lemma_parts(predicate, wildcard);
    lemma_alternation_of_one(entry, wildcard, "^"@, wildcard);
}

/// A literal after a wildcard stands in the expression escaped, with the
/// wildcard expression before it: anchored at the end for a regular
/// expression.
pub proof fn lemma_expression_of_a_suffix(text: Seq<char>, wildcard: Seq<char>)
    ensures
        regex_pattern(
            seq![
                PredicateView::Pattern(
                    seq![PatternNodeView::Wildcard, PatternNodeView::Literal(text)],
                ),
            ],
            wildcard,
        ) == wildcard + escaped(text) + "$"@,
        automaton_pattern(
            seq![
                PredicateView::Pattern(
                    seq![PatternNodeView::Wildcard, PatternNodeView::Literal(text)],
                ),
            ],
            wildcard,
        ) == "("@ + wildcard + "("@ + escaped(text) + "))"@,
{
    let nodes = seq![PatternNodeView::Wildcard, PatternNodeView::Literal(text)];
    let predicate = PredicateView::Pattern(nodes);
    let entry = seq![PatternNodeView::Literal(text)];
    assert(nodes.subrange(1, 2) =~= entry);
    lemma_parts(predicate, wildcard);
    lemma_alternation_of_one(entry, wildcard, wildcard, "$"@);
}

/// A literal between two wildcards stands in the expression escaped, with
/// the wildcard expression on both sides: anchored at both ends for a
/// regular expression.
pub proof fn lemma_expression_of_an_infix(text: Seq<char>, wildcard: Seq<char>)
    ensures
        regex_pattern(
            seq![
                PredicateView::Pattern(
                    seq![
                        PatternNodeView::Wildcard,
                        PatternNodeView::Literal(text),
                        PatternNodeView::Wildcard,
                    ],
                ),
            ],
            wildcard,
        ) == "^"@ + wildcard + escaped(text) + wildcard + "$"@,
        automaton_pattern(
            seq![
                PredicateView::Pattern(
                    seq![
                        PatternNodeView::Wildcard,
                        PatternNodeView::Literal(text),
                        PatternNodeView::Wildcard,
                    ],
                ),
            ],
            wildcard,
        ) == "("@ + wildcard + "("@ + escaped(text) + ")"@ + wildcard + ")"@,
{
    let nodes = seq![
        PatternNodeView::Wildcard,
        PatternNodeView::Literal(text),
        PatternNodeView::Wildcard,
    ];
    let predicate = PredicateView::Pattern(nodes);
    let entry = seq![PatternNodeView::Literal(text)];
    assert(nodes.subrange(1, 2) =~= entry);
    lemma_parts(predicate, wildcard);
    lemma_alternation_of_one(entry, wildcard, "^"@ + wildcard, wildcard + "$"@);
}

/// Two literals around a wildcard stand in the expression escaped, with the
/// wildcard expression between them: anchored at both ends for a regular
/// expression, in parentheses for an automaton.
pub proof fn lemma_expression_of_a_frame(first: Seq<char>, last: Seq<char>, wildcard: Seq<char>)
    ensures
        regex_pattern(
            seq![
                PredicateView::Pattern(
                    seq![
                        PatternNodeView::Literal(first),
                        PatternNodeView::Wildcard,
                        PatternNodeView::Literal(last),
                    ],
                ),
            ],
            wildcard,
        ) == "^"@ + escaped(first) + wildcard + escaped(last) + "$"@,
        automaton_pattern(
            seq![
                PredicateView::Pattern(
                    seq![
                        PatternNodeView::Literal(first),
                        PatternNodeView::Wildcard,
                        PatternNodeView::Literal(last),
                    ],
                ),
            ],
            wildcard,
        ) == "("@ + escaped(first) + wildcard + escaped(last) + ")"@,
{
    let nodes = seq![
        PatternNodeView::Literal(first),
        PatternNodeView::Wildcard,
        PatternNodeView::Literal(last),
    ];
    let predicate = PredicateView::Pattern(nodes);
    assert(nodes.subrange(0, 3) =~= nodes);
    lemma_parts(predicate, wildcard);
    lemma_alternation_of_one(nodes, wildcard, "^"@, "$"@);
    lemma_nodes_expr_unfolds(
        PatternNodeView::Literal(first),
        PatternNodeView::Wildcard,
        PatternNodeView::Literal(last),
        wildcard,
    );
}

} // verus!
