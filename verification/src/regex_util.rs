//! Grouping of predicates by the position of their wildcards.
//!
//! Patterns that share a shape can share a wildcard in the compiled
//! expression: `.*(foo|bar)` in place of `(.*foo)|(.*bar)`. The five groups
//! are the shapes that this distinguishes.

use vstd::prelude::*;
use vstd::slice::slice_subrange;

use crate::pattern::{nodes_view, PatternASTNode, PatternNodeView};
use crate::predicate::{MatchPredicate, MatchPredicateSet, PredicateView};

verus! {

/// The text of a predicate without any wildcard: a term, or a pattern that
/// is a single literal.
pub open spec fn term_entry(predicate: PredicateView) -> Option<Seq<char>> {
    match predicate {
        PredicateView::Term(text) => Some(text),
        PredicateView::Pattern(nodes) => if nodes.len() == 1 {
            match nodes[0] {
                PatternNodeView::Literal(text) => Some(text),
                PatternNodeView::Wildcard => None,
            }
        } else {
            None
        },
    }
}

/// The nodes of a pattern of two or more nodes whose first node is a literal
/// (or a wildcard, with `leading` set) and whose last node is a literal (or a
/// wildcard, with `trailing` set); without the wildcard at either end.
pub open spec fn shaped_entry(predicate: PredicateView, leading: bool, trailing: bool) -> Option<
    Seq<PatternNodeView>,
> {
    match predicate {
        PredicateView::Term(_) => None,
        PredicateView::Pattern(nodes) => if nodes.len() > 1 && (nodes.first()
            is Wildcard) == leading && (nodes.last() is Wildcard) == trailing {
            Some(
                nodes.subrange(
                    if leading {
                        1
                    } else {
                        0
                    },
                    if trailing {
                        nodes.len() - 1
                    } else {
                        nodes.len() as int
                    },
                ),
            )
        } else {
            None
        },
    }
}

/// A pattern that no token can be held against: one without nodes, or a
/// lone wildcard.
pub open spec fn is_degenerate(predicate: PredicateView) -> bool {
    match predicate {
        PredicateView::Term(_) => false,
        PredicateView::Pattern(nodes) => nodes.len() == 0 || (nodes.len() == 1 && nodes[0]
            is Wildcard),
    }
}

/// The texts of the predicates without any wildcard, in the set's order.
pub open spec fn terms_of(predicates: Seq<PredicateView>) -> Seq<Seq<char>> {
    predicates.filter_map(|predicate: PredicateView| term_entry(predicate))
}

/// The patterns of one shape, in the set's order, each without the wildcard
/// at either end.
pub open spec fn shaped_of(predicates: Seq<PredicateView>, leading: bool, trailing: bool) -> Seq<
    Seq<PatternNodeView>,
> {
    predicates.filter_map(|predicate: PredicateView| shaped_entry(predicate, leading, trailing))
}

/// The number of predicates among `predicates` that are degenerate.
pub open spec fn degenerate_count(predicates: Seq<PredicateView>) -> nat
    decreases predicates.len(),
{
    if predicates.len() == 0 {
        0
    } else {
        degenerate_count(predicates.drop_last()) + if is_degenerate(predicates.last()) {
            1nat
        } else {
            0nat
        }
    }
}

/// The number of groups that a predicate is put in.
pub open spec fn group_count(predicate: PredicateView) -> nat {
    (if term_entry(predicate) is Some {
        1nat
    } else {
        0nat
    }) + (if shaped_entry(predicate, false, true) is Some {
        1nat
    } else {
        0nat
    }) + (if shaped_entry(predicate, false, false) is Some {
        1nat
    } else {
        0nat
    }) + (if shaped_entry(predicate, true, false) is Some {
        1nat
    } else {
        0nat
    }) + (if shaped_entry(predicate, true, true) is Some {
        1nat
    } else {
        0nat
    })
}

/// Every predicate is put in exactly one of the five groups, but for the
/// degenerate ones, which are put in none.
pub proof fn lemma_one_group_each(predicate: PredicateView)
    ensures
        group_count(predicate) == if is_degenerate(predicate) {
            0nat
        } else {
            1nat
        },
{
}

/// The five groups together hold as many entries as the set has predicates
/// that are not degenerate: with `lemma_one_group_each`, the groups part the
/// set.
pub proof fn lemma_groups_part_the_set(predicates: Seq<PredicateView>)
    ensures
        terms_of(predicates).len() + shaped_of(predicates, false, true).len() + shaped_of(
            predicates,
            false,
            false,
        ).len() + shaped_of(predicates, true, false).len() + shaped_of(predicates, true, true).len()
            + degenerate_count(predicates) == predicates.len(),
    decreases predicates.len(),
{
    if predicates.len() > 0 {
        lemma_groups_part_the_set(predicates.drop_last());
        lemma_one_group_each(predicates.last());
    }
}

/// The texts that a run of string slices holds.
pub open spec fn texts_view(texts: Seq<&str>) -> Seq<Seq<char>> {
    texts.map_values(|text: &str| text@)
}

/// The node views of each of a run of patterns.
pub open spec fn patterns_view(patterns: Seq<&[PatternASTNode]>) -> Seq<Seq<PatternNodeView>> {
    patterns.map_values(|nodes: &[PatternASTNode]| nodes_view(nodes@))
}

/// The predicates of a set in five groups, by where their wildcards stand.
/// The entries borrow from the set.
pub struct GroupedPatterns<'a> {
    /// No wildcard at all.
    pub terms: Vec<&'a str>,
    /// A literal first and a wildcard last, the last wildcard left out.
    pub terms_wc: Vec<&'a [PatternASTNode]>,
    /// A literal at both ends, wildcards only between them.
    pub terms_internal_wc: Vec<&'a [PatternASTNode]>,
    /// A wildcard first and a literal last, the first wildcard left out.
    pub wc_terms: Vec<&'a [PatternASTNode]>,
    /// A wildcard at both ends, both left out.
    pub wc_terms_wc: Vec<&'a [PatternASTNode]>,
}

impl<'a> Default for GroupedPatterns<'a> {
    /// Five empty groups.
    fn default() -> (groups: GroupedPatterns<'a>)
        ensures
            groups.terms@.len() == 0,
            groups.terms_wc@.len() == 0,
            groups.terms_internal_wc@.len() == 0,
            groups.wc_terms@.len() == 0,
            groups.wc_terms_wc@.len() == 0,
    {
        GroupedPatterns {
            terms: Vec::new(),
            terms_wc: Vec::new(),
            terms_internal_wc: Vec::new(),
            wc_terms: Vec::new(),
            wc_terms_wc: Vec::new(),
        }
    }
}

impl<'a> GroupedPatterns<'a> {
    /// Whether the groups hold the classification of `predicates`.
    pub open spec fn classifies(&self, predicates: Seq<PredicateView>) -> bool {
        &&& texts_view(self.terms@) == terms_of(predicates)
        &&& patterns_view(self.terms_wc@) == shaped_of(predicates, false, true)
        &&& patterns_view(self.terms_internal_wc@) == shaped_of(predicates, false, false)
        &&& patterns_view(self.wc_terms@) == shaped_of(predicates, true, false)
        &&& patterns_view(self.wc_terms_wc@) == shaped_of(predicates, true, true)
    }

    /// Puts each predicate of the set in the group of its shape, in the
    /// set's order; a degenerate pattern is put in none.
    pub fn group(predicate_set: &'a MatchPredicateSet) -> (groups: GroupedPatterns<'a>)
        ensures
            groups.classifies(predicate_set@),
    {
        let mut groups = GroupedPatterns::default();
        let ghost predicates = predicate_set@;
        let count = predicate_set.len();
        let mut index: usize = 0;
        assert(groups.classifies(predicates.take(0))) by {
            assert(texts_view(groups.terms@) =~= terms_of(predicates.take(0)));
            assert(patterns_view(groups.terms_wc@) =~= shaped_of(predicates.take(0), false, true));
            assert(patterns_view(groups.terms_internal_wc@) =~= shaped_of(
                predicates.take(0),
                false,
                false,
            ));
            assert(patterns_view(groups.wc_terms@) =~= shaped_of(predicates.take(0), true, false));
            assert(patterns_view(groups.wc_terms_wc@) =~= shaped_of(
                predicates.take(0),
                true,
                true,
            ));
        }
        while index < count
            invariant
                index <= count,
                count == predicates.len(),
                predicates == predicate_set@,
                groups.classifies(predicates.take(index as int)),
            decreases count - index,
        {
            let ghost predicate = predicates[index as int];
            match predicate_set.get(index) {
                MatchPredicate::Term(term_text) => {
                    groups.terms.push(term_text.as_str());
                },
                MatchPredicate::Pattern(ast) => {
                    let nodes = ast.0.as_slice();
                    match nodes.first() {
                        Some(PatternASTNode::Literal(first_text)) => {
                            if nodes.len() == 1 {
                                groups.terms.push(first_text.as_str());
                            } else {
                                match nodes.last() {
                                    Some(PatternASTNode::Literal(_)) => {
                                        assert(nodes_view(nodes@) =~= nodes_view(nodes@).subrange(
                                            0,
                                            nodes@.len() as int,
                                        ));
                                        groups.terms_internal_wc.push(nodes);
                                    },
                                    Some(PatternASTNode::Wildcard) => {
                                        let stripped = slice_subrange(nodes, 0, nodes.len() - 1);
                                        assert(nodes_view(stripped@) =~= nodes_view(
                                            nodes@,
                                        ).subrange(0, nodes@.len() - 1));
                                        groups.terms_wc.push(stripped);
                                    },
                                    None => {},
                                }
                            }
                        },
                        Some(PatternASTNode::Wildcard) => {
                            if nodes.len() > 1 {
                                match nodes.last() {
                                    Some(PatternASTNode::Literal(_)) => {
                                        let stripped = slice_subrange(nodes, 1, nodes.len());
                                        assert(nodes_view(stripped@) =~= nodes_view(
                                            nodes@,
                                        ).subrange(1, nodes@.len() as int));
                                        groups.wc_terms.push(stripped);
                                    },
                                    Some(PatternASTNode::Wildcard) => {
                                        let stripped = slice_subrange(nodes, 1, nodes.len() - 1);
                                        assert(nodes_view(stripped@) =~= nodes_view(
                                            nodes@,
                                        ).subrange(1, nodes@.len() - 1));
                                        groups.wc_terms_wc.push(stripped);
                                    },
                                    None => {},
                                }
                            }
                        },
                        None => {},
                    }
                },
            }
            proof {
                let next = predicates.take(index + 1);
                predicates.lemma_filter_map_take_succ(
                    |predicate: PredicateView| term_entry(predicate),
                    index as int,
                );
                predicates.lemma_filter_map_take_succ(
                    |predicate: PredicateView| shaped_entry(predicate, false, true),
                    index as int,
                );
                predicates.lemma_filter_map_take_succ(
                    |predicate: PredicateView| shaped_entry(predicate, false, false),
                    index as int,
                );
                predicates.lemma_filter_map_take_succ(
                    |predicate: PredicateView| shaped_entry(predicate, true, false),
                    index as int,
                );
                predicates.lemma_filter_map_take_succ(
                    |predicate: PredicateView| shaped_entry(predicate, true, true),
                    index as int,
                );
                assert(texts_view(groups.terms@) =~= terms_of(next));
                assert(patterns_view(groups.terms_wc@) =~= shaped_of(next, false, true));
                assert(patterns_view(groups.terms_internal_wc@) =~= shaped_of(next, false, false));
                assert(patterns_view(groups.wc_terms@) =~= shaped_of(next, true, false));
                assert(patterns_view(groups.wc_terms_wc@) =~= shaped_of(next, true, true));
            }
            index = index + 1;
        }
        assert(predicates.take(count as int) =~= predicates);
        groups
    }
}

} // verus!
