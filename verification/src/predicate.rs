//! Match predicates, and the ordered set of them that a matcher is built
//! from.

use vstd::prelude::*;

use crate::order::{
    compare_text, lemma_strictly_increasing_drop_last, lemma_text_lt_irreflexive,
    lemma_text_lt_total, lemma_text_lt_transitive, strictly_increasing, text_lt, Comparison,
};
use crate::pattern::{
    compare_nodes, lemma_nodes_lt_irreflexive, lemma_nodes_lt_total, lemma_nodes_lt_transitive,
    nodes_lt, PatternAST, PatternNodeView,
};

verus! {

/// What a token is matched against: an exact term, or a pattern with
/// wildcards.
#[derive(Debug, Eq, PartialEq, Ord, PartialOrd)]
pub enum MatchPredicate {
    Term(String),
    Pattern(PatternAST),
}

/// What a predicate is, with its texts as sequences of characters.
pub enum PredicateView {
    Term(Seq<char>),
    Pattern(Seq<PatternNodeView>),
}

impl View for MatchPredicate {
    type V = PredicateView;

    open spec fn view(&self) -> PredicateView {
        match self {
            MatchPredicate::Term(text) => PredicateView::Term(text@),
            MatchPredicate::Pattern(pattern) => PredicateView::Pattern(pattern@),
        }
    }
}

/// The views of a run of predicates, in order.
pub open spec fn predicates_view(predicates: Seq<MatchPredicate>) -> Seq<PredicateView> {
    predicates.map_values(|predicate: MatchPredicate| predicate@)
}

/// The order on predicates: terms by their text, patterns by their nodes,
/// and every term before every pattern.
pub open spec fn predicate_lt(a: PredicateView, b: PredicateView) -> bool {
    match (a, b) {
        (PredicateView::Term(x), PredicateView::Term(y)) => text_lt(x, y),
        (PredicateView::Term(_), PredicateView::Pattern(_)) => true,
        (PredicateView::Pattern(x), PredicateView::Pattern(y)) => nodes_lt(x, y),
        _ => false,
    }
}

/// `predicate_lt` as a value, for `strictly_increasing`.
pub open spec fn predicate_order() -> spec_fn(PredicateView, PredicateView) -> bool {
    |a: PredicateView, b: PredicateView| predicate_lt(a, b)
}

/// No predicate comes before itself.
pub proof fn lemma_predicate_lt_irreflexive(a: PredicateView)
    ensures
        !predicate_lt(a, a),
{
    match a {
        PredicateView::Term(text) => lemma_text_lt_irreflexive(text),
        PredicateView::Pattern(nodes) => lemma_nodes_lt_irreflexive(nodes),
    }
}

/// The order on predicates is transitive.
pub proof fn lemma_predicate_lt_transitive(a: PredicateView, b: PredicateView, c: PredicateView)
    requires
        predicate_lt(a, b),
        predicate_lt(b, c),
    ensures
        predicate_lt(a, c),
{
    match (a, b, c) {
        (PredicateView::Term(x), PredicateView::Term(y), PredicateView::Term(z)) => {
            lemma_text_lt_transitive(x, y, z)
        },
        (PredicateView::Pattern(x), PredicateView::Pattern(y), PredicateView::Pattern(z)) => {
            lemma_nodes_lt_transitive(x, y, z)
        },
        _ => {},
    }
}

/// Of two different predicates one comes before the other.
pub proof fn lemma_predicate_lt_total(a: PredicateView, b: PredicateView)
    requires
        a != b,
    ensures
        predicate_lt(a, b) || predicate_lt(b, a),
{
    match (a, b) {
        (PredicateView::Term(x), PredicateView::Term(y)) => lemma_text_lt_total(x, y),
        (PredicateView::Pattern(x), PredicateView::Pattern(y)) => lemma_nodes_lt_total(x, y),
        _ => {},
    }
}

/// A set is given by its members: two runs of predicates in strictly
/// increasing order that hold the same predicates are the same run.
pub proof fn lemma_order_fixes_the_set(a: Seq<PredicateView>, b: Seq<PredicateView>)
    requires
        strictly_increasing(a, predicate_order()),
        strictly_increasing(b, predicate_order()),
        forall|predicate: PredicateView| a.contains(predicate) <==> b.contains(predicate),
    ensures
        a == b,
    decreases a.len(),
{
    if a.len() == 0 {
        if b.len() > 0 {
            assert(b.contains(b[0]));
        }
        assert(a =~= b);
    } else {
        let top = a.last();
        assert(a.contains(top));
        let at = choose|at: int| 0 <= at < b.len() && b[at] == top;
        if at < b.len() - 1 {
            // something of `b` comes after `top`, and is in `a`, where nothing does
            let above = b.last();
            assert(predicate_order()(b[at], b[b.len() - 1]));
            assert(b.contains(above));
            let back = choose|back: int| 0 <= back < a.len() && a[back] == above;
            if back < a.len() - 1 {
                assert(predicate_order()(a[back], a[a.len() - 1]));
                lemma_predicate_lt_transitive(top, above, top);
            }
            lemma_predicate_lt_irreflexive(top);
        }
        let a_rest = a.drop_last();
        let b_rest = b.drop_last();
        lemma_strictly_increasing_drop_last(a, predicate_order());
        lemma_strictly_increasing_drop_last(b, predicate_order());
        assert forall|predicate: PredicateView| a_rest.contains(predicate) <==> b_rest.contains(
            predicate,
        ) by {
            lemma_predicate_lt_irreflexive(top);
            if a_rest.contains(predicate) {
                let i = choose|i: int| 0 <= i < a_rest.len() && a_rest[i] == predicate;
                assert(predicate_order()(a[i], a[a.len() - 1]));
                assert(a.contains(predicate));
                let j = choose|j: int| 0 <= j < b.len() && b[j] == predicate;
                assert(b_rest[j] == predicate);
            }
            if b_rest.contains(predicate) {
                let j = choose|j: int| 0 <= j < b_rest.len() && b_rest[j] == predicate;
                assert(predicate_order()(b[j], b[b.len() - 1]));
                assert(b.contains(predicate));
                let i = choose|i: int| 0 <= i < a.len() && a[i] == predicate;
                assert(a_rest[i] == predicate);
            }
        }
        lemma_order_fixes_the_set(a_rest, b_rest);
        assert(a =~= a_rest.push(top));
        assert(b =~= b_rest.push(top));
    }
}

/// The terms among the first `index + 1` predicates are those among the
/// first `index`, and the predicate at `index` where it is a term.
pub proof fn lemma_terms_of_next(predicates: Seq<PredicateView>, index: int)
    requires
        0 <= index < predicates.len(),
    ensures
        forall|text: Seq<char>|
            #[trigger] predicates.take(index + 1).contains(PredicateView::Term(text))
                <==> predicates.take(index).contains(PredicateView::Term(text))
                || predicates[index] == PredicateView::Term(text),
{
    let taken = predicates.take(index);
    let next = predicates.take(index + 1);
    assert(next =~= taken.push(predicates[index]));
    assert forall|text: Seq<char>|
        #[trigger] next.contains(PredicateView::Term(text)) <==> taken.contains(
            PredicateView::Term(text),
        ) || predicates[index] == PredicateView::Term(text) by {
        if taken.contains(PredicateView::Term(text)) {
            let at = choose|at: int|
                0 <= at < taken.len() && taken[at] == PredicateView::Term(text);
            assert(next[at] == PredicateView::Term(text));
        }
        if predicates[index] == PredicateView::Term(text) {
            assert(next[index] == PredicateView::Term(text));
        }
    }
}

impl MatchPredicate {
    /// Compares two predicates: terms by their text, patterns by their
    /// nodes, and every term before every pattern.
    pub fn compare(&self, other: &MatchPredicate) -> (c: Comparison)
        ensures
            match c {
                Comparison::Less => predicate_lt(self@, other@),
                Comparison::Equal => self@ == other@,
                Comparison::Greater => predicate_lt(other@, self@),
            },
    {
        match self {
            MatchPredicate::Term(text) => match other {
                MatchPredicate::Term(other_text) => compare_text(
                    text.as_str(),
                    other_text.as_str(),
                ),
                MatchPredicate::Pattern(_) => Comparison::Less,
            },
            MatchPredicate::Pattern(pattern) => match other {
                MatchPredicate::Term(_) => Comparison::Greater,
                MatchPredicate::Pattern(other_pattern) => compare_nodes(
                    pattern.0.as_slice(),
                    other_pattern.0.as_slice(),
                ),
            },
        }
    }
}

/// A set of predicates: no predicate occurs twice, and they are kept in
/// their order, terms first.
#[derive(Debug)]
pub struct MatchPredicateSet {
    predicates: Vec<MatchPredicate>,
}

impl View for MatchPredicateSet {
    type V = Seq<PredicateView>;

    closed spec fn view(&self) -> Seq<PredicateView> {
        predicates_view(self.predicates@)
    }
}

impl MatchPredicateSet {
    /// The predicates stand in strictly increasing order, so none occurs
    /// twice.
    #[verifier::type_invariant]
    pub open spec fn wf(self) -> bool {
        strictly_increasing(self@, predicate_order())
    }

    /// The empty set.
    pub fn new() -> (set: MatchPredicateSet)
        ensures
            set@ == Seq::<PredicateView>::empty(),
    {
        let set = MatchPredicateSet { predicates: Vec::new() };
        set
    }

    /// The number of predicates in the set.
    pub fn len(&self) -> (len: usize)
        ensures
            len == self@.len(),
    {
        self.predicates.len()
    }

    /// The predicate at position `index` of the set's order.
    pub fn get(&self, index: usize) -> (predicate: &MatchPredicate)
        requires
            index < self@.len(),
        ensures
            predicate@ == self@[index as int],
    {
        &self.predicates[index]
    }

    /// Adds a predicate at its place in the order, unless the set holds it
    /// already. Tells whether it was added.
    pub fn insert(&mut self, predicate: MatchPredicate) -> (added: bool)
        ensures
            final(self).wf(),
            added == !old(self)@.contains(predicate@),
            forall|other: PredicateView|
                final(self)@.contains(other) <==> old(self)@.contains(other) || other
                    == predicate@,
            !added ==> final(self)@ == old(self)@,
            added ==> exists|at: int|
                0 <= at <= old(self)@.len() && final(self)@ == #[trigger] old(self)@.insert(
                    at,
                    predicate@,
                ),
    {
        proof {
            use_type_invariant(&*self);
        }
        let ghost before = self@;
        let ghost new = predicate@;
        let mut at: usize = 0;
        while at < self.predicates.len()
            invariant
                at <= self.predicates@.len(),
                self@ == before,
                new == predicate@,
                strictly_increasing(before, predicate_order()),
                forall|j: int| 0 <= j < at ==> predicate_lt(#[trigger] before[j], new),
            ensures
                at < before.len() ==> predicate_lt(new, before[at as int]),
            decreases self.predicates@.len() - at,
        {
            match self.predicates[at].compare(&predicate) {
                Comparison::Less => {},
                Comparison::Equal => {
                    assert(before[at as int] == new);
                    return false;
                },
                Comparison::Greater => {
                    break ;
                },
            }
            at = at + 1;
        }
        proof {
            assert forall|j: int| at <= j < before.len() implies predicate_lt(
                new,
                #[trigger] before[j],
            ) by {
                if at < j {
                    assert(predicate_order()(before[at as int], before[j]));
                    lemma_predicate_lt_transitive(new, before[at as int], before[j]);
                }
            }
            assert forall|j: int| 0 <= j < before.len() implies before[j] != new by {
                lemma_predicate_lt_irreflexive(new);
            }
        }
        let mut predicates: Vec<MatchPredicate> = Vec::new();
        std::mem::swap(&mut self.predicates, &mut predicates);
        predicates.insert(at, predicate);
        proof {
            let after = predicates_view(predicates@);
            assert(after =~= before.insert(at as int, new));
            assert forall|other: PredicateView|
                after.contains(other) <==> before.contains(other) || other == new by {
                if after.contains(other) {
                    let i = choose|i: int| 0 <= i < after.len() && after[i] == other;
                    if i < at {
                        assert(before[i] == other);
                    } else if i > at {
                        assert(before[i - 1] == other);
                    }
                }
                if before.contains(other) {
                    let i = choose|i: int| 0 <= i < before.len() && before[i] == other;
                    if i < at {
                        assert(after[i] == other);
                    } else {
                        assert(after[i + 1] == other);
                    }
                }
                assert(after[at as int] == new);
            }
            assert forall|i: int, j: int| 0 <= i < j < after.len() implies #[trigger] predicate_lt(
                after[i],
                after[j],
            ) by {
                if i < at && j > at {
                    assert(predicate_order()(before[i], before[j - 1]));
                } else if i > at {
                    assert(predicate_order()(before[i - 1], before[j - 1]));
                } else if j < at {
                    assert(predicate_order()(before[i], before[j]));
                }
            }
        }
        self.predicates = predicates;
        true
    }
}

} // verus!
