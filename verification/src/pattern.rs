//! The pattern model: literal and wildcard nodes, and patterns made of them.

use vstd::prelude::*;

use crate::order::{
    compare_text, irreflexive, lemma_lex_lt_irreflexive, lemma_lex_lt_total,
    lemma_lex_lt_transitive, lemma_text_lt_irreflexive, lemma_text_lt_total,
    lemma_text_lt_transitive, lex_lt, lex_lt_at, text_lt, transitive, Comparison,
};

verus! {

/// One element of a pattern: a literal piece of text, or a wildcard that
/// stands for zero or more characters.
#[derive(Clone, Debug, Eq, PartialEq, Ord, PartialOrd)]
pub enum PatternASTNode {
    Literal(String),
    Wildcard,
}

/// What a pattern node is, with its text as a sequence of characters.
pub enum PatternNodeView {
    Literal(Seq<char>),
    Wildcard,
}

impl View for PatternASTNode {
    type V = PatternNodeView;

    open spec fn view(&self) -> PatternNodeView {
        match self {
            PatternASTNode::Literal(text) => PatternNodeView::Literal(text@),
            PatternASTNode::Wildcard => PatternNodeView::Wildcard,
        }
    }
}

/// The views of a run of pattern nodes, in order.
pub open spec fn nodes_view(nodes: Seq<PatternASTNode>) -> Seq<PatternNodeView> {
    nodes.map_values(|node: PatternASTNode| node@)
}

/// A pattern: its nodes in the order in which they must match.
#[derive(Clone, Debug, Eq, PartialEq, Ord, PartialOrd)]
pub struct PatternAST(pub Vec<PatternASTNode>);

impl View for PatternAST {
    type V = Seq<PatternNodeView>;

    open spec fn view(&self) -> Seq<PatternNodeView> {
        nodes_view(self.0@)
    }
}

/// The order on pattern nodes: literals by their text, and every literal
/// before the wildcard.
pub open spec fn node_lt(a: PatternNodeView, b: PatternNodeView) -> bool {
    match (a, b) {
        (PatternNodeView::Literal(x), PatternNodeView::Literal(y)) => text_lt(x, y),
        (PatternNodeView::Literal(_), PatternNodeView::Wildcard) => true,
        _ => false,
    }
}

/// `node_lt` as a value, for the lexicographic order on runs of nodes.
pub open spec fn node_order() -> spec_fn(PatternNodeView, PatternNodeView) -> bool {
    |a: PatternNodeView, b: PatternNodeView| node_lt(a, b)
}

/// The order on runs of pattern nodes: lexicographic by `node_lt`.
pub open spec fn nodes_lt(a: Seq<PatternNodeView>, b: Seq<PatternNodeView>) -> bool {
    lex_lt(a, b, node_order())
}

/// No pattern node comes before itself, and the order on nodes is
/// transitive.
pub proof fn lemma_node_order_strict()
    ensures
        irreflexive(node_order()),
        transitive(node_order()),
{
    assert forall|x: PatternNodeView| !#[trigger] node_order()(x, x) by {
        if let PatternNodeView::Literal(text) = x {
            lemma_text_lt_irreflexive(text);
        }
    }
    assert forall|x: PatternNodeView, y: PatternNodeView, z: PatternNodeView|
        #[trigger] node_order()(x, y) && #[trigger] node_order()(y, z) implies node_order()(
        x,
        z,
    ) by {
        if let (
            PatternNodeView::Literal(a),
            PatternNodeView::Literal(b),
            PatternNodeView::Literal(c),
        ) = (x, y, z) {
            lemma_text_lt_transitive(a, b, c);
        }
    }
}

/// No run of nodes comes before itself.
pub proof fn lemma_nodes_lt_irreflexive(a: Seq<PatternNodeView>)
    ensures
        !nodes_lt(a, a),
{
    lemma_node_order_strict();
    lemma_lex_lt_irreflexive(a, node_order());
}

/// The order on runs of nodes is transitive.
pub proof fn lemma_nodes_lt_transitive(
    a: Seq<PatternNodeView>,
    b: Seq<PatternNodeView>,
    c: Seq<PatternNodeView>,
)
    requires
        nodes_lt(a, b),
        nodes_lt(b, c),
    ensures
        nodes_lt(a, c),
{
    lemma_node_order_strict();
    lemma_lex_lt_transitive(a, b, c, node_order());
}

/// Of two different runs of nodes one comes before the other.
pub proof fn lemma_nodes_lt_total(a: Seq<PatternNodeView>, b: Seq<PatternNodeView>)
    requires
        a != b,
    ensures
        nodes_lt(a, b) || nodes_lt(b, a),
{
    assert forall|x: PatternNodeView, y: PatternNodeView| x != y implies #[trigger] node_order()(
        x,
        y,
    ) || node_order()(y, x) by {
        if let (PatternNodeView::Literal(s), PatternNodeView::Literal(t)) = (x, y) {
            lemma_text_lt_total(s, t);
        }
    }
    lemma_lex_lt_total(a, b, node_order());
}

impl PatternASTNode {
    /// Compares two nodes: literals by their text, and every literal before
    /// the wildcard.
    pub fn compare(&self, other: &PatternASTNode) -> (c: Comparison)
        ensures
            match c {
                Comparison::Less => node_lt(self@, other@),
                Comparison::Equal => self@ == other@,
                Comparison::Greater => node_lt(other@, self@),
            },
    {
        match self {
            PatternASTNode::Literal(text) => match other {
                PatternASTNode::Literal(other_text) => compare_text(
                    text.as_str(),
                    other_text.as_str(),
                ),
                PatternASTNode::Wildcard => Comparison::Less,
            },
            PatternASTNode::Wildcard => match other {
                PatternASTNode::Literal(_) => Comparison::Greater,
                PatternASTNode::Wildcard => Comparison::Equal,
            },
        }
    }
}

/// Compares two runs of nodes lexicographically.
pub fn compare_nodes(a: &[PatternASTNode], b: &[PatternASTNode]) -> (c: Comparison)
    ensures
        match c {
            Comparison::Less => nodes_lt(nodes_view(a@), nodes_view(b@)),
            Comparison::Equal => nodes_view(a@) == nodes_view(b@),
            Comparison::Greater => nodes_lt(nodes_view(b@), nodes_view(a@)),
        },
{
    let ghost x = nodes_view(a@);
    let ghost y = nodes_view(b@);
    let mut i: usize = 0;
    while i < a.len() && i < b.len()
        invariant
            i <= a@.len(),
            i <= b@.len(),
            x == nodes_view(a@),
            y == nodes_view(b@),
            x.take(i as int) == y.take(i as int),
        decreases a@.len() - i,
    {
        match a[i].compare(&b[i]) {
            Comparison::Less => {
                assert(lex_lt_at(x, y, node_order(), i as int));
                return Comparison::Less;
            },
            Comparison::Greater => {
                assert(lex_lt_at(y, x, node_order(), i as int));
                return Comparison::Greater;
            },
            Comparison::Equal => {},
        }
        i = i + 1;
    }
    if i < b.len() {
        assert(lex_lt_at(x, y, node_order(), i as int));
        Comparison::Less
    } else if i < a.len() {
        assert(lex_lt_at(y, x, node_order(), i as int));
        Comparison::Greater
    } else {
        assert(x =~= x.take(i as int));
        assert(y =~= y.take(i as int));
        Comparison::Equal
    }
}

} // verus!
