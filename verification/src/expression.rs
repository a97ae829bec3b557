//! The pieces that the matching expression of a predicate set is made of:
//! escaped literals, the expression of a run of nodes, and alternation.

use vstd::prelude::*;
use vstd::string::StringExecFns;

use crate::pattern::{nodes_view, PatternASTNode, PatternNodeView};

verus! {

/// The expression for a wildcard: any run of characters up to U+024F, which
/// covers Latin with its extensions.
pub const WILDCARD_EXPR: &'static str = "[\\x{0000}-\\x{024f}]*";

/// The characters that have a meaning of their own in a regular expression.
pub open spec fn is_meta_character(c: char) -> bool {
    c == '\\' || c == '.' || c == '+' || c == '*' || c == '?' || c == '(' || c == ')' || c == '|'
        || c == '[' || c == ']' || c == '{' || c == '}' || c == '^' || c == '$' || c == '#' || c
        == '&' || c == '-' || c == '~'
}

/// `text` with a backslash put before each of its meta characters.
pub open spec fn escaped(text: Seq<char>) -> Seq<char>
    decreases text.len(),
{
    if text.len() == 0 {
        Seq::empty()
    } else if is_meta_character(text.last()) {
        escaped(text.drop_last()) + seq!['\\', text.last()]
    } else {
        escaped(text.drop_last()) + seq![text.last()]
    }
}

/// `regex_syntax::escape`: the text with every meta character of the regular
/// expression syntax escaped. The function walks the characters of `text` in
/// order and writes each one out, after a backslash where
/// `regex_syntax::is_meta_character` holds of it; `is_meta_character` above
/// lists the same eighteen characters.
#[verifier::external_body]
pub(crate) fn escape(text: &str) -> (quoted: String)
    ensures
        quoted@ == escaped(text@),
{
    regex_syntax::escape(text)
}

/// The expression for one node: a literal escaped, a wildcard as the
/// wildcard expression.
pub open spec fn node_expr(node: PatternNodeView, wildcard: Seq<char>) -> Seq<char> {
    match node {
        PatternNodeView::Literal(text) => escaped(text),
        PatternNodeView::Wildcard => wildcard,
    }
}

/// The expressions of a run of nodes, one after the other.
pub open spec fn nodes_expr(nodes: Seq<PatternNodeView>, wildcard: Seq<char>) -> Seq<char>
    decreases nodes.len(),
{
    if nodes.len() == 0 {
        Seq::empty()
    } else {
        nodes_expr(nodes.drop_last(), wildcard) + node_expr(nodes.last(), wildcard)
    }
}

/// The parts with `separator` between each two of them.
pub open spec fn joined(parts: Seq<Seq<char>>, separator: Seq<char>) -> Seq<char>
    decreases parts.len(),
{
    if parts.len() == 0 {
        Seq::empty()
    } else if parts.len() == 1 {
        parts[0]
    } else {
        joined(parts.drop_last(), separator) + separator + parts.last()
    }
}

/// `part` alone where `present`, else nothing.
pub open spec fn part_if(present: bool, part: Seq<char>) -> Seq<Seq<char>> {
    if present {
        seq![part]
    } else {
        Seq::empty()
    }
}

/// The texts that a run of strings holds.
pub open spec fn strings_view(strings: Seq<String>) -> Seq<Seq<char>> {
    strings.map_values(|string: String| string@)
}

/// Writes out the expression of a run of nodes.
pub fn nodes_to_regex_expr(ast_nodes: &[PatternASTNode], wildcard_expr: &str) -> (expr: String)
    ensures
        expr@ == nodes_expr(nodes_view(ast_nodes@), wildcard_expr@),
{
    let ghost nodes = nodes_view(ast_nodes@);
    let mut expr = String::new();
    let mut index: usize = 0;
    while index < ast_nodes.len()
        invariant
            index <= ast_nodes@.len(),
            nodes == nodes_view(ast_nodes@),
            expr@ == nodes_expr(nodes.take(index as int), wildcard_expr@),
        decreases ast_nodes@.len() - index,
    {
        assert(nodes.take(index + 1).drop_last() =~= nodes.take(index as int));
        match &ast_nodes[index] {
            PatternASTNode::Literal(text) => {
                let quoted = escape(text.as_str());
                expr.append(quoted.as_str());
            },
            PatternASTNode::Wildcard => {
                expr.append(wildcard_expr);
            },
        }
        index = index + 1;
    }
    assert(nodes.take(index as int) =~= nodes);
    expr
}

/// Joins the parts with `separator` between each two of them.
pub fn join(parts: &Vec<String>, separator: &str) -> (whole: String)
    ensures
        whole@ == joined(strings_view(parts@), separator@),
{
    let ghost texts = strings_view(parts@);
    let mut whole = String::new();
    let mut index: usize = 0;
    while index < parts.len()
        invariant
            index <= parts@.len(),
            texts == strings_view(parts@),
            whole@ == joined(texts.take(index as int), separator@),
        decreases parts@.len() - index,
    {
        assert(texts.take(index + 1).drop_last() =~= texts.take(index as int));
        if index > 0 {
            whole.append(separator);
        }
        whole.append(parts[index].as_str());
        index = index + 1;
    }
    assert(texts.take(index as int) =~= texts);
    whole
}

} // verus!
