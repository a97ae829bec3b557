use std::collections::BTreeSet;

use token_matcher::order::{compare_text, text_equal, Comparison};
use token_matcher::pattern::{compare_nodes, PatternAST, PatternASTNode};
use token_matcher::predicate::{MatchPredicate, MatchPredicateSet};
use token_matcher::test_util::{
    create_predicate, create_predicate_set, term_doc_freq_reciprocals_from_predicate_set,
};

fn term(text: &str) -> MatchPredicate {
    MatchPredicate::Term(text.to_string())
}

fn pattern(pieces: &[&str]) -> MatchPredicate {
    MatchPredicate::Pattern(PatternAST(
        pieces
            .iter()
            .map(|piece| match *piece {
                "*" => PatternASTNode::Wildcard,
                _ => PatternASTNode::Literal(piece.to_string()),
            })
            .collect(),
    ))
}

fn contents(set: &MatchPredicateSet) -> Vec<&MatchPredicate> {
    (0..set.len()).map(|index| set.get(index)).collect()
}

#[test]
fn create_predicate_makes_a_term_of_a_single_piece() {
    assert_eq!(create_predicate(&["bar"]), term("bar"));
    // also of a single star
    assert_eq!(create_predicate(&["*"]), term("*"));
}

#[test]
fn create_predicate_makes_a_pattern_of_several_pieces() {
    assert_eq!(create_predicate(&["*", "foo"]), pattern(&["*", "foo"]));
    assert_eq!(
        create_predicate(&["a", "*", "**", "*"]),
        MatchPredicate::Pattern(PatternAST(vec![
            PatternASTNode::Literal("a".to_string()),
            PatternASTNode::Wildcard,
            PatternASTNode::Literal("**".to_string()),
            PatternASTNode::Wildcard,
        ]))
    );
    assert_eq!(create_predicate(&[]), MatchPredicate::Pattern(PatternAST(vec![])));
}

#[test]
fn create_predicate_set_orders_its_predicates() {
    let set = create_predicate_set(&[&["foo"], &["*", "b"], &["bar"], &["c", "*"], &["foo"]]);
    assert_eq!(
        contents(&set),
        vec![&term("bar"), &term("foo"), &pattern(&["c", "*"]), &pattern(&["*", "b"])]
    );
}

#[test]
fn create_predicate_set_of_nothing_is_empty() {
    let set = create_predicate_set(&[]);
    assert_eq!(set.len(), 0);
}

#[test]
fn the_set_keeps_the_order_of_a_btree_set() {
    let written: &[&[&str]] = &[
        &["z"],
        &["a"],
        &["aa"],
        &["ab", "*"],
        &["a", "*"],
        &["a", "*", "b"],
        &["a", "*", "b", "*"],
        &["*", "a"],
        &["*"],
        &["*", "*"],
        &["å"],
        &["nå"],
        &["n"],
        &["na"],
        &["nz"],
        &["中"],
        &["\u{024f}"],
        &["\u{10000}"],
        &["\u{ffff}"],
        &[""],
        &["", "*"],
        &["a", "b"],
        &["a", "b", "c"],
        &["a", "c"],
        &["A"],
        &["a"],
        &["*", "a", "*"],
        &["*", "a", "b"],
    ];
    let set = create_predicate_set(written);
    let expected: BTreeSet<MatchPredicate> =
        written.iter().map(|pieces| create_predicate(pieces)).collect();
    assert_eq!(set.len(), expected.len());
    assert_eq!(contents(&set), expected.iter().collect::<Vec<_>>());
}

#[test]
fn insert_tells_whether_the_predicate_was_new() {
    let mut set = MatchPredicateSet::new();
    assert_eq!(set.len(), 0);
    assert!(set.insert(term("b")));
    assert!(set.insert(term("a")));
    assert!(!set.insert(term("b")));
    assert!(set.insert(pattern(&["b"])));
    assert!(!set.insert(pattern(&["b"])));
    assert!(set.insert(term("c")));
    assert_eq!(set.len(), 4);
    assert_eq!(contents(&set), vec![&term("a"), &term("b"), &term("c"), &pattern(&["b"])]);
    assert_eq!(set.get(0), &term("a"));
    assert_eq!(set.get(3), &pattern(&["b"]));
}

#[test]
fn compare_orders_predicates_as_their_derived_order_does() {
    let predicates = [
        term(""),
        term("a"),
        term("ab"),
        term("b"),
        term("å"),
        pattern(&[]),
        pattern(&["a"]),
        pattern(&["a", "*"]),
        pattern(&["a", "b"]),
        pattern(&["b"]),
        pattern(&["*"]),
        pattern(&["*", "a"]),
        pattern(&["*", "*"]),
    ];
    for left in predicates.iter() {
        for right in predicates.iter() {
            let expected = match left.cmp(right) {
                std::cmp::Ordering::Less => Comparison::Less,
                std::cmp::Ordering::Equal => Comparison::Equal,
                std::cmp::Ordering::Greater => Comparison::Greater,
            };
            assert_eq!(left.compare(right), expected, "{:?} and {:?}", left, right);
        }
    }
}

#[test]
fn compare_text_orders_strings_by_their_bytes() {
    assert_eq!(compare_text("", ""), Comparison::Equal);
    assert_eq!(compare_text("", "a"), Comparison::Less);
    assert_eq!(compare_text("a", ""), Comparison::Greater);
    assert_eq!(compare_text("abc", "abd"), Comparison::Less);
    assert_eq!(compare_text("abd", "abc"), Comparison::Greater);
    assert_eq!(compare_text("abc", "abc"), Comparison::Equal);
    assert_eq!(compare_text("ab", "abc"), Comparison::Less);
    assert_eq!(compare_text("b", "abc"), Comparison::Greater);
    assert_eq!(compare_text("z", "å"), Comparison::Less);
    assert_eq!(compare_text("\u{ffff}", "\u{10000}"), Comparison::Less);
    assert_eq!(compare_text("Z", "a"), Comparison::Less);
}

#[test]
fn text_equal_tells_equal_strings_from_others() {
    assert!(text_equal("*", "*"));
    assert!(text_equal("", ""));
    assert!(!text_equal("*", "**"));
    assert!(!text_equal("*", ""));
    assert!(!text_equal("a", "b"));
    assert!(text_equal("nå", "nå"));
}

#[test]
fn compare_nodes_orders_runs_of_nodes_item_by_item() {
    let literal = |text: &str| PatternASTNode::Literal(text.to_string());
    assert_eq!(compare_nodes(&[], &[]), Comparison::Equal);
    assert_eq!(compare_nodes(&[], &[PatternASTNode::Wildcard]), Comparison::Less);
    assert_eq!(compare_nodes(&[literal("a")], &[]), Comparison::Greater);
    assert_eq!(
        compare_nodes(&[literal("a"), literal("b")], &[literal("a"), PatternASTNode::Wildcard]),
        Comparison::Less
    );
    assert_eq!(
        compare_nodes(&[PatternASTNode::Wildcard], &[literal("zzz"), literal("zzz")]),
        Comparison::Greater
    );
    assert_eq!(
        compare_nodes(&[literal("a"), literal("b")], &[literal("a"), literal("b")]),
        Comparison::Equal
    );
    assert_eq!(literal("a").compare(&literal("b")), Comparison::Less);
    assert_eq!(literal("b").compare(&PatternASTNode::Wildcard), Comparison::Less);
    assert_eq!(PatternASTNode::Wildcard.compare(&literal("b")), Comparison::Greater);
    assert_eq!(PatternASTNode::Wildcard.compare(&PatternASTNode::Wildcard), Comparison::Equal);
}

#[test]
fn the_table_of_a_set_weighs_each_term_as_seen_once() {
    let set = create_predicate_set(&[&["foo"], &["bar"], &["ba", "*"], &["*", "x"]]);
    let table = term_doc_freq_reciprocals_from_predicate_set(&set);
    assert_eq!(table.len(), 2);
    assert_eq!(table.get("foo").map(|weight| weight.doc_freq), Some(1));
    assert_eq!(table.get("bar").map(|weight| weight.doc_freq), Some(1));
    assert_eq!(table.get("ba"), None);
    assert_eq!(table.get("x"), None);
}
