use token_matcher::pattern::{PatternAST, PatternASTNode};
use token_matcher::predicate::{MatchPredicate, MatchPredicateSet};
use token_matcher::regex_util::GroupedPatterns;
use token_matcher::test_util::create_predicate_set;

fn literal(text: &str) -> PatternASTNode {
    PatternASTNode::Literal(text.to_string())
}

fn pattern(nodes: Vec<PatternASTNode>) -> MatchPredicate {
    MatchPredicate::Pattern(PatternAST(nodes))
}

#[test]
fn group_puts_each_predicate_in_the_group_of_its_shape() {
    let set = create_predicate_set(&[
        &["a"],
        &["*", "b"],
        &["c", "*"],
        &["*", "d", "*"],
        &["e", "*", "f"],
        &["g"],
        &["*", "h"],
        &["i", "*"],
        &["*", "j", "*"],
        &["k", "*", "l"],
    ]);
    let groups = GroupedPatterns::group(&set);
    let wildcard = PatternASTNode::Wildcard;
    assert_eq!(groups.terms, vec!["a", "g"]);
    assert_eq!(groups.terms_wc, vec![&[literal("c")][..], &[literal("i")][..]]);
    assert_eq!(
        groups.terms_internal_wc,
        vec![
            &[literal("e"), wildcard.clone(), literal("f")][..],
            &[literal("k"), wildcard.clone(), literal("l")][..]
        ]
    );
    assert_eq!(groups.wc_terms, vec![&[literal("b")][..], &[literal("h")][..]]);
    assert_eq!(groups.wc_terms_wc, vec![&[literal("d")][..], &[literal("j")][..]]);
}

#[test]
fn group_drops_the_wildcards_at_the_ends_only() {
    let set = create_predicate_set(&[
        &["a", "*", "b", "*"],
        &["*", "c", "*", "d"],
        &["*", "e", "*", "f", "*"],
        &["*", "*"],
        &["g", "*", "*"],
        &["*", "*", "h"],
        &["*", "*", "*"],
    ]);
    let groups = GroupedPatterns::group(&set);
    let wildcard = PatternASTNode::Wildcard;
    assert!(groups.terms.is_empty());
    assert!(groups.terms_internal_wc.is_empty());
    assert_eq!(
        groups.terms_wc,
        vec![
            &[literal("a"), wildcard.clone(), literal("b")][..],
            &[literal("g"), wildcard.clone()][..]
        ]
    );
    assert_eq!(
        groups.wc_terms,
        vec![
            &[literal("c"), wildcard.clone(), literal("d")][..],
            &[wildcard.clone(), literal("h")][..]
        ]
    );
    assert_eq!(
        groups.wc_terms_wc,
        vec![
            &[literal("e"), wildcard.clone(), literal("f")][..],
            &[][..],
            &[wildcard.clone()][..]
        ]
    );
}

#[test]
fn group_puts_a_lone_literal_with_the_terms() {
    let mut set = MatchPredicateSet::new();
    set.insert(pattern(vec![literal("lone")]));
    set.insert(MatchPredicate::Term("term".to_string()));
    let groups = GroupedPatterns::group(&set);
    assert_eq!(groups.terms, vec!["term", "lone"]);
    assert!(groups.terms_wc.is_empty());
    assert!(groups.terms_internal_wc.is_empty());
    assert!(groups.wc_terms.is_empty());
    assert!(groups.wc_terms_wc.is_empty());
}

#[test]
fn group_puts_degenerate_patterns_nowhere() {
    let mut set = MatchPredicateSet::new();
    set.insert(pattern(vec![]));
    set.insert(pattern(vec![PatternASTNode::Wildcard]));
    assert_eq!(set.len(), 2);
    let groups = GroupedPatterns::group(&set);
    assert!(groups.terms.is_empty());
    assert!(groups.terms_wc.is_empty());
    assert!(groups.terms_internal_wc.is_empty());
    assert!(groups.wc_terms.is_empty());
    assert!(groups.wc_terms_wc.is_empty());
}

#[test]
fn group_puts_every_other_predicate_in_one_group() {
    let written: &[&[&str]] = &[
        &["a"],
        &["b"],
        &["a", "*"],
        &["a", "b"],
        &["a", "*", "b"],
        &["*", "a"],
        &["*", "a", "*"],
        &["*", "*"],
        &["a", "*", "*"],
        &[],
    ];
    let set = create_predicate_set(written);
    assert_eq!(set.len(), 10);
    let groups = GroupedPatterns::group(&set);
    let grouped = groups.terms.len()
        + groups.terms_wc.len()
        + groups.terms_internal_wc.len()
        + groups.wc_terms.len()
        + groups.wc_terms_wc.len();
    // all but the pattern without pieces
    assert_eq!(grouped, 9);
    assert_eq!(groups.terms.len(), 2);
    assert_eq!(groups.terms_wc.len(), 2);
    assert_eq!(groups.terms_internal_wc.len(), 2);
    assert_eq!(groups.wc_terms.len(), 1);
    assert_eq!(groups.wc_terms_wc.len(), 2);
}

#[test]
fn group_of_the_empty_set_is_empty() {
    let set = MatchPredicateSet::new();
    let groups = GroupedPatterns::group(&set);
    assert!(groups.terms.is_empty());
    assert!(groups.wc_terms_wc.is_empty());
}
