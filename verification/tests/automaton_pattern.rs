use token_matcher::automaton_matcher::{
    compile_automaton, failure_message, generate_regex_pattern, pattern_asts_to_regex_string,
};
use token_matcher::expression::WILDCARD_EXPR;
use token_matcher::pattern::{PatternAST, PatternASTNode};
use token_matcher::predicate::{MatchPredicate, MatchPredicateSet};
use token_matcher::test_util::create_predicate_set;

fn test_generate_regex_pattern(patterns: &[&[&str]]) -> String {
    generate_regex_pattern(&create_predicate_set(patterns), ".*")
}

#[test]
fn generate_regex_pattern_works_with_empty_input() {
    assert_eq!(test_generate_regex_pattern(&[]), "".to_string());
}

#[test]
fn generate_regex_pattern_works_with_literal_terms_only() {
    assert_eq!(
        test_generate_regex_pattern(&[&["foo"], &["bar"],]),
        "bar|foo".to_string()
    );
}

#[test]
fn generate_regex_pattern_works_with_every_pattern_end_wildcarded() {
    assert_eq!(
        test_generate_regex_pattern(&[&["foo", "*"], &["bar", "*"], &["baz", "*"]]),
        "((bar|baz|foo).*)".to_string()
    );
}

#[test]
fn generate_regex_pattern_works_with_types_from_each_group() {
    assert_eq!(
        test_generate_regex_pattern(&[
            &["a"],
            &["*", "b"],
            &["c", "*"],
            &["*", "d", "*"],
            &["e", "*", "f"],
            &["g"],
            &["*", "h"],
            &["i", "*"],
            &["*", "j", "*"],
            &["k", "*", "l"]
        ]),
        "a|g|((c|i).*)|(e.*f)|(k.*l)|(.*(b|h))|(.*(d|j).*)".to_string()
    );
}

#[test]
fn generate_regex_pattern_escapes_literals() {
    assert_eq!(
        test_generate_regex_pattern(&[&["o.s.v."], &["*", "lol(?)"],]),
        r#"o\.s\.v\.|(.*(lol\(\?\)))"#.to_string()
    );
}

#[test]
fn automaton_pattern_escapes_every_meta_character() {
    assert_eq!(
        test_generate_regex_pattern(&[&[r#"\.+*?()|[]{}^$#&-~"#]]),
        r#"\\\.\+\*\?\(\)\|\[\]\{\}\^\$\#\&\-\~"#
    );
}

#[test]
fn automaton_pattern_wraps_patterns_of_several_nodes() {
    assert_eq!(
        test_generate_regex_pattern(&[&["a", "*", "b", "*"], &["c", "*"], &["*", "d", "*", "e"]]),
        "(((a.*b)|c).*)|(.*((d.*e)))"
    );
}

#[test]
fn automaton_pattern_of_wildcards_alone_matches_any_run() {
    assert_eq!(test_generate_regex_pattern(&[&["*", "*"]]), "(.*().*)");
    assert_eq!(test_generate_regex_pattern(&[&["*", "*", "*"]]), "(.*().*)");
}

#[test]
fn automaton_pattern_leaves_out_degenerate_patterns() {
    let mut set = MatchPredicateSet::new();
    set.insert(MatchPredicate::Pattern(PatternAST(vec![])));
    set.insert(MatchPredicate::Pattern(PatternAST(vec![PatternASTNode::Wildcard])));
    assert_eq!(generate_regex_pattern(&set, ".*"), "");
    set.insert(MatchPredicate::Term("t".to_string()));
    set.insert(MatchPredicate::Pattern(PatternAST(vec![PatternASTNode::Literal(
        "p".to_string(),
    )])));
    assert_eq!(generate_regex_pattern(&set, ".*"), "t|p");
}

#[test]
fn pattern_asts_to_regex_string_joins_what_has_an_alternative() {
    let first = [
        PatternASTNode::Literal("a".to_string()),
        PatternASTNode::Wildcard,
        PatternASTNode::Literal("b".to_string()),
    ];
    let second: [PatternASTNode; 0] = [];
    let third = [PatternASTNode::Wildcard];
    let fourth = [PatternASTNode::Literal("c.".to_string())];
    assert_eq!(
        pattern_asts_to_regex_string(&[&first, &second, &third, &fourth], "W"),
        r#"(aWb)|c\."#
    );
    assert_eq!(pattern_asts_to_regex_string(&[], "W"), "");
}

#[test]
fn automaton_failure_message_names_the_step_and_the_reason() {
    assert_eq!(failure_message("Syntax(oops)"), "compile_automaton failed. Syntax(oops)");
}

#[test]
fn compile_automaton_succeeds_where_the_builder_takes_the_expression() {
    let written: [&[&[&str]]; 4] = [
        &[],
        &[&["a"]],
        &[&["a", "*"], &["*", "b"], &["*", "c", "*"], &["d", "*", "e"]],
        &[&[r#"\.+*?()|[]{}^$#&-~"#]],
    ];
    for patterns in written {
        let set = create_predicate_set(patterns);
        let pattern = generate_regex_pattern(&set, WILDCARD_EXPR);
        let built = regex_automata::dense::Builder::new()
            .anchored(true)
            .longest_match(true)
            .build(&pattern);
        let compiled = compile_automaton(&set);
        assert_eq!(compiled.is_ok(), built.is_ok());
        assert!(compiled.is_ok());
    }
}
