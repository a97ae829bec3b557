use token_matcher::expression::WILDCARD_EXPR;
use token_matcher::pattern::PatternASTNode;
use token_matcher::regex_matcher::{
    compile_regex, failure_message, framed_patterns_to_regex_expr, generate_regex_pattern,
    pattern_to_regex_expr, patterns_to_regex_expr,
};
use token_matcher::test_util::create_predicate_set;

fn literal(text: &str) -> PatternASTNode {
    PatternASTNode::Literal(text.to_string())
}

#[test]
fn regex_pattern_of_the_empty_set_is_empty() {
    assert_eq!(generate_regex_pattern(&create_predicate_set(&[]), ".*"), "");
}

#[test]
fn regex_pattern_captures_and_anchors_each_term() {
    assert_eq!(
        generate_regex_pattern(&create_predicate_set(&[&["foo"], &["bar"]]), ".*"),
        "^(bar)$|^(foo)$"
    );
}

#[test]
fn regex_pattern_anchors_each_group_where_it_has_no_wildcard() {
    assert_eq!(
        generate_regex_pattern(
            &create_predicate_set(&[
                &["a"],
                &["*", "b"],
                &["c", "*"],
                &["*", "d", "*"],
                &["e", "*", "f"],
                &["g"],
                &["*", "h"],
                &["i", "*"],
                &["*", "j", "*"],
                &["k", "*", "l"]
            ]),
            ".*"
        ),
        "^(a)$|^(g)$|^c.*|^i.*|^e.*f$|^k.*l$|.*b$|.*h$|^.*d.*$|^.*j.*$"
    );
}

#[test]
fn regex_pattern_escapes_literals() {
    assert_eq!(
        generate_regex_pattern(&create_predicate_set(&[&["o.s.v."], &["*", "lol(?)"]]), ".*"),
        r#"^(o\.s\.v\.)$|.*lol\(\?\)$"#
    );
}

#[test]
fn regex_pattern_escapes_every_meta_character() {
    assert_eq!(
        generate_regex_pattern(
            &create_predicate_set(&[&[r#"\.+*?()|[]{}^$#&-~"#]]),
            ".*"
        ),
        r#"^(\\\.\+\*\?\(\)\|\[\]\{\}\^\$\#\&\-\~)$"#
    );
    assert_eq!(
        generate_regex_pattern(&create_predicate_set(&[&["a b_c,d/e:f'g\"h!i@j%k=l<m>n"]]), ".*"),
        "^(a b_c,d/e:f'g\"h!i@j%k=l<m>n)$"
    );
}

#[test]
fn compiled_regex_keeps_the_pattern_of_the_set() {
    let set = create_predicate_set(&[&["nå"], &["fu", "*", "k!"], &["wildca", "*"], &["*", "x"]]);
    let regex = compile_regex(&set).unwrap();
    assert_eq!(regex.as_str(), generate_regex_pattern(&set, WILDCARD_EXPR));
    assert_eq!(
        regex.as_str(),
        r#"^(nå)$|^wildca[\x{0000}-\x{024f}]*|^fu[\x{0000}-\x{024f}]*k!$|[\x{0000}-\x{024f}]*x$"#
    );
}

#[test]
fn wildcard_expression_covers_latin_with_its_extensions() {
    assert_eq!(WILDCARD_EXPR, r#"[\x{0000}-\x{024f}]*"#);
}

#[test]
fn pattern_to_regex_expr_of_no_nodes_is_none() {
    assert_eq!(pattern_to_regex_expr(&[], ".*"), None);
}

#[test]
fn pattern_to_regex_expr_of_a_lone_wildcard_is_none() {
    assert_eq!(pattern_to_regex_expr(&[PatternASTNode::Wildcard], ".*"), None);
}

#[test]
fn pattern_to_regex_expr_of_a_lone_literal_is_the_literal_escaped() {
    assert_eq!(pattern_to_regex_expr(&[literal("a.b")], ".*"), Some(r#"a\.b"#.to_string()));
}

#[test]
fn pattern_to_regex_expr_writes_the_nodes_in_order() {
    assert_eq!(
        pattern_to_regex_expr(
            &[literal("a"), PatternASTNode::Wildcard, literal("b+"), PatternASTNode::Wildcard],
            "W"
        ),
        Some(r#"aWb\+W"#.to_string())
    );
}

#[test]
fn patterns_to_regex_expr_joins_what_has_an_expression() {
    let first = [literal("a"), PatternASTNode::Wildcard, literal("b")];
    let second: [PatternASTNode; 0] = [];
    let third = [PatternASTNode::Wildcard];
    let fourth = [literal("c")];
    assert_eq!(
        patterns_to_regex_expr(&[&first, &second, &third, &fourth], ".*"),
        "a.*b|c"
    );
    assert_eq!(patterns_to_regex_expr(&[], ".*"), "");
    assert_eq!(patterns_to_regex_expr(&[&second, &third], ".*"), "");
}

#[test]
fn framed_patterns_to_regex_expr_frames_each_alternative() {
    let first = [literal("a"), PatternASTNode::Wildcard, literal("b")];
    let second = [PatternASTNode::Wildcard];
    let third = [literal("c")];
    assert_eq!(
        framed_patterns_to_regex_expr(&[&first, &second, &third], ".*", "^", "$"),
        "^a.*b$|^c$"
    );
}

#[test]
fn a_pattern_of_wildcards_alone_leaves_an_empty_expression() {
    let set = create_predicate_set(&[&["*", "*"]]);
    assert_eq!(generate_regex_pattern(&set, ".*"), "");
    let set = create_predicate_set(&[&["a"], &["*", "*"]]);
    assert_eq!(generate_regex_pattern(&set, ".*"), "^(a)$|");
}

#[test]
fn compile_regex_fails_on_an_expression_that_grows_too_large() {
    let mut pieces: Vec<&str> = Vec::new();
    for _ in 0..60000 {
        pieces.push("ab");
        pieces.push("*");
    }
    let patterns: Vec<&[&str]> = vec![&pieces];
    let set = create_predicate_set(&patterns);
    match compile_regex(&set) {
        Ok(_) => panic!("an expression of this size should not compile"),
        Err(message) => {
            assert!(message.starts_with("compile_regex failed. "));
            assert_eq!(message, "compile_regex failed. CompiledTooBig(10485760)");
        }
    }
}

#[test]
fn regex_failure_message_names_the_step_and_the_reason() {
    assert_eq!(failure_message("Syntax(oops)"), "compile_regex failed. Syntax(oops)");
    assert_eq!(failure_message(""), "compile_regex failed. ");
}

#[test]
fn compile_regex_succeeds_where_the_engine_takes_the_expression() {
    for patterns in [
        &[][..],
        &[&["a"][..]][..],
        &[&["a", "*"][..], &["*", "b"][..], &["*", "c", "*"][..], &["d", "*", "e"][..]][..],
        &[&[r#"\.+*?()|[]{}^$#&-~"#][..]][..],
    ] {
        let set = create_predicate_set(patterns);
        let pattern = generate_regex_pattern(&set, WILDCARD_EXPR);
        let compiled = compile_regex(&set);
        assert_eq!(compiled.is_ok(), regex::Regex::new(&pattern).is_ok());
        assert!(compiled.is_ok());
    }
}

#[test]
fn compile_regex_reports_the_words_of_the_engine() {
    let mut pieces: Vec<&str> = Vec::new();
    for _ in 0..60000 {
        pieces.push("ab");
        pieces.push("*");
    }
    let patterns: Vec<&[&str]> = vec![&pieces];
    let set = create_predicate_set(&patterns);
    let pattern = generate_regex_pattern(&set, WILDCARD_EXPR);
    let refusal = regex::Regex::new(&pattern).unwrap_err();
    assert_eq!(
        compile_regex(&set).unwrap_err(),
        format!("compile_regex failed. {:?}", refusal)
    );
}
