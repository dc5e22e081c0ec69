use viable_compiler::{
    to_ast, AsciiRange, CompilerError, GroupKind, NumericRange, ParseNode, ParseOutcome,
    QuantifierKind, Range, RuleTag, ViableAst, ViableAstNode,
};

fn node(tag: RuleTag, text: &str, children: Vec<ParseNode>) -> ParseNode {
    ParseNode { tag, text: text.to_string(), children }
}

fn leaf(tag: RuleTag, text: &str) -> ParseNode {
    node(tag, text, Vec::new())
}

fn root(children: Vec<ParseNode>) -> ParseOutcome {
    ParseOutcome::Tree(vec![node(RuleTag::Root, "", children)])
}

fn quantity(text: &str, kind: ParseNode) -> ParseNode {
    node(RuleTag::Quantity, text, vec![kind])
}

fn quantifier_node(q: ParseNode, operand: ParseNode) -> ParseNode {
    node(RuleTag::Quantifier, "", vec![q, operand])
}

#[test]
fn empty_source_is_empty_ast() {
    let result = to_ast("", ParseOutcome::Tree(Vec::new()));
    assert_eq!(result, Ok(ViableAst::Empty));
}

#[test]
fn empty_source_ignores_engine_failure() {
    let result = to_ast("", ParseOutcome::Failure("irrelevant".to_string()));
    assert_eq!(result, Ok(ViableAst::Empty));
}

#[test]
fn engine_failure_is_parse_error() {
    let result = to_ast("???", ParseOutcome::Failure("unexpected token".to_string()));
    assert_eq!(
        result,
        Err(CompilerError::ParseError("unexpected token".to_string()))
    );
}

#[test]
fn missing_root_node_is_reported() {
    let result = to_ast("abc", ParseOutcome::Tree(Vec::new()));
    assert_eq!(result, Err(CompilerError::MissingRootNode));
}

#[test]
fn literal_and_end_of_input_translate_in_order() {
    let result = to_ast(
        "\"ab\"",
        root(vec![leaf(RuleTag::Literal, "ab"), leaf(RuleTag::EndOfInput, "")]),
    );
    assert_eq!(
        result,
        Ok(ViableAst::Root(vec![
            ViableAstNode::Atom("ab".to_string()),
            ViableAstNode::Skip,
        ]))
    );
}

#[test]
fn raw_symbol_and_category_nodes_translate() {
    let result = to_ast(
        "src",
        root(vec![
            leaf(RuleTag::Raw, "r"),
            leaf(RuleTag::Symbol, "<char>"),
            leaf(RuleTag::UnicodeCategory, "<category::letter>"),
            leaf(RuleTag::SpecialSymbol, "<start>"),
        ]),
    );
    assert_eq!(
        result,
        Ok(ViableAst::Root(vec![
            ViableAstNode::Atom("r".to_string()),
            ViableAstNode::Symbol("<char>".to_string()),
            ViableAstNode::UnicodeCategory("<category::letter>".to_string()),
            ViableAstNode::SpecialSymbol("<start>".to_string()),
        ]))
    );
}

#[test]
fn unrecognized_rule_tag_fails() {
    let result = to_ast("x", root(vec![leaf(RuleTag::Identifier, "x")]));
    assert_eq!(result, Err(CompilerError::UnrecognizedSyntax));
}

#[test]
fn one_or_more_literal_is_greedy_by_default() {
    let result = to_ast(
        "some of \"abc\"",
        root(vec![quantifier_node(
            quantity("some of", leaf(RuleTag::OneOrMore, "some")),
            leaf(RuleTag::Literal, "abc"),
        )]),
    );
    match result {
        Ok(ViableAst::Root(nodes)) => {
            assert_eq!(nodes.len(), 1);
            match &nodes[0] {
                ViableAstNode::Quantifier(q) => {
                    assert_eq!(q.kind, QuantifierKind::OneOrMore);
                    assert!(!q.lazy);
                    assert!(matches!(&q.expression,
                        viable_compiler::Expression::Atom(s) if s == "abc"));
                },
                other => panic!("expected a quantifier, got {:?}", other),
            }
        },
        other => panic!("expected a root, got {:?}", other),
    }
}

#[test]
fn lazy_marker_sets_laziness() {
    let result = to_ast(
        "lazy any of \"a\"",
        root(vec![quantifier_node(
            quantity("lazy any of", leaf(RuleTag::Any, "any")),
            leaf(RuleTag::Literal, "a"),
        )]),
    );
    match result {
        Ok(ViableAst::Root(nodes)) => match &nodes[0] {
            ViableAstNode::Quantifier(q) => {
                assert_eq!(q.kind, QuantifierKind::ZeroOrMore);
                assert!(q.lazy);
            },
            other => panic!("expected a quantifier, got {:?}", other),
        },
        other => panic!("expected a root, got {:?}", other),
    }
}

fn quantifier_kind_of(result: Result<ViableAst, CompilerError>) -> QuantifierKind {
    match result {
        Ok(ViableAst::Root(mut nodes)) => match nodes.remove(0) {
            ViableAstNode::Quantifier(q) => q.kind,
            other => panic!("expected a quantifier, got {:?}", other),
        },
        other => panic!("expected a root, got {:?}", other),
    }
}

#[test]
fn amount_is_kept_as_raw_text() {
    let result = to_ast(
        "7 of \"a\"",
        root(vec![quantifier_node(
            quantity("7 of", leaf(RuleTag::Amount, "7")),
            leaf(RuleTag::Literal, "a"),
        )]),
    );
    assert_eq!(quantifier_kind_of(result), QuantifierKind::Amount("7".to_string()));
}

#[test]
fn option_any_kinds_resolve() {
    let result = to_ast(
        "option of \"a\"",
        root(vec![quantifier_node(
            quantity("option of", leaf(RuleTag::Optional, "option")),
            leaf(RuleTag::Literal, "a"),
        )]),
    );
    assert_eq!(quantifier_kind_of(result), QuantifierKind::ZeroOrOne);
}

#[test]
fn over_resolves_to_incremented_bound() {
    let over = node(RuleTag::Over, "over 5", vec![leaf(RuleTag::Amount, "5")]);
    let result = to_ast(
        "over 5 of \"a\"",
        root(vec![quantifier_node(quantity("over 5 of", over), leaf(RuleTag::Literal, "a"))]),
    );
    assert_eq!(quantifier_kind_of(result), QuantifierKind::Over(6));
}

#[test]
fn over_on_maximum_fails_instead_of_wrapping() {
    let max_text = usize::MAX.to_string();
    let over = node(RuleTag::Over, "over max", vec![leaf(RuleTag::Amount, &max_text)]);
    let result = to_ast(
        "over max of \"a\"",
        root(vec![quantifier_node(quantity("of", over), leaf(RuleTag::Literal, "a"))]),
    );
    assert_eq!(result, Err(CompilerError::CouldNotParseAnAmount));
}

#[test]
fn over_on_non_numeric_fails() {
    let over = node(RuleTag::Over, "over x5", vec![leaf(RuleTag::Amount, "x5")]);
    let result = to_ast(
        "over x5 of \"a\"",
        root(vec![quantifier_node(quantity("of", over), leaf(RuleTag::Literal, "a"))]),
    );
    assert_eq!(result, Err(CompilerError::CouldNotParseAnAmount));
}

#[test]
fn quantifier_range_preserves_bound_text_verbatim() {
    let spec = node(
        RuleTag::QuantifierRange,
        "002 to 10",
        vec![leaf(RuleTag::Amount, "002"), leaf(RuleTag::Amount, "10")],
    );
    let result = to_ast(
        "002 to 10 of \"a\"",
        root(vec![quantifier_node(quantity("of", spec), leaf(RuleTag::Literal, "a"))]),
    );
    assert_eq!(
        quantifier_kind_of(result),
        QuantifierKind::Range { start: "002".to_string(), end: "10".to_string() }
    );
}

#[test]
fn quantifier_range_with_equal_bounds_resolves() {
    let spec = node(
        RuleTag::QuantifierRange,
        "3 to 3",
        vec![leaf(RuleTag::Amount, "3"), leaf(RuleTag::Amount, "3")],
    );
    let result = to_ast(
        "3 to 3 of \"a\"",
        root(vec![quantifier_node(quantity("of", spec), leaf(RuleTag::Literal, "a"))]),
    );
    assert_eq!(
        quantifier_kind_of(result),
        QuantifierKind::Range { start: "3".to_string(), end: "3".to_string() }
    );
}

#[test]
fn over_zero_resolves_to_one() {
    let over = node(RuleTag::Over, "over 0", vec![leaf(RuleTag::Amount, "0")]);
    let result = to_ast(
        "over 0 of \"a\"",
        root(vec![quantifier_node(quantity("of", over), leaf(RuleTag::Literal, "a"))]),
    );
    assert_eq!(quantifier_kind_of(result), QuantifierKind::Over(1));
}

#[test]
fn quantifier_range_backwards_fails() {
    let spec = node(
        RuleTag::QuantifierRange,
        "5 to 3",
        vec![leaf(RuleTag::Amount, "5"), leaf(RuleTag::Amount, "3")],
    );
    let result = to_ast(
        "5 to 3 of \"a\"",
        root(vec![quantifier_node(quantity("of", spec), leaf(RuleTag::Literal, "a"))]),
    );
    assert_eq!(result, Err(CompilerError::InvalidQuantifierRange));
}

#[test]
fn alphabetic_start_gives_ascii_range() {
    let range = node(
        RuleTag::Range,
        "a to z",
        vec![leaf(RuleTag::Identifier, "a"), leaf(RuleTag::Identifier, "z")],
    );
    let result = to_ast("a to z", root(vec![range]));
    assert_eq!(
        result,
        Ok(ViableAst::Root(vec![ViableAstNode::Range(Range::AsciiRange(AsciiRange {
            negative: false,
            start: 'a',
            end: 'z',
        }))]))
    );
}

#[test]
fn numeric_start_gives_numeric_range() {
    let range = node(
        RuleTag::Range,
        "0 to 9",
        vec![leaf(RuleTag::Identifier, "0"), leaf(RuleTag::Identifier, "9")],
    );
    let result = to_ast("0 to 9", root(vec![range]));
    assert_eq!(
        result,
        Ok(ViableAst::Root(vec![ViableAstNode::Range(Range::NumericRange(NumericRange {
            negative: false,
            start: '0',
            end: '9',
        }))]))
    );
}

#[test]
fn negation_marker_shifts_range_start() {
    let range = node(
        RuleTag::Range,
        "not a to z",
        vec![
            leaf(RuleTag::Identifier, "not"),
            leaf(RuleTag::Identifier, "a"),
            leaf(RuleTag::Identifier, "z"),
        ],
    );
    let result = to_ast("not a to z", root(vec![range]));
    assert_eq!(
        result,
        Ok(ViableAst::Root(vec![ViableAstNode::Range(Range::AsciiRange(AsciiRange {
            negative: true,
            start: 'a',
            end: 'z',
        }))]))
    );
}

#[test]
fn multi_character_range_bound_fails() {
    let range = node(
        RuleTag::Range,
        "ab to z",
        vec![leaf(RuleTag::Identifier, "ab"), leaf(RuleTag::Identifier, "z")],
    );
    let result = to_ast("ab to z", root(vec![range]));
    assert_eq!(result, Err(CompilerError::MissingNode));
}

#[test]
fn capture_group_takes_trimmed_identifier() {
    let declaration = node(
        RuleTag::Declaration,
        "capture name",
        vec![leaf(RuleTag::Identifier, "capture"), leaf(RuleTag::Identifier, " name ")],
    );
    let block = node(RuleTag::Declaration, "{...}", vec![leaf(RuleTag::Literal, "x")]);
    let group = node(RuleTag::Group, "capture name {...}", vec![declaration, block]);
    let result = to_ast("capture name { \"x\" }", root(vec![group]));
    match result {
        Ok(ViableAst::Root(nodes)) => match &nodes[0] {
            ViableAstNode::Group(g) => {
                assert_eq!(g.ident, Some("name".to_string()));
                assert_eq!(g.kind, GroupKind::Capture);
                assert_eq!(
                    g.statements,
                    ViableAst::Root(vec![ViableAstNode::Atom("x".to_string())])
                );
            },
            other => panic!("expected a group, got {:?}", other),
        },
        other => panic!("expected a root, got {:?}", other),
    }
}

#[test]
fn either_group_with_identifier_fails() {
    let declaration = node(
        RuleTag::Declaration,
        "either name",
        vec![leaf(RuleTag::Identifier, "either"), leaf(RuleTag::Identifier, "name")],
    );
    let block = node(RuleTag::Declaration, "{...}", vec![leaf(RuleTag::Literal, "x")]);
    let group = node(RuleTag::Group, "either name {...}", vec![declaration, block]);
    let result = to_ast("either name { \"x\" }", root(vec![group]));
    assert_eq!(result, Err(CompilerError::UnexpectedIdentifierForNonCaptureGroup));
}

#[test]
fn match_group_without_identifier_resolves() {
    let declaration = node(
        RuleTag::Declaration,
        "match",
        vec![leaf(RuleTag::Identifier, "match")],
    );
    let block = node(RuleTag::Declaration, "{...}", vec![leaf(RuleTag::Literal, "x")]);
    let group = node(RuleTag::Group, "match {...}", vec![declaration, block]);
    let result = to_ast("match { \"x\" }", root(vec![group]));
    match result {
        Ok(ViableAst::Root(nodes)) => match &nodes[0] {
            ViableAstNode::Group(g) => {
                assert_eq!(g.ident, None);
                assert_eq!(g.kind, GroupKind::Match);
            },
            other => panic!("expected a group, got {:?}", other),
        },
        other => panic!("expected a root, got {:?}", other),
    }
}

#[test]
fn unknown_group_token_fails() {
    let declaration = node(
        RuleTag::Declaration,
        "foo",
        vec![leaf(RuleTag::Identifier, "foo")],
    );
    let block = node(RuleTag::Declaration, "{...}", vec![leaf(RuleTag::Literal, "x")]);
    let group = node(RuleTag::Group, "foo {...}", vec![declaration, block]);
    let result = to_ast("foo { \"x\" }", root(vec![group]));
    assert_eq!(result, Err(CompilerError::UnrecognizedGroup));
}
