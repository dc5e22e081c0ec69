use viable_compiler::{
    to_ast, to_expression, AssertionKind, CompilerError, Expression, ParseNode, ParseOutcome,
    RuleTag, ViableAst, ViableAstNode,
};

fn node(tag: RuleTag, text: &str, children: Vec<ParseNode>) -> ParseNode {
    ParseNode { tag, text: text.to_string(), children }
}

fn leaf(tag: RuleTag, text: &str) -> ParseNode {
    node(tag, text, Vec::new())
}

fn root(children: Vec<ParseNode>) -> ParseOutcome {
    ParseOutcome::Tree(vec![node(RuleTag::Root, "", children)])
}

fn declaration(name: &str, body: Vec<ParseNode>) -> ParseNode {
    node(
        RuleTag::VariableDeclaration,
        name,
        vec![
            leaf(RuleTag::Identifier, name),
            node(RuleTag::Declaration, "= ...", body),
        ],
    )
}

fn invocation(name: &str) -> ParseNode {
    node(RuleTag::VariableInvocation, name, vec![leaf(RuleTag::Identifier, name)])
}

fn quantified(kind: ParseNode, operand: ParseNode) -> ParseNode {
    node(
        RuleTag::Quantifier,
        "",
        vec![node(RuleTag::Quantity, "of", vec![kind]), operand],
    )
}

#[test]
fn assertion_ahead_resolves() {
    let decl = node(RuleTag::Declaration, "ahead", vec![leaf(RuleTag::Identifier, "ahead")]);
    let block = node(RuleTag::Declaration, "{...}", vec![leaf(RuleTag::Literal, "x")]);
    let assertion = node(RuleTag::Assertion, "ahead {...}", vec![decl, block]);
    let result = to_ast("ahead { \"x\" }", root(vec![assertion]));
    match result {
        Ok(ViableAst::Root(nodes)) => match &nodes[0] {
            ViableAstNode::Assertion(a) => {
                assert_eq!(a.kind, AssertionKind::Ahead);
                assert!(!a.negative);
                assert_eq!(
                    a.statements,
                    ViableAst::Root(vec![ViableAstNode::Atom("x".to_string())])
                );
            },
            other => panic!("expected an assertion, got {:?}", other),
        },
        other => panic!("expected a root, got {:?}", other),
    }
}

#[test]
fn negated_behind_assertion_resolves() {
    let decl = node(
        RuleTag::Declaration,
        "not behind",
        vec![leaf(RuleTag::Identifier, "not"), leaf(RuleTag::Identifier, "behind")],
    );
    let block = node(RuleTag::Declaration, "{...}", vec![leaf(RuleTag::Literal, "x")]);
    let assertion = node(RuleTag::Assertion, "not behind {...}", vec![decl, block]);
    let result = to_ast("not behind { \"x\" }", root(vec![assertion]));
    match result {
        Ok(ViableAst::Root(nodes)) => match &nodes[0] {
            ViableAstNode::Assertion(a) => {
                assert_eq!(a.kind, AssertionKind::Behind);
                assert!(a.negative);
            },
            other => panic!("expected an assertion, got {:?}", other),
        },
        other => panic!("expected a root, got {:?}", other),
    }
}

#[test]
fn unknown_assertion_direction_fails() {
    let decl = node(
        RuleTag::Declaration,
        "sideways",
        vec![leaf(RuleTag::Identifier, "sideways")],
    );
    let block = node(RuleTag::Declaration, "{...}", vec![leaf(RuleTag::Literal, "x")]);
    let assertion = node(RuleTag::Assertion, "sideways {...}", vec![decl, block]);
    let result = to_ast("sideways { \"x\" }", root(vec![assertion]));
    assert_eq!(result, Err(CompilerError::UnrecognizedAssertion));
}

#[test]
fn negative_char_class_keeps_body_verbatim() {
    let class = node(RuleTag::NegativeCharClass, "not [abc]", vec![leaf(
        RuleTag::Identifier,
        "abc",
    )]);
    let result = to_ast("not [abc]", root(vec![class]));
    assert_eq!(
        result,
        Ok(ViableAst::Root(vec![ViableAstNode::NegativeCharClass("abc".to_string())]))
    );
}

#[test]
fn undeclared_variable_fails() {
    let result = to_ast(".x;", root(vec![invocation("x")]));
    assert_eq!(result, Err(CompilerError::UninitializedVariable));
}

#[test]
fn redeclaration_keeps_value_semantics() {
    let result = to_ast(
        "let x = ...",
        root(vec![
            declaration("x", vec![leaf(RuleTag::Literal, "a")]),
            invocation("x"),
            declaration("x", vec![leaf(RuleTag::Literal, "b")]),
            invocation("x"),
        ]),
    );
    match result {
        Ok(ViableAst::Root(nodes)) => {
            assert_eq!(nodes.len(), 4);
            assert_eq!(nodes[0], ViableAstNode::Skip);
            assert_eq!(nodes[2], ViableAstNode::Skip);
            let first = match &nodes[1] {
                ViableAstNode::VariableInvocation(v) => &v.statements,
                other => panic!("expected an invocation, got {:?}", other),
            };
            let second = match &nodes[3] {
                ViableAstNode::VariableInvocation(v) => &v.statements,
                other => panic!("expected an invocation, got {:?}", other),
            };
            assert_eq!(*first, ViableAst::Root(vec![ViableAstNode::Atom("a".to_string())]));
            assert_eq!(*second, ViableAst::Root(vec![ViableAstNode::Atom("b".to_string())]));
            assert_ne!(first, second);
        },
        other => panic!("expected a root, got {:?}", other),
    }
}

#[test]
fn declaration_identifier_is_trimmed() {
    let result = to_ast(
        "let  x  = ...",
        root(vec![
            node(
                RuleTag::VariableDeclaration,
                " x ",
                vec![
                    leaf(RuleTag::Identifier, " x "),
                    node(RuleTag::Declaration, "= ...", vec![leaf(RuleTag::Literal, "a")]),
                ],
            ),
            invocation("x"),
        ]),
    );
    match result {
        Ok(ViableAst::Root(nodes)) => {
            assert!(matches!(&nodes[1], ViableAstNode::VariableInvocation(_)));
        },
        other => panic!("expected a root, got {:?}", other),
    }
}

#[test]
fn variable_declared_in_group_stays_visible() {
    let decl = node(RuleTag::Declaration, "match", vec![leaf(RuleTag::Identifier, "match")]);
    let block = node(
        RuleTag::Declaration,
        "{...}",
        vec![declaration("x", vec![leaf(RuleTag::Literal, "a")])],
    );
    let group = node(RuleTag::Group, "match {...}", vec![decl, block]);
    let result = to_ast("match { let x = ... }", root(vec![group, invocation("x")]));
    match result {
        Ok(ViableAst::Root(nodes)) => {
            assert!(matches!(&nodes[1], ViableAstNode::VariableInvocation(_)));
        },
        other => panic!("expected a root, got {:?}", other),
    }
}

#[test]
fn quantified_group_is_legal() {
    let decl = node(RuleTag::Declaration, "match", vec![leaf(RuleTag::Identifier, "match")]);
    let block = node(RuleTag::Declaration, "{...}", vec![leaf(RuleTag::Literal, "x")]);
    let group = node(RuleTag::Group, "match {...}", vec![decl, block]);
    let result = to_ast(
        "some of match { \"x\" }",
        root(vec![quantified(leaf(RuleTag::OneOrMore, "some"), group)]),
    );
    match result {
        Ok(ViableAst::Root(nodes)) => match &nodes[0] {
            ViableAstNode::Quantifier(q) => {
                assert!(matches!(&q.expression, Expression::Group(_)));
            },
            other => panic!("expected a quantifier, got {:?}", other),
        },
        other => panic!("expected a root, got {:?}", other),
    }
}

#[test]
fn quantified_assertion_fails() {
    let decl = node(RuleTag::Declaration, "ahead", vec![leaf(RuleTag::Identifier, "ahead")]);
    let block = node(RuleTag::Declaration, "{...}", vec![leaf(RuleTag::Literal, "x")]);
    let assertion = node(RuleTag::Assertion, "ahead {...}", vec![decl, block]);
    let result = to_ast(
        "some of ahead { \"x\" }",
        root(vec![quantified(leaf(RuleTag::OneOrMore, "some"), assertion)]),
    );
    assert_eq!(result, Err(CompilerError::UnexpectedAssertionInQuantifier));
}

#[test]
fn quantified_quantifier_fails() {
    let inner = quantified(leaf(RuleTag::OneOrMore, "some"), leaf(RuleTag::Literal, "a"));
    let result = to_ast(
        "some of some of \"a\"",
        root(vec![quantified(leaf(RuleTag::OneOrMore, "some"), inner)]),
    );
    assert_eq!(result, Err(CompilerError::UnexpectedQuantifierInQuantifier));
}

#[test]
fn quantified_declaration_fails_as_skipped_node() {
    let result = to_ast(
        "some of let x = ...",
        root(vec![quantified(
            leaf(RuleTag::OneOrMore, "some"),
            declaration("x", vec![leaf(RuleTag::Literal, "a")]),
        )]),
    );
    assert_eq!(result, Err(CompilerError::UnexpectedSkippedNodeInQuantifier));
}

#[test]
fn quantified_variable_invocation_fails() {
    let result = to_ast(
        "let x = ... some of .x;",
        root(vec![
            declaration("x", vec![leaf(RuleTag::Literal, "a")]),
            quantified(leaf(RuleTag::OneOrMore, "some"), invocation("x")),
        ]),
    );
    assert_eq!(result, Err(CompilerError::UnexpectedVariableInvocationInQuantifier));
}

#[test]
fn quantified_special_symbol_fails() {
    let result = to_ast(
        "some of <start>",
        root(vec![quantified(
            leaf(RuleTag::OneOrMore, "some"),
            leaf(RuleTag::SpecialSymbol, "<start>"),
        )]),
    );
    assert_eq!(result, Err(CompilerError::UnexpectedSpecialSymbolInQuantifier));
}

#[test]
fn coercion_accepts_atoms_and_rejects_skip() {
    let atom = to_expression(ViableAstNode::Atom("a".to_string()));
    assert_eq!(atom, Ok(Expression::Atom("a".to_string())));
    let skip = to_expression(ViableAstNode::Skip);
    assert_eq!(skip, Err(CompilerError::UnexpectedSkippedNodeInQuantifier));
}

#[test]
fn quantifier_with_missing_quantity_fails() {
    let bare = node(RuleTag::Quantifier, "", Vec::new());
    let result = to_ast("of", root(vec![bare]));
    assert_eq!(result, Err(CompilerError::MissingNode));
}

#[test]
fn range_without_children_fails() {
    let bare = node(RuleTag::Range, "to", Vec::new());
    let result = to_ast("to", root(vec![bare]));
    assert_eq!(result, Err(CompilerError::MissingNode));
}
