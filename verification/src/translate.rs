//! The executable translation pass.
//!
//! Every function here is proved to return exactly the value given by the
//! definitional semantics in [`crate::semantics`], error for error and
//! environment for environment.

use vstd::prelude::*;

use crate::ast::{
    Assertion, AssertionKind, CompilerError, Expression, Group, GroupKind, Quantifier,
    QuantifierKind, ViableAst, ViableAstNode, VariableInvocation,
};
use crate::ast::{AsciiRange, NumericRange, Range};
use crate::model::{
    ast_result_view, expr_result_view, lemma_nodes_view_push, lemma_pnodes_view,
    node_result_view, node_view, nodes_view, outcome_view, pnode_view, pnodes_view,
    quant_result_view, AstNodeV,
};
use crate::parse_tree::{ParseNode, ParseOutcome, RuleTag};
use crate::semantics::{
    assertion_semantics, declaration_semantics, expr_of, group_semantics, invocation_semantics,
    neg_class_semantics, node_semantics, prepend_nodes, quant_kind_semantics,
    quantifier_semantics, range_semantics, root_result, stmts_semantics, to_ast_semantics,
};
use crate::text::{ascii_letter, parse_amount, str_eq, str_starts_with, to_char, trim_text};
use crate::vars::VarTable;

verus! {

/// Converts a source string to a Viable AST.
///
/// An empty source is `Empty`, a terminal case and not an error. Otherwise
/// `parsed` must be what the external grammar engine produced for `source`:
/// an engine failure surfaces as `ParseError` with the diagnostic text, an
/// empty pair list as `MissingRootNode`, and otherwise the root statement
/// node's children are translated under a fresh, empty variable table.
pub fn to_ast(source: &str, parsed: ParseOutcome) -> (r: Result<ViableAst, CompilerError>)
    ensures
        ast_result_view(r) == to_ast_semantics(source@, outcome_view(parsed)),
{
    if source.is_empty() {
        return Ok(ViableAst::Empty);
    }
    match parsed {
        ParseOutcome::Failure(diagnostic) => Err(CompilerError::ParseError(diagnostic)),
        ParseOutcome::Tree(pairs) => {
            if pairs.len() == 0 {
                return Err(CompilerError::MissingRootNode);
            }
            proof {
                lemma_pnodes_view(pairs@);
            }
            let mut variables = VarTable::new();
            let root = &pairs[0];
            pairs_to_ast(&root.children, &mut variables)
        },
    }
}

/// Translates an ordered statement sequence, preserving order (including
/// `Skip` placeholders) and failing fast on the first error.
pub fn pairs_to_ast(pairs: &Vec<ParseNode>, variables: &mut VarTable) -> (r: Result<
    ViableAst,
    CompilerError,
>)
    ensures
        ast_result_view(r) == root_result(
            stmts_semantics(pnodes_view(pairs@), old(variables)@).0,
        ),
        final(variables)@ == stmts_semantics(pnodes_view(pairs@), old(variables)@).1,
    decreases pairs@, 9int,
{
    let ghost m = pnodes_view(pairs@);
    let ghost env0 = variables@;
    proof {
        lemma_pnodes_view(pairs@);
    }
    let mut nodes: Vec<ViableAstNode> = Vec::new();
    let n = pairs.len();
    let mut i: usize = 0;
    proof {
        assert(m.subrange(0, n as int) =~= m);
        assert(nodes_view(nodes@) =~= Seq::<AstNodeV>::empty());
        let whole = stmts_semantics(m, env0);
        if whole.0 is Ok {
            assert(Seq::<AstNodeV>::empty() + whole.0->Ok_0 =~= whole.0->Ok_0);
        }
    }
    while i < n
        invariant
            n == pairs@.len(),
            0 <= i <= n,
            m == pnodes_view(pairs@),
            env0 == old(variables)@,
            m.len() == n,
            forall|j: int| 0 <= j < n ==> m[j] == pnode_view(#[trigger] pairs@[j]),
            stmts_semantics(m, env0) == prepend_nodes(
                nodes_view(nodes@),
                stmts_semantics(m.subrange(i as int, n as int), variables@),
            ),
        decreases n - i,
    {
        let ghost env_i = variables@;
        let node_r = create_ast_node(&pairs[i], variables);
        proof {
            assert(m.subrange(i as int, n as int)[0] == m[i as int]);
            assert(m.subrange(i as int, n as int).drop_first() =~= m.subrange(
                i + 1,
                n as int,
            ));
        }
        match node_r {
            Err(e) => {
                return Err(e);
            },
            Ok(node) => {
                proof {
                    let rest = stmts_semantics(m.subrange(i + 1, n as int), variables@);
                    lemma_nodes_view_push(nodes@, node);
                    assert(nodes_view(nodes@).push(node_view(node)) =~= nodes_view(nodes@)
                        + seq![node_view(node)]);
                    if rest.0 is Ok {
                        assert((nodes_view(nodes@) + seq![node_view(node)]) + rest.0->Ok_0
                            =~= nodes_view(nodes@) + (seq![node_view(node)] + rest.0->Ok_0));
                    }
                }
                nodes.push(node);
            },
        }
        i = i + 1;
    }
    proof {
        assert(m.subrange(n as int, n as int) =~= Seq::empty());
        assert(nodes_view(nodes@) + Seq::empty() =~= nodes_view(nodes@));
    }
    Ok(ViableAst::Root(nodes))
}

/// Classifies one parse-tree node and routes it to its resolver; a rule tag
/// outside the closed set is `UnrecognizedSyntax`.
pub fn create_ast_node(pair: &ParseNode, variables: &mut VarTable) -> (r: Result<
    ViableAstNode,
    CompilerError,
>)
    ensures
        node_result_view(r) == node_semantics(pnode_view(*pair), old(variables)@).0,
        final(variables)@ == node_semantics(pnode_view(*pair), old(variables)@).1,
    decreases *pair, 3int,
{
    match pair.tag {
        RuleTag::Raw => Ok(ViableAstNode::Atom(pair.text.clone())),
        RuleTag::Literal => Ok(ViableAstNode::Atom(pair.text.clone())),
        RuleTag::Symbol => Ok(ViableAstNode::Symbol(pair.text.clone())),
        RuleTag::SpecialSymbol => Ok(ViableAstNode::SpecialSymbol(pair.text.clone())),
        RuleTag::UnicodeCategory => Ok(ViableAstNode::UnicodeCategory(pair.text.clone())),
        RuleTag::Range => range(pair),
        RuleTag::Quantifier => quantifier(pair, variables),
        RuleTag::Group => group(pair, variables),
        RuleTag::Assertion => assertion(pair, variables),
        RuleTag::NegativeCharClass => negative_char_class(pair),
        RuleTag::VariableInvocation => variable_invocation(pair, variables),
        RuleTag::VariableDeclaration => variable_declaration(pair, variables),
        RuleTag::EndOfInput => Ok(ViableAstNode::Skip),
        _ => Err(CompilerError::UnrecognizedSyntax),
    }
}

/// The view of a wrapped range node is the wrapped range.
proof fn lemma_range_node_view(r: Range, q: ViableAstNode)
    requires
        q == ViableAstNode::Range(r),
    ensures
        node_view(q) == AstNodeV::Range(r),
{
}

/// Resolves a range node: optional leading negation marker, then the start
/// and end bounds as single characters, classified by the start character.
pub fn range(pair: &ParseNode) -> (r: Result<ViableAstNode, CompilerError>)
    ensures
        node_result_view(r) == range_semantics(pnode_view(*pair)),
{
    proof {
        lemma_pnodes_view(pair.children@);
    }
    let n = pair.children.len();
    if n == 0 {
        return Err(CompilerError::MissingNode);
    }
    let first = &pair.children[0].text;
    let negative = str_eq(first.as_str(), "not");
    if negative && n < 2 {
        return Err(CompilerError::MissingNode);
    }
    let start = if negative {
        &pair.children[1].text
    } else {
        &pair.children[0].text
    };
    let end = &pair.children[n - 1].text;
    let start_char = match to_char(start.as_str()) {
        Ok(c) => c,
        Err(e) => {
            return Err(e);
        },
    };
    let end_char = match to_char(end.as_str()) {
        Ok(c) => c,
        Err(e) => {
            return Err(e);
        },
    };
    let rng = if ascii_letter(start_char) {
        Range::AsciiRange(AsciiRange { negative, start: start_char, end: end_char })
    } else {
        Range::NumericRange(NumericRange { negative, start: start_char, end: end_char })
    };
    let node = ViableAstNode::Range(rng);
    proof {
        lemma_range_node_view(rng, node);
    }
    Ok(node)
}

/// Resolves a quantifier node: the operand is resolved first and narrowed
/// to an `Expression`, laziness is the quantity text's `lazy` prefix, and
/// the kind comes from the quantity's inner rule.
pub fn quantifier(pair: &ParseNode, variables: &mut VarTable) -> (r: Result<
    ViableAstNode,
    CompilerError,
>)
    ensures
        node_result_view(r) == quantifier_semantics(pnode_view(*pair), old(variables)@).0,
        final(variables)@ == quantifier_semantics(pnode_view(*pair), old(variables)@).1,
    decreases *pair, 2int,
{
    proof {
        lemma_pnodes_view(pair.children@);
    }
    let n = pair.children.len();
    if n == 0 {
        return Err(CompilerError::MissingNode);
    }
    let quantity = &pair.children[0];
    proof {
        lemma_pnodes_view(quantity.children@);
    }
    if quantity.children.len() == 0 {
        return Err(CompilerError::MissingNode);
    }
    proof {
        assert(decreases_to!(pair.children@ => pair.children@[n - 1]));
        assert(decreases_to!(*pair => pair.children@[n - 1]));
    }
    let operand = create_ast_node(&pair.children[n - 1], variables);
    let node = match operand {
        Ok(node) => node,
        Err(e) => {
            return Err(e);
        },
    };
    let expression = match to_expression(node) {
        Ok(x) => x,
        Err(e) => {
            return Err(e);
        },
    };
    let lazy = str_starts_with(quantity.text.as_str(), "lazy");
    let kind = match quantifier_kind(&quantity.children[0]) {
        Ok(k) => k,
        Err(e) => {
            return Err(e);
        },
    };
    Ok(ViableAstNode::Quantifier(Quantifier { kind, lazy, expression }))
}

/// Resolves a quantity's inner rule to a repetition kind: exact amounts are
/// kept as text, `over` is parsed and incremented (failing on overflow
/// rather than wrapping), and a bounded range must parse with its bounds in
/// order, both kept verbatim.
pub fn quantifier_kind(kind: &ParseNode) -> (r: Result<QuantifierKind, CompilerError>)
    ensures
        quant_result_view(r) == quant_kind_semantics(pnode_view(*kind)),
{
    proof {
        lemma_pnodes_view(kind.children@);
    }
    match kind.tag {
        RuleTag::Amount => Ok(QuantifierKind::Amount(kind.text.clone())),
        RuleTag::Over => {
            let m = kind.children.len();
            if m == 0 {
                return Err(CompilerError::MissingNode);
            }
            let raw = &kind.children[m - 1].text;
            match parse_amount(raw.as_str()) {
                Some(v) => {
                    if v == usize::MAX {
                        Err(CompilerError::CouldNotParseAnAmount)
                    } else {
                        Ok(QuantifierKind::Over(v + 1))
                    }
                },
                None => Err(CompilerError::CouldNotParseAnAmount),
            }
        },
        RuleTag::Optional => Ok(QuantifierKind::ZeroOrOne),
        RuleTag::Any => Ok(QuantifierKind::ZeroOrMore),
        RuleTag::OneOrMore => Ok(QuantifierKind::OneOrMore),
        RuleTag::QuantifierRange => {
            let m = kind.children.len();
            if m == 0 {
                return Err(CompilerError::MissingNode);
            }
            let start = &kind.children[0].text;
            let end = &kind.children[m - 1].text;
            let parsed_start = match parse_amount(start.as_str()) {
                Some(v) => v,
                None => {
                    return Err(CompilerError::InvalidQuantifierRange);
                },
            };
            let parsed_end = match parse_amount(end.as_str()) {
                Some(v) => v,
                None => {
                    return Err(CompilerError::InvalidQuantifierRange);
                },
            };
            if parsed_start > parsed_end {
                return Err(CompilerError::InvalidQuantifierRange);
            }
            Ok(QuantifierKind::Range { start: start.clone(), end: end.clone() })
        },
        _ => Err(CompilerError::UnrecognizedSyntax),
    }
}

/// Narrows a resolved node to the restricted subset legal as a quantifier's
/// operand; every illegal kind maps to its own specific error.
pub fn to_expression(node: ViableAstNode) -> (r: Result<Expression, CompilerError>)
    ensures
        expr_result_view(r) == expr_of(node_view(node)),
{
    match node {
        ViableAstNode::Group(g) => Ok(Expression::Group(g)),
        ViableAstNode::Atom(s) => Ok(Expression::Atom(s)),
        ViableAstNode::Range(rg) => Ok(Expression::Range(rg)),
        ViableAstNode::Symbol(s) => Ok(Expression::Symbol(s)),
        ViableAstNode::NegativeCharClass(s) => Ok(Expression::NegativeCharClass(s)),
        ViableAstNode::UnicodeCategory(s) => Ok(Expression::UnicodeCategory(s)),
        ViableAstNode::SpecialSymbol(_) => Err(
            CompilerError::UnexpectedSpecialSymbolInQuantifier,
        ),
        ViableAstNode::Quantifier(_) => Err(CompilerError::UnexpectedQuantifierInQuantifier),
        ViableAstNode::Assertion(_) => Err(CompilerError::UnexpectedAssertionInQuantifier),
        ViableAstNode::VariableInvocation(_) => Err(
            CompilerError::UnexpectedVariableInvocationInQuantifier,
        ),
        ViableAstNode::Skip => Err(CompilerError::UnexpectedSkippedNodeInQuantifier),
    }
}

/// Resolves a group node: kind from the declaration's first token, optional
/// trimmed capture identifier (legal only for `capture`), and the block
/// translated with the caller's own variable table.
pub fn group(pair: &ParseNode, variables: &mut VarTable) -> (r: Result<
    ViableAstNode,
    CompilerError,
>)
    ensures
        node_result_view(r) == group_semantics(pnode_view(*pair), old(variables)@).0,
        final(variables)@ == group_semantics(pnode_view(*pair), old(variables)@).1,
    decreases *pair, 2int,
{
    proof {
        lemma_pnodes_view(pair.children@);
    }
    let n = pair.children.len();
    if n == 0 {
        return Err(CompilerError::MissingNode);
    }
    let declaration = &pair.children[0];
    proof {
        lemma_pnodes_view(declaration.children@);
    }
    let dn = declaration.children.len();
    if dn == 0 {
        return Err(CompilerError::MissingNode);
    }
    let kind_text = &declaration.children[0].text;
    let kind = if str_eq(kind_text.as_str(), "either") {
        GroupKind::Either
    } else if str_eq(kind_text.as_str(), "capture") {
        GroupKind::Capture
    } else if str_eq(kind_text.as_str(), "match") {
        GroupKind::Match
    } else {
        return Err(CompilerError::UnrecognizedGroup);
    };
    let ident = if dn >= 2 {
        Some(trim_text(declaration.children[1].text.as_str()))
    } else {
        None
    };
    if ident.is_some() && kind != GroupKind::Capture {
        return Err(CompilerError::UnexpectedIdentifierForNonCaptureGroup);
    }
    let block = &pair.children[n - 1];
    proof {
        assert(decreases_to!(pair.children@ => pair.children@[n - 1]));
        assert(decreases_to!(*pair => pair.children@[n - 1]));
        assert(decreases_to!(*block => block.children@));
    }
    let statements = match pairs_to_ast(&block.children, variables) {
        Ok(a) => a,
        Err(e) => {
            return Err(e);
        },
    };
    Ok(ViableAstNode::Group(Group { ident, kind, statements }))
}

/// Resolves an assertion node: negation by the declaration's first token,
/// direction by its last, and the block translated with the caller's own
/// variable table.
pub fn assertion(pair: &ParseNode, variables: &mut VarTable) -> (r: Result<
    ViableAstNode,
    CompilerError,
>)
    ensures
        node_result_view(r) == assertion_semantics(pnode_view(*pair), old(variables)@).0,
        final(variables)@ == assertion_semantics(pnode_view(*pair), old(variables)@).1,
    decreases *pair, 2int,
{
    proof {
        lemma_pnodes_view(pair.children@);
    }
    let n = pair.children.len();
    if n == 0 {
        return Err(CompilerError::MissingNode);
    }
    let declaration = &pair.children[0];
    proof {
        lemma_pnodes_view(declaration.children@);
    }
    let dn = declaration.children.len();
    if dn == 0 {
        return Err(CompilerError::MissingNode);
    }
    let negative = str_eq(declaration.children[0].text.as_str(), "not");
    let kind_text = &declaration.children[dn - 1].text;
    let kind = if str_eq(kind_text.as_str(), "ahead") {
        AssertionKind::Ahead
    } else if str_eq(kind_text.as_str(), "behind") {
        AssertionKind::Behind
    } else {
        return Err(CompilerError::UnrecognizedAssertion);
    };
    let block = &pair.children[n - 1];
    proof {
        assert(decreases_to!(pair.children@ => pair.children@[n - 1]));
        assert(decreases_to!(*pair => pair.children@[n - 1]));
        assert(decreases_to!(*block => block.children@));
    }
    let statements = match pairs_to_ast(&block.children, variables) {
        Ok(a) => a,
        Err(e) => {
            return Err(e);
        },
    };
    Ok(ViableAstNode::Assertion(Assertion { kind, negative, statements }))
}

/// Resolves a negative character class: the last inner node's text,
/// verbatim.
pub fn negative_char_class(pair: &ParseNode) -> (r: Result<ViableAstNode, CompilerError>)
    ensures
        node_result_view(r) == neg_class_semantics(pnode_view(*pair)),
{
    proof {
        lemma_pnodes_view(pair.children@);
    }
    let n = pair.children.len();
    if n == 0 {
        return Err(CompilerError::MissingNode);
    }
    Ok(ViableAstNode::NegativeCharClass(pair.children[n - 1].text.clone()))
}

/// Resolves a variable invocation: a table miss is a hard error, a hit
/// splices an independent deep copy of the stored AST.
pub fn variable_invocation(pair: &ParseNode, variables: &VarTable) -> (r: Result<
    ViableAstNode,
    CompilerError,
>)
    ensures
        node_result_view(r) == invocation_semantics(pnode_view(*pair), variables@),
{
    proof {
        lemma_pnodes_view(pair.children@);
    }
    let n = pair.children.len();
    if n == 0 {
        return Err(CompilerError::MissingNode);
    }
    match variables.get(pair.children[n - 1].text.as_str()) {
        Some(statements) => Ok(
            ViableAstNode::VariableInvocation(VariableInvocation { statements }),
        ),
        None => Err(CompilerError::UninitializedVariable),
    }
}

/// Resolves a variable declaration: translates the body with the same
/// table, stores it under the trimmed identifier (silently overwriting),
/// and contributes `Skip` at its own position.
pub fn variable_declaration(pair: &ParseNode, variables: &mut VarTable) -> (r: Result<
    ViableAstNode,
    CompilerError,
>)
    ensures
        node_result_view(r) == declaration_semantics(pnode_view(*pair), old(variables)@).0,
        final(variables)@ == declaration_semantics(pnode_view(*pair), old(variables)@).1,
    decreases *pair, 2int,
{
    proof {
        lemma_pnodes_view(pair.children@);
    }
    let n = pair.children.len();
    if n == 0 {
        return Err(CompilerError::MissingNode);
    }
    let body = &pair.children[n - 1];
    proof {
        assert(decreases_to!(pair.children@ => pair.children@[n - 1]));
        assert(decreases_to!(*pair => pair.children@[n - 1]));
        assert(decreases_to!(*body => body.children@));
    }
    let statements = match pairs_to_ast(&body.children, variables) {
        Ok(a) => a,
        Err(e) => {
            return Err(e);
        },
    };
    let name = trim_text(pair.children[0].text.as_str());
    variables.insert(name, statements);
    Ok(ViableAstNode::Skip)
}

} // verus!
