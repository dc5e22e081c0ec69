//! The mathematical model of the parse tree, the AST and the errors.
//!
//! Every executable type of the library has a spec-level mirror in which
//! text is a `Seq<char>` and node sequences are `Seq`s; the view functions
//! here map the executable values onto those mirrors. Contracts throughout
//! the crate are stated over these models.

use vstd::prelude::*;

use crate::ast::{
    AssertionKind, CompilerError, Expression, GroupKind, QuantifierKind, Range, ViableAst,
    ViableAstNode,
};
use crate::parse_tree::{ParseNode, ParseOutcome, RuleTag};

verus! {

/// Spec-level mirror of a parse-tree node.
pub struct NodeV {
    pub tag: RuleTag,
    pub text: Seq<char>,
    pub children: Seq<NodeV>,
}

/// Spec-level mirror of what the grammar engine handed back.
pub enum OutcomeV {
    Failure(Seq<char>),
    Tree(Seq<NodeV>),
}

/// Spec-level mirror of `ViableAst`.
pub enum AstV {
    Empty,
    Root(Seq<AstNodeV>),
}

/// Spec-level mirror of `ViableAstNode`.
pub enum AstNodeV {
    Atom(Seq<char>),
    Symbol(Seq<char>),
    Range(Range),
    Quantifier { kind: QuantV, lazy: bool, expression: ExprV },
    Group { ident: Option<Seq<char>>, kind: GroupKind, statements: AstV },
    Assertion { kind: AssertionKind, negative: bool, statements: AstV },
    NegativeCharClass(Seq<char>),
    VariableInvocation(AstV),
    UnicodeCategory(Seq<char>),
    SpecialSymbol(Seq<char>),
    Skip,
}

/// Spec-level mirror of `QuantifierKind`.
pub enum QuantV {
    Amount(Seq<char>),
    Over(usize),
    ZeroOrOne,
    ZeroOrMore,
    OneOrMore,
    Range { start: Seq<char>, end: Seq<char> },
}

/// Spec-level mirror of `Expression`.
pub enum ExprV {
    Group { ident: Option<Seq<char>>, kind: GroupKind, statements: AstV },
    Atom(Seq<char>),
    Range(Range),
    Symbol(Seq<char>),
    NegativeCharClass(Seq<char>),
    UnicodeCategory(Seq<char>),
}

/// Spec-level mirror of `CompilerError`.
pub enum ErrV {
    ParseError(Seq<char>),
    MissingRootNode,
    MissingNode,
    UnrecognizedSyntax,
    CouldNotParseAnAmount,
    InvalidQuantifierRange,
    UnexpectedSpecialSymbolInQuantifier,
    UnexpectedQuantifierInQuantifier,
    UnexpectedAssertionInQuantifier,
    UnexpectedVariableInvocationInQuantifier,
    UnexpectedSkippedNodeInQuantifier,
    UnrecognizedGroup,
    UnexpectedIdentifierForNonCaptureGroup,
    UnrecognizedAssertion,
    UninitializedVariable,
}

/// View of one parse-tree node.
pub open spec fn pnode_view(p: ParseNode) -> NodeV
    decreases p, 0int,
{
    NodeV { tag: p.tag, text: p.text@, children: pnodes_view(p.children@) }
}

/// View of a sequence of parse-tree nodes, element by element.
pub open spec fn pnodes_view(s: Seq<ParseNode>) -> Seq<NodeV>
    decreases s, 1int,
{
    if s.len() == 0 {
        Seq::empty()
    } else {
        seq![pnode_view(s[0])] + pnodes_view(s.drop_first())
    }
}

/// View of the engine's outcome.
pub open spec fn outcome_view(o: ParseOutcome) -> OutcomeV {
    match o {
        ParseOutcome::Failure(d) => OutcomeV::Failure(d@),
        ParseOutcome::Tree(pairs) => OutcomeV::Tree(pnodes_view(pairs@)),
    }
}

/// View of the whole AST.
pub open spec fn ast_view(a: ViableAst) -> AstV
    decreases a, 0int,
{
    match a {
        ViableAst::Empty => AstV::Empty,
        ViableAst::Root(nodes) => AstV::Root(nodes_view(nodes@)),
    }
}

/// View of a sequence of AST nodes, element by element.
pub open spec fn nodes_view(s: Seq<ViableAstNode>) -> Seq<AstNodeV>
    decreases s, 1int,
{
    if s.len() == 0 {
        Seq::empty()
    } else {
        seq![node_view(s[0])] + nodes_view(s.drop_first())
    }
}

/// View of one AST node.
pub open spec fn node_view(n: ViableAstNode) -> AstNodeV
    decreases n, 0int,
{
    match n {
        ViableAstNode::Atom(s) => AstNodeV::Atom(s@),
        ViableAstNode::Symbol(s) => AstNodeV::Symbol(s@),
        ViableAstNode::Range(r) => AstNodeV::Range(r),
        ViableAstNode::Quantifier(q) => AstNodeV::Quantifier {
            kind: quant_view(q.kind),
            lazy: q.lazy,
            expression: expr_view(q.expression),
        },
        ViableAstNode::Group(g) => AstNodeV::Group {
            ident: match g.ident {
                Option::Some(s) => Option::Some(s@),
                Option::None => Option::None,
            },
            kind: g.kind,
            statements: ast_view(g.statements),
        },
        ViableAstNode::Assertion(a) => AstNodeV::Assertion {
            kind: a.kind,
            negative: a.negative,
            statements: ast_view(a.statements),
        },
        ViableAstNode::NegativeCharClass(s) => AstNodeV::NegativeCharClass(s@),
        ViableAstNode::VariableInvocation(v) => AstNodeV::VariableInvocation(
            ast_view(v.statements),
        ),
        ViableAstNode::UnicodeCategory(s) => AstNodeV::UnicodeCategory(s@),
        ViableAstNode::SpecialSymbol(s) => AstNodeV::SpecialSymbol(s@),
        ViableAstNode::Skip => AstNodeV::Skip,
    }
}

/// View of a quantifier kind.
pub open spec fn quant_view(k: QuantifierKind) -> QuantV {
    match k {
        QuantifierKind::Amount(s) => QuantV::Amount(s@),
        QuantifierKind::Over(n) => QuantV::Over(n),
        QuantifierKind::ZeroOrOne => QuantV::ZeroOrOne,
        QuantifierKind::ZeroOrMore => QuantV::ZeroOrMore,
        QuantifierKind::OneOrMore => QuantV::OneOrMore,
        QuantifierKind::Range { start, end } => QuantV::Range { start: start@, end: end@ },
    }
}

/// View of a quantifier operand expression.
pub open spec fn expr_view(e: Expression) -> ExprV
    decreases e, 0int,
{
    match e {
        Expression::Group(g) => ExprV::Group {
            ident: match g.ident {
                Option::Some(s) => Option::Some(s@),
                Option::None => Option::None,
            },
            kind: g.kind,
            statements: ast_view(g.statements),
        },
        Expression::Atom(s) => ExprV::Atom(s@),
        Expression::Range(r) => ExprV::Range(r),
        Expression::Symbol(s) => ExprV::Symbol(s@),
        Expression::NegativeCharClass(s) => ExprV::NegativeCharClass(s@),
        Expression::UnicodeCategory(s) => ExprV::UnicodeCategory(s@),
    }
}

/// View of an error.
pub open spec fn err_view(e: CompilerError) -> ErrV {
    match e {
        CompilerError::ParseError(d) => ErrV::ParseError(d@),
        CompilerError::MissingRootNode => ErrV::MissingRootNode,
        CompilerError::MissingNode => ErrV::MissingNode,
        CompilerError::UnrecognizedSyntax => ErrV::UnrecognizedSyntax,
        CompilerError::CouldNotParseAnAmount => ErrV::CouldNotParseAnAmount,
        CompilerError::InvalidQuantifierRange => ErrV::InvalidQuantifierRange,
        CompilerError::UnexpectedSpecialSymbolInQuantifier => ErrV::UnexpectedSpecialSymbolInQuantifier,
        CompilerError::UnexpectedQuantifierInQuantifier => ErrV::UnexpectedQuantifierInQuantifier,
        CompilerError::UnexpectedAssertionInQuantifier => ErrV::UnexpectedAssertionInQuantifier,
        CompilerError::UnexpectedVariableInvocationInQuantifier => ErrV::UnexpectedVariableInvocationInQuantifier,
        CompilerError::UnexpectedSkippedNodeInQuantifier => ErrV::UnexpectedSkippedNodeInQuantifier,
        CompilerError::UnrecognizedGroup => ErrV::UnrecognizedGroup,
        CompilerError::UnexpectedIdentifierForNonCaptureGroup => ErrV::UnexpectedIdentifierForNonCaptureGroup,
        CompilerError::UnrecognizedAssertion => ErrV::UnrecognizedAssertion,
        CompilerError::UninitializedVariable => ErrV::UninitializedVariable,
    }
}

/// View of a translation result for a single node.
pub open spec fn node_result_view(r: Result<ViableAstNode, CompilerError>) -> Result<
    AstNodeV,
    ErrV,
> {
    match r {
        Result::Ok(n) => Result::Ok(node_view(n)),
        Result::Err(e) => Result::Err(err_view(e)),
    }
}

/// View of a translation result for a whole AST.
pub open spec fn ast_result_view(r: Result<ViableAst, CompilerError>) -> Result<AstV, ErrV> {
    match r {
        Result::Ok(a) => Result::Ok(ast_view(a)),
        Result::Err(e) => Result::Err(err_view(e)),
    }
}

/// View of a quantifier-kind resolution result.
pub open spec fn quant_result_view(r: Result<QuantifierKind, CompilerError>) -> Result<
    QuantV,
    ErrV,
> {
    match r {
        Result::Ok(k) => Result::Ok(quant_view(k)),
        Result::Err(e) => Result::Err(err_view(e)),
    }
}

/// View of a coercion result.
pub open spec fn expr_result_view(r: Result<Expression, CompilerError>) -> Result<ExprV, ErrV> {
    match r {
        Result::Ok(e) => Result::Ok(expr_view(e)),
        Result::Err(e) => Result::Err(err_view(e)),
    }
}

/// The element-wise reading of `pnodes_view`.
pub proof fn lemma_pnodes_view(s: Seq<ParseNode>)
    ensures
        pnodes_view(s).len() == s.len(),
        forall|i: int| 0 <= i < s.len() ==> pnodes_view(s)[i] == pnode_view(#[trigger] s[i]),
    decreases s.len(),
{
    if s.len() > 0 {
        lemma_pnodes_view(s.drop_first());
        assert forall|i: int| 0 <= i < s.len() implies pnodes_view(s)[i] == pnode_view(
            #[trigger] s[i],
        ) by {
            if i > 0 {
                assert(s.drop_first()[i - 1] == s[i]);
                assert(pnodes_view(s)[i] == pnodes_view(s.drop_first())[i - 1]);
            }
        }
    }
}

/// Appending one node commutes with the view.
pub proof fn lemma_nodes_view_push(s: Seq<ViableAstNode>, n: ViableAstNode)
    ensures
        nodes_view(s.push(n)) == nodes_view(s).push(node_view(n)),
    decreases s.len(),
{
    if s.len() == 0 {
        assert(s.push(n)[0] == n);
        assert(s.push(n).drop_first() =~= s);
        assert(nodes_view(s.push(n)) =~= nodes_view(s).push(node_view(n)));
    } else {
        lemma_nodes_view_push(s.drop_first(), n);
        assert(s.push(n).drop_first() =~= s.drop_first().push(n));
        assert(s.push(n)[0] == s[0]);
        assert(nodes_view(s.push(n)) =~= nodes_view(s).push(node_view(n)));
    }
}

} // verus!
