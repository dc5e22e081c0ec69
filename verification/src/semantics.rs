//! The definitional semantics of the translation.
//!
//! One spec function per resolver gives the meaning of every parse-tree node
//! as a function of the node and the active variable environment, threading
//! the environment exactly as the executable pass does: left to right through
//! every statement sequence, into group, assertion and declaration bodies,
//! with no block scoping. The executable translator in [`crate::translate`]
//! is proved to return precisely these values.

use vstd::prelude::*;

use crate::ast::{AsciiRange, AssertionKind, GroupKind, NumericRange, Range};
use crate::model::{AstNodeV, AstV, ErrV, ExprV, NodeV, OutcomeV, QuantV};
use crate::parse_tree::RuleTag;
use crate::text::{dec_val, is_ascii_letter, seq_starts_with, trimmed, valid_amount};

verus! {

/// The variable environment: declared identifier to resolved AST.
pub type Env = Map<Seq<char>, AstV>;

/// Wraps a translated statement sequence as a `Root` AST.
pub open spec fn root_result(r: Result<Seq<AstNodeV>, ErrV>) -> Result<AstV, ErrV> {
    match r {
        Ok(ns) => Ok(AstV::Root(ns)),
        Err(e) => Err(e),
    }
}

/// Prepends already translated nodes to the outcome of translating the
/// remaining statements.
pub open spec fn prepend_nodes(
    prefix: Seq<AstNodeV>,
    p: (Result<Seq<AstNodeV>, ErrV>, Env),
) -> (Result<Seq<AstNodeV>, ErrV>, Env) {
    match p.0 {
        Ok(rest) => (Ok(prefix + rest), p.1),
        Err(e) => (Err(e), p.1),
    }
}

/// Meaning of an ordered statement sequence: each node translated in order,
/// failing fast on the first error, with the environment threaded through.
pub open spec fn stmts_semantics(ps: Seq<NodeV>, env: Env) -> (Result<Seq<AstNodeV>, ErrV>, Env)
    decreases ps, 9int,
{
    if ps.len() == 0 {
        (Ok(Seq::empty()), env)
    } else {
        let (r0, env0) = node_semantics(ps[0], env);
        match r0 {
            Err(e) => (Err(e), env0),
            Ok(n) => {
                let (rr, env1) = stmts_semantics(ps.drop_first(), env0);
                match rr {
                    Err(e) => (Err(e), env1),
                    Ok(rest) => (Ok(seq![n] + rest), env1),
                }
            },
        }
    }
}

/// Meaning of one parse-tree node: the classifier's dispatch over the closed
/// rule-tag set. Any tag outside it is `UnrecognizedSyntax`.
pub open spec fn node_semantics(p: NodeV, env: Env) -> (Result<AstNodeV, ErrV>, Env)
    decreases p, 3int,
{
    match p.tag {
        RuleTag::Raw => (Ok(AstNodeV::Atom(p.text)), env),
        RuleTag::Literal => (Ok(AstNodeV::Atom(p.text)), env),
        RuleTag::Symbol => (Ok(AstNodeV::Symbol(p.text)), env),
        RuleTag::SpecialSymbol => (Ok(AstNodeV::SpecialSymbol(p.text)), env),
        RuleTag::UnicodeCategory => (Ok(AstNodeV::UnicodeCategory(p.text)), env),
        RuleTag::Range => (range_semantics(p), env),
        RuleTag::Quantifier => quantifier_semantics(p, env),
        RuleTag::Group => group_semantics(p, env),
        RuleTag::Assertion => assertion_semantics(p, env),
        RuleTag::NegativeCharClass => (neg_class_semantics(p), env),
        RuleTag::VariableInvocation => (invocation_semantics(p, env), env),
        RuleTag::VariableDeclaration => declaration_semantics(p, env),
        RuleTag::EndOfInput => (Ok(AstNodeV::Skip), env),
        _ => (Err(ErrV::UnrecognizedSyntax), env),
    }
}

/// Meaning of a range node: negation by the leading `not` marker, start
/// shifted to the next inner node when negated, classification by whether
/// the start character is alphabetic; both bounds must be single characters.
pub open spec fn range_semantics(p: NodeV) -> Result<AstNodeV, ErrV> {
    let cs = p.children;
    if cs.len() == 0 {
        Err(ErrV::MissingNode)
    } else {
        let negative = cs[0].text == "not"@;
        if negative && cs.len() < 2 {
            Err(ErrV::MissingNode)
        } else {
            let start = if negative {
                cs[1].text
            } else {
                cs[0].text
            };
            let end = cs[cs.len() - 1].text;
            if start.len() != 1 {
                Err(ErrV::MissingNode)
            } else if end.len() != 1 {
                Err(ErrV::MissingNode)
            } else if is_ascii_letter(start[0]) {
                Ok(
                    AstNodeV::Range(
                        Range::AsciiRange(
                            AsciiRange { negative, start: start[0], end: end[0] },
                        ),
                    ),
                )
            } else {
                Ok(
                    AstNodeV::Range(
                        Range::NumericRange(
                            NumericRange { negative, start: start[0], end: end[0] },
                        ),
                    ),
                )
            }
        }
    }
}

/// Meaning of a quantifier node: the operand (the last child) is resolved
/// first, through the classifier and under the same environment, then
/// narrowed to an `Expression`; laziness is the quantity text's `lazy`
/// prefix; the kind comes from the quantity's inner rule.
pub open spec fn quantifier_semantics(p: NodeV, env: Env) -> (Result<AstNodeV, ErrV>, Env)
    decreases p, 2int,
{
    if p.children.len() == 0 {
        (Err(ErrV::MissingNode), env)
    } else {
        let quantity = p.children[0];
        if quantity.children.len() == 0 {
            (Err(ErrV::MissingNode), env)
        } else {
            let kind_node = quantity.children[0];
            let (opr, env1) = node_semantics(p.children[p.children.len() - 1], env);
            match opr {
                Err(e) => (Err(e), env1),
                Ok(node) => match expr_of(node) {
                    Err(e) => (Err(e), env1),
                    Ok(expression) => {
                        let lazy = seq_starts_with(quantity.text, "lazy"@);
                        match quant_kind_semantics(kind_node) {
                            Err(e) => (Err(e), env1),
                            Ok(kind) => (
                                (Ok(AstNodeV::Quantifier { kind, lazy, expression }), env1)
                            ),
                        }
                    },
                },
            }
        }
    }
}

/// Meaning of a quantity's inner rule: the six repetition kinds, with
/// `over` incremented by one ("more than n" is "at least n + 1") and a
/// bounded range rejected when its bounds do not parse or run backwards.
pub open spec fn quant_kind_semantics(kind: NodeV) -> Result<QuantV, ErrV> {
    match kind.tag {
        RuleTag::Amount => Ok(QuantV::Amount(kind.text)),
        RuleTag::Over => {
            if kind.children.len() == 0 {
                Err(ErrV::MissingNode)
            } else {
                let raw = kind.children[kind.children.len() - 1].text;
                if !valid_amount(raw) {
                    Err(ErrV::CouldNotParseAnAmount)
                } else if dec_val(raw) == usize::MAX {
                    Err(ErrV::CouldNotParseAnAmount)
                } else {
                    Ok(QuantV::Over((dec_val(raw) + 1) as usize))
                }
            }
        },
        RuleTag::Optional => Ok(QuantV::ZeroOrOne),
        RuleTag::Any => Ok(QuantV::ZeroOrMore),
        RuleTag::OneOrMore => Ok(QuantV::OneOrMore),
        RuleTag::QuantifierRange => {
            if kind.children.len() == 0 {
                Err(ErrV::MissingNode)
            } else {
                let start = kind.children[0].text;
                let end = kind.children[kind.children.len() - 1].text;
                if !valid_amount(start) {
                    Err(ErrV::InvalidQuantifierRange)
                } else if !valid_amount(end) {
                    Err(ErrV::InvalidQuantifierRange)
                } else if dec_val(start) > dec_val(end) {
                    Err(ErrV::InvalidQuantifierRange)
                } else {
                    Ok(QuantV::Range { start, end })
                }
            }
        },
        _ => Err(ErrV::UnrecognizedSyntax),
    }
}

/// Narrows a resolved node to the subset legal inside a quantifier; each
/// illegal kind has its own specific error.
pub open spec fn expr_of(n: AstNodeV) -> Result<ExprV, ErrV> {
    match n {
        AstNodeV::Group { ident, kind, statements } => Ok(
            ExprV::Group { ident, kind, statements },
        ),
        AstNodeV::Atom(s) => Ok(ExprV::Atom(s)),
        AstNodeV::Range(r) => Ok(ExprV::Range(r)),
        AstNodeV::Symbol(s) => Ok(ExprV::Symbol(s)),
        AstNodeV::NegativeCharClass(s) => Ok(ExprV::NegativeCharClass(s)),
        AstNodeV::UnicodeCategory(s) => Ok(ExprV::UnicodeCategory(s)),
        AstNodeV::SpecialSymbol(_) => Err(ErrV::UnexpectedSpecialSymbolInQuantifier),
        AstNodeV::Quantifier { .. } => Err(ErrV::UnexpectedQuantifierInQuantifier),
        AstNodeV::Assertion { .. } => Err(ErrV::UnexpectedAssertionInQuantifier),
        AstNodeV::VariableInvocation(_) => Err(ErrV::UnexpectedVariableInvocationInQuantifier),
        AstNodeV::Skip => Err(ErrV::UnexpectedSkippedNodeInQuantifier),
    }
}

/// Meaning of a group node: the declaration's first token selects the kind,
/// an optional second token (trimmed) is the capture identifier, legal only
/// for `capture`; the block is translated under the caller's environment.
pub open spec fn group_semantics(p: NodeV, env: Env) -> (Result<AstNodeV, ErrV>, Env)
    decreases p, 2int,
{
    if p.children.len() == 0 {
        (Err(ErrV::MissingNode), env)
    } else {
        let declaration = p.children[0];
        if declaration.children.len() == 0 {
            (Err(ErrV::MissingNode), env)
        } else {
            let kind_text = declaration.children[0].text;
            if !(kind_text == "either"@ || kind_text == "capture"@ || kind_text == "match"@) {
                (Err(ErrV::UnrecognizedGroup), env)
            } else {
                let kind = if kind_text == "either"@ {
                    GroupKind::Either
                } else if kind_text == "capture"@ {
                    GroupKind::Capture
                } else {
                    GroupKind::Match
                };
                let ident = if declaration.children.len() >= 2 {
                    Some(trimmed(declaration.children[1].text))
                } else {
                    None
                };
                if ident is Some && kind != GroupKind::Capture {
                    (Err(ErrV::UnexpectedIdentifierForNonCaptureGroup), env)
                } else {
                    let block = p.children[p.children.len() - 1];
                    let (r, env1) = stmts_semantics(block.children, env);
                    match r {
                        Err(e) => (Err(e), env1),
                        Ok(ns) => (
                            (
                                Ok(
                                    AstNodeV::Group {
                                        ident,
                                        kind,
                                        statements: AstV::Root(ns),
                                    },
                                ),
                                env1,
                            )
                        ),
                    }
                }
            }
        }
    }
}

/// Meaning of an assertion node: negation by the declaration's first token,
/// direction by its last token; the block is translated under the caller's
/// environment.
pub open spec fn assertion_semantics(p: NodeV, env: Env) -> (Result<AstNodeV, ErrV>, Env)
    decreases p, 2int,
{
    if p.children.len() == 0 {
        (Err(ErrV::MissingNode), env)
    } else {
        let declaration = p.children[0];
        if declaration.children.len() == 0 {
            (Err(ErrV::MissingNode), env)
        } else {
            let negative = declaration.children[0].text == "not"@;
            let kind_text = declaration.children[declaration.children.len() - 1].text;
            if !(kind_text == "ahead"@ || kind_text == "behind"@) {
                (Err(ErrV::UnrecognizedAssertion), env)
            } else {
                let kind = if kind_text == "ahead"@ {
                    AssertionKind::Ahead
                } else {
                    AssertionKind::Behind
                };
                let block = p.children[p.children.len() - 1];
                let (r, env1) = stmts_semantics(block.children, env);
                match r {
                    Err(e) => (Err(e), env1),
                    Ok(ns) => (
                        (
                            Ok(
                                AstNodeV::Assertion {
                                    kind,
                                    negative,
                                    statements: AstV::Root(ns),
                                },
                            ),
                            env1,
                        )
                    ),
                }
            }
        }
    }
}

/// Meaning of a negative character class: its last inner node's text,
/// verbatim.
pub open spec fn neg_class_semantics(p: NodeV) -> Result<AstNodeV, ErrV> {
    if p.children.len() == 0 {
        Err(ErrV::MissingNode)
    } else {
        Ok(AstNodeV::NegativeCharClass(p.children[p.children.len() - 1].text))
    }
}

/// Meaning of a variable invocation: look the identifier up; a miss is a
/// hard error, a hit splices a value copy of the stored AST.
pub open spec fn invocation_semantics(p: NodeV, env: Env) -> Result<AstNodeV, ErrV> {
    if p.children.len() == 0 {
        Err(ErrV::MissingNode)
    } else {
        let id = p.children[p.children.len() - 1].text;
        if env.contains_key(id) {
            Ok(AstNodeV::VariableInvocation(env[id]))
        } else {
            Err(ErrV::UninitializedVariable)
        }
    }
}

/// Meaning of a variable declaration: translate the body under the same
/// environment, store it under the trimmed identifier (silently overwriting
/// any earlier value), and contribute `Skip`.
pub open spec fn declaration_semantics(p: NodeV, env: Env) -> (Result<AstNodeV, ErrV>, Env)
    decreases p, 2int,
{
    if p.children.len() == 0 {
        (Err(ErrV::MissingNode), env)
    } else {
        let id = p.children[0].text;
        let body = p.children[p.children.len() - 1];
        let (r, env1) = stmts_semantics(body.children, env);
        match r {
            Err(e) => (Err(e), env1),
            Ok(ns) => (Ok(AstNodeV::Skip), env1.insert(trimmed(id), AstV::Root(ns))),
        }
    }
}

/// Meaning of a whole translation call: empty source is `Empty`; an engine
/// failure is a `ParseError` with the diagnostic; a missing root statement
/// node is `MissingRootNode`; otherwise the root's children are translated
/// under a fresh, empty environment.
pub open spec fn to_ast_semantics(source: Seq<char>, o: OutcomeV) -> Result<AstV, ErrV> {
    if source.len() == 0 {
        Ok(AstV::Empty)
    } else {
        match o {
            OutcomeV::Failure(d) => Err(ErrV::ParseError(d)),
            OutcomeV::Tree(pairs) => {
                if pairs.len() == 0 {
                    Err(ErrV::MissingRootNode)
                } else {
                    root_result(stmts_semantics(pairs[0].children, Map::empty()).0)
                }
            },
        }
    }
}

} // verus!
