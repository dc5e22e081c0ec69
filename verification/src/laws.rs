//! The laws of the translation, stated over the definitional semantics and
//! proved once and for all. Together with the contracts in
//! [`crate::translate`] they hold of the executable pass as well.

use vstd::prelude::*;

use crate::ast::{GroupKind, Range};
use crate::model::{AstNodeV, AstV, ErrV, NodeV, OutcomeV, QuantV};
use crate::parse_tree::RuleTag;
use crate::semantics::{
    expr_of, group_semantics, node_semantics, quant_kind_semantics, range_semantics,
    stmts_semantics, to_ast_semantics, Env,
};
use crate::text::{dec_val, is_ascii_letter, trimmed, valid_amount};

verus! {

/// An empty source always translates to `Empty`, whatever the engine
/// handed back.
pub proof fn lemma_empty_source_is_empty_ast(source: Seq<char>, o: OutcomeV)
    requires
        source.len() == 0,
    ensures
        to_ast_semantics(source, o) == Ok::<AstV, ErrV>(AstV::Empty),
{
}

/// A successfully translated statement sequence has exactly one resolved
/// node per statement: declarations count too, each contributing a `Skip`.
pub proof fn lemma_statement_count(ps: Seq<NodeV>, env: Env)
    ensures
        stmts_semantics(ps, env).0 is Ok ==> stmts_semantics(ps, env).0->Ok_0.len()
            == ps.len(),
    decreases ps.len(),
{
    if ps.len() > 0 {
        let (r0, env0) = node_semantics(ps[0], env);
        if r0 is Ok {
            lemma_statement_count(ps.drop_first(), env0);
        }
    }
}

/// A non-empty, grammar-valid source translates to `Root` whose length is
/// the number of top-level statements.
pub proof fn lemma_translation_length(source: Seq<char>, o: OutcomeV)
    requires
        source.len() > 0,
        o is Tree,
        o->Tree_0.len() > 0,
    ensures
        to_ast_semantics(source, o) is Ok ==> (to_ast_semantics(source, o)->Ok_0
            matches AstV::Root(ns) && ns.len() == o->Tree_0[0].children.len()),
{
    let pairs = o->Tree_0;
    lemma_statement_count(pairs[0].children, Map::empty());
}

/// A bounded repetition spec with parsable bounds succeeds exactly when the
/// bounds are in order, preserving both bound texts verbatim; bounds out of
/// order always fail with `InvalidQuantifierRange`.
pub proof fn lemma_quantifier_range_bounds(kind: NodeV)
    requires
        kind.tag == RuleTag::QuantifierRange,
        kind.children.len() > 0,
    ensures
        ({
            let start = kind.children[0].text;
            let end = kind.children[kind.children.len() - 1].text;
            &&& (valid_amount(start) && valid_amount(end) && dec_val(start) <= dec_val(end))
                ==> quant_kind_semantics(kind) == Ok::<QuantV, ErrV>(
                QuantV::Range { start, end },
            )
            &&& (valid_amount(start) && valid_amount(end) && dec_val(start) > dec_val(end))
                ==> quant_kind_semantics(kind) == Err::<QuantV, ErrV>(
                ErrV::InvalidQuantifierRange,
            )
        }),
{
}

/// `over n` always resolves to the incremented lower bound `n + 1`, and on
/// the largest representable value it fails instead of wrapping.
pub proof fn lemma_over_increments(kind: NodeV)
    requires
        kind.tag == RuleTag::Over,
        kind.children.len() > 0,
    ensures
        ({
            let raw = kind.children[kind.children.len() - 1].text;
            &&& (valid_amount(raw) && dec_val(raw) < usize::MAX)
                ==> quant_kind_semantics(kind) == Ok::<QuantV, ErrV>(
                QuantV::Over((dec_val(raw) + 1) as usize),
            )
            &&& (valid_amount(raw) && dec_val(raw) == usize::MAX)
                ==> quant_kind_semantics(kind) == Err::<QuantV, ErrV>(
                ErrV::CouldNotParseAnAmount,
            )
        }),
{
}

/// A resolved range is `AsciiRange` exactly when its start character is
/// alphabetic, `NumericRange` otherwise; a leading negation marker sets
/// `negative` and shifts the true start to the following node.
pub proof fn lemma_range_classification(p: NodeV)
    ensures
        range_semantics(p) is Ok ==> ({
            let cs = p.children;
            let negative = cs[0].text == "not"@;
            let start = if negative {
                cs[1].text
            } else {
                cs[0].text
            };
            let end = cs[cs.len() - 1].text;
            range_semantics(p)->Ok_0 matches AstNodeV::Range(r) && (match r {
                Range::AsciiRange(a) => is_ascii_letter(start[0]) && a.negative == negative
                    && a.start == start[0] && a.end == end[0],
                Range::NumericRange(m) => !is_ascii_letter(start[0]) && m.negative == negative
                    && m.start == start[0] && m.end == end[0],
            })
        }),
{
}

/// Invoking an undeclared variable always fails with
/// `UninitializedVariable`, wherever the invocation stands.
pub proof fn lemma_undeclared_variable_fails(p: NodeV, env: Env)
    requires
        p.tag == RuleTag::VariableInvocation,
        p.children.len() > 0,
        !env.contains_key(p.children[p.children.len() - 1].text),
    ensures
        node_semantics(p, env) == (Err::<AstNodeV, ErrV>(ErrV::UninitializedVariable), env),
{
}

/// A `capture` group with an identifier resolves with that identifier,
/// trimmed; an `either` or `match` group with any identifier token fails
/// with `UnexpectedIdentifierForNonCaptureGroup`.
pub proof fn lemma_capture_ident_rules(p: NodeV, env: Env)
    requires
        p.children.len() > 0,
        p.children[0].children.len() >= 2,
    ensures
        ({
            let declaration = p.children[0];
            let kind_text = declaration.children[0].text;
            let block = p.children[p.children.len() - 1];
            let sub = stmts_semantics(block.children, env);
            &&& (kind_text == "capture"@ && sub.0 is Ok) ==> group_semantics(p, env) == (
                (
                    Ok::<AstNodeV, ErrV>(
                        AstNodeV::Group {
                            ident: Some(trimmed(declaration.children[1].text)),
                            kind: GroupKind::Capture,
                            statements: AstV::Root(sub.0->Ok_0),
                        },
                    ),
                    sub.1,
                )
            )
            &&& (kind_text == "either"@ || kind_text == "match"@) ==> group_semantics(p, env)
                == (Err::<AstNodeV, ErrV>(ErrV::UnexpectedIdentifierForNonCaptureGroup), env)
        }),
{
    reveal_strlit("either");
    reveal_strlit("capture");
    reveal_strlit("match");
    assert("either"@.len() == 6);
    assert("capture"@.len() == 7);
    assert("match"@.len() == 5);
}

/// A `Group` or `Atom` (and a range, symbol, negative class or category) is
/// legal inside a quantifier; an assertion, a quantifier, a variable
/// invocation or a skipped node each fails with its own specific error.
pub proof fn lemma_quantifier_operand_rules(n: AstNodeV)
    ensures
        n is Group ==> expr_of(n) is Ok,
        n is Atom ==> expr_of(n) is Ok,
        n is Range ==> expr_of(n) is Ok,
        n is Symbol ==> expr_of(n) is Ok,
        n is NegativeCharClass ==> expr_of(n) is Ok,
        n is UnicodeCategory ==> expr_of(n) is Ok,
        n is SpecialSymbol ==> expr_of(n) == Err::<crate::model::ExprV, ErrV>(
            ErrV::UnexpectedSpecialSymbolInQuantifier,
        ),
        n is Quantifier ==> expr_of(n) == Err::<crate::model::ExprV, ErrV>(
            ErrV::UnexpectedQuantifierInQuantifier,
        ),
        n is Assertion ==> expr_of(n) == Err::<crate::model::ExprV, ErrV>(
            ErrV::UnexpectedAssertionInQuantifier,
        ),
        n is VariableInvocation ==> expr_of(n) == Err::<crate::model::ExprV, ErrV>(
            ErrV::UnexpectedVariableInvocationInQuantifier,
        ),
        n is Skip ==> expr_of(n) == Err::<crate::model::ExprV, ErrV>(
            ErrV::UnexpectedSkippedNodeInQuantifier,
        ),
{
}

/// Declaring a variable, invoking it, redeclaring it with different
/// contents and invoking it again yields two invocation nodes that embed
/// the value active at each invocation point — value semantics, not a live
/// reference.
pub proof fn lemma_redeclaration_value_semantics(
    d1: NodeV,
    i1: NodeV,
    d2: NodeV,
    i2: NodeV,
    name: Seq<char>,
    t1: Seq<char>,
    t2: Seq<char>,
    env: Env,
)
    requires
        d1.tag == RuleTag::VariableDeclaration,
        d1.children.len() == 2,
        trimmed(d1.children[0].text) == name,
        d1.children[1].children.len() == 1,
        d1.children[1].children[0].tag == RuleTag::Literal,
        d1.children[1].children[0].text == t1,
        d2.tag == RuleTag::VariableDeclaration,
        d2.children.len() == 2,
        trimmed(d2.children[0].text) == name,
        d2.children[1].children.len() == 1,
        d2.children[1].children[0].tag == RuleTag::Literal,
        d2.children[1].children[0].text == t2,
        i1.tag == RuleTag::VariableInvocation,
        i1.children.len() == 1,
        i1.children[0].text == name,
        i2.tag == RuleTag::VariableInvocation,
        i2.children.len() == 1,
        i2.children[0].text == name,
        t1 != t2,
    ensures
        ({
            let r = stmts_semantics(seq![d1, i1, d2, i2], env);
            let first = AstNodeV::VariableInvocation(AstV::Root(seq![AstNodeV::Atom(t1)]));
            let second = AstNodeV::VariableInvocation(AstV::Root(seq![AstNodeV::Atom(t2)]));
            &&& r.0 == Ok::<Seq<AstNodeV>, ErrV>(
                seq![AstNodeV::Skip, first, AstNodeV::Skip, second],
            )
            &&& first != second
        }),
{
    reveal_with_fuel(stmts_semantics, 6);
    reveal_with_fuel(node_semantics, 3);
    let s = seq![d1, i1, d2, i2];
    let lit1 = d1.children[1].children[0];
    let lit2 = d2.children[1].children[0];
    let body1 = AstV::Root(seq![AstNodeV::Atom(t1)]);
    let body2 = AstV::Root(seq![AstNodeV::Atom(t2)]);
    let env1 = env.insert(name, body1);
    let env2 = env1.insert(name, body2);

    // the two declaration bodies, each a single literal
    assert(seq![lit1].drop_first() =~= Seq::<NodeV>::empty());
    assert(seq![AstNodeV::Atom(t1)] + Seq::<AstNodeV>::empty() =~= seq![AstNodeV::Atom(t1)]);
    assert(d1.children[1].children =~= seq![lit1]);
    assert(stmts_semantics(d1.children[1].children, env).0 == Ok::<Seq<AstNodeV>, ErrV>(
        seq![AstNodeV::Atom(t1)],
    ));
    assert(node_semantics(d1, env) == (Ok::<AstNodeV, ErrV>(AstNodeV::Skip), env1));

    assert(node_semantics(i1, env1) == (
        Ok::<AstNodeV, ErrV>(AstNodeV::VariableInvocation(body1)),
        env1,
    ));

    assert(seq![lit2].drop_first() =~= Seq::<NodeV>::empty());
    assert(seq![AstNodeV::Atom(t2)] + Seq::<AstNodeV>::empty() =~= seq![AstNodeV::Atom(t2)]);
    assert(d2.children[1].children =~= seq![lit2]);
    assert(stmts_semantics(d2.children[1].children, env1).0 == Ok::<Seq<AstNodeV>, ErrV>(
        seq![AstNodeV::Atom(t2)],
    ));
    assert(node_semantics(d2, env1) == (Ok::<AstNodeV, ErrV>(AstNodeV::Skip), env2));

    assert(node_semantics(i2, env2) == (
        Ok::<AstNodeV, ErrV>(AstNodeV::VariableInvocation(body2)),
        env2,
    ));

    // assemble the four statements
    assert(s.drop_first() =~= seq![i1, d2, i2]);
    assert(seq![i1, d2, i2].drop_first() =~= seq![d2, i2]);
    assert(seq![d2, i2].drop_first() =~= seq![i2]);
    assert(seq![i2].drop_first() =~= Seq::<NodeV>::empty());
    let first = AstNodeV::VariableInvocation(body1);
    let second = AstNodeV::VariableInvocation(body2);
    assert(seq![second] + Seq::<AstNodeV>::empty() =~= seq![second]);
    assert(seq![AstNodeV::Skip] + seq![second] =~= seq![AstNodeV::Skip, second]);
    assert(seq![first] + seq![AstNodeV::Skip, second] =~= seq![first, AstNodeV::Skip, second]);
    assert(seq![AstNodeV::Skip] + seq![first, AstNodeV::Skip, second] =~= seq![
        AstNodeV::Skip,
        first,
        AstNodeV::Skip,
        second,
    ]);

    // the two invocations embed different values
    assert(seq![AstNodeV::Atom(t1)][0] == AstNodeV::Atom(t1));
    assert(seq![AstNodeV::Atom(t2)][0] == AstNodeV::Atom(t2));
    assert(first != second);
}

} // verus!
