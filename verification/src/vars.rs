//! The flat variable table.
//!
//! One table per translation call, threaded by mutable reference through
//! every nested recursion: a declaration anywhere stays visible to every
//! later statement anywhere in the tree. Declaration overwrites silently;
//! invocation hands out an independent deep copy, so later redeclaration
//! never alters an already produced invocation. The table's model is a map
//! from identifier text to the AST model.

use vstd::prelude::*;

use crate::ast::{
    Assertion, Expression, Group, Quantifier, QuantifierKind, ViableAst, ViableAstNode,
    VariableInvocation,
};
use crate::model::{
    ast_view, expr_view, lemma_nodes_view_push, node_view, nodes_view, quant_view, AstV,
};
use crate::semantics::Env;
use crate::text::str_eq;

verus! {

/// The model of a table as grown from the front: later entries overwrite
/// earlier ones.
pub open spec fn env_of(s: Seq<(String, ViableAst)>) -> Env
    decreases s.len(),
{
    if s.len() == 0 {
        Map::empty()
    } else {
        env_of(s.drop_last()).insert(s.last().0@, ast_view(s.last().1))
    }
}

/// The flat identifier-to-AST table.
pub struct VarTable {
    entries: Vec<(String, ViableAst)>,
}

impl View for VarTable {
    type V = Env;

    closed spec fn view(&self) -> Env {
        env_of(self.entries@)
    }
}

/// Entries whose keys all differ from `k` leave the model without `k`.
proof fn lemma_env_of_absent(s: Seq<(String, ViableAst)>, k: Seq<char>)
    requires
        forall|j: int| 0 <= j < s.len() ==> (#[trigger] s[j]).0@ != k,
    ensures
        !env_of(s).contains_key(k),
    decreases s.len(),
{
    if s.len() > 0 {
        assert(s.last() == s[s.len() - 1]);
        lemma_env_of_absent(s.drop_last(), k);
    }
}

/// The model's entry at `k` is decided by the entries up to the last one
/// whose key is `k`.
proof fn lemma_env_of_agree(s: Seq<(String, ViableAst)>, i: int, k: Seq<char>)
    requires
        0 <= i <= s.len(),
        forall|j: int| i <= j < s.len() ==> (#[trigger] s[j]).0@ != k,
    ensures
        env_of(s).contains_key(k) == env_of(s.subrange(0, i)).contains_key(k),
        env_of(s).contains_key(k) ==> env_of(s)[k] == env_of(s.subrange(0, i))[k],
    decreases s.len() - i,
{
    if i == s.len() {
        assert(s.subrange(0, i) =~= s);
    } else {
        assert(s.last() == s[s.len() - 1]);
        assert(s.drop_last().subrange(0, i) =~= s.subrange(0, i));
        lemma_env_of_agree(s.drop_last(), i, k);
    }
}

impl VarTable {
    /// A fresh, empty table, created once per top-level translation call.
    pub fn new() -> (t: VarTable)
        ensures
            t@ == Map::<Seq<char>, AstV>::empty(),
    {
        VarTable { entries: Vec::new() }
    }

    /// Declares (or silently redeclares) an identifier.
    pub fn insert(&mut self, name: String, value: ViableAst)
        ensures
            final(self)@ == old(self)@.insert(name@, ast_view(value)),
    {
        proof {
            assert(self.entries@.push((name, value)).drop_last() =~= self.entries@);
        }
        self.entries.push((name, value));
    }

    /// Looks an identifier up and hands out an independent deep copy of the
    /// stored AST; a miss reports that the identifier was never declared.
    pub fn get(&self, name: &str) -> (r: Option<ViableAst>)
        ensures
            match r {
                Some(a) => self@.contains_key(name@) && ast_view(a) == self@[name@],
                None => !self@.contains_key(name@),
            },
    {
        let n = self.entries.len();
        let mut i: usize = n;
        while i > 0
            invariant
                n == self.entries@.len(),
                0 <= i <= n,
                forall|j: int| i <= j < n ==> (#[trigger] self.entries@[j]).0@ != name@,
            decreases i,
        {
            i = i - 1;
            if str_eq(self.entries[i].0.as_str(), name) {
                proof {
                    let s = self.entries@;
                    lemma_env_of_agree(s, i + 1, name@);
                    assert(s.subrange(0, i + 1).drop_last() =~= s.subrange(0, i as int));
                    assert(s.subrange(0, i + 1).last() == s[i as int]);
                }
                return Some(clone_ast(&self.entries[i].1));
            }
        }
        proof {
            lemma_env_of_absent(self.entries@, name@);
        }
        None
    }
}

/// A deep copy of an AST; its model is unchanged.
pub fn clone_ast(a: &ViableAst) -> (r: ViableAst)
    ensures
        ast_view(r) == ast_view(*a),
    decreases *a,
{
    match a {
        ViableAst::Empty => ViableAst::Empty,
        ViableAst::Root(nodes) => ViableAst::Root(clone_nodes(nodes)),
    }
}

/// A deep copy of a node sequence; its model is unchanged.
pub fn clone_nodes(nodes: &Vec<ViableAstNode>) -> (r: Vec<ViableAstNode>)
    ensures
        nodes_view(r@) == nodes_view(nodes@),
    decreases nodes@,
{
    let mut out: Vec<ViableAstNode> = Vec::new();
    let n = nodes.len();
    let mut i: usize = 0;
    while i < n
        invariant
            n == nodes@.len(),
            0 <= i <= n,
            nodes_view(out@) == nodes_view(nodes@.subrange(0, i as int)),
        decreases n - i,
    {
        let c = clone_node(&nodes[i]);
        proof {
            lemma_nodes_view_push(out@, c);
            lemma_nodes_view_push(nodes@.subrange(0, i as int), nodes@[i as int]);
            assert(nodes@.subrange(0, i as int).push(nodes@[i as int]) =~= nodes@.subrange(
                0,
                i + 1,
            ));
        }
        out.push(c);
        i = i + 1;
    }
    proof {
        assert(nodes@.subrange(0, n as int) =~= nodes@);
    }
    out
}

/// A deep copy of one AST node; its model is unchanged.
pub fn clone_node(n: &ViableAstNode) -> (r: ViableAstNode)
    ensures
        node_view(r) == node_view(*n),
    decreases *n,
{
    match n {
        ViableAstNode::Atom(s) => ViableAstNode::Atom(s.clone()),
        ViableAstNode::Symbol(s) => ViableAstNode::Symbol(s.clone()),
        ViableAstNode::Range(r) => ViableAstNode::Range(*r),
        ViableAstNode::Quantifier(q) => ViableAstNode::Quantifier(
            Quantifier {
                kind: clone_quantifier_kind(&q.kind),
                lazy: q.lazy,
                expression: clone_expression(&q.expression),
            },
        ),
        ViableAstNode::Group(g) => ViableAstNode::Group(
            Group {
                ident: clone_ident(&g.ident),
                kind: g.kind,
                statements: clone_ast(&g.statements),
            },
        ),
        ViableAstNode::Assertion(a) => ViableAstNode::Assertion(
            Assertion {
                kind: a.kind,
                negative: a.negative,
                statements: clone_ast(&a.statements),
            },
        ),
        ViableAstNode::NegativeCharClass(s) => ViableAstNode::NegativeCharClass(s.clone()),
        ViableAstNode::VariableInvocation(v) => ViableAstNode::VariableInvocation(
            VariableInvocation { statements: clone_ast(&v.statements) },
        ),
        ViableAstNode::UnicodeCategory(s) => ViableAstNode::UnicodeCategory(s.clone()),
        ViableAstNode::SpecialSymbol(s) => ViableAstNode::SpecialSymbol(s.clone()),
        ViableAstNode::Skip => ViableAstNode::Skip,
    }
}

/// A deep copy of a quantifier operand; its model is unchanged.
pub fn clone_expression(e: &Expression) -> (r: Expression)
    ensures
        expr_view(r) == expr_view(*e),
    decreases *e,
{
    match e {
        Expression::Group(g) => Expression::Group(
            Group {
                ident: clone_ident(&g.ident),
                kind: g.kind,
                statements: clone_ast(&g.statements),
            },
        ),
        Expression::Atom(s) => Expression::Atom(s.clone()),
        Expression::Range(r) => Expression::Range(*r),
        Expression::Symbol(s) => Expression::Symbol(s.clone()),
        Expression::NegativeCharClass(s) => Expression::NegativeCharClass(s.clone()),
        Expression::UnicodeCategory(s) => Expression::UnicodeCategory(s.clone()),
    }
}

/// A copy of a quantifier kind; its model is unchanged.
pub fn clone_quantifier_kind(k: &QuantifierKind) -> (r: QuantifierKind)
    ensures
        quant_view(r) == quant_view(*k),
{
    match k {
        QuantifierKind::Amount(s) => QuantifierKind::Amount(s.clone()),
        QuantifierKind::Over(n) => QuantifierKind::Over(*n),
        QuantifierKind::ZeroOrOne => QuantifierKind::ZeroOrOne,
        QuantifierKind::ZeroOrMore => QuantifierKind::ZeroOrMore,
        QuantifierKind::OneOrMore => QuantifierKind::OneOrMore,
        QuantifierKind::Range { start, end } => QuantifierKind::Range {
            start: start.clone(),
            end: end.clone(),
        },
    }
}

/// A copy of an optional capture identifier, view for view.
pub fn clone_ident(o: &Option<String>) -> (r: Option<String>)
    ensures
        match (o, r) {
            (Some(a), Some(b)) => a@ == b@,
            (None, None) => true,
            _ => false,
        },
{
    match o {
        Some(s) => Some(s.clone()),
        None => None,
    }
}

} // verus!
