//! Semantic front-end of a compiler for the Viable pattern-matching
//! language: given the parse tree produced by the external grammar engine,
//! it builds a validated, fully resolved abstract syntax tree.
//!
//! The library classifies each parse-tree node, resolves quantifiers (bounds,
//! laziness), groups, assertions and character ranges, and inlines variable
//! declarations by value through a single flat table threaded through the
//! whole pass. Every translation function carries a contract relating it to
//! the definitional semantics in [`semantics`].

pub mod ast;
pub mod laws;
pub mod model;
pub mod parse_tree;
pub mod semantics;
pub mod text;
pub mod translate;
pub mod vars;

pub use ast::{
    AsciiRange, Assertion, AssertionKind, CompilerError, Expression, Group, GroupKind,
    NumericRange, Quantifier, QuantifierKind, Range, ViableAst, ViableAstNode,
    VariableInvocation,
};
pub use parse_tree::{ParseNode, ParseOutcome, RuleTag};
pub use translate::{
    assertion, create_ast_node, group, negative_char_class, pairs_to_ast, quantifier,
    quantifier_kind, range, to_ast, to_expression, variable_declaration, variable_invocation,
};
pub use vars::VarTable;
