//! The resolved abstract syntax tree and the error taxonomy.
//!
//! `ViableAst` is the compiled program representation: `Empty` for an empty
//! source, otherwise `Root` with one resolved node per top-level statement.
//! `Expression` is the strict subset of node kinds legal as a quantifier's
//! operand. Every error kind is distinct and specific; the first error aborts
//! the whole pass.

use vstd::prelude::*;

verus! {

/// The compiled program: `Empty` for an empty source, otherwise the ordered
/// sequence of resolved top-level nodes (including `Skip` placeholders).
#[derive(Debug, PartialEq, Eq)]
pub enum ViableAst {
    Empty,
    Root(Vec<ViableAstNode>),
}

/// One resolved semantic unit of the AST.
#[derive(Debug, PartialEq, Eq)]
pub enum ViableAstNode {
    /// A literal or raw matched string, already unescaped.
    Atom(String),
    /// A named built-in symbol; its taxonomy belongs to a sibling resolver
    /// and is carried opaquely.
    Symbol(String),
    /// A classified character range.
    Range(Range),
    /// Repetition applied to one restricted sub-expression.
    Quantifier(Quantifier),
    /// A nested scope: alternation, capture or non-capturing match.
    Group(Group),
    /// A non-consuming lookaround scope.
    Assertion(Assertion),
    /// An inverted character class body, taken verbatim.
    NegativeCharClass(String),
    /// A value copy of a previously declared variable's AST.
    VariableInvocation(VariableInvocation),
    /// An opaque leaf category produced by a sibling resolver.
    UnicodeCategory(String),
    /// An opaque leaf category produced by a sibling resolver.
    SpecialSymbol(String),
    /// A no-op marker: end of input, or the residue of a declaration.
    Skip,
}

/// A character range, classified by whether its first character is an
/// ASCII letter.
#[derive(Debug, Clone, Copy, PartialEq, Eq, Structural)]
pub enum Range {
    AsciiRange(AsciiRange),
    NumericRange(NumericRange),
}

/// An alphabetic character range with optional negation.
#[derive(Debug, Clone, Copy, PartialEq, Eq, Structural)]
pub struct AsciiRange {
    pub negative: bool,
    pub start: char,
    pub end: char,
}

/// A non-alphabetic character range with optional negation.
#[derive(Debug, Clone, Copy, PartialEq, Eq, Structural)]
pub struct NumericRange {
    pub negative: bool,
    pub start: char,
    pub end: char,
}

/// Repetition: a kind, a laziness flag, and the one operand expression.
#[derive(Debug, PartialEq, Eq)]
pub struct Quantifier {
    pub kind: QuantifierKind,
    pub lazy: bool,
    pub expression: Expression,
}

/// The repetition kinds of the grammar's quantity rules.
#[derive(Debug, PartialEq, Eq)]
pub enum QuantifierKind {
    /// An exact repetition count, kept as its raw digit text.
    Amount(String),
    /// "More than n": stored as the already incremented lower bound n + 1.
    Over(usize),
    /// Zero or one (the grammar's `option`).
    ZeroOrOne,
    /// Zero or more (the grammar's `any`).
    ZeroOrMore,
    /// One or more (the grammar's `some`).
    OneOrMore,
    /// A bounded repetition; both bounds keep their original source text.
    Range { start: String, end: String },
}

/// A nested scope with its kind and optional capture identifier.
#[derive(Debug, PartialEq, Eq)]
pub struct Group {
    pub ident: Option<String>,
    pub kind: GroupKind,
    pub statements: ViableAst,
}

/// The group kinds selected by the declaration's first token.
#[derive(Debug, Clone, Copy, PartialEq, Eq, Structural)]
pub enum GroupKind {
    Either,
    Capture,
    Match,
}

/// A lookaround scope with direction and optional negation.
#[derive(Debug, PartialEq, Eq)]
pub struct Assertion {
    pub kind: AssertionKind,
    pub negative: bool,
    pub statements: ViableAst,
}

/// The assertion directions selected by the declaration's direction token.
#[derive(Debug, Clone, Copy, PartialEq, Eq, Structural)]
pub enum AssertionKind {
    Ahead,
    Behind,
}

/// A value copy of a declared variable's AST, spliced at the invocation site.
#[derive(Debug, PartialEq, Eq)]
pub struct VariableInvocation {
    pub statements: ViableAst,
}

/// The strict subset of node kinds legal inside a quantifier.
#[derive(Debug, PartialEq, Eq)]
pub enum Expression {
    Group(Group),
    Atom(String),
    Range(Range),
    Symbol(String),
    NegativeCharClass(String),
    UnicodeCategory(String),
}

/// The closed error taxonomy; each kind has exactly one trigger.
#[derive(Debug, PartialEq, Eq)]
pub enum CompilerError {
    /// The external grammar engine rejected the source; carries its
    /// diagnostic text.
    ParseError(String),
    /// The engine produced no root statement node.
    MissingRootNode,
    /// A resolver found a required child node absent or malformed.
    MissingNode,
    /// A rule tag outside the classifier's closed set.
    UnrecognizedSyntax,
    /// A repetition bound that is not a representable unsigned number.
    CouldNotParseAnAmount,
    /// A bounded repetition whose bounds do not parse or run backwards.
    InvalidQuantifierRange,
    /// A special symbol used as a quantifier operand.
    UnexpectedSpecialSymbolInQuantifier,
    /// A quantifier nested directly inside a quantifier.
    UnexpectedQuantifierInQuantifier,
    /// An assertion used as a quantifier operand.
    UnexpectedAssertionInQuantifier,
    /// A variable invocation used as a quantifier operand.
    UnexpectedVariableInvocationInQuantifier,
    /// A skipped node (such as a declaration) used as a quantifier operand.
    UnexpectedSkippedNodeInQuantifier,
    /// A group declaration token outside `either`, `capture` and `match`.
    UnrecognizedGroup,
    /// An identifier supplied for a non-capturing group.
    UnexpectedIdentifierForNonCaptureGroup,
    /// An assertion direction token outside `ahead` and `behind`.
    UnrecognizedAssertion,
    /// An invocation of a variable that was never declared.
    UninitializedVariable,
}

} // verus!
