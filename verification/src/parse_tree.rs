//! The parse tree handed over by the external grammar engine.
//!
//! The grammar itself (tokenization, precedence, literal escaping) is a fixed
//! external collaborator: it supplies a tree of rule-tagged nodes, each node
//! carrying its rule tag, its matched text and its ordered child nodes. This
//! module holds the library's own representation of that tree; an adapter
//! outside the library converts the engine's native pairs into it.
//!
//! For `raw` and `literal` nodes the collaborator supplies the text already
//! unescaped; the sibling symbol resolver's three outcome kinds arrive under
//! the three symbol tags.

use vstd::prelude::*;

verus! {

/// The closed set of rule tags under which the grammar engine delivers nodes.
///
/// Statement-level tags are classified by the node classifier; the quantity
/// tags appear inside a `Quantity` node of a quantifier; `Quantity`,
/// `Declaration` and `Identifier` tag purely structural nodes whose tag the
/// translation never inspects.
#[derive(Debug, Clone, Copy, PartialEq, Eq, Structural)]
pub enum RuleTag {
    Root,
    Raw,
    Literal,
    Symbol,
    SpecialSymbol,
    UnicodeCategory,
    Range,
    Quantifier,
    Amount,
    Over,
    Optional,
    Any,
    OneOrMore,
    QuantifierRange,
    Group,
    Assertion,
    NegativeCharClass,
    VariableInvocation,
    VariableDeclaration,
    EndOfInput,
    Quantity,
    Declaration,
    Identifier,
}

/// One grammar-matched node: a rule tag, the raw matched text, and the
/// ordered child nodes.
#[derive(Debug, PartialEq, Eq)]
pub struct ParseNode {
    pub tag: RuleTag,
    pub text: String,
    pub children: Vec<ParseNode>,
}

/// What the grammar engine hands back for a non-empty source: either its
/// diagnostic text, or the top-level pairs, the first of which is the root
/// statement node.
#[derive(Debug)]
pub enum ParseOutcome {
    Failure(String),
    Tree(Vec<ParseNode>),
}

} // verus!
