//! The token tree that a tokenizer hands over: every node has the tag of
//! the grammar rule that matched, the text that it matched, where that text
//! stands, and the nodes matched inside it.

use crate::span::SourceSpan;
use vstd::prelude::*;

verus! {

/// The tags of the grammar rules.
#[derive(Clone, Copy, Debug, PartialEq, Eq, PartialOrd, Ord, Hash, Structural)]
pub enum Rule {
    /// A whole expression: terms with infix operators between them.
    Expr,
    /// One operand of an expression: a term, or a prefix operator and
    /// its operand.
    Unary,
    /// A term: a literal, a variable, a parameter, a list, a call or a
    /// group.
    Term,
    /// A variable.
    Var,
    /// A parameter: a sigil and a name.
    Param,
    /// A term with a minus sign before it.
    Minus,
    /// A term with a logical negation before it.
    Negate,
    /// A decimal integer.
    PosInt,
    /// An integer in radix 16, after a prefix of two characters.
    HexPosInt,
    /// An integer in radix 8, after a prefix of two characters.
    OctoPosInt,
    /// An integer in radix 2, after a prefix of two characters.
    BinPosInt,
    /// A float with a decimal point.
    DotFloat,
    /// A float with an exponent.
    SciFloat,
    /// The null keyword.
    Null,
    /// One of the two truth values.
    Boolean,
    /// A string between double quotes.
    QuotedString,
    /// A string between single quotes.
    SQuotedString,
    /// A string that is taken as it stands.
    RawString,
    /// What stands between the quotes of a string.
    StringInner,
    /// One piece of a quoted string: a run of plain characters or one
    /// escape.
    StringChunk,
    /// A list.
    List,
    /// A list, as it is written in a transaction.
    TxList,
    /// A function applied to arguments.
    Apply,
    /// The arguments of an application.
    ApplyArgs,
    /// An expression in parentheses.
    Grouping,
    /// An identifier.
    Ident,
    OpAdd,
    OpSub,
    OpMul,
    OpDiv,
    OpMod,
    OpPow,
    OpEq,
    OpNe,
    OpGt,
    OpGe,
    OpLt,
    OpLe,
    OpConcat,
    OpOr,
    OpAnd,
}

/// A node of the token tree.
#[derive(Debug, PartialEq, Eq)]
pub struct Pair {
    /// The rule that matched.
    pub rule: Rule,
    /// The text that the rule matched.
    pub text: String,
    /// Where that text stands in the source.
    pub span: SourceSpan,
    /// The nodes that matched inside this one, in the order of the text.
    pub inner: Vec<Pair>,
}

impl Pair {
    /// A node without nodes inside it.
    pub fn leaf(rule: Rule, text: &str, span: SourceSpan) -> (r: Pair)
        ensures
            r.rule == rule,
            r.text@ == text@,
            r.span == span,
            r.inner@.len() == 0,
    {
        Pair { rule, text: text.to_owned(), span, inner: Vec::new() }
    }

    /// A node with the given nodes inside it.
    pub fn node(rule: Rule, text: &str, span: SourceSpan, inner: Vec<Pair>) -> (r: Pair)
        ensures
            r.rule == rule,
            r.text@ == text@,
            r.span == span,
            r.inner == inner,
    {
        Pair { rule, text: text.to_owned(), span, inner }
    }
}

} // verus!
