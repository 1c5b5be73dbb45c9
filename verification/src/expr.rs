//! The syntax tree, the operators that it applies, and the errors of
//! building it.

use crate::span::SourceSpan;
use crate::table::Table;
use crate::value::{Float, Value, ValueView};
use vstd::prelude::*;

verus! {

/// The operators that the grammar itself names: the infix operators, the
/// two prefix operators and the list constructor.
#[derive(Clone, Copy, Debug, PartialEq, Eq, Hash, Structural)]
pub enum Builtin {
    Add,
    Sub,
    Mul,
    Div,
    Mod,
    Pow,
    Eq,
    Neq,
    Gt,
    Ge,
    Lt,
    Le,
    Concat,
    Or,
    And,
    Minus,
    Negate,
    List,
}

/// What a registry knows of a function: its name, how many arguments it
/// takes, and what those who run it must heed.
#[derive(Debug, PartialEq, Eq)]
pub struct Operator {
    /// The name under which calls find the function.
    pub name: String,
    /// The number of arguments; for a variadic function, the least number.
    pub min_arity: usize,
    /// Whether the function takes any number of arguments from `min_arity`
    /// on.
    pub vararg: bool,
    /// Whether running the function does more than give a result.
    pub has_side_effect: bool,
    /// Whether the function must be kept from null arguments.
    pub non_null_args: bool,
}

impl Operator {
    /// Whether the function can be called with `count` arguments.
    pub open spec fn takes(self, count: int) -> bool {
        if self.vararg {
            self.min_arity <= count
        } else {
            self.min_arity == count
        }
    }

    /// Computes [`Operator::takes`].
    pub fn accepts_count(&self, count: usize) -> (r: bool)
        ensures
            r == self.takes(count as int),
    {
        if self.vararg {
            self.min_arity <= count
        } else {
            self.min_arity == count
        }
    }

    /// A copy of the description.
    pub fn duplicate(&self) -> (r: Operator)
        ensures
            r == *self,
    {
        Operator {
            name: self.name.clone(),
            min_arity: self.min_arity,
            vararg: self.vararg,
            has_side_effect: self.has_side_effect,
            non_null_args: self.non_null_args,
        }
    }
}

/// The operator of an application.
#[derive(Debug, PartialEq, Eq)]
pub enum OpRef {
    /// An operator that the grammar names.
    Builtin(Builtin),
    /// A function that the registry holds.
    Function(Operator),
}

/// The functions that calls can name. Names are matched exactly.
pub struct Registry {
    table: Table<Operator>,
}

impl View for Registry {
    type V = Map<Seq<char>, Operator>;

    closed spec fn view(&self) -> Map<Seq<char>, Operator> {
        self.table@
    }
}

impl Registry {
    /// The registry without functions.
    pub fn new() -> (r: Registry)
        ensures
            r@ == Map::<Seq<char>, Operator>::empty(),
    {
        Registry { table: Table::new() }
    }

    /// Registers `op` under its name. A function registered before under
    /// that name is no longer found.
    pub fn register(&mut self, op: Operator)
        ensures
            final(self)@ == old(self)@.insert(op.name@, op),
    {
        let name = op.name.clone();
        self.table.insert(name.as_str(), op);
    }

    /// The function registered under `name`, if there is one.
    pub fn get_op(&self, name: &str) -> (r: Option<&Operator>)
        ensures
            match r {
                Some(op) => self@.contains_key(name@) && self@[name@] == *op,
                None => !self@.contains_key(name@),
            },
    {
        self.table.get(name)
    }
}

/// The values of the parameters, by name. The name is what follows the
/// sigil.
pub type ParamPool = Table<Value>;

/// A variable: its name and where it stands.
#[derive(Debug, PartialEq, Eq)]
pub struct Symbol {
    pub name: String,
    pub span: SourceSpan,
}

/// A node of the syntax tree.
#[derive(Debug, PartialEq, Eq)]
pub enum Expr {
    /// A literal, or the value of a parameter.
    Const { val: Value, span: SourceSpan },
    /// A variable, to be resolved when the tree is run. Building the tree
    /// leaves `tuple_pos` unset.
    Binding { var: Symbol, tuple_pos: Option<usize> },
    /// An operator applied to arguments.
    Apply { op: OpRef, args: Vec<Expr>, span: SourceSpan },
}

/// What an [`Expr`] holds, as mathematics.
pub enum ExprView {
    Const { val: ValueView, span: SourceSpan },
    Binding { name: Seq<char>, span: SourceSpan, tuple_pos: Option<usize> },
    Apply { op: OpRef, args: Seq<ExprView>, span: SourceSpan },
}

impl ExprView {
    /// The range of the source that the node was built from.
    pub open spec fn span(self) -> SourceSpan {
        match self {
            ExprView::Const { span, .. } => span,
            ExprView::Binding { span, .. } => span,
            ExprView::Apply { span, .. } => span,
        }
    }
}

/// What `e` holds, as mathematics.
pub open spec fn expr_view(e: Expr) -> ExprView
    decreases e,
{
    match e {
        Expr::Const { val, span } => ExprView::Const { val: val@, span },
        Expr::Binding { var, tuple_pos } => ExprView::Binding {
            name: var.name@,
            span: var.span,
            tuple_pos,
        },
        Expr::Apply { op, args, span } => ExprView::Apply {
            op,
            args: Seq::new(
                args@.len(),
                |i: int|
                    if 0 <= i < args@.len() {
                        expr_view(args@[i])
                    } else {
                        ExprView::Const { val: ValueView::Null, span }
                    },
            ),
            span,
        },
    }
}

impl View for Expr {
    type V = ExprView;

    open spec fn view(&self) -> ExprView {
        expr_view(*self)
    }
}

/// The views of a sequence of nodes.
pub open spec fn views(s: Seq<Expr>) -> Seq<ExprView> {
    Seq::new(s.len(), |i: int| s[i]@)
}

/// What a hook makes of the arguments of a call, as mathematics: from the
/// function called and the arguments as written to the arguments that the
/// call goes on with.
pub type Rewrite = spec_fn(Operator, Seq<ExprView>) -> Seq<ExprView>;

/// What a reader of floats makes of the digits of a literal, as
/// mathematics: the float that they write, if they write one.
pub type FloatOf = spec_fn(Seq<char>) -> Option<Float>;

/// What the two helpers of building a tree do, as mathematics. Building a
/// tree needs them for what the library does not do itself: a hook that the
/// functions of the registry run on the arguments of their calls, and a
/// reader of floats.
pub ghost struct Helpers {
    pub rewrite: Rewrite,
    pub float_of: FloatOf,
}

/// Whether `rewrite` says what `hook` returns, for every function and all
/// arguments.
pub open spec fn describes<F: Fn(&Operator, Vec<Expr>) -> Vec<Expr>>(
    hook: F,
    rewrite: Rewrite,
) -> bool {
    forall|op: Operator, args: Vec<Expr>, r: Vec<Expr>| #[trigger]
        hook.ensures((&op, args), r) ==> views(r@) == rewrite(op, views(args@))
}

/// Whether `float_of` says what `reader` returns, for all digits.
pub open spec fn reads<G: Fn(Vec<char>) -> Option<Float>>(reader: G, float_of: FloatOf) -> bool {
    forall|digits: Vec<char>, r: Option<Float>| #[trigger]
        reader.ensures((digits,), r) ==> r == float_of(digits@)
}

/// Whether `helpers` says what `hook` and `reader` do.
pub open spec fn serves<
    F: Fn(&Operator, Vec<Expr>) -> Vec<Expr>,
    G: Fn(Vec<char>) -> Option<Float>,
>(
    hook: F,
    reader: G,
    helpers: Helpers,
) -> bool {
    describes(hook, helpers.rewrite) && reads(reader, helpers.float_of)
}

/// Whether `hook` can be called on every function and all arguments.
pub open spec fn hook_is_total<F: Fn(&Operator, Vec<Expr>) -> Vec<Expr>>(hook: F) -> bool {
    forall|op: Operator, args: Vec<Expr>| #[trigger] hook.requires((&op, args))
}

/// Whether `hook` can be called on every function and all arguments, and
/// `reader` on all digits.
pub open spec fn total<
    F: Fn(&Operator, Vec<Expr>) -> Vec<Expr>,
    G: Fn(Vec<char>) -> Option<Float>,
>(
    hook: F,
    reader: G,
) -> bool {
    &&& hook_is_total(hook)
    &&& forall|digits: Vec<char>| #[trigger] reader.requires((digits,))
}

/// The hook that leaves the arguments as they are written.
pub fn keep_args(op: &Operator, args: Vec<Expr>) -> (r: Vec<Expr>)
    ensures
        r == args,
{
    args
}

impl Expr {
    /// The range of the source that the node was built from.
    pub fn span(&self) -> (r: SourceSpan)
        ensures
            r == self@.span(),
    {
        match self {
            Expr::Const { span, .. } => *span,
            Expr::Binding { var, .. } => var.span,
            Expr::Apply { span, .. } => *span,
        }
    }

    /// The application of `op` to `args`.
    pub fn apply(op: OpRef, args: Vec<Expr>, span: SourceSpan) -> (r: Expr)
        ensures
            r@ == (ExprView::Apply { op, args: views(args@), span }),
    {
        let r = Expr::Apply { op, args, span };
        assert(r@->Apply_args =~= views(args@));
        r
    }
}

/// Why no syntax tree could be built. Every error says where in the source
/// it arose.
#[derive(Debug, PartialEq, Eq)]
pub enum ParseError {
    /// The node does not have the shape of an expression.
    InvalidExpression(SourceSpan),
    /// The pool has no parameter of this name.
    ParamNotFound(String, SourceSpan),
    /// The text is no integer of 64 bits.
    BadIntLiteral(SourceSpan),
    /// The text is no float.
    BadFloatLiteral(SourceSpan),
    /// The escape names a number that is no character.
    InvalidUtf8Code(u32, SourceSpan),
    /// The text starts with a backslash and is no known escape.
    InvalidEscapeSequence(String, SourceSpan),
    /// The registry has no function of this name.
    FunctionNotFound(String, SourceSpan),
    /// The function of this name takes another number of arguments:
    /// `required` exactly, or `required` at least if `at_least` is set.
    WrongNumberOfArguments { name: String, span: SourceSpan, required: usize, at_least: bool },
}

/// What a [`ParseError`] holds, as mathematics.
pub enum ParseErrorView {
    InvalidExpression(SourceSpan),
    ParamNotFound(Seq<char>, SourceSpan),
    BadIntLiteral(SourceSpan),
    BadFloatLiteral(SourceSpan),
    InvalidUtf8Code(u32, SourceSpan),
    InvalidEscapeSequence(Seq<char>, SourceSpan),
    FunctionNotFound(Seq<char>, SourceSpan),
    WrongNumberOfArguments { name: Seq<char>, span: SourceSpan, required: usize, at_least: bool },
}

impl View for ParseError {
    type V = ParseErrorView;

    open spec fn view(&self) -> ParseErrorView {
        match self {
            ParseError::InvalidExpression(span) => ParseErrorView::InvalidExpression(*span),
            ParseError::ParamNotFound(name, span) => ParseErrorView::ParamNotFound(name@, *span),
            ParseError::BadIntLiteral(span) => ParseErrorView::BadIntLiteral(*span),
            ParseError::BadFloatLiteral(span) => ParseErrorView::BadFloatLiteral(*span),
            ParseError::InvalidUtf8Code(code, span) => ParseErrorView::InvalidUtf8Code(
                *code,
                *span,
            ),
            ParseError::InvalidEscapeSequence(text, span) => ParseErrorView::InvalidEscapeSequence(
                text@,
                *span,
            ),
            ParseError::FunctionNotFound(name, span) => ParseErrorView::FunctionNotFound(
                name@,
                *span,
            ),
            ParseError::WrongNumberOfArguments { name, span, required, at_least } =>
                ParseErrorView::WrongNumberOfArguments {
                    name: name@,
                    span: *span,
                    required: *required,
                    at_least: *at_least,
                },
        }
    }
}

impl ParseError {
    /// The place in the source that the error is about.
    pub fn span(&self) -> (r: SourceSpan)
        ensures
            r == self@.span(),
    {
        match self {
            ParseError::InvalidExpression(span) => *span,
            ParseError::ParamNotFound(_, span) => *span,
            ParseError::BadIntLiteral(span) => *span,
            ParseError::BadFloatLiteral(span) => *span,
            ParseError::InvalidUtf8Code(_, span) => *span,
            ParseError::InvalidEscapeSequence(_, span) => *span,
            ParseError::FunctionNotFound(_, span) => *span,
            ParseError::WrongNumberOfArguments { span, .. } => *span,
        }
    }
}

impl ParseErrorView {
    /// The place in the source that the error is about.
    pub open spec fn span(self) -> SourceSpan {
        match self {
            ParseErrorView::InvalidExpression(span) => span,
            ParseErrorView::ParamNotFound(_, span) => span,
            ParseErrorView::BadIntLiteral(span) => span,
            ParseErrorView::BadFloatLiteral(span) => span,
            ParseErrorView::InvalidUtf8Code(_, span) => span,
            ParseErrorView::InvalidEscapeSequence(_, span) => span,
            ParseErrorView::FunctionNotFound(_, span) => span,
            ParseErrorView::WrongNumberOfArguments { span, .. } => span,
        }
    }
}

/// What the result of building a tree holds, as mathematics.
pub open spec fn built(r: Result<Expr, ParseError>) -> Result<ExprView, ParseErrorView> {
    match r {
        Ok(e) => Ok(e@),
        Err(e) => Err(e@),
    }
}

} // verus!
