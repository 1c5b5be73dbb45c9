//! From the token tree to the syntax tree.

use crate::climb::{
    climb, in_source_order, infix, infix_view, lemma_tree_covers_operands, tree_of,
};
use crate::expr::{
    built, describes, hook_is_total, serves, total, views, Builtin, Expr, ExprView, Helpers,
    OpRef, Operator, ParamPool, ParseError, ParseErrorView, Registry, Symbol,
};
use crate::number::{
    decimal_literal, parse_decimal, radix_literal, strip, strip_separators, try_parse_int,
};
use crate::span::SourceSpan;
use crate::string_literal::{parse_string, string_value};
use crate::text::same_text;
use crate::token::{Pair, Rule};
use crate::value::{Float, Value, ValueView};
use vstd::prelude::*;
use vstd::string::StrSliceExecFns;

verus! {

/// The operator that an infix token stands for; `None` for a token that is
/// no infix operator.
pub open spec fn infix_op(rule: Rule) -> Option<Builtin> {
    match rule {
        Rule::OpAdd => Some(Builtin::Add),
        Rule::OpSub => Some(Builtin::Sub),
        Rule::OpMul => Some(Builtin::Mul),
        Rule::OpDiv => Some(Builtin::Div),
        Rule::OpMod => Some(Builtin::Mod),
        Rule::OpPow => Some(Builtin::Pow),
        Rule::OpEq => Some(Builtin::Eq),
        Rule::OpNe => Some(Builtin::Neq),
        Rule::OpGt => Some(Builtin::Gt),
        Rule::OpGe => Some(Builtin::Ge),
        Rule::OpLt => Some(Builtin::Lt),
        Rule::OpLe => Some(Builtin::Le),
        Rule::OpConcat => Some(Builtin::Concat),
        Rule::OpOr => Some(Builtin::Or),
        Rule::OpAnd => Some(Builtin::And),
        _ => None,
    }
}

/// Computes [`infix_op`].
pub fn infix_operator(rule: Rule) -> (r: Option<Builtin>)
    ensures
        r == infix_op(rule),
{
    match rule {
        Rule::OpAdd => Some(Builtin::Add),
        Rule::OpSub => Some(Builtin::Sub),
        Rule::OpMul => Some(Builtin::Mul),
        Rule::OpDiv => Some(Builtin::Div),
        Rule::OpMod => Some(Builtin::Mod),
        Rule::OpPow => Some(Builtin::Pow),
        Rule::OpEq => Some(Builtin::Eq),
        Rule::OpNe => Some(Builtin::Neq),
        Rule::OpGt => Some(Builtin::Gt),
        Rule::OpGe => Some(Builtin::Ge),
        Rule::OpLt => Some(Builtin::Lt),
        Rule::OpLe => Some(Builtin::Le),
        Rule::OpConcat => Some(Builtin::Concat),
        Rule::OpOr => Some(Builtin::Or),
        Rule::OpAnd => Some(Builtin::And),
        _ => None,
    }
}

/// What one step of folding a chain gives: the error of the left operand
/// if it has one, else that of the right operand, else an error at the
/// token if it is no infix operator, else the application of the operator
/// to both.
pub open spec fn infix_value(
    lhs: Result<ExprView, ParseErrorView>,
    op: Pair,
    rhs: Result<ExprView, ParseErrorView>,
) -> Result<ExprView, ParseErrorView> {
    match lhs {
        Err(e) => Err(e),
        Ok(left) => match rhs {
            Err(e) => Err(e),
            Ok(right) => match infix_op(op.rule) {
                None => Err(ParseErrorView::InvalidExpression(op.span)),
                Some(b) => Ok(infix_view(left, b, right)),
            },
        },
    }
}

/// Applies the infix operator of the token `op` to two operands that were
/// built before, or hands on the first error among them.
pub fn build_expr_infix(
    lhs: Result<Expr, ParseError>,
    op: &Pair,
    rhs: Result<Expr, ParseError>,
) -> (r: Result<Expr, ParseError>)
    ensures
        built(r) == infix_value(built(lhs), *op, built(rhs)),
{
    let left = match lhs {
        Ok(e) => e,
        Err(e) => {
            return Err(e);
        },
    };
    let right = match rhs {
        Ok(e) => e,
        Err(e) => {
            return Err(e);
        },
    };
    match infix_operator(op.rule) {
        Some(b) => Ok(infix(left, b, right)),
        None => Err(ParseError::InvalidExpression(op.span)),
    }
}

/// Whether the nodes inside an expression form a chain: operands at the
/// even places, infix operators at the odd ones, an operand first and last.
pub open spec fn is_chain(inner: Seq<Pair>) -> bool {
    &&& inner.len() % 2 == 1
    &&& forall|i: int|
        0 <= i < inner.len() / 2 ==> infix_op(#[trigger] inner[2 * i + 1].rule) is Some
}

/// The operators of a chain, in order.
pub open spec fn chain_ops(inner: Seq<Pair>) -> Seq<Builtin> {
    Seq::new((inner.len() / 2) as nat, |i: int| infix_op(inner[2 * i + 1].rule).unwrap())
}

/// What a parameter stands for: the value that the pool has under the name
/// that follows the sigil.
pub open spec fn param_value(text: Seq<char>, span: SourceSpan, pool: Map<Seq<char>, Value>)
    -> Result<ExprView, ParseErrorView> {
    if text.len() == 0 || text[0] != '$' {
        Err(ParseErrorView::InvalidExpression(span))
    } else if pool.contains_key(text.skip(1)) {
        Ok(ExprView::Const { val: pool[text.skip(1)]@, span })
    } else {
        Err(ParseErrorView::ParamNotFound(text.skip(1), span))
    }
}

/// What an integer literal stands for.
pub open spec fn int_value(literal: Option<i64>, span: SourceSpan) -> Result<
    ExprView,
    ParseErrorView,
> {
    match literal {
        Some(i) => Ok(ExprView::Const { val: ValueView::Int(i), span }),
        None => Err(ParseErrorView::BadIntLiteral(span)),
    }
}

/// What a call stands for, once its arguments are built: the function
/// must be registered under the name of `ident`; the hook then has its say
/// on the arguments, and the function must take as many as there are after
/// that.
pub open spec fn call_value(
    ident: Pair,
    args: Seq<ExprView>,
    span: SourceSpan,
    registry: Map<Seq<char>, Operator>,
    helpers: Helpers,
) -> Result<ExprView, ParseErrorView> {
    if !registry.contains_key(ident.text@) {
        Err(ParseErrorView::FunctionNotFound(ident.text@, ident.span))
    } else {
        let op = registry[ident.text@];
        counted_call(ident, op, (helpers.rewrite)(op, args), span)
    }
}

/// What a prefix operator and its operand stand for.
pub open spec fn prefix_value(
    op: Builtin,
    operand: Result<ExprView, ParseErrorView>,
    span: SourceSpan,
) -> Result<ExprView, ParseErrorView> {
    match operand {
        Ok(e) => Ok(ExprView::Apply { op: OpRef::Builtin(op), args: seq![e], span }),
        Err(e) => Err(e),
    }
}

/// What the first `k` nodes inside `parent` stand for, each taken as a
/// whole expression: their trees in order, or the first error.
pub open spec fn elements_value(
    parent: Pair,
    k: int,
    pool: Map<Seq<char>, Value>,
    registry: Map<Seq<char>, Operator>,
    helpers: Helpers,
) -> Result<Seq<ExprView>, ParseErrorView>
    decreases parent, 0int, k,
{
    if k <= 0 || k > parent.inner@.len() {
        Ok(Seq::empty())
    } else {
        match elements_value(parent, k - 1, pool, registry, helpers) {
            Err(e) => Err(e),
            Ok(before) => match expr_value(parent.inner@[k - 1], pool, registry, helpers) {
                Ok(e) => Ok(before.push(e)),
                Err(e) => Err(e),
            },
        }
    }
}

/// What the first `k` operands of the chain inside `parent` stand for:
/// their trees in order, or the first error.
pub open spec fn operands_value(
    parent: Pair,
    k: int,
    pool: Map<Seq<char>, Value>,
    registry: Map<Seq<char>, Operator>,
    helpers: Helpers,
) -> Result<Seq<ExprView>, ParseErrorView>
    decreases parent, 0int, k,
{
    if k <= 0 || 2 * (k - 1) >= parent.inner@.len() {
        Ok(Seq::empty())
    } else {
        match operands_value(parent, k - 1, pool, registry, helpers) {
            Err(e) => Err(e),
            Ok(before) => match unary_value(
                parent.inner@[2 * (k - 1)],
                pool,
                registry,
                helpers,
            ) {
                Ok(e) => Ok(before.push(e)),
                Err(e) => Err(e),
            },
        }
    }
}

/// What an expression node stands for: the tree of its chain of operands
/// and infix operators, or the error of the first operand that has one. A
/// node that is no expression, or whose inner nodes form no chain, is an
/// error at the node.
pub open spec fn expr_value(
    pair: Pair,
    pool: Map<Seq<char>, Value>,
    registry: Map<Seq<char>, Operator>,
    helpers: Helpers,
) -> Result<ExprView, ParseErrorView>
    decreases pair, 1int, 0int,
{
    if pair.rule != Rule::Expr || !is_chain(pair.inner@) {
        Err(ParseErrorView::InvalidExpression(pair.span))
    } else {
        match operands_value(
            pair,
            (pair.inner@.len() / 2 + 1) as int,
            pool,
            registry,
            helpers,
        ) {
            Err(e) => Err(e),
            Ok(leaves) => Ok(tree_of(leaves, chain_ops(pair.inner@))),
        }
    }
}

/// What one operand stands for. Its first inner node says what it is:
///  - a term: what that term stands for;
///  - a variable: a binding of the operand's text, at the variable;
///  - a parameter: its value from the pool;
///  - a minus or a negation: that operator applied to the second inner
///    node, over the whole operand;
///  - a literal: its value;
///  - a list: the list operator applied to the expressions inside;
///  - a call: the function applied to the expressions inside its second
///    inner node;
///  - a group: the expression inside, with that expression's own range.
/// Anything else is an error at the operand.
pub open spec fn unary_value(
    pair: Pair,
    pool: Map<Seq<char>, Value>,
    registry: Map<Seq<char>, Operator>,
    helpers: Helpers,
) -> Result<ExprView, ParseErrorView>
    decreases pair, 1int, 0int,
{
    let span = pair.span;
    if pair.inner@.len() == 0 {
        Err(ParseErrorView::InvalidExpression(span))
    } else {
        let p = pair.inner@[0];
        match p.rule {
            Rule::Term => unary_value(p, pool, registry, helpers),
            Rule::Var => Ok(ExprView::Binding { name: pair.text@, span: p.span, tuple_pos: None }),
            Rule::Param => param_value(pair.text@, span, pool),
            Rule::Minus => if pair.inner@.len() < 2 {
                Err(ParseErrorView::InvalidExpression(span))
            } else {
                prefix_value(
                    Builtin::Minus,
                    unary_value(pair.inner@[1], pool, registry, helpers),
                    span,
                )
            },
            Rule::Negate => if pair.inner@.len() < 2 {
                Err(ParseErrorView::InvalidExpression(span))
            } else {
                prefix_value(
                    Builtin::Negate,
                    unary_value(pair.inner@[1], pool, registry, helpers),
                    span,
                )
            },
            Rule::PosInt => int_value(decimal_literal(pair.text@), span),
            Rule::HexPosInt => int_value(radix_literal(pair.text@, 16), span),
            Rule::OctoPosInt => int_value(radix_literal(pair.text@, 8), span),
            Rule::BinPosInt => int_value(radix_literal(pair.text@, 2), span),
            Rule::DotFloat | Rule::SciFloat => match (helpers.float_of)(strip(pair.text@)) {
                Some(f) => Ok(ExprView::Const { val: ValueView::Float(f), span }),
                None => Err(ParseErrorView::BadFloatLiteral(span)),
            },
            Rule::Null => Ok(ExprView::Const { val: ValueView::Null, span }),
            Rule::Boolean => Ok(
                ExprView::Const { val: ValueView::Bool(pair.text@ == "true"@), span },
            ),
            Rule::QuotedString | Rule::SQuotedString | Rule::RawString => match string_value(p) {
                Ok(s) => Ok(ExprView::Const { val: ValueView::Str(s), span }),
                Err(e) => Err(e),
            },
            Rule::List | Rule::TxList => match elements_value(
                p,
                p.inner@.len() as int,
                pool,
                registry,
                helpers,
            ) {
                Ok(items) => Ok(
                    ExprView::Apply { op: OpRef::Builtin(Builtin::List), args: items, span },
                ),
                Err(e) => Err(e),
            },
            Rule::Apply => if p.inner@.len() < 2 {
                Err(ParseErrorView::InvalidExpression(span))
            } else {
                match elements_value(
                    p.inner@[1],
                    p.inner@[1].inner@.len() as int,
                    pool,
                    registry,
                    helpers,
                ) {
                    Ok(args) => call_value(p.inner@[0], args, span, registry, helpers),
                    Err(e) => Err(e),
                }
            },
            Rule::Grouping => if p.inner@.len() == 0 {
                Err(ParseErrorView::InvalidExpression(span))
            } else {
                expr_value(p.inner@[0], pool, registry, helpers)
            },
            _ => Err(ParseErrorView::InvalidExpression(span)),
        }
    }
}

/// An error among the first `k` elements is the error of the first `n`.
pub proof fn lemma_elements_error_stays(
    parent: Pair,
    k: int,
    n: int,
    pool: Map<Seq<char>, Value>,
    registry: Map<Seq<char>, Operator>,
    helpers: Helpers,
)
    requires
        0 <= k <= n <= parent.inner@.len(),
        elements_value(parent, k, pool, registry, helpers) is Err,
    ensures
        elements_value(parent, n, pool, registry, helpers) == elements_value(
            parent,
            k,
            pool,
            registry,
            helpers,
        ),
    decreases n - k,
{
    if k < n {
        lemma_elements_error_stays(parent, k, n - 1, pool, registry, helpers);
    }
}

/// An error among the first `k` operands is the error of the first `n`.
pub proof fn lemma_operands_error_stays(
    parent: Pair,
    k: int,
    n: int,
    pool: Map<Seq<char>, Value>,
    registry: Map<Seq<char>, Operator>,
    helpers: Helpers,
)
    requires
        0 <= k <= n,
        2 * (n - 1) < parent.inner@.len(),
        operands_value(parent, k, pool, registry, helpers) is Err,
    ensures
        operands_value(parent, n, pool, registry, helpers) == operands_value(
            parent,
            k,
            pool,
            registry,
            helpers,
        ),
    decreases n - k,
{
    if k < n {
        lemma_operands_error_stays(parent, k, n - 1, pool, registry, helpers);
    }
}

/// Whether `r` holds the trees, or the error, that `expected` describes.
pub open spec fn returns_trees(r: Result<Vec<Expr>, ParseError>, expected: Result<
    Seq<ExprView>,
    ParseErrorView,
>) -> bool {
    match expected {
        Ok(items) => r matches Ok(v) && views(v@) == items,
        Err(e) => r matches Err(f) && f@ == e,
    }
}

/// Builds the constant for a parameter.
fn build_param(text: &str, span: SourceSpan, pool: &ParamPool) -> (r: Result<Expr, ParseError>)
    ensures
        built(r) == param_value(text@, span, pool@),
{
    let len: usize = text.unicode_len();
    if len == 0 || text.get_char(0) != '$' {
        return Err(ParseError::InvalidExpression(span));
    }
    let name: &str = text.substring_char(1, len);
    assert(name@ =~= text@.skip(1));
    match pool.get(name) {
        Some(v) => Ok(Expr::Const { val: v.duplicate(), span }),
        None => Err(ParseError::ParamNotFound(name.to_owned(), span)),
    }
}

/// Builds the constant for an integer literal.
fn build_int(literal: Option<i64>, span: SourceSpan) -> (r: Result<Expr, ParseError>)
    ensures
        built(r) == int_value(literal, span),
{
    match literal {
        Some(i) => Ok(Expr::Const { val: Value::Int(i), span }),
        None => Err(ParseError::BadIntLiteral(span)),
    }
}

/// What a call stands for once the hook has had its say on the arguments:
/// the application of the function, if it takes that many arguments.
pub open spec fn counted_call(ident: Pair, op: Operator, args: Seq<ExprView>, span: SourceSpan)
    -> Result<ExprView, ParseErrorView> {
    if op.takes(args.len() as int) {
        Ok(ExprView::Apply { op: OpRef::Function(op), args, span })
    } else {
        Err(
            ParseErrorView::WrongNumberOfArguments {
                name: ident.text@,
                span,
                required: op.min_arity,
                at_least: op.vararg,
            },
        )
    }
}

/// Builds the call of `op` with the arguments that the hook returned.
pub fn finish_call(ident: &Pair, op: &Operator, args: Vec<Expr>, span: SourceSpan) -> (r: Result<
    Expr,
    ParseError,
>)
    ensures
        built(r) == counted_call(*ident, *op, views(args@), span),
{
    if op.accepts_count(args.len()) {
        Ok(Expr::apply(OpRef::Function(op.duplicate()), args, span))
    } else {
        Err(
            ParseError::WrongNumberOfArguments {
                name: ident.text.clone(),
                span,
                required: op.min_arity,
                at_least: op.vararg,
            },
        )
    }
}

/// Builds a call of the function that `ident` names.
fn build_call<F: Fn(&Operator, Vec<Expr>) -> Vec<Expr>>(
    ident: &Pair,
    args: Vec<Expr>,
    span: SourceSpan,
    registry: &Registry,
    hook: &F,
) -> (r: Result<Expr, ParseError>)
    requires
        hook_is_total(*hook),
    ensures
        forall|h: Helpers|
            describes(*hook, h.rewrite) ==> built(r) == #[trigger] call_value(
                *ident,
                views(args@),
                span,
                registry@,
                h,
            ),
{
    let op = match registry.get_op(ident.text.as_str()) {
        Some(op) => op,
        None => {
            return Err(ParseError::FunctionNotFound(ident.text.clone(), ident.span));
        },
    };
    assert(hook.requires((op, args)));
    let rewritten = hook(op, args);
    assert(hook.ensures((op, args), rewritten));
    finish_call(ident, op, rewritten, span)
}

/// Applies a prefix operator to an operand that was built before.
fn build_prefix(op: Builtin, operand: Result<Expr, ParseError>, span: SourceSpan) -> (r: Result<
    Expr,
    ParseError,
>)
    ensures
        built(r) == prefix_value(op, built(operand), span),
{
    match operand {
        Ok(e) => {
            let mut args: Vec<Expr> = Vec::new();
            args.push(e);
            assert(views(args@) =~= seq![e@]);
            Ok(Expr::apply(OpRef::Builtin(op), args, span))
        },
        Err(e) => Err(e),
    }
}

/// Builds every node inside `parent` as a whole expression.
#[verifier::loop_isolation(false)]
fn build_elements<
    F: Fn(&Operator, Vec<Expr>) -> Vec<Expr>,
    G: Fn(Vec<char>) -> Option<Float>,
>(
    parent: &Pair,
    pool: &ParamPool,
    registry: &Registry,
    hook: &F,
    read_float: &G,
) -> (r: Result<Vec<Expr>, ParseError>)
    requires
        total(*hook, *read_float),
    ensures
        forall|h: Helpers|
            serves(*hook, *read_float, h) ==> returns_trees(
                r,
                #[trigger] elements_value(
                    *parent,
                    parent.inner@.len() as int,
                    pool@,
                    registry@,
                    h,
                ),
            ),
    decreases *parent, 0int, 0int,
{
    let mut collected: Vec<Expr> = Vec::new();
    let mut i: usize = 0;
    assert(views(collected@) =~= Seq::<ExprView>::empty());
    while i < parent.inner.len()
        invariant
            i <= parent.inner.len(),
            forall|h: Helpers|
                serves(*hook, *read_float, h) ==> #[trigger] elements_value(
                    *parent,
                    i as int,
                    pool@,
                    registry@,
                    h,
                ) == Ok::<Seq<ExprView>, ParseErrorView>(views(collected@)),
        decreases parent.inner.len() - i,
    {
        let ghost before = views(collected@);
        match build_expr(&parent.inner[i], pool, registry, hook, read_float) {
            Ok(e) => {
                collected.push(e);
                assert(views(collected@) =~= before.push(e@));
                assert forall|h: Helpers| serves(*hook, *read_float, h) implies #[trigger] elements_value(
                    *parent,
                    i + 1,
                    pool@,
                    registry@,
                    h,
                ) == Ok::<Seq<ExprView>, ParseErrorView>(views(collected@)) by {
                    assert(elements_value(*parent, i as int, pool@, registry@, h) == Ok::<
                        Seq<ExprView>,
                        ParseErrorView,
                    >(before));
                    assert(expr_value(parent.inner@[i as int], pool@, registry@, h) == Ok::<
                        ExprView,
                        ParseErrorView,
                    >(e@));
                }
            },
            Err(e) => {
                assert forall|h: Helpers| serves(*hook, *read_float, h) implies returns_trees(
                    Err(e),
                    #[trigger] elements_value(
                        *parent,
                        parent.inner@.len() as int,
                        pool@,
                        registry@,
                        h,
                    ),
                ) by {
                    assert(elements_value(*parent, i as int, pool@, registry@, h) == Ok::<
                        Seq<ExprView>,
                        ParseErrorView,
                    >(before));
                    assert(expr_value(parent.inner@[i as int], pool@, registry@, h) == Err::<
                        ExprView,
                        ParseErrorView,
                    >(e@));
                    lemma_elements_error_stays(
                        *parent,
                        i + 1,
                        parent.inner@.len() as int,
                        pool@,
                        registry@,
                        h,
                    );
                }
                return Err(e);
            },
        }
        i += 1;
    }
    Ok(collected)
}

/// Builds the tree of an expression node. `hook` is called on the
/// arguments of every call of a registered function.
#[verifier::loop_isolation(false)]
pub fn build_expr<
    F: Fn(&Operator, Vec<Expr>) -> Vec<Expr>,
    G: Fn(Vec<char>) -> Option<Float>,
>(
    pair: &Pair,
    pool: &ParamPool,
    registry: &Registry,
    hook: &F,
    read_float: &G,
) -> (r: Result<Expr, ParseError>)
    requires
        total(*hook, *read_float),
    ensures
        forall|h: Helpers|
            serves(*hook, *read_float, h) ==> built(r) == #[trigger] expr_value(
                *pair,
                pool@,
                registry@,
                h,
            ),
    decreases *pair, 1int, 0int,
{
    let n: usize = pair.inner.len();
    if pair.rule != Rule::Expr || n % 2 == 0 {
        return Err(ParseError::InvalidExpression(pair.span));
    }
    let count: usize = n / 2;
    let mut ops: Vec<Builtin> = Vec::new();
    let mut i: usize = 0;
    while i < count
        invariant
            i <= count,
            ops@.len() == i,
            forall|j: int| 0 <= j < i ==> infix_op(#[trigger] pair.inner@[2 * j + 1].rule) == Some(
                ops@[j],
            ),
        decreases count - i,
    {
        match infix_operator(pair.inner[2 * i + 1].rule) {
            Some(b) => ops.push(b),
            None => {
                return Err(ParseError::InvalidExpression(pair.span));
            },
        }
        i += 1;
    }
    assert(is_chain(pair.inner@));
    assert(ops@ =~= chain_ops(pair.inner@));
    let mut leaves: Vec<Expr> = Vec::new();
    let mut k: usize = 0;
    assert(views(leaves@) =~= Seq::<ExprView>::empty());
    while k <= count
        invariant
            k <= count + 1,
            leaves@.len() == k,
            forall|h: Helpers|
                serves(*hook, *read_float, h) ==> #[trigger] operands_value(
                    *pair,
                    k as int,
                    pool@,
                    registry@,
                    h,
                ) == Ok::<Seq<ExprView>, ParseErrorView>(views(leaves@)),
        decreases count + 1 - k,
    {
        let ghost before = views(leaves@);
        match build_unary(&pair.inner[2 * k], pool, registry, hook, read_float) {
            Ok(e) => {
                leaves.push(e);
                assert(views(leaves@) =~= before.push(e@));
                assert forall|h: Helpers| serves(*hook, *read_float, h) implies #[trigger] operands_value(
                    *pair,
                    k + 1,
                    pool@,
                    registry@,
                    h,
                ) == Ok::<Seq<ExprView>, ParseErrorView>(views(leaves@)) by {
                    assert(operands_value(*pair, k as int, pool@, registry@, h) == Ok::<
                        Seq<ExprView>,
                        ParseErrorView,
                    >(before));
                    assert(unary_value(pair.inner@[2 * k], pool@, registry@, h) == Ok::<
                        ExprView,
                        ParseErrorView,
                    >(e@));
                }
            },
            Err(e) => {
                assert forall|h: Helpers| serves(*hook, *read_float, h) implies built(Err(e))
                    == #[trigger] expr_value(*pair, pool@, registry@, h) by {
                    assert(operands_value(*pair, k as int, pool@, registry@, h) == Ok::<
                        Seq<ExprView>,
                        ParseErrorView,
                    >(before));
                    assert(unary_value(pair.inner@[2 * k], pool@, registry@, h) == Err::<
                        ExprView,
                        ParseErrorView,
                    >(e@));
                    lemma_operands_error_stays(*pair, k + 1, count + 1, pool@, registry@, h);
                }
                return Err(e);
            },
        }
        k += 1;
    }
    let r = climb(leaves, &ops);
    assert forall|h: Helpers| serves(*hook, *read_float, h) implies built(Ok(r)) == #[trigger] expr_value(
        *pair,
        pool@,
        registry@,
        h,
    ) by {
        assert(operands_value(*pair, count + 1, pool@, registry@, h) == Ok::<
            Seq<ExprView>,
            ParseErrorView,
        >(views(leaves@)));
    }
    Ok(r)
}

/// Builds the tree of one operand. `hook` is called on the arguments of
/// every call of a registered function.
pub fn build_unary<
    F: Fn(&Operator, Vec<Expr>) -> Vec<Expr>,
    G: Fn(Vec<char>) -> Option<Float>,
>(
    pair: &Pair,
    pool: &ParamPool,
    registry: &Registry,
    hook: &F,
    read_float: &G,
) -> (r: Result<Expr, ParseError>)
    requires
        total(*hook, *read_float),
    ensures
        forall|h: Helpers|
            serves(*hook, *read_float, h) ==> built(r) == #[trigger] unary_value(
                *pair,
                pool@,
                registry@,
                h,
            ),
    decreases *pair, 1int, 0int,
{
    let span = pair.span;
    if pair.inner.len() == 0 {
        return Err(ParseError::InvalidExpression(span));
    }
    let p = &pair.inner[0];
    let s: &str = pair.text.as_str();
    match p.rule {
        Rule::Term => {
            let r = build_unary(p, pool, registry, hook, read_float);
            assert forall|h: Helpers| serves(*hook, *read_float, h) implies built(r)
                == #[trigger] unary_value(*pair, pool@, registry@, h) by {
                assert(built(r) == unary_value(*p, pool@, registry@, h));
            }
            r
        },
        Rule::Var => Ok(
            Expr::Binding { var: Symbol { name: pair.text.clone(), span: p.span }, tuple_pos: None },
        ),
        Rule::Param => build_param(s, span, pool),
        Rule::Minus => {
            if pair.inner.len() < 2 {
                return Err(ParseError::InvalidExpression(span));
            }
            let operand = build_unary(&pair.inner[1], pool, registry, hook, read_float);
            let r = build_prefix(Builtin::Minus, operand, span);
            assert forall|h: Helpers| serves(*hook, *read_float, h) implies built(r)
                == #[trigger] unary_value(*pair, pool@, registry@, h) by {
                assert(built(operand) == unary_value(pair.inner@[1], pool@, registry@, h));
            }
            r
        },
        Rule::Negate => {
            if pair.inner.len() < 2 {
                return Err(ParseError::InvalidExpression(span));
            }
            let operand = build_unary(&pair.inner[1], pool, registry, hook, read_float);
            let r = build_prefix(Builtin::Negate, operand, span);
            assert forall|h: Helpers| serves(*hook, *read_float, h) implies built(r)
                == #[trigger] unary_value(*pair, pool@, registry@, h) by {
                assert(built(operand) == unary_value(pair.inner@[1], pool@, registry@, h));
            }
            r
        },
        Rule::PosInt => build_int(parse_decimal(s), span),
        Rule::HexPosInt => build_int(try_parse_int(s, 16), span),
        Rule::OctoPosInt => build_int(try_parse_int(s, 8), span),
        Rule::BinPosInt => build_int(try_parse_int(s, 2), span),
        Rule::DotFloat | Rule::SciFloat => {
            let digits = strip_separators(s);
            assert(read_float.requires((digits,)));
            match read_float(digits) {
                Some(f) => Ok(Expr::Const { val: Value::Float(f), span }),
                None => Err(ParseError::BadFloatLiteral(span)),
            }
        },
        Rule::Null => Ok(Expr::Const { val: Value::Null, span }),
        Rule::Boolean => Ok(Expr::Const { val: Value::Bool(same_text(s, "true")), span }),
        Rule::QuotedString | Rule::SQuotedString | Rule::RawString => match parse_string(p) {
            Ok(t) => Ok(Expr::Const { val: Value::Str(t), span }),
            Err(e) => Err(e),
        },
        Rule::List | Rule::TxList => {
            let built_items = build_elements(p, pool, registry, hook, read_float);
            let r = match built_items {
                Ok(items) => Ok(Expr::apply(OpRef::Builtin(Builtin::List), items, span)),
                Err(e) => Err(e),
            };
            assert forall|h: Helpers| serves(*hook, *read_float, h) implies built(r)
                == #[trigger] unary_value(*pair, pool@, registry@, h) by {
                assert(returns_trees(
                    built_items,
                    elements_value(*p, p.inner@.len() as int, pool@, registry@, h),
                ));
            }
            r
        },
        Rule::Apply => {
            if p.inner.len() < 2 {
                return Err(ParseError::InvalidExpression(span));
            }
            let built_args = build_elements(&p.inner[1], pool, registry, hook, read_float);
            let r = match built_args {
                Ok(args) => build_call(&p.inner[0], args, span, registry, hook),
                Err(e) => Err(e),
            };
            assert forall|h: Helpers| serves(*hook, *read_float, h) implies built(r)
                == #[trigger] unary_value(*pair, pool@, registry@, h) by {
                let expected = elements_value(
                    p.inner@[1],
                    p.inner@[1].inner@.len() as int,
                    pool@,
                    registry@,
                    h,
                );
                assert(returns_trees(built_args, expected));
                if expected is Ok {
                    assert(built(r) == call_value(
                        p.inner@[0],
                        expected->Ok_0,
                        span,
                        registry@,
                        h,
                    ));
                }
            }
            r
        },
        Rule::Grouping => {
            if p.inner.len() == 0 {
                return Err(ParseError::InvalidExpression(span));
            }
            let r = build_expr(&p.inner[0], pool, registry, hook, read_float);
            assert forall|h: Helpers| serves(*hook, *read_float, h) implies built(r)
                == #[trigger] unary_value(*pair, pool@, registry@, h) by {
                assert(built(r) == expr_value(p.inner@[0], pool@, registry@, h));
            }
            r
        },
        _ => Err(ParseError::InvalidExpression(span)),
    }
}

/// A call of a registered function is built if and only if the function
/// takes as many arguments as the call has once the hook has had its say:
/// exactly `min_arity`, or `min_arity` or more for a variadic function. Every
/// other call is refused for its number of arguments, and the error names the
/// function, the call and the number required.
pub proof fn lemma_arity_is_enforced(
    ident: Pair,
    args: Seq<ExprView>,
    span: SourceSpan,
    registry: Map<Seq<char>, Operator>,
    helpers: Helpers,
)
    requires
        registry.contains_key(ident.text@),
    ensures
        ({
            let op = registry[ident.text@];
            let count = (helpers.rewrite)(op, args).len() as int;
            let exact = if op.vararg {
                op.min_arity <= count
            } else {
                op.min_arity == count
            };
            match call_value(ident, args, span, registry, helpers) {
                Ok(e) => exact && e == (ExprView::Apply {
                    op: OpRef::Function(op),
                    args: (helpers.rewrite)(op, args),
                    span,
                }),
                Err(e) => !exact && e == (ParseErrorView::WrongNumberOfArguments {
                    name: ident.text@,
                    span,
                    required: op.min_arity,
                    at_least: op.vararg,
                }),
            }
        }),
{
}

/// An expression whose operands stand in source order covers the source
/// from the start of its first operand to the end of its last.
pub proof fn lemma_expression_covers_operands(
    pair: Pair,
    pool: Map<Seq<char>, Value>,
    registry: Map<Seq<char>, Operator>,
    helpers: Helpers,
)
    requires
        expr_value(pair, pool, registry, helpers) is Ok,
        in_source_order(
            operands_value(pair, (pair.inner@.len() / 2 + 1) as int, pool, registry, helpers)->Ok_0,
        ),
    ensures
        ({
            let leaves = operands_value(
                pair,
                (pair.inner@.len() / 2 + 1) as int,
                pool,
                registry,
                helpers,
            )->Ok_0;
            let e = expr_value(pair, pool, registry, helpers)->Ok_0;
            &&& leaves.len() == pair.inner@.len() / 2 + 1
            &&& e.span().0 == leaves.first().span().0
            &&& e.span().end() == leaves.last().span().end()
        }),
{
    let n = (pair.inner@.len() / 2 + 1) as int;
    lemma_operands_count(pair, n, pool, registry, helpers);
    let leaves = operands_value(pair, n, pool, registry, helpers)->Ok_0;
    lemma_tree_covers_operands(leaves, chain_ops(pair.inner@), 0, n - 1);
}

/// The first `k` operands of a chain, if all of them can be built, are `k`
/// trees.
pub proof fn lemma_operands_count(
    parent: Pair,
    k: int,
    pool: Map<Seq<char>, Value>,
    registry: Map<Seq<char>, Operator>,
    helpers: Helpers,
)
    requires
        0 <= k,
        2 * (k - 1) < parent.inner@.len(),
        operands_value(parent, k, pool, registry, helpers) is Ok,
    ensures
        operands_value(parent, k, pool, registry, helpers)->Ok_0.len() == k,
    decreases k,
{
    if k > 0 {
        lemma_operands_count(parent, k - 1, pool, registry, helpers);
    }
}

} // verus!
