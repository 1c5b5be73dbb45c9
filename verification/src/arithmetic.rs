//! The arithmetic operators: which operands they take, what they give on
//! integers, and which floating-point operation they ask for elsewhere.

use crate::expr::Operator;
use crate::value::{Float, Value};
use vstd::prelude::*;

verus! {

/// A number as an operator receives it: not yet converted.
#[derive(Clone, Copy, Debug, PartialEq, Eq)]
pub enum Number {
    Int(i64),
    Float(Float),
}

/// The floating-point operations on two operands.
#[derive(Clone, Copy, Debug, PartialEq, Eq)]
pub enum FloatOp {
    Add,
    Sub,
    Mul,
    Div,
    Pow,
}

/// What an operator makes of its operands.
#[derive(Debug, PartialEq, Eq)]
pub enum Outcome {
    /// The result itself.
    Value(Value),
    /// The result is the float that `op` gives on the two operands, each
    /// integer among them converted to a float first. The library leaves
    /// that computation to its caller.
    Float { op: FloatOp, left: Number, right: Number },
}

/// Why an operator could not be applied.
#[derive(Debug, PartialEq, Eq)]
pub enum EvalError {
    /// The operator with this name takes no operands of these types. The
    /// values are the operands as they were passed.
    OpTypeMismatch(String, Vec<Value>),
}

/// The name of addition.
pub const NAME_OP_ADD: &'static str = "+";

/// The name of subtraction.
pub const NAME_OP_SUB: &'static str = "-";

/// The name of multiplication.
pub const NAME_OP_MUL: &'static str = "*";

/// The name of division.
pub const NAME_OP_DIV: &'static str = "/";

/// The name of the remainder.
pub const NAME_OP_MOD: &'static str = "%";

/// The name of exponentiation.
pub const NAME_OP_POW: &'static str = "**";

/// The name of the negation of a number. It differs from the name of
/// subtraction.
pub const NAME_OP_MINUS: &'static str = "--";

/// The integer of 64 bits that equals `n` modulo 2^64.
pub open spec fn wrapped(n: int) -> i64 {
    let m: int = n % 0x1_0000_0000_0000_0000;
    if m > i64::MAX {
        (m - 0x1_0000_0000_0000_0000) as i64
    } else {
        m as i64
    }
}

/// The remainder of `l` by `r` that has the sign of `l`.
pub open spec fn truncated_rem(l: int, r: int) -> int {
    let d: int = if r < 0 {
        -r
    } else {
        r
    };
    if l >= 0 {
        l % d
    } else {
        -((-l) % d)
    }
}

/// The number that `v` holds, if it holds one.
pub open spec fn number_of(v: Value) -> Option<Number> {
    match v {
        Value::Int(i) => Some(Number::Int(i)),
        Value::Float(f) => Some(Number::Float(f)),
        _ => None,
    }
}

/// Whether `e` reports that the operator `name` was given `values`.
pub open spec fn is_mismatch(e: EvalError, name: Seq<char>, values: Seq<Value>) -> bool {
    e matches EvalError::OpTypeMismatch(n, v) && n@ == name && v@ == values
}

/// What an operator gives that computes integers exactly and everything
/// else in floating point: `exact` on two integers, the floating-point
/// operation on every other pair of numbers, nothing where an operand is
/// no number.
pub open spec fn promoting(op: FloatOp, exact: spec_fn(int, int) -> int, left: Value, right: Value)
    -> Option<Outcome> {
    match (number_of(left), number_of(right)) {
        (Some(Number::Int(l)), Some(Number::Int(r))) => Some(
            Outcome::Value(Value::Int(wrapped(exact(l as int, r as int)))),
        ),
        (Some(l), Some(r)) => Some(Outcome::Float { op, left: l, right: r }),
        _ => None,
    }
}

/// What an operator gives that always computes in floating point.
pub open spec fn floating(op: FloatOp, left: Value, right: Value) -> Option<Outcome> {
    match (number_of(left), number_of(right)) {
        (Some(l), Some(r)) => Some(Outcome::Float { op, left: l, right: r }),
        _ => None,
    }
}

/// Whether `r` is what an operator named `name` returns on `left` and
/// `right`, given `expected`: the outcome, or a type mismatch that carries
/// both operands unchanged.
pub open spec fn returns_binary(
    r: Result<Outcome, EvalError>,
    expected: Option<Outcome>,
    name: Seq<char>,
    left: Value,
    right: Value,
) -> bool {
    match expected {
        Some(o) => r == Ok::<Outcome, EvalError>(o),
        None => r matches Err(e) && is_mismatch(e, name, seq![left, right]),
    }
}

/// The number in `v`, if there is one.
pub fn as_number(v: &Value) -> (r: Option<Number>)
    ensures
        r == number_of(*v),
{
    match v {
        Value::Int(i) => Some(Number::Int(*i)),
        Value::Float(f) => Some(Number::Float(*f)),
        _ => None,
    }
}

/// The error for operands of the wrong types.
fn mismatch_two(name: &str, left: Value, right: Value) -> (e: EvalError)
    ensures
        is_mismatch(e, name@, seq![left, right]),
{
    let mut values: Vec<Value> = Vec::new();
    values.push(left);
    values.push(right);
    assert(values@ =~= seq![left, right]);
    EvalError::OpTypeMismatch(name.to_owned(), values)
}

/// What every operator offers: how many operands it takes, whether it acts
/// on anything but its result, its name, whether it must be kept from null
/// operands, and its evaluation.
pub trait Op {
    /// The number of operands, `None` for an operator that takes any number.
    spec fn spec_arity(&self) -> Option<usize>;

    /// The name by which the operator is found and reported.
    spec fn spec_name(&self) -> Seq<char>;

    /// Whether evaluating the operator does more than give a result.
    spec fn spec_has_side_effect(&self) -> bool;

    /// Whether the operator must be kept from null operands.
    spec fn spec_non_null_args(&self) -> bool;

    /// The operand lists on which the operator can be evaluated.
    spec fn accepts(&self, args: Seq<Value>) -> bool;

    /// What the operator makes of operands that it accepts; `None` where
    /// their types are not among those it supports.
    spec fn outcome_of(&self, args: Seq<Value>) -> Option<Outcome>;

    /// The number of operands, `None` for an operator that takes any number.
    fn arity(&self) -> (r: Option<usize>)
        ensures
            r == self.spec_arity(),
    ;

    /// Whether evaluating the operator does more than give a result.
    fn has_side_effect(&self) -> (r: bool)
        ensures
            r == self.spec_has_side_effect(),
    ;

    /// The name by which the operator is found and reported.
    fn name(&self) -> (r: &str)
        ensures
            r@ == self.spec_name(),
    ;

    /// Whether the operator must be kept from null operands.
    fn non_null_args(&self) -> (r: bool)
        ensures
            r == self.spec_non_null_args(),
    ;

    /// Evaluates the operator on a list of operands. Operands of types
    /// that the operator does not take are handed back in the error, as they
    /// came.
    fn eval(&self, args: Vec<Value>) -> (r: Result<Outcome, EvalError>)
        requires
            self.accepts(args@),
        ensures
            match self.outcome_of(args@) {
                Some(o) => r == Ok::<Outcome, EvalError>(o),
                None => r matches Err(e) && is_mismatch(e, self.spec_name(), args@),
            },
    ;
}

/// What a registry is to know of an operator: its name, the number of its
/// operands, or that it takes any number, and what it says of side effects
/// and null operands.
pub open spec fn description<O: Op>(op: O, d: Operator) -> bool {
    &&& d.name@ == op.spec_name()
    &&& d.vararg == (op.spec_arity() is None)
    &&& d.min_arity == match op.spec_arity() {
        Some(n) => n,
        None => 0,
    }
    &&& d.has_side_effect == op.spec_has_side_effect()
    &&& d.non_null_args == op.spec_non_null_args()
}

/// Describes an operator for a registry.
pub fn describe<O: Op>(op: &O) -> (d: Operator)
    ensures
        description(*op, d),
{
    let arity = op.arity();
    Operator {
        name: op.name().to_owned(),
        min_arity: match arity {
            Some(n) => n,
            None => 0,
        },
        vararg: arity.is_none(),
        has_side_effect: op.has_side_effect(),
        non_null_args: op.non_null_args(),
    }
}

/// Takes the two operands out of an operand list.
fn extract_two_args(args: Vec<Value>) -> (r: (Value, Value))
    requires
        args@.len() == 2,
    ensures
        r.0 == args@[0],
        r.1 == args@[1],
{
    let mut args = args;
    let right = args.pop().unwrap();
    let left = args.pop().unwrap();
    (left, right)
}

/// Addition.
pub struct OpAdd;

impl OpAdd {
    /// The sum of two integers, wrapped to 64 bits; the floating-point sum
    /// of any other two numbers.
    pub open spec fn outcome(left: Value, right: Value) -> Option<Outcome> {
        promoting(FloatOp::Add, |l: int, r: int| l + r, left, right)
    }

    /// Evaluates the operator on two operands, neither of which is to be
    /// null. Operands of types that the operator does not take are handed
    /// back in the error, as they came.
    pub fn eval_two_non_null(&self, left: Value, right: Value) -> (r: Result<Outcome, EvalError>)
        ensures
            returns_binary(r, Self::outcome(left, right), "+"@, left, right),
    {
        match (as_number(&left), as_number(&right)) {
            (Some(Number::Int(l)), Some(Number::Int(r))) => Ok(
                Outcome::Value(Value::Int(l.wrapping_add(r))),
            ),
            (Some(l), Some(r)) => Ok(Outcome::Float { op: FloatOp::Add, left: l, right: r }),
            _ => Err(mismatch_two(NAME_OP_ADD, left, right)),
        }
    }
}

impl Op for OpAdd {
    open spec fn spec_arity(&self) -> Option<usize> {
        Some(2usize)
    }

    open spec fn spec_name(&self) -> Seq<char> {
        "+"@
    }

    open spec fn spec_has_side_effect(&self) -> bool {
        false
    }

    open spec fn spec_non_null_args(&self) -> bool {
        true
    }

    open spec fn accepts(&self, args: Seq<Value>) -> bool {
        args.len() == 2
    }

    open spec fn outcome_of(&self, args: Seq<Value>) -> Option<Outcome> {
        Self::outcome(args[0], args[1])
    }

    fn arity(&self) -> (r: Option<usize>) {
        Some(2)
    }

    fn has_side_effect(&self) -> (r: bool) {
        false
    }

    fn name(&self) -> (r: &str) {
        NAME_OP_ADD
    }

    fn non_null_args(&self) -> (r: bool) {
        true
    }

    fn eval(&self, args: Vec<Value>) -> (r: Result<Outcome, EvalError>) {
        let ghost given = args@;
        let (left, right) = extract_two_args(args);
        assert(given =~= seq![left, right]);
        self.eval_two_non_null(left, right)
    }
}

/// Subtraction.
pub struct OpSub;

impl OpSub {
    /// The difference of two integers, wrapped to 64 bits; the floating-point
    /// difference of any other two numbers.
    pub open spec fn outcome(left: Value, right: Value) -> Option<Outcome> {
        promoting(FloatOp::Sub, |l: int, r: int| l - r, left, right)
    }

    /// Evaluates the operator on two operands, neither of which is to be
    /// null. Operands of types that the operator does not take are handed
    /// back in the error, as they came.
    pub fn eval_two_non_null(&self, left: Value, right: Value) -> (r: Result<Outcome, EvalError>)
        ensures
            returns_binary(r, Self::outcome(left, right), "-"@, left, right),
    {
        match (as_number(&left), as_number(&right)) {
            (Some(Number::Int(l)), Some(Number::Int(r))) => Ok(
                Outcome::Value(Value::Int(l.wrapping_sub(r))),
            ),
            (Some(l), Some(r)) => Ok(Outcome::Float { op: FloatOp::Sub, left: l, right: r }),
            _ => Err(mismatch_two(NAME_OP_SUB, left, right)),
        }
    }
}

impl Op for OpSub {
    open spec fn spec_arity(&self) -> Option<usize> {
        Some(2usize)
    }

    open spec fn spec_name(&self) -> Seq<char> {
        "-"@
    }

    open spec fn spec_has_side_effect(&self) -> bool {
        false
    }

    open spec fn spec_non_null_args(&self) -> bool {
        true
    }

    open spec fn accepts(&self, args: Seq<Value>) -> bool {
        args.len() == 2
    }

    open spec fn outcome_of(&self, args: Seq<Value>) -> Option<Outcome> {
        Self::outcome(args[0], args[1])
    }

    fn arity(&self) -> (r: Option<usize>) {
        Some(2)
    }

    fn has_side_effect(&self) -> (r: bool) {
        false
    }

    fn name(&self) -> (r: &str) {
        NAME_OP_SUB
    }

    fn non_null_args(&self) -> (r: bool) {
        true
    }

    fn eval(&self, args: Vec<Value>) -> (r: Result<Outcome, EvalError>) {
        let ghost given = args@;
        let (left, right) = extract_two_args(args);
        assert(given =~= seq![left, right]);
        self.eval_two_non_null(left, right)
    }
}

/// Multiplication.
pub struct OpMul;

impl OpMul {
    /// The product of two integers, wrapped to 64 bits; the floating-point
    /// product of any other two numbers.
    pub open spec fn outcome(left: Value, right: Value) -> Option<Outcome> {
        promoting(FloatOp::Mul, |l: int, r: int| l * r, left, right)
    }

    /// Evaluates the operator on two operands, neither of which is to be
    /// null. Operands of types that the operator does not take are handed
    /// back in the error, as they came.
    pub fn eval_two_non_null(&self, left: Value, right: Value) -> (r: Result<Outcome, EvalError>)
        ensures
            returns_binary(r, Self::outcome(left, right), "*"@, left, right),
    {
        match (as_number(&left), as_number(&right)) {
            (Some(Number::Int(l)), Some(Number::Int(r))) => Ok(
                Outcome::Value(Value::Int(l.wrapping_mul(r))),
            ),
            (Some(l), Some(r)) => Ok(Outcome::Float { op: FloatOp::Mul, left: l, right: r }),
            _ => Err(mismatch_two(NAME_OP_MUL, left, right)),
        }
    }
}

impl Op for OpMul {
    open spec fn spec_arity(&self) -> Option<usize> {
        Some(2usize)
    }

    open spec fn spec_name(&self) -> Seq<char> {
        "*"@
    }

    open spec fn spec_has_side_effect(&self) -> bool {
        false
    }

    open spec fn spec_non_null_args(&self) -> bool {
        true
    }

    open spec fn accepts(&self, args: Seq<Value>) -> bool {
        args.len() == 2
    }

    open spec fn outcome_of(&self, args: Seq<Value>) -> Option<Outcome> {
        Self::outcome(args[0], args[1])
    }

    fn arity(&self) -> (r: Option<usize>) {
        Some(2)
    }

    fn has_side_effect(&self) -> (r: bool) {
        false
    }

    fn name(&self) -> (r: &str) {
        NAME_OP_MUL
    }

    fn non_null_args(&self) -> (r: bool) {
        true
    }

    fn eval(&self, args: Vec<Value>) -> (r: Result<Outcome, EvalError>) {
        let ghost given = args@;
        let (left, right) = extract_two_args(args);
        assert(given =~= seq![left, right]);
        self.eval_two_non_null(left, right)
    }
}

/// Division.
pub struct OpDiv;

impl OpDiv {
    /// The floating-point quotient of two numbers, also of two integers.
    pub open spec fn outcome(left: Value, right: Value) -> Option<Outcome> {
        floating(FloatOp::Div, left, right)
    }

    /// Evaluates the operator on two operands, neither of which is to be
    /// null. Operands of types that the operator does not take are handed
    /// back in the error, as they came.
    pub fn eval_two_non_null(&self, left: Value, right: Value) -> (r: Result<Outcome, EvalError>)
        ensures
            returns_binary(r, Self::outcome(left, right), "/"@, left, right),
    {
        match (as_number(&left), as_number(&right)) {
            (Some(l), Some(r)) => Ok(Outcome::Float { op: FloatOp::Div, left: l, right: r }),
            _ => Err(mismatch_two(NAME_OP_DIV, left, right)),
        }
    }
}

impl Op for OpDiv {
    open spec fn spec_arity(&self) -> Option<usize> {
        Some(2usize)
    }

    open spec fn spec_name(&self) -> Seq<char> {
        "/"@
    }

    open spec fn spec_has_side_effect(&self) -> bool {
        false
    }

    open spec fn spec_non_null_args(&self) -> bool {
        true
    }

    open spec fn accepts(&self, args: Seq<Value>) -> bool {
        args.len() == 2
    }

    open spec fn outcome_of(&self, args: Seq<Value>) -> Option<Outcome> {
        Self::outcome(args[0], args[1])
    }

    fn arity(&self) -> (r: Option<usize>) {
        Some(2)
    }

    fn has_side_effect(&self) -> (r: bool) {
        false
    }

    fn name(&self) -> (r: &str) {
        NAME_OP_DIV
    }

    fn non_null_args(&self) -> (r: bool) {
        true
    }

    fn eval(&self, args: Vec<Value>) -> (r: Result<Outcome, EvalError>) {
        let ghost given = args@;
        let (left, right) = extract_two_args(args);
        assert(given =~= seq![left, right]);
        self.eval_two_non_null(left, right)
    }
}

/// The remainder of integers.
pub struct OpMod;

impl OpMod {
    /// The remainder of two integers, with the sign of the first; nothing
    /// for any other operands, floats among them.
    pub open spec fn outcome(left: Value, right: Value) -> Option<Outcome> {
        match (left, right) {
            (Value::Int(l), Value::Int(r)) => Some(
                Outcome::Value(Value::Int(truncated_rem(l as int, r as int) as i64)),
            ),
            _ => None,
        }
    }

    /// The operands for which a remainder can be asked: all but an integer
    /// to be divided by the integer zero.
    pub open spec fn defined(left: Value, right: Value) -> bool {
        !(left is Int && right == Value::Int(0))
    }

    /// Evaluates the operator on two operands, neither of which is to be
    /// null. Operands of types that the operator does not take are handed
    /// back in the error, as they came.
    pub fn eval_two_non_null(&self, left: Value, right: Value) -> (r: Result<Outcome, EvalError>)
        requires
            Self::defined(left, right),
        ensures
            returns_binary(r, Self::outcome(left, right), "%"@, left, right),
    {
        match (as_number(&left), as_number(&right)) {
            (Some(Number::Int(l)), Some(Number::Int(r))) => {
                proof {
                    let d: int = if r < 0 {
                        -r
                    } else {
                        r as int
                    };
                    let a: int = if l < 0 {
                        -l
                    } else {
                        l as int
                    };
                    vstd::arithmetic::div_mod::lemma_mod_bound(a, d);
                    assert(l * -1 == -l);
                    assert(r * -1 == -r);
                }
                let rem: i64 = match l.checked_rem(r) {
                    Some(v) => v,
                    None => 0,
                };
                proof {
                    if l == i64::MIN && r == -1 {
                        assert((-(l as int)) % 1 == 0);
                    }
                    assert(rem as int == truncated_rem(l as int, r as int));
                }
                Ok(Outcome::Value(Value::Int(rem)))
            },
            _ => Err(mismatch_two(NAME_OP_MOD, left, right)),
        }
    }
}

impl Op for OpMod {
    open spec fn spec_arity(&self) -> Option<usize> {
        Some(2usize)
    }

    open spec fn spec_name(&self) -> Seq<char> {
        "%"@
    }

    open spec fn spec_has_side_effect(&self) -> bool {
        false
    }

    open spec fn spec_non_null_args(&self) -> bool {
        true
    }

    open spec fn accepts(&self, args: Seq<Value>) -> bool {
        args.len() == 2 && Self::defined(args[0], args[1])
    }

    open spec fn outcome_of(&self, args: Seq<Value>) -> Option<Outcome> {
        Self::outcome(args[0], args[1])
    }

    fn arity(&self) -> (r: Option<usize>) {
        Some(2)
    }

    fn has_side_effect(&self) -> (r: bool) {
        false
    }

    fn name(&self) -> (r: &str) {
        NAME_OP_MOD
    }

    fn non_null_args(&self) -> (r: bool) {
        true
    }

    fn eval(&self, args: Vec<Value>) -> (r: Result<Outcome, EvalError>) {
        let ghost given = args@;
        let (left, right) = extract_two_args(args);
        assert(given =~= seq![left, right]);
        self.eval_two_non_null(left, right)
    }
}

/// Exponentiation.
pub struct OpPow;

impl OpPow {
    /// The floating-point power of two numbers, also of two integers.
    pub open spec fn outcome(left: Value, right: Value) -> Option<Outcome> {
        floating(FloatOp::Pow, left, right)
    }

    /// Evaluates the operator on two operands, neither of which is to be
    /// null. Operands of types that the operator does not take are handed
    /// back in the error, as they came.
    pub fn eval_two_non_null(&self, left: Value, right: Value) -> (r: Result<Outcome, EvalError>)
        ensures
            returns_binary(r, Self::outcome(left, right), "**"@, left, right),
    {
        match (as_number(&left), as_number(&right)) {
            (Some(l), Some(r)) => Ok(Outcome::Float { op: FloatOp::Pow, left: l, right: r }),
            _ => Err(mismatch_two(NAME_OP_POW, left, right)),
        }
    }
}

impl Op for OpPow {
    open spec fn spec_arity(&self) -> Option<usize> {
        Some(2usize)
    }

    open spec fn spec_name(&self) -> Seq<char> {
        "**"@
    }

    open spec fn spec_has_side_effect(&self) -> bool {
        false
    }

    open spec fn spec_non_null_args(&self) -> bool {
        true
    }

    open spec fn accepts(&self, args: Seq<Value>) -> bool {
        args.len() == 2
    }

    open spec fn outcome_of(&self, args: Seq<Value>) -> Option<Outcome> {
        Self::outcome(args[0], args[1])
    }

    fn arity(&self) -> (r: Option<usize>) {
        Some(2)
    }

    fn has_side_effect(&self) -> (r: bool) {
        false
    }

    fn name(&self) -> (r: &str) {
        NAME_OP_POW
    }

    fn non_null_args(&self) -> (r: bool) {
        true
    }

    fn eval(&self, args: Vec<Value>) -> (r: Result<Outcome, EvalError>) {
        let ghost given = args@;
        let (left, right) = extract_two_args(args);
        assert(given =~= seq![left, right]);
        self.eval_two_non_null(left, right)
    }
}

/// Negation of a number.
pub struct OpMinus;

impl OpMinus {
    /// The integer with the opposite sign, wrapped to 64 bits, or the float
    /// with the opposite sign; nothing for an operand that is no number.
    pub open spec fn outcome(arg: Value) -> Option<Value> {
        match arg {
            Value::Int(i) => Some(Value::Int(wrapped(-(i as int)))),
            Value::Float(f) => Some(Value::Float(f.negated())),
            _ => None,
        }
    }

    /// Evaluates the operator on an operand that is not to be null. An
    /// operand that is no number is handed back in the error, as it came.
    pub fn eval_one_non_null(&self, arg: Value) -> (r: Result<Value, EvalError>)
        ensures
            match Self::outcome(arg) {
                Some(v) => r == Ok::<Value, EvalError>(v),
                None => r matches Err(e) && is_mismatch(e, "--"@, seq![arg]),
            },
    {
        match as_number(&arg) {
            Some(Number::Int(i)) => Ok(Value::Int(0i64.wrapping_sub(i))),
            Some(Number::Float(f)) => Ok(Value::Float(f.neg())),
            None => {
                let mut values: Vec<Value> = Vec::new();
                values.push(arg);
                assert(values@ =~= seq![arg]);
                Err(EvalError::OpTypeMismatch(NAME_OP_MINUS.to_owned(), values))
            },
        }
    }
}

impl Op for OpMinus {
    open spec fn spec_arity(&self) -> Option<usize> {
        Some(1usize)
    }

    open spec fn spec_name(&self) -> Seq<char> {
        "--"@
    }

    open spec fn spec_has_side_effect(&self) -> bool {
        false
    }

    open spec fn spec_non_null_args(&self) -> bool {
        true
    }

    open spec fn accepts(&self, args: Seq<Value>) -> bool {
        args.len() == 1
    }

    open spec fn outcome_of(&self, args: Seq<Value>) -> Option<Outcome> {
        match Self::outcome(args[0]) {
            Some(v) => Some(Outcome::Value(v)),
            None => None,
        }
    }

    fn arity(&self) -> (r: Option<usize>) {
        Some(1)
    }

    fn has_side_effect(&self) -> (r: bool) {
        false
    }

    fn name(&self) -> (r: &str) {
        NAME_OP_MINUS
    }

    fn non_null_args(&self) -> (r: bool) {
        true
    }

    fn eval(&self, args: Vec<Value>) -> (r: Result<Outcome, EvalError>) {
        let ghost given = args@;
        let mut args = args;
        let arg = args.pop().unwrap();
        assert(given =~= seq![arg]);
        match self.eval_one_non_null(arg) {
            Ok(v) => Ok(Outcome::Value(v)),
            Err(e) => Err(e),
        }
    }
}

impl Outcome {
    /// Whether the outcome is an integer.
    pub open spec fn is_int(self) -> bool {
        self matches Outcome::Value(v) && v is Int
    }

    /// Whether the outcome is a float: one that the value holds, or one
    /// that a floating-point operation is still to give.
    pub open spec fn is_float(self) -> bool {
        match self {
            Outcome::Value(v) => v is Float,
            Outcome::Float { .. } => true,
        }
    }
}

/// Addition, subtraction and multiplication take every pair of numbers. They
/// give an integer for two integers and a float for every other pair.
/// Division and exponentiation take every pair of numbers too, and always
/// give a float.
pub proof fn lemma_numbers_are_accepted(left: Value, right: Value)
    requires
        left.is_numeric(),
        right.is_numeric(),
    ensures
        OpAdd::outcome(left, right) matches Some(o) && (if left is Int && right is Int {
            o.is_int()
        } else {
            o.is_float()
        }),
        OpSub::outcome(left, right) matches Some(o) && (if left is Int && right is Int {
            o.is_int()
        } else {
            o.is_float()
        }),
        OpMul::outcome(left, right) matches Some(o) && (if left is Int && right is Int {
            o.is_int()
        } else {
            o.is_float()
        }),
        OpDiv::outcome(left, right) matches Some(o) && o.is_float(),
        OpPow::outcome(left, right) matches Some(o) && o.is_float(),
{
}

/// No arithmetic operator takes an operand that is no number, and the
/// remainder takes integers only.
pub proof fn lemma_others_are_refused(left: Value, right: Value)
    ensures
        !left.is_numeric() || !right.is_numeric() ==> OpAdd::outcome(left, right) is None
            && OpSub::outcome(left, right) is None && OpMul::outcome(left, right) is None
            && OpDiv::outcome(left, right) is None && OpPow::outcome(left, right) is None,
        !(left is Int) || !(right is Int) ==> OpMod::outcome(left, right) is None,
        !left.is_numeric() ==> OpMinus::outcome(left) is None,
{
}

} // verus!
