//! The expression front end of a query language.
//!
//! A tokenizer hands over a tree of tagged tokens ([`token::Pair`]). From it
//! [`parse::build_expr`] builds a typed syntax tree ([`expr::Expr`]): it folds
//! chains of operands and infix operators by precedence ([`climb`]), reads
//! literals ([`number`], [`string_literal`]), puts the values of parameters in
//! their place, and checks that every call names a registered function and
//! gives it as many arguments as it takes. Every node and every error says
//! which bytes of the source it comes from ([`span::SourceSpan`]).
//!
//! [`arithmetic`] holds the arithmetic operators: which operands each of them
//! takes, and what it gives.
//!
//! The library does no floating-point arithmetic. A float is held by its bit
//! pattern ([`value::Float`]). Where an operator owes a float, it names the
//! operation and the operands ([`arithmetic::Outcome::Float`]), and where a
//! literal writes a float, a reader that the caller passes in turns its digits
//! into the number.
//!
//! What each function returns is stated over the mathematical content of the
//! values: every type that holds strings or lists has a view, and the
//! contracts speak of the views.

pub mod arithmetic;
pub mod climb;
pub mod expr;
pub mod number;
pub mod parse;
pub mod span;
pub mod string_literal;
pub mod table;
pub mod text;
pub mod token;
pub mod value;
