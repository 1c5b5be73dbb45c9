use query_expr::arithmetic::{
    FloatOp, Number, OpAdd, OpDiv, OpMinus, OpMod, OpMul, OpPow, OpSub, Outcome,
};
use query_expr::climb::{climb, infix};
use query_expr::expr::{
    keep_args, Builtin, Expr, OpRef, Operator, ParamPool, ParseError, Registry, Symbol,
};
use query_expr::parse::{build_expr, build_expr_infix, build_unary, infix_operator};
use query_expr::span::SourceSpan;
use query_expr::text::Text;
use query_expr::token::{Pair, Rule};
use query_expr::value::{Float, Value};

// A small tokenizer for the tests: it turns a text into the token tree that
// the library reads.

struct Lexer<'a> {
    src: &'a str,
    pos: usize,
}

const OPERATORS: [(&str, Rule); 15] = [
    ("**", Rule::OpPow),
    ("++", Rule::OpConcat),
    ("==", Rule::OpEq),
    ("!=", Rule::OpNe),
    (">=", Rule::OpGe),
    ("<=", Rule::OpLe),
    ("||", Rule::OpOr),
    ("&&", Rule::OpAnd),
    ("*", Rule::OpMul),
    ("/", Rule::OpDiv),
    ("%", Rule::OpMod),
    ("+", Rule::OpAdd),
    ("-", Rule::OpSub),
    (">", Rule::OpGt),
    ("<", Rule::OpLt),
];

impl<'a> Lexer<'a> {
    fn rest(&self) -> &'a str {
        &self.src[self.pos..]
    }

    fn skip_space(&mut self) {
        while self.rest().starts_with(' ') {
            self.pos += 1;
        }
    }

    fn node(&self, rule: Rule, start: usize, inner: Vec<Pair>) -> Pair {
        Pair::node(rule, &self.src[start..self.pos], SourceSpan(start, self.pos - start), inner)
    }

    fn expr(&mut self) -> Pair {
        self.skip_space();
        let start = self.pos;
        let mut inner = vec![self.unary()];
        loop {
            let mark = self.pos;
            self.skip_space();
            let found = OPERATORS.iter().find(|(text, _)| self.rest().starts_with(text));
            match found {
                Some((text, rule)) => {
                    let at = self.pos;
                    self.pos += text.len();
                    inner.push(self.node(*rule, at, vec![]));
                    self.skip_space();
                    inner.push(self.unary());
                }
                None => {
                    self.pos = mark;
                    break;
                }
            }
        }
        self.node(Rule::Expr, start, inner)
    }

    fn unary(&mut self) -> Pair {
        let start = self.pos;
        for (sign, rule) in [("-", Rule::Minus), ("!", Rule::Negate)] {
            if self.rest().starts_with(sign) {
                self.pos += 1;
                let sign_node = self.node(rule, start, vec![]);
                self.skip_space();
                let operand = self.unary();
                return self.node(Rule::Unary, start, vec![sign_node, operand]);
            }
        }
        let term = self.term();
        self.node(Rule::Unary, start, vec![term])
    }

    fn take_while(&mut self, f: impl Fn(char) -> bool) -> &'a str {
        let start = self.pos;
        while let Some(c) = self.rest().chars().next() {
            if !f(c) {
                break;
            }
            self.pos += c.len_utf8();
        }
        &self.src[start..self.pos]
    }

    fn list_of_exprs(&mut self, close: char) -> Vec<Pair> {
        let mut items = vec![];
        self.skip_space();
        while !self.rest().starts_with(close) {
            items.push(self.expr());
            self.skip_space();
            if self.rest().starts_with(',') {
                self.pos += 1;
                self.skip_space();
            }
        }
        items
    }

    fn quoted(&mut self, quote: char, rule: Rule) -> Pair {
        let start = self.pos;
        self.pos += 1;
        let inner_start = self.pos;
        let mut chunks = vec![];
        while !self.rest().starts_with(quote) {
            let at = self.pos;
            let c = self.rest().chars().next().unwrap();
            self.pos += c.len_utf8();
            if c == '\\' {
                let e = self.rest().chars().next().unwrap();
                self.pos += e.len_utf8();
                if e == 'u' {
                    self.take_while(|c| c.is_ascii_hexdigit());
                }
            }
            chunks.push(self.node(Rule::StringChunk, at, vec![]));
        }
        let inner = self.node(Rule::StringInner, inner_start, chunks);
        self.pos += 1;
        self.node(rule, start, vec![inner])
    }

    fn number(&mut self) -> Pair {
        let start = self.pos;
        let rest = self.rest();
        for (prefix, rule) in
            [("0x", Rule::HexPosInt), ("0o", Rule::OctoPosInt), ("0b", Rule::BinPosInt)]
        {
            if rest.starts_with(prefix) {
                self.pos += 2;
                self.take_while(|c| c.is_ascii_alphanumeric() || c == '_');
                return self.node(rule, start, vec![]);
            }
        }
        self.take_while(|c| c.is_ascii_digit() || c == '_');
        let mut rule = Rule::PosInt;
        if self.rest().starts_with('.') {
            rule = Rule::DotFloat;
            self.pos += 1;
            self.take_while(|c| c.is_ascii_digit() || c == '_');
        }
        if self.rest().starts_with('e') || self.rest().starts_with('E') {
            rule = Rule::SciFloat;
            self.pos += 1;
            if self.rest().starts_with('+') || self.rest().starts_with('-') {
                self.pos += 1;
            }
            self.take_while(|c| c.is_ascii_digit());
        }
        self.node(rule, start, vec![])
    }

    fn term(&mut self) -> Pair {
        let start = self.pos;
        let c = self.rest().chars().next().unwrap();
        let inner = if c.is_ascii_digit() {
            self.number()
        } else if c == '$' {
            self.pos += 1;
            self.take_while(|c| c.is_alphanumeric() || c == '_');
            self.node(Rule::Param, start, vec![])
        } else if c == '"' {
            self.quoted('"', Rule::QuotedString)
        } else if c == '\'' {
            self.quoted('\'', Rule::SQuotedString)
        } else if c == '(' {
            self.pos += 1;
            let e = self.expr();
            self.skip_space();
            self.pos += 1;
            self.node(Rule::Grouping, start, vec![e])
        } else if c == '[' {
            self.pos += 1;
            let items = self.list_of_exprs(']');
            self.pos += 1;
            self.node(Rule::List, start, items)
        } else {
            let word = self.take_while(|c| c.is_alphanumeric() || c == '_');
            if self.rest().starts_with('(') {
                let ident = self.node(Rule::Ident, start, vec![]);
                self.pos += 1;
                let args_start = self.pos;
                let items = self.list_of_exprs(')');
                let args = self.node(Rule::ApplyArgs, args_start, items);
                self.pos += 1;
                self.node(Rule::Apply, start, vec![ident, args])
            } else if word == "null" {
                self.node(Rule::Null, start, vec![])
            } else if word == "true" || word == "false" {
                self.node(Rule::Boolean, start, vec![])
            } else {
                self.node(Rule::Var, start, vec![])
            }
        };
        self.node(Rule::Term, start, vec![inner])
    }
}

/// Reads a float with the standard library.
fn read_float(digits: Vec<char>) -> Option<Float> {
    let text: String = digits.into_iter().collect();
    text.parse::<f64>().ok().map(|f| Float::from_bits(f.to_bits()))
}

fn tokens(src: &str) -> Pair {
    Lexer { src, pos: 0 }.expr()
}

fn parse_with(src: &str, pool: &ParamPool, registry: &Registry) -> Result<Expr, ParseError> {
    build_expr(&tokens(src), pool, registry, &keep_args, &read_float)
}

fn parse(src: &str) -> Result<Expr, ParseError> {
    parse_with(src, &ParamPool::new(), &Registry::new())
}

// An evaluator for the tests: it runs the arithmetic of a tree, and carries
// out the floating-point operations that the library asks for.

fn float(x: f64) -> Value {
    Value::Float(Float::from_bits(x.to_bits()))
}

fn to_f64(n: Number) -> f64 {
    match n {
        Number::Int(i) => i as f64,
        Number::Float(f) => f64::from_bits(f.to_bits()),
    }
}

fn resolve(outcome: Outcome) -> Value {
    match outcome {
        Outcome::Value(v) => v,
        Outcome::Float { op, left, right } => {
            let (l, r) = (to_f64(left), to_f64(right));
            float(match op {
                FloatOp::Add => l + r,
                FloatOp::Sub => l - r,
                FloatOp::Mul => l * r,
                FloatOp::Div => l / r,
                FloatOp::Pow => l.powf(r),
            })
        }
    }
}

fn eval(e: &Expr) -> Value {
    match e {
        Expr::Const { val, .. } => val.duplicate(),
        Expr::Binding { .. } => panic!("a variable has no value here"),
        Expr::Apply { op: OpRef::Builtin(b), args, .. } => {
            let mut vals: Vec<Value> = args.iter().map(eval).collect();
            if *b == Builtin::Minus {
                return OpMinus.eval_one_non_null(vals.pop().unwrap()).unwrap();
            }
            if *b == Builtin::List {
                return Value::List(vals);
            }
            let r = vals.pop().unwrap();
            let l = vals.pop().unwrap();
            resolve(
                match b {
                    Builtin::Add => OpAdd.eval_two_non_null(l, r),
                    Builtin::Sub => OpSub.eval_two_non_null(l, r),
                    Builtin::Mul => OpMul.eval_two_non_null(l, r),
                    Builtin::Div => OpDiv.eval_two_non_null(l, r),
                    Builtin::Mod => OpMod.eval_two_non_null(l, r),
                    Builtin::Pow => OpPow.eval_two_non_null(l, r),
                    other => panic!("no arithmetic for {:?}", other),
                }
                .unwrap(),
            )
        }
        Expr::Apply { .. } => panic!("no functions here"),
    }
}

fn num(i: i64, offset: usize, length: usize) -> Expr {
    Expr::Const { val: Value::Int(i), span: SourceSpan(offset, length) }
}

fn apply(op: Builtin, args: Vec<Expr>, offset: usize, length: usize) -> Expr {
    Expr::Apply { op: OpRef::Builtin(op), args, span: SourceSpan(offset, length) }
}

/// The shape of a tree, with every infix application in parentheses.
fn shape(e: &Expr) -> String {
    match e {
        Expr::Const { val, .. } => match val {
            Value::Int(i) => format!("{}", i),
            other => format!("{:?}", other),
        },
        Expr::Binding { var, .. } => var.name.clone(),
        Expr::Apply { op, args, .. } => {
            let name = match op {
                OpRef::Builtin(b) => format!("{:?}", b),
                OpRef::Function(f) => f.name.clone(),
            };
            let parts: Vec<String> = args.iter().map(shape).collect();
            format!("{}({})", name, parts.join(", "))
        }
    }
}

fn pool_with_x() -> ParamPool {
    let mut pool = ParamPool::new();
    pool.insert("x", Value::Int(5));
    pool
}

fn registry() -> Registry {
    let mut r = Registry::new();
    r.register(Operator {
        name: "pair".to_string(),
        min_arity: 2,
        vararg: false,
        has_side_effect: false,
        non_null_args: true,
    });
    r.register(Operator {
        name: "any".to_string(),
        min_arity: 1,
        vararg: true,
        has_side_effect: false,
        non_null_args: true,
    });
    r
}

#[test]
fn multiplication_binds_tighter_than_addition() {
    let e = parse("1 + 2 * 3").unwrap();
    assert_eq!(eval(&e), Value::Int(7));
    assert_eq!(shape(&e), "Add(1, Mul(2, 3))");
    let e = parse("2 * 3 + 4").unwrap();
    assert_eq!(eval(&e), Value::Int(10));
    assert_eq!(shape(&e), "Add(Mul(2, 3), 4)");
}

#[test]
fn power_groups_from_the_right() {
    let e = parse("2 ** 3 ** 2").unwrap();
    assert_eq!(eval(&e), float(512.0));
    assert_eq!(shape(&e), "Pow(2, Pow(3, 2))");
}

#[test]
fn other_operators_group_from_the_left() {
    let e = parse("10 - 4 - 3").unwrap();
    assert_eq!(eval(&e), Value::Int(3));
    assert_eq!(shape(&e), "Sub(Sub(10, 4), 3)");
    let e = parse("100 / 10 / 2").unwrap();
    assert_eq!(eval(&e), float(5.0));
    assert_eq!(shape(&parse("1 + 2 - 3 ++ 4").unwrap()), "Concat(Sub(Add(1, 2), 3), 4)");
    assert_eq!(shape(&parse("1 * 2 / 3 * 4").unwrap()), "Mul(Div(Mul(1, 2), 3), 4)");
    assert_eq!(shape(&parse("1 > 2 < 3 >= 4 <= 5").unwrap()), "Le(Ge(Lt(Gt(1, 2), 3), 4), 5)");
    assert_eq!(shape(&parse("1 == 2 != 3").unwrap()), "Neq(Eq(1, 2), 3)");
    assert_eq!(shape(&parse("1 || 2 || 3").unwrap()), "Or(Or(1, 2), 3)");
    assert_eq!(shape(&parse("1 && 2 && 3").unwrap()), "And(And(1, 2), 3)");
}

#[test]
fn the_levels_are_in_their_order() {
    assert_eq!(
        shape(&parse("1 || 2 && 3 > 4 % 5 == 6 + 7 * 8 ** 9").unwrap()),
        "Or(1, And(2, Gt(3, Mod(4, Eq(5, Add(6, Mul(7, Pow(8, 9))))))))"
    );
    assert_eq!(
        shape(&parse("1 ** 2 * 3 + 4 == 5 % 6 > 7 && 8 || 9").unwrap()),
        "Or(And(Gt(Mod(Eq(Add(Mul(Pow(1, 2), 3), 4), 5), 6), 7), 8), 9)"
    );
    assert_eq!(eval(&parse("7 % 4 + 1").unwrap()), Value::Int(2));
    assert_eq!(eval(&parse("1 + 2 * 3 ** 2").unwrap()), float(19.0));
    assert_eq!(shape(&parse("1 + 2 * 3 - 4").unwrap()), "Sub(Add(1, Mul(2, 3)), 4)");
    assert_eq!(
        shape(&parse("2 ** 3 * 4 ** 5 ** 6 + 7").unwrap()),
        "Add(Mul(Pow(2, 3), Pow(4, Pow(5, 6))), 7)"
    );
}

#[test]
fn a_single_operand_is_its_own_tree() {
    assert_eq!(parse("42"), Ok(num(42, 0, 2)));
}

#[test]
fn an_application_covers_both_operands() {
    let e = parse("  1+2  ").unwrap();
    assert_eq!(e, apply(Builtin::Add, vec![num(1, 2, 1), num(2, 4, 1)], 2, 3));
    assert_eq!(e.span(), SourceSpan(2, 3));
    let e = parse("1 + 22 * 333").unwrap();
    assert_eq!(
        e,
        apply(
            Builtin::Add,
            vec![num(1, 0, 1), apply(Builtin::Mul, vec![num(22, 4, 2), num(333, 9, 3)], 4, 8)],
            0,
            12
        )
    );
}

#[test]
fn a_group_has_the_range_of_what_is_inside() {
    let e = parse("( 1 + 2 ) * 3").unwrap();
    assert_eq!(eval(&e), Value::Int(9));
    assert_eq!(
        e,
        apply(
            Builtin::Mul,
            vec![apply(Builtin::Add, vec![num(1, 2, 1), num(2, 6, 1)], 2, 5), num(3, 12, 1)],
            2,
            11
        )
    );
    assert_eq!(parse("((7))"), Ok(num(7, 2, 1)));
}

#[test]
fn a_prefix_operator_covers_the_whole_operand() {
    assert_eq!(parse("-1"), Ok(apply(Builtin::Minus, vec![num(1, 1, 1)], 0, 2)));
    assert_eq!(
        parse("- -1"),
        Ok(apply(Builtin::Minus, vec![apply(Builtin::Minus, vec![num(1, 3, 1)], 2, 2)], 0, 4))
    );
    assert_eq!(eval(&parse("-3 + 5").unwrap()), Value::Int(2));
    assert_eq!(eval(&parse("2 * -3").unwrap()), Value::Int(-6));
    assert_eq!(
        parse("!true"),
        Ok(apply(
            Builtin::Negate,
            vec![Expr::Const { val: Value::Bool(true), span: SourceSpan(1, 4) }],
            0,
            5
        ))
    );
}

#[test]
fn a_parameter_becomes_its_value() {
    let pool = pool_with_x();
    let e = parse_with("$x + 1", &pool, &Registry::new()).unwrap();
    assert_eq!(eval(&e), Value::Int(6));
    assert_eq!(e, apply(Builtin::Add, vec![num(5, 0, 2), num(1, 5, 1)], 0, 6));
}

#[test]
fn a_parameter_that_is_missing_is_reported_by_name() {
    let pool = pool_with_x();
    assert_eq!(
        parse_with("$y + 1", &pool, &Registry::new()),
        Err(ParseError::ParamNotFound("y".to_string(), SourceSpan(0, 2)))
    );
    assert_eq!(
        parse("1 + $long_name"),
        Err(ParseError::ParamNotFound("long_name".to_string(), SourceSpan(4, 10)))
    );
}

#[test]
fn a_parameter_may_hold_any_value() {
    let mut pool = ParamPool::new();
    pool.insert("s", Value::Str(Text::from_str("hi")));
    pool.insert("l", Value::List(vec![Value::Int(1), Value::Null]));
    pool.insert("s", Value::Str(Text::from_str("ho")));
    assert_eq!(
        parse_with("$s", &pool, &Registry::new()),
        Ok(Expr::Const { val: Value::Str(Text::from_str("ho")), span: SourceSpan(0, 2) })
    );
    assert_eq!(
        parse_with("$l", &pool, &Registry::new()),
        Ok(Expr::Const {
            val: Value::List(vec![Value::Int(1), Value::Null]),
            span: SourceSpan(0, 2)
        })
    );
}

#[test]
fn a_variable_stays_unresolved() {
    assert_eq!(
        parse(" foo"),
        Ok(Expr::Binding {
            var: Symbol { name: "foo".to_string(), span: SourceSpan(1, 3) },
            tuple_pos: None
        })
    );
    assert_eq!(shape(&parse("a + b * c").unwrap()), "Add(a, Mul(b, c))");
}

#[test]
fn integers_are_read_in_every_radix() {
    assert_eq!(parse("1_000"), Ok(num(1000, 0, 5)));
    assert_eq!(parse("0x1F"), Ok(num(31, 0, 4)));
    assert_eq!(parse("0xff_ff"), Ok(num(65535, 0, 7)));
    assert_eq!(parse("0o17"), Ok(num(15, 0, 4)));
    assert_eq!(parse("0b101"), Ok(num(5, 0, 5)));
    assert_eq!(parse("9223372036854775807"), Ok(num(i64::MAX, 0, 19)));
}

#[test]
fn integers_that_do_not_fit_are_refused() {
    assert_eq!(
        parse("9223372036854775808"),
        Err(ParseError::BadIntLiteral(SourceSpan(0, 19)))
    );
    assert_eq!(
        parse("1 + 0x8000000000000000"),
        Err(ParseError::BadIntLiteral(SourceSpan(4, 18)))
    );
    assert_eq!(parse("0o9"), Err(ParseError::BadIntLiteral(SourceSpan(0, 3))));
    assert_eq!(parse("0b"), Err(ParseError::BadIntLiteral(SourceSpan(0, 2))));
}

#[test]
fn floats_are_taken_from_their_tokens() {
    assert_eq!(
        parse("1.5"),
        Ok(Expr::Const { val: float(1.5), span: SourceSpan(0, 3) })
    );
    assert_eq!(
        parse("1_0.2_5"),
        Ok(Expr::Const { val: float(10.25), span: SourceSpan(0, 7) })
    );
    assert_eq!(
        parse("2e3"),
        Ok(Expr::Const { val: float(2000.0), span: SourceSpan(0, 3) })
    );
    assert_eq!(eval(&parse("1.5 + 2").unwrap()), float(3.5));
    assert_eq!(eval(&parse("3 / 2").unwrap()), float(1.5));
}

#[test]
fn a_float_token_without_a_number_is_refused() {
    let literal = Pair::leaf(Rule::DotFloat, "1.2.3", SourceSpan(0, 5));
    let term = Pair::node(Rule::Term, "1.2.3", SourceSpan(0, 5), vec![literal]);
    let unary = Pair::node(Rule::Unary, "1.2.3", SourceSpan(0, 5), vec![term]);
    let expr = Pair::node(Rule::Expr, "1.2.3", SourceSpan(0, 5), vec![unary]);
    assert_eq!(
        build_expr(&expr, &ParamPool::new(), &Registry::new(), &keep_args, &read_float),
        Err(ParseError::BadFloatLiteral(SourceSpan(0, 5)))
    );
}

#[test]
fn keywords_are_constants() {
    assert_eq!(parse("null"), Ok(Expr::Const { val: Value::Null, span: SourceSpan(0, 4) }));
    assert_eq!(
        parse("true"),
        Ok(Expr::Const { val: Value::Bool(true), span: SourceSpan(0, 4) })
    );
    assert_eq!(
        parse("false"),
        Ok(Expr::Const { val: Value::Bool(false), span: SourceSpan(0, 5) })
    );
}

#[test]
fn strings_are_decoded() {
    assert_eq!(
        parse("\"a\\tb\""),
        Ok(Expr::Const { val: Value::Str(Text::from_str("a\tb")), span: SourceSpan(0, 6) })
    );
    assert_eq!(
        parse("'it\\'s'"),
        Ok(Expr::Const { val: Value::Str(Text::from_str("it's")), span: SourceSpan(0, 7) })
    );
    assert_eq!(
        parse("1 + \"\\q\""),
        Err(ParseError::InvalidEscapeSequence("\\q".to_string(), SourceSpan(5, 2)))
    );
}

#[test]
fn a_list_holds_whole_expressions() {
    let e = parse("[1, 2 + 3, [4]]").unwrap();
    assert_eq!(shape(&e), "List(1, Add(2, 3), List(4))");
    assert_eq!(e.span(), SourceSpan(0, 15));
    assert_eq!(
        eval(&e),
        Value::List(vec![Value::Int(1), Value::Int(5), Value::List(vec![Value::Int(4)])])
    );
    assert_eq!(parse("[]"), Ok(apply(Builtin::List, vec![], 0, 2)));
    assert_eq!(
        parse("[1, $z]"),
        Err(ParseError::ParamNotFound("z".to_string(), SourceSpan(4, 2)))
    );
}

#[test]
fn a_function_of_fixed_arity_takes_exactly_that_many() {
    let reg = registry();
    let pool = ParamPool::new();
    let wrong = |span: SourceSpan| {
        Err(ParseError::WrongNumberOfArguments {
            name: "pair".to_string(),
            span,
            required: 2,
            at_least: false,
        })
    };
    assert_eq!(parse_with("pair(1)", &pool, &reg), wrong(SourceSpan(0, 7)));
    assert_eq!(parse_with("pair(1, 2, 3)", &pool, &reg), wrong(SourceSpan(0, 13)));
    assert_eq!(parse_with("pair()", &pool, &reg), wrong(SourceSpan(0, 6)));
    assert_eq!(
        parse_with("pair(1, 2)", &pool, &reg),
        Ok(Expr::Apply {
            op: OpRef::Function(Operator {
                name: "pair".to_string(),
                min_arity: 2,
                vararg: false,
                has_side_effect: false,
                non_null_args: true,
            }),
            args: vec![num(1, 5, 1), num(2, 8, 1)],
            span: SourceSpan(0, 10)
        })
    );
}

#[test]
fn a_variadic_function_takes_its_minimum_or_more() {
    let reg = registry();
    let pool = ParamPool::new();
    assert_eq!(shape(&parse_with("any(1)", &pool, &reg).unwrap()), "any(1)");
    assert_eq!(shape(&parse_with("any(1, 2)", &pool, &reg).unwrap()), "any(1, 2)");
    assert_eq!(
        shape(&parse_with("any(1, 2, 3, 4 + 5)", &pool, &reg).unwrap()),
        "any(1, 2, 3, Add(4, 5))"
    );
    assert_eq!(
        parse_with("1 + any()", &pool, &reg),
        Err(ParseError::WrongNumberOfArguments {
            name: "any".to_string(),
            span: SourceSpan(4, 5),
            required: 1,
            at_least: true
        })
    );
}

#[test]
fn a_function_that_is_not_registered_is_reported_at_its_name() {
    assert_eq!(
        parse_with("1 + nope(2)", &ParamPool::new(), &registry()),
        Err(ParseError::FunctionNotFound("nope".to_string(), SourceSpan(4, 4)))
    );
    assert_eq!(
        parse_with("Pair(1, 2)", &ParamPool::new(), &registry()),
        Err(ParseError::FunctionNotFound("Pair".to_string(), SourceSpan(0, 4)))
    );
}

#[test]
fn the_first_error_wins() {
    assert_eq!(
        parse("$a + $b"),
        Err(ParseError::ParamNotFound("a".to_string(), SourceSpan(0, 2)))
    );
    assert_eq!(
        parse("1 + $b * $c"),
        Err(ParseError::ParamNotFound("b".to_string(), SourceSpan(4, 2)))
    );
    assert_eq!(
        parse("nope($a)"),
        Err(ParseError::ParamNotFound("a".to_string(), SourceSpan(5, 2)))
    );
    assert_eq!(
        parse_with("pair($a)", &ParamPool::new(), &registry()),
        Err(ParseError::ParamNotFound("a".to_string(), SourceSpan(5, 2)))
    );
}

fn swap_and_fill(op: &Operator, args: Vec<Expr>) -> Vec<Expr> {
    let mut args = args;
    if op.name == "pair" {
        if args.len() == 1 {
            args.push(Expr::Const { val: Value::Null, span: SourceSpan(0, 0) });
        }
        args.reverse();
    }
    args
}

#[test]
fn the_hook_has_its_say_before_the_arguments_are_counted() {
    let reg = registry();
    let pool = ParamPool::new();
    let e = build_expr(&tokens("pair(1)"), &pool, &reg, &swap_and_fill, &read_float).unwrap();
    assert_eq!(shape(&e), "pair(Null, 1)");
    let e = build_expr(&tokens("pair(1, 2)"), &pool, &reg, &swap_and_fill, &read_float).unwrap();
    assert_eq!(shape(&e), "pair(2, 1)");
    let e = build_expr(&tokens("any(1, 2)"), &pool, &reg, &swap_and_fill, &read_float).unwrap();
    assert_eq!(shape(&e), "any(1, 2)");
    assert!(matches!(
        build_expr(&tokens("pair(1, 2, 3)"), &pool, &reg, &swap_and_fill, &read_float),
        Err(ParseError::WrongNumberOfArguments { .. })
    ));
    let kept = keep_args(
        &Operator {
        name: "pair".to_string(),
        min_arity: 2,
        vararg: false,
        has_side_effect: false,
        non_null_args: true,
    },
        vec![num(1, 0, 1), num(2, 2, 1)],
    );
    assert_eq!(kept, vec![num(1, 0, 1), num(2, 2, 1)]);
}

#[test]
fn a_node_that_is_no_expression_is_refused() {
    let pool = ParamPool::new();
    let reg = Registry::new();
    let tree = tokens("1 + 2");
    let unary = Pair::node(Rule::Unary, "x", SourceSpan(3, 1), vec![]);
    assert_eq!(
        build_expr(&unary, &pool, &reg, &keep_args, &read_float),
        Err(ParseError::InvalidExpression(SourceSpan(3, 1)))
    );
    assert_eq!(
        build_unary(&unary, &pool, &reg, &keep_args, &read_float),
        Err(ParseError::InvalidExpression(SourceSpan(3, 1)))
    );
    let empty = Pair::node(Rule::Expr, "", SourceSpan(0, 0), vec![]);
    assert_eq!(
        build_expr(&empty, &pool, &reg, &keep_args, &read_float),
        Err(ParseError::InvalidExpression(SourceSpan(0, 0)))
    );
    let mut inner = tree.inner;
    inner.pop();
    let dangling = Pair::node(Rule::Expr, "1 +", SourceSpan(0, 3), inner);
    assert_eq!(
        build_expr(&dangling, &pool, &reg, &keep_args, &read_float),
        Err(ParseError::InvalidExpression(SourceSpan(0, 3)))
    );
    let mut inner = tokens("1 + 2").inner;
    inner[1] = Pair::leaf(Rule::Ident, "+", SourceSpan(2, 1));
    let no_operator = Pair::node(Rule::Expr, "1 + 2", SourceSpan(0, 5), inner);
    assert_eq!(
        build_expr(&no_operator, &pool, &reg, &keep_args, &read_float),
        Err(ParseError::InvalidExpression(SourceSpan(0, 5)))
    );
    let stray = Pair::node(
        Rule::Unary,
        "+",
        SourceSpan(0, 1),
        vec![Pair::leaf(Rule::OpAdd, "+", SourceSpan(0, 1))],
    );
    assert_eq!(
        build_unary(&stray, &pool, &reg, &keep_args, &read_float),
        Err(ParseError::InvalidExpression(SourceSpan(0, 1)))
    );
    let lone_minus = Pair::node(
        Rule::Unary,
        "-",
        SourceSpan(0, 1),
        vec![Pair::leaf(Rule::Minus, "-", SourceSpan(0, 1))],
    );
    assert_eq!(
        build_unary(&lone_minus, &pool, &reg, &keep_args, &read_float),
        Err(ParseError::InvalidExpression(SourceSpan(0, 1)))
    );
    let bare_param = Pair::node(
        Rule::Unary,
        "x",
        SourceSpan(0, 1),
        vec![Pair::leaf(Rule::Param, "x", SourceSpan(0, 1))],
    );
    assert_eq!(
        build_unary(&bare_param, &pool, &reg, &keep_args, &read_float),
        Err(ParseError::InvalidExpression(SourceSpan(0, 1)))
    );
}

#[test]
fn an_operand_is_built_on_its_own() {
    let tree = tokens("7");
    assert_eq!(
        build_unary(&tree.inner[0], &ParamPool::new(), &Registry::new(), &keep_args, &read_float),
        Ok(num(7, 0, 1))
    );
}

#[test]
fn infix_tokens_name_their_operators() {
    assert_eq!(infix_operator(Rule::OpAdd), Some(Builtin::Add));
    assert_eq!(infix_operator(Rule::OpSub), Some(Builtin::Sub));
    assert_eq!(infix_operator(Rule::OpMul), Some(Builtin::Mul));
    assert_eq!(infix_operator(Rule::OpDiv), Some(Builtin::Div));
    assert_eq!(infix_operator(Rule::OpMod), Some(Builtin::Mod));
    assert_eq!(infix_operator(Rule::OpPow), Some(Builtin::Pow));
    assert_eq!(infix_operator(Rule::OpEq), Some(Builtin::Eq));
    assert_eq!(infix_operator(Rule::OpNe), Some(Builtin::Neq));
    assert_eq!(infix_operator(Rule::OpGt), Some(Builtin::Gt));
    assert_eq!(infix_operator(Rule::OpGe), Some(Builtin::Ge));
    assert_eq!(infix_operator(Rule::OpLt), Some(Builtin::Lt));
    assert_eq!(infix_operator(Rule::OpLe), Some(Builtin::Le));
    assert_eq!(infix_operator(Rule::OpConcat), Some(Builtin::Concat));
    assert_eq!(infix_operator(Rule::OpOr), Some(Builtin::Or));
    assert_eq!(infix_operator(Rule::OpAnd), Some(Builtin::And));
    assert_eq!(infix_operator(Rule::Minus), None);
    assert_eq!(infix_operator(Rule::Expr), None);
}

#[test]
fn one_step_of_folding_hands_on_the_first_error() {
    let plus = Pair::leaf(Rule::OpAdd, "+", SourceSpan(2, 1));
    assert_eq!(
        build_expr_infix(Ok(num(1, 0, 1)), &plus, Ok(num(2, 4, 1))),
        Ok(apply(Builtin::Add, vec![num(1, 0, 1), num(2, 4, 1)], 0, 5))
    );
    let left = ParseError::BadIntLiteral(SourceSpan(0, 1));
    let right = ParseError::BadFloatLiteral(SourceSpan(4, 1));
    assert_eq!(
        build_expr_infix(Err(ParseError::BadIntLiteral(SourceSpan(0, 1))), &plus, Ok(num(2, 4, 1))),
        Err(ParseError::BadIntLiteral(SourceSpan(0, 1)))
    );
    assert_eq!(
        build_expr_infix(Ok(num(1, 0, 1)), &plus, Err(ParseError::BadFloatLiteral(SourceSpan(4, 1)))),
        Err(ParseError::BadFloatLiteral(SourceSpan(4, 1)))
    );
    assert_eq!(build_expr_infix(Err(left), &plus, Err(right)), Err(ParseError::BadIntLiteral(SourceSpan(0, 1))));
    let word = Pair::leaf(Rule::Ident, "plus", SourceSpan(2, 4));
    assert_eq!(
        build_expr_infix(Ok(num(1, 0, 1)), &word, Ok(num(2, 7, 1))),
        Err(ParseError::InvalidExpression(SourceSpan(2, 4)))
    );
}

#[test]
fn a_chain_is_folded_by_precedence() {
    let leaves = vec![num(1, 0, 1), num(2, 4, 1), num(3, 8, 1), num(4, 12, 1)];
    let e = climb(leaves, &vec![Builtin::Add, Builtin::Mul, Builtin::Add]);
    assert_eq!(shape(&e), "Add(Add(1, Mul(2, 3)), 4)");
    assert_eq!(e.span(), SourceSpan(0, 13));
    let e = climb(vec![num(9, 3, 1)], &vec![]);
    assert_eq!(e, num(9, 3, 1));
    let e = infix(num(1, 0, 1), Builtin::Sub, num(2, 4, 1));
    assert_eq!(e, apply(Builtin::Sub, vec![num(1, 0, 1), num(2, 4, 1)], 0, 5));
}

#[test]
fn levels_run_from_loosest_to_tightest() {
    assert_eq!(Builtin::Or.precedence(), 1);
    assert_eq!(Builtin::And.precedence(), 2);
    for op in [Builtin::Gt, Builtin::Lt, Builtin::Ge, Builtin::Le] {
        assert_eq!(op.precedence(), 3);
    }
    assert_eq!(Builtin::Mod.precedence(), 4);
    assert_eq!(Builtin::Eq.precedence(), 5);
    assert_eq!(Builtin::Neq.precedence(), 5);
    for op in [Builtin::Add, Builtin::Sub, Builtin::Concat] {
        assert_eq!(op.precedence(), 6);
    }
    assert_eq!(Builtin::Mul.precedence(), 7);
    assert_eq!(Builtin::Div.precedence(), 7);
    assert_eq!(Builtin::Pow.precedence(), 8);
    for op in [Builtin::Minus, Builtin::Negate, Builtin::List] {
        assert_eq!(op.precedence(), 0);
    }
}
