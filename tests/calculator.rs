use calc::calculator::Calculator;
use calc::parser::{is_white, Parser};
use calc::syntax::{
    lookup_constant, lookup_function, BinOp, CalcError, Constant, Expr, Func1, Func2, Func3,
    Function,
};

fn digit(c: &char) -> f64 {
    c.to_digit(10).unwrap() as f64
}

/// Computes what a resolved expression stands for, in double precision.
fn value(e: &Expr) -> f64 {
    match e {
        Expr::Number(whole, fraction) => {
            let mut num = 0.;
            for c in whole {
                num = num * 10. + digit(c);
            }
            let mut frac = 0.;
            let mut weight = 0.1;
            for c in fraction {
                frac += weight * digit(c);
                weight /= 10.;
            }
            num + frac
        }
        Expr::Constant(Constant::Pi) => std::f64::consts::PI,
        Expr::Constant(Constant::E) => std::f64::consts::E,
        Expr::Negate(a) => -value(a),
        Expr::Binary(op, a, b) => {
            let (x, y) = (value(a), value(b));
            match op {
                BinOp::Add => x + y,
                BinOp::Sub => x - y,
                BinOp::Mul => x * y,
                BinOp::Div => x / y,
                BinOp::Rem => x % y,
                BinOp::Pow => x.powf(y),
            }
        }
        Expr::Apply1(f, a) => {
            let x = value(a);
            match f {
                Func1::Abs => x.abs(),
                Func1::Ceil => x.ceil(),
                Func1::Floor => x.floor(),
                Func1::Round => x.round(),
                Func1::Sign => x.signum(),
                Func1::Sin => x.sin(),
                Func1::Cos => x.cos(),
                Func1::Tan => x.tan(),
                Func1::Asin => x.asin(),
                Func1::Acos => x.acos(),
                Func1::Atan => x.atan(),
                Func1::Ln => x.ln(),
                Func1::Sqrt => x.sqrt(),
                Func1::Clamp01 => x.clamp(0., 1.),
            }
        }
        Expr::Apply2(f, a, b) => {
            let (x, y) = (value(a), value(b));
            match f {
                Func2::Log => y.log(x),
                Func2::Max => x.max(y),
                Func2::Min => x.min(y),
            }
        }
        Expr::Apply3(Func3::Clamp, a, b, c) => value(a).clamp(value(b), value(c)),
    }
}

fn eval(calc: &mut Calculator, expr: &str) -> Result<f64, CalcError> {
    calc.eval(expr.to_string()).map(|e| value(&e))
}

fn evaluate(expr: &str) -> Result<f64, CalcError> {
    eval(&mut Calculator::new(), expr)
}

fn num(whole: &str, fraction: &str) -> Box<Expr> {
    Box::new(Expr::Number(whole.chars().collect(), fraction.chars().collect()))
}

fn name(s: &str) -> Vec<char> {
    s.chars().collect()
}

#[test]
fn test_parse() {
    let mut calc = Calculator::new();
    assert_eq!(eval(&mut calc, "1+2"), Ok(3.));
    assert_eq!(eval(&mut calc, "1+2*3"), Ok(7.));
    assert_eq!(eval(&mut calc, "(1+3)%3"), Ok(1.));
}

#[test]
fn precedence_of_products_over_sums() {
    assert_eq!(evaluate("1+2*3"), Ok(7.));
    assert_eq!(evaluate("(1+2)*3"), Ok(9.));
    let tree = Calculator::new().eval("1+2*3".to_string()).unwrap();
    assert_eq!(
        tree,
        Expr::Binary(
            BinOp::Add,
            num("1", ""),
            Box::new(Expr::Binary(BinOp::Mul, num("2", ""), num("3", "")))
        )
    );
}

#[test]
fn equal_precedence_folds_left() {
    assert_eq!(evaluate("2-3-1"), Ok(-2.));
    assert_eq!(evaluate("8/4/2"), Ok(1.));
    assert_eq!(evaluate("2^3*2"), Ok(16.));
    assert_eq!(evaluate("2*3^2"), Ok(36.));
}

#[test]
fn unary_minus_binds_to_the_operand() {
    assert_eq!(evaluate("-2^2"), Ok(4.));
    assert_eq!(evaluate("-(2^2)"), Ok(-4.));
    let tree = Calculator::new().eval("-2".to_string()).unwrap();
    assert_eq!(tree, Expr::Negate(num("2", "")));
}

#[test]
fn modulo_shares_the_product_tier() {
    assert_eq!(evaluate("(1+3)%3"), Ok(1.));
    assert_eq!(evaluate("7%4*2"), Ok(6.));
}

#[test]
fn spaces_are_ignored() {
    assert_eq!(evaluate("1 + 2"), evaluate("1+2"));
    assert_eq!(evaluate(" 1 2 "), Ok(12.));
    assert_eq!(evaluate("max( 1 , 2 )"), Ok(2.));
    assert_eq!(evaluate("1\t+2"), Ok(3.));
    assert_eq!(evaluate("\n1 +\r\n2\u{a0}*\u{3000}3\t"), Ok(7.));
}

#[test]
fn whitespace_is_what_std_calls_whitespace() {
    for code in 0..=0x10FFFFu32 {
        if let Some(c) = char::from_u32(code) {
            assert_eq!(is_white(c), c.is_whitespace(), "{:?}", c);
        }
    }
}

#[test]
fn products_bind_tighter_on_long_numerals() {
    let tree = Calculator::new().eval("12+34*56".to_string()).unwrap();
    assert_eq!(
        tree,
        Expr::Binary(
            BinOp::Add,
            num("12", ""),
            Box::new(Expr::Binary(BinOp::Mul, num("34", ""), num("56", "")))
        )
    );
    assert_eq!(evaluate("12+34*56"), Ok(1916.));
    assert_eq!(evaluate("10*20-30"), Ok(170.));
    assert_eq!(evaluate("100-20-30"), Ok(50.));
}

#[test]
fn fractions_add_up() {
    assert_eq!(evaluate("1.5+1.25"), Ok(2.75));
    assert_eq!(evaluate("1."), Ok(1.));
    let tree = Calculator::new().eval("12.05".to_string()).unwrap();
    assert_eq!(tree, *num("12", "05"));
}

#[test]
fn constants_resolve_by_name() {
    let pi = evaluate("pi").unwrap();
    assert!((pi - 3.14159265358979).abs() < 1e-12);
    assert_eq!(evaluate("e"), Ok(std::f64::consts::E));
    assert_eq!(evaluate("foo"), Err(CalcError::UnknownConstant(name("foo"))));
    assert_eq!(evaluate("PI"), Err(CalcError::UnknownConstant(name("PI"))));
}

#[test]
fn arity_is_enforced() {
    assert_eq!(evaluate("max(1,2)"), Ok(2.));
    assert_eq!(evaluate("max(1)"), Err(CalcError::Arity(name("max"), 2)));
    assert_eq!(evaluate("max(1,2,3)"), Err(CalcError::Arity(name("max"), 2)));
    assert_eq!(evaluate("abs(1,2)"), Err(CalcError::Arity(name("abs"), 1)));
    assert_eq!(evaluate("clamp(1)"), Err(CalcError::Arity(name("clamp"), 3)));
}

#[test]
fn functions_compute() {
    assert_eq!(evaluate("log(2,8)"), Ok(3.));
    assert_eq!(evaluate("clamp(5,0,1)"), Ok(1.));
    assert_eq!(evaluate("clamp01(-3)"), Ok(0.));
    assert_eq!(evaluate("min(4,2)"), Ok(2.));
    assert_eq!(evaluate("abs(-3)"), Ok(3.));
    assert_eq!(evaluate("sqrt(16)"), Ok(4.));
    assert_eq!(evaluate("floor(2.5)+ceil(2.5)"), Ok(5.));
    let tree = Calculator::new().eval("log(2,8)".to_string()).unwrap();
    assert_eq!(tree, Expr::Apply2(Func2::Log, num("2", ""), num("8", "")));
}

#[test]
fn unknown_function_differs_from_unknown_constant() {
    assert_eq!(evaluate("foo(1)"), Err(CalcError::UnknownFunction(name("foo"))));
    assert_eq!(evaluate("foo"), Err(CalcError::UnknownConstant(name("foo"))));
}

#[test]
fn malformed_input_fails() {
    let close = CalcError::Syntax("Expected ')'".to_string());
    assert_eq!(evaluate("(1+2"), Err(CalcError::Syntax("Expected ')'".to_string())));
    assert_eq!(evaluate("max(1,2"), Err(close));
    assert_eq!(evaluate("1+"), Err(CalcError::Unexpected('\0')));
    assert_eq!(evaluate(""), Err(CalcError::Unexpected('\0')));
    assert_eq!(evaluate("1+*2"), Err(CalcError::Unexpected('*')));
    assert_eq!(evaluate(".5"), Err(CalcError::Unexpected('.')));
}

#[test]
fn division_by_zero_is_a_value() {
    assert_eq!(evaluate("1/0"), Ok(f64::INFINITY));
    assert!(evaluate("sqrt(-1)").unwrap().is_nan());
}

#[test]
fn text_after_an_expression_is_left_unread() {
    assert_eq!(evaluate("1+2)"), Ok(3.));
}

#[test]
fn repeated_evaluation_agrees() {
    let mut calc = Calculator::new();
    let first = eval(&mut calc, "2*(3+4)");
    assert_eq!(eval(&mut calc, "foo"), Err(CalcError::UnknownConstant(name("foo"))));
    let second = eval(&mut calc, "2*(3+4)");
    assert_eq!(first, Ok(14.));
    assert_eq!(first, second);
}

#[test]
fn cursor_reads_and_skips_spaces() {
    let mut p = Parser::new("a \tb\n".to_string());
    assert_eq!(p.peek(), 'a');
    p.advance();
    assert_eq!(p.peek(), 'b');
    p.advance();
    assert_eq!(p.peek(), '\0');
    p.advance();
    assert_eq!(p.peek(), '\0');
}

#[test]
fn cursor_consumes_only_the_expected_character() {
    let mut p = Parser::new("()".to_string());
    assert_eq!(p.consume(')', "want close"), Err("want close".to_string()));
    assert_eq!(p.peek(), '(');
    assert_eq!(p.consume('(', "want open"), Ok(()));
    assert_eq!(p.peek(), ')');
    assert_eq!(p.consume(')', "want close"), Ok(()));
    assert_eq!(p.consume(')', "want close"), Err("want close".to_string()));
    assert_eq!(p.consume('\0', "want end"), Ok(()));
    assert_eq!(p.peek(), '\0');
    assert_eq!(p.consume('\0', "want end"), Ok(()));
}

#[test]
fn tables_hold_their_names() {
    assert_eq!(lookup_constant(&name("pi")), Some(Constant::Pi));
    assert_eq!(lookup_constant(&name("e")), Some(Constant::E));
    assert_eq!(lookup_constant(&name("p")), None);
    assert_eq!(lookup_function(&name("clamp01")), Some(Function::OneArg(Func1::Clamp01)));
    assert_eq!(lookup_function(&name("clamp")), Some(Function::ThreeArg(Func3::Clamp)));
    assert_eq!(lookup_function(&name("log")), Some(Function::TwoArg(Func2::Log)));
    assert_eq!(lookup_function(&name("clam")), None);
}
