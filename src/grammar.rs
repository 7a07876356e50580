//! The expression grammar as spec functions over the whitespace-free text.
//!
//! ```text
//! expression     := addition
//! addition       := multiplication (('+' | '-') multiplication)*
//! multiplication := unary (('*' | '/' | '%' | '^') unary)*
//! unary          := '-'? parentheses
//! parentheses    := '(' expression ')' | atom
//! atom           := number | call
//! number         := digit+ ('.' digit*)?
//! call           := identifier ('(' arguments ')')?
//! identifier     := letter (letter | digit)*
//! arguments      := expression (',' expression)*
//! ```
//!
//! Each rule reads from position `p` and gives the term it read with the
//! position after it, or the first failure met. The binary levels fold to
//! the left. A rule that succeeds always reads at least one character; the
//! folds check that before they go on, so that the definitions are total.
use vstd::prelude::*;
use crate::parser::char_at;
use crate::syntax::{constant_named, function_named, BinOp, Failure, Function, Term};

verus! {

/// A term and the position after it, or the first failure.
pub type Parsed = Result<(Term, int), Failure>;

/// A list of terms and the position after it, or the first failure.
pub type ParsedList = Result<(Seq<Term>, int), Failure>;

pub open spec fn is_digit(c: char) -> bool {
    '0' <= c <= '9'
}

pub open spec fn is_letter(c: char) -> bool {
    ('a' <= c <= 'z') || ('A' <= c <= 'Z')
}

pub open spec fn is_name_char(c: char) -> bool {
    is_letter(c) || is_digit(c)
}

/// The message of a missing closing parenthesis.
pub open spec fn close_paren_message() -> Seq<char> {
    "Expected ')'"@
}

/// Whether a rule that started at `p` and stopped at `q` read something.
pub open spec fn advanced(s: Seq<char>, p: int, q: int) -> bool {
    p < q <= s.len()
}

/// How many digits stand from `p` on.
pub open spec fn digit_run(s: Seq<char>, p: int) -> nat
    decreases s.len() - p,
{
    if is_digit(char_at(s, p)) {
        1 + digit_run(s, p + 1)
    } else {
        0
    }
}

/// How many letters and digits stand from `p` on.
pub open spec fn name_run(s: Seq<char>, p: int) -> nat
    decreases s.len() - p,
{
    if is_name_char(char_at(s, p)) {
        1 + name_run(s, p + 1)
    } else {
        0
    }
}

pub open spec fn expression(s: Seq<char>, p: int) -> Parsed
    decreases s.len() - p, 9nat,
{
    addition(s, p)
}

pub open spec fn addition(s: Seq<char>, p: int) -> Parsed
    decreases s.len() - p, 8nat,
{
    match multiplication(s, p) {
        Err(f) => Err(f),
        Ok((t, q)) => if advanced(s, p, q) {
            addition_rest(s, q, t)
        } else {
            Ok((t, q))
        },
    }
}

/// The operator of the addition level at `c`, if any.
pub open spec fn additive_op(c: char) -> Option<BinOp> {
    if c == '+' {
        Some(BinOp::Add)
    } else if c == '-' {
        Some(BinOp::Sub)
    } else {
        None
    }
}

/// The operator of the multiplication level at `c`, if any.
pub open spec fn multiplicative_op(c: char) -> Option<BinOp> {
    if c == '*' {
        Some(BinOp::Mul)
    } else if c == '/' {
        Some(BinOp::Div)
    } else if c == '%' {
        Some(BinOp::Rem)
    } else if c == '^' {
        Some(BinOp::Pow)
    } else {
        None
    }
}

/// The addition fold from `p` on, with `acc` read so far.
pub open spec fn addition_rest(s: Seq<char>, p: int, acc: Term) -> Parsed
    decreases s.len() - p, 8nat,
{
    match additive_op(char_at(s, p)) {
        None => Ok((acc, p)),
        Some(op) => match multiplication(s, p + 1) {
            Err(f) => Err(f),
            Ok((t, q)) => {
                let next = Term::Binary(op, Box::new(acc), Box::new(t));
                if advanced(s, p, q) {
                    addition_rest(s, q, next)
                } else {
                    Ok((next, q))
                }
            },
        },
    }
}

pub open spec fn multiplication(s: Seq<char>, p: int) -> Parsed
    decreases s.len() - p, 7nat,
{
    match unary(s, p) {
        Err(f) => Err(f),
        Ok((t, q)) => if advanced(s, p, q) {
            multiplication_rest(s, q, t)
        } else {
            Ok((t, q))
        },
    }
}

/// The multiplication fold from `p` on, with `acc` read so far.
pub open spec fn multiplication_rest(s: Seq<char>, p: int, acc: Term) -> Parsed
    decreases s.len() - p, 7nat,
{
    match multiplicative_op(char_at(s, p)) {
        None => Ok((acc, p)),
        Some(op) => match unary(s, p + 1) {
            Err(f) => Err(f),
            Ok((t, q)) => {
                let next = Term::Binary(op, Box::new(acc), Box::new(t));
                if advanced(s, p, q) {
                    multiplication_rest(s, q, next)
                } else {
                    Ok((next, q))
                }
            },
        },
    }
}

pub open spec fn unary(s: Seq<char>, p: int) -> Parsed
    decreases s.len() - p, 6nat,
{
    if char_at(s, p) == '-' {
        match parentheses(s, p + 1) {
            Err(f) => Err(f),
            Ok((t, q)) => Ok((Term::Negate(Box::new(t)), q)),
        }
    } else {
        parentheses(s, p)
    }
}

pub open spec fn parentheses(s: Seq<char>, p: int) -> Parsed
    decreases s.len() - p, 5nat,
{
    if char_at(s, p) == '(' {
        match expression(s, p + 1) {
            Err(f) => Err(f),
            Ok((t, q)) => if char_at(s, q) == ')' {
                Ok((t, q + 1))
            } else {
                Err(Failure::Syntax(close_paren_message()))
            },
        }
    } else {
        atom(s, p)
    }
}

pub open spec fn atom(s: Seq<char>, p: int) -> Parsed
    decreases s.len() - p, 4nat,
{
    if is_digit(char_at(s, p)) {
        Ok(number(s, p))
    } else {
        call(s, p)
    }
}

/// A number literal at `p`: its digits, then an optional point and the digits
/// after it.
pub open spec fn number(s: Seq<char>, p: int) -> (Term, int) {
    let q = p + digit_run(s, p);
    let whole = s.subrange(p, q);
    if char_at(s, q) == '.' {
        let r = q + 1 + digit_run(s, q + 1);
        (Term::Number(whole, s.subrange(q + 1, r)), r)
    } else {
        (Term::Number(whole, Seq::empty()), q)
    }
}

/// The term for `f` applied to `args`, or an arity failure for `name`.
pub open spec fn apply(name: Seq<char>, f: Function, args: Seq<Term>) -> Result<Term, Failure> {
    if args.len() != f.arity() {
        Err(Failure::Arity(name, f.arity()))
    } else {
        match f {
            Function::OneArg(g) => Ok(Term::Apply1(g, Box::new(args[0]))),
            Function::TwoArg(g) => Ok(Term::Apply2(g, Box::new(args[0]), Box::new(args[1]))),
            Function::ThreeArg(g) => Ok(
                Term::Apply3(g, Box::new(args[0]), Box::new(args[1]), Box::new(args[2])),
            ),
        }
    }
}

pub open spec fn call(s: Seq<char>, p: int) -> Parsed
    decreases s.len() - p, 3nat,
{
    let c = char_at(s, p);
    if !is_letter(c) {
        Err(Failure::Unexpected(c))
    } else {
        let e = p + name_run(s, p);
        let name = s.subrange(p, e);
        if char_at(s, e) == '(' {
            match arguments(s, e + 1) {
                Err(f) => Err(f),
                Ok((args, q)) => if char_at(s, q) != ')' {
                    Err(Failure::Syntax(close_paren_message()))
                } else {
                    match function_named(name) {
                        None => Err(Failure::UnknownFunction(name)),
                        Some(f) => match apply(name, f, args) {
                            Err(x) => Err(x),
                            Ok(t) => Ok((t, q + 1)),
                        },
                    }
                },
            }
        } else {
            match constant_named(name) {
                None => Err(Failure::UnknownConstant(name)),
                Some(k) => Ok((Term::Constant(k), e)),
            }
        }
    }
}

pub open spec fn arguments(s: Seq<char>, p: int) -> ParsedList
    decreases s.len() - p, 10nat,
{
    match expression(s, p) {
        Err(f) => Err(f),
        Ok((t, q)) => if advanced(s, p, q) {
            arguments_rest(s, q, seq![t])
        } else {
            Ok((seq![t], q))
        },
    }
}

/// The argument list from `p` on, with `acc` read so far.
pub open spec fn arguments_rest(s: Seq<char>, p: int, acc: Seq<Term>) -> ParsedList
    decreases s.len() - p, 10nat,
{
    if char_at(s, p) == ',' {
        match expression(s, p + 1) {
            Err(f) => Err(f),
            Ok((t, q)) => if advanced(s, p, q) {
                arguments_rest(s, q, acc.push(t))
            } else {
                Ok((acc.push(t), q))
            },
        }
    } else {
        Ok((acc, p))
    }
}

/// What an evaluation of `text` gives: its whitespace is dropped and an
/// expression is read from the start; what follows it is left unread.
pub open spec fn evaluation(text: Seq<char>) -> Result<Term, Failure> {
    match expression(crate::parser::strip_whitespace(text), 0) {
        Err(f) => Err(f),
        Ok((t, _)) => Ok(t),
    }
}

} // verus!
