use vstd::prelude::*;
use crate::grammar::{
    addition, addition_rest, additive_op, advanced, arguments, arguments_rest, atom, call,
    digit_run, evaluation, expression, is_digit,
    multiplication, multiplication_rest, multiplicative_op, name_run, number, parentheses, unary,
    apply, Parsed, ParsedList,
};
use crate::parser::{char_at, Parser};
use crate::syntax::{
    lookup_constant, lookup_function, BinOp, CalcError, Expr, Failure, Function, Term,
};

verus! {

/// The parser is well formed and its position within the text or at its end.
pub open spec fn reading(p: &Parser) -> bool {
    p.wf() && p.pos() <= p.text().len()
}

/// The model of what a rule returned, with the position it stopped at.
pub open spec fn outcome(r: Result<Expr, CalcError>, q: int) -> Parsed {
    match r {
        Ok(e) => Ok((e@, q)),
        Err(x) => Err(x@),
    }
}

/// The model of what an evaluation returned.
pub open spec fn result_of(r: Result<Expr, CalcError>) -> Result<Term, Failure> {
    match r {
        Ok(e) => Ok(e@),
        Err(x) => Err(x@),
    }
}

/// The terms of a list of expressions.
pub open spec fn terms(v: Seq<Expr>) -> Seq<Term> {
    v.map_values(|e: Expr| e@)
}

/// The model of what the argument list returned.
pub open spec fn list_outcome(r: Result<Vec<Expr>, CalcError>, q: int) -> ParsedList {
    match r {
        Ok(v) => Ok((terms(v@), q)),
        Err(x) => Err(x@),
    }
}

/// Reads an expression and resolves its names in one pass; see the grammar
/// in `crate::grammar`.
pub struct Calculator {
    parser: Parser,
}

/// Builds the call of `f` on `args`, or fails when their number is not its
/// arity.
fn applied(name: Vec<char>, f: Function, args: Vec<Expr>) -> (r: Result<Expr, CalcError>)
    ensures
        result_of(r) == apply(name@, f, terms(args@)),
{
    let mut args = args;
    match f {
        Function::OneArg(g) => {
            if args.len() != 1 {
                return Err(CalcError::Arity(name, 1));
            }
            let a = args.pop().unwrap();
            Ok(Expr::Apply1(g, Box::new(a)))
        },
        Function::TwoArg(g) => {
            if args.len() != 2 {
                return Err(CalcError::Arity(name, 2));
            }
            let b = args.pop().unwrap();
            let a = args.pop().unwrap();
            Ok(Expr::Apply2(g, Box::new(a), Box::new(b)))
        },
        Function::ThreeArg(g) => {
            if args.len() != 3 {
                return Err(CalcError::Arity(name, 3));
            }
            let c = args.pop().unwrap();
            let b = args.pop().unwrap();
            let a = args.pop().unwrap();
            Ok(Expr::Apply3(g, Box::new(a), Box::new(b), Box::new(c)))
        },
    }
}

impl Calculator {
    pub fn new() -> (r: Self) {
        Calculator { parser: Parser::new(String::new()) }
    }

    /// Reads `expr`, whitespace dropped, as an expression from its start.
    pub fn eval(&mut self, expr: String) -> (r: Result<Expr, CalcError>)
        ensures
            result_of(r) == evaluation(expr@),
    {
        self.parser = Parser::new(expr);
        self.expression()
    }

    fn expression(&mut self) -> (r: Result<Expr, CalcError>)
        requires
            reading(&old(self).parser),
        ensures
            reading(&final(self).parser),
            final(self).parser.text() == old(self).parser.text(),
            outcome(r, final(self).parser.pos()) == expression(
                old(self).parser.text(),
                old(self).parser.pos(),
            ),
            r is Ok ==> advanced(
                old(self).parser.text(),
                old(self).parser.pos(),
                final(self).parser.pos(),
            ),
        decreases old(self).parser.text().len() - old(self).parser.pos(), 9nat,
    {
        self.addition()
    }

    fn addition(&mut self) -> (r: Result<Expr, CalcError>)
        requires
            reading(&old(self).parser),
        ensures
            reading(&final(self).parser),
            final(self).parser.text() == old(self).parser.text(),
            outcome(r, final(self).parser.pos()) == addition(
                old(self).parser.text(),
                old(self).parser.pos(),
            ),
            r is Ok ==> advanced(
                old(self).parser.text(),
                old(self).parser.pos(),
                final(self).parser.pos(),
            ),
        decreases old(self).parser.text().len() - old(self).parser.pos(), 8nat,
    {
        let ghost s = self.parser.text();
        let ghost p0 = self.parser.pos();
        let mut ret = match self.multiplication() {
            Ok(e) => e,
            Err(x) => return Err(x),
        };
        loop
            invariant
                reading(&self.parser),
                self.parser.text() == s,
                s == old(self).parser.text(),
                p0 == old(self).parser.pos(),
                advanced(s, p0, self.parser.pos()),
                addition(s, p0) == addition_rest(s, self.parser.pos(), ret@),
            decreases s.len() - self.parser.pos(),
        {
            let c = self.parser.peek();
            let op = if c == '+' {
                BinOp::Add
            } else if c == '-' {
                BinOp::Sub
            } else {
                return Ok(ret);
            };
            assert(additive_op(c) == Some(op));
            self.parser.advance();
            let m = match self.multiplication() {
                Ok(e) => e,
                Err(x) => return Err(x),
            };
            ret = Expr::Binary(op, Box::new(ret), Box::new(m));
        }
    }

    fn multiplication(&mut self) -> (r: Result<Expr, CalcError>)
        requires
            reading(&old(self).parser),
        ensures
            reading(&final(self).parser),
            final(self).parser.text() == old(self).parser.text(),
            outcome(r, final(self).parser.pos()) == multiplication(
                old(self).parser.text(),
                old(self).parser.pos(),
            ),
            r is Ok ==> advanced(
                old(self).parser.text(),
                old(self).parser.pos(),
                final(self).parser.pos(),
            ),
        decreases old(self).parser.text().len() - old(self).parser.pos(), 7nat,
    {
        let ghost s = self.parser.text();
        let ghost p0 = self.parser.pos();
        let mut ret = match self.unary() {
            Ok(e) => e,
            Err(x) => return Err(x),
        };
        loop
            invariant
                reading(&self.parser),
                self.parser.text() == s,
                s == old(self).parser.text(),
                p0 == old(self).parser.pos(),
                advanced(s, p0, self.parser.pos()),
                multiplication(s, p0) == multiplication_rest(s, self.parser.pos(), ret@),
            decreases s.len() - self.parser.pos(),
        {
            let c = self.parser.peek();
            let op = if c == '*' {
                BinOp::Mul
            } else if c == '/' {
                BinOp::Div
            } else if c == '%' {
                BinOp::Rem
            } else if c == '^' {
                BinOp::Pow
            } else {
                return Ok(ret);
            };
            assert(multiplicative_op(c) == Some(op));
            self.parser.advance();
            let m = match self.unary() {
                Ok(e) => e,
                Err(x) => return Err(x),
            };
            ret = Expr::Binary(op, Box::new(ret), Box::new(m));
        }
    }

    fn unary(&mut self) -> (r: Result<Expr, CalcError>)
        requires
            reading(&old(self).parser),
        ensures
            reading(&final(self).parser),
            final(self).parser.text() == old(self).parser.text(),
            outcome(r, final(self).parser.pos()) == unary(
                old(self).parser.text(),
                old(self).parser.pos(),
            ),
            r is Ok ==> advanced(
                old(self).parser.text(),
                old(self).parser.pos(),
                final(self).parser.pos(),
            ),
        decreases old(self).parser.text().len() - old(self).parser.pos(), 6nat,
    {
        if self.parser.peek() == '-' {
            self.parser.advance();
            match self.parentheses() {
                Ok(e) => Ok(Expr::Negate(Box::new(e))),
                Err(x) => Err(x),
            }
        } else {
            self.parentheses()
        }
    }

    fn parentheses(&mut self) -> (r: Result<Expr, CalcError>)
        requires
            reading(&old(self).parser),
        ensures
            reading(&final(self).parser),
            final(self).parser.text() == old(self).parser.text(),
            outcome(r, final(self).parser.pos()) == parentheses(
                old(self).parser.text(),
                old(self).parser.pos(),
            ),
            r is Ok ==> advanced(
                old(self).parser.text(),
                old(self).parser.pos(),
                final(self).parser.pos(),
            ),
        decreases old(self).parser.text().len() - old(self).parser.pos(), 5nat,
    {
        if self.parser.peek() == '(' {
            self.parser.advance();
            let e = match self.expression() {
                Ok(e) => e,
                Err(x) => return Err(x),
            };
            match self.parser.consume(')', "Expected ')'") {
                Ok(()) => Ok(e),
                Err(m) => Err(CalcError::Syntax(m)),
            }
        } else {
            self.atom()
        }
    }

    fn atom(&mut self) -> (r: Result<Expr, CalcError>)
        requires
            reading(&old(self).parser),
        ensures
            reading(&final(self).parser),
            final(self).parser.text() == old(self).parser.text(),
            outcome(r, final(self).parser.pos()) == atom(
                old(self).parser.text(),
                old(self).parser.pos(),
            ),
            r is Ok ==> advanced(
                old(self).parser.text(),
                old(self).parser.pos(),
                final(self).parser.pos(),
            ),
        decreases old(self).parser.text().len() - old(self).parser.pos(), 4nat,
    {
        let c = self.parser.peek();
        if '0' <= c && c <= '9' {
            Ok(self.number())
        } else {
            self.call()
        }
    }

    /// Reads the digits from the current position on.
    fn digits(&mut self) -> (r: Vec<char>)
        requires
            reading(&old(self).parser),
        ensures
            reading(&final(self).parser),
            final(self).parser.text() == old(self).parser.text(),
            final(self).parser.pos() == old(self).parser.pos() + digit_run(
                old(self).parser.text(),
                old(self).parser.pos(),
            ),
            r@ == old(self).parser.text().subrange(
                old(self).parser.pos(),
                final(self).parser.pos(),
            ),
    {
        let ghost s = self.parser.text();
        let ghost p0 = self.parser.pos();
        let mut ret: Vec<char> = Vec::new();
        assert(ret@ =~= s.subrange(p0, p0));
        loop
            invariant
                reading(&self.parser),
                self.parser.text() == s,
                p0 <= self.parser.pos(),
                s == old(self).parser.text(),
                p0 == old(self).parser.pos(),
                p0 + digit_run(s, p0) == self.parser.pos() + digit_run(s, self.parser.pos()),
                ret@ == s.subrange(p0, self.parser.pos()),
            decreases s.len() - self.parser.pos(),
        {
            let c = self.parser.peek();
            if !('0' <= c && c <= '9') {
                return ret;
            }
            ret.push(c);
            self.parser.advance();
            assert(ret@ =~= s.subrange(p0, self.parser.pos()));
        }
    }

    fn number(&mut self) -> (r: Expr)
        requires
            reading(&old(self).parser),
            is_digit(char_at(old(self).parser.text(), old(self).parser.pos())),
        ensures
            reading(&final(self).parser),
            final(self).parser.text() == old(self).parser.text(),
            (r@, final(self).parser.pos()) == number(
                old(self).parser.text(),
                old(self).parser.pos(),
            ),
            advanced(old(self).parser.text(), old(self).parser.pos(), final(self).parser.pos()),
    {
        assert(digit_run(self.parser.text(), self.parser.pos()) > 0);
        let whole = self.digits();
        if self.parser.peek() == '.' {
            self.parser.advance();
            let fraction = self.digits();
            Expr::Number(whole, fraction)
        } else {
            Expr::Number(whole, Vec::new())
        }
    }

    fn identifier(&mut self) -> (r: Vec<char>)
        requires
            reading(&old(self).parser),
        ensures
            reading(&final(self).parser),
            final(self).parser.text() == old(self).parser.text(),
            final(self).parser.pos() == old(self).parser.pos() + name_run(
                old(self).parser.text(),
                old(self).parser.pos(),
            ),
            r@ == old(self).parser.text().subrange(
                old(self).parser.pos(),
                final(self).parser.pos(),
            ),
    {
        let ghost s = self.parser.text();
        let ghost p0 = self.parser.pos();
        let mut ret: Vec<char> = Vec::new();
        assert(ret@ =~= s.subrange(p0, p0));
        loop
            invariant
                reading(&self.parser),
                self.parser.text() == s,
                p0 <= self.parser.pos(),
                s == old(self).parser.text(),
                p0 == old(self).parser.pos(),
                p0 + name_run(s, p0) == self.parser.pos() + name_run(s, self.parser.pos()),
                ret@ == s.subrange(p0, self.parser.pos()),
            decreases s.len() - self.parser.pos(),
        {
            let c = self.parser.peek();
            if !(('a' <= c && c <= 'z') || ('A' <= c && c <= 'Z') || ('0' <= c && c <= '9')) {
                return ret;
            }
            ret.push(c);
            self.parser.advance();
            assert(ret@ =~= s.subrange(p0, self.parser.pos()));
        }
    }

    fn call(&mut self) -> (r: Result<Expr, CalcError>)
        requires
            reading(&old(self).parser),
        ensures
            reading(&final(self).parser),
            final(self).parser.text() == old(self).parser.text(),
            outcome(r, final(self).parser.pos()) == call(
                old(self).parser.text(),
                old(self).parser.pos(),
            ),
            r is Ok ==> advanced(
                old(self).parser.text(),
                old(self).parser.pos(),
                final(self).parser.pos(),
            ),
        decreases old(self).parser.text().len() - old(self).parser.pos(), 3nat,
    {
        let c = self.parser.peek();
        if !(('a' <= c && c <= 'z') || ('A' <= c && c <= 'Z')) {
            return Err(CalcError::Unexpected(c));
        }
        let name = self.identifier();
        if self.parser.peek() == '(' {
            self.parser.advance();
            let args = match self.arguments() {
                Ok(a) => a,
                Err(x) => return Err(x),
            };
            match self.parser.consume(')', "Expected ')'") {
                Ok(()) => {},
                Err(m) => return Err(CalcError::Syntax(m)),
            }
            match lookup_function(&name) {
                None => Err(CalcError::UnknownFunction(name)),
                Some(f) => applied(name, f, args),
            }
        } else {
            match lookup_constant(&name) {
                None => Err(CalcError::UnknownConstant(name)),
                Some(k) => Ok(Expr::Constant(k)),
            }
        }
    }

    fn arguments(&mut self) -> (r: Result<Vec<Expr>, CalcError>)
        requires
            reading(&old(self).parser),
        ensures
            reading(&final(self).parser),
            final(self).parser.text() == old(self).parser.text(),
            list_outcome(r, final(self).parser.pos()) == arguments(
                old(self).parser.text(),
                old(self).parser.pos(),
            ),
            r is Ok ==> advanced(
                old(self).parser.text(),
                old(self).parser.pos(),
                final(self).parser.pos(),
            ),
        decreases old(self).parser.text().len() - old(self).parser.pos(), 10nat,
    {
        let ghost s = self.parser.text();
        let ghost p0 = self.parser.pos();
        let first = match self.expression() {
            Ok(e) => e,
            Err(x) => return Err(x),
        };
        let mut ret: Vec<Expr> = Vec::new();
        ret.push(first);
        assert(terms(ret@) =~= seq![first@]);
        loop
            invariant
                reading(&self.parser),
                self.parser.text() == s,
                s == old(self).parser.text(),
                p0 == old(self).parser.pos(),
                advanced(s, p0, self.parser.pos()),
                arguments(s, p0) == arguments_rest(s, self.parser.pos(), terms(ret@)),
            decreases s.len() - self.parser.pos(),
        {
            if self.parser.peek() != ',' {
                return Ok(ret);
            }
            self.parser.advance();
            let e = match self.expression() {
                Ok(e) => e,
                Err(x) => return Err(x),
            };
            let ghost before = terms(ret@);
            ret.push(e);
            assert(terms(ret@) =~= before.push(e@));
        }
    }
}

} // verus!
