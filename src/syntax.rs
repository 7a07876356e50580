use vstd::prelude::*;
use vstd::string::StrSliceExecFns;

verus! {

/// The binary operators; `+ -` bind loosest, `* / % ^` share one tier.
#[derive(Clone, Copy, Debug, PartialEq, Eq, Structural)]
pub enum BinOp {
    Add,
    Sub,
    Mul,
    Div,
    Rem,
    Pow,
}

/// The named constants.
#[derive(Clone, Copy, Debug, PartialEq, Eq, Structural)]
pub enum Constant {
    Pi,
    E,
}

/// Functions of one argument.
#[derive(Clone, Copy, Debug, PartialEq, Eq, Structural)]
pub enum Func1 {
    Abs,
    Ceil,
    Floor,
    Round,
    Sign,
    Sin,
    Cos,
    Tan,
    Asin,
    Acos,
    Atan,
    Ln,
    Sqrt,
    Clamp01,
}

/// Functions of two arguments; `Log` takes the base first.
#[derive(Clone, Copy, Debug, PartialEq, Eq, Structural)]
pub enum Func2 {
    Log,
    Max,
    Min,
}

/// Functions of three arguments: `clamp(value, min, max)`.
#[derive(Clone, Copy, Debug, PartialEq, Eq, Structural)]
pub enum Func3 {
    Clamp,
}

/// An entry of the function table, tagged by its arity.
#[derive(Clone, Copy, Debug, PartialEq, Eq, Structural)]
pub enum Function {
    OneArg(Func1),
    TwoArg(Func2),
    ThreeArg(Func3),
}

impl Function {
    pub open spec fn arity(self) -> nat {
        match self {
            Function::OneArg(_) => 1,
            Function::TwoArg(_) => 2,
            Function::ThreeArg(_) => 3,
        }
    }
}

/// An expression as the calculator read it in one pass: number
/// literals keep their digits, names are already looked up.
#[derive(Debug, PartialEq)]
pub enum Expr {
    /// The digits before and after the decimal point.
    Number(Vec<char>, Vec<char>),
    Constant(Constant),
    Negate(Box<Expr>),
    Binary(BinOp, Box<Expr>, Box<Expr>),
    Apply1(Func1, Box<Expr>),
    Apply2(Func2, Box<Expr>, Box<Expr>),
    Apply3(Func3, Box<Expr>, Box<Expr>, Box<Expr>),
}

/// The mathematical model of an `Expr`.
pub enum Term {
    Number(Seq<char>, Seq<char>),
    Constant(Constant),
    Negate(Box<Term>),
    Binary(BinOp, Box<Term>, Box<Term>),
    Apply1(Func1, Box<Term>),
    Apply2(Func2, Box<Term>, Box<Term>),
    Apply3(Func3, Box<Term>, Box<Term>, Box<Term>),
}

pub open spec fn term_of(e: Expr) -> Term
    decreases e,
{
    match e {
        Expr::Number(w, f) => Term::Number(w@, f@),
        Expr::Constant(c) => Term::Constant(c),
        Expr::Negate(a) => Term::Negate(Box::new(term_of(*a))),
        Expr::Binary(op, a, b) => Term::Binary(op, Box::new(term_of(*a)), Box::new(term_of(*b))),
        Expr::Apply1(f, a) => Term::Apply1(f, Box::new(term_of(*a))),
        Expr::Apply2(f, a, b) => Term::Apply2(f, Box::new(term_of(*a)), Box::new(term_of(*b))),
        Expr::Apply3(f, a, b, c) => Term::Apply3(
            f,
            Box::new(term_of(*a)),
            Box::new(term_of(*b)),
            Box::new(term_of(*c)),
        ),
    }
}

impl View for Expr {
    type V = Term;

    open spec fn view(&self) -> Term {
        term_of(*self)
    }
}

/// Why an expression was refused.
#[derive(Debug, PartialEq)]
pub enum CalcError {
    /// An expected character was missing; holds the message.
    Syntax(String),
    /// The character cannot begin an atom.
    Unexpected(char),
    /// A bare name that is not a constant.
    UnknownConstant(Vec<char>),
    /// A called name that is not a function.
    UnknownFunction(Vec<char>),
    /// A known function called with another number of arguments; holds the
    /// name and the arity it requires.
    Arity(Vec<char>, usize),
}

/// The mathematical model of a `CalcError`.
pub enum Failure {
    Syntax(Seq<char>),
    Unexpected(char),
    UnknownConstant(Seq<char>),
    UnknownFunction(Seq<char>),
    Arity(Seq<char>, nat),
}

impl View for CalcError {
    type V = Failure;

    open spec fn view(&self) -> Failure {
        match self {
            CalcError::Syntax(m) => Failure::Syntax(m@),
            CalcError::Unexpected(c) => Failure::Unexpected(*c),
            CalcError::UnknownConstant(n) => Failure::UnknownConstant(n@),
            CalcError::UnknownFunction(n) => Failure::UnknownFunction(n@),
            CalcError::Arity(n, k) => Failure::Arity(n@, *k as nat),
        }
    }
}

/// The constant table.
pub open spec fn constant_named(n: Seq<char>) -> Option<Constant> {
    if n == "pi"@ {
        Some(Constant::Pi)
    } else if n == "e"@ {
        Some(Constant::E)
    } else {
        None
    }
}

/// The function table.
pub open spec fn function_named(n: Seq<char>) -> Option<Function> {
    if n == "abs"@ {
        Some(Function::OneArg(Func1::Abs))
    } else if n == "ceil"@ {
        Some(Function::OneArg(Func1::Ceil))
    } else if n == "floor"@ {
        Some(Function::OneArg(Func1::Floor))
    } else if n == "round"@ {
        Some(Function::OneArg(Func1::Round))
    } else if n == "sign"@ {
        Some(Function::OneArg(Func1::Sign))
    } else if n == "sin"@ {
        Some(Function::OneArg(Func1::Sin))
    } else if n == "cos"@ {
        Some(Function::OneArg(Func1::Cos))
    } else if n == "tan"@ {
        Some(Function::OneArg(Func1::Tan))
    } else if n == "asin"@ {
        Some(Function::OneArg(Func1::Asin))
    } else if n == "acos"@ {
        Some(Function::OneArg(Func1::Acos))
    } else if n == "atan"@ {
        Some(Function::OneArg(Func1::Atan))
    } else if n == "ln"@ {
        Some(Function::OneArg(Func1::Ln))
    } else if n == "log"@ {
        Some(Function::TwoArg(Func2::Log))
    } else if n == "sqrt"@ {
        Some(Function::OneArg(Func1::Sqrt))
    } else if n == "max"@ {
        Some(Function::TwoArg(Func2::Max))
    } else if n == "min"@ {
        Some(Function::TwoArg(Func2::Min))
    } else if n == "clamp"@ {
        Some(Function::ThreeArg(Func3::Clamp))
    } else if n == "clamp01"@ {
        Some(Function::OneArg(Func1::Clamp01))
    } else {
        None
    }
}

/// Whether `name` spells out `word`.
fn spells(name: &Vec<char>, word: &str) -> (r: bool)
    ensures
        r == (name@ == word@),
{
    let n = word.unicode_len();
    if name.len() != n {
        return false;
    }
    let mut i: usize = 0;
    while i < n
        invariant
            name@.len() == word@.len() == n,
            i <= n,
            forall|j: int| 0 <= j < i ==> name@[j] == word@[j],
        decreases n - i,
    {
        if name[i] != word.get_char(i) {
            return false;
        }
        i += 1;
    }
    assert(name@ =~= word@);
    true
}

/// Looks a bare name up in the constant table.
pub fn lookup_constant(name: &Vec<char>) -> (r: Option<Constant>)
    ensures
        r == constant_named(name@),
{
    if spells(name, "pi") {
        Some(Constant::Pi)
    } else if spells(name, "e") {
        Some(Constant::E)
    } else {
        None
    }
}

/// Looks a called name up in the function table.
pub fn lookup_function(name: &Vec<char>) -> (r: Option<Function>)
    ensures
        r == function_named(name@),
{
    if spells(name, "abs") {
        Some(Function::OneArg(Func1::Abs))
    } else if spells(name, "ceil") {
        Some(Function::OneArg(Func1::Ceil))
    } else if spells(name, "floor") {
        Some(Function::OneArg(Func1::Floor))
    } else if spells(name, "round") {
        Some(Function::OneArg(Func1::Round))
    } else if spells(name, "sign") {
        Some(Function::OneArg(Func1::Sign))
    } else if spells(name, "sin") {
        Some(Function::OneArg(Func1::Sin))
    } else if spells(name, "cos") {
        Some(Function::OneArg(Func1::Cos))
    } else if spells(name, "tan") {
        Some(Function::OneArg(Func1::Tan))
    } else if spells(name, "asin") {
        Some(Function::OneArg(Func1::Asin))
    } else if spells(name, "acos") {
        Some(Function::OneArg(Func1::Acos))
    } else if spells(name, "atan") {
        Some(Function::OneArg(Func1::Atan))
    } else if spells(name, "ln") {
        Some(Function::OneArg(Func1::Ln))
    } else if spells(name, "log") {
        Some(Function::TwoArg(Func2::Log))
    } else if spells(name, "sqrt") {
        Some(Function::OneArg(Func1::Sqrt))
    } else if spells(name, "max") {
        Some(Function::TwoArg(Func2::Max))
    } else if spells(name, "min") {
        Some(Function::TwoArg(Func2::Min))
    } else if spells(name, "clamp") {
        Some(Function::ThreeArg(Func3::Clamp))
    } else if spells(name, "clamp01") {
        Some(Function::OneArg(Func1::Clamp01))
    } else {
        None
    }
}

} // verus!
