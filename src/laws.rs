//! Properties of evaluation that hold for every input.
use vstd::prelude::*;
use crate::grammar::{
    evaluation, is_digit, is_letter, is_name_char, name_run, digit_run, atom, call, unary, multiplication,
    multiplication_rest, addition_rest, expression, additive_op, multiplicative_op,
    number, arguments, arguments_rest,
};
use crate::parser::{char_at, is_whitespace, strip_whitespace};
use crate::syntax::{constant_named, function_named, BinOp, Failure, Function, Term};
use crate::grammar::parentheses;

verus! {

/// Dropping whitespace from two texts side by side drops it from each.
pub proof fn lemma_strip_concat(x: Seq<char>, y: Seq<char>)
    ensures
        strip_whitespace(x + y) == strip_whitespace(x) + strip_whitespace(y),
    decreases y.len(),
{
    if y.len() == 0 {
        assert(x + y =~= x);
        assert(strip_whitespace(x) + strip_whitespace(y) =~= strip_whitespace(x));
    } else {
        let z = x + y;
        assert(z.drop_last() =~= x + y.drop_last());
        lemma_strip_concat(x, y.drop_last());
        if !is_whitespace(y.last()) {
            assert((strip_whitespace(x) + strip_whitespace(y.drop_last())).push(y.last()) =~= strip_whitespace(
                x,
            ) + strip_whitespace(y.drop_last()).push(y.last()));
        }
    }
}

/// A text without whitespace is its own whitespace-free form.
pub proof fn lemma_strip_no_whitespace(x: Seq<char>)
    requires
        forall|i: int| 0 <= i < x.len() ==> !is_whitespace(#[trigger] x[i]),
    ensures
        strip_whitespace(x) == x,
    decreases x.len(),
{
    if x.len() > 0 {
        lemma_strip_no_whitespace(x.drop_last());
        assert(x.drop_last().push(x.last()) =~= x);
    }
}

/// The whitespace-free form has no whitespace.
pub proof fn lemma_strip_has_no_whitespace(x: Seq<char>)
    ensures
        forall|i: int|
            0 <= i < strip_whitespace(x).len() ==> !is_whitespace(#[trigger] strip_whitespace(x)[i]),
    decreases x.len(),
{
    if x.len() > 0 {
        lemma_strip_has_no_whitespace(x.drop_last());
        let t = strip_whitespace(x.drop_last());
        if !is_whitespace(x.last()) {
            assert forall|i: int| 0 <= i < strip_whitespace(x).len() implies !is_whitespace(
                strip_whitespace(x)[i],
            ) by {
                if i < t.len() {
                    assert(strip_whitespace(x)[i] == t[i]);
                }
            }
        }
    }
}

/// Whitespace is insignificant: a whitespace character put anywhere into a
/// text leaves its evaluation unchanged.
pub proof fn lemma_whitespace_insignificant(a: Seq<char>, w: char, b: Seq<char>)
    requires
        is_whitespace(w),
    ensures
        evaluation(a + seq![w] + b) == evaluation(a + b),
{
    lemma_strip_concat(a + seq![w], b);
    lemma_strip_concat(a, seq![w]);
    lemma_strip_concat(a, b);
    assert(seq![w].drop_last() =~= Seq::<char>::empty());
    assert(seq![w].last() == w);
    assert(strip_whitespace(Seq::<char>::empty()) =~= Seq::<char>::empty());
    assert(strip_whitespace(seq![w]) =~= Seq::<char>::empty());
    assert(strip_whitespace(a) + Seq::<char>::empty() =~= strip_whitespace(a));
}

/// Whitespace is insignificant: a text evaluates as its whitespace-free form
/// does.
pub proof fn lemma_whitespace_dropped(a: Seq<char>)
    ensures
        evaluation(a) == evaluation(strip_whitespace(a)),
{
    lemma_strip_has_no_whitespace(a);
    lemma_strip_no_whitespace(strip_whitespace(a));
}

/// A name that is letters and digits from `p` on runs to the end.
proof fn lemma_name_run_to_end(s: Seq<char>, p: int)
    requires
        0 <= p <= s.len(),
        forall|i: int| p <= i < s.len() ==> is_name_char(#[trigger] s[i]),
    ensures
        p + name_run(s, p) == s.len(),
    decreases s.len() - p,
{
    if p < s.len() {
        lemma_name_run_to_end(s, p + 1);
    }
}

/// Whether `name` is a well-formed identifier: a letter, then letters and
/// digits.
pub open spec fn is_identifier(name: Seq<char>) -> bool {
    &&& name.len() > 0
    &&& is_letter(name[0])
    &&& forall|i: int| 0 <= i < name.len() ==> is_name_char(#[trigger] name[i])
}

proof fn lemma_identifier_has_no_whitespace(name: Seq<char>)
    requires
        is_identifier(name),
    ensures
        strip_whitespace(name) == name,
{
    assert forall|i: int| 0 <= i < name.len() implies !is_whitespace(name[i]) by {
        assert(is_name_char(name[i]));
    }
    lemma_strip_no_whitespace(name);
}

/// A bare name evaluates to its constant when the constant table holds it,
/// and fails as an unknown constant otherwise.
pub proof fn lemma_bare_name(name: Seq<char>)
    requires
        is_identifier(name),
    ensures
        constant_named(name) is None ==> evaluation(name) == Err::<
            crate::syntax::Term,
            Failure,
        >(Failure::UnknownConstant(name)),
        constant_named(name) is Some ==> evaluation(name) == Ok::<crate::syntax::Term, Failure>(
            crate::syntax::Term::Constant(constant_named(name)->0),
        ),
{
    lemma_identifier_has_no_whitespace(name);
    lemma_name_run_to_end(name, 0);
    assert(name.subrange(0, name.len() as int) =~= name);
    let n = name.len() as int;
    assert(char_at(name, 0) == name[0]);
    assert(char_at(name, n) == crate::parser::END);
    assert(atom(name, 0) == call(name, 0));
    assert(unary(name, 0) == call(name, 0));
    assert(multiplicative_op(char_at(name, n)) is None);
    assert(additive_op(char_at(name, n)) is None);
    match constant_named(name) {
        None => {
            assert(call(name, 0) == Err::<(Term, int), Failure>(Failure::UnknownConstant(name)));
            assert(multiplication(name, 0) == call(name, 0));
            assert(expression(name, 0) == call(name, 0));
        },
        Some(k) => {
            assert(call(name, 0) == Ok::<(Term, int), Failure>((Term::Constant(k), n)));
            assert(multiplication_rest(name, n, Term::Constant(k)) == call(name, 0));
            assert(multiplication(name, 0) == call(name, 0));
            assert(addition_rest(name, n, Term::Constant(k)) == call(name, 0));
            assert(expression(name, 0) == call(name, 0));
        },
    }
}

/// A name called on one digit: a name outside the function table fails as an
/// unknown function, not as an unknown constant; a function of another arity
/// fails on its arity; a one-argument function is applied to the digit.
pub proof fn lemma_call_on_digit(name: Seq<char>, d: char)
    requires
        is_identifier(name),
        is_digit(d),
    ensures
        function_named(name) is None ==> evaluation(name + seq!['(', d, ')']) == Err::<
            Term,
            Failure,
        >(Failure::UnknownFunction(name)),
        function_named(name) is Some && function_named(name)->0.arity() != 1 ==> evaluation(
            name + seq!['(', d, ')'],
        ) == Err::<Term, Failure>(Failure::Arity(name, function_named(name)->0.arity())),
        function_named(name) matches Some(Function::OneArg(g)) ==> evaluation(
            name + seq!['(', d, ')'],
        ) == Ok::<Term, Failure>(Term::Apply1(g, Box::new(digit_term(d)))),
{
    let s = name + seq!['(', d, ')'];
    let n = name.len() as int;
    assert forall|i: int| 0 <= i < s.len() implies !is_whitespace(s[i]) by {
        if i < n {
            assert(is_name_char(name[i]));
        }
    }
    lemma_strip_no_whitespace(s);
    assert forall|i: int| 0 <= i < n implies is_name_char(#[trigger] s[i]) by {
        assert(s[i] == name[i]);
    }
    lemma_name_prefix_run(s, 0, n);
    assert(s.subrange(0, n) =~= name);
    assert(char_at(s, n) == '(');
    assert(char_at(s, n + 1) == d);
    assert(char_at(s, n + 2) == ')');
    assert(digit_run(s, n + 2) == 0);
    assert(digit_run(s, n + 1) == 1);
    let t = number(s, n + 1).0;
    assert(number(s, n + 1) == (t, n + 2));
    assert(unary(s, n + 1) == Ok::<(Term, int), Failure>((t, n + 2)));
    assert(multiplicative_op(char_at(s, n + 2)) is None);
    assert(additive_op(char_at(s, n + 2)) is None);
    assert(multiplication_rest(s, n + 2, t) == Ok::<(Term, int), Failure>((t, n + 2)));
    assert(multiplication(s, n + 1) == Ok::<(Term, int), Failure>((t, n + 2)));
    assert(addition_rest(s, n + 2, t) == Ok::<(Term, int), Failure>((t, n + 2)));
    assert(expression(s, n + 1) == Ok::<(Term, int), Failure>((t, n + 2)));
    assert(arguments_rest(s, n + 2, seq![t]) == Ok::<(Seq<Term>, int), Failure>((seq![t], n + 2)));
    assert(arguments(s, n + 1) == Ok::<(Seq<Term>, int), Failure>((seq![t], n + 2)));
    assert(char_at(s, 0) == name[0]);
    assert(t == digit_term(d)) by {
        assert(s.subrange(n + 1, n + 2) =~= seq![d]);
    }
    assert(unary(s, 0) == call(s, 0));
    assert(char_at(s, n + 3) == crate::parser::END);
    match call(s, 0) {
        Err(_) => {
            assert(multiplication(s, 0) == call(s, 0));
        },
        Ok((r, q)) => {
            assert(q == n + 3);
            assert(multiplication_rest(s, n + 3, r) == call(s, 0));
            assert(multiplication(s, 0) == call(s, 0));
            assert(addition_rest(s, n + 3, r) == call(s, 0));
        },
    }
    assert(expression(s, 0) == call(s, 0));
}

/// Letters and digits from `p` up to `e`, then another character: the name
/// at `p` ends at `e`.
proof fn lemma_name_prefix_run(s: Seq<char>, p: int, e: int)
    requires
        0 <= p <= e < s.len(),
        forall|i: int| p <= i < e ==> is_name_char(#[trigger] s[i]),
        !is_name_char(s[e]),
    ensures
        p + name_run(s, p) == e,
    decreases e - p,
{
    if p < e {
        lemma_name_prefix_run(s, p + 1, e);
    }
}

/// The term of a one-digit literal.
pub open spec fn digit_term(d: char) -> Term {
    Term::Number(seq![d], Seq::empty())
}

/// The operator that `c` stands for, on either level.
pub open spec fn operator(c: char) -> BinOp {
    match additive_op(c) {
        Some(op) => op,
        None => multiplicative_op(c)->0,
    }
}

/// Whether `c` is an operator of the addition level.
pub open spec fn is_additive(c: char) -> bool {
    additive_op(c) is Some
}

/// Whether `c` is an operator of the multiplication level.
pub open spec fn is_multiplicative(c: char) -> bool {
    multiplicative_op(c) is Some
}

/// A digit that neither a digit nor a point follows is read as a one-digit
/// number.
proof fn lemma_digit_operand(s: Seq<char>, p: int)
    requires
        0 <= p < s.len(),
        is_digit(s[p]),
        !is_digit(char_at(s, p + 1)),
        char_at(s, p + 1) != '.',
    ensures
        unary(s, p) == Ok::<(Term, int), Failure>((digit_term(s[p]), p + 1)),
{
    assert(char_at(s, p) == s[p]);
    assert(digit_run(s, p + 1) == 0);
    assert(digit_run(s, p) == 1);
    assert(s.subrange(p, p + 1) =~= seq![s[p]]);
    assert(number(s, p) == (digit_term(s[p]), p + 1));
    assert(parentheses(s, p) == atom(s, p));
}

/// Whether `x` is a run of digits.
pub open spec fn is_numeral(x: Seq<char>) -> bool {
    &&& x.len() > 0
    &&& forall|i: int| 0 <= i < x.len() ==> is_digit(#[trigger] x[i])
}

/// The term of a numeral without a fraction.
pub open spec fn numeral_term(x: Seq<char>) -> Term {
    Term::Number(x, Seq::empty())
}

/// Digits from `p` up to `e`, then something else: the digit run at `p` ends
/// at `e`.
proof fn lemma_digit_prefix_run(s: Seq<char>, p: int, e: int)
    requires
        0 <= p <= e <= s.len(),
        forall|i: int| p <= i < e ==> is_digit(#[trigger] s[i]),
        !is_digit(char_at(s, e)),
    ensures
        p + digit_run(s, p) == e,
    decreases e - p,
{
    if p < e {
        assert(is_digit(s[p]));
        lemma_digit_prefix_run(s, p + 1, e);
    }
}

/// A numeral that neither a digit nor a point follows is read as a number.
proof fn lemma_numeral_operand(s: Seq<char>, p: int, x: Seq<char>)
    requires
        0 <= p,
        p + x.len() <= s.len(),
        s.subrange(p, p + x.len()) == x,
        is_numeral(x),
        !is_digit(char_at(s, p + x.len())),
        char_at(s, p + x.len()) != '.',
    ensures
        unary(s, p) == Ok::<(Term, int), Failure>((numeral_term(x), p + x.len())),
{
    let e = p + x.len();
    assert forall|i: int| p <= i < e implies is_digit(#[trigger] s[i]) by {
        assert(s[i] == s.subrange(p, e)[i - p]);
    }
    lemma_digit_prefix_run(s, p, e);
    assert(char_at(s, p) == s[p]);
    assert(is_digit(s[p]));
    assert(number(s, p) == (numeral_term(x), e));
    assert(parentheses(s, p) == atom(s, p));
}

/// Whether `c` is one of the binary operators.
pub open spec fn is_operator(c: char) -> bool {
    is_additive(c) || is_multiplicative(c)
}

/// `x o1 y o2 z` has no whitespace, and its three numerals are read as
/// numbers.
proof fn lemma_three_numerals(x: Seq<char>, o1: char, y: Seq<char>, o2: char, z: Seq<char>)
    requires
        is_numeral(x) && is_numeral(y) && is_numeral(z),
        is_operator(o1) && is_operator(o2),
    ensures
        ({
            let s = x + seq![o1] + y + seq![o2] + z;
            let n1 = x.len() as int;
            let n2 = n1 + 1 + y.len();
            let n3 = n2 + 1 + z.len();
            &&& strip_whitespace(s) == s
            &&& s.len() == n3
            &&& char_at(s, n1) == o1
            &&& char_at(s, n2) == o2
            &&& char_at(s, n3) == crate::parser::END
            &&& unary(s, 0) == Ok::<(Term, int), Failure>((numeral_term(x), n1))
            &&& unary(s, n1 + 1) == Ok::<(Term, int), Failure>((numeral_term(y), n2))
            &&& unary(s, n2 + 1) == Ok::<(Term, int), Failure>((numeral_term(z), n3))
        }),
{
    let s = x + seq![o1] + y + seq![o2] + z;
    let n1 = x.len() as int;
    let n2 = n1 + 1 + y.len();
    let n3 = n2 + 1 + z.len();
    assert(s[n1] == o1);
    assert(s[n2] == o2);
    assert forall|i: int| 0 <= i < s.len() implies !is_whitespace(#[trigger] s[i]) by {
        if i < n1 {
            assert(s[i] == x[i]);
            assert(is_digit(x[i]));
        } else if n1 < i < n2 {
            assert(s[i] == y[i - n1 - 1]);
            assert(is_digit(y[i - n1 - 1]));
        } else if n2 < i {
            assert(s[i] == z[i - n2 - 1]);
            assert(is_digit(z[i - n2 - 1]));
        }
    }
    lemma_strip_no_whitespace(s);
    assert(s.subrange(0, n1) =~= x);
    assert(s.subrange(n1 + 1, n2) =~= y);
    assert(s.subrange(n2 + 1, n3) =~= z);
    lemma_numeral_operand(s, 0, x);
    lemma_numeral_operand(s, n1 + 1, y);
    lemma_numeral_operand(s, n2 + 1, z);
}

/// Operators of one level fold to the left: `x o1 y o2 z` reads as
/// `(x o1 y) o2 z` when `o1` and `o2` bind alike.
pub proof fn lemma_left_fold(x: Seq<char>, o1: char, y: Seq<char>, o2: char, z: Seq<char>)
    requires
        is_numeral(x) && is_numeral(y) && is_numeral(z),
        (is_additive(o1) && is_additive(o2)) || (is_multiplicative(o1) && is_multiplicative(o2)),
    ensures
        evaluation(x + seq![o1] + y + seq![o2] + z) == Ok::<Term, Failure>(
            Term::Binary(
                operator(o2),
                Box::new(
                    Term::Binary(operator(o1), Box::new(numeral_term(x)), Box::new(numeral_term(y))),
                ),
                Box::new(numeral_term(z)),
            ),
        ),
{
    let s = x + seq![o1] + y + seq![o2] + z;
    lemma_three_numerals(x, o1, y, o2, z);
    let n1 = x.len() as int;
    let n2 = n1 + 1 + y.len();
    let n3 = n2 + 1 + z.len();
    let (tx, ty, tz) = (numeral_term(x), numeral_term(y), numeral_term(z));
    let xy = Term::Binary(operator(o1), Box::new(tx), Box::new(ty));
    let xyz = Term::Binary(operator(o2), Box::new(xy), Box::new(tz));
    if is_additive(o1) {
        assert(multiplication_rest(s, n1, tx) == Ok::<(Term, int), Failure>((tx, n1)));
        assert(multiplication(s, 0) == Ok::<(Term, int), Failure>((tx, n1)));
        assert(multiplication_rest(s, n2, ty) == Ok::<(Term, int), Failure>((ty, n2)));
        assert(multiplication(s, n1 + 1) == Ok::<(Term, int), Failure>((ty, n2)));
        assert(multiplication_rest(s, n3, tz) == Ok::<(Term, int), Failure>((tz, n3)));
        assert(multiplication(s, n2 + 1) == Ok::<(Term, int), Failure>((tz, n3)));
        assert(addition_rest(s, n3, xyz) == Ok::<(Term, int), Failure>((xyz, n3)));
        assert(addition_rest(s, n2, xy) == Ok::<(Term, int), Failure>((xyz, n3)));
        assert(addition_rest(s, n1, tx) == Ok::<(Term, int), Failure>((xyz, n3)));
    } else {
        assert(multiplication_rest(s, n3, xyz) == Ok::<(Term, int), Failure>((xyz, n3)));
        assert(multiplication_rest(s, n2, xy) == Ok::<(Term, int), Failure>((xyz, n3)));
        assert(multiplication_rest(s, n1, tx) == Ok::<(Term, int), Failure>((xyz, n3)));
        assert(multiplication(s, 0) == Ok::<(Term, int), Failure>((xyz, n3)));
        assert(addition_rest(s, n3, xyz) == Ok::<(Term, int), Failure>((xyz, n3)));
    }
    assert(expression(s, 0) == Ok::<(Term, int), Failure>((xyz, n3)));
}

/// Products bind tighter than sums, on either side: `x + y * z` reads as
/// `x + (y * z)` and `x * y + z` as `(x * y) + z`.
pub proof fn lemma_products_bind_tighter(
    x: Seq<char>,
    o1: char,
    y: Seq<char>,
    o2: char,
    z: Seq<char>,
)
    requires
        is_numeral(x) && is_numeral(y) && is_numeral(z),
        is_additive(o1) && is_multiplicative(o2),
    ensures
        evaluation(x + seq![o1] + y + seq![o2] + z) == Ok::<Term, Failure>(
            Term::Binary(
                operator(o1),
                Box::new(numeral_term(x)),
                Box::new(
                    Term::Binary(operator(o2), Box::new(numeral_term(y)), Box::new(numeral_term(z))),
                ),
            ),
        ),
        evaluation(x + seq![o2] + y + seq![o1] + z) == Ok::<Term, Failure>(
            Term::Binary(
                operator(o1),
                Box::new(
                    Term::Binary(operator(o2), Box::new(numeral_term(x)), Box::new(numeral_term(y))),
                ),
                Box::new(numeral_term(z)),
            ),
        ),
{
    let (tx, ty, tz) = (numeral_term(x), numeral_term(y), numeral_term(z));
    let n1 = x.len() as int;
    let n2 = n1 + 1 + y.len();
    let n3 = n2 + 1 + z.len();

    let s = x + seq![o1] + y + seq![o2] + z;
    lemma_three_numerals(x, o1, y, o2, z);
    let yz = Term::Binary(operator(o2), Box::new(ty), Box::new(tz));
    let r = Term::Binary(operator(o1), Box::new(tx), Box::new(yz));
    assert(multiplication_rest(s, n1, tx) == Ok::<(Term, int), Failure>((tx, n1)));
    assert(multiplication(s, 0) == Ok::<(Term, int), Failure>((tx, n1)));
    assert(multiplication_rest(s, n3, yz) == Ok::<(Term, int), Failure>((yz, n3)));
    assert(multiplication_rest(s, n2, ty) == Ok::<(Term, int), Failure>((yz, n3)));
    assert(multiplication(s, n1 + 1) == Ok::<(Term, int), Failure>((yz, n3)));
    assert(addition_rest(s, n3, r) == Ok::<(Term, int), Failure>((r, n3)));
    assert(addition_rest(s, n1, tx) == Ok::<(Term, int), Failure>((r, n3)));
    assert(expression(s, 0) == Ok::<(Term, int), Failure>((r, n3)));

    let t = x + seq![o2] + y + seq![o1] + z;
    lemma_three_numerals(x, o2, y, o1, z);
    let xy = Term::Binary(operator(o2), Box::new(tx), Box::new(ty));
    let q = Term::Binary(operator(o1), Box::new(xy), Box::new(tz));
    assert(multiplication_rest(t, n2, xy) == Ok::<(Term, int), Failure>((xy, n2)));
    assert(multiplication_rest(t, n1, tx) == Ok::<(Term, int), Failure>((xy, n2)));
    assert(multiplication(t, 0) == Ok::<(Term, int), Failure>((xy, n2)));
    assert(multiplication_rest(t, n3, tz) == Ok::<(Term, int), Failure>((tz, n3)));
    assert(multiplication(t, n2 + 1) == Ok::<(Term, int), Failure>((tz, n3)));
    assert(addition_rest(t, n3, q) == Ok::<(Term, int), Failure>((q, n3)));
    assert(addition_rest(t, n2, xy) == Ok::<(Term, int), Failure>((q, n3)));
    assert(expression(t, 0) == Ok::<(Term, int), Failure>((q, n3)));
}

/// Unary minus takes the operand right after it, before any binary operator:
/// `-a o b` reads as `(-a) o b`, while `-(a o b)` negates the whole group.
pub proof fn lemma_unary_minus(a: char, o: char, b: char)
    requires
        is_digit(a) && is_digit(b),
        is_additive(o) || is_multiplicative(o),
    ensures
        evaluation(seq!['-', a, o, b]) == Ok::<Term, Failure>(
            Term::Binary(
                operator(o),
                Box::new(Term::Negate(Box::new(digit_term(a)))),
                Box::new(digit_term(b)),
            ),
        ),
        evaluation(seq!['-', '(', a, o, b, ')']) == Ok::<Term, Failure>(
            Term::Negate(
                Box::new(Term::Binary(operator(o), Box::new(digit_term(a)), Box::new(digit_term(b)))),
            ),
        ),
{
    let (ta, tb) = (digit_term(a), digit_term(b));
    let na = Term::Negate(Box::new(ta));
    let r = Term::Binary(operator(o), Box::new(na), Box::new(tb));
    let s = seq!['-', a, o, b];
    assert forall|i: int| 0 <= i < s.len() implies !is_whitespace(s[i]) by {}
    lemma_strip_no_whitespace(s);
    lemma_digit_operand(s, 1);
    lemma_digit_operand(s, 3);
    assert(char_at(s, 0) == '-' && char_at(s, 2) == o && char_at(s, 4) == crate::parser::END);
    assert(parentheses(s, 1) == unary(s, 1));
    assert(unary(s, 0) == Ok::<(Term, int), Failure>((na, 2)));
    if is_additive(o) {
        assert(multiplication_rest(s, 2, na) == Ok::<(Term, int), Failure>((na, 2)));
        assert(multiplication(s, 0) == Ok::<(Term, int), Failure>((na, 2)));
        assert(multiplication_rest(s, 4, tb) == Ok::<(Term, int), Failure>((tb, 4)));
        assert(multiplication(s, 3) == Ok::<(Term, int), Failure>((tb, 4)));
        assert(addition_rest(s, 4, r) == Ok::<(Term, int), Failure>((r, 4)));
        assert(addition_rest(s, 2, na) == Ok::<(Term, int), Failure>((r, 4)));
    } else {
        assert(multiplication_rest(s, 4, r) == Ok::<(Term, int), Failure>((r, 4)));
        assert(multiplication_rest(s, 2, na) == Ok::<(Term, int), Failure>((r, 4)));
        assert(multiplication(s, 0) == Ok::<(Term, int), Failure>((r, 4)));
        assert(addition_rest(s, 4, r) == Ok::<(Term, int), Failure>((r, 4)));
    }
    assert(expression(s, 0) == Ok::<(Term, int), Failure>((r, 4)));

    let t = seq!['-', '(', a, o, b, ')'];
    let ab = Term::Binary(operator(o), Box::new(ta), Box::new(tb));
    let n = Term::Negate(Box::new(ab));
    assert forall|i: int| 0 <= i < t.len() implies !is_whitespace(t[i]) by {}
    lemma_strip_no_whitespace(t);
    lemma_digit_operand(t, 2);
    lemma_digit_operand(t, 4);
    assert(char_at(t, 0) == '-' && char_at(t, 1) == '(' && char_at(t, 3) == o);
    assert(char_at(t, 5) == ')' && char_at(t, 6) == crate::parser::END);
    if is_additive(o) {
        assert(multiplication_rest(t, 3, ta) == Ok::<(Term, int), Failure>((ta, 3)));
        assert(multiplication(t, 2) == Ok::<(Term, int), Failure>((ta, 3)));
        assert(multiplication_rest(t, 5, tb) == Ok::<(Term, int), Failure>((tb, 5)));
        assert(multiplication(t, 4) == Ok::<(Term, int), Failure>((tb, 5)));
        assert(addition_rest(t, 5, ab) == Ok::<(Term, int), Failure>((ab, 5)));
        assert(addition_rest(t, 3, ta) == Ok::<(Term, int), Failure>((ab, 5)));
    } else {
        assert(multiplication_rest(t, 5, ab) == Ok::<(Term, int), Failure>((ab, 5)));
        assert(multiplication_rest(t, 3, ta) == Ok::<(Term, int), Failure>((ab, 5)));
        assert(multiplication(t, 2) == Ok::<(Term, int), Failure>((ab, 5)));
        assert(addition_rest(t, 5, ab) == Ok::<(Term, int), Failure>((ab, 5)));
    }
    assert(expression(t, 2) == Ok::<(Term, int), Failure>((ab, 5)));
    assert(parentheses(t, 1) == Ok::<(Term, int), Failure>((ab, 6)));
    assert(unary(t, 0) == Ok::<(Term, int), Failure>((n, 6)));
    assert(multiplication_rest(t, 6, n) == Ok::<(Term, int), Failure>((n, 6)));
    assert(multiplication(t, 0) == Ok::<(Term, int), Failure>((n, 6)));
    assert(addition_rest(t, 6, n) == Ok::<(Term, int), Failure>((n, 6)));
    assert(expression(t, 0) == Ok::<(Term, int), Failure>((n, 6)));
}

} // verus!
