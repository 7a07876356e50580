use vstd::prelude::*;
use vstd::std_specs::iter::IteratorSpec;

verus! {

/// The character that `peek` reports at or past the end of the input.
pub const END: char = '\0';

/// The character at position `p` of `s`, or `END` outside the text.
pub open spec fn char_at(s: Seq<char>, p: int) -> char {
    if 0 <= p < s.len() {
        s[p]
    } else {
        END
    }
}

/// The characters that `char::is_whitespace` accepts: those of Unicode's
/// `White_Space` property.
pub open spec fn is_whitespace(c: char) -> bool {
    ||| '\u{9}' <= c <= '\u{d}'
    ||| c == ' '
    ||| c == '\u{85}'
    ||| c == '\u{a0}'
    ||| c == '\u{1680}'
    ||| '\u{2000}' <= c <= '\u{200a}'
    ||| c == '\u{2028}'
    ||| c == '\u{2029}'
    ||| c == '\u{202f}'
    ||| c == '\u{205f}'
    ||| c == '\u{3000}'
}

/// Whether `c` is whitespace.
pub fn is_white(c: char) -> (r: bool)
    ensures
        r == is_whitespace(c),
{
    ('\u{9}' <= c && c <= '\u{d}') || c == ' ' || c == '\u{85}' || c == '\u{a0}' || c
        == '\u{1680}' || ('\u{2000}' <= c && c <= '\u{200a}') || c == '\u{2028}' || c
        == '\u{2029}' || c == '\u{202f}' || c == '\u{205f}' || c == '\u{3000}'
}

/// The text with all whitespace removed, order kept.
pub open spec fn strip_whitespace(s: Seq<char>) -> Seq<char>
    decreases s.len(),
{
    if s.len() == 0 {
        Seq::empty()
    } else if is_whitespace(s.last()) {
        strip_whitespace(s.drop_last())
    } else {
        strip_whitespace(s.drop_last()).push(s.last())
    }
}

/// A cursor over an expression with its whitespace removed. The position
/// only moves forward; past the end `peek` reports `END`.
pub struct Parser {
    index: usize,
    expr: Vec<char>,
}

impl Parser {
    /// The characters being read.
    pub closed spec fn text(&self) -> Seq<char> {
        self.expr@
    }

    /// The read position.
    pub closed spec fn pos(&self) -> int {
        self.index as int
    }

    /// The text and the position fit the machine's sizes.
    pub open spec fn wf(&self) -> bool {
        &&& self.text().len() <= usize::MAX
        &&& 0 <= self.pos() <= usize::MAX
    }

    pub fn new(expr: String) -> (r: Self)
        ensures
            r.wf(),
            r.text() == strip_whitespace(expr@),
            r.pos() == 0,
    {
        let mut chars: Vec<char> = Vec::new();
        broadcast use vstd::string::axiom_spec_iter;
        let mut it = expr.as_str().chars();
        let ghost all = expr@;
        let ghost mut seen: Seq<char> = Seq::empty();
        loop
            invariant
                all == seen + it.remaining(),
                chars@ == strip_whitespace(seen),
                it.decrease() is Some,
            ensures
                chars@ == strip_whitespace(all),
            decreases it.decrease()->0,
        {
            let ghost before = it.remaining();
            match it.next() {
                Some(c) => {
                    proof {
                        assert(before == seq![c] + it.remaining());
                        assert(all =~= seen.push(c) + it.remaining());
                        assert(seen.push(c).drop_last() == seen);
                        seen = seen.push(c);
                    }
                    if !is_white(c) {
                        chars.push(c);
                    }
                },
                None => {
                    assert(all =~= seen);
                    break;
                },
            }
        }
        let n = chars.len();
        assert(chars@.len() == n);
        Parser { index: 0, expr: chars }
    }

    /// Moves one character on; past the end `peek` goes on reporting `END`.
    pub fn advance(&mut self)
        requires
            old(self).wf(),
            old(self).pos() < usize::MAX,
        ensures
            final(self).wf(),
            final(self).text() == old(self).text(),
            final(self).pos() == old(self).pos() + 1,
    {
        self.index += 1;
    }

    pub fn peek(&self) -> (r: char)
        ensures
            r == char_at(self.text(), self.pos()),
    {
        if self.index >= self.expr.len() {
            END
        } else {
            self.expr[self.index]
        }
    }

    /// Steps over `c` when it is the current character, else fails with `msg`
    /// and moves nothing.
    pub fn consume(&mut self, c: char, msg: &str) -> (r: Result<(), String>)
        requires
            old(self).wf(),
            char_at(old(self).text(), old(self).pos()) == c ==> old(self).pos() < usize::MAX,
        ensures
            final(self).wf(),
            final(self).text() == old(self).text(),
            r is Ok <==> char_at(old(self).text(), old(self).pos()) == c,
            r is Ok ==> final(self).pos() == old(self).pos() + 1,
            r is Err ==> final(self).pos() == old(self).pos(),
            r is Err ==> r->Err_0@ == msg@,
    {
        if self.peek() == c {
            self.advance();
            Ok(())
        } else {
            Err(msg.to_string())
        }
    }
}

} // verus!
