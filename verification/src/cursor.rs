//! A read-only cursor over the codepoints of a text.

use vstd::prelude::*;

verus! {

/// The codepoint that stands at the end of every text: what a lookahead
/// returns when it reaches past the last codepoint.
pub const END_OF_TEXT: char = '\0';

/// The codepoint of `t` at `i`, or `END_OF_TEXT` where `t` has none there.
pub open spec fn char_at(t: Seq<char>, i: int) -> char {
    if 0 <= i < t.len() {
        t[i]
    } else {
        END_OF_TEXT
    }
}

/// The number of newline codepoints among `t[from..to]`.
pub open spec fn newline_count(t: Seq<char>, from: int, to: int) -> nat
    decreases to - from,
{
    if from < 0 || to <= from || to > t.len() {
        0
    } else {
        newline_count(t, from, to - 1) + if t[to - 1] == '\n' {
            1nat
        } else {
            0nat
        }
    }
}

/// A stretch of text holds no more newlines than codepoints.
pub proof fn newline_count_bound(t: Seq<char>, from: int, to: int)
    ensures
        newline_count(t, from, to) <= if to >= from {
            to - from
        } else {
            0
        },
    decreases to - from,
{
    if !(from < 0 || to <= from || to > t.len()) {
        newline_count_bound(t, from, to - 1);
    }
}

/// A position in a text: the codepoints, the offset where reading began, the
/// current offset, and the number of newlines passed since reading began.
pub struct Cursor {
    pub chars: Vec<char>,
    pub origin: usize,
    pub offset: usize,
    pub line: usize,
}

impl Cursor {
    /// The offset lies between the origin and the end of the text, and the
    /// line counter is the number of newlines between origin and offset.
    pub open spec fn wf(&self) -> bool {
        &&& self.origin <= self.offset <= self.chars@.len()
        &&& self.line == newline_count(self.chars@, self.origin as int, self.offset as int)
    }

    /// A cursor over `chars` that starts at `origin`, on line 0.
    pub fn new(chars: Vec<char>, origin: usize) -> (cursor: Self)
        requires
            origin <= chars@.len(),
        ensures
            cursor.wf(),
            cursor.chars@ == chars@,
            cursor.origin == origin,
            cursor.offset == origin,
            cursor.line == 0,
    {
        Cursor { chars, origin, offset: origin, line: 0 }
    }

    pub fn is_at_end(&self) -> (at_end: bool)
        ensures
            at_end == (self.offset >= self.chars@.len()),
    {
        self.offset >= self.chars.len()
    }

    /// The codepoint at the offset, if there is one.
    pub fn current(&self) -> (c: Option<char>)
        ensures
            c == if self.offset < self.chars@.len() {
                Some(self.chars@[self.offset as int])
            } else {
                None
            },
    {
        if self.offset < self.chars.len() {
            Some(self.chars[self.offset])
        } else {
            None
        }
    }

    /// The codepoint `ahead` positions after the offset, or `END_OF_TEXT`.
    pub fn look(&self, ahead: usize) -> (c: char)
        ensures
            c == char_at(self.chars@, self.offset + ahead),
    {
        if ahead < self.chars.len() && self.offset < self.chars.len() - ahead {
            self.chars[self.offset + ahead]
        } else {
            END_OF_TEXT
        }
    }

    /// The codepoint one position after the offset, or `END_OF_TEXT`.
    pub fn peek(&self) -> (c: char)
        ensures
            c == char_at(self.chars@, self.offset + 1),
    {
        self.look(1)
    }

    /// The codepoint two positions after the offset, or `END_OF_TEXT`.
    pub fn peek_next(&self) -> (c: char)
        ensures
            c == char_at(self.chars@, self.offset + 2),
    {
        self.look(2)
    }

    /// Passes the codepoint at the offset and returns it; counts it if it is
    /// a newline. At the end of the text nothing changes.
    pub fn advance(&mut self) -> (passed: Option<char>)
        requires
            old(self).wf(),
        ensures
            final(self).wf(),
            final(self).chars == old(self).chars,
            final(self).origin == old(self).origin,
            passed == if old(self).offset < old(self).chars@.len() {
                Some(old(self).chars@[old(self).offset as int])
            } else {
                None
            },
            final(self).offset == if passed is Some {
                old(self).offset + 1
            } else {
                old(self).offset as int
            },
    {
        if self.offset >= self.chars.len() {
            return None;
        }
        let c = self.chars[self.offset];
        proof {
            newline_count_bound(self.chars@, self.origin as int, self.offset as int);
        }
        self.offset = self.offset + 1;
        if c == '\n' {
            self.line = self.line + 1;
        }
        Some(c)
    }

    /// Passes the codepoint at the offset if it is `expected`, and says
    /// whether it did.
    pub fn matches(&mut self, expected: char) -> (matched: bool)
        requires
            old(self).wf(),
        ensures
            final(self).wf(),
            final(self).chars == old(self).chars,
            final(self).origin == old(self).origin,
            matched == (old(self).offset < old(self).chars@.len() && old(self).chars@[old(
                self,
            ).offset as int] == expected),
            final(self).offset == if matched {
                old(self).offset + 1
            } else {
                old(self).offset as int
            },
    {
        if self.look(0) == expected && !self.is_at_end() {
            self.advance();
            true
        } else {
            false
        }
    }
}

} // verus!
