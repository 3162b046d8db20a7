use vstd::prelude::*;

use crate::model::{column_at, lemma_position_bounds, line_at};
use crate::structures::{Pos, Span};
use crate::text::chars_of;

verus! {

/// A character source that annotates each character with its line and column.
///
/// Lines and columns count from 1; after a newline the line grows by one and
/// the column starts again at 1, after any other character the column grows by one.
pub struct PosChars {
    chars: Vec<char>,
    at: Cursor,
}

/// The index of the next character, and its line and column.
#[derive(Clone, Copy)]
struct Cursor {
    idx: usize,
    lin: usize,
    col: usize,
}

impl PosChars {
    #[verifier::type_invariant]
    spec fn inv(self) -> bool {
        &&& self.at.idx <= self.chars.len()
        &&& self.at.idx < self.chars.len() ==> {
            &&& self.at.lin == line_at(self.chars@, self.at.idx as int)
            &&& self.at.col == column_at(self.chars@, self.at.idx as int)
        }
    }

    /// All characters of the source, consumed or not.
    pub closed spec fn source(self) -> Seq<char> {
        self.chars@
    }

    /// How many characters have been consumed.
    pub closed spec fn index(self) -> nat {
        self.at.idx as nat
    }

    /// Starts at the first character of `chars`, at line 1, column 1.
    pub fn from_chars(chars: Vec<char>) -> (r: PosChars)
        ensures
            r.source() == chars@,
            r.index() == 0,
    {
        PosChars { chars, at: Cursor { idx: 0, lin: 1, col: 1 } }
    }

    /// The next character, without consuming it.
    pub fn peek(&self) -> (r: Option<char>)
        ensures
            self.index() <= self.source().len(),
            r == (if self.index() < self.source().len() {
                Some(self.source()[self.index() as int])
            } else {
                None::<char>
            }),
    {
        proof { use_type_invariant(self); }
        if self.at.idx < self.chars.len() {
            Some(self.chars[self.at.idx])
        } else {
            None
        }
    }

    /// Consumes the next character and returns it with its position.
    pub fn next(&mut self) -> (r: Option<Pos<char>>)
        ensures
            final(self).source() == old(self).source(),
            old(self).index() <= old(self).source().len(),
            final(self).index() <= final(self).source().len(),
            match r {
                None => {
                    &&& old(self).index() == old(self).source().len()
                    &&& final(self).index() == old(self).index()
                },
                Some(p) => {
                    let i = old(self).index() as int;
                    &&& i < old(self).source().len()
                    &&& final(self).index() == i + 1
                    &&& p.val == old(self).source()[i]
                    &&& p.span.line() == line_at(old(self).source(), i)
                    &&& p.span.column() == column_at(old(self).source(), i)
                },
            },
    {
        proof { use_type_invariant(&*self); }
        let at = self.at;
        if at.idx >= self.chars.len() {
            return None;
        }
        let ch = self.chars[at.idx];
        proof { lemma_position_bounds(self.chars@, at.idx as int); }
        let span = Span::new(at.lin, at.col);
        let next = if at.idx + 1 >= self.chars.len() {
            Cursor { idx: at.idx + 1, lin: at.lin, col: at.col }
        } else if ch == '\n' {
            Cursor { idx: at.idx + 1, lin: at.lin + 1, col: 1 }
        } else {
            Cursor { idx: at.idx + 1, lin: at.lin, col: at.col + 1 }
        };
        self.at = next;
        Some(Pos::new(ch, span))
    }

    /// The number of characters left: the bounds are exact.
    pub fn size_hint(&self) -> (r: (usize, Option<usize>))
        ensures
            r.0 == self.source().len() - self.index(),
            r.1 == Some(r.0),
    {
        proof { use_type_invariant(self); }
        let n = self.chars.len() - self.at.idx;
        (n, Some(n))
    }
}

/// A finite sequence of characters that can be read with positions.
pub trait WithPosChars: Sized {
    /// The characters, in order.
    spec fn char_seq(&self) -> Seq<char>;

    fn with_pos(self) -> (r: PosChars)
        ensures
            r.source() == self.char_seq(),
            r.index() == 0,
    ;
}

impl WithPosChars for Vec<char> {
    open spec fn char_seq(&self) -> Seq<char> {
        self@
    }

    fn with_pos(self) -> (r: PosChars) {
        PosChars::from_chars(self)
    }
}

impl WithPosChars for String {
    open spec fn char_seq(&self) -> Seq<char> {
        self@
    }

    fn with_pos(self) -> (r: PosChars) {
        PosChars::from_chars(chars_of(self.as_str()))
    }
}

} // verus!
