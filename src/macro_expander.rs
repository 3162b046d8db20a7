use vstd::prelude::*;

use crate::lexer::Lexer;
use crate::model::{column_at, line_at, token_at};
use crate::structures::{Pos, Token};

verus! {

/// Expands macros in a token stream; TeX calls this the gullet.
/// No expansion rule is defined yet, so every token passes through unchanged.
pub struct ExpandMacros<I> {
    lexer: I,
}

impl<I> ExpandMacros<I> {
    /// The token source being expanded.
    pub closed spec fn inner(self) -> I {
        self.lexer
    }

    pub fn new(lexer: I) -> (r: ExpandMacros<I>)
        ensures
            r.inner() == lexer,
    {
        ExpandMacros { lexer }
    }
}

impl ExpandMacros<Lexer> {
    /// The next token of the expanded stream: the lexer's next token.
    pub fn next_token(&mut self) -> (r: Option<Pos<Token>>)
        requires
            old(self).inner().next_fits(),
        ensures
            final(self).inner().source() == old(self).inner().source(),
            ({
                let s = old(self).inner().source();
                let i = old(self).inner().index() as int;
                if i < s.len() {
                    &&& r is Some
                    &&& r->0.val@ == token_at(s, i).0
                    &&& r->0.span.line() == line_at(s, i)
                    &&& r->0.span.column() == column_at(s, i)
                    &&& final(self).inner().index() == token_at(s, i).1
                } else {
                    &&& r is None
                    &&& final(self).inner().index() == i
                }
            }),
    {
        self.lexer.next_token()
    }

    /// The bounds of the lexer's `size_hint`.
    pub fn size_hint(&self) -> (r: (usize, Option<usize>))
        ensures
            r.1 == Some((self.inner().source().len() - self.inner().index()) as usize),
            r.0 == (if self.inner().index() < self.inner().source().len() {
                1usize
            } else {
                0usize
            }),
    {
        self.lexer.size_hint()
    }
}

impl Lexer {
    /// Wraps the lexer's token stream for macro expansion.
    pub fn expand_macros(self) -> (r: ExpandMacros<Lexer>)
        ensures
            r.inner() == self,
    {
        ExpandMacros::new(self)
    }
}

} // verus!
