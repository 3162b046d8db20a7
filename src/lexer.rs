use vstd::prelude::*;

use crate::model::{
    args_fit_from, column_at, digit, digits_value, fits, lemma_digits_prefix, lemma_lex_len,
    lemma_run_end, lemma_token_advances, letter, lex_from, line_at, run_end, token_at, white,
    CharClass,
};
use crate::structures::{Error, Pos, Side, Token};
use crate::text::{chars_of, push_char};
use crate::util::{PosChars, WithPosChars};

verus! {

fn is_letter(c: char) -> (r: bool)
    ensures
        r == letter(c),
{
    ('a' <= c && c <= 'z') || ('A' <= c && c <= 'Z')
}

fn is_digit(c: char) -> (r: bool)
    ensures
        r == digit(c),
{
    '0' <= c && c <= '9'
}

fn is_white(c: char) -> (r: bool)
    ensures
        r == white(c),
{
    ('\u{9}' <= c && c <= '\u{d}') || c == ' ' || c == '\u{85}' || c == '\u{a0}' || c == '\u{1680}'
        || ('\u{2000}' <= c && c <= '\u{200a}') || c == '\u{2028}' || c == '\u{2029}' || c
        == '\u{202f}' || c == '\u{205f}' || c == '\u{3000}'
}

/// Lexer (tokeniser) for LaTeX maths-mode code; TeX calls this the mouth.
/// Each call of `next_token` yields the next token with the position of its first character.
pub struct Lexer {
    chars: PosChars,
}

impl Lexer {
    /// All characters of the input.
    pub closed spec fn source(self) -> Seq<char> {
        self.chars.source()
    }

    /// How many characters of the input have been consumed.
    pub closed spec fn index(self) -> nat {
        self.chars.index()
    }

    /// The token that the next call of `next_token` yields fits the machine.
    pub open spec fn next_fits(self) -> bool {
        self.index() < self.source().len() ==> fits(
            token_at(self.source(), self.index() as int).0,
        )
    }

    /// Creates a lexer for `code`.
    pub fn new(code: &str) -> (r: Lexer)
        ensures
            r.source() == code@,
            r.index() == 0,
    {
        Lexer { chars: chars_of(code).with_pos() }
    }

    /// Creates a lexer over a character source.
    pub fn from_pos_chars(chars: PosChars) -> (r: Lexer)
        ensures
            r.source() == chars.source(),
            r.index() == chars.index(),
    {
        Lexer { chars }
    }

    /// Yields the next token with the position of its first character, or `None` once the
    /// input is exhausted. An embedded NUL yields `Token::Eof`; lexing goes on after it.
    pub fn next_token(&mut self) -> (r: Option<Pos<Token>>)
        requires
            old(self).next_fits(),
        ensures
            final(self).source() == old(self).source(),
            ({
                let s = old(self).source();
                let i = old(self).index() as int;
                if i < s.len() {
                    &&& r is Some
                    &&& r->0.val@ == token_at(s, i).0
                    &&& r->0.span.line() == line_at(s, i)
                    &&& r->0.span.column() == column_at(s, i)
                    &&& final(self).index() == token_at(s, i).1
                } else {
                    &&& r is None
                    &&& final(self).index() == i
                }
            }),
    {
        let ghost s = self.source();
        let ghost i = self.index() as int;
        let pch = match self.chars.next() {
            Some(p) => p,
            None => return None,
        };
        let ch = pch.val;
        let tok = if ch == '{' {
            Token::Brace(Side::Left)
        } else if ch == '}' {
            Token::Brace(Side::Right)
        } else if ch == '&' {
            Token::Ampersand
        } else if ch == '\0' {
            Token::Eof
        } else if ch == '\\' {
            match self.chars.next() {
                None => Token::Control(String::new()),
                Some(n) => {
                    if is_letter(n.val) {
                        proof {
                            lemma_run_end(s, i + 2, CharClass::Letter);
                        }
                        let name = self.collect_command(n.val);
                        proof {
                            assert(name@ =~= s.subrange(i + 1, self.index() as int));
                        }
                        Token::Control(name)
                    } else {
                        let mut name = String::new();
                        push_char(&mut name, n.val);
                        proof {
                            assert(name@ =~= seq![s[i + 1]]);
                        }
                        Token::Control(name)
                    }
                }
            }
        } else if ch == '%' {
            proof {
                lemma_run_end(s, i + 1, CharClass::CommentBody);
            }
            Token::Comment(self.build_comment())
        } else if ch == '#' {
            match self.chars.next() {
                None => Token::Error(Error::IllegalChar('#')),
                Some(n) => {
                    if is_digit(n.val) {
                        proof {
                            lemma_run_end(s, i + 2, CharClass::Digit);
                            let e = run_end(s, i + 2, CharClass::Digit);
                            assert(seq![n.val] + s.subrange(i + 2, e) =~= s.subrange(i + 1, e));
                        }
                        Token::Arg(self.collect_arg(n.val))
                    } else {
                        Token::Error(Error::IllegalChar('#'))
                    }
                }
            }
        } else if is_white(ch) {
            proof {
                lemma_run_end(s, i + 1, CharClass::White);
            }
            let text = self.collect_whitespace(ch);
            proof {
                assert(text@ =~= s.subrange(i, self.index() as int));
            }
            Token::Whitespace(text)
        } else {
            Token::Char(ch)
        };
        Some(Pos::new(tok, pch.span))
    }

    /// Lexes the rest of the input: the tokens that repeated calls of `next_token` yield.
    pub fn collect_tokens(self) -> (r: Vec<Pos<Token>>)
        requires
            args_fit_from(self.source(), self.index() as int),
        ensures
            r.len() == lex_from(self.source(), self.index() as int).len(),
            forall|k: int|
                0 <= k < r.len() ==> {
                    let (t, start) = #[trigger] lex_from(self.source(), self.index() as int)[k];
                    &&& r[k].val@ == t
                    &&& r[k].span.line() == line_at(self.source(), start)
                    &&& r[k].span.column() == column_at(self.source(), start)
                },
    {
        let ghost s = self.source();
        let ghost all = lex_from(s, self.index() as int);
        let mut lexer = self;
        let mut r: Vec<Pos<Token>> = Vec::new();
        loop
            invariant
                lexer.source() == s,
                r.len() <= all.len(),
                lex_from(s, lexer.index() as int) == all.skip(r.len() as int),
                forall|k: int| 0 <= k < all.len() ==> fits(#[trigger] all[k].0),
                forall|k: int|
                    0 <= k < r.len() ==> {
                        let (t, start) = #[trigger] all[k];
                        &&& r[k].val@ == t
                        &&& r[k].span.line() == line_at(s, start)
                        &&& r[k].span.column() == column_at(s, start)
                    },
            ensures
                r.len() == all.len(),
            decreases s.len() - lexer.index(),
        {
            let ghost i = lexer.index() as int;
            let ghost n = r.len() as int;
            proof {
                if i < s.len() {
                    lemma_lex_len(s, i);
                    assert(all.skip(n)[0] == all[n]);
                } else {
                    assert(all.skip(n).len() == 0);
                }
            }
            match lexer.next_token() {
                None => {
                    break;
                },
                Some(p) => {
                    proof {
                        lemma_token_advances(s, i);
                        assert(all.skip(n + 1) =~= all.skip(n).drop_first());
                        assert(lex_from(s, i).drop_first() =~= lex_from(s, token_at(s, i).1));
                    }
                    r.push(p);
                },
            }
        }
        r
    }

    /// Bounds on the number of tokens left: at most one per character left,
    /// and at least one while a character is left.
    pub fn size_hint(&self) -> (r: (usize, Option<usize>))
        ensures
            r.1 == Some((self.source().len() - self.index()) as usize),
            r.0 == (if self.index() < self.source().len() { 1usize } else { 0usize }),
            r.0 <= lex_from(self.source(), self.index() as int).len() <= self.source().len()
                - self.index(),
    {
        let (chars_min, chars_max) = self.chars.size_hint();
        proof {
            lemma_lex_len(self.source(), self.index() as int);
        }
        if chars_min == 0 {
            (0, chars_max)
        } else {
            (1, chars_max)
        }
    }

    /// Builds a comment string from the characters after `%`, up to a newline, NUL or the end.
    fn build_comment(&mut self) -> (r: String)
        requires
            old(self).index() <= old(self).source().len(),
        ensures
            final(self).source() == old(self).source(),
            final(self).index() == run_end(
                old(self).source(),
                old(self).index() as int,
                CharClass::CommentBody,
            ),
            r@ == old(self).source().subrange(
                old(self).index() as int,
                final(self).index() as int,
            ),
    {
        let mut buffer = String::new();
        self.collect_run(&mut buffer, CharClass::CommentBody);
        buffer
    }

    /// Collects a command name: `current`, then the run of ASCII letters that follows.
    fn collect_command(&mut self, current: char) -> (r: String)
        requires
            old(self).index() <= old(self).source().len(),
        ensures
            final(self).source() == old(self).source(),
            final(self).index() == run_end(
                old(self).source(),
                old(self).index() as int,
                CharClass::Letter,
            ),
            r@ == seq![current] + old(self).source().subrange(
                old(self).index() as int,
                final(self).index() as int,
            ),
    {
        let mut buffer = String::new();
        push_char(&mut buffer, current);
        self.collect_run(&mut buffer, CharClass::Letter);
        buffer
    }

    /// Collects whitespace: `current`, then the run of whitespace that follows.
    fn collect_whitespace(&mut self, current: char) -> (r: String)
        requires
            old(self).index() <= old(self).source().len(),
        ensures
            final(self).source() == old(self).source(),
            final(self).index() == run_end(
                old(self).source(),
                old(self).index() as int,
                CharClass::White,
            ),
            r@ == seq![current] + old(self).source().subrange(
                old(self).index() as int,
                final(self).index() as int,
            ),
    {
        let mut buffer = String::new();
        push_char(&mut buffer, current);
        self.collect_run(&mut buffer, CharClass::White);
        buffer
    }

    /// Reads an argument number: the digit `current`, then the run of digits that follows.
    fn collect_arg(&mut self, current: char) -> (r: usize)
        requires
            digit(current),
            old(self).index() <= old(self).source().len(),
            digits_value(
                seq![current] + old(self).source().subrange(
                    old(self).index() as int,
                    run_end(old(self).source(), old(self).index() as int, CharClass::Digit),
                ),
            ) <= usize::MAX,
        ensures
            final(self).source() == old(self).source(),
            final(self).index() == run_end(
                old(self).source(),
                old(self).index() as int,
                CharClass::Digit,
            ),
            r == digits_value(
                seq![current] + old(self).source().subrange(
                    old(self).index() as int,
                    final(self).index() as int,
                ),
            ),
    {
        let ghost s = self.source();
        let ghost i0 = self.index() as int;
        let ghost e = run_end(s, i0, CharClass::Digit);
        let ghost full = seq![current] + s.subrange(i0, e);
        proof {
            lemma_run_end(s, i0, CharClass::Digit);
            let one = seq![current];
            assert(one.drop_last() =~= Seq::<char>::empty());
            assert(full.take(1) =~= one);
            assert(one + s.subrange(i0, i0) =~= one);
            assert(digits_value(Seq::<char>::empty()) == 0);
            assert(digits_value(one) == (current as u32 - '0' as u32) as nat);
            lemma_digits_prefix(full, 1);
        }
        let mut value: usize = (current as u32 - '0' as u32) as usize;
        loop
            invariant
                self.source() == s,
                0 <= i0 <= self.index() <= e <= s.len(),
                run_end(s, self.index() as int, CharClass::Digit) == e,
                full == seq![current] + s.subrange(i0, e),
                digits_value(full) <= usize::MAX,
                value == digits_value(seq![current] + s.subrange(i0, self.index() as int)),
            ensures
                self.index() == e,
            decreases s.len() - self.index(),
        {
            let c = match self.chars.peek() {
                Some(c) => c,
                None => break,
            };
            if !is_digit(c) {
                break;
            }
            let ghost j = self.index() as int;
            let ghost before = seq![current] + s.subrange(i0, j);
            let ghost after = seq![current] + s.subrange(i0, j + 1);
            proof {
                lemma_run_end(s, j + 1, CharClass::Digit);
                assert(after =~= before.push(c));
                assert(after.drop_last() =~= before);
                assert(full.take(after.len() as int) =~= after);
                lemma_digits_prefix(full, after.len() as int);
            }
            self.chars.next();
            value = value * 10 + (c as u32 - '0' as u32) as usize;
        }
        value
    }

    /// Consumes characters while they are of class `k`, appending them to `buffer`.
    fn collect_run(&mut self, buffer: &mut String, k: CharClass)
        requires
            old(self).index() <= old(self).source().len(),
        ensures
            final(self).source() == old(self).source(),
            final(self).index() == run_end(old(self).source(), old(self).index() as int, k),
            final(buffer)@ == old(buffer)@ + old(self).source().subrange(
                old(self).index() as int,
                final(self).index() as int,
            ),
    {
        let ghost s = self.source();
        let ghost i0 = self.index() as int;
        let ghost e = run_end(s, i0, k);
        let ghost b0 = buffer@;
        proof {
            assert(b0 =~= b0 + s.subrange(i0, i0));
        }
        loop
            invariant
                self.source() == s,
                0 <= i0 <= self.index() <= s.len(),
                run_end(s, self.index() as int, k) == e,
                buffer@ == b0 + s.subrange(i0, self.index() as int),
            ensures
                self.index() == e,
            decreases s.len() - self.index(),
        {
            let c = match self.chars.peek() {
                Some(c) => c,
                None => break,
            };
            let take = match k {
                CharClass::Letter => is_letter(c),
                CharClass::Digit => is_digit(c),
                CharClass::White => is_white(c),
                CharClass::CommentBody => c != '\n' && c != '\0',
            };
            if !take {
                break;
            }
            let ghost j = self.index() as int;
            self.chars.next();
            push_char(buffer, c);
            assert(s.subrange(i0, j + 1) =~= s.subrange(i0, j).push(c));
            assert(buffer@ =~= b0 + s.subrange(i0, self.index() as int));
        }
    }
}

} // verus!
