//! The mathematical description of lexing: character classes, maximal runs,
//! source positions and the token stream of a character sequence.
use vstd::prelude::*;

use crate::structures::{Error, Side, TokenModel};

verus! {

/// An ASCII letter.
pub open spec fn letter(c: char) -> bool {
    ('a' as u32 <= c as u32 <= 'z' as u32) || ('A' as u32 <= c as u32 <= 'Z' as u32)
}

/// An ASCII decimal digit.
pub open spec fn digit(c: char) -> bool {
    '0' as u32 <= c as u32 <= '9' as u32
}

/// A character with the Unicode `White_Space` property.
pub open spec fn white(c: char) -> bool {
    let u = c as u32;
    (0x9 <= u <= 0xd) || u == 0x20 || u == 0x85 || u == 0xa0 || u == 0x1680 || (0x2000 <= u
        <= 0x200a) || u == 0x2028 || u == 0x2029 || u == 0x202f || u == 0x205f || u == 0x3000
}

/// A character that may stand inside a comment: anything but a newline or NUL.
pub open spec fn comment_char(c: char) -> bool {
    c != '\n' && c != '\0'
}

/// The classes of characters that the lexer collects in runs.
pub enum CharClass {
    Letter,
    Digit,
    White,
    CommentBody,
}

/// Whether `c` belongs to class `k`.
pub open spec fn in_class(c: char, k: CharClass) -> bool {
    match k {
        CharClass::Letter => letter(c),
        CharClass::Digit => digit(c),
        CharClass::White => white(c),
        CharClass::CommentBody => comment_char(c),
    }
}

/// The end of the maximal run of characters of class `k` that starts at `i`.
pub open spec fn run_end(s: Seq<char>, i: int, k: CharClass) -> int
    decreases s.len() - i,
{
    if 0 <= i < s.len() && in_class(s[i], k) {
        run_end(s, i + 1, k)
    } else {
        i
    }
}

/// The value of a sequence of decimal digits.
pub open spec fn digits_value(ds: Seq<char>) -> nat
    decreases ds.len(),
{
    if ds.len() == 0 {
        0
    } else {
        digits_value(ds.drop_last()) * 10 + (ds.last() as u32 - '0' as u32) as nat
    }
}

/// The 1-based line of the character at index `i`.
pub open spec fn line_at(s: Seq<char>, i: int) -> nat
    decreases i,
{
    if i <= 0 {
        1
    } else if s[i - 1] == '\n' {
        line_at(s, i - 1) + 1
    } else {
        line_at(s, i - 1)
    }
}

/// The 1-based column of the character at index `i`.
pub open spec fn column_at(s: Seq<char>, i: int) -> nat
    decreases i,
{
    if i <= 0 {
        1
    } else if s[i - 1] == '\n' {
        1
    } else {
        column_at(s, i - 1) + 1
    }
}

/// The token that starts at index `i` of `s`, and the index just past it.
pub open spec fn token_at(s: Seq<char>, i: int) -> (TokenModel, int) {
    let c = s[i];
    if c == '{' {
        (TokenModel::Brace(Side::Left), i + 1)
    } else if c == '}' {
        (TokenModel::Brace(Side::Right), i + 1)
    } else if c == '&' {
        (TokenModel::Ampersand, i + 1)
    } else if c == '\0' {
        (TokenModel::Eof, i + 1)
    } else if c == '\\' {
        if i + 1 >= s.len() {
            (TokenModel::Control(Seq::empty()), i + 1)
        } else if letter(s[i + 1]) {
            let e = run_end(s, i + 2, CharClass::Letter);
            (TokenModel::Control(s.subrange(i + 1, e)), e)
        } else {
            (TokenModel::Control(seq![s[i + 1]]), i + 2)
        }
    } else if c == '%' {
        let e = run_end(s, i + 1, CharClass::CommentBody);
        (TokenModel::Comment(s.subrange(i + 1, e)), e)
    } else if c == '#' {
        if i + 1 < s.len() && digit(s[i + 1]) {
            let e = run_end(s, i + 2, CharClass::Digit);
            (TokenModel::Arg(digits_value(s.subrange(i + 1, e))), e)
        } else {
            (TokenModel::Error(Error::IllegalChar('#')), if i + 1 < s.len() { i + 2 } else { i + 1 })
        }
    } else if white(c) {
        let e = run_end(s, i + 1, CharClass::White);
        (TokenModel::Whitespace(s.subrange(i, e)), e)
    } else {
        (TokenModel::Char(c), i + 1)
    }
}

/// The token stream from index `i` on: each token with the index of its first character.
pub open spec fn lex_from(s: Seq<char>, i: int) -> Seq<(TokenModel, int)>
    decreases s.len() - i,
    via lex_from_decreases
{
    if 0 <= i < s.len() {
        seq![(token_at(s, i).0, i)] + lex_from(s, token_at(s, i).1)
    } else {
        Seq::empty()
    }
}

/// The whole token stream of `s`.
pub open spec fn lex(s: Seq<char>) -> Seq<(TokenModel, int)> {
    lex_from(s, 0)
}

/// A token fits the machine: an argument number is at most `usize::MAX`.
pub open spec fn fits(t: TokenModel) -> bool {
    t matches TokenModel::Arg(n) ==> n <= usize::MAX
}

/// Every argument number in the stream from `i` on is at most `usize::MAX`.
pub open spec fn args_fit_from(s: Seq<char>, i: int) -> bool {
    forall|k: int| 0 <= k < lex_from(s, i).len() ==> fits(#[trigger] lex_from(s, i)[k].0)
}

pub proof fn lemma_run_end(s: Seq<char>, i: int, k: CharClass)
    requires
        0 <= i <= s.len(),
    ensures
        i <= run_end(s, i, k) <= s.len(),
        forall|j: int| i <= j < run_end(s, i, k) ==> in_class(#[trigger] s[j], k),
        run_end(s, i, k) == s.len() || !in_class(s[run_end(s, i, k)], k),
    decreases s.len() - i,
{
    if i < s.len() && in_class(s[i], k) {
        lemma_run_end(s, i + 1, k);
    }
}

pub proof fn lemma_token_advances(s: Seq<char>, i: int)
    requires
        0 <= i < s.len(),
    ensures
        i < token_at(s, i).1 <= s.len(),
{
    if i + 1 <= s.len() {
        lemma_run_end(s, i + 1, CharClass::CommentBody);
        lemma_run_end(s, i + 1, CharClass::White);
    }
    if i + 2 <= s.len() {
        lemma_run_end(s, i + 2, CharClass::Letter);
        lemma_run_end(s, i + 2, CharClass::Digit);
    }
}

/// The stream from `i` has at most one token per character, and at least one token
/// when a character is left.
pub proof fn lemma_lex_len(s: Seq<char>, i: int)
    requires
        0 <= i <= s.len(),
    ensures
        lex_from(s, i).len() <= s.len() - i,
        i < s.len() ==> lex_from(s, i).len() >= 1,
    decreases s.len() - i,
{
    if i < s.len() {
        lemma_token_advances(s, i);
        lemma_lex_len(s, token_at(s, i).1);
    }
}

#[via_fn]
proof fn lex_from_decreases(s: Seq<char>, i: int) {
    if 0 <= i < s.len() {
        lemma_token_advances(s, i);
    }
}

pub proof fn lemma_position_bounds(s: Seq<char>, i: int)
    requires
        0 <= i,
    ensures
        1 <= line_at(s, i) <= i + 1,
        1 <= column_at(s, i) <= i + 1,
    decreases i,
{
    if i > 0 {
        lemma_position_bounds(s, i - 1);
    }
}

/// A prefix of a digit sequence has at most the value of the whole.
pub proof fn lemma_digits_prefix(ds: Seq<char>, k: int)
    requires
        0 <= k <= ds.len(),
    ensures
        digits_value(ds.take(k)) <= digits_value(ds),
    decreases ds.len(),
{
    if k == ds.len() {
        assert(ds.take(k) =~= ds);
    } else {
        lemma_digits_prefix(ds.drop_last(), k);
        assert(ds.drop_last().take(k) =~= ds.take(k));
    }
}

} // verus!
