//! Properties of the token stream, proved over the model that the lexer's contracts use.
use vstd::prelude::*;

use crate::model::{
    column_at, digit, digits_value, in_class, lemma_lex_len, lemma_run_end,
    lemma_token_advances, lex, lex_from, line_at, run_end, token_at, white, CharClass,
};
use crate::structures::{Error, TokenModel};

verus! {

/// Each token of the stream from `i` starts inside the input, and each token after the
/// first starts where the one before it ends.
pub proof fn lemma_lex_from_starts(s: Seq<char>, i: int, k: int)
    requires
        0 <= i <= s.len(),
        0 <= k < lex_from(s, i).len(),
    ensures
        i <= lex_from(s, i)[k].1 < s.len(),
        lex_from(s, i)[k].0 == token_at(s, lex_from(s, i)[k].1).0,
        k + 1 < lex_from(s, i).len() ==> lex_from(s, i)[k + 1].1 == token_at(
            s,
            lex_from(s, i)[k].1,
        ).1,
    decreases s.len() - i,
{
    lemma_token_advances(s, i);
    let e = token_at(s, i).1;
    if k > 0 {
        lemma_lex_from_starts(s, e, k - 1);
    } else if k + 1 < lex_from(s, i).len() {
        lemma_lex_len(s, e);
        assert(lex_from(s, e).len() > 0);
    }
}

/// Positions strictly increase along the input: a later character has a greater line,
/// or the same line and a greater column.
pub proof fn lemma_positions_increase(s: Seq<char>, a: int, b: int)
    requires
        0 <= a < b,
    ensures
        line_at(s, a) < line_at(s, b) || (line_at(s, a) == line_at(s, b) && column_at(s, a)
            < column_at(s, b)),
    decreases b - a,
{
    if b > a + 1 {
        lemma_positions_increase(s, a, b - 1);
    }
}

/// Position monotonicity: of two consecutive tokens, the second starts on a later line, or
/// on the same line at a greater column.
pub proof fn law_positions_monotonic(s: Seq<char>, k: int)
    requires
        0 <= k,
        k + 1 < lex(s).len(),
    ensures
        ({
            let a = lex(s)[k].1;
            let b = lex(s)[k + 1].1;
            line_at(s, a) < line_at(s, b) || (line_at(s, a) == line_at(s, b) && column_at(s, a)
                < column_at(s, b))
        }),
{
    lemma_lex_from_starts(s, 0, k);
    lemma_token_advances(s, lex(s)[k].1);
    lemma_positions_increase(s, lex(s)[k].1, lex(s)[k + 1].1);
}

/// Whitespace maximality: a whitespace token holds its characters verbatim, the character
/// after it (if any) is not whitespace, and the next token is not whitespace.
pub proof fn law_whitespace_maximal(s: Seq<char>, k: int)
    requires
        0 <= k < lex(s).len(),
        lex(s)[k].0 is Whitespace,
    ensures
        ({
            let w = lex(s)[k].0->Whitespace_0;
            let i = lex(s)[k].1;
            let e = i + w.len();
            &&& e <= s.len()
            &&& s.subrange(i, e) == w
            &&& forall|j: int| i <= j < e ==> white(#[trigger] s[j])
            &&& e == s.len() || !white(s[e])
            &&& k + 1 < lex(s).len() ==> !(lex(s)[k + 1].0 is Whitespace)
        }),
{
    lemma_lex_from_starts(s, 0, k);
    let i = lex(s)[k].1;
    lemma_run_end(s, i + 1, CharClass::White);
    let e = run_end(s, i + 1, CharClass::White);
    assert(lex(s)[k].0 == token_at(s, i).0);
    assert(white(s[i]));
    assert(forall|j: int| i <= j < e ==> in_class(#[trigger] s[j], CharClass::White));
    if k + 1 < lex(s).len() {
        assert(lex(s)[k + 1].1 == e);
        lemma_lex_from_starts(s, 0, k + 1);
    }
}

/// Comment exclusivity: the text of a comment holds no newline and no NUL.
pub proof fn law_comment_exclusive(s: Seq<char>, k: int)
    requires
        0 <= k < lex(s).len(),
        lex(s)[k].0 is Comment,
    ensures
        forall|j: int|
            0 <= j < lex(s)[k].0->Comment_0.len() ==> {
                let c = #[trigger] lex(s)[k].0->Comment_0[j];
                c != '\n' && c != '\0'
            },
{
    lemma_lex_from_starts(s, 0, k);
    let i = lex(s)[k].1;
    lemma_run_end(s, i + 1, CharClass::CommentBody);
    let t = lex(s)[k].0->Comment_0;
    assert forall|j: int| 0 <= j < t.len() implies t[j] != '\n' && t[j] != '\0' by {
        assert(t[j] == s[i + 1 + j]);
        assert(in_class(s[i + 1 + j], CharClass::CommentBody));
    }
}

/// Argument parsing: `#` followed by the maximal run of digits `d1..dn` (n >= 1) gives the
/// argument with the base-10 value of `d1..dn`; `#` followed by a non-digit or by nothing
/// gives the illegal-character error for `#`.
pub proof fn law_argument(s: Seq<char>, i: int)
    requires
        0 <= i < s.len(),
        s[i] == '#',
    ensures
        i + 1 < s.len() && digit(s[i + 1]) ==> {
            let e = run_end(s, i + 1, CharClass::Digit);
            &&& i + 1 < e <= s.len()
            &&& forall|j: int| i + 1 <= j < e ==> digit(#[trigger] s[j])
            &&& e == s.len() || !digit(s[e])
            &&& token_at(s, i) == (TokenModel::Arg(digits_value(s.subrange(i + 1, e))), e)
        },
        !(i + 1 < s.len() && digit(s[i + 1])) ==> token_at(s, i).0 == TokenModel::Error(
            Error::IllegalChar('#'),
        ),
{
    lemma_run_end(s, i + 1, CharClass::Digit);
    let e = run_end(s, i + 1, CharClass::Digit);
    assert(forall|j: int| i + 1 <= j < e ==> in_class(#[trigger] s[j], CharClass::Digit));
}

/// The base-10 value of digits: the value of the leading digits times ten, plus the last.
pub proof fn law_digits_value_step(ds: Seq<char>, d: char)
    requires
        digit(d),
    ensures
        digits_value(ds.push(d)) == digits_value(ds) * 10 + (d as u32 - '0' as u32),
{
    assert(ds.push(d).drop_last() =~= ds);
}

/// Trailing backslash: a `\` that starts a token as the last character of the input gives
/// the empty control sequence, which ends the stream.
pub proof fn law_trailing_backslash(s: Seq<char>, k: int)
    requires
        0 <= k < lex(s).len(),
        lex(s)[k].1 == s.len() - 1,
        s.last() == '\\',
    ensures
        lex(s)[k].0 == TokenModel::Control(Seq::empty()),
        k == lex(s).len() - 1,
{
    lemma_lex_from_starts(s, 0, k);
    if k + 1 < lex(s).len() {
        lemma_lex_from_starts(s, 0, k + 1);
    }
}

/// A lone `\` is lexed as exactly one token, the empty control sequence at index 0.
pub proof fn law_lone_backslash()
    ensures
        lex(seq!['\\']) == seq![(TokenModel::Control(Seq::empty()), 0int)],
{
    let s = seq!['\\'];
    assert(lex_from(s, 1) =~= Seq::<(TokenModel, int)>::empty());
    assert(lex(s) =~= seq![(TokenModel::Control(Seq::empty()), 0int)]);
}

/// The stream is finite: it has at most one token per character of the input, and at
/// least one token when the input is not empty.
pub proof fn law_stream_finite(s: Seq<char>)
    ensures
        lex(s).len() <= s.len(),
        s.len() > 0 ==> lex(s).len() >= 1,
{
    lemma_lex_len(s, 0);
}

} // verus!
