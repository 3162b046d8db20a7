//! Compiler-style rendering of a message under a position of the source.
use vstd::prelude::*;

use crate::structures::Span;
use crate::text::{chars_of, decimal, push_char, push_decimal, push_str};

verus! {

/// The pieces of `s` between newlines: one more piece than `s` has newlines.
pub open spec fn split_newlines(s: Seq<char>) -> Seq<Seq<char>>
    decreases s.len(),
{
    if s.len() == 0 {
        seq![Seq::empty()]
    } else {
        let init = split_newlines(s.drop_last());
        if s.last() == '\n' {
            init.push(Seq::empty())
        } else {
            init.update(init.len() - 1, init.last().push(s.last()))
        }
    }
}

/// A line without the carriage return of a `\r\n` ending.
pub open spec fn strip_cr(line: Seq<char>) -> Seq<char> {
    if line.len() > 0 && line.last() == '\r' {
        line.drop_last()
    } else {
        line
    }
}

/// The lines of `s`: split at `\n`, a `\r` before the `\n` dropped, and no empty
/// last line after a final newline.
pub open spec fn lines_of(s: Seq<char>) -> Seq<Seq<char>> {
    let p = split_newlines(s);
    let n = if p.last().len() == 0 {
        p.len() - 1
    } else {
        p.len() as int
    };
    Seq::new(n as nat, |k: int| if k < p.len() - 1 { strip_cr(p[k]) } else { p[k] })
}

/// `n` spaces.
pub open spec fn spaces(n: nat) -> Seq<char> {
    Seq::new(n, |k: int| ' ')
}

/// Line number `no` followed by a newline, and under it the caret line when `no` is the
/// span's line.
pub open spec fn render_line(
    line: Seq<char>,
    no: int,
    lin: nat,
    col: nat,
    msg: Seq<char>,
) -> Seq<char> {
    line + seq!['\n'] + if no == lin {
        spaces((col - 1) as nat) + seq!['^', ' '] + msg + seq!['\n']
    } else {
        Seq::empty()
    }
}

/// Lines numbered from 1, each rendered by `render_line`.
pub open spec fn render_lines(
    lines: Seq<Seq<char>>,
    lin: nat,
    col: nat,
    msg: Seq<char>,
) -> Seq<char>
    decreases lines.len(),
{
    if lines.len() == 0 {
        Seq::empty()
    } else {
        render_lines(lines.drop_last(), lin, col, msg) + render_line(
            lines.last(),
            lines.len() as int,
            lin,
            col,
            msg,
        )
    }
}

/// The lines `0..n` of `pieces`, without their carriage returns.
spec fn stripped(pieces: Seq<Seq<char>>, n: int) -> Seq<Seq<char>> {
    Seq::new(n as nat, |k: int| strip_cr(pieces[k]))
}

/// Appends `cs[from..to]`.
fn push_all(out: &mut String, cs: &Vec<char>, from: usize, to: usize)
    requires
        from <= to <= cs.len(),
    ensures
        final(out)@ == old(out)@ + cs@.subrange(from as int, to as int),
{
    let mut i = from;
    while i < to
        invariant
            from <= i <= to <= cs.len(),
            out@ == old(out)@ + cs@.subrange(from as int, i as int),
        decreases to - i,
    {
        push_char(out, cs[i]);
        i = i + 1;
        assert(out@ =~= old(out)@ + cs@.subrange(from as int, i as int));
    }
    assert(out@ =~= old(out)@ + cs@.subrange(from as int, to as int));
}

/// Appends one rendered line; `caret` says whether the caret line follows it.
fn push_line(out: &mut String, line: &Vec<char>, len: usize, caret: bool, col: usize, msg: &Vec<char>)
    requires
        len <= line.len(),
        col >= 1,
    ensures
        final(out)@ == old(out)@ + line@.take(len as int) + seq!['\n'] + if caret {
            spaces((col - 1) as nat) + seq!['^', ' '] + msg@ + seq!['\n']
        } else {
            Seq::empty()
        },
{
    push_all(out, line, 0, len);
    push_char(out, '\n');
    if caret {
        let ghost base = out@;
        let mut k: usize = 1;
        while k < col
            invariant
                1 <= k <= col,
                out@ == base + spaces((k - 1) as nat),
            decreases col - k,
        {
            push_char(out, ' ');
            k = k + 1;
            assert(out@ =~= base + spaces((k - 1) as nat));
        }
        push_char(out, '^');
        push_char(out, ' ');
        push_all(out, msg, 0, msg.len());
        push_char(out, '\n');
    }
    assert(line@.subrange(0, len as int) =~= line@.take(len as int));
    assert(msg@.subrange(0, msg@.len() as int) =~= msg@);
    assert(out@ =~= old(out)@ + line@.take(len as int) + seq!['\n'] + if caret {
        spaces((col - 1) as nat) + seq!['^', ' '] + msg@ + seq!['\n']
    } else {
        Seq::empty()
    });
}

impl Span {
    /// Describes the position as `line L, column C`.
    pub fn to_string(&self) -> (r: String)
        ensures
            r@ == seq!['l', 'i', 'n', 'e', ' '] + decimal(self.line()) + seq![
                ',',
                ' ',
                'c',
                'o',
                'l',
                'u',
                'm',
                'n',
                ' ',
            ] + decimal(self.column()),
    {
        let mut r = String::new();
        push_str(&mut r, "line ");
        push_decimal(&mut r, self.lin());
        push_str(&mut r, ", column ");
        push_decimal(&mut r, self.col());
        proof {
            reveal_strlit("line ");
            reveal_strlit(", column ");
        }
        r
    }

    /// Re-prints every line of `code`, each followed by a newline; under the line of this
    /// span comes `column - 1` spaces, a caret, a space and `msg`.
    pub fn highlight_msg_in_code(&self, code: &str, msg: &str) -> (r: String)
        ensures
            r@ == render_lines(lines_of(code@), self.line(), self.column(), msg@),
    {
        let s = chars_of(code);
        let m = chars_of(msg);
        let lin = self.lin();
        let col = self.col();
        let mut result = String::new();
        let mut cur: Vec<char> = Vec::new();
        let mut before: usize = lin;
        let ghost no: int = 1;
        let mut j: usize = 0;
        proof {
            assert(s@.take(0) =~= Seq::<char>::empty());
            assert(stripped(split_newlines(s@.take(0)), 0) =~= Seq::<Seq<char>>::empty());
        }
        while j < s.len()
            invariant
                j <= s.len(),
                lin == self.line(),
                col == self.column(),
                col >= 1,
                m@ == msg@,
                no == split_newlines(s@.take(j as int)).len(),
                no >= 1,
                cur@ == split_newlines(s@.take(j as int)).last(),
                before == (if no <= lin { lin - no + 1 } else { 0 }),
                result@ == render_lines(
                    stripped(split_newlines(s@.take(j as int)), no - 1),
                    lin as nat,
                    col as nat,
                    m@,
                ),
            decreases s.len() - j,
        {
            let c = s[j];
            let ghost pieces = split_newlines(s@.take(j as int));
            let ghost done = stripped(pieces, no - 1);
            proof {
                assert(s@.take(j + 1).drop_last() =~= s@.take(j as int));
            }
            if c == '\n' {
                let n = cur.len();
                let len = if n > 0 && cur[n - 1] == '\r' {
                    n - 1
                } else {
                    n
                };
                push_line(&mut result, &cur, len, before == 1, col, &m);
                proof {
                    assert(cur@.take(len as int) =~= strip_cr(pieces.last()));
                    let next = split_newlines(s@.take(j + 1));
                    assert(stripped(next, no) =~= done.push(strip_cr(pieces.last())));
                    assert(stripped(next, no).drop_last() =~= done);
                    no = no + 1;
                }
                if before > 0 {
                    before = before - 1;
                }
                cur = Vec::new();
            } else {
                cur.push(c);
                proof {
                    let next = split_newlines(s@.take(j + 1));
                    assert(stripped(next, no - 1) =~= done);
                }
            }
            j = j + 1;
        }
        proof {
            assert(s@.take(j as int) =~= s@);
        }
        if cur.len() > 0 {
            push_line(&mut result, &cur, cur.len(), before == 1, col, &m);
            proof {
                let pieces = split_newlines(s@);
                assert(cur@.take(cur.len() as int) =~= cur@);
                assert(lines_of(s@) =~= stripped(pieces, no - 1).push(cur@));
                assert(lines_of(s@).drop_last() =~= stripped(pieces, no - 1));
            }
        } else {
            proof {
                assert(lines_of(s@) =~= stripped(split_newlines(s@), no - 1));
            }
        }
        result
    }
}

} // verus!
