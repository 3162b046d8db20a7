use vstd::prelude::*;



verus! {

/// Either left or right. Used to distinguish braces.
#[derive(Clone, Copy, Debug, PartialEq, Eq, Structural)]
pub enum Side {
    Left,
    Right,
}

/// The lexical error detected by the lexer.
#[derive(Clone, Copy, Debug, PartialEq, Eq, Structural)]
pub enum Error {
    /// Emitted when an illegal character is encountered.
    IllegalChar(char),
}

/// A single TeX token.
#[derive(Debug, PartialEq, Eq)]
pub enum Token {
    /// A TeX control sequence/macro, e.g. `\mathbb`, `\newcommand`, or `\%`.
    Control(String),
    /// A TeX brace, i.e. either `{` or `}`.
    Brace(Side),
    /// A TeX argument in a command definition, written as `#1`.
    Arg(usize),
    /// TeX's special alignment character `&`.
    Ampersand,
    /// A run of consecutive Unicode whitespace characters.
    Whitespace(String),
    /// A TeX comment marked with `%`.
    Comment(String),
    /// A single, non-special character.
    Char(char),
    /// The NUL character (`\0`).
    Eof,
    /// An error encountered in the lexical token stream.
    Error(Error),
}

/// The mathematical value of a token: strings as character sequences,
/// the argument number as a natural number.
pub enum TokenModel {
    Control(Seq<char>),
    Brace(Side),
    Arg(nat),
    Ampersand,
    Whitespace(Seq<char>),
    Comment(Seq<char>),
    Char(char),
    Eof,
    Error(Error),
}

impl View for Token {
    type V = TokenModel;

    open spec fn view(&self) -> TokenModel {
        match self {
            Token::Control(s) => TokenModel::Control(s@),
            Token::Brace(side) => TokenModel::Brace(*side),
            Token::Arg(n) => TokenModel::Arg(*n as nat),
            Token::Ampersand => TokenModel::Ampersand,
            Token::Whitespace(s) => TokenModel::Whitespace(s@),
            Token::Comment(s) => TokenModel::Comment(s@),
            Token::Char(c) => TokenModel::Char(*c),
            Token::Eof => TokenModel::Eof,
            Token::Error(e) => TokenModel::Error(*e),
        }
    }
}

/// A position within a source text: 1-based line and column.
#[derive(Clone, Copy, Debug, PartialEq, Eq, Structural)]
pub struct Span {
    lin: usize,
    col: usize,
}

impl Span {
    #[verifier::type_invariant]
    spec fn inv(self) -> bool {
        self.lin >= 1 && self.col >= 1
    }

    /// The line, counted from 1.
    pub closed spec fn line(self) -> nat {
        self.lin as nat
    }

    /// The column, counted from 1.
    pub closed spec fn column(self) -> nat {
        self.col as nat
    }

    pub fn new(lin: usize, col: usize) -> (r: Span)
        requires
            lin >= 1,
            col >= 1,
        ensures
            r.line() == lin,
            r.column() == col,
    {
        Span { lin, col }
    }

    pub fn lin(&self) -> (r: usize)
        ensures
            r == self.line(),
            r >= 1,
    {
        proof { use_type_invariant(self); }
        self.lin
    }

    pub fn col(&self) -> (r: usize)
        ensures
            r == self.column(),
            r >= 1,
    {
        proof { use_type_invariant(self); }
        self.col
    }
}

/// Some value enriched with a span.
pub struct Pos<T> {
    pub val: T,
    pub span: Span,
}

impl<T> Pos<T> {
    pub fn new(val: T, span: Span) -> (r: Pos<T>)
        ensures
            r.val == val,
            r.span == span,
    {
        Pos { val, span }
    }

    /// Maps over the contained value; the result keeps the same span.
    pub fn map<U, F: FnOnce(T) -> U>(self, f: F) -> (r: Pos<U>)
        requires
            f.requires((self.val,)),
        ensures
            f.ensures((self.val,), r.val),
            r.span == self.span,
    {
        Pos::new(f(self.val), self.span)
    }
}

/// The lexing mode; the current rules do not depend on it.
pub enum Mode {
    Text,
    Math,
}

} // verus!
