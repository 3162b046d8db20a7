use watex::lexer::Lexer;
use watex::util::{PosChars, WithPosChars};
use watex::{Error, Side, Token};

const EXAMPLE_LATEX: &str = r#"
\newcommand{\u}[1]{2^#1}
3^x &\geq\u{93\%} % I'm a comment.
#"#; // Final # is illegal

fn tokens(code: &str) -> Vec<Token> {
    Lexer::new(code).collect_tokens().into_iter().map(|p| p.val).collect()
}

fn spans(code: &str) -> Vec<(usize, usize)> {
    Lexer::new(code)
        .collect_tokens()
        .into_iter()
        .map(|p| (p.span.lin(), p.span.col()))
        .collect()
}

#[test]
fn parse_example() {
    let example_latex_tokenized = vec![
        Token::Whitespace("\n".into()),
        Token::Control("newcommand".into()),
        Token::Brace(Side::Left),
        Token::Control("u".into()),
        Token::Brace(Side::Right),
        Token::Char('['),
        Token::Char('1'),
        Token::Char(']'),
        Token::Brace(Side::Left),
        Token::Char('2'),
        Token::Char('^'),
        Token::Arg(1),
        Token::Brace(Side::Right),
        Token::Whitespace("\n".into()),
        Token::Char('3'),
        Token::Char('^'),
        Token::Char('x'),
        Token::Whitespace(" ".into()),
        Token::Ampersand,
        Token::Control("geq".into()),
        Token::Control("u".into()),
        Token::Brace(Side::Left),
        Token::Char('9'),
        Token::Char('3'),
        Token::Control("%".into()),
        Token::Brace(Side::Right),
        Token::Whitespace(" ".into()),
        Token::Comment(" I'm a comment.".into()),
        Token::Whitespace("\n".into()),
        Token::Error(Error::IllegalChar('#')),
    ];

    let mut lexer = Lexer::new(EXAMPLE_LATEX);
    let mut lexed = Vec::new();
    while let Some(p) = lexer.next_token() {
        lexed.push(p.val);
    }
    assert_eq!(lexed, example_latex_tokenized);
}

#[test]
fn example_spans() {
    let got = spans(EXAMPLE_LATEX);
    assert_eq!(got.len(), 30);
    assert_eq!(got[0], (1, 1));
    assert_eq!(got[1], (2, 1));
    assert_eq!(got[2], (2, 12));
    assert_eq!(got[13], (2, 25));
    assert_eq!(got[14], (3, 1));
    assert_eq!(got[29], (4, 1));
}

#[test]
fn positions_increase_between_tokens() {
    let got = spans("a\n\\bc d\n\n{");
    assert_eq!(got, vec![(1, 1), (1, 2), (2, 1), (2, 4), (2, 5), (2, 6), (4, 1)]);
    for w in got.windows(2) {
        assert!(w[1].0 > w[0].0 || (w[1].0 == w[0].0 && w[1].1 > w[0].1));
    }
}

#[test]
fn whitespace_runs_are_one_token() {
    let got = tokens("a \t\u{3000}\n b");
    assert_eq!(
        got,
        vec![
            Token::Char('a'),
            Token::Whitespace(" \t\u{3000}\n ".into()),
            Token::Char('b')
        ]
    );
    for w in got.windows(2) {
        assert!(!(matches!(w[0], Token::Whitespace(_)) && matches!(w[1], Token::Whitespace(_))));
    }
}

#[test]
fn comment_stops_at_newline_and_nul() {
    assert_eq!(
        tokens("%ab\ncd"),
        vec![
            Token::Comment("ab".into()),
            Token::Whitespace("\n".into()),
            Token::Char('c'),
            Token::Char('d')
        ]
    );
    assert_eq!(tokens("%x y\0z"), vec![Token::Comment("x y".into()), Token::Eof, Token::Char('z')]);
    assert_eq!(tokens("%"), vec![Token::Comment("".into())]);
}

#[test]
fn arguments_parse_digit_runs() {
    assert_eq!(tokens("#0"), vec![Token::Arg(0)]);
    assert_eq!(tokens("#42x"), vec![Token::Arg(42), Token::Char('x')]);
    assert_eq!(tokens("#007"), vec![Token::Arg(7)]);
    assert_eq!(
        tokens("#18446744073709551615"),
        vec![Token::Arg(18446744073709551615)]
    );
}

#[test]
fn hash_without_digit_is_an_error() {
    assert_eq!(tokens("#"), vec![Token::Error(Error::IllegalChar('#'))]);
    assert_eq!(
        tokens("#a1"),
        vec![Token::Error(Error::IllegalChar('#')), Token::Char('1')]
    );
    assert_eq!(
        tokens("# x"),
        vec![Token::Error(Error::IllegalChar('#')), Token::Char('x')]
    );
}

#[test]
fn trailing_backslash_is_empty_control() {
    assert_eq!(tokens("\\"), vec![Token::Control("".into())]);
    assert_eq!(tokens("a\\"), vec![Token::Char('a'), Token::Control("".into())]);
    assert_eq!(tokens("\\\\"), vec![Token::Control("\\".into())]);
}

#[test]
fn control_sequences() {
    assert_eq!(
        tokens("\\alpha1\\%\\ "),
        vec![
            Token::Control("alpha".into()),
            Token::Char('1'),
            Token::Control("%".into()),
            Token::Control(" ".into())
        ]
    );
    assert_eq!(tokens("\\é"), vec![Token::Control("é".into())]);
}

#[test]
fn nul_is_eof_and_lexing_goes_on() {
    assert_eq!(
        tokens("a\0{&}"),
        vec![
            Token::Char('a'),
            Token::Eof,
            Token::Brace(Side::Left),
            Token::Ampersand,
            Token::Brace(Side::Right)
        ]
    );
}

#[test]
fn empty_input_has_no_tokens() {
    let mut lexer = Lexer::new("");
    assert_eq!(lexer.size_hint(), (0, Some(0)));
    assert!(lexer.next_token().is_none());
    assert!(lexer.next_token().is_none());
}

#[test]
fn lexer_size_hint() {
    let mut lexer = Lexer::new("ab c");
    assert_eq!(lexer.size_hint(), (1, Some(4)));
    lexer.next_token();
    assert_eq!(lexer.size_hint(), (1, Some(3)));
    while lexer.next_token().is_some() {}
    assert_eq!(lexer.size_hint(), (0, Some(0)));
}

#[test]
fn pos_chars_track_lines_and_columns() {
    let mut pc: PosChars = vec!['a', '\n', 'b', 'c'].with_pos();
    assert_eq!(pc.size_hint(), (4, Some(4)));
    assert_eq!(pc.peek(), Some('a'));
    let got: Vec<(char, usize, usize)> = std::iter::from_fn(|| pc.next())
        .map(|p| (p.val, p.span.lin(), p.span.col()))
        .collect();
    assert_eq!(got, vec![('a', 1, 1), ('\n', 1, 2), ('b', 2, 1), ('c', 2, 2)]);
    assert_eq!(pc.peek(), None);
}

#[test]
fn lexer_over_pos_chars() {
    let pc = PosChars::from_chars(vec!['{', 'x', '}']);
    let got: Vec<Token> = Lexer::from_pos_chars(pc)
        .collect_tokens()
        .into_iter()
        .map(|p| p.val)
        .collect();
    assert_eq!(
        got,
        vec![Token::Brace(Side::Left), Token::Char('x'), Token::Brace(Side::Right)]
    );
}

#[test]
fn expand_macros_passes_tokens_through() {
    let mut ex = Lexer::new("\\a b").expand_macros();
    assert_eq!(ex.size_hint(), (1, Some(4)));
    let first = ex.next_token().unwrap();
    assert_eq!(first.val, Token::Control("a".into()));
    assert_eq!((first.span.lin(), first.span.col()), (1, 1));
    assert_eq!(ex.next_token().unwrap().val, Token::Whitespace(" ".into()));
    assert_eq!(ex.next_token().unwrap().val, Token::Char('b'));
    assert!(ex.next_token().is_none());
}

#[test]
fn string_source_with_positions() {
    let mut pc = String::from("é\nz").with_pos();
    let a = pc.next().unwrap();
    let b = pc.next().unwrap();
    let c = pc.next().unwrap();
    assert_eq!((a.val, a.span.lin(), a.span.col()), ('é', 1, 1));
    assert_eq!((b.val, b.span.lin(), b.span.col()), ('\n', 1, 2));
    assert_eq!((c.val, c.span.lin(), c.span.col()), ('z', 2, 1));
    assert!(pc.next().is_none());
}
