use watex::macro_expander::ExpandMacros;
use watex::macros::types::{TexMacro, TexMacroCtx, TexMacroResult};
use watex::{Mode, Pos, Span};

#[test]
fn span_highlight_msg_in_code() {
    let span = Span::new(2, 30);
    let test_code = r#"\begin{equation*}
    \textbf{illegal} \rarrow # \larrow \textbf{illegal}
\end{equation*}"#;

    let highlighted = span.highlight_msg_in_code(test_code, "Illegal character");
    let expected_highlighted: String = r#"\begin{equation*}
    \textbf{illegal} \rarrow # \larrow \textbf{illegal}
                             ^ Illegal character
\end{equation*}
"#
    .into();
    assert_eq!(highlighted, expected_highlighted);
}

#[test]
fn highlight_column_one_and_crlf() {
    let span = Span::new(1, 1);
    assert_eq!(span.highlight_msg_in_code("ab\r\ncd\n", "m"), "ab\n^ m\ncd\n");
}

#[test]
fn highlight_line_past_the_end() {
    let span = Span::new(5, 3);
    assert_eq!(span.highlight_msg_in_code("x\n\ny", "m"), "x\n\ny\n");
    assert_eq!(span.highlight_msg_in_code("", "m"), "");
}

#[test]
fn highlight_on_empty_line() {
    let span = Span::new(2, 2);
    assert_eq!(span.highlight_msg_in_code("a\n\nb", "here"), "a\n\n ^ here\nb\n");
}

#[test]
fn pos_map_keeps_span() {
    let p = Pos::new(3usize, Span::new(4, 7));
    let q = p.map(|v| v * 2 + 1);
    assert_eq!(q.val, 7);
    assert_eq!((q.span.lin(), q.span.col()), (4, 7));
}

fn handler(_: TexMacroCtx) -> TexMacroResult {
    TexMacroResult {}
}

#[test]
fn expand_macros_holds_its_source() {
    let ex = ExpandMacros::new(5u8);
    let _ = ex;
    let _m = Mode::Text;
    let _n = Mode::Math;
    let mac = TexMacro { fun: handler as fn(TexMacroCtx) -> TexMacroResult, names: &["foo"] };
    let _r = (mac.fun)(TexMacroCtx {});
    assert_eq!(mac.names, &["foo"]);
}
