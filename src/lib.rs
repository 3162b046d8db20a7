//! Lexer for LaTeX maths-mode source, with positions for diagnostics.
pub mod diagnostics;
pub mod laws;
pub mod lexer;
pub mod macro_expander;
pub mod macros;
pub mod model;
pub mod structures;
pub mod text;
pub mod util;

pub use lexer::Lexer;
pub use structures::{Error, Mode, Pos, Side, Span, Token, TokenModel};
