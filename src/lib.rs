//! Lexical scanner for a declarative, equation-based modeling language.
//!
//! The scanner turns source text into an ordered sequence of classified
//! tokens, each with the character span it covers. Whitespace and comments
//! are recognised and dropped. Every rule is stated as a spec function in
//! [`rules`], and the executable scanner is proved to follow those rules.
pub mod laws;
pub mod render;
pub mod rules;
pub mod scanner;
pub mod text;
pub mod token;

pub use scanner::{scan, Scanner};
pub use token::{LexicalError, Span, Token};
