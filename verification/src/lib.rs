//! A lexer for a small C-like language.
//!
//! The `lexer` module drives a character-by-character finite automaton that
//! splits source text into classified tokens; the `token` module defines the
//! token taxonomy and a cursor over a finished token sequence.

pub mod lexer;
pub mod token;

pub use lexer::DFAState;
pub use lexer::SimpleLexer;
pub use token::SimpleToken;
pub use token::SimpleTokenReader;
pub use token::TokenType;
