//! A scanner for a small C-like language: source text in, an ordered
//! sequence of tokens and a termination status out.

pub mod keyword;
pub mod lexer;
pub mod model;
pub mod symbol;
pub mod token;

pub use keyword::{Keyword, KeywordError};
pub use lexer::Lexer;
pub use symbol::{SpecialSymbol, SymbolError};
pub use token::{LexerError, Scan, Token};
