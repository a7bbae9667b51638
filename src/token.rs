//! Tokens, scan errors and the result of one scanning step.

use vstd::prelude::*;
use crate::keyword::Keyword;
use crate::symbol::SpecialSymbol;

verus! {

/// A classified lexical unit. Text payloads hold the source text verbatim.
#[derive(Debug, Clone, PartialEq, Eq)]
pub enum Token {
    Keyword(Keyword),
    SpecialSymbol(SpecialSymbol),
    /// The text between comment delimiters.
    Comment(String),
    /// Digits, with at most one decimal point.
    NumberLiteral(String),
    /// The text between a pair of equal quote characters.
    StringLiteral(String),
    /// A name that is no keyword.
    Identifier(String),
}

/// The mathematical value of a token: its kind and its text.
pub enum TokenView {
    Keyword(Keyword),
    SpecialSymbol(SpecialSymbol),
    Comment(Seq<char>),
    NumberLiteral(Seq<char>),
    StringLiteral(Seq<char>),
    Identifier(Seq<char>),
}

impl View for Token {
    type V = TokenView;

    open spec fn view(&self) -> TokenView {
        match self {
            Token::Keyword(k) => TokenView::Keyword(*k),
            Token::SpecialSymbol(s) => TokenView::SpecialSymbol(*s),
            Token::Comment(t) => TokenView::Comment(t@),
            Token::NumberLiteral(t) => TokenView::NumberLiteral(t@),
            Token::StringLiteral(t) => TokenView::StringLiteral(t@),
            Token::Identifier(t) => TokenView::Identifier(t@),
        }
    }
}

/// The views of a sequence of tokens.
pub open spec fn tokens_view(tokens: Seq<Token>) -> Seq<TokenView> {
    tokens.map_values(|t: Token| t@)
}

/// Malformed input that stops a scan.
#[derive(Debug, Clone, Copy, PartialEq, Eq, Structural)]
pub enum LexerError {
    /// A quote was opened and the input ended before the matching quote.
    UnterminatedString,
    /// A block comment was opened and the input ended before `*/`.
    UnterminatedComment,
    /// A character that starts no token.
    UnexpectedSymbol(char),
}

/// The outcome of one scanning step.
#[derive(Debug, Clone, PartialEq, Eq)]
pub enum Scan {
    Token(Token),
    /// The input is exhausted: the scan ends cleanly.
    EndOfInput,
    Error(LexerError),
}

/// The mathematical value of a scanning step.
pub enum ScanView {
    Token(TokenView),
    EndOfInput,
    Error(LexerError),
}

impl View for Scan {
    type V = ScanView;

    open spec fn view(&self) -> ScanView {
        match self {
            Scan::Token(t) => ScanView::Token(t@),
            Scan::EndOfInput => ScanView::EndOfInput,
            Scan::Error(e) => ScanView::Error(*e),
        }
    }
}

/// Relies on `String::push`: appends the character to the end of the string.
pub assume_specification[ String::push ](s: &mut String, ch: char)
    ensures
        final(s)@ == old(s)@.push(ch),
;

} // verus!
