//! The meaning of a scan, as spec functions over the input characters.

use vstd::prelude::*;
use crate::keyword::keyword_of;
use crate::symbol::{compound_symbol, is_operator_char, single_symbol};
use crate::token::{LexerError, ScanView, TokenView};

verus! {

/// A class of characters that a run of characters is made of.
#[derive(Debug, Clone, Copy, PartialEq, Eq, Structural)]
pub enum CharClass {
    /// Space or newline: skipped between tokens.
    Blank,
    /// Space alone.
    Space,
    /// An ASCII decimal digit.
    Digit,
    /// What a name continues with: an ASCII letter or digit, or `.`.
    Word,
    /// Anything but an ASCII control character.
    LineText,
    /// Anything but the given character.
    Except(char),
}

pub open spec fn is_ascii_digit(c: char) -> bool {
    '0' <= c <= '9'
}

pub open spec fn is_ascii_letter(c: char) -> bool {
    ('a' <= c <= 'z') || ('A' <= c <= 'Z')
}

pub open spec fn is_ascii_control(c: char) -> bool {
    c <= '\x1f' || c == '\x7f'
}

pub open spec fn in_class(c: char, class: CharClass) -> bool {
    match class {
        CharClass::Blank => c == ' ' || c == '\n',
        CharClass::Space => c == ' ',
        CharClass::Digit => is_ascii_digit(c),
        CharClass::Word => is_ascii_letter(c) || is_ascii_digit(c) || c == '.',
        CharClass::LineText => !is_ascii_control(c),
        CharClass::Except(q) => c != q,
    }
}

/// The end of the longest run of `class` characters of `s` from `i` on.
pub open spec fn run_end(s: Seq<char>, i: nat, class: CharClass) -> nat
    decreases s.len() - i,
{
    if i < s.len() && in_class(s[i as int], class) {
        run_end(s, i + 1, class)
    } else {
        i
    }
}

/// Where the first `*/` of `s` from `i` on begins, if there is one.
pub open spec fn comment_close(s: Seq<char>, i: nat) -> Option<nat>
    decreases s.len() - i,
{
    if i + 1 >= s.len() {
        None
    } else if s[i as int] == '*' && s[(i + 1) as int] == '/' {
        Some(i)
    } else {
        comment_close(s, i + 1)
    }
}

/// The token that starts at `i`, a character that is no blank, and where
/// scanning goes on after it; or the error met there, with `i` itself.
pub open spec fn token_at(s: Seq<char>, i: nat) -> (ScanView, nat) {
    let c = s[i as int];
    if c == '"' || c == '\'' {
        let close = run_end(s, i + 1, CharClass::Except(c));
        if close < s.len() {
            (ScanView::Token(TokenView::StringLiteral(s.subrange((i + 1) as int, close as int))), close + 1)
        } else {
            (ScanView::Error(LexerError::UnterminatedString), i)
        }
    } else if c == '/' && i + 1 < s.len() && s[(i + 1) as int] == '*' {
        match comment_close(s, i + 2) {
            Some(close) => (
                ScanView::Token(TokenView::Comment(s.subrange((i + 2) as int, close as int))),
                close + 2,
            ),
            None => (ScanView::Error(LexerError::UnterminatedComment), i),
        }
    } else if c == '/' && i + 1 < s.len() && s[(i + 1) as int] == '/' {
        let start = run_end(s, i + 2, CharClass::Space);
        let end = run_end(s, start, CharClass::LineText);
        let next = if end < s.len() { end + 1 } else { end };
        (ScanView::Token(TokenView::Comment(s.subrange(start as int, end as int))), next)
    } else if compound_symbol(c) is Some {
        if i + 1 < s.len() && s[(i + 1) as int] == '=' {
            (ScanView::Token(TokenView::SpecialSymbol(compound_symbol(c)->0)), i + 2)
        } else {
            (ScanView::Token(TokenView::SpecialSymbol(single_symbol(c)->0)), i + 1)
        }
    } else if is_ascii_digit(c) {
        let whole = run_end(s, i + 1, CharClass::Digit);
        let end = if whole < s.len() && s[whole as int] == '.' {
            run_end(s, whole + 1, CharClass::Digit)
        } else {
            whole
        };
        (ScanView::Token(TokenView::NumberLiteral(s.subrange(i as int, end as int))), end)
    } else if is_ascii_letter(c) {
        let end = run_end(s, i + 1, CharClass::Word);
        let text = s.subrange(i as int, end as int);
        match keyword_of(text) {
            Some(k) => (ScanView::Token(TokenView::Keyword(k)), end),
            None => (ScanView::Token(TokenView::Identifier(text)), end),
        }
    } else {
        match single_symbol(c) {
            Some(sym) => (ScanView::Token(TokenView::SpecialSymbol(sym)), i + 1),
            None => (ScanView::Error(LexerError::UnexpectedSymbol(c)), i),
        }
    }
}

/// One scanning step from `i`: blanks are skipped, then a token is read, the
/// end of input is met, or an error is found.
pub open spec fn scan_at(s: Seq<char>, i: nat) -> (ScanView, nat) {
    let start = run_end(s, i, CharClass::Blank);
    if start >= s.len() {
        (ScanView::EndOfInput, start)
    } else {
        token_at(s, start)
    }
}

/// The tokens read from `i` on, and how the scan ended.
pub open spec fn lex_from(s: Seq<char>, i: nat) -> (Seq<TokenView>, Result<(), LexerError>)
    decreases s.len() - i,
{
    match scan_at(s, i) {
        (ScanView::Token(t), next) => if i < next <= s.len() {
            let rest = lex_from(s, next);
            (seq![t] + rest.0, rest.1)
        } else {
            (seq![], Ok(()))
        },
        (ScanView::EndOfInput, _) => (seq![], Ok(())),
        (ScanView::Error(e), _) => (seq![], Err(e)),
    }
}

/// The tokens of the whole input, and how the scan ended.
pub open spec fn tokenize(s: Seq<char>) -> (Seq<TokenView>, Result<(), LexerError>) {
    lex_from(s, 0)
}

pub proof fn lemma_run_end_bounds(s: Seq<char>, i: nat, class: CharClass)
    requires
        i <= s.len(),
    ensures
        i <= run_end(s, i, class) <= s.len(),
        run_end(s, i, class) < s.len() ==> !in_class(s[run_end(s, i, class) as int], class),
    decreases s.len() - i,
{
    if i < s.len() && in_class(s[i as int], class) {
        lemma_run_end_bounds(s, i + 1, class);
    }
}

pub proof fn lemma_comment_close_bounds(s: Seq<char>, i: nat)
    ensures
        comment_close(s, i) matches Some(j) ==> i <= j && j + 1 < s.len(),
    decreases s.len() - i,
{
    if i + 1 < s.len() && !(s[i as int] == '*' && s[(i + 1) as int] == '/') {
        lemma_comment_close_bounds(s, i + 1);
    }
}

/// A step that reads a token moves forward and stays within the input.
pub proof fn lemma_scan_advances(s: Seq<char>, i: nat)
    requires
        i <= s.len(),
    ensures
        scan_at(s, i).0 is Token ==> i < scan_at(s, i).1 <= s.len(),
{
    let start = run_end(s, i, CharClass::Blank);
    lemma_run_end_bounds(s, i, CharClass::Blank);
    if start < s.len() {
        let c = s[start as int];
        lemma_run_end_bounds(s, start + 1, CharClass::Except(c));
        lemma_run_end_bounds(s, start + 1, CharClass::Digit);
        lemma_run_end_bounds(s, start + 1, CharClass::Word);
        lemma_comment_close_bounds(s, start + 2);
        if start + 2 <= s.len() {
            lemma_run_end_bounds(s, start + 2, CharClass::Space);
            let from = run_end(s, start + 2, CharClass::Space);
            lemma_run_end_bounds(s, from, CharClass::LineText);
        }
        let whole = run_end(s, start + 1, CharClass::Digit);
        if whole < s.len() {
            lemma_run_end_bounds(s, whole + 1, CharClass::Digit);
        }
    }
}

/// Maximal munch: where a token starts at an operator character followed by
/// `=`, the two characters are read as one two-character symbol, and the scan
/// goes on after both.
pub proof fn lemma_maximal_munch(s: Seq<char>, i: nat)
    requires
        i + 1 < s.len(),
        is_operator_char(s[i as int]),
        s[(i + 1) as int] == '=',
    ensures
        scan_at(s, i) == (
            ScanView::Token(TokenView::SpecialSymbol(compound_symbol(s[i as int])->0)),
            i + 2,
        ),
        lex_from(s, i).0 == seq![TokenView::SpecialSymbol(compound_symbol(s[i as int])->0)]
            + lex_from(s, i + 2).0,
        lex_from(s, i).1 == lex_from(s, i + 2).1,
{
    assert(run_end(s, i, CharClass::Blank) == i);
}

} // verus!
