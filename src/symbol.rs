//! Punctuation and operator symbols.

use vstd::prelude::*;

verus! {

/// Returned when a text names no symbol.
#[derive(Debug, Clone, Copy, PartialEq, Eq, Structural)]
pub struct SymbolError;

/// Every single- and two-character symbol of the language.
#[derive(Debug, Clone, Copy, PartialEq, Eq, Structural)]
pub enum SpecialSymbol {
    /// `<`
    LeftAngleBracket,
    /// `>`
    RightAngleBracket,
    /// `(`
    LeftParenthesis,
    /// `)`
    RightParenthesis,
    /// `{`
    LeftBrace,
    /// `}`
    RightBrace,
    /// `[`
    LeftSquareParenthesis,
    /// `]`
    RightSquareParenthesis,
    /// `#`
    Sharp,
    /// `=`
    Assign,
    /// `==`
    Equal,
    /// `>=`
    GreaterOrEqual,
    /// `<=`
    SmallerOrEqual,
    /// `,`
    Comma,
    /// `;`
    Semicolon,
    /// `+`
    Plus,
    /// `+=`
    PlusAssign,
    /// `-`
    Minus,
    /// `-=`
    MinusAssign,
    /// `*`
    Asterisk,
    /// `*=`
    AsteriskAssign,
    /// `/`
    Slash,
    /// `/=`
    SlashAssign,
    /// `&`
    Ampersand,
    /// `&=`
    AmpersandAssign,
    /// `|`
    VerticalBar,
    /// `|=`
    VerticalBarAssign,
    /// `^`
    Caret,
    /// `^=`
    CaretAssign,
}

/// The symbol written as the single character `c`, if any.
pub open spec fn single_symbol(c: char) -> Option<SpecialSymbol> {
    match c {
        '<' => Some(SpecialSymbol::LeftAngleBracket),
        '>' => Some(SpecialSymbol::RightAngleBracket),
        '(' => Some(SpecialSymbol::LeftParenthesis),
        ')' => Some(SpecialSymbol::RightParenthesis),
        '{' => Some(SpecialSymbol::LeftBrace),
        '}' => Some(SpecialSymbol::RightBrace),
        '[' => Some(SpecialSymbol::LeftSquareParenthesis),
        ']' => Some(SpecialSymbol::RightSquareParenthesis),
        '#' => Some(SpecialSymbol::Sharp),
        '=' => Some(SpecialSymbol::Assign),
        ',' => Some(SpecialSymbol::Comma),
        ';' => Some(SpecialSymbol::Semicolon),
        '+' => Some(SpecialSymbol::Plus),
        '-' => Some(SpecialSymbol::Minus),
        '*' => Some(SpecialSymbol::Asterisk),
        '/' => Some(SpecialSymbol::Slash),
        '&' => Some(SpecialSymbol::Ampersand),
        '|' => Some(SpecialSymbol::VerticalBar),
        '^' => Some(SpecialSymbol::Caret),
        _ => None,
    }
}

/// The symbol written as `c` followed by `=`, if any.
pub open spec fn compound_symbol(c: char) -> Option<SpecialSymbol> {
    match c {
        '=' => Some(SpecialSymbol::Equal),
        '>' => Some(SpecialSymbol::GreaterOrEqual),
        '<' => Some(SpecialSymbol::SmallerOrEqual),
        '+' => Some(SpecialSymbol::PlusAssign),
        '-' => Some(SpecialSymbol::MinusAssign),
        '*' => Some(SpecialSymbol::AsteriskAssign),
        '/' => Some(SpecialSymbol::SlashAssign),
        '&' => Some(SpecialSymbol::AmpersandAssign),
        '|' => Some(SpecialSymbol::VerticalBarAssign),
        '^' => Some(SpecialSymbol::CaretAssign),
        _ => None,
    }
}

/// An operator character: one that forms a two-character symbol with a following `=`.
pub open spec fn is_operator_char(c: char) -> bool {
    compound_symbol(c) is Some
}

/// The symbol that the text `s` spells, if any.
pub open spec fn symbol_of(s: Seq<char>) -> Option<SpecialSymbol> {
    if s.len() == 1 {
        single_symbol(s[0])
    } else if s.len() == 2 && s[1] == '=' {
        compound_symbol(s[0])
    } else {
        None
    }
}

/// The text of a symbol.
pub open spec fn symbol_text(sym: SpecialSymbol) -> Seq<char> {
    match sym {
        SpecialSymbol::LeftAngleBracket => seq!['<'],
        SpecialSymbol::RightAngleBracket => seq!['>'],
        SpecialSymbol::LeftParenthesis => seq!['('],
        SpecialSymbol::RightParenthesis => seq![')'],
        SpecialSymbol::LeftBrace => seq!['{'],
        SpecialSymbol::RightBrace => seq!['}'],
        SpecialSymbol::LeftSquareParenthesis => seq!['['],
        SpecialSymbol::RightSquareParenthesis => seq![']'],
        SpecialSymbol::Sharp => seq!['#'],
        SpecialSymbol::Assign => seq!['='],
        SpecialSymbol::Equal => seq!['=', '='],
        SpecialSymbol::GreaterOrEqual => seq!['>', '='],
        SpecialSymbol::SmallerOrEqual => seq!['<', '='],
        SpecialSymbol::Comma => seq![','],
        SpecialSymbol::Semicolon => seq![';'],
        SpecialSymbol::Plus => seq!['+'],
        SpecialSymbol::PlusAssign => seq!['+', '='],
        SpecialSymbol::Minus => seq!['-'],
        SpecialSymbol::MinusAssign => seq!['-', '='],
        SpecialSymbol::Asterisk => seq!['*'],
        SpecialSymbol::AsteriskAssign => seq!['*', '='],
        SpecialSymbol::Slash => seq!['/'],
        SpecialSymbol::SlashAssign => seq!['/', '='],
        SpecialSymbol::Ampersand => seq!['&'],
        SpecialSymbol::AmpersandAssign => seq!['&', '='],
        SpecialSymbol::VerticalBar => seq!['|'],
        SpecialSymbol::VerticalBarAssign => seq!['|', '='],
        SpecialSymbol::Caret => seq!['^'],
        SpecialSymbol::CaretAssign => seq!['^', '='],
    }
}

/// Reading a symbol's text gives the symbol back, and a text that names a
/// symbol is that symbol's text.
pub proof fn lemma_symbol_text_round_trip(sym: SpecialSymbol, s: Seq<char>)
    ensures
        symbol_of(symbol_text(sym)) == Some(sym),
        symbol_of(s) == Some(sym) ==> s == symbol_text(sym),
{
    if symbol_of(s) == Some(sym) {
        if s.len() == 1 {
            assert(s =~= seq![s[0]]);
        } else {
            assert(s =~= seq![s[0], s[1]]);
        }
    }
}

impl SpecialSymbol {
    /// The symbol written as the single character `c`.
    pub fn from_char(c: char) -> (r: Option<SpecialSymbol>)
        ensures
            r == single_symbol(c),
    {
        match c {
            '<' => Some(SpecialSymbol::LeftAngleBracket),
            '>' => Some(SpecialSymbol::RightAngleBracket),
            '(' => Some(SpecialSymbol::LeftParenthesis),
            ')' => Some(SpecialSymbol::RightParenthesis),
            '{' => Some(SpecialSymbol::LeftBrace),
            '}' => Some(SpecialSymbol::RightBrace),
            '[' => Some(SpecialSymbol::LeftSquareParenthesis),
            ']' => Some(SpecialSymbol::RightSquareParenthesis),
            '#' => Some(SpecialSymbol::Sharp),
            '=' => Some(SpecialSymbol::Assign),
            ',' => Some(SpecialSymbol::Comma),
            ';' => Some(SpecialSymbol::Semicolon),
            '+' => Some(SpecialSymbol::Plus),
            '-' => Some(SpecialSymbol::Minus),
            '*' => Some(SpecialSymbol::Asterisk),
            '/' => Some(SpecialSymbol::Slash),
            '&' => Some(SpecialSymbol::Ampersand),
            '|' => Some(SpecialSymbol::VerticalBar),
            '^' => Some(SpecialSymbol::Caret),
            _ => None,
        }
    }

    /// The symbol written as `c` followed by `=`.
    pub fn compound_from_char(c: char) -> (r: Option<SpecialSymbol>)
        ensures
            r == compound_symbol(c),
    {
        match c {
            '=' => Some(SpecialSymbol::Equal),
            '>' => Some(SpecialSymbol::GreaterOrEqual),
            '<' => Some(SpecialSymbol::SmallerOrEqual),
            '+' => Some(SpecialSymbol::PlusAssign),
            '-' => Some(SpecialSymbol::MinusAssign),
            '*' => Some(SpecialSymbol::AsteriskAssign),
            '/' => Some(SpecialSymbol::SlashAssign),
            '&' => Some(SpecialSymbol::AmpersandAssign),
            '|' => Some(SpecialSymbol::VerticalBarAssign),
            '^' => Some(SpecialSymbol::CaretAssign),
            _ => None,
        }
    }

    /// Reads the symbol that `s` spells.
    pub fn from_str(s: &str) -> (r: Result<SpecialSymbol, SymbolError>)
        ensures
            r == (match symbol_of(s@) {
                Some(sym) => Ok(sym),
                None => Err(SymbolError),
            }),
    {
        let n = s.unicode_len();
        let found = if n == 1 {
            SpecialSymbol::from_char(s.get_char(0))
        } else if n == 2 && s.get_char(1) == '=' {
            SpecialSymbol::compound_from_char(s.get_char(0))
        } else {
            None
        };
        match found {
            Some(sym) => Ok(sym),
            None => Err(SymbolError),
        }
    }
}

} // verus!
