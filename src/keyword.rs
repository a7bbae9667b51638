//! Reserved words.

use vstd::prelude::*;

verus! {

/// Returned when a text is no keyword.
#[derive(Debug, Clone, Copy, PartialEq, Eq, Structural)]
pub struct KeywordError;

/// The reserved words of the language.
#[derive(Debug, Clone, Copy, PartialEq, Eq, Structural)]
pub enum Keyword {
    Const,
    Enum,
    Return,
    New,
    Delete,
    Include,
    Void,
    Int,
    Double,
    Do,
    For,
    While,
    Break,
    Continue,
    If,
    Else,
    Switch,
    Case,
}

/// The keyword that the text `s` spells, if any.
pub open spec fn keyword_of(s: Seq<char>) -> Option<Keyword> {
    if s == "const"@ {
        Some(Keyword::Const)
    } else if s == "enum"@ {
        Some(Keyword::Enum)
    } else if s == "return"@ {
        Some(Keyword::Return)
    } else if s == "new"@ {
        Some(Keyword::New)
    } else if s == "delete"@ {
        Some(Keyword::Delete)
    } else if s == "include"@ {
        Some(Keyword::Include)
    } else if s == "void"@ {
        Some(Keyword::Void)
    } else if s == "int"@ {
        Some(Keyword::Int)
    } else if s == "double"@ {
        Some(Keyword::Double)
    } else if s == "do"@ {
        Some(Keyword::Do)
    } else if s == "for"@ {
        Some(Keyword::For)
    } else if s == "while"@ {
        Some(Keyword::While)
    } else if s == "break"@ {
        Some(Keyword::Break)
    } else if s == "continue"@ {
        Some(Keyword::Continue)
    } else if s == "if"@ {
        Some(Keyword::If)
    } else if s == "else"@ {
        Some(Keyword::Else)
    } else if s == "switch"@ {
        Some(Keyword::Switch)
    } else if s == "case"@ {
        Some(Keyword::Case)
    } else {
        None
    }
}

/// Whether `s`, of `n` characters, is the text `word`.
fn text_is(s: &str, n: usize, word: &str) -> (r: bool)
    requires
        n == s@.len(),
    ensures
        r == (s@ == word@),
{
    if n != word.unicode_len() {
        return false;
    }
    let mut i: usize = 0;
    while i < n
        invariant
            n == s@.len(),
            n == word@.len(),
            i <= n,
            forall|k: int| 0 <= k < i ==> s@[k] == word@[k],
        decreases n - i,
    {
        if s.get_char(i) != word.get_char(i) {
            return false;
        }
        i = i + 1;
    }
    assert(s@ =~= word@);
    true
}

impl Keyword {
    /// Reads the keyword that `s` spells.
    pub fn from_str(s: &str) -> (r: Result<Keyword, KeywordError>)
        ensures
            r == (match keyword_of(s@) {
                Some(k) => Ok(k),
                None => Err(KeywordError),
            }),
    {
        let n = s.unicode_len();
        if text_is(s, n, "const") {
            Ok(Keyword::Const)
        } else if text_is(s, n, "enum") {
            Ok(Keyword::Enum)
        } else if text_is(s, n, "return") {
            Ok(Keyword::Return)
        } else if text_is(s, n, "new") {
            Ok(Keyword::New)
        } else if text_is(s, n, "delete") {
            Ok(Keyword::Delete)
        } else if text_is(s, n, "include") {
            Ok(Keyword::Include)
        } else if text_is(s, n, "void") {
            Ok(Keyword::Void)
        } else if text_is(s, n, "int") {
            Ok(Keyword::Int)
        } else if text_is(s, n, "double") {
            Ok(Keyword::Double)
        } else if text_is(s, n, "do") {
            Ok(Keyword::Do)
        } else if text_is(s, n, "for") {
            Ok(Keyword::For)
        } else if text_is(s, n, "while") {
            Ok(Keyword::While)
        } else if text_is(s, n, "break") {
            Ok(Keyword::Break)
        } else if text_is(s, n, "continue") {
            Ok(Keyword::Continue)
        } else if text_is(s, n, "if") {
            Ok(Keyword::If)
        } else if text_is(s, n, "else") {
            Ok(Keyword::Else)
        } else if text_is(s, n, "switch") {
            Ok(Keyword::Switch)
        } else if text_is(s, n, "case") {
            Ok(Keyword::Case)
        } else {
            Err(KeywordError)
        }
    }
}

} // verus!
