//! The scanner: one pass over an input, token by token.

use vstd::prelude::*;
use crate::keyword::Keyword;
use crate::model::{
    comment_close, in_class, lemma_comment_close_bounds, lemma_run_end_bounds,
    lemma_scan_advances, lex_from, run_end, scan_at, token_at, tokenize, CharClass,
};
use crate::symbol::SpecialSymbol;
use crate::token::{tokens_view, LexerError, Scan, Token, TokenView};

verus! {

/// Scans one input text into tokens. A scanner is made for one input and
/// scans it once.
pub struct Lexer {
    tokens: Vec<Token>,
    chars: Vec<char>,
    pos: usize,
    status: bool,
}

impl Lexer {
    /// The tokens read so far, in the order of the input.
    pub closed spec fn token_views(&self) -> Seq<TokenView> {
        tokens_view(self.tokens@)
    }

    /// The input characters.
    pub closed spec fn input(&self) -> Seq<char> {
        self.chars@
    }

    /// Where scanning goes on: the index of the next unread character.
    pub closed spec fn position(&self) -> nat {
        self.pos as nat
    }

    /// Whether a scan has reached the end of input cleanly.
    pub closed spec fn finished(&self) -> bool {
        self.status
    }

    /// Whether the scanner holds what a scan of its whole input from the
    /// start gives: its tokens, and the status of how that scan ended.
    pub open spec fn scanned_whole(&self) -> bool {
        &&& self.token_views() == tokenize(self.input()).0
        &&& self.finished() == (tokenize(self.input()).1 is Ok)
    }

    pub closed spec fn wf(&self) -> bool {
        self.pos <= self.chars.len()
    }

    /// A scanner over `buffer`, at its start, with no token read.
    pub fn new(buffer: &str) -> (l: Lexer)
        ensures
            l.wf(),
            l.input() == buffer@,
            l.position() == 0,
            l.token_views() == Seq::<TokenView>::empty(),
            !l.finished(),
    {
        broadcast use vstd::string::axiom_spec_iter;
        let mut chars: Vec<char> = Vec::new();
        for c in it: buffer.chars()
            invariant
                chars@ == it.seq().take(it.index()),
        {
            chars.push(c);
            assert(chars@ =~= it.seq().take(it.index() + 1));
        }
        assert(chars@ =~= buffer@);
        let l = Lexer { tokens: Vec::new(), chars, pos: 0, status: false };
        assert(l.token_views() =~= Seq::<TokenView>::empty());
        l
    }

    /// The tokens read so far, in the order of the input.
    pub fn tokens(&self) -> (r: &Vec<Token>)
        ensures
            tokens_view(r@) == self.token_views(),
    {
        &self.tokens
    }

    /// Gives up the scanner for the tokens it has read.
    pub fn into_tokens(self) -> (r: Vec<Token>)
        ensures
            tokens_view(r@) == self.token_views(),
    {
        self.tokens
    }

    /// Whether the scan has reached the end of input cleanly.
    pub fn get_status(&self) -> (r: bool)
        ensures
            r == self.finished(),
    {
        self.status
    }

    /// The end of the run of `class` characters from `from` on.
    fn run_end(&self, from: usize, class: CharClass) -> (r: usize)
        requires
            from <= self.chars.len(),
        ensures
            r == run_end(self.chars@, from as nat, class),
    {
        let mut i = from;
        while i < self.chars.len() && char_in_class(self.chars[i], class)
            invariant
                from <= i <= self.chars.len(),
                run_end(self.chars@, i as nat, class) == run_end(self.chars@, from as nat, class),
            decreases self.chars.len() - i,
        {
            i = i + 1;
        }
        i
    }

    /// Where the first `*/` from `from` on begins.
    fn comment_close(&self, from: usize) -> (r: Option<usize>)
        requires
            from <= self.chars.len(),
        ensures
            match r {
                Some(j) => comment_close(self.chars@, from as nat) == Some(j as nat),
                None => comment_close(self.chars@, from as nat) is None,
            },
    {
        let n = self.chars.len();
        let mut i = from;
        while n - i >= 2
            invariant
                n == self.chars.len(),
                from <= i <= n,
                comment_close(self.chars@, i as nat) == comment_close(self.chars@, from as nat),
            decreases n - i,
        {
            if self.chars[i] == '*' && self.chars[i + 1] == '/' {
                return Some(i);
            }
            i = i + 1;
        }
        None
    }

    /// The input characters from `from` up to `to`, as a string.
    fn text(&self, from: usize, to: usize) -> (r: String)
        requires
            from <= to <= self.chars.len(),
        ensures
            r@ == self.chars@.subrange(from as int, to as int),
    {
        let mut r = String::new();
        let mut i = from;
        while i < to
            invariant
                from <= i <= to <= self.chars.len(),
                r@ == self.chars@.subrange(from as int, i as int),
            decreases to - i,
        {
            r.push(self.chars[i]);
            i = i + 1;
            assert(r@ =~= self.chars@.subrange(from as int, i as int));
        }
        r
    }

    /// Reads the token that starts at `i`, and says where scanning goes on.
    fn token_at(&self, i: usize) -> (r: (Scan, usize))
        requires
            i < self.chars.len(),
            !in_class(self.chars@[i as int], CharClass::Blank),
        ensures
            (r.0@, r.1 as nat) == token_at(self.chars@, i as nat),
    {
        let ghost s = self.chars@;
        let n = self.chars.len();
        let c = self.chars[i];
        proof {
            lemma_run_end_bounds(s, (i + 1) as nat, CharClass::Digit);
            lemma_run_end_bounds(s, (i + 1) as nat, CharClass::Word);
        }
        let compound = if i + 1 < n && self.chars[i + 1] == '=' {
            SpecialSymbol::compound_from_char(c)
        } else {
            None
        };
        if c == '"' || c == '\'' {
            proof {
                lemma_run_end_bounds(s, (i + 1) as nat, CharClass::Except(c));
            }
            let close = self.run_end(i + 1, CharClass::Except(c));
            if close < n {
                (Scan::Token(Token::StringLiteral(self.text(i + 1, close))), close + 1)
            } else {
                (Scan::Error(LexerError::UnterminatedString), i)
            }
        } else if c == '/' && i + 1 < n && self.chars[i + 1] == '*' {
            proof {
                lemma_comment_close_bounds(s, (i + 2) as nat);
            }
            match self.comment_close(i + 2) {
                Some(close) => (Scan::Token(Token::Comment(self.text(i + 2, close))), close + 2),
                None => (Scan::Error(LexerError::UnterminatedComment), i),
            }
        } else if c == '/' && i + 1 < n && self.chars[i + 1] == '/' {
            let start = self.run_end(i + 2, CharClass::Space);
            proof {
                lemma_run_end_bounds(s, (i + 2) as nat, CharClass::Space);
                lemma_run_end_bounds(s, start as nat, CharClass::LineText);
            }
            let end = self.run_end(start, CharClass::LineText);
            let next = if end < n {
                end + 1
            } else {
                end
            };
            (Scan::Token(Token::Comment(self.text(start, end))), next)
        } else if let Some(sym) = compound {
            (Scan::Token(Token::SpecialSymbol(sym)), i + 2)
        } else if '0' <= c && c <= '9' {
            let whole = self.run_end(i + 1, CharClass::Digit);
            let end = if whole < n && self.chars[whole] == '.' {
                proof {
                    lemma_run_end_bounds(s, (whole + 1) as nat, CharClass::Digit);
                }
                self.run_end(whole + 1, CharClass::Digit)
            } else {
                whole
            };
            (Scan::Token(Token::NumberLiteral(self.text(i, end))), end)
        } else if ('a' <= c && c <= 'z') || ('A' <= c && c <= 'Z') {
            let end = self.run_end(i + 1, CharClass::Word);
            let text = self.text(i, end);
            match Keyword::from_str(text.as_str()) {
                Ok(k) => (Scan::Token(Token::Keyword(k)), end),
                Err(_) => (Scan::Token(Token::Identifier(text)), end),
            }
        } else {
            match SpecialSymbol::from_char(c) {
                Some(sym) => (Scan::Token(Token::SpecialSymbol(sym)), i + 1),
                None => (Scan::Error(LexerError::UnexpectedSymbol(c)), i),
            }
        }
    }

    /// One scanning step: skips blanks, then reads a token, meets the end of
    /// input, or finds an error. After a token the position moves past it;
    /// after an error it rests where the bad token starts.
    pub fn next_token(&mut self) -> (r: Scan)
        requires
            old(self).wf(),
        ensures
            final(self).wf(),
            final(self).input() == old(self).input(),
            final(self).token_views() == old(self).token_views(),
            final(self).finished() == old(self).finished(),
            (r@, final(self).position()) == scan_at(old(self).input(), old(self).position()),
    {
        let start = self.run_end(self.pos, CharClass::Blank);
        proof {
            lemma_run_end_bounds(self.chars@, self.pos as nat, CharClass::Blank);
        }
        if start >= self.chars.len() {
            self.pos = start;
            Scan::EndOfInput
        } else {
            let (r, next) = self.token_at(start);
            self.pos = next;
            proof {
                lemma_scan_advances(self.chars@, start as nat);
            }
            r
        }
    }

    /// Scans the rest of the input. The tokens read are appended in order;
    /// the scan ends with `Ok` at the end of input, or with the first error,
    /// after which no further token is read.
    pub fn lex(&mut self) -> (r: Result<(), LexerError>)
        requires
            old(self).wf(),
        ensures
            final(self).wf(),
            final(self).input() == old(self).input(),
            final(self).token_views() == old(self).token_views() + lex_from(
                old(self).input(),
                old(self).position(),
            ).0,
            r == lex_from(old(self).input(), old(self).position()).1,
            final(self).finished() == (r is Ok),
            old(self).position() == 0 && old(self).token_views().len() == 0
                ==> final(self).scanned_whole(),
    {
        let ghost s = self.chars@;
        let ghost start_views = self.token_views();
        let ghost outcome = lex_from(s, self.pos as nat);
        let mut result: Result<(), LexerError> = Ok(());
        loop
            invariant_except_break
                self.token_views() + lex_from(s, self.pos as nat).0 == start_views + outcome.0,
                lex_from(s, self.pos as nat).1 == outcome.1,
            invariant
                self.wf(),
                self.chars@ == s,
            ensures
                self.wf(),
                self.chars@ == s,
                self.token_views() == start_views + outcome.0,
                result == outcome.1,
            decreases s.len() - self.pos,
        {
            let ghost before = self.pos as nat;
            let ghost views = self.token_views();
            proof {
                lemma_scan_advances(s, before);
            }
            match self.next_token() {
                Scan::Token(t) => {
                    let ghost tv = t@;
                    self.tokens.push(t);
                    assert(self.token_views() =~= views.push(tv));
                    assert(views.push(tv) + lex_from(s, self.pos as nat).0 =~= views + lex_from(
                        s,
                        before,
                    ).0);
                },
                Scan::EndOfInput => {
                    assert(lex_from(s, before).1 == Ok::<(), LexerError>(()));
                    assert(self.token_views() =~= start_views + outcome.0);
                    result = Ok(());
                    break;
                },
                Scan::Error(e) => {
                    assert(self.token_views() =~= start_views + outcome.0);
                    result = Err(e);
                    break;
                },
            }
        }
        self.status = result.is_ok();
        assert(old(self).token_views().len() == 0 ==> self.token_views() =~= outcome.0);
        result
    }
}

/// Scanning depends on the input alone: two scanners that have each scanned
/// the same input from its start hold the same tokens and the same status.
pub proof fn lemma_scan_repeatable(first: &Lexer, second: &Lexer)
    requires
        first.scanned_whole(),
        second.scanned_whole(),
        first.input() == second.input(),
    ensures
        first.token_views() == second.token_views(),
        first.finished() == second.finished(),
{
}

/// Whether `c` is of `class`.
fn char_in_class(c: char, class: CharClass) -> (r: bool)
    ensures
        r == in_class(c, class),
{
    match class {
        CharClass::Blank => c == ' ' || c == '\n',
        CharClass::Space => c == ' ',
        CharClass::Digit => '0' <= c && c <= '9',
        CharClass::Word => ('a' <= c && c <= 'z') || ('A' <= c && c <= 'Z') || ('0' <= c && c
            <= '9') || c == '.',
        CharClass::LineText => !(c <= '\x1f' || c == '\x7f'),
        CharClass::Except(q) => c != q,
    }
}

} // verus!
