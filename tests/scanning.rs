use lexer::{Keyword, KeywordError, Lexer, LexerError, Scan, SpecialSymbol, SymbolError, Token};

fn scan(input: &str) -> (Vec<Token>, Result<(), LexerError>, bool) {
    let mut l = Lexer::new(input);
    let r = l.lex();
    let status = l.get_status();
    (l.into_tokens(), r, status)
}

fn sym(s: SpecialSymbol) -> Token {
    Token::SpecialSymbol(s)
}

#[test]
fn empty_input_ends_cleanly() {
    let (tokens, r, status) = scan("");
    assert!(tokens.is_empty());
    assert_eq!(r, Ok(()));
    assert!(status);
}

#[test]
fn blank_input_ends_cleanly() {
    let (tokens, r, status) = scan("  \n \n");
    assert!(tokens.is_empty());
    assert_eq!(r, Ok(()));
    assert!(status);
}

#[test]
fn number_at_end_of_input() {
    let (tokens, r, status) = scan("123");
    assert_eq!(tokens, vec![Token::NumberLiteral("123".to_string())]);
    assert_eq!(r, Ok(()));
    assert!(status);
}

#[test]
fn decimal_number() {
    let (tokens, r, _) = scan("3.14");
    assert_eq!(tokens, vec![Token::NumberLiteral("3.14".to_string())]);
    assert_eq!(r, Ok(()));
}

#[test]
fn number_with_trailing_point() {
    let (tokens, r, _) = scan("3.");
    assert_eq!(tokens, vec![Token::NumberLiteral("3.".to_string())]);
    assert_eq!(r, Ok(()));
}

#[test]
fn number_takes_one_point_only() {
    let (tokens, r, _) = scan("1.2.3");
    assert_eq!(tokens, vec![Token::NumberLiteral("1.2".to_string())]);
    assert_eq!(r, Err(LexerError::UnexpectedSymbol('.')));
}

#[test]
fn number_followed_by_letters() {
    let (tokens, r, _) = scan("12ab");
    assert_eq!(
        tokens,
        vec![
            Token::NumberLiteral("12".to_string()),
            Token::Identifier("ab".to_string()),
        ]
    );
    assert_eq!(r, Ok(()));
}

#[test]
fn double_quoted_string() {
    let (tokens, r, _) = scan("\"abc\"");
    assert_eq!(tokens, vec![Token::StringLiteral("abc".to_string())]);
    assert_eq!(r, Ok(()));
}

#[test]
fn single_quoted_string_keeps_other_quote() {
    let (tokens, r, _) = scan("'a\"b\\n'");
    assert_eq!(tokens, vec![Token::StringLiteral("a\"b\\n".to_string())]);
    assert_eq!(r, Ok(()));
}

#[test]
fn string_spans_lines() {
    let (tokens, r, _) = scan("\"a\nb\"");
    assert_eq!(tokens, vec![Token::StringLiteral("a\nb".to_string())]);
    assert_eq!(r, Ok(()));
}

#[test]
fn line_comment() {
    let (tokens, r, status) = scan("// note\n");
    assert_eq!(tokens, vec![Token::Comment("note".to_string())]);
    assert_eq!(r, Ok(()));
    assert!(status);
}

#[test]
fn line_comment_at_end_of_input() {
    let (tokens, r, _) = scan("x // last");
    assert_eq!(
        tokens,
        vec![Token::Identifier("x".to_string()), Token::Comment("last".to_string())]
    );
    assert_eq!(r, Ok(()));
}

#[test]
fn line_comment_ends_at_line() {
    let (tokens, r, _) = scan("//a b\ny");
    assert_eq!(
        tokens,
        vec![Token::Comment("a b".to_string()), Token::Identifier("y".to_string())]
    );
    assert_eq!(r, Ok(()));
}

#[test]
fn block_comment_with_star() {
    let (tokens, r, _) = scan("/* a * b */");
    assert_eq!(tokens, vec![Token::Comment(" a * b ".to_string())]);
    assert_eq!(r, Ok(()));
}

#[test]
fn block_comment_keeps_slashes_and_stars() {
    let (tokens, r, _) = scan("/* a/b **/x");
    assert_eq!(
        tokens,
        vec![Token::Comment(" a/b *".to_string()), Token::Identifier("x".to_string())]
    );
    assert_eq!(r, Ok(()));
}

#[test]
fn statement_sequence() {
    let (tokens, r, status) = scan("if(x>=1){return;}");
    assert_eq!(
        tokens,
        vec![
            Token::Keyword(Keyword::If),
            sym(SpecialSymbol::LeftParenthesis),
            Token::Identifier("x".to_string()),
            sym(SpecialSymbol::GreaterOrEqual),
            Token::NumberLiteral("1".to_string()),
            sym(SpecialSymbol::RightParenthesis),
            sym(SpecialSymbol::LeftBrace),
            Token::Keyword(Keyword::Return),
            sym(SpecialSymbol::Semicolon),
            sym(SpecialSymbol::RightBrace),
        ]
    );
    assert_eq!(r, Ok(()));
    assert!(status);
}

#[test]
fn compound_operators_are_one_symbol() {
    let cases = [
        ("==", SpecialSymbol::Equal),
        (">=", SpecialSymbol::GreaterOrEqual),
        ("<=", SpecialSymbol::SmallerOrEqual),
        ("+=", SpecialSymbol::PlusAssign),
        ("-=", SpecialSymbol::MinusAssign),
        ("*=", SpecialSymbol::AsteriskAssign),
        ("/=", SpecialSymbol::SlashAssign),
        ("&=", SpecialSymbol::AmpersandAssign),
        ("|=", SpecialSymbol::VerticalBarAssign),
        ("^=", SpecialSymbol::CaretAssign),
    ];
    for (text, expected) in cases {
        let (tokens, r, _) = scan(text);
        assert_eq!(tokens, vec![sym(expected)], "{}", text);
        assert_eq!(r, Ok(()));
        let spaced = format!("a{}b", text);
        let (tokens, _, _) = scan(&spaced);
        assert_eq!(tokens.len(), 3, "{}", spaced);
        assert_eq!(tokens[1], sym(expected));
    }
}

#[test]
fn separated_operators_stay_apart() {
    let (tokens, r, _) = scan("= = < =");
    assert_eq!(
        tokens,
        vec![
            sym(SpecialSymbol::Assign),
            sym(SpecialSymbol::Assign),
            sym(SpecialSymbol::LeftAngleBracket),
            sym(SpecialSymbol::Assign),
        ]
    );
    assert_eq!(r, Ok(()));
}

#[test]
fn triple_equals() {
    let (tokens, _, _) = scan("===");
    assert_eq!(tokens, vec![sym(SpecialSymbol::Equal), sym(SpecialSymbol::Assign)]);
}

#[test]
fn single_character_symbols() {
    let (tokens, r, _) = scan("+ - * / & | ^ = < > ( ) { } [ ] # , ;");
    assert_eq!(
        tokens,
        vec![
            sym(SpecialSymbol::Plus),
            sym(SpecialSymbol::Minus),
            sym(SpecialSymbol::Asterisk),
            sym(SpecialSymbol::Slash),
            sym(SpecialSymbol::Ampersand),
            sym(SpecialSymbol::VerticalBar),
            sym(SpecialSymbol::Caret),
            sym(SpecialSymbol::Assign),
            sym(SpecialSymbol::LeftAngleBracket),
            sym(SpecialSymbol::RightAngleBracket),
            sym(SpecialSymbol::LeftParenthesis),
            sym(SpecialSymbol::RightParenthesis),
            sym(SpecialSymbol::LeftBrace),
            sym(SpecialSymbol::RightBrace),
            sym(SpecialSymbol::LeftSquareParenthesis),
            sym(SpecialSymbol::RightSquareParenthesis),
            sym(SpecialSymbol::Sharp),
            sym(SpecialSymbol::Comma),
            sym(SpecialSymbol::Semicolon),
        ]
    );
    assert_eq!(r, Ok(()));
}

#[test]
fn slash_at_end_of_input() {
    let (tokens, r, _) = scan("a/");
    assert_eq!(
        tokens,
        vec![Token::Identifier("a".to_string()), sym(SpecialSymbol::Slash)]
    );
    assert_eq!(r, Ok(()));
}

#[test]
fn unterminated_string() {
    let (tokens, r, status) = scan("\"unterminated");
    assert!(tokens.is_empty());
    assert_eq!(r, Err(LexerError::UnterminatedString));
    assert!(!status);
}

#[test]
fn unterminated_string_after_tokens() {
    let (tokens, r, _) = scan("x = 'abc");
    assert_eq!(
        tokens,
        vec![Token::Identifier("x".to_string()), sym(SpecialSymbol::Assign)]
    );
    assert_eq!(r, Err(LexerError::UnterminatedString));
}

#[test]
fn unterminated_comment() {
    let (tokens, r, status) = scan("/* never closed");
    assert!(tokens.is_empty());
    assert_eq!(r, Err(LexerError::UnterminatedComment));
    assert!(!status);
}

#[test]
fn comment_opener_is_no_closer() {
    let (tokens, r, _) = scan("/*/");
    assert!(tokens.is_empty());
    assert_eq!(r, Err(LexerError::UnterminatedComment));
}

#[test]
fn unexpected_symbol() {
    let (tokens, r, status) = scan("@");
    assert!(tokens.is_empty());
    assert_eq!(r, Err(LexerError::UnexpectedSymbol('@')));
    assert!(!status);
}

#[test]
fn unexpected_symbol_keeps_earlier_tokens() {
    let (tokens, r, _) = scan("int a @ b");
    assert_eq!(
        tokens,
        vec![Token::Keyword(Keyword::Int), Token::Identifier("a".to_string())]
    );
    assert_eq!(r, Err(LexerError::UnexpectedSymbol('@')));
}

#[test]
fn tab_is_unexpected() {
    let (_, r, _) = scan("a\tb");
    assert_eq!(r, Err(LexerError::UnexpectedSymbol('\t')));
}

#[test]
fn non_ascii_letter_is_unexpected() {
    let (tokens, r, _) = scan("é");
    assert!(tokens.is_empty());
    assert_eq!(r, Err(LexerError::UnexpectedSymbol('é')));
}

#[test]
fn rescanning_gives_the_same_result() {
    let inputs = ["if(x>=1){return;}", "a @ b", "/* open", "", "'q' 1.5 // c"];
    for input in inputs {
        let first = scan(input);
        let second = scan(input);
        assert_eq!(first, second, "{}", input);
    }
}

#[test]
fn dotted_identifier() {
    let (tokens, r, _) = scan("std.io.x1");
    assert_eq!(tokens, vec![Token::Identifier("std.io.x1".to_string())]);
    assert_eq!(r, Ok(()));
}

#[test]
fn keyword_needs_whole_word() {
    let (tokens, r, _) = scan("int integer If");
    assert_eq!(
        tokens,
        vec![
            Token::Keyword(Keyword::Int),
            Token::Identifier("integer".to_string()),
            Token::Identifier("If".to_string()),
        ]
    );
    assert_eq!(r, Ok(()));
}

#[test]
fn all_keywords_scan() {
    let (tokens, r, _) = scan(
        "const enum return new delete include void int double do for while break continue if else switch case",
    );
    assert_eq!(
        tokens,
        vec![
            Token::Keyword(Keyword::Const),
            Token::Keyword(Keyword::Enum),
            Token::Keyword(Keyword::Return),
            Token::Keyword(Keyword::New),
            Token::Keyword(Keyword::Delete),
            Token::Keyword(Keyword::Include),
            Token::Keyword(Keyword::Void),
            Token::Keyword(Keyword::Int),
            Token::Keyword(Keyword::Double),
            Token::Keyword(Keyword::Do),
            Token::Keyword(Keyword::For),
            Token::Keyword(Keyword::While),
            Token::Keyword(Keyword::Break),
            Token::Keyword(Keyword::Continue),
            Token::Keyword(Keyword::If),
            Token::Keyword(Keyword::Else),
            Token::Keyword(Keyword::Switch),
            Token::Keyword(Keyword::Case),
        ]
    );
    assert_eq!(r, Ok(()));
}

#[test]
fn keyword_from_str() {
    assert_eq!(Keyword::from_str("while"), Ok(Keyword::While));
    assert_eq!(Keyword::from_str("case"), Ok(Keyword::Case));
    assert_eq!(Keyword::from_str("whilst"), Err(KeywordError));
    assert_eq!(Keyword::from_str(""), Err(KeywordError));
    assert_eq!(Keyword::from_str("Int"), Err(KeywordError));
}

#[test]
fn symbol_from_str() {
    assert_eq!(SpecialSymbol::from_str("=="), Ok(SpecialSymbol::Equal));
    assert_eq!(SpecialSymbol::from_str("#"), Ok(SpecialSymbol::Sharp));
    assert_eq!(SpecialSymbol::from_str("/="), Ok(SpecialSymbol::SlashAssign));
    assert_eq!(SpecialSymbol::from_str("("), Ok(SpecialSymbol::LeftParenthesis));
    assert_eq!(SpecialSymbol::from_str("(="), Err(SymbolError));
    assert_eq!(SpecialSymbol::from_str("!"), Err(SymbolError));
    assert_eq!(SpecialSymbol::from_str(""), Err(SymbolError));
    assert_eq!(SpecialSymbol::from_str("=+"), Err(SymbolError));
}

#[test]
fn symbol_from_char() {
    assert_eq!(SpecialSymbol::from_char(';'), Some(SpecialSymbol::Semicolon));
    assert_eq!(SpecialSymbol::from_char('@'), None);
    assert_eq!(SpecialSymbol::compound_from_char('<'), Some(SpecialSymbol::SmallerOrEqual));
    assert_eq!(SpecialSymbol::compound_from_char('#'), None);
}

#[test]
fn stepwise_scanning() {
    let mut l = Lexer::new("  x 1 @");
    assert!(!l.get_status());
    assert_eq!(l.next_token(), Scan::Token(Token::Identifier("x".to_string())));
    assert_eq!(l.next_token(), Scan::Token(Token::NumberLiteral("1".to_string())));
    assert_eq!(l.next_token(), Scan::Error(LexerError::UnexpectedSymbol('@')));
    assert_eq!(l.next_token(), Scan::Error(LexerError::UnexpectedSymbol('@')));
    assert!(l.tokens().is_empty());
}

#[test]
fn stepwise_end_of_input() {
    let mut l = Lexer::new("; ");
    assert_eq!(l.next_token(), Scan::Token(sym(SpecialSymbol::Semicolon)));
    assert_eq!(l.next_token(), Scan::EndOfInput);
    assert_eq!(l.next_token(), Scan::EndOfInput);
}

#[test]
fn status_false_before_scan() {
    let l = Lexer::new("x");
    assert!(!l.get_status());
    assert!(l.tokens().is_empty());
}

#[test]
fn scan_after_clean_end_adds_nothing() {
    let mut l = Lexer::new("a b");
    assert_eq!(l.lex(), Ok(()));
    assert_eq!(l.lex(), Ok(()));
    assert_eq!(l.tokens().len(), 2);
    assert!(l.get_status());
}
