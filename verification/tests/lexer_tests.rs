use language::lexer::{lex_all, Keyword, Lexer, LexerError, TokenKind};

#[test]
fn empty_input_lexes_empty() {
    assert_eq!(lex_all(""), Vec::<TokenKind>::new());
}

#[test]
fn whitespace_only_lexes_empty() {
    assert_eq!(lex_all("   \t \n  \r\n "), Vec::<TokenKind>::new());
    assert_eq!(lex_all("\u{00a0}\u{2003}\u{3000}"), Vec::<TokenKind>::new());
}

#[test]
fn keyword_lookup_is_exact_and_case_sensitive() {
    assert_eq!(lex_all("forever"), vec![TokenKind::Ident("forever".to_string())]);
    assert_eq!(lex_all("For"), vec![TokenKind::Ident("For".to_string())]);
    assert_eq!(lex_all("for"), vec![TokenKind::Keyword(Keyword::For)]);
}

#[test]
fn every_keyword_is_recognized() {
    assert_eq!(
        lex_all("const else for function if import return var"),
        vec![
            TokenKind::Keyword(Keyword::Const),
            TokenKind::Keyword(Keyword::Else),
            TokenKind::Keyword(Keyword::For),
            TokenKind::Keyword(Keyword::Function),
            TokenKind::Keyword(Keyword::If),
            TokenKind::Keyword(Keyword::Import),
            TokenKind::Keyword(Keyword::Return),
            TokenKind::Keyword(Keyword::Var),
        ]
    );
}

#[test]
fn line_comment_then_keyword() {
    assert_eq!(
        lex_all("# not a token\nvar"),
        vec![TokenKind::LineComment, TokenKind::Keyword(Keyword::Var)]
    );
}

#[test]
fn comment_text_is_discarded() {
    assert_eq!(lex_all("#x\nvar"), lex_all("# a very different comment\nvar"));
}

#[test]
fn trailing_comment_without_newline_still_yields_a_token() {
    assert_eq!(lex_all("#comment"), vec![TokenKind::LineComment]);
}

#[test]
fn var_assignment_statement() {
    assert_eq!(
        lex_all("var1 = 1;"),
        vec![
            TokenKind::Ident("var1".to_string()),
            TokenKind::Op('='),
            TokenKind::Number("1".to_string()),
            TokenKind::Semi,
        ]
    );
    // The consumed numeric span parses to the value 1.0.
    assert_eq!("1".parse::<f64>().unwrap(), 1.0);
}

#[test]
fn function_definition() {
    assert_eq!(
        lex_all("function add(a, b) { return a + b; }"),
        vec![
            TokenKind::Keyword(Keyword::Function),
            TokenKind::Ident("add".to_string()),
            TokenKind::OpenParen,
            TokenKind::Ident("a".to_string()),
            TokenKind::Comma,
            TokenKind::Ident("b".to_string()),
            TokenKind::CloseParen,
            TokenKind::OpenBrace,
            TokenKind::Keyword(Keyword::Return),
            TokenKind::Ident("a".to_string()),
            TokenKind::Op('+'),
            TokenKind::Ident("b".to_string()),
            TokenKind::Semi,
            TokenKind::CloseBrace,
        ]
    );
}

#[test]
fn relexing_yields_identical_tokens() {
    let input = "# header\nvar x = add(1, 2.5);\n";
    assert_eq!(lex_all(input), lex_all(input));
}

#[test]
fn punctuation_tokens() {
    assert_eq!(
        lex_all(",;()[]{}"),
        vec![
            TokenKind::Comma,
            TokenKind::Semi,
            TokenKind::OpenParen,
            TokenKind::CloseParen,
            TokenKind::OpenBracket,
            TokenKind::CloseBracket,
            TokenKind::OpenBrace,
            TokenKind::CloseBrace,
        ]
    );
}

#[test]
fn operator_characters_stand_for_themselves() {
    assert_eq!(
        lex_all("= + * <"),
        vec![
            TokenKind::Op('='),
            TokenKind::Op('+'),
            TokenKind::Op('*'),
            TokenKind::Op('<'),
        ]
    );
}

#[test]
fn number_spans_are_permissive() {
    // The scanner consumes dots and hexadecimal digits without validating
    // the span as a float.
    assert_eq!(lex_all("1.2.3;"), vec![
        TokenKind::Number("1.2.3".to_string()),
        TokenKind::Semi,
    ]);
    assert_eq!(lex_all("1f"), vec![TokenKind::Number("1f".to_string())]);
    assert_eq!(lex_all(".5"), vec![TokenKind::Number(".5".to_string())]);
    assert_eq!(lex_all("0Abc"), vec![TokenKind::Number("0Abc".to_string())]);
}

#[test]
fn x_is_not_a_number_continuation() {
    // 'x' is no hexadecimal digit, so "0xA" splits after the zero.
    assert_eq!(
        lex_all("0xA"),
        vec![
            TokenKind::Number("0".to_string()),
            TokenKind::Ident("xA".to_string()),
        ]
    );
}

#[test]
fn identifiers_with_underscores_and_digits() {
    assert_eq!(
        lex_all("_foo bar_2"),
        vec![
            TokenKind::Ident("_foo".to_string()),
            TokenKind::Ident("bar_2".to_string()),
        ]
    );
}

#[test]
fn identifiers_continue_over_unicode_alphanumerics() {
    assert_eq!(lex_all("h\u{e9}llo"), vec![TokenKind::Ident("h\u{e9}llo".to_string())]);
}

#[test]
fn unclassified_unicode_character_is_an_operator() {
    assert_eq!(lex_all("\u{20ac}"), vec![TokenKind::Op('\u{20ac}')]);
}

#[test]
fn lex_reports_eof_on_empty_input() {
    let mut lexer = Lexer::new("");
    match lexer.lex() {
        Ok(TokenKind::Eof) => {}
        _ => panic!("expected the Eof sentinel"),
    }
}

#[test]
fn exhausted_lexer_yields_nothing_more() {
    let mut lexer = Lexer::new("var x");
    let tokens = lexer.tokens();
    assert_eq!(tokens.len(), 2);
    assert_eq!(lexer.next(), None);
    assert_eq!(lexer.next(), None);
    assert!(lexer.tokens().is_empty());
}

#[test]
fn next_steps_through_the_sequence() {
    let mut lexer = Lexer::new("a b");
    assert_eq!(lexer.next(), Some(TokenKind::Ident("a".to_string())));
    assert_eq!(lexer.next(), Some(TokenKind::Ident("b".to_string())));
    assert_eq!(lexer.next(), None);
}

#[test]
fn lexer_error_constructors() {
    let e = LexerError::new("bad input");
    assert_eq!(e.error, "bad input");
    assert_eq!(e.index, 0);
    let e = LexerError::with_index("bad literal", 7);
    assert_eq!(e.error, "bad literal");
    assert_eq!(e.index, 7);
}

#[test]
fn sample_program_lexes_in_order() {
    let input = "\n    # This is a comment\n\n    var var1 = 1;\n";
    assert_eq!(
        lex_all(input),
        vec![
            TokenKind::LineComment,
            TokenKind::Keyword(Keyword::Var),
            TokenKind::Ident("var1".to_string()),
            TokenKind::Op('='),
            TokenKind::Number("1".to_string()),
            TokenKind::Semi,
        ]
    );
}
