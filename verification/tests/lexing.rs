use scriptkiddie::lexer::Lexer;
use scriptkiddie::scan::LexErrorKind;
use scriptkiddie::token::{Keyword, NumberValue, Operator, Punctuation, Token, TokenType};

fn token_types(input: &str) -> Vec<TokenType> {
    let mut lexer = Lexer::new(input.to_string());
    lexer
        .tokenize()
        .expect("lexing failed")
        .into_iter()
        .map(|token| token.token_type)
        .collect()
}

#[test]
fn lexer_tokenizes_string_types() {
    let input = "let foo = \"Hello!\";".to_string();
    let mut lexer = Lexer::new(input);

    let tokens: Vec<_> = lexer
        .tokenize()
        .unwrap()
        .into_iter()
        .map(|token| token.token_type)
        .collect();

    let should_be = vec![
        TokenType::Keyword(Keyword::Let),
        TokenType::Identifier("foo".to_string()),
        TokenType::Operator(Operator::Assignment),
        TokenType::String("Hello!".to_string()),
        TokenType::Punctuation(Punctuation::Semicolon),
    ];

    assert_eq!(tokens, should_be)
}

#[test]
fn lexer_tokenizes_punctuation() {
    let input = "for (let i = 0; i < 10; i++) {}".to_string();
    let mut lexer = Lexer::new(input);

    let tokens: Vec<_> = lexer
        .tokenize()
        .unwrap()
        .into_iter()
        .map(|token| token.token_type)
        .collect();

    let should_be = vec![
        TokenType::Keyword(Keyword::For),
        TokenType::Punctuation(Punctuation::OpenParen),
        TokenType::Keyword(Keyword::Let),
        TokenType::Identifier("i".to_string()),
        TokenType::Operator(Operator::Assignment),
        TokenType::Number(NumberValue { mantissa: 0, scale: 0 }),
        TokenType::Punctuation(Punctuation::Semicolon),
        TokenType::Identifier("i".to_string()),
        TokenType::Operator(Operator::Lt),
        TokenType::Number(NumberValue { mantissa: 10, scale: 0 }),
        TokenType::Punctuation(Punctuation::Semicolon),
        TokenType::Identifier("i".to_string()),
        TokenType::Operator(Operator::Inc),
        TokenType::Punctuation(Punctuation::CloseParen),
        TokenType::Punctuation(Punctuation::OpenSquiggle),
        TokenType::Punctuation(Punctuation::CloseSquiggle),
    ];

    assert_eq!(tokens, should_be)
}

#[test]
fn lexer_reads_an_identifier() {
    let input = "foo = 100".to_string();
    let mut lexer = Lexer::new(input);

    let token = lexer.collect_identifier_or_keyword();
    if let TokenType::Identifier(word) = token.token_type {
        assert_eq!("foo", word)
    } else {
        panic!("Token was not an identifier")
    }
}

#[test]
fn lexer_reads_a_keyword() {
    let input = "let foo = 100".to_string();
    let mut lexer = Lexer::new(input);

    let token = lexer.collect_identifier_or_keyword();
    if let TokenType::Keyword(word) = token.token_type {
        assert_eq!(Keyword::Let, word)
    } else {
        panic!("Token was not a keyword")
    }
}

#[test]
fn lexer_collect_number() {
    let input = "150".to_string();
    let mut lexer = Lexer::new(input);

    let number_token = lexer.collect_number().unwrap();
    if let TokenType::Number(num) = number_token.token_type {
        assert_eq!(NumberValue { mantissa: 150, scale: 0 }, num)
    } else {
        panic!("Token was not a number")
    }
}

#[test]
fn lexer_collect_number_with_decimal() {
    let input = "3.14".to_string();
    let mut lexer = Lexer::new(input);

    let number_token = lexer.collect_number().unwrap();
    if let TokenType::Number(num) = number_token.token_type {
        assert_eq!(NumberValue { mantissa: 314, scale: 2 }, num)
    } else {
        panic!("Token was not a number")
    }
}

#[test]
fn lexer_collects_operators() {
    let input = "*2".to_string();
    let mut lexer = Lexer::new(input);

    let operator = lexer.collect_operator_or_punctuation().unwrap();
    if let TokenType::Operator(op) = operator.token_type {
        assert_eq!(op, Operator::Mult)
    } else {
        panic!("Token was not an operator")
    }
}

#[test]
fn lexer_collects_eq_operators() {
    let input = ">=2".to_string();
    let mut lexer = Lexer::new(input);

    let operator = lexer.collect_operator_or_punctuation().unwrap();
    if let TokenType::Operator(op) = operator.token_type {
        assert_eq!(op, Operator::Gte)
    } else {
        panic!("Token was not an operator")
    }
}

#[test]
fn lexer_collects_punctuation() {
    let input = ";".to_string();
    let mut lexer = Lexer::new(input);

    let operator = lexer.collect_operator_or_punctuation().unwrap();
    if let TokenType::Punctuation(punc) = operator.token_type {
        assert_eq!(Punctuation::Semicolon, punc)
    } else {
        panic!("Token was not an operator")
    }
}

#[test]
fn lexer_collects_inc_dec() {
    let input = "++".to_string();
    let mut lexer = Lexer::new(input);

    let operator = lexer.collect_operator_or_punctuation().unwrap();
    if let TokenType::Operator(op) = operator.token_type {
        assert_eq!(op, Operator::Inc)
    } else {
        panic!("Token was not an operator")
    }
}

#[test]
fn lexer_read_string_reads_entire_string() {
    let input = "\"Hello World!\"".to_string();
    let mut lexer = Lexer::new(input);

    let string = lexer.collect_string().unwrap();
    if let TokenType::String(val) = string.token_type {
        assert_eq!("Hello World!", val)
    } else {
        panic!("Token type was not a string")
    }
}

#[test]
fn lexer_read_string_with_escapes() {
    let input = "\"Hello \'World!\'\"".to_string();
    let mut lexer = Lexer::new(input);

    let string = lexer.collect_string().unwrap();
    if let TokenType::String(val) = string.token_type {
        assert_eq!("Hello 'World!'", val)
    } else {
        panic!("Token type was not a string")
    }
}

#[test]
fn lexing_same_buffer_twice_is_deterministic() {
    let input = "let a = 1; /* x */ 'two' >= 3.5 // tail";
    let first = Lexer::new(input.to_string()).tokenize().unwrap();
    let second = Lexer::new(input.to_string()).tokenize().unwrap();
    assert_eq!(first, second);
}

#[test]
fn longest_match_wins_for_gte() {
    let tokens = token_types(">=2");
    assert_eq!(
        tokens,
        vec![
            TokenType::Operator(Operator::Gte),
            TokenType::Number(NumberValue { mantissa: 2, scale: 0 }),
        ]
    );
}

#[test]
fn increment_is_not_two_additions() {
    let tokens = token_types("++");
    assert_eq!(tokens, vec![TokenType::Operator(Operator::Inc)]);
}

#[test]
fn strings_close_on_their_opening_quote() {
    let tokens = token_types("'it''s'");
    assert_eq!(
        tokens,
        vec![
            TokenType::String("it".to_string()),
            TokenType::String("s".to_string()),
        ]
    );
}

#[test]
fn string_opened_with_single_quote_does_not_close_on_double() {
    let mut lexer = Lexer::new("'abc\"".to_string());
    let err = lexer.tokenize().unwrap_err();
    assert_eq!(err.kind, LexErrorKind::UnterminatedString);
}

#[test]
fn unterminated_string_is_an_error() {
    let mut lexer = Lexer::new("\"abc".to_string());
    let err = lexer.tokenize().unwrap_err();
    assert_eq!(err.kind, LexErrorKind::UnterminatedString);
}

#[test]
fn backslash_at_end_of_input_is_an_error() {
    let mut lexer = Lexer::new("\"abc\\".to_string());
    let err = lexer.tokenize().unwrap_err();
    assert_eq!(err.kind, LexErrorKind::UnterminatedString);
}

#[test]
fn block_comment_spans_lines() {
    let tokens = token_types("/* a\nb */let x;");
    assert_eq!(
        tokens,
        vec![
            TokenType::Keyword(Keyword::Let),
            TokenType::Identifier("x".to_string()),
            TokenType::Punctuation(Punctuation::Semicolon),
        ]
    );
}

#[test]
fn line_comment_ends_at_newline() {
    let tokens = token_types("// comment\nlet");
    assert_eq!(tokens, vec![TokenType::Keyword(Keyword::Let)]);
}

#[test]
fn unterminated_block_comment_is_an_error() {
    let mut lexer = Lexer::new("/* a".to_string());
    let err = lexer.tokenize().unwrap_err();
    assert_eq!(err.kind, LexErrorKind::UnterminatedComment);
}

#[test]
fn oversized_mantissa_is_malformed() {
    let mut lexer = Lexer::new("99999999999999999999".to_string());
    let err = lexer.tokenize().unwrap_err();
    assert_eq!(err.kind, LexErrorKind::MalformedNumber);
}

#[test]
fn unrecognized_character_is_an_error() {
    let mut lexer = Lexer::new("#".to_string());
    let err = lexer.tokenize().unwrap_err();
    assert_eq!(err.kind, LexErrorKind::UnrecognizedCharacter);
    assert_eq!(err.line, 1);
    assert_eq!(err.column, 1);
}

#[test]
fn tokens_carry_lines_and_columns() {
    let mut lexer = Lexer::new("a\n  b".to_string());
    let tokens = lexer.tokenize().unwrap();
    assert_eq!(
        tokens,
        vec![
            Token::new(TokenType::Identifier("a".to_string()), 1, 1),
            Token::new(TokenType::Identifier("b".to_string()), 2, 3),
        ]
    );
}

#[test]
fn second_decimal_point_ends_the_literal() {
    let tokens = token_types("1.2.3");
    assert_eq!(
        tokens,
        vec![
            TokenType::Number(NumberValue { mantissa: 12, scale: 1 }),
            TokenType::Operator(Operator::Dot),
            TokenType::Number(NumberValue { mantissa: 3, scale: 0 }),
        ]
    );
}

#[test]
fn next_token_pulls_one_token_at_a_time() {
    let mut lexer = Lexer::new(" let x".to_string());
    let first = lexer.next_token().unwrap().unwrap();
    assert_eq!(first.token_type, TokenType::Keyword(Keyword::Let));
    let second = lexer.next_token().unwrap().unwrap();
    assert_eq!(second.token_type, TokenType::Identifier("x".to_string()));
    assert_eq!(lexer.next_token().unwrap(), None);
}

#[test]
fn keyword_table_lookup() {
    assert_eq!(Keyword::to_keyword("let"), Some(Keyword::Let));
    assert_eq!(Keyword::to_keyword("const"), Some(Keyword::Const));
    assert_eq!(Keyword::to_keyword("var"), Some(Keyword::Var));
    assert_eq!(Keyword::to_keyword("for"), Some(Keyword::For));
    assert_eq!(Keyword::to_keyword("function"), Some(Keyword::Function));
    assert_eq!(Keyword::to_keyword("return"), Some(Keyword::Return));
    assert_eq!(Keyword::to_keyword("letx"), None);
}

#[test]
fn operator_table_lookup() {
    assert_eq!(Operator::to_operator(">="), Some(Operator::Gte));
    assert_eq!(Operator::to_operator("="), Some(Operator::Assignment));
    assert_eq!(Operator::to_operator("++"), Some(Operator::Inc));
    assert_eq!(Operator::to_operator("%="), Some(Operator::ModAssign));
    assert_eq!(Operator::to_operator(">>"), None);
}

#[test]
fn punctuation_table_lookup() {
    assert_eq!(Punctuation::to_puncutation(";"), Some(Punctuation::Semicolon));
    assert_eq!(Punctuation::to_puncutation("["), Some(Punctuation::OpenBracket));
    assert_eq!(Punctuation::to_puncutation(";;"), None);
    assert_eq!(Punctuation::to_puncutation("#"), None);
}

#[test]
fn dollar_and_underscore_are_identifier_characters() {
    let tokens = token_types("_a $b c$d");
    assert_eq!(
        tokens,
        vec![
            TokenType::Identifier("_a".to_string()),
            TokenType::Identifier("$b".to_string()),
            TokenType::Identifier("c$d".to_string()),
        ]
    );
}
