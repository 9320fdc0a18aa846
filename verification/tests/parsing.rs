use scriptkiddie::ast::{ASTNode, AstParseError, VariableKind};
use scriptkiddie::lexer::Lexer;
use scriptkiddie::parser::Parser;
use scriptkiddie::syntax::{BinaryExpr, SyntaxGrammar};
use scriptkiddie::token::{NumberValue, Operator, Punctuation, TokenType};

fn parse(input: &str) -> Result<ASTNode, AstParseError> {
    let mut lexer = Lexer::new(input.to_string());
    let mut parser = Parser::from_lexer(&mut lexer).expect("lexing failed");
    parser.parse_program()
}

fn number(mantissa: u64, scale: usize) -> ASTNode {
    ASTNode::NumberLiteral(NumberValue { mantissa, scale })
}

fn ident(name: &str) -> ASTNode {
    ASTNode::Identifier(name.to_string())
}

fn binary(op: Operator, left: ASTNode, right: ASTNode) -> ASTNode {
    ASTNode::BinaryExpression {
        operator: op,
        left: Box::new(left),
        right: Box::new(right),
    }
}

#[test]
fn parse_declarations() {
    let input = "let a;".to_string();
    let mut lexer = Lexer::new(input);
    let tokens = lexer.tokenize().unwrap();
    let mut parser = Parser::new(tokens);

    let parsed = parser.parse_program().expect("Failed to parse expression");
    assert_eq!(
        ASTNode::Program(vec![ASTNode::VariableDeclaration {
            kind: VariableKind::Let,
            name: "a".into(),
            initializer: None
        }]),
        parsed
    )
}

#[test]
fn precedence_groups_multiplication_first() {
    let parsed = parse("a + b * c;").unwrap();
    assert_eq!(
        parsed,
        ASTNode::Program(vec![ASTNode::ExpressionStatement(Box::new(binary(
            Operator::Add,
            ident("a"),
            binary(Operator::Mult, ident("b"), ident("c")),
        )))])
    );
}

#[test]
fn subtraction_is_left_associative() {
    let parsed = parse("a - b - c;").unwrap();
    assert_eq!(
        parsed,
        ASTNode::Program(vec![ASTNode::ExpressionStatement(Box::new(binary(
            Operator::Sub,
            binary(Operator::Sub, ident("a"), ident("b")),
            ident("c"),
        )))])
    );
}

#[test]
fn declaration_round_trip() {
    let parsed = parse("let x = 5;").unwrap();
    assert_eq!(
        parsed,
        ASTNode::Program(vec![ASTNode::VariableDeclaration {
            kind: VariableKind::Let,
            name: "x".to_string(),
            initializer: Some(Box::new(number(5, 0))),
        }])
    );
}

#[test]
fn malformed_declaration_reports_the_offending_token() {
    let err = parse("let = 5;").unwrap_err();
    match err {
        AstParseError::UnexpectedToken(token) => {
            assert_eq!(token.token_type, TokenType::Operator(Operator::Assignment));
            assert_eq!(token.line, 1);
            assert_eq!(token.column, 5);
        }
        other => panic!("expected UnexpectedToken, got {:?}", other),
    }
}

#[test]
fn end_to_end_three_declarations() {
    let parsed = parse("let a = 100; let b = 20; let c = a + b;").unwrap();
    assert_eq!(
        parsed,
        ASTNode::Program(vec![
            ASTNode::VariableDeclaration {
                kind: VariableKind::Let,
                name: "a".to_string(),
                initializer: Some(Box::new(number(100, 0))),
            },
            ASTNode::VariableDeclaration {
                kind: VariableKind::Let,
                name: "b".to_string(),
                initializer: Some(Box::new(number(20, 0))),
            },
            ASTNode::VariableDeclaration {
                kind: VariableKind::Let,
                name: "c".to_string(),
                initializer: Some(Box::new(binary(Operator::Add, ident("a"), ident("b")))),
            },
        ])
    );
}

#[test]
fn const_and_var_declarations() {
    let parsed = parse("const a = 1; var b;").unwrap();
    assert_eq!(
        parsed,
        ASTNode::Program(vec![
            ASTNode::VariableDeclaration {
                kind: VariableKind::Const,
                name: "a".to_string(),
                initializer: Some(Box::new(number(1, 0))),
            },
            ASTNode::VariableDeclaration {
                kind: VariableKind::Var,
                name: "b".to_string(),
                initializer: None,
            },
        ])
    );
}

#[test]
fn parenthesized_expression_overrides_precedence() {
    let parsed = parse("(a + b) * c;").unwrap();
    assert_eq!(
        parsed,
        ASTNode::Program(vec![ASTNode::ExpressionStatement(Box::new(binary(
            Operator::Mult,
            binary(Operator::Add, ident("a"), ident("b")),
            ident("c"),
        )))])
    );
}

#[test]
fn unary_minus_in_initializer() {
    let parsed = parse("let x = -5;").unwrap();
    assert_eq!(
        parsed,
        ASTNode::Program(vec![ASTNode::VariableDeclaration {
            kind: VariableKind::Let,
            name: "x".to_string(),
            initializer: Some(Box::new(ASTNode::UnaryExpression {
                operator: Operator::Sub,
                operand: Box::new(number(5, 0)),
            })),
        }])
    );
}

#[test]
fn function_declaration_with_body_and_call() {
    let parsed = parse("function add(a, b) { a + b; } let c = add(1, 2);").unwrap();
    assert_eq!(
        parsed,
        ASTNode::Program(vec![
            ASTNode::FunctionDeclaration {
                name: "add".to_string(),
                params: vec!["a".to_string(), "b".to_string()],
                body: vec![ASTNode::ExpressionStatement(Box::new(binary(
                    Operator::Add,
                    ident("a"),
                    ident("b"),
                )))],
            },
            ASTNode::VariableDeclaration {
                kind: VariableKind::Let,
                name: "c".to_string(),
                initializer: Some(Box::new(ASTNode::CallExpression {
                    callee: Box::new(ident("add")),
                    args: vec![number(1, 0), number(2, 0)],
                })),
            },
        ])
    );
}

#[test]
fn call_with_no_arguments() {
    let parsed = parse("f();").unwrap();
    assert_eq!(
        parsed,
        ASTNode::Program(vec![ASTNode::ExpressionStatement(Box::new(
            ASTNode::CallExpression {
                callee: Box::new(ident("f")),
                args: vec![],
            }
        ))])
    );
}

#[test]
fn missing_semicolon_is_a_hard_error() {
    let err = parse("a + b").unwrap_err();
    assert_eq!(err, AstParseError::UnexpectedEof);
}

#[test]
fn keyword_in_expression_position_matches_no_rule() {
    let err = parse("for;").unwrap_err();
    assert_eq!(err, AstParseError::UnknownTokenPattern);
}

#[test]
fn declaration_without_name_at_end_of_input() {
    let err = parse("let").unwrap_err();
    assert_eq!(err, AstParseError::UnexpectedEof);
}

#[test]
fn assignment_is_right_associative() {
    let parsed = parse("a = b = c;").unwrap();
    assert_eq!(
        parsed,
        ASTNode::Program(vec![ASTNode::ExpressionStatement(Box::new(binary(
            Operator::Assignment,
            ident("a"),
            binary(Operator::Assignment, ident("b"), ident("c")),
        )))])
    );
}

#[test]
fn binary_rule_predicate_does_not_move_the_cursor() {
    let mut lexer = Lexer::new("a + b".to_string());
    let tokens = lexer.tokenize().unwrap();
    let rule = BinaryExpr;
    assert!(rule.matches_pattern(&tokens, 0));
    assert!(!rule.matches_pattern(&tokens, tokens.len()));
}

#[test]
fn binary_rule_parses_through_the_grammar_trait() {
    let mut lexer = Lexer::new("1 + 2".to_string());
    let tokens = lexer.tokenize().unwrap();
    let rule = BinaryExpr;
    let mut place: usize = 0;
    let parsed = rule.parse_grammar(&tokens, &mut place).unwrap();
    assert_eq!(parsed, binary(Operator::Add, number(1, 0), number(2, 0)));
    assert_eq!(place, 3);
}

#[test]
fn consume_punctuation_consumes_the_mismatched_token() {
    let mut lexer = Lexer::new("a ;".to_string());
    let tokens = lexer.tokenize().unwrap();
    let mut parser = Parser::new(tokens);
    let first = parser.consume_punctuation(Punctuation::Semicolon);
    match first {
        Err(AstParseError::UnexpectedToken(token)) => {
            assert_eq!(token.token_type, TokenType::Identifier("a".to_string()));
        }
        other => panic!("expected UnexpectedToken, got {:?}", other),
    }
    assert_eq!(parser.consume_punctuation(Punctuation::Semicolon), Ok(()));
}

#[test]
fn empty_input_parses_to_an_empty_program() {
    assert_eq!(parse("").unwrap(), ASTNode::Program(vec![]));
    assert_eq!(parse("  \n\t ").unwrap(), ASTNode::Program(vec![]));
}

#[test]
fn parsing_same_tokens_twice_is_deterministic() {
    let first = parse("let a = 1 + 2 * 3;");
    let second = parse("let a = 1 + 2 * 3;");
    assert_eq!(first, second);
}
