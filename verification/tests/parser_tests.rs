use monkey::ast::{
    BlockStatement, Expression, Identifier, InfixExpression, PrefixExpression, Statement,
};
use monkey::lexer::Lexer;
use monkey::parser::Parser;
use monkey::token::Token;

fn check_errors(errors: Vec<String>) {
    if errors.len() == 0 {
        return;
    }

    for err in errors.into_iter() {
        println!("Error: {:?}", err);
    }
    panic!("There were errors in the parser")
}

#[test]
fn test_let_statment() {
    let input = r#"
        let x = 5;
        let y = 10;
        let foobar = 838383;
        "#;

    let lexer = Lexer::new(input.into());
    let mut parser = Parser::new(lexer);
    check_errors(parser.errors());

    let program = parser.parse_program().unwrap();
    if program.statements.len() != 3 {
        panic!("not right number of statments");
    }

    let expected_idents = vec![
        Token::Ident(String::from("x")),
        Token::Ident(String::from("y")),
        Token::Ident(String::from("foobar")),
    ];
    for (i, ident) in expected_idents.into_iter().enumerate() {
        let statment = &program.statements[i];
        match statment {
            Statement::Let(x) => {
                assert_eq!(ident, x.token)
            }
            _ => panic!("expected a let statement"),
        }
    }
}

#[test]
fn test_return_statement() {
    let input: Vec<u8> = r#"
            return 5;
            return 10;
            return 993322;
            "#
    .into();

    let lexer = Lexer::new(input);
    let mut parser = Parser::new(lexer);
    check_errors(parser.errors());

    let program = parser.parse_program().unwrap();

    if program.statements.len() != 3 {
        panic!("wrong number of statements");
    }
    program.statements.into_iter().for_each(|stmt| {
        assert!(matches!(stmt, Statement::Return(_)));
    });
}

#[test]
fn test_identifier_expression() {
    let input: Vec<u8> = "foobar;".into();

    let lex = Lexer::new(input);
    let mut parser = Parser::new(lex);
    let program = parser.parse_program().unwrap();
    check_errors(parser.errors());

    if program.statements.len() != 1 {
        panic!("Wrong number of statements");
    }

    match &program.statements[0] {
        Statement::Expression(exp) => match exp {
            Expression::Identifier(t) => match t {
                Token::Ident(s) => {
                    assert_eq!(s, &"foobar".to_string())
                }
                _ => panic!("expected an identifier token"),
            },
            _ => panic!("expected an identifier expression"),
        },
        _ => println!("Other"),
    }
}

#[test]
fn test_integer_expression() {
    let input: Vec<u8> = "5;".into();

    let lex = Lexer::new(input);
    let mut parser = Parser::new(lex);
    let program = parser.parse_program().unwrap();
    check_errors(parser.errors());

    if program.statements.len() != 1 {
        panic!("Wrong number of statements");
    }

    match &program.statements[0] {
        Statement::Expression(exp) => match exp {
            Expression::Integer(t) => match t {
                Token::Int(s) => {
                    assert_eq!(s.to_owned(), 5)
                }
                _ => panic!("expected an integer token"),
            },
            _ => panic!("expected an integer expression"),
        },
        _ => println!("Other"),
    }
}

#[test]
fn test_boolean_expression() {
    let input: Vec<u8> = r#"
        true;
        false;
        let foobar = true;
        let barfoo = false;
        "#
    .into();

    let lex = Lexer::new(input);
    let mut parser = Parser::new(lex);
    let program = parser.parse_program().unwrap();
    check_errors(parser.errors());

    match &program.statements[0] {
        Statement::Expression(exp) => match exp {
            Expression::Boolean(t) => {
                assert_eq!(t.to_owned(), Token::True);
            }
            _ => panic!("expected a boolean expression"),
        },
        _ => println!("Other"),
    }
}

#[test]
fn test_parsing_prefix_expressions() {
    let tests: Vec<(String, Token, isize)> = vec![
        ("!5".to_string(), Token::Bang, 5),
        ("-15".to_string(), Token::Minus, 15),
    ];

    for (input, operator, int_value) in tests.into_iter() {
        let lex = Lexer::new(input.into());
        let mut parser = Parser::new(lex);
        let program = parser.parse_program().unwrap();
        check_errors(parser.errors());

        if program.statements.len() != 1 {
            panic!("Wrong number of statments");
        }

        match &program.statements[0] {
            Statement::Expression(exp) => match exp {
                Expression::Prefix(t) => {
                    let prefix_expression = t;
                    assert_eq!(prefix_expression.token, operator);
                    match &prefix_expression.right {
                        Expression::Integer(t) => assert_eq!(t, &Token::Int(int_value)),
                        _ => panic!("expected an integer operand"),
                    }
                }
                _ => panic!("expected a prefix expression"),
            },
            _ => println!("Other"),
        }
    }
}

#[test]
fn test_parsing_infix_expressions() {
    let tests: Vec<(Vec<u8>, Expression, Token, Expression)> = vec![
        (
            "5 + 5;".into(),
            Expression::Integer(Token::Int(5)),
            Token::Plus,
            Expression::Integer(Token::Int(5)),
        ),
        (
            "5 - 5;".into(),
            Expression::Integer(Token::Int(5)),
            Token::Minus,
            Expression::Integer(Token::Int(5)),
        ),
        (
            "5 * 5;".into(),
            Expression::Integer(Token::Int(5)),
            Token::Asterisk,
            Expression::Integer(Token::Int(5)),
        ),
        (
            "5 / 5;".into(),
            Expression::Integer(Token::Int(5)),
            Token::Slash,
            Expression::Integer(Token::Int(5)),
        ),
        (
            "5 > 5;".into(),
            Expression::Integer(Token::Int(5)),
            Token::GreaterThan,
            Expression::Integer(Token::Int(5)),
        ),
        (
            "5 < 5;".into(),
            Expression::Integer(Token::Int(5)),
            Token::LessThan,
            Expression::Integer(Token::Int(5)),
        ),
        (
            "5 == 5;".into(),
            Expression::Integer(Token::Int(5)),
            Token::Equal,
            Expression::Integer(Token::Int(5)),
        ),
        (
            "5 != 5".into(),
            Expression::Integer(Token::Int(5)),
            Token::NotEqual,
            Expression::Integer(Token::Int(5)),
        ),
    ];

    for (input, left_token, operator, right_token) in tests.into_iter() {
        let lex = Lexer::new(input);
        let mut parser = Parser::new(lex);
        let program = parser.parse_program().unwrap();
        check_errors(parser.errors());

        if program.statements.len() != 1 {
            panic!("Wrong number of statements");
        }

        match &program.statements[0] {
            Statement::Expression(exp) => match exp {
                Expression::Infix(i) => {
                    assert_eq!(i.left, left_token);
                    assert_eq!(i.token, operator);
                    assert_eq!(i.right, right_token);
                }
                _ => panic!("expected an infix expression"),
            },
            _ => panic!("expected an expression statement"),
        }
    }
}

#[test]
fn test_operator_precedence_parsing() {
    let tests: Vec<(Vec<u8>, Expression, Token, Expression)> = vec![
        (
            "-a * b".into(),
            Expression::Prefix(Box::new(PrefixExpression::new(
                Token::Minus,
                Expression::Identifier(Token::Ident("a".to_string())),
            ))),
            Token::Asterisk,
            Expression::Identifier(Token::Ident(String::from("b"))),
        ),
        (
            "3 + 4 * 5 == 3 * 1 + 4 * 5".into(),
            Expression::Infix(Box::new(InfixExpression::new(
                Expression::Integer(Token::Int(3)),
                Token::Plus,
                Expression::Infix(Box::new(InfixExpression::new(
                    Expression::Integer(Token::Int(4)),
                    Token::Asterisk,
                    Expression::Integer(Token::Int(5)),
                ))),
            ))),
            Token::Equal,
            Expression::Infix(Box::new(InfixExpression::new(
                Expression::Infix(Box::new(InfixExpression::new(
                    Expression::Integer(Token::Int(3)),
                    Token::Asterisk,
                    Expression::Integer(Token::Int(1)),
                ))),
                Token::Plus,
                Expression::Infix(Box::new(InfixExpression::new(
                    Expression::Integer(Token::Int(4)),
                    Token::Asterisk,
                    Expression::Integer(Token::Int(5)),
                ))),
            ))),
        ),
        (
            "3 < 5 == true".into(),
            Expression::Infix(Box::new(InfixExpression::new(
                Expression::Integer(Token::Int(3)),
                Token::LessThan,
                Expression::Integer(Token::Int(5)),
            ))),
            Token::Equal,
            Expression::Boolean(Token::True),
        ),
        (
            "1 + (2 + 3) + 4".into(),
            Expression::Infix(Box::new(InfixExpression {
                left: Expression::Integer(Token::Int(1)),
                token: Token::Plus,
                right: Expression::Infix(Box::new(InfixExpression::new(
                    Expression::Integer(Token::Int(2)),
                    Token::Plus,
                    Expression::Integer(Token::Int(3)),
                ))),
            })),
            Token::Plus,
            Expression::Integer(Token::Int(4)),
        ),
    ];
    for (input, left, token, right) in tests.into_iter() {
        let lex = Lexer::new(input);
        let mut parser = Parser::new(lex);
        let program = parser.parse_program().unwrap();

        if program.statements.len() != 1 {
            panic!("Wrong number of statements");
        }

        match &program.statements[0] {
            Statement::Expression(exp) => match exp {
                Expression::Infix(i) => {
                    assert_eq!(i.left, left);
                    assert_eq!(i.token, token);
                    assert_eq!(i.right, right);
                }
                _ => panic!("expected an infix expression"),
            },
            _ => panic!("expected an expression statement"),
        }
    }
}

#[test]
fn test_if_expression() {
    let tests: Vec<(Vec<u8>, Token, Expression, BlockStatement, Option<BlockStatement>)> = vec![
        (
            "if (x < y) {x}".into(),
            Token::If,
            Expression::Infix(Box::new(InfixExpression::new(
                Expression::Identifier(Token::Ident(String::from("x"))),
                Token::LessThan,
                Expression::Identifier(Token::Ident(String::from("y"))),
            ))),
            BlockStatement::new(
                Token::LBrace,
                vec![Statement::Expression(Expression::Identifier(Token::Ident(
                    String::from("x"),
                )))],
            ),
            None,
        ),
        (
            "if (x < y) {x} else {y}".into(),
            Token::If,
            Expression::Infix(Box::new(InfixExpression::new(
                Expression::Identifier(Token::Ident(String::from("x"))),
                Token::LessThan,
                Expression::Identifier(Token::Ident(String::from("y"))),
            ))),
            BlockStatement::new(
                Token::LBrace,
                vec![Statement::Expression(Expression::Identifier(Token::Ident(
                    String::from("x"),
                )))],
            ),
            Some(BlockStatement::new(
                Token::LBrace,
                vec![Statement::Expression(Expression::Identifier(Token::Ident(
                    String::from("y"),
                )))],
            )),
        ),
    ];

    for (input, token, condition, consequnce, alternative) in tests.into_iter() {
        let lex = Lexer::new(input);
        let mut parser = Parser::new(lex);
        let program = parser.parse_program().unwrap();
        check_errors(parser.errors());

        if program.statements.len() != 1 {
            panic!("Wrong number of statements");
        }
        match &program.statements[0] {
            Statement::Expression(exp) => match exp {
                Expression::If(i) => {
                    assert_eq!(i.token, token);
                    assert_eq!(i.condition, condition);
                    assert_eq!(i.consequence, consequnce);
                    assert_eq!(i.alternative, alternative);
                }
                _ => panic!("expected an if expression"),
            },
            _ => panic!("expected an expression statement"),
        }
    }
}

#[test]
fn test_function_expression() {
    let tests: Vec<(Vec<u8>, Option<Vec<Identifier>>, BlockStatement)> = vec![(
        "fn(x,y) {x+y}".into(),
        Some(vec![
            Identifier::new(Token::Ident(String::from("x"))),
            Identifier::new(Token::Ident(String::from("y"))),
        ]),
        BlockStatement::new(
            Token::LBrace,
            vec![Statement::Expression(Expression::Infix(Box::new(
                InfixExpression::new(
                    Expression::Identifier(Token::Ident(String::from("x"))),
                    Token::Plus,
                    Expression::Identifier(Token::Ident(String::from("y"))),
                ),
            )))],
        ),
    )];

    for (input, paramaters, body) in tests.into_iter() {
        let lex = Lexer::new(input);
        let mut parser = Parser::new(lex);
        let program = parser.parse_program().unwrap();

        if program.statements.len() != 1 {
            panic!("Wrong number of statements");
        }

        match &program.statements[0] {
            Statement::Expression(exp) => match exp {
                Expression::Fn(f) => {
                    assert_eq!(paramaters, f.parameters);
                    assert_eq!(body, f.body);
                }
                _ => panic!("expected a function literal"),
            },
            _ => panic!("expected an expression statement"),
        }
    }
}

#[test]
fn test_parse_error_is_recorded() {
    let lex = Lexer::new("let = 5;".into());
    let mut parser = Parser::new(lex);
    let program = parser.parse_program().unwrap();
    assert!(parser.errors().len() > 0);
    assert_eq!(program.statements.len(), 0);
}

#[test]
fn test_two_parse_errors_from_one_pass() {
    let lex = Lexer::new("let = 5; let = 6;".into());
    let mut parser = Parser::new(lex);
    let program = parser.parse_program().unwrap();
    assert_eq!(parser.errors().len(), 2);
    assert_eq!(program.statements.len(), 0);
}
