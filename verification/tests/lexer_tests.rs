use monkey::lexer::Lexer;
use monkey::token::Token;

#[test]
fn test_string_token() {
    let input: Vec<u8> = r#""Hello World""#.into();

    let mut lex = Lexer::new(input);
    let tokens = vec![Token::String(String::from("Hello World"))];

    for token in tokens.into_iter() {
        let tok = lex.next_token();
        println!("Expected:  {:?}, Got: {:?}", token, tok);
        assert_eq!(token, tok);
    }
}

#[test]
fn test_next_token() {
    let input = r#"let five = 5;
            let ten = 10;
            let add = fn(x, y) {
                x + y;
            };
            let result = add(five, ten);
            !-/*5;
            5 < 10 > 5;

            if (5 < 10) {
            return true;
            } else {
            return false;
}
10 == 10;
10 != 9;
"Hello World";
[1,2];
            "#;
    let mut lexer = Lexer::new(input.into());

    let tokens = vec![
        Token::Let,
        Token::Ident("five".to_string()),
        Token::Assign,
        Token::Int(5),
        Token::Semicolon,
        Token::Let,
        Token::Ident(String::from("ten")),
        Token::Assign,
        Token::Int(10),
        Token::Semicolon,
        Token::Let,
        Token::Ident(String::from("add")),
        Token::Assign,
        Token::Function,
        Token::LParen,
        Token::Ident(String::from("x")),
        Token::Comma,
        Token::Ident(String::from("y")),
        Token::RParen,
        Token::LBrace,
        Token::Ident(String::from("x")),
        Token::Plus,
        Token::Ident(String::from("y")),
        Token::Semicolon,
        Token::RBrace,
        Token::Semicolon,
        Token::Let,
        Token::Ident(String::from("result")),
        Token::Assign,
        Token::Ident(String::from("add")),
        Token::LParen,
        Token::Ident(String::from("five")),
        Token::Comma,
        Token::Ident(String::from("ten")),
        Token::RParen,
        Token::Semicolon,
        Token::Bang,
        Token::Minus,
        Token::Slash,
        Token::Asterisk,
        Token::Int(5),
        Token::Semicolon,
        Token::Int(5),
        Token::LessThan,
        Token::Int(10),
        Token::GreaterThan,
        Token::Int(5),
        Token::Semicolon,
        Token::If,
        Token::LParen,
        Token::Int(5),
        Token::LessThan,
        Token::Int(10),
        Token::RParen,
        Token::LBrace,
        Token::Return,
        Token::True,
        Token::Semicolon,
        Token::RBrace,
        Token::Else,
        Token::LBrace,
        Token::Return,
        Token::False,
        Token::Semicolon,
        Token::RBrace,
        Token::Int(10),
        Token::Equal,
        Token::Int(10),
        Token::Semicolon,
        Token::Int(10),
        Token::NotEqual,
        Token::Int(9),
        Token::Semicolon,
        Token::String(String::from("Hello World")),
        Token::Semicolon,
        Token::LBracket,
        Token::Int(1),
        Token::Comma,
        Token::Int(2),
        Token::RBracket,
        Token::Semicolon,
    ];

    for token in tokens.into_iter() {
        let tok = lexer.next_token();
        println!("Expected:  {:?}, Got: {:?}", token, tok);
        assert_eq!(token, tok);
    }
}

#[test]
fn test_illegal_and_eof() {
    let mut lex = Lexer::new("@".into());
    assert_eq!(lex.next_token(), Token::Illegal);
    assert_eq!(lex.next_token(), Token::EOF);
    assert_eq!(lex.next_token(), Token::EOF);
}

#[test]
fn test_number_too_large_is_illegal() {
    let mut lex = Lexer::new("99999999999999999999".into());
    assert_eq!(lex.next_token(), Token::Illegal);
    assert_eq!(lex.next_token(), Token::EOF);
}

#[test]
fn test_single_quote_string() {
    let mut lex = Lexer::new("'abc'".into());
    assert_eq!(lex.next_token(), Token::String(String::from("abc")));
    assert_eq!(lex.next_token(), Token::EOF);
}
