use monkey::lexer::Lexer;
use monkey::object::{Environment, Object};
use monkey::parser::Parser;

fn test_eval(input: Vec<u8>) -> Object {
    let lex = Lexer::new(input);
    let mut parser = Parser::new(lex);
    let program = parser.parse_program().unwrap();
    let mut env = Environment::new();

    Object::eval(program.statements, &mut env).unwrap()
}

#[test]
fn test_closures() {
    let tests: Vec<(Vec<u8>, Object)> = vec![(
        "let newAdder = fn(x) {fn(y) { x + y };};let addTwo = newAdder(2);addTwo(2);".into(),
        Object::Integer(4),
    )];

    for (input, expected) in tests.into_iter() {
        let evaluated = test_eval(input);
        assert_eq!(expected, evaluated);
    }
}

#[test]
fn test_function() {
    let tests: Vec<(Vec<u8>, Object)> = vec![
        ("let identity = fn(x){x}; identity(5);".into(), Object::Integer(5)),
        ("let add = fn(x,y){x+y;}; add(5+5, add(5,5));".into(), Object::Integer(20)),
    ];

    for (input, expected) in tests.into_iter() {
        let evaluated = test_eval(input);
        assert_eq!(expected, evaluated);
    }
}

#[test]
fn test_let_statements() {
    let tests: Vec<(Vec<u8>, Object)> = vec![
        ("let a = 5; a;".into(), Object::Integer(5)),
        ("let a = 5*5; a;".into(), Object::Integer(25)),
        ("let a =5; let b = a; b".into(), Object::Integer(5)),
        ("let a =5; let b =a; let c= a+b+5;".into(), Object::Integer(15)),
    ];

    for (input, expected) in tests.into_iter() {
        let evaluated = test_eval(input);
        assert_eq!(expected, evaluated);
    }
}

#[test]
fn test_return_statements() {
    let tests: Vec<(Vec<u8>, Object)> = vec![
        ("return 10;".into(), Object::Return(Box::new(Object::Integer(10)))),
        ("return 10; 9;".into(), Object::Return(Box::new(Object::Integer(10)))),
        ("return 2 * 5; 9;".into(), Object::Return(Box::new(Object::Integer(10)))),
        ("9; return 2 * 5; 9;".into(), Object::Return(Box::new(Object::Integer(10)))),
        (
            "if (10 > 1){if (10 > 1){return 10;}return 1;}".into(),
            Object::Return(Box::new(Object::Integer(10))),
        ),
    ];

    for (input, expected) in tests.into_iter() {
        let evaluated = test_eval(input);
        assert_eq!(expected, evaluated);
    }
}

#[test]
fn test_if_else_expression() {
    let tests: Vec<(Vec<u8>, Object)> = vec![
        ("if (true) { 10 }".into(), Object::Integer(10)),
        ("if (false) {10}".into(), Object::Null),
        ("if (1){10}".into(), Object::Integer(10)),
        ("if (1 < 2){10}".into(), Object::Integer(10)),
        ("if (1>2){10}".into(), Object::Null),
        ("if (1 < 2){10}else{20}".into(), Object::Integer(10)),
        ("if (1 > 2){10}else{20}".into(), Object::Integer(20)),
    ];

    for (input, expected) in tests.into_iter() {
        let evaluated = test_eval(input);
        assert_eq!(expected, evaluated);
    }
}

#[test]
fn test_eval_integer_expression() {
    let tests: Vec<(Vec<u8>, Object)> = vec![
        ("5".into(), Object::Integer(5)),
        ("10".into(), Object::Integer(10)),
        ("-10".into(), Object::Integer(-10)),
        ("-5".into(), Object::Integer(-5)),
        ("5 + 5 + 5".into(), Object::Integer(15)),
        ("5 -5 -5".into(), Object::Integer(-5)),
        ("5 * 5".into(), Object::Integer(25)),
        ("25 / 5".into(), Object::Integer(5)),
    ];

    for (input, expected) in tests.into_iter() {
        let evaluated = test_eval(input);
        assert_eq!(expected, evaluated);
    }
}

#[test]
fn test_boolean_experssion() {
    let tests: Vec<(Vec<u8>, Object)> = vec![
        ("true".into(), Object::Boolean(true)),
        ("false".into(), Object::Boolean(false)),
        ("1 < 2".into(), Object::Boolean(true)),
        ("1 > 2".into(), Object::Boolean(false)),
        ("1 < 1".into(), Object::Boolean(false)),
        ("1 > 1".into(), Object::Boolean(false)),
        ("1 == 1".into(), Object::Boolean(true)),
        ("1 != 1".into(), Object::Boolean(false)),
        ("1 == 2".into(), Object::Boolean(false)),
        ("1 != 2".into(), Object::Boolean(true)),
        ("true == true".into(), Object::Boolean(true)),
        ("false == false".into(), Object::Boolean(true)),
        ("true == false".into(), Object::Boolean(false)),
        ("true != false".into(), Object::Boolean(true)),
        ("false != true".into(), Object::Boolean(true)),
        ("(1 < 2) == true".into(), Object::Boolean(true)),
        ("(1 < 2) == false".into(), Object::Boolean(false)),
        ("(1 > 2) == true".into(), Object::Boolean(false)),
        ("(1 > 2) == false".into(), Object::Boolean(true)),
    ];

    for (input, expected) in tests.into_iter() {
        let evaluated = test_eval(input);
        assert_eq!(expected, evaluated);
    }
}

#[test]
fn test_bang_operator() {
    let tests: Vec<(Vec<u8>, Object)> = vec![
        ("!true".into(), Object::Boolean(false)),
        ("!false".into(), Object::Boolean(true)),
        ("!5".into(), Object::Boolean(false)),
        ("!!true".into(), Object::Boolean(true)),
        ("!!false".into(), Object::Boolean(false)),
        ("!!5".into(), Object::Boolean(true)),
    ];

    for (input, expected) in tests.into_iter() {
        let evaluated = test_eval(input);
        assert_eq!(expected, evaluated);
    }
}
