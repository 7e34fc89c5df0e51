//! Behavior at the language level: precedence, associativity, closures,
//! truthiness, strings, builtins, and each runtime error on an input that
//! produces it.

use monkey::ast::Expression;
use monkey::builtins::{len, BuiltinFn, BuiltinFunctions};
use monkey::lexer::Lexer;
use monkey::object::{Environment, EvalError, Object};
use monkey::parser::Parser;
use monkey::token::Token;

fn run(input: &str) -> Result<Object, EvalError> {
    let lex = Lexer::new(input.into());
    let mut parser = Parser::new(lex);
    let program = parser.parse_program().unwrap();
    assert_eq!(parser.errors().len(), 0);
    let mut env = Environment::new();
    Object::eval(program.statements, &mut env)
}

#[test]
fn test_precedence_evaluation() {
    assert_eq!(run("3 + 4 * 5").unwrap(), Object::Integer(23));
    assert_eq!(run("(3 + 4) * 5").unwrap(), Object::Integer(35));
}

#[test]
fn test_left_associative_addition() {
    assert_eq!(run("1 + (2 + 3) + 4").unwrap(), Object::Integer(10));
    assert_eq!(run("10 - 3 - 4").unwrap(), Object::Integer(3));
}

#[test]
fn test_closure_retains_defining_frame() {
    let input = "let newAdder = fn(x) { fn(y) { x + y } }; let addTwo = newAdder(2); addTwo(3);";
    assert_eq!(run(input).unwrap(), Object::Integer(5));
}

#[test]
fn test_live_capture_allows_recursion() {
    // `f` is looked up through the scope captured at its definition, where
    // the `let` has bound it by call time; the call chain then runs until
    // the fuel budget stops it.
    let input = "let f = fn(x) { f(x) }; f(1);";
    assert_eq!(run(input).unwrap_err(), EvalError::RecursionLimit);
}

#[test]
fn test_return_propagates_out_of_nested_blocks() {
    let input = "if (10 > 1) { if (10 > 1) { return 10; } return 1; }";
    assert_eq!(run(input).unwrap(), Object::Return(Box::new(Object::Integer(10))));
}

#[test]
fn test_return_stops_at_call_boundary() {
    let input = "let f = fn() { return 7; 9 }; f() + 1;";
    assert_eq!(run(input).unwrap(), Object::Integer(8));
}

#[test]
fn test_zero_is_truthy() {
    assert_eq!(run("if (0) { 1 }").unwrap(), Object::Integer(1));
    assert_eq!(run("!0").unwrap(), Object::Boolean(false));
}

#[test]
fn test_arity_mismatch_is_an_error() {
    let input = "let f = fn(x, y) { x }; f(1);";
    assert_eq!(run(input).unwrap_err(), EvalError::ArityMismatch);
}

#[test]
fn test_type_mismatch_is_an_error() {
    assert_eq!(run("5 + true").unwrap_err(), EvalError::TypeMismatch);
}

#[test]
fn test_unknown_operator_is_an_error() {
    assert_eq!(run("true + false").unwrap_err(), EvalError::UnknownOperator);
    assert_eq!(run("-true").unwrap_err(), EvalError::TypeMismatch);
}

#[test]
fn test_identifier_not_found_is_an_error() {
    assert_eq!(run("foobar;").unwrap_err(), EvalError::IdentifierNotFound);
}

#[test]
fn test_not_a_function_is_an_error() {
    assert_eq!(run("let x = 5; x(1);").unwrap_err(), EvalError::NotAFunction);
}

#[test]
fn test_division_by_zero_is_an_error() {
    assert_eq!(run("5 / 0").unwrap_err(), EvalError::DivisionByZero);
}

#[test]
fn test_overflow_is_an_error() {
    assert_eq!(run("9223372036854775807 + 1").unwrap_err(), EvalError::Overflow);
    assert_eq!(run("-9223372036854775807 - 2").unwrap_err(), EvalError::Overflow);
}

#[test]
fn test_truncating_division() {
    assert_eq!(run("7 / 2").unwrap(), Object::Integer(3));
    assert_eq!(run("0 - 7 / 2").unwrap(), Object::Integer(-3));
}

#[test]
fn test_bad_node_is_an_error() {
    // An integer node holding a non-integer token never comes out of the
    // parser, and the evaluator rejects it rather than panicking.
    let nodes = vec![monkey::ast::Statement::Expression(Expression::Integer(Token::Plus))];
    let mut env = Environment::new();
    assert_eq!(Object::eval(nodes, &mut env).unwrap_err(), EvalError::BadNode);
}

#[test]
fn test_string_concatenation() {
    assert_eq!(
        run("'Hello' + ' ' + 'World'").unwrap(),
        Object::String(String::from("Hello World"))
    );
}

#[test]
fn test_string_comparison_is_an_error() {
    assert_eq!(run("'a' < 'b'").unwrap_err(), EvalError::UnknownOperator);
}

#[test]
fn test_len_builtin() {
    assert_eq!(run("len('abcd')").unwrap(), Object::Integer(4));
    assert_eq!(run("len('')").unwrap(), Object::Integer(0));
    assert_eq!(run("len(5)").unwrap_err(), EvalError::TypeMismatch);
    assert_eq!(run("len('a', 'b')").unwrap_err(), EvalError::ArityMismatch);
}

#[test]
fn test_binding_shadows_builtin() {
    assert_eq!(run("let len = fn(x) { 9 }; len('abc');").unwrap(), Object::Integer(9));
}

#[test]
fn test_builtin_registry() {
    let registry = BuiltinFunctions::setup();
    assert_eq!(registry.get_fn(String::from("len")), Some(BuiltinFn::Len));
    assert_eq!(registry.get_fn(String::from("first")), None);
}

#[test]
fn test_len_direct() {
    let args = vec![Object::String(String::from("abc"))];
    assert_eq!(len(Some(args)).unwrap(), Object::Integer(3));
    assert_eq!(len(None).unwrap_err(), EvalError::ArityMismatch);
}

#[test]
fn test_empty_program() {
    assert_eq!(run("").unwrap(), Object::Null);
}

#[test]
fn test_environment_persists_across_inputs() {
    let mut env = Environment::new();
    let lex = Lexer::new("let a = 41;".into());
    let mut parser = Parser::new(lex);
    let program = parser.parse_program().unwrap();
    Object::eval(program.statements, &mut env).unwrap();

    let lex2 = Lexer::new("a + 1".into());
    let mut parser2 = Parser::new(lex2);
    let program2 = parser2.parse_program().unwrap();
    assert_eq!(Object::eval(program2.statements, &mut env).unwrap(), Object::Integer(42));
}

#[test]
fn test_is_truthy() {
    assert!(Object::Integer(0).is_truthy());
    assert!(Object::String(String::new()).is_truthy());
    assert!(!Object::Boolean(false).is_truthy());
    assert!(!Object::Null.is_truthy());
    assert!(Object::Boolean(true).is_truthy());
}

#[test]
fn test_expect_object_is() {
    let a = Object::Return(Box::new(Object::Integer(1)));
    let b = Object::Return(Box::new(Object::Null));
    assert!(a.expect_object_is(&b));
    assert!(!a.expect_object_is(&Object::Null));
}

#[test]
fn test_if_without_else_yields_null() {
    assert_eq!(run("if (false) { 1 }").unwrap(), Object::Null);
}

#[test]
fn test_higher_order_functions() {
    let input = "let twice = fn(f, x) { f(f(x)) }; let inc = fn(n) { n + 1 }; twice(inc, 5);";
    assert_eq!(run(input).unwrap(), Object::Integer(7));
}

#[test]
fn test_siblings_share_their_defining_scope() {
    // Two functions created in the same scope observe a binding added to
    // that scope after both were created: scopes are shared, not copied.
    let input = "let get = fn() { v }; let v = 12; get();";
    assert_eq!(run(input).unwrap(), Object::Integer(12));
}
