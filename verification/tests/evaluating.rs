//! Direct evaluation of expression trees, and the value operators.
use lox::expr::{Expr, Literal};
use lox::interpreter::Interpreter;
use lox::lox_value::{apply_binary, apply_unary, LoxValue};
use lox::token::{Token, TokenType};

const FUEL: u64 = 1000;

#[test]
fn it_evaluates_numeric_literals() {
    let expr = Expr::Literal(Literal::Number(5));
    let mut interpreter = Interpreter::new();
    assert_eq!(
        interpreter.evaluate(&expr, FUEL).unwrap(),
        LoxValue::Number(5)
    );
}

#[test]
fn it_evaluates_string_literals() {
    let expr = Expr::Literal(Literal::Str("A string".to_string()));
    let mut interpreter = Interpreter::new();
    assert_eq!(
        interpreter.evaluate(&expr, FUEL).unwrap(),
        LoxValue::String("A string".to_string())
    )
}

#[test]
fn it_evaluates_unary_minus_operators() {
    let expr = Expr::Unary {
        operator: Token::new("-".to_string(), TokenType::Minus),
        right: Box::new(Expr::Literal(Literal::Number(5))),
    };
    let mut interpreter = Interpreter::new();
    assert_eq!(
        interpreter.evaluate(&expr, FUEL).unwrap(),
        LoxValue::Number(-5)
    )
}

#[test]
fn bang_inverts_truthiness() {
    assert_eq!(
        apply_unary(TokenType::Bang, &LoxValue::Nil).unwrap(),
        LoxValue::Boolean(true)
    );
    assert_eq!(
        apply_unary(TokenType::Bang, &LoxValue::Number(0)).unwrap(),
        LoxValue::Boolean(false)
    );
    assert_eq!(
        apply_unary(TokenType::Bang, &LoxValue::Boolean(false)).unwrap(),
        LoxValue::Boolean(true)
    );
}

#[test]
fn negating_the_smallest_number_overflows() {
    assert!(apply_unary(TokenType::Minus, &LoxValue::Number(i64::MIN)).is_err());
    assert_eq!(
        apply_unary(TokenType::Minus, &LoxValue::Number(i64::MIN + 1)).unwrap(),
        LoxValue::Number(i64::MAX)
    );
}

#[test]
fn arithmetic_on_numbers() {
    let n = |x: i64| LoxValue::Number(x);
    assert_eq!(apply_binary(TokenType::Plus, &n(2), &n(3)).unwrap(), n(5));
    assert_eq!(apply_binary(TokenType::Minus, &n(2), &n(3)).unwrap(), n(-1));
    assert_eq!(apply_binary(TokenType::Star, &n(-4), &n(3)).unwrap(), n(-12));
    assert_eq!(apply_binary(TokenType::Slash, &n(-7), &n(2)).unwrap(), n(-3));
}

#[test]
fn multiplication_overflow_is_reported() {
    let n = |x: i64| LoxValue::Number(x);
    assert!(apply_binary(TokenType::Star, &n(i64::MAX), &n(2)).is_err());
    assert!(apply_binary(TokenType::Slash, &n(i64::MIN), &n(-1)).is_err());
}

#[test]
fn equality_is_structural_and_kind_strict() {
    let n = |x: i64| LoxValue::Number(x);
    assert_eq!(
        apply_binary(TokenType::EqualEqual, &n(1), &n(1)).unwrap(),
        LoxValue::Boolean(true)
    );
    assert_eq!(
        apply_binary(TokenType::EqualEqual, &n(1), &LoxValue::Boolean(true)).unwrap(),
        LoxValue::Boolean(false)
    );
    assert_eq!(
        apply_binary(TokenType::BangEqual, &LoxValue::Nil, &LoxValue::Nil).unwrap(),
        LoxValue::Boolean(false)
    );
}

#[test]
fn comparing_non_numbers_is_an_error() {
    assert!(apply_binary(
        TokenType::Less,
        &LoxValue::String("a".to_string()),
        &LoxValue::String("b".to_string())
    )
    .is_err());
}

#[test]
fn string_concatenation_through_the_operator() {
    let a = LoxValue::String("ab".to_string());
    let b = LoxValue::String("cd".to_string());
    assert_eq!(
        apply_binary(TokenType::Plus, &a, &b).unwrap(),
        LoxValue::String("abcd".to_string())
    );
}
