use lox::ast::{BinaryExpr, Expr, LiteralExpr, UnaryExpr};
use lox::interpreter::Intrepreter;
use lox::number::Number;
use lox::token::Token;
use lox::token_type::TokenType::{Bang, EqualEqual, Greater, Less, Minus, Plus, Slash, Star};
use lox::value::Value;

fn num(n: i64) -> Value {
    Value::Number(Number::from_int(n))
}

fn make_literal_num(n: i64) -> Box<Expr> {
    Box::new(Expr::LiteralExpr(LiteralExpr { value: Some(num(n)) }))
}

#[test]
fn test_unary_minus() {
    let mut terp = Intrepreter::default();
    let unary = UnaryExpr {
        operator: Token::new(Minus, "-", None, 1),
        right: make_literal_num(123),
    };

    let result = terp.visit_unary_expr(&unary);
    assert!(result.is_ok());
    assert_eq!(result.ok(), Some(Some(num(-123))));
}

#[test]
fn test_unary_not() {
    let mut terp = Intrepreter::default();
    let unary = UnaryExpr {
        operator: Token::new(Bang, "!", None, 1),
        right: Box::new(Expr::LiteralExpr(LiteralExpr { value: Some(Value::Boolean(true)) })),
    };
    let result = terp.visit_unary_expr(&unary);
    assert!(result.is_ok());
    assert_eq!(result.ok(), Some(Some(Value::Boolean(false))));
}

#[test]
fn test_binary_sub() {
    let mut terp = Intrepreter::default();
    let binary_expr = BinaryExpr {
        left: make_literal_num(100),
        operator: Token::new(Minus, "-", None, 1),
        right: make_literal_num(50),
    };

    let result = terp.visit_binary_exp(&binary_expr);
    assert!(result.is_ok());
    assert_eq!(result.ok(), Some(Some(num(50))));
}

#[test]
fn test_binary_add() {
    let mut terp = Intrepreter::default();
    let binary_expr = BinaryExpr {
        left: make_literal_num(100),
        operator: Token::new(Plus, "+", None, 1),
        right: make_literal_num(200),
    };
    let result = terp.visit_binary_exp(&binary_expr);
    assert!(result.is_ok());
    assert_eq!(result.ok(), Some(Some(num(300))));
}

#[test]
fn test_binary_mul() {
    let mut terp = Intrepreter::default();
    let binary_expr = BinaryExpr {
        left: make_literal_num(10),
        operator: Token::new(Star, "*", None, 1),
        right: make_literal_num(20),
    };
    let result = terp.visit_binary_exp(&binary_expr);
    assert!(result.is_ok());
    assert_eq!(result.ok(), Some(Some(num(200))));
}

#[test]
fn test_binary_equals() {
    let mut terp = Intrepreter::default();
    let binary_expr = BinaryExpr {
        left: make_literal_num(15),
        operator: Token::new(EqualEqual, "==", None, 1),
        right: make_literal_num(10),
    };
    let result = terp.visit_binary_exp(&binary_expr);
    assert!(result.is_ok());
    assert_eq!(result.ok(), Some(Some(Value::Boolean(false))));
}

#[test]
fn test_binary_div() {
    let mut terp = Intrepreter::default();
    let binary_expr = BinaryExpr {
        left: make_literal_num(50),
        operator: Token::new(Slash, "/", None, 1),
        right: make_literal_num(10),
    };
    let result = terp.visit_binary_exp(&binary_expr);
    assert!(result.is_ok());
    assert_eq!(result.ok(), Some(Some(num(5))));
}

#[test]
fn test_binary_greater() {
    let mut terp = Intrepreter::default();
    let binary_expr = BinaryExpr {
        left: make_literal_num(50),
        operator: Token::new(Greater, ">", None, 1),
        right: make_literal_num(10),
    };
    let result = terp.visit_binary_exp(&binary_expr);
    assert!(result.is_ok());
    assert_eq!(result.ok(), Some(Some(Value::Boolean(true))));
}

#[test]
fn test_binary_smaller() {
    let mut terp = Intrepreter::default();
    let binary_expr = BinaryExpr {
        left: make_literal_num(5),
        operator: Token::new(Less, "<", None, 1),
        right: make_literal_num(10),
    };
    let result = terp.visit_binary_exp(&binary_expr);
    assert!(result.is_ok());
    assert_eq!(result.ok(), Some(Some(Value::Boolean(true))));
}
