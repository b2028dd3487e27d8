use lox_rs::expr::{Expr, Literal};
use lox_rs::parser::Parser;
use lox_rs::scanner::scan;
use lox_rs::stmt::Stmt;
use lox_rs::token_type::Operator;

#[test]
fn tests_sanity() {
    let input = scan(b"null;");
    let mut parser = Parser::new(input);
    let (tree, errors) = parser.parse();
    assert!(errors.is_empty());
    assert_eq!(tree, vec![Stmt::Expression(Expr::Literal(Literal::Null))]);
}

#[test]
fn tests_one_plus_one() {
    let input = scan(b"1 + 1;");
    let mut parser = Parser::new(input);
    let (tree, errors) = parser.parse();
    assert!(errors.is_empty());
    assert_eq!(
        tree,
        vec![Stmt::Expression(Expr::Binary(
            Box::new(Expr::Literal(Literal::Number(1.0f64.to_bits()))),
            Operator::Add,
            Box::new(Expr::Literal(Literal::Number(1.0f64.to_bits()))),
        ))]
    );
}

#[test]
fn tests_one_plus_one_mul_one() {
    let input = scan(b"1 + 1 * 1;");
    let mut parser = Parser::new(input);
    let (tree, errors) = parser.parse();
    assert!(errors.is_empty());
    assert_eq!(
        tree,
        vec![Stmt::Expression(Expr::Binary(
            Box::new(Expr::Literal(Literal::Number(1.0f64.to_bits()))),
            Operator::Add,
            Box::new(Expr::Binary(
                Box::new(Expr::Literal(Literal::Number(1.0f64.to_bits()))),
                Operator::Mul,
                Box::new(Expr::Literal(Literal::Number(1.0f64.to_bits()))),
            )),
        ))]
    );
}

#[test]
fn missing_semicolon_is_reported() {
    let input = scan(b"1 + 1");
    let mut parser = Parser::new(input);
    let (tree, errors) = parser.parse();
    assert!(tree.is_empty());
    assert_eq!(errors.len(), 1);
    assert_eq!(errors[0].message(), "Expected a `;` after the value");
}
