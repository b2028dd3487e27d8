use lox_rs::callables::Value;
use lox_rs::interp::{Interperter, RuntimeError};
use lox_rs::numbers::number_text_bytes;
use lox_rs::parens::parenthesize;
use lox_rs::parser::Parser;
use lox_rs::scanner::scan;

fn run(src: &[u8]) -> (Vec<Vec<u8>>, Vec<Result<Value, RuntimeError>>) {
    let tokens = scan(src);
    let mut parser = Parser::new(tokens);
    let (stmts, errors) = parser.parse();
    assert!(errors.is_empty(), "parse errors: {:?}", errors);
    let mut interp = Interperter::new();
    let mut results = Vec::new();
    for s in &stmts {
        results.push(interp.stmt(s));
    }
    (interp.output().clone(), results)
}

fn num(text: f64) -> Vec<u8> {
    number_text_bytes(text.to_bits())
}

#[test]
fn prints_arithmetic() {
    let (out, _) = run(b"print 1 + 2 * 3;");
    assert_eq!(out, vec![num(7.0)]);
}

#[test]
fn assignment_reaches_outer_binding() {
    let (out, _) = run(b"var a = 1; a = a + 1; print a;");
    assert_eq!(out, vec![num(2.0)]);
}

#[test]
fn while_loop_counts() {
    let (out, _) = run(b"var i = 0; while (i < 3) { print i; i = i + 1; }");
    assert_eq!(out, vec![num(0.0), num(1.0), num(2.0)]);
}

#[test]
fn user_function_returns() {
    let (out, _) = run(b"fn add(a,b){ return a + b; } print add(2,3);");
    assert_eq!(out, vec![num(5.0)]);
}

#[test]
fn closure_retains_captured_scope() {
    let (out, _) = run(
        b"fn make(){ var c = 0; fn inc(){ c = c + 1; return c; } return inc; } var f = make(); print f(); print f();",
    );
    assert_eq!(out, vec![num(1.0), num(2.0)]);
}

#[test]
fn if_else_picks_branch() {
    let (out, _) = run(b"if (true) print \"y\"; else print \"n\";");
    assert_eq!(out, vec![b"\"y\"".to_vec()]);
}

#[test]
fn double_not_is_truthiness() {
    let (_, results) = run(b"print !!0; print !!\"x\"; print !!null;");
    assert!(matches!(results[0], Ok(Value::Boolean(false))));
    assert!(matches!(results[1], Ok(Value::Boolean(true))));
    assert!(matches!(results[2], Ok(Value::Boolean(false))));
}

#[test]
fn short_circuit_skips_side_effect() {
    let (out, _) = run(b"var x = 0; false && (x = 1); print x;");
    assert_eq!(out, vec![num(0.0)]);
}

#[test]
fn block_scope_and_resolve_error() {
    let tokens = scan(b"{ var x = 1; } x;");
    let mut parser = Parser::new(tokens);
    let (stmts, errors) = parser.parse();
    assert!(errors.is_empty());
    let mut interp = Interperter::new();
    assert!(interp.stmt(&stmts[0]).is_ok());
    assert!(matches!(interp.stmt(&stmts[1]), Err(RuntimeError::Resolve(_))));
    let (out, _) = run(b"var x = 1; { x = 2; } print x;");
    assert_eq!(out, vec![num(2.0)]);
}

#[test]
fn type_error_on_mixed_addition() {
    let (_, results) = run(b"1 + \"a\";");
    assert!(matches!(results[0], Err(RuntimeError::Type)));
}

#[test]
fn string_operations() {
    let (out, _) = run(b"print \"ab\" + \"cd\"; print \"ab\" * 2;");
    assert_eq!(out, vec![b"\"abcd\"".to_vec(), b"\"abab\"".to_vec()]);
}

#[test]
fn unary_coercions() {
    let (_, results) = run(b"+\"21\"; -true; +\"\"; +\"zz\";");
    assert!(matches!(results[0], Ok(Value::Number(b)) if b == 21.0f64.to_bits()));
    assert!(matches!(results[1], Ok(Value::Number(b)) if b == (-1.0f64).to_bits()));
    assert!(matches!(results[2], Ok(Value::Number(0))));
    assert!(matches!(results[3], Ok(Value::Null)));
}

#[test]
fn parenthesiser_prefix_form() {
    let tokens = scan(b"a = 1 + (2 * 3);");
    let mut parser = Parser::new(tokens);
    let (stmts, errors) = parser.parse();
    assert!(errors.is_empty());
    if let lox_rs::stmt::Stmt::Expression(e) = &stmts[0] {
        let mut expected = b"(assign a (+ ".to_vec();
        expected.extend_from_slice(&num(1.0));
        expected.extend_from_slice(b" (group (* ");
        expected.extend_from_slice(&num(2.0));
        expected.push(b' ');
        expected.extend_from_slice(&num(3.0));
        expected.extend_from_slice(b"))))");
        assert_eq!(parenthesize(e), expected);
    } else {
        panic!("expected an expression statement");
    }
}

#[test]
fn for_loop_runs_and_cleans_up() {
    let (out, _) = run(b"for (var i = 0; i < 2; i = i + 1) { print i; }");
    assert_eq!(out, vec![num(0.0), num(1.0)]);
    let tokens = scan(b"for (var j = 0; j < 2; j = j + 1) { } j;");
    let mut parser = Parser::new(tokens);
    let (stmts, errors) = parser.parse();
    assert!(errors.is_empty());
    let mut interp = Interperter::new();
    assert!(interp.stmt(&stmts[0]).is_ok());
    assert!(matches!(interp.stmt(&stmts[1]), Err(RuntimeError::Resolve(_))));
}
