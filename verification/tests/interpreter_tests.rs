//! Evaluator behaviour on single expressions and statements: unary and
//! binary operators, their type errors, and variable statements.

use lox_ast::ast::Ast;
use lox_ast::expr::{BinaryExpr, Expr, LiteralExpr, UnaryExpr, VariableExpr};
use lox_ast::interpreter::Interpreter;
use lox_ast::object::Object;
use lox_ast::stmt::{Stmt, VarStmt};
use lox_ast::token::{Token, TokenType};

fn op(ttype: TokenType, lexeme: &str) -> Token {
    Token::new(ttype, lexeme.to_string(), None, 1)
}

fn lit(ast: &mut Ast, value: Object) -> usize {
    ast.push_expr(Expr::Literal(LiteralExpr { value: Some(value) }))
}

fn eval_binary_case(left: Object, operator: Token, right: Object) -> Result<Object, lox_ast::error::LoxResult> {
    let mut ast = Ast::new();
    let l = lit(&mut ast, left);
    let r = lit(&mut ast, right);
    let e = ast.push_expr(Expr::Binary(BinaryExpr { left: l, operator, right: r }));
    let mut interpreter = Interpreter::new();
    interpreter.evaluate(&ast, e)
}

#[test]
fn test_unary_minus() {
    let mut ast = Ast::new();
    let r = lit(&mut ast, Object::Num(4));
    let e = ast.push_expr(Expr::Unary(UnaryExpr { operator: op(TokenType::Minus, "-"), right: r }));
    let mut interpreter = Interpreter::new();
    let result = interpreter.evaluate(&ast, e);
    assert!(result.is_ok());
    assert_eq!(result.unwrap(), Object::Num(-4));
}

#[test]
fn test_unary_bang() {
    let mut ast = Ast::new();
    let r = lit(&mut ast, Object::Bool(true));
    let e = ast.push_expr(Expr::Unary(UnaryExpr { operator: op(TokenType::Bang, "!"), right: r }));
    let mut interpreter = Interpreter::new();
    let result = interpreter.evaluate(&ast, e);
    assert!(result.is_ok());
    assert_eq!(result.unwrap(), Object::Bool(false));
}

#[test]
fn test_binary_subtraction() {
    let result = eval_binary_case(Object::Num(4), op(TokenType::Minus, "-"), Object::Num(3));
    assert!(result.is_ok());
    assert_eq!(result.unwrap(), Object::Num(1));
}

#[test]
fn test_binary_addition() {
    let result = eval_binary_case(Object::Num(4), op(TokenType::Plus, "+"), Object::Num(3));
    assert!(result.is_ok());
    assert_eq!(result.unwrap(), Object::Num(7));
}

#[test]
fn test_binary_addition_string() {
    let result = eval_binary_case(
        Object::Str("hello".to_string()),
        op(TokenType::Plus, "+"),
        Object::Str("world".to_string()),
    );
    assert!(result.is_ok());
    assert_eq!(result.unwrap(), Object::Str("helloworld".to_string()));
}

#[test]
fn test_binary_slash() {
    let result = eval_binary_case(Object::Num(4), op(TokenType::Slash, "/"), Object::Num(2));
    assert!(result.is_ok());
    assert_eq!(result.unwrap(), Object::Num(2));
}

#[test]
fn test_binary_slash_zero() {
    let result = eval_binary_case(Object::Num(4), op(TokenType::Slash, "/"), Object::Num(0));
    assert!(result.is_err());
    println!("{:?}", result.err().unwrap());
}

#[test]
fn test_binary_star() {
    let result = eval_binary_case(Object::Num(4), op(TokenType::Star, "*"), Object::Num(2));
    assert!(result.is_ok());
    assert_eq!(result.unwrap(), Object::Num(8));
}

#[test]
fn test_binary_greater_lesser_greater_equal() {
    let result = eval_binary_case(Object::Num(4), op(TokenType::Greater, ">"), Object::Num(2));
    assert!(result.is_ok());
    assert_eq!(result.unwrap(), Object::Bool(true));

    let result1 = eval_binary_case(Object::Num(4), op(TokenType::Less, "<"), Object::Num(2));
    assert!(result1.is_ok());
    assert_eq!(result1.unwrap(), Object::Bool(false));

    let result2 = eval_binary_case(Object::Num(4), op(TokenType::GreaterEqual, ">="), Object::Num(2));
    assert!(result2.is_ok());
    assert_eq!(result2.unwrap(), Object::Bool(true));

    let result3 = eval_binary_case(Object::Num(4), op(TokenType::LessEqual, "<="), Object::Num(2));
    assert!(result3.is_ok());
    assert_eq!(result3.unwrap(), Object::Bool(false));

    let result4 = eval_binary_case(Object::Num(4), op(TokenType::EqualEqual, "=="), Object::Num(2));
    assert!(result4.is_ok());
    assert_eq!(result4.unwrap(), Object::Bool(false));

    let result5 = eval_binary_case(Object::Num(4), op(TokenType::BangEqual, "!="), Object::Num(2));
    assert!(result5.is_ok());
    assert_eq!(result5.unwrap(), Object::Bool(true));
}

#[test]
fn test_binary_greater_lesser_greater_equal_string() {
    let def = || Object::Str("def".to_string());
    let abc = || Object::Str("abc".to_string());

    let result = eval_binary_case(def(), op(TokenType::Greater, ">"), abc());
    assert!(result.is_ok());
    assert_eq!(result.unwrap(), Object::Bool(true));

    let result1 = eval_binary_case(def(), op(TokenType::Less, "<"), abc());
    assert!(result1.is_ok());
    assert_eq!(result1.unwrap(), Object::Bool(false));

    let result2 = eval_binary_case(def(), op(TokenType::GreaterEqual, ">="), abc());
    assert!(result2.is_ok());
    assert_eq!(result2.unwrap(), Object::Bool(true));

    let result3 = eval_binary_case(def(), op(TokenType::LessEqual, "<="), abc());
    assert!(result3.is_ok());
    assert_eq!(result3.unwrap(), Object::Bool(false));

    let result4 = eval_binary_case(def(), op(TokenType::EqualEqual, "=="), abc());
    assert!(result4.is_ok());
    assert_eq!(result4.unwrap(), Object::Bool(false));

    let result5 = eval_binary_case(def(), op(TokenType::BangEqual, "!="), abc());
    assert!(result5.is_ok());
    assert_eq!(result5.unwrap(), Object::Bool(true));
}

#[test]
fn test_binary_nil() {
    let result = eval_binary_case(Object::Nil, op(TokenType::EqualEqual, "=="), Object::Nil);
    assert!(result.is_ok());
    assert_eq!(result.unwrap(), Object::Bool(true));
}

#[test]
fn test_binary_error_case() {
    let result = eval_binary_case(Object::Num(4), op(TokenType::Greater, ">"), Object::Bool(true));
    assert!(result.is_err());
}

#[test]
fn test_var_statement() {
    let mut ast = Ast::new();
    let init = lit(&mut ast, Object::Num(4));
    let name = Token::new(TokenType::Identifier, "a".to_string(), None, 1);
    let s = ast.push_stmt(Stmt::Var(VarStmt { name: name.clone(), initializer: Some(init) }));
    let mut interpreter = Interpreter::new();
    let had_error = interpreter.interpret(&ast, &vec![s]);
    assert!(!had_error);
    let v = ast.push_expr(Expr::Variable(VariableExpr { name }));
    let val = interpreter.evaluate(&ast, v);
    assert_eq!(val.unwrap(), Object::Num(4));
}

#[test]
fn native_clock_answers_with_the_served_reading() {
    let clock = lox_ast::callable::NativeClock;
    assert_eq!(clock.arity(), 0);
    assert_eq!(clock.call(777), Object::Num(777));
}

#[test]
fn test_var_expr_undefined() {
    let mut ast = Ast::new();
    let name = Token::new(TokenType::Identifier, "a".to_string(), None, 1);
    let v = ast.push_expr(Expr::Variable(VariableExpr { name }));
    let mut interpreter = Interpreter::new();
    let val = interpreter.evaluate(&ast, v);
    assert!(val.is_err())
}

#[test]
fn values_render_the_way_print_shows_them() {
    assert_eq!(Object::Num(-12).render(), "-12");
    assert_eq!(Object::Num(0).render(), "0");
    assert_eq!(Object::Str("hi".to_string()).render(), "hi");
    assert_eq!(Object::Nil.render(), "nil");
    assert_eq!(Object::Bool(true).render(), "true");
    assert_eq!(Object::Bool(false).render(), "false");
}

#[test]
fn errors_render_their_diagnostic_lines() {
    let tok = Token::new(TokenType::Identifier, "x".to_string(), None, 7);
    let err = lox_ast::error::LoxResult::runtime_error(&tok, "boom");
    assert_eq!(err.render(), "[line 7] Error at 'x': boom");
    let eof = Token::eof(3);
    let perr = lox_ast::error::LoxResult::pares_error(eof, "Expect expression.");
    assert_eq!(perr.render(), "[line 3] Error at end: Expect expression.");
    let gen = lox_ast::error::LoxResult::new(2, "division by zero");
    assert_eq!(gen.render(), "[line 2] Error : division by zero");
    assert_eq!(lox_ast::error::LoxResult::Break.render(), "");
}
