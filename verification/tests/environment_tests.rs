//! Scope-chain behaviour: define, shadow, assign, and lookup through
//! enclosing scopes.

use lox_ast::environment::Environment;
use lox_ast::object::Object;
use lox_ast::token::{Token, TokenType};

fn ident(name: &str) -> Token {
    Token::new(TokenType::Identifier, name.to_string(), None, 0)
}

#[test]
fn test_define() {
    let mut env = Environment::new();
    env.define("a".to_string(), Object::Num(1));
    let scopes = vec![env];
    let result = Environment::get(&scopes, 0, &ident("a"));
    assert_eq!(result.unwrap(), Object::Num(1));
}

#[test]
fn test_define_multiple() {
    let mut env = Environment::new();
    env.define("a".to_string(), Object::Num(1));
    env.define("a".to_string(), Object::Bool(true));
    let scopes = vec![env];
    let result = Environment::get(&scopes, 0, &ident("a"));
    assert_eq!(result.unwrap(), Object::Bool(true));
}

#[test]
fn error_when_getting_undefined_variable() {
    let scopes = vec![Environment::new()];
    let result = Environment::get(&scopes, 0, &ident("a"));
    assert!(result.is_err());
}

#[test]
fn error_when_assigning_undefined_variable() {
    let mut scopes = vec![Environment::new()];
    let tok = ident("b");
    assert!(Environment::assign(&mut scopes, 0, &tok, Object::Num(1)).is_err());
}

#[test]
fn test_re_assign() {
    let mut scopes = vec![Environment::new()];
    scopes[0].define("a".to_string(), Object::Num(1));
    assert!(Environment::assign(&mut scopes, 0, &ident("a"), Object::Bool(true)).is_ok());
    let result = Environment::get(&scopes, 0, &ident("a"));
    assert_eq!(result.unwrap(), Object::Bool(true));
}

#[test]
fn can_enclose_an_environment() {
    let mut scopes = vec![Environment::new()];
    scopes[0].define("a".to_string(), Object::Num(1));
    scopes.push(Environment::new_with_enclosing(0));
    assert!(Environment::get(&scopes, 1, &ident("a")).is_ok());
}

#[test]
fn can_read_from_enclosing_environment() {
    let mut scopes = vec![Environment::new()];
    scopes[0].define("a".to_string(), Object::Num(1));
    scopes.push(Environment::new_with_enclosing(0));
    let result = Environment::get(&scopes, 1, &ident("a"));
    assert!(result.is_ok());
    assert_eq!(result.unwrap(), Object::Num(1));
}

#[test]
fn can_assign_to_enclosing_environment() {
    let mut scopes = vec![Environment::new()];
    scopes[0].define("a".to_string(), Object::Num(1));
    scopes.push(Environment::new_with_enclosing(0));
    let token = ident("a");
    let assign_result = Environment::assign(&mut scopes, 1, &token, Object::Num(92));
    assert!(assign_result.is_ok());
    let result = Environment::get(&scopes, 1, &token);
    assert_eq!(result.unwrap(), Object::Num(92));
}
