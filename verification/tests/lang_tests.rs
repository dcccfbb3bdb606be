//! End-to-end behaviour of the language: precedence, control flow,
//! closures, scoping, and the runtime errors, each driven through the
//! parser, the resolver, and the evaluator.

use lox_ast::ast::Ast;
use lox_ast::error::LoxResult;
use lox_ast::expr::{CallExpr, Expr, LiteralExpr, VariableExpr};
use lox_ast::interpreter::Interpreter;
use lox_ast::object::Object;
use lox_ast::parser::Parser;
use lox_ast::resolver::Resolver;
use lox_ast::token::{Token, TokenType};

/// A minimal test lexer for this dialect: integers, strings, identifiers,
/// keywords, and the operator and punctuation tokens.
fn lex(src: &str) -> Vec<Token> {
    let chars: Vec<char> = src.chars().collect();
    let mut tokens = Vec::new();
    let mut i = 0;
    let n = chars.len();
    let mut line = 1usize;
    while i < n {
        let c = chars[i];
        i += 1;
        let simple = |tt: TokenType, lx: &str, line: usize| Token::new(tt, lx.to_string(), None, line);
        match c {
            ' ' | '\t' | '\r' => {}
            '\n' => line += 1,
            '(' => tokens.push(simple(TokenType::LeftParen, "(", line)),
            ')' => tokens.push(simple(TokenType::RightParen, ")", line)),
            '{' => tokens.push(simple(TokenType::LeftBrace, "{", line)),
            '}' => tokens.push(simple(TokenType::RightBrace, "}", line)),
            ',' => tokens.push(simple(TokenType::Comma, ",", line)),
            ';' => tokens.push(simple(TokenType::Semicolon, ";", line)),
            '+' => tokens.push(simple(TokenType::Plus, "+", line)),
            '-' => tokens.push(simple(TokenType::Minus, "-", line)),
            '*' => tokens.push(simple(TokenType::Star, "*", line)),
            '/' => tokens.push(simple(TokenType::Slash, "/", line)),
            '!' => {
                if i < n && chars[i] == '=' {
                    i += 1;
                    tokens.push(simple(TokenType::BangEqual, "!=", line));
                } else {
                    tokens.push(simple(TokenType::Bang, "!", line));
                }
            }
            '=' => {
                if i < n && chars[i] == '=' {
                    i += 1;
                    tokens.push(simple(TokenType::EqualEqual, "==", line));
                } else {
                    tokens.push(simple(TokenType::Equal, "=", line));
                }
            }
            '>' => {
                if i < n && chars[i] == '=' {
                    i += 1;
                    tokens.push(simple(TokenType::GreaterEqual, ">=", line));
                } else {
                    tokens.push(simple(TokenType::Greater, ">", line));
                }
            }
            '<' => {
                if i < n && chars[i] == '=' {
                    i += 1;
                    tokens.push(simple(TokenType::LessEqual, "<=", line));
                } else {
                    tokens.push(simple(TokenType::Less, "<", line));
                }
            }
            '"' => {
                let start = i;
                while i < n && chars[i] != '"' {
                    i += 1;
                }
                let text: String = chars[start..i].iter().collect();
                if i < n {
                    i += 1;
                }
                tokens.push(Token::new(
                    TokenType::Str,
                    format!("\"{}\"", text),
                    Some(Object::Str(text)),
                    line,
                ));
            }
            '0'..='9' => {
                let start = i - 1;
                while i < n && chars[i].is_ascii_digit() {
                    i += 1;
                }
                let text: String = chars[start..i].iter().collect();
                let value: i64 = text.parse().unwrap();
                tokens.push(Token::new(TokenType::Number, text, Some(Object::Num(value)), line));
            }
            _ => {
                assert!(c.is_ascii_alphabetic() || c == '_', "unexpected character {c}");
                let start = i - 1;
                while i < n && (chars[i].is_ascii_alphanumeric() || chars[i] == '_') {
                    i += 1;
                }
                let text: String = chars[start..i].iter().collect();
                let tt = match text.as_str() {
                    "and" => TokenType::And,
                    "break" => TokenType::Break,
                    "class" => TokenType::Class,
                    "else" => TokenType::Else,
                    "false" => TokenType::False,
                    "for" => TokenType::For,
                    "fun" => TokenType::Fun,
                    "if" => TokenType::If,
                    "nil" => TokenType::Nil,
                    "or" => TokenType::Or,
                    "print" => TokenType::Print,
                    "return" => TokenType::Return,
                    "super" => TokenType::Super,
                    "this" => TokenType::This,
                    "true" => TokenType::True,
                    "var" => TokenType::Var,
                    "while" => TokenType::While,
                    _ => TokenType::Identifier,
                };
                tokens.push(Token::new(tt, text, None, line));
            }
        }
    }
    tokens.push(Token::eof(line));
    tokens
}

/// Parse, resolve, and run a program; returns whether parsing succeeded,
/// whether a statement failed at runtime, and everything printed.
fn run(src: &str) -> (bool, bool, Vec<Object>) {
    let mut parser = Parser::new(lex(src));
    let roots = parser.parse();
    let parse_ok = parser.success();
    let ast = parser.into_ast();
    let mut interp = Interpreter::new();
    let mut resolver = Resolver::new();
    resolver.resolve_program(&mut interp, &ast, &roots);
    let had_err = interp.interpret(&ast, &roots);
    (parse_ok, had_err, interp.output().clone())
}

/// Like `run`, but without the resolver pass, so every lookup takes the
/// global fallback path.
fn run_no_resolve(src: &str) -> (bool, bool, Vec<Object>) {
    let mut parser = Parser::new(lex(src));
    let roots = parser.parse();
    let parse_ok = parser.success();
    let ast = parser.into_ast();
    let mut interp = Interpreter::new();
    let had_err = interp.interpret(&ast, &roots);
    (parse_ok, had_err, interp.output().clone())
}

fn nums(ns: &[i64]) -> Vec<Object> {
    ns.iter().map(|n| Object::Num(*n)).collect()
}

#[test]
fn precedence_multiplication_binds_tighter() {
    let (parse_ok, had_err, out) = run("print 2 + 3 * 4;");
    assert!(parse_ok);
    assert!(!had_err);
    assert_eq!(out, nums(&[14]));
}

#[test]
fn precedence_assignment_is_right_associative() {
    let (parse_ok, had_err, out) = run("var a = 1; var b = 2; a = b = 3; print a; print b;");
    assert!(parse_ok);
    assert!(!had_err);
    assert_eq!(out, nums(&[3, 3]));
}

#[test]
fn precedence_grouping_and_unary() {
    let (parse_ok, had_err, out) = run("print 5 - 6 / 3;");
    assert!(parse_ok);
    assert!(!had_err);
    assert_eq!(out, nums(&[3]));
    let (parse_ok2, had_err2, out2) = run("print !(2 + 3);");
    assert!(parse_ok2);
    assert!(!had_err2);
    assert_eq!(out2, vec![Object::Bool(false)]);
}

#[test]
fn boolean_times_number_is_a_type_error() {
    // `!` yields a boolean, and `*` demands two numbers, so the mixed
    // expression fails at runtime even though each side alone is fine.
    let (parse_ok, had_err, out) = run("print !(2 + 3) * 4 == 5 - 6 / 3;");
    assert!(parse_ok);
    assert!(had_err);
    assert_eq!(out, vec![]);
}

#[test]
fn division_by_zero_is_a_runtime_error() {
    let (parse_ok, had_err, out) = run("print 4 / 0;");
    assert!(parse_ok);
    assert!(had_err);
    assert_eq!(out, vec![]);
    let (_, had_err2, out2) = run("print 4 / 2;");
    assert!(!had_err2);
    assert_eq!(out2, nums(&[2]));
}

#[test]
fn for_loop_prints_in_order_and_terminates() {
    let (parse_ok, had_err, out) = run("for (var i = 0; i < 3; i = i + 1) print i;");
    assert!(parse_ok);
    assert!(!had_err);
    assert_eq!(out, nums(&[0, 1, 2]));
}

#[test]
fn closures_capture_by_reference() {
    let src = "\
        fun makeCounter() {\n\
            var count = 0;\n\
            fun counter() {\n\
                count = count + 1;\n\
                return count;\n\
            }\n\
            return counter;\n\
        }\n\
        var c = makeCounter();\n\
        print c();\n\
        print c();\n\
        var d = makeCounter();\n\
        print d();\n\
        print c();\n";
    let (parse_ok, had_err, out) = run(src);
    assert!(parse_ok);
    assert!(!had_err);
    // Each counter strictly increases; the two counters are independent.
    assert_eq!(out, nums(&[1, 2, 1, 3]));
}

#[test]
fn break_exits_only_the_innermost_loop() {
    let src = "\
        var r = 0;\n\
        for (var i = 0; i < 3; i = i + 1) {\n\
            var j = 0;\n\
            while (true) {\n\
                j = j + 1;\n\
                if (j > 1) break;\n\
            }\n\
            r = r + j;\n\
        }\n\
        print r;\n";
    let (parse_ok, had_err, out) = run(src);
    assert!(parse_ok);
    assert!(!had_err);
    // The inner `while` ran to j == 2 in each of the three outer rounds.
    assert_eq!(out, nums(&[6]));
}

#[test]
fn break_outside_a_loop_is_a_runtime_error() {
    let (parse_ok, had_err, out) = run("break;");
    assert!(parse_ok);
    assert!(had_err);
    assert_eq!(out, vec![]);
}

#[test]
fn redeclaring_a_variable_overwrites_it() {
    let (parse_ok, had_err, out) = run("var a = 1; var a = true; print a;");
    assert!(parse_ok);
    assert!(!had_err);
    assert_eq!(out, vec![Object::Bool(true)]);
}

#[test]
fn assigning_to_an_undeclared_variable_fails_naming_it() {
    let (parse_ok, had_err, _) = run("b = 5;");
    assert!(parse_ok);
    assert!(had_err);
    // The same failure seen close up, with the error naming the variable.
    let mut ast = Ast::new();
    let name = Token::new(TokenType::Identifier, "b".to_string(), None, 1);
    let v = ast.push_expr(Expr::Variable(VariableExpr { name }));
    let mut interp = Interpreter::new();
    match interp.evaluate(&ast, v) {
        Err(LoxResult::RuntimeError { message, .. }) => {
            assert_eq!(message, "Undefined variable 'b'.");
        }
        other => panic!("expected an undefined-variable error, got {other:?}"),
    }
}

#[test]
fn resolving_and_fallback_agree_without_shadowing() {
    // On a program whose variables are all global, resolving records
    // nothing and execution agrees with pure global fallback.
    let global_only = "var x = 1; fun f() { print x; } f(); x = x + 1; print x;";
    let resolved = run(global_only);
    let fallback = run_no_resolve(global_only);
    assert_eq!(resolved, fallback);
    assert_eq!(resolved.2, nums(&[1, 2]));
    // A resolved block-local reference yields the same value as the
    // equivalent program that keeps the variable global.
    let with_block = "var r = 0; { var a = 5; r = a; } print r;";
    let equivalent_globals = "var r = 0; var a = 5; r = a; print r;";
    let resolved_block = run(with_block);
    let fallback_globals = run_no_resolve(equivalent_globals);
    assert_eq!(resolved_block, fallback_globals);
    assert_eq!(resolved_block.2, nums(&[5]));
}

#[test]
fn logical_operators_short_circuit_to_the_deciding_operand() {
    let (_, had_err, out) = run("print nil or 7; print false and 9; print 1 and 2; print 3 or 4;");
    assert!(!had_err);
    assert_eq!(out, nums(&[7]).into_iter().chain(vec![Object::Bool(false)]).chain(nums(&[2, 3])).collect::<Vec<_>>());
}

#[test]
fn string_number_concatenation_renders_decimal_digits() {
    let (_, had_err, out) = run("print \"a\" + 1; print -12 + \"b\"; print \"x\" + 0;");
    assert!(!had_err);
    assert_eq!(
        out,
        vec![
            Object::Str("a1".to_string()),
            Object::Str("-12b".to_string()),
            Object::Str("x0".to_string()),
        ]
    );
}

#[test]
fn arity_mismatch_reports_expected_and_got() {
    let mut parser = Parser::new(lex("fun f(a) { return a; }"));
    let roots = parser.parse();
    assert!(parser.success());
    let mut ast = parser.into_ast();
    let mut interp = Interpreter::new();
    assert!(!interp.interpret(&ast, &roots));
    let callee = ast.push_expr(Expr::Variable(VariableExpr {
        name: Token::new(TokenType::Identifier, "f".to_string(), None, 1),
    }));
    let a1 = ast.push_expr(Expr::Literal(LiteralExpr { value: Some(Object::Num(1)) }));
    let a2 = ast.push_expr(Expr::Literal(LiteralExpr { value: Some(Object::Num(2)) }));
    let call = ast.push_expr(Expr::Call(CallExpr {
        callee,
        paren: Token::new(TokenType::RightParen, ")".to_string(), None, 1),
        arguments: vec![a1, a2],
    }));
    match interp.evaluate(&ast, call) {
        Err(LoxResult::RuntimeError { message, .. }) => {
            assert_eq!(message, "expected 1 arguments but got 2");
        }
        other => panic!("expected an arity error, got {other:?}"),
    }
}

#[test]
fn calling_a_non_callable_value_fails() {
    let (_, had_err, _) = run("var a = 1; a();");
    assert!(had_err);
}

#[test]
fn the_clock_function_serves_the_injected_reading() {
    let mut parser = Parser::new(lex("print clock();"));
    let roots = parser.parse();
    assert!(parser.success());
    let ast = parser.into_ast();
    let mut interp = Interpreter::new_with_clock(123456);
    let had_err = interp.interpret(&ast, &roots);
    assert!(!had_err);
    assert_eq!(interp.output().clone(), nums(&[123456]));
}

#[test]
fn parse_errors_recover_at_statement_boundaries() {
    let mut parser = Parser::new(lex("print 1; var = 2; print 3;"));
    let roots = parser.parse();
    assert!(!parser.success());
    assert_eq!(parser.errors().len(), 1);
    let ast = parser.into_ast();
    let mut interp = Interpreter::new();
    let had_err2 = interp.interpret(&ast, &roots);
    assert!(!had_err2);
    assert_eq!(interp.output().clone(), nums(&[1, 3]));
}

#[test]
fn runtime_error_stops_the_run_but_not_the_session() {
    let mut parser = Parser::new(lex("print 1; print 2 / 0; print 3;"));
    let roots = parser.parse();
    assert!(parser.success());
    let ast = parser.into_ast();
    let mut interp = Interpreter::new();
    let had_err = interp.interpret(&ast, &roots);
    assert!(had_err);
    assert_eq!(interp.output().clone(), nums(&[1]));
    // The interpreter state is still sound: a following run succeeds.
    let mut parser2 = Parser::new(lex("print 4;"));
    let roots2 = parser2.parse();
    let ast2 = parser2.into_ast();
    let had_err2 = interp.interpret(&ast2, &roots2);
    assert!(!had_err2);
    assert_eq!(interp.output().clone(), nums(&[1, 4]));
}

#[test]
fn returning_without_a_value_yields_nil() {
    let (_, had_err, out) = run("fun f() { return; } print f();");
    assert!(!had_err);
    assert_eq!(out, vec![Object::Nil]);
}

#[test]
fn recursion_resolves_through_the_function_name() {
    let (_, had_err, out) = run(
        "fun fact(n) { if (n <= 1) return 1; return n * fact(n - 1); } print fact(5);",
    );
    assert!(!had_err);
    assert_eq!(out, nums(&[120]));
}

#[test]
fn comparing_values_of_different_types_fails() {
    let (_, had_err, _) = run("print 1 < \"a\";");
    assert!(had_err);
    let (_, had_err2, _) = run("print 1 == nil;");
    assert!(had_err2);
}

#[test]
fn inner_declarations_shadow_and_scopes_close() {
    let (_, had_err, out) = run("var a = 1; { var a = 2; print a; } print a;");
    assert!(!had_err);
    assert_eq!(out, nums(&[2, 1]));
}

#[test]
fn else_binds_to_the_nearest_unmatched_if() {
    let (_, had_err, out) = run("if (true) if (false) print 1; else print 2;");
    assert!(!had_err);
    assert_eq!(out, nums(&[2]));
    let (_, had_err2, out2) = run("if (false) if (true) print 1; else print 2;");
    assert!(!had_err2);
    assert_eq!(out2, vec![]);
}

#[test]
fn an_empty_program_runs_and_prints_nothing() {
    let (parse_ok, had_err, out) = run("");
    assert!(parse_ok);
    assert!(!had_err);
    assert_eq!(out, vec![]);
}

#[test]
fn a_bare_for_loop_with_break_terminates() {
    // With every clause omitted the condition defaults to `true`; the
    // `break` is all that ends the loop.
    let (parse_ok, had_err, out) = run("for (;;) break; print 1;");
    assert!(parse_ok);
    assert!(!had_err);
    assert_eq!(out, nums(&[1]));
}

#[test]
fn a_session_keeps_functions_from_earlier_lines_callable() {
    let mut parser = Parser::new(lex("fun inc(n) { return n + 1; }"));
    let roots1 = parser.parse();
    assert!(parser.success());
    let ast1 = parser.into_ast();
    let mut interp = Interpreter::new();
    let mut resolver1 = Resolver::new();
    resolver1.resolve_program(&mut interp, &ast1, &roots1);
    assert!(!interp.interpret(&ast1, &roots1));
    // The next line of the session extends the same arena, so the
    // function value declared above still points at live nodes.
    let mut parser2 = Parser::new_with_ast(lex("print inc(41);"), ast1);
    let roots2 = parser2.parse();
    assert!(parser2.success());
    let ast2 = parser2.into_ast();
    let mut resolver2 = Resolver::new();
    resolver2.resolve_program(&mut interp, &ast2, &roots2);
    assert!(!interp.interpret(&ast2, &roots2));
    assert_eq!(interp.output().clone(), nums(&[42]));
}

#[test]
fn a_wrong_resolver_distance_is_a_machinery_fault() {
    // A distance the scope chain cannot honour is the resolver's fault,
    // not the program's: the failure is a system error, not a runtime
    // error of the program.
    let mut ast = Ast::new();
    let v = ast.push_expr(Expr::Variable(VariableExpr {
        name: Token::new(TokenType::Identifier, "x".to_string(), None, 1),
    }));
    let mut interp = Interpreter::new();
    interp.resolve(v, 3);
    match interp.evaluate(&ast, v) {
        Err(LoxResult::SystemError { message }) => {
            assert_eq!(message, "Undefined variable 'x'.");
        }
        other => panic!("expected a system error, got {other:?}"),
    }
}

#[test]
fn a_stray_top_level_return_fails_the_run() {
    let (parse_ok, had_err, out) = run("return 5;");
    assert!(parse_ok);
    assert!(had_err);
    assert_eq!(out, vec![]);
}

#[test]
fn arithmetic_overflow_is_a_runtime_error() {
    let (_, had_err, _) = run("print 9223372036854775807 + 1;");
    assert!(had_err);
    let (_, had_err2, out2) = run("print 9223372036854775806 + 1;");
    assert!(!had_err2);
    assert_eq!(out2, nums(&[9223372036854775807]));
}
