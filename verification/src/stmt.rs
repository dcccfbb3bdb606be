//! Statement nodes.
//!
//! Nodes live in the statement arena of an [`crate::ast::Ast`]; child
//! statements are indices into the statement arena, child expressions
//! indices into the expression arena.

use vstd::prelude::*;
use crate::token::Token;

verus! {

/// A statement node.
pub enum Stmt {
    Block(BlockStmt),
    If(IfStmt),
    Expression(ExpressionStmt),
    Function(FunctionStmt),
    Break(BreakStmt),
    Print(PrintStmt),
    Return(ReturnStmt),
    Var(VarStmt),
    While(WhileStmt),
}

/// A `{ ... }` block: a fresh scope around its statements.
pub struct BlockStmt {
    pub statements: Vec<usize>,
}

/// An `if`, with `else` bound to the nearest unmatched `if`.
pub struct IfStmt {
    pub condition: usize,
    pub then_branch: usize,
    pub else_branch: Option<usize>,
}

/// An expression evaluated for its effect.
pub struct ExpressionStmt {
    pub expression: usize,
}

/// A function declaration: name, parameters, body statements.
pub struct FunctionStmt {
    pub name: Token,
    pub params: Vec<Token>,
    pub body: Vec<usize>,
}

/// `break`, carrying its token for error reporting.
pub struct BreakStmt {
    pub token: Token,
}

/// `print expr;`
pub struct PrintStmt {
    pub expression: usize,
}

/// `return` with an optional value; the token is the `return` keyword.
pub struct ReturnStmt {
    pub token: Token,
    pub value: Option<usize>,
}

/// A `var` declaration with an optional initializer.
pub struct VarStmt {
    pub name: Token,
    pub initializer: Option<usize>,
}

/// A `while` loop.
pub struct WhileStmt {
    pub condition: usize,
    pub body: usize,
}

} // verus!
