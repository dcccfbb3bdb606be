//! Expression nodes.
//!
//! Nodes live in the expression arena of an [`crate::ast::Ast`] and refer
//! to their children by arena index. Two structurally identical nodes at
//! different indices are distinct entities: node identity is the index,
//! which is what the resolver's distance table is keyed by.

use vstd::prelude::*;
use crate::object::Object;
use crate::token::Token;

verus! {

/// An expression node; children are indices into the expression arena.
pub enum Expr {
    Assign(AssignExpr),
    Binary(BinaryExpr),
    Call(CallExpr),
    Grouping(GroupingExpr),
    Literal(LiteralExpr),
    Logical(LogicalExpr),
    Unary(UnaryExpr),
    Variable(VariableExpr),
}

/// Assignment to a named variable; only legal assignment target.
pub struct AssignExpr {
    pub name: Token,
    pub value: usize,
}

/// A binary operator application.
pub struct BinaryExpr {
    pub left: usize,
    pub operator: Token,
    pub right: usize,
}

/// A function application; `paren` is the closing parenthesis, where call
/// errors are reported.
pub struct CallExpr {
    pub callee: usize,
    pub paren: Token,
    pub arguments: Vec<usize>,
}

/// A parenthesized expression.
pub struct GroupingExpr {
    pub expression: usize,
}

/// A literal value.
pub struct LiteralExpr {
    pub value: Option<Object>,
}

/// A short-circuiting `and` / `or`.
pub struct LogicalExpr {
    pub left: usize,
    pub operator: Token,
    pub right: usize,
}

/// A unary operator application.
pub struct UnaryExpr {
    pub operator: Token,
    pub right: usize,
}

/// A variable reference.
pub struct VariableExpr {
    pub name: Token,
}

} // verus!
