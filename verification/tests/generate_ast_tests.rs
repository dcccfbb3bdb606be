//! The boilerplate generator: both node families come out, with the
//! imports, variants, identity equality, dispatch, structs, and visitor
//! methods the grammar description asks for.

use lox_ast::generate_ast::generate_ast;

#[test]
fn generates_both_node_families() {
    let files = generate_ast();
    assert_eq!(files.len(), 2);
    assert_eq!(files[0].0, "expr.rs");
    assert_eq!(files[1].0, "stmt.rs");
}

#[test]
fn expression_file_has_the_declared_shape() {
    let files = generate_ast();
    let expr = &files[0].1;
    assert!(expr.starts_with(
        "use crate::error::*;\nuse crate::token::*;\nuse crate::object::*;\nuse std::rc::Rc;\n"
    ));
    assert!(expr.contains("pub enum Expr {\n    Assign(Rc<AssignExpr>),\n    Binary(Rc<BinaryExpr>),"));
    assert!(expr.contains(
        "(Expr::Assign(expr1), Expr::Assign(expr2)) => Rc::ptr_eq(expr1, expr2),"
    ));
    assert!(expr.contains("Expr::Call(expr) => {hasher.write_usize(Rc::as_ptr(expr) as usize);}"));
    assert!(expr.contains("Expr::Unary(expr) => expr_visitor.visit_unary_expr(wrapper,&expr),"));
    assert!(expr.contains("pub struct BinaryExpr {\n    pub left: Rc<Expr>,\n    pub operator: Token,\n    pub right: Rc<Expr>,\n}"));
    assert!(expr.contains(
        "fn visit_variable_expr(&self, wrapper: Rc<Expr>, expr: &VariableExpr) -> Result<T,LoxResult>;"
    ));
    assert!(expr.contains("pub trait ExprVisitor<T> {"));
}

#[test]
fn statement_file_has_the_declared_shape() {
    let files = generate_ast();
    let stmt = &files[1].1;
    assert!(stmt.starts_with(
        "use crate::error::*;\nuse crate::expr::*;\nuse crate::token::*;\nuse std::rc::Rc;\n"
    ));
    assert!(stmt.contains("pub enum Stmt {\n    Block(Rc<BlockStmt>),"));
    assert!(stmt.contains("pub struct WhileStmt {\n    pub condition: Rc<Expr>,\n    pub body: Rc<Stmt>,\n}"));
    assert!(stmt.contains("Stmt::Print(expr) => stmt_visitor.visit_print_stmt(wrapper,&expr),"));
    assert!(stmt.contains(
        "fn visit_function_stmt(&self, wrapper: Rc<Stmt>, stmt: &FunctionStmt) -> Result<T,LoxResult>;"
    ));
}
