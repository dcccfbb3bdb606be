//! The syntax-tree arena.
//!
//! The parser pushes every node it finishes, children before parents, so a
//! well-formed arena has every node's children at strictly smaller indices
//! than the node itself. The tree is built once and never mutated
//! afterwards; the resolver and the evaluator only read it. Auxiliary
//! tables (the resolver's distances) are keyed by node index, which makes
//! node identity explicit and never conflates structurally equal nodes.

use vstd::prelude::*;
use crate::expr::Expr;
use crate::object::GObject;
use crate::stmt::Stmt;
use crate::token::{opt_obj_view, GToken, Token};

verus! {

/// Ghost view of an expression node: token fields become their views and
/// index lists become sequences, so the grammar spec can build and compare
/// nodes.
pub ghost enum GExpr {
    Assign { name: GToken, value: usize },
    Binary { left: usize, operator: GToken, right: usize },
    Call { callee: usize, paren: GToken, arguments: Seq<usize> },
    Grouping { expression: usize },
    Literal { value: Option<GObject> },
    Logical { left: usize, operator: GToken, right: usize },
    Unary { operator: GToken, right: usize },
    Variable { name: GToken },
}

/// Ghost view of a statement node.
pub ghost enum GStmt {
    Block { statements: Seq<usize> },
    If { condition: usize, then_branch: usize, else_branch: Option<usize> },
    Expression { expression: usize },
    Function { name: GToken, params: Seq<GToken>, body: Seq<usize> },
    Break { token: GToken },
    Print { expression: usize },
    Return { token: GToken, value: Option<usize> },
    Var { name: GToken, initializer: Option<usize> },
    While { condition: usize, body: usize },
}

/// Ghost view of one expression node.
pub open spec fn expr_view(e: Expr) -> GExpr {
    match e {
        Expr::Assign(a) => GExpr::Assign { name: a.name@, value: a.value },
        Expr::Binary(b) => GExpr::Binary { left: b.left, operator: b.operator@, right: b.right },
        Expr::Call(c) => GExpr::Call { callee: c.callee, paren: c.paren@, arguments: c.arguments@ },
        Expr::Grouping(g) => GExpr::Grouping { expression: g.expression },
        Expr::Literal(l) => GExpr::Literal { value: opt_obj_view(l.value) },
        Expr::Logical(l) => GExpr::Logical { left: l.left, operator: l.operator@, right: l.right },
        Expr::Unary(u) => GExpr::Unary { operator: u.operator@, right: u.right },
        Expr::Variable(v) => GExpr::Variable { name: v.name@ },
    }
}

/// Ghost view of one statement node.
pub open spec fn stmt_view(s: Stmt) -> GStmt {
    match s {
        Stmt::Block(b) => GStmt::Block { statements: b.statements@ },
        Stmt::If(f) => GStmt::If {
            condition: f.condition,
            then_branch: f.then_branch,
            else_branch: f.else_branch,
        },
        Stmt::Expression(e) => GStmt::Expression { expression: e.expression },
        Stmt::Function(f) => GStmt::Function {
            name: f.name@,
            params: f.params@.map_values(|t: Token| t@),
            body: f.body@,
        },
        Stmt::Break(b) => GStmt::Break { token: b.token@ },
        Stmt::Print(p) => GStmt::Print { expression: p.expression },
        Stmt::Return(r) => GStmt::Return { token: r.token@, value: r.value },
        Stmt::Var(v) => GStmt::Var { name: v.name@, initializer: v.initializer },
        Stmt::While(w) => GStmt::While { condition: w.condition, body: w.body },
    }
}

/// Ghost view of the expression arena.
pub open spec fn exprs_view(s: Seq<Expr>) -> Seq<GExpr> {
    s.map_values(|e: Expr| expr_view(e))
}

/// Ghost view of the statement arena.
pub open spec fn stmts_view(s: Seq<Stmt>) -> Seq<GStmt> {
    s.map_values(|s2: Stmt| stmt_view(s2))
}

/// Pushing a node pushes its view.
pub proof fn lemma_exprs_view_push(s: Seq<Expr>, e: Expr)
    ensures
        exprs_view(s.push(e)) == exprs_view(s).push(expr_view(e)),
{
    assert(exprs_view(s.push(e)) =~= exprs_view(s).push(expr_view(e)));
}

/// Pushing a node pushes its view.
pub proof fn lemma_stmts_view_push(s: Seq<Stmt>, st: Stmt)
    ensures
        stmts_view(s.push(st)) == stmts_view(s).push(stmt_view(st)),
{
    assert(stmts_view(s.push(st)) =~= stmts_view(s).push(stmt_view(st)));
}

/// The arena holding every expression and statement node of a program.
pub struct Ast {
    pub exprs: Vec<Expr>,
    pub stmts: Vec<Stmt>,
}

/// An expression node is well formed below `bound` when all its children
/// sit at indices below `bound`.
pub open spec fn expr_node_wf(e: Expr, bound: int) -> bool {
    match e {
        Expr::Assign(a) => a.value < bound,
        Expr::Binary(b) => b.left < bound && b.right < bound,
        Expr::Call(c) => c.callee < bound && (forall|i: int|
            0 <= i < c.arguments@.len() ==> (#[trigger] c.arguments@[i]) < bound),
        Expr::Grouping(g) => g.expression < bound,
        Expr::Literal(_) => true,
        Expr::Logical(l) => l.left < bound && l.right < bound,
        Expr::Unary(u) => u.right < bound,
        Expr::Variable(_) => true,
    }
}

/// A statement node is well formed when its child statements sit below
/// `sbound` in the statement arena and its child expressions are valid
/// indices below `ebound` in the expression arena.
pub open spec fn stmt_node_wf(s: Stmt, sbound: int, ebound: int) -> bool {
    match s {
        Stmt::Block(b) => forall|i: int|
            0 <= i < b.statements@.len() ==> (#[trigger] b.statements@[i]) < sbound,
        Stmt::If(f) => f.condition < ebound && f.then_branch < sbound && (match f.else_branch {
            Some(e) => e < sbound,
            None => true,
        }),
        Stmt::Expression(e) => e.expression < ebound,
        Stmt::Function(f) => forall|i: int|
            0 <= i < f.body@.len() ==> (#[trigger] f.body@[i]) < sbound,
        Stmt::Break(_) => true,
        Stmt::Print(p) => p.expression < ebound,
        Stmt::Return(r) => match r.value {
            Some(v) => v < ebound,
            None => true,
        },
        Stmt::Var(v) => match v.initializer {
            Some(e) => e < ebound,
            None => true,
        },
        Stmt::While(w) => w.condition < ebound && w.body < sbound,
    }
}

/// Growing the expression arena can only make a statement node's
/// expression bound easier to meet.
pub proof fn lemma_stmt_node_wf_mono(s: Stmt, sbound: int, eb1: int, eb2: int)
    requires
        stmt_node_wf(s, sbound, eb1),
        eb1 <= eb2,
    ensures
        stmt_node_wf(s, sbound, eb2),
{
}

impl Ast {
    /// Every node's children precede it; statement nodes only mention
    /// existing expressions.
    pub open spec fn wf(&self) -> bool {
        &&& forall|i: int|
            0 <= i < self.exprs@.len() ==> expr_node_wf(#[trigger] self.exprs@[i], i)
        &&& forall|i: int|
            0 <= i < self.stmts@.len() ==> stmt_node_wf(
                #[trigger] self.stmts@[i],
                i,
                self.exprs@.len() as int,
            )
    }

    /// An empty arena.
    pub fn new() -> (r: Ast)
        ensures
            r.wf(),
            r.exprs@.len() == 0,
            r.stmts@.len() == 0,
    {
        Ast { exprs: Vec::new(), stmts: Vec::new() }
    }

    /// Add a finished expression node, all of whose children are already
    /// in the arena; its index is its identity.
    pub fn push_expr(&mut self, e: Expr) -> (i: usize)
        requires
            old(self).wf(),
            expr_node_wf(e, old(self).exprs@.len() as int),
        ensures
            final(self).wf(),
            i == old(self).exprs@.len(),
            final(self).exprs@ == old(self).exprs@.push(e),
            final(self).stmts@ == old(self).stmts@,
    {
        let i = self.exprs.len();
        self.exprs.push(e);
        proof {
            assert forall|j: int| 0 <= j < self.stmts@.len() implies stmt_node_wf(
                #[trigger] self.stmts@[j],
                j,
                self.exprs@.len() as int,
            ) by {
                lemma_stmt_node_wf_mono(
                    self.stmts@[j],
                    j,
                    old(self).exprs@.len() as int,
                    self.exprs@.len() as int,
                );
            }
        }
        i
    }

    /// Add a finished statement node, all of whose children are already in
    /// the arena.
    pub fn push_stmt(&mut self, s: Stmt) -> (i: usize)
        requires
            old(self).wf(),
            stmt_node_wf(s, old(self).stmts@.len() as int, old(self).exprs@.len() as int),
        ensures
            final(self).wf(),
            i == old(self).stmts@.len(),
            final(self).stmts@ == old(self).stmts@.push(s),
            final(self).exprs@ == old(self).exprs@,
    {
        let i = self.stmts.len();
        self.stmts.push(s);
        i
    }
}

} // verus!
