//! The static variable resolver.
//!
//! A depth-first walk over the syntax tree that mirrors the evaluator's
//! scoping rules — block scope for `{}`, function scope for parameters and
//! body, no tracked scope for the top level — without evaluating anything.
//! It keeps a stack of the names declared in each static scope; for every
//! variable reference and assignment target it records in the
//! interpreter's table how many scopes separate the use from the nearest
//! declaration, and records nothing for names it cannot see, which the
//! evaluator then treats as globals.
//!
//! A function body is resolved in its own scope holding the parameters,
//! entered after the function's name is declared in the enclosing scope,
//! so recursive self-reference resolves correctly.
//!
//! The `sr_*` spec functions are the walk's definition; the executable
//! walk is proved to compute exactly their verdicts.

use vstd::prelude::*;
use vstd::string::StringExecFns;
use crate::ast::Ast;
use crate::expr::Expr;
use crate::interpreter::Interpreter;
use crate::ops::str_eq;
use crate::semantics::GState;
use crate::stmt::Stmt;
use crate::token::Token;

verus! {

/// The static scope stack: for each open scope, the names declared in it.
pub struct Resolver {
    scopes: Vec<Vec<String>>,
}

/// Ghost view of the scope stack.
pub open spec fn stack_view(s: Seq<Vec<String>>) -> Seq<Seq<Seq<char>>> {
    s.map_values(|v: Vec<String>| v@.map_values(|n: String| n@))
}

impl View for Resolver {
    type V = Seq<Seq<Seq<char>>>;

    closed spec fn view(&self) -> Seq<Seq<Seq<char>>> {
        stack_view(self.scopes@)
    }
}

/// The innermost-first distance at which `name` is declared in the first
/// `i` scopes of the stack, if any.
pub open spec fn sr_find(stack: Seq<Seq<Seq<char>>>, i: int, name: Seq<char>) -> Option<nat>
    decreases i,
{
    if i <= 0 || i > stack.len() {
        None
    } else if stack[i - 1].contains(name) {
        Some(0)
    } else {
        match sr_find(stack, i - 1, name) {
            Some(d) => Some(d + 1),
            None => None,
        }
    }
}

/// Declare a name in the innermost open scope; with no open scope the
/// name is left for the global fallback.
pub open spec fn sr_declare(stack: Seq<Seq<Seq<char>>>, name: Seq<char>) -> Seq<Seq<Seq<char>>> {
    if stack.len() == 0 {
        stack
    } else {
        stack.update(stack.len() - 1, stack.last().push(name))
    }
}

/// Record the verdict for a reference node: a distance when a tracked
/// scope declares the name, nothing otherwise.
pub open spec fn sr_record(
    stack: Seq<Seq<Seq<char>>>,
    locals: Map<nat, nat>,
    e: nat,
    name: Seq<char>,
) -> Map<nat, nat> {
    match sr_find(stack, stack.len() as int, name) {
        Some(d) => locals.insert(e, d),
        None => locals,
    }
}

/// Resolve the expression at index `e`.
pub open spec fn sr_expr(ast: Ast, stack: Seq<Seq<Seq<char>>>, locals: Map<nat, nat>, e: int) -> Map<
    nat,
    nat,
>
    decreases e, 1int, 0int,
{
    if !(0 <= e < ast.exprs@.len()) {
        locals
    } else {
        match ast.exprs@[e] {
            Expr::Literal(_) => locals,
            Expr::Grouping(g) => if g.expression < e {
                sr_expr(ast, stack, locals, g.expression as int)
            } else {
                locals
            },
            Expr::Unary(u) => if u.right < e {
                sr_expr(ast, stack, locals, u.right as int)
            } else {
                locals
            },
            Expr::Binary(b) => if b.left < e && b.right < e {
                sr_expr(ast, stack, sr_expr(ast, stack, locals, b.left as int), b.right as int)
            } else {
                locals
            },
            Expr::Logical(l) => if l.left < e && l.right < e {
                sr_expr(ast, stack, sr_expr(ast, stack, locals, l.left as int), l.right as int)
            } else {
                locals
            },
            Expr::Variable(v) => sr_record(stack, locals, e as nat, v.name@.lexeme),
            Expr::Assign(a) => if a.value < e {
                sr_record(stack, sr_expr(ast, stack, locals, a.value as int), e as nat, a.name@.lexeme)
            } else {
                locals
            },
            Expr::Call(c) => if c.callee < e {
                sr_exprs(ast, stack, sr_expr(ast, stack, locals, c.callee as int), c.arguments@, 0, e)
            } else {
                locals
            },
        }
    }
}

/// Resolve the expressions `args[i..]`, all of which sit below `bound`.
pub open spec fn sr_exprs(
    ast: Ast,
    stack: Seq<Seq<Seq<char>>>,
    locals: Map<nat, nat>,
    args: Seq<usize>,
    i: int,
    bound: int,
) -> Map<nat, nat>
    decreases bound, 0int, args.len() - i,
{
    if i < 0 || i >= args.len() {
        locals
    } else if args[i] < bound {
        sr_exprs(ast, stack, sr_expr(ast, stack, locals, args[i] as int), args, i + 1, bound)
    } else {
        locals
    }
}

/// Resolve the statement at index `s`; returns the stack as it stands
/// afterwards (declarations stay in their scope) and the updated table.
pub open spec fn sr_stmt(ast: Ast, stack: Seq<Seq<Seq<char>>>, locals: Map<nat, nat>, s: int) -> (
    Seq<Seq<Seq<char>>>,
    Map<nat, nat>,
)
    decreases s, 1int, 0int,
{
    if !(0 <= s < ast.stmts@.len()) {
        (stack, locals)
    } else {
        match ast.stmts@[s] {
            Stmt::Expression(x) => (stack, sr_expr(ast, stack, locals, x.expression as int)),
            Stmt::Print(p) => (stack, sr_expr(ast, stack, locals, p.expression as int)),
            Stmt::Break(_) => (stack, locals),
            Stmt::Return(r) => match r.value {
                Some(v) => (stack, sr_expr(ast, stack, locals, v as int)),
                None => (stack, locals),
            },
            Stmt::Var(v) => {
                let loc1 = match v.initializer {
                    Some(init) => sr_expr(ast, stack, locals, init as int),
                    None => locals,
                };
                (sr_declare(stack, v.name@.lexeme), loc1)
            },
            Stmt::If(f) => {
                let loc1 = sr_expr(ast, stack, locals, f.condition as int);
                let (stack2, loc2) = if f.then_branch < s {
                    sr_stmt(ast, stack, loc1, f.then_branch as int)
                } else {
                    (stack, loc1)
                };
                match f.else_branch {
                    Some(eb) => if eb < s {
                        sr_stmt(ast, stack2, loc2, eb as int)
                    } else {
                        (stack2, loc2)
                    },
                    None => (stack2, loc2),
                }
            },
            Stmt::While(w) => {
                let loc1 = sr_expr(ast, stack, locals, w.condition as int);
                if w.body < s {
                    sr_stmt(ast, stack, loc1, w.body as int)
                } else {
                    (stack, loc1)
                }
            },
            Stmt::Block(b) => {
                let (stack1, loc1) = sr_seq(
                    ast,
                    stack.push(Seq::empty()),
                    locals,
                    b.statements@,
                    0,
                    s,
                );
                (if stack1.len() > 0 {
                    stack1.drop_last()
                } else {
                    stack1
                }, loc1)
            },
            Stmt::Function(f) => {
                let stack1 = sr_declare(stack, f.name@.lexeme);
                let params = f.params@.map_values(|t: Token| t@.lexeme);
                let (stack2, loc1) = sr_seq(ast, stack1.push(params), locals, f.body@, 0, s);
                (if stack2.len() > 0 {
                    stack2.drop_last()
                } else {
                    stack2
                }, loc1)
            },
        }
    }
}

/// Resolve the statements `list[i..]`, all of which sit below `bound`,
/// threading the stack through the declarations they make.
pub open spec fn sr_seq(
    ast: Ast,
    stack: Seq<Seq<Seq<char>>>,
    locals: Map<nat, nat>,
    list: Seq<usize>,
    i: int,
    bound: int,
) -> (Seq<Seq<Seq<char>>>, Map<nat, nat>)
    decreases bound, 0int, list.len() - i,
{
    if i < 0 || i >= list.len() {
        (stack, locals)
    } else if list[i] < bound {
        let (stack1, loc1) = sr_stmt(ast, stack, locals, list[i] as int);
        sr_seq(ast, stack1, loc1, list, i + 1, bound)
    } else {
        (stack, locals)
    }
}

/// Whether a name is declared in one static scope.
fn contains_name(scope: &Vec<String>, name: &str) -> (r: bool)
    ensures
        r == scope@.map_values(|n: String| n@).contains(name@),
{
    let ghost mapped = scope@.map_values(|n2: String| n2@);
    let n = scope.len();
    let mut i: usize = 0;
    while i < n
        invariant
            0 <= i <= n,
            n == scope@.len(),
            mapped == scope@.map_values(|n2: String| n2@),
            forall|j: int| 0 <= j < i ==> (#[trigger] scope@[j])@ != name@,
        decreases n - i,
    {
        if str_eq(scope[i].as_str(), name) {
            proof {
                assert(mapped[i as int] == name@);
            }
            return true;
        }
        i = i + 1;
    }
    proof {
        assert forall|j: int| 0 <= j < mapped.len() implies #[trigger] mapped[j] != name@ by {
            assert(mapped[j] == scope@[j]@);
        }
        assert(!mapped.contains(name@));
    }
    false
}

impl Resolver {
    /// A resolver with no open scope: the top level tracks nothing, so
    /// top-level names resolve through the global fallback.
    pub fn new() -> (r: Resolver)
        ensures
            r@ == Seq::<Seq<Seq<char>>>::empty(),
    {
        let r = Resolver { scopes: Vec::new() };
        proof {
            assert(stack_view(r.scopes@) =~= Seq::<Seq<Seq<char>>>::empty());
        }
        r
    }

    /// The distance from the innermost of the first `i` scopes to the
    /// nearest one declaring `name`.
    fn find_dist(&self, i: usize, name: &str) -> (r: Option<usize>)
        requires
            i <= self.scopes@.len(),
        ensures
            match r {
                Some(d) => sr_find(stack_view(self.scopes@), i as int, name@) == Some(d as nat)
                    && d < i,
                None => sr_find(stack_view(self.scopes@), i as int, name@) is None,
            },
        decreases i,
    {
        if i == 0 {
            return None;
        }
        proof {
            assert(stack_view(self.scopes@)[i - 1] == self.scopes@[i - 1]@.map_values(
                |n: String| n@,
            ));
        }
        if contains_name(&self.scopes[i - 1], name) {
            Some(0)
        } else {
            match self.find_dist(i - 1, name) {
                Some(d) => Some(d + 1),
                None => None,
            }
        }
    }

    /// Declare a name in the innermost open scope, if one is open.
    fn declare(&mut self, name: String)
        ensures
            stack_view(final(self).scopes@) == sr_declare(stack_view(old(self).scopes@), name@),
    {
        let n = self.scopes.len();
        if n > 0 {
            let ghost pre = self.scopes@;
            let ghost gname = name@;
            self.scopes[n - 1].push(name);
            proof {
                assert(self.scopes@[n - 1]@.map_values(|x: String| x@) =~= pre[n - 1]@.map_values(
                    |x: String| x@,
                ).push(gname));
                assert(stack_view(self.scopes@) =~~= sr_declare(stack_view(pre), gname));
            }
        }
    }

    /// Record the verdict for the reference node `e` naming `name`.
    fn record(&self, interp: &mut Interpreter, e: usize, name: &Token)
        ensures
            final(interp)@ == (GState {
                locals: sr_record(
                    stack_view(self.scopes@),
                    old(interp)@.locals,
                    e as nat,
                    name@.lexeme,
                ),
                ..old(interp)@
            }),
    {
        match self.find_dist(self.scopes.len(), name.lexeme.as_str()) {
            Some(d) => {
                interp.resolve(e, d);
            },
            None => {},
        }
    }

    /// Resolve the expression at index `e`, recording a distance for
    /// every variable reference and assignment target in it.
    fn resolve_expr(&self, interp: &mut Interpreter, ast: &Ast, e: usize)
        requires
            ast.wf(),
            e < ast.exprs@.len(),
        ensures
            final(interp)@ == (GState {
                locals: sr_expr(*ast, stack_view(self.scopes@), old(interp)@.locals, e as int),
                ..old(interp)@
            }),
        decreases e, 1int, 0int,
    {
        proof {
            assert(crate::ast::expr_node_wf(ast.exprs@[e as int], e as int));
        }
        match &ast.exprs[e] {
            Expr::Literal(_) => {},
            Expr::Grouping(g) => self.resolve_expr(interp, ast, g.expression),
            Expr::Unary(u) => self.resolve_expr(interp, ast, u.right),
            Expr::Binary(b) => {
                self.resolve_expr(interp, ast, b.left);
                self.resolve_expr(interp, ast, b.right);
            },
            Expr::Logical(l) => {
                self.resolve_expr(interp, ast, l.left);
                self.resolve_expr(interp, ast, l.right);
            },
            Expr::Variable(v) => self.record(interp, e, &v.name),
            Expr::Assign(a) => {
                self.resolve_expr(interp, ast, a.value);
                self.record(interp, e, &a.name);
            },
            Expr::Call(c) => {
                self.resolve_expr(interp, ast, c.callee);
                self.resolve_exprs(interp, ast, &c.arguments, 0, e);
            },
        }
    }

    /// Resolve the expressions `args[i..]`, all of which sit below
    /// `bound`.
    fn resolve_exprs(&self, interp: &mut Interpreter, ast: &Ast, args: &Vec<usize>, i: usize, bound: usize)
        requires
            ast.wf(),
            i <= args@.len(),
            forall|j: int| 0 <= j < args@.len() ==> (#[trigger] args@[j]) < bound,
            bound <= ast.exprs@.len(),
        ensures
            final(interp)@ == (GState {
                locals: sr_exprs(
                    *ast,
                    stack_view(self.scopes@),
                    old(interp)@.locals,
                    args@,
                    i as int,
                    bound as int,
                ),
                ..old(interp)@
            }),
        decreases bound, 0int, args@.len() - i,
    {
        if i >= args.len() {
            return ;
        }
        self.resolve_expr(interp, ast, args[i]);
        self.resolve_exprs(interp, ast, args, i + 1, bound);
    }

    /// Resolve the statement at index `s`, opening and closing the scopes
    /// its shape demands.
    fn resolve_stmt(&mut self, interp: &mut Interpreter, ast: &Ast, s: usize)
        requires
            ast.wf(),
            s < ast.stmts@.len(),
        ensures
            ({
                let (stack2, loc2) = sr_stmt(
                    *ast,
                    stack_view(old(self).scopes@),
                    old(interp)@.locals,
                    s as int,
                );
                stack_view(final(self).scopes@) == stack2 && final(interp)@ == (GState {
                    locals: loc2,
                    ..old(interp)@
                })
            }),
        decreases s, 1int, 0int,
    {
        proof {
            assert(crate::ast::stmt_node_wf(ast.stmts@[s as int], s as int, ast.exprs@.len() as int));
        }
        match &ast.stmts[s] {
            Stmt::Expression(x) => self.resolve_expr(interp, ast, x.expression),
            Stmt::Print(p) => self.resolve_expr(interp, ast, p.expression),
            Stmt::Break(_) => {},
            Stmt::Return(r) => match &r.value {
                Some(v) => self.resolve_expr(interp, ast, *v),
                None => {},
            },
            Stmt::Var(v) => {
                match &v.initializer {
                    Some(init) => self.resolve_expr(interp, ast, *init),
                    None => {},
                }
                self.declare(v.name.lexeme.clone());
            },
            Stmt::If(f) => {
                self.resolve_expr(interp, ast, f.condition);
                self.resolve_stmt(interp, ast, f.then_branch);
                match &f.else_branch {
                    Some(eb) => self.resolve_stmt(interp, ast, *eb),
                    None => {},
                }
            },
            Stmt::While(w) => {
                self.resolve_expr(interp, ast, w.condition);
                self.resolve_stmt(interp, ast, w.body);
            },
            Stmt::Block(b) => {
                let ghost pre = self.scopes@;
                self.scopes.push(Vec::new());
                proof {
                    assert(stack_view(self.scopes@) =~~= stack_view(pre).push(Seq::empty()));
                }
                self.resolve_seq(interp, ast, &b.statements, 0, s);
                let ghost mid = self.scopes@;
                match self.scopes.pop() {
                    Some(_) => {
                        proof {
                            assert(stack_view(self.scopes@) =~~= stack_view(mid).drop_last());
                        }
                    },
                    None => {},
                }
            },
            Stmt::Function(f) => {
                self.declare(f.name.lexeme.clone());
                let mut params: Vec<String> = Vec::new();
                let ghost target = f.params@.map_values(|t: Token| t@.lexeme);
                let n = f.params.len();
                let mut k: usize = 0;
                while k < n
                    invariant
                        0 <= k <= n,
                        n == f.params@.len(),
                        target == f.params@.map_values(|t: Token| t@.lexeme),
                        params@.len() == k,
                        params@.map_values(|p: String| p@) == target.take(k as int),
                    decreases n - k,
                {
                    let lex = f.params[k].lexeme.clone();
                    proof {
                        assert(lex@ == f.params@[k as int]@.lexeme);
                    }
                    let ghost prepush = params@;
                    params.push(lex);
                    proof {
                        assert(params@.len() == prepush.len() + 1);
                        assert(params@[k as int]@ == f.params@[k as int]@.lexeme);
                        assert(params@.map_values(|p: String| p@)[k as int] == params@[
                            k as int
                        ]@);
                        assert(target[k as int] == f.params@[k as int]@.lexeme);
                        assert(params@.map_values(|p: String| p@) =~= target.take(k as int + 1));
                    }
                    k = k + 1;
                }
                proof {
                    assert(target.take(n as int) =~= target);
                }
                let ghost pre = self.scopes@;
                let ghost gparams = params@.map_values(|p: String| p@);
                self.scopes.push(params);
                proof {
                    assert(stack_view(self.scopes@) =~~= stack_view(pre).push(gparams));
                }
                self.resolve_seq(interp, ast, &f.body, 0, s);
                let ghost mid = self.scopes@;
                match self.scopes.pop() {
                    Some(_) => {
                        proof {
                            assert(stack_view(self.scopes@) =~~= stack_view(mid).drop_last());
                        }
                    },
                    None => {},
                }
            },
        }
    }

    /// Resolve the statements `list[i..]`, all of which sit below
    /// `bound`, threading declarations through.
    fn resolve_seq(&mut self, interp: &mut Interpreter, ast: &Ast, list: &Vec<usize>, i: usize, bound: usize)
        requires
            ast.wf(),
            i <= list@.len(),
            forall|j: int| 0 <= j < list@.len() ==> (#[trigger] list@[j]) < bound,
            bound <= ast.stmts@.len(),
        ensures
            ({
                let (stack2, loc2) = sr_seq(
                    *ast,
                    stack_view(old(self).scopes@),
                    old(interp)@.locals,
                    list@,
                    i as int,
                    bound as int,
                );
                stack_view(final(self).scopes@) == stack2 && final(interp)@ == (GState {
                    locals: loc2,
                    ..old(interp)@
                })
            }),
        decreases bound, 0int, list@.len() - i,
    {
        if i >= list.len() {
            return ;
        }
        self.resolve_stmt(interp, ast, list[i]);
        self.resolve_seq(interp, ast, list, i + 1, bound);
    }

    /// Resolve a whole program: walk the top-level statements with no
    /// scope open, so that top-level declarations stay global. Only the
    /// interpreter's distance table changes.
    pub fn resolve_program(&mut self, interp: &mut Interpreter, ast: &Ast, stmts: &Vec<usize>)
        requires
            ast.wf(),
            old(self)@ == Seq::<Seq<Seq<char>>>::empty(),
            forall|j: int| 0 <= j < stmts@.len() ==> (#[trigger] stmts@[j]) < ast.stmts@.len(),
        ensures
            final(interp)@ == (GState {
                locals: sr_seq(
                    *ast,
                    Seq::empty(),
                    old(interp)@.locals,
                    stmts@,
                    0,
                    ast.stmts@.len() as int,
                ).1,
                ..old(interp)@
            }),
    {
        self.resolve_seq(interp, ast, stmts, 0, ast.stmts.len());
    }
}

} // verus!
