//! The tree-walking evaluator.
//!
//! The interpreter owns the scope arena (index 0 is the persistent global
//! scope), a current-scope cursor, the loop-nesting counter, the
//! resolver's distance table, the function arena, and the output trace.
//! Execution and evaluation are mutually recursive walks over the syntax
//! tree; every one of them is proved to compute exactly the big-step
//! semantics in [`crate::semantics`], state change and result alike.
//!
//! Entering a block or a call swaps in a fresh scope and always restores
//! the previous one on the way out, on the error and signal paths too.
//! `break` and `return` travel through the error channel and are consumed
//! at the innermost loop and at the call boundary respectively.

use vstd::prelude::*;
use vstd::string::StringExecFns;
use crate::ast::{expr_node_wf, stmt_node_wf, Ast};
use crate::callable::{Callable, NativeClock};
use crate::environment::{scopes_view, Environment, GScope};
use crate::error::LoxResult;
use crate::function::{copy_ids, copy_tokens, ids_view, FunKind, GFun, LoxFunction};
use crate::expr::Expr;
use crate::object::{GObject, Object};
use crate::ops::{eval_binary, eval_unary, ores_view, ures_view, usize_to_string};
use crate::stmt::Stmt;
use crate::semantics::{
    arity_err, binds_of, fun_wf, objs_view, sp_call, sp_eval, sp_eval_args, sp_exec, sp_exec_seq,
    sp_interpret, sp_lookup, sp_while, st_wf, GState,
};
use crate::token::{Token, TokenType};

verus! {

/// The evaluation budget handed to each top-level statement: every
/// recursive step of the walk spends one unit, so this bounds the
/// evaluation depth, not the program size.
pub const EVAL_BUDGET: u64 = 0x1000_0000_0000_0000;

/// Ghost view of the resolver's table: the expression indices that carry
/// a resolved distance.
pub open spec fn locals_map(l: Seq<Option<usize>>) -> Map<nat, nat> {
    Map::new(
        |k: nat| k < l.len() && l[k as int] is Some,
        |k: nat| l[k as int]->0 as nat,
    )
}

/// Ghost view of the function arena.
pub open spec fn funs_view(s: Seq<FunKind>) -> Seq<GFun> {
    s.map_values(|f: FunKind| f@)
}

/// The tree-walking evaluator.
pub struct Interpreter {
    scopes: Vec<Environment>,
    environment: usize,
    nesting_level: u64,
    locals: Vec<Option<usize>>,
    funs: Vec<FunKind>,
    output: Vec<Object>,
    clock_millis: i64,
}

impl View for Interpreter {
    type V = GState;

    closed spec fn view(&self) -> GState {
        GState {
            scopes: scopes_view(self.scopes@),
            env: self.environment as nat,
            nesting: self.nesting_level as nat,
            locals: locals_map(self.locals@),
            funs: funs_view(self.funs@),
            output: objs_view(self.output@),
            clock: self.clock_millis as int,
        }
    }
}

/// The state a fresh interpreter starts in: one global scope in which the
/// built-in clock is pre-registered under the name `clock`, before any
/// user code runs.
pub open spec fn init_gstate(clock: int) -> GState {
    GState {
        scopes: seq![
            GScope {
                binds: Map::<Seq<char>, GObject>::empty().insert("clock"@, GObject::Func(0)),
                enclosing: None,
            },
        ],
        env: 0,
        nesting: 0,
        locals: Map::empty(),
        funs: seq![GFun::Clock],
        output: Seq::empty(),
        clock,
    }
}

/// Pushing a scope onto the arena pushes its view.
proof fn lemma_scopes_view_push(s: Seq<Environment>, e: Environment)
    ensures
        scopes_view(s.push(e)) == scopes_view(s).push(e@),
{
    assert(scopes_view(s.push(e)) =~= scopes_view(s).push(e@));
}

/// Updating a scope in the arena updates its view.
proof fn lemma_scopes_view_update(s: Seq<Environment>, i: int, e: Environment)
    requires
        0 <= i < s.len(),
    ensures
        scopes_view(s.update(i, e)) == scopes_view(s).update(i, e@),
{
    assert(scopes_view(s.update(i, e)) =~= scopes_view(s).update(i, e@));
}

/// Pushing a function onto the arena pushes its view.
proof fn lemma_funs_view_push(s: Seq<FunKind>, f: FunKind)
    ensures
        funs_view(s.push(f)) == funs_view(s).push(f@),
{
    assert(funs_view(s.push(f)) =~= funs_view(s).push(f@));
}

/// Pushing a value onto the output pushes its view.
proof fn lemma_objs_view_push(s: Seq<Object>, o: Object)
    ensures
        objs_view(s.push(o)) == objs_view(s).push(o@),
{
    assert(objs_view(s.push(o)) =~= objs_view(s).push(o@));
}

impl Interpreter {
    /// The state invariant tying the interpreter to the tree it runs.
    pub open spec fn wf(&self, ast: &Ast) -> bool {
        st_wf(self@, *ast)
    }

    /// A fresh interpreter whose clock reads zero. The global scope
    /// exists from the start and the clock function is bound in it.
    pub fn new() -> (r: Interpreter)
        ensures
            r@ == init_gstate(0),
            forall|ast: &Ast| #[trigger] r.wf(ast),
    {
        Interpreter::new_with_clock(0)
    }

    /// A fresh interpreter whose built-in clock serves the given reading,
    /// in milliseconds since the epoch; the embedding program reads the
    /// wall clock and passes it in.
    pub fn new_with_clock(clock_millis: i64) -> (r: Interpreter)
        ensures
            r@ == init_gstate(clock_millis as int),
            forall|ast: &Ast| #[trigger] r.wf(ast),
    {
        let mut globals = Environment::new();
        globals.define(String::from_str("clock"), Object::Func(Callable { func: 0 }));
        let mut scopes: Vec<Environment> = Vec::new();
        scopes.push(globals);
        let mut funs: Vec<FunKind> = Vec::new();
        funs.push(FunKind::Clock(NativeClock));
        let r = Interpreter {
            scopes,
            environment: 0,
            nesting_level: 0,
            locals: Vec::new(),
            funs,
            output: Vec::new(),
            clock_millis,
        };
        proof {
            assert(scopes_view(r.scopes@) =~= init_gstate(clock_millis as int).scopes);
            assert(funs_view(r.funs@) =~= init_gstate(clock_millis as int).funs);
            assert(locals_map(r.locals@) =~= init_gstate(clock_millis as int).locals);
            assert(objs_view(r.output@) =~= init_gstate(clock_millis as int).output);
            assert(objs_view(r.output@) =~= Seq::<GObject>::empty());
        }
        r
    }

    /// Everything printed so far, in order; printing appends here and the
    /// embedding program renders it.
    pub fn output(&self) -> (r: &Vec<Object>)
        ensures
            objs_view(r@) == self@.output,
    {
        &self.output
    }

    /// Record the resolver's verdict for one expression node: the number
    /// of scopes between the reference and its declaration.
    pub fn resolve(&mut self, expr: usize, depth: usize)
        ensures
            final(self)@ == (GState {
                locals: old(self)@.locals.insert(expr as nat, depth as nat),
                ..old(self)@
            }),
    {
        let ghost pre = self.locals@;
        let ghost entry = *self;
        while self.locals.len() <= expr
            invariant
                pre.len() <= self.locals@.len(),
                forall|j: int|
                    0 <= j < self.locals@.len() ==> self.locals@[j] == if j < pre.len() {
                        pre[j]
                    } else {
                        None::<usize>
                    },
                self.scopes == entry.scopes,
                self.environment == entry.environment,
                self.nesting_level == entry.nesting_level,
                self.funs == entry.funs,
                self.output == entry.output,
                self.clock_millis == entry.clock_millis,
            decreases expr + 1 - self.locals@.len(),
        {
            self.locals.push(None);
        }
        self.locals.set(expr, Some(depth));
        proof {
            assert(locals_map(self.locals@) =~= locals_map(pre).insert(expr as nat, depth as nat));
        }
    }

    /// Consult the distance table for this reference node; a recorded
    /// distance takes the direct path from the current scope, no record
    /// falls back to a global lookup by name.
    fn lookup_variable(&self, name: &Token, eid: usize) -> (r: Result<Object, LoxResult>)
        requires
            self@.scopes.len() > 0,
            self@.env < self@.scopes.len(),
            crate::environment::chain_wf(self@.scopes),
        ensures
            ores_view(r) == sp_lookup(self@, eid as nat, name@),
    {
        let dist: Option<usize> = if eid < self.locals.len() {
            self.locals[eid]
        } else {
            None
        };
        match dist {
            Some(d) => {
                proof {
                    assert(self@.locals.contains_key(eid as nat));
                    assert(self@.locals[eid as nat] == d as nat);
                }
                Environment::get_at(&self.scopes, self.environment, d, name.lexeme.as_str())
            },
            None => {
                proof {
                    assert(!self@.locals.contains_key(eid as nat));
                }
                Environment::get(&self.scopes, 0, name)
            },
        }
    }

    /// Evaluate the expression at index `e` with the given budget.
    fn eval(&mut self, ast: &Ast, e: usize, fuel: u64) -> (r: Result<Object, LoxResult>)
        requires
            ast.wf(),
            st_wf(old(self)@, *ast),
            e < ast.exprs@.len(),
        ensures
            st_wf(final(self)@, *ast),
            final(self)@.scopes.len() >= old(self)@.scopes.len(),
            ({
                let (st2, r2) = sp_eval(*ast, old(self)@, e as int, fuel as nat);
                final(self)@ == st2 && ores_view(r) == r2
            }),
        decreases fuel, 1int, 0int,
    {
        if fuel == 0 {
            return Err(LoxResult::system_error("evaluation budget exhausted"));
        }
        match &ast.exprs[e] {
            Expr::Literal(l) => match &l.value {
                Some(o) => Ok(o.clone()),
                None => Ok(Object::Nil),
            },
            Expr::Grouping(g) => self.eval(ast, g.expression, fuel - 1),
            Expr::Unary(u) => {
                let rv = match self.eval(ast, u.right, fuel - 1) {
                    Ok(v) => v,
                    Err(er) => return Err(er),
                };
                eval_unary(&u.operator, rv)
            },
            Expr::Binary(b) => {
                let lv = match self.eval(ast, b.left, fuel - 1) {
                    Ok(v) => v,
                    Err(er) => return Err(er),
                };
                let rv = match self.eval(ast, b.right, fuel - 1) {
                    Ok(v) => v,
                    Err(er) => return Err(er),
                };
                eval_binary(&b.operator, lv, rv)
            },
            Expr::Logical(l) => {
                let lv = match self.eval(ast, l.left, fuel - 1) {
                    Ok(v) => v,
                    Err(er) => return Err(er),
                };
                let is_or = l.operator.ttype == TokenType::Or;
                let decided = if is_or {
                    lv.is_truthy()
                } else {
                    !lv.is_truthy()
                };
                if decided {
                    Ok(lv)
                } else {
                    self.eval(ast, l.right, fuel - 1)
                }
            },
            Expr::Variable(v) => self.lookup_variable(&v.name, e),
            Expr::Assign(a) => {
                let value = match self.eval(ast, a.value, fuel - 1) {
                    Ok(v) => v,
                    Err(er) => return Err(er),
                };
                let dist: Option<usize> = if e < self.locals.len() {
                    self.locals[e]
                } else {
                    None
                };
                match dist {
                    Some(d) => {
                        proof {
                            assert(self@.locals.contains_key(e as nat));
                            assert(self@.locals[e as nat] == d as nat);
                        }
                        let at = self.environment;
                        match Environment::assign_at(&mut self.scopes, at, d, &a.name, value.clone()) {
                            Ok(_) => Ok(value),
                            Err(er) => Err(er),
                        }
                    },
                    None => {
                        proof {
                            assert(!self@.locals.contains_key(e as nat));
                        }
                        match Environment::assign(&mut self.scopes, 0, &a.name, value.clone()) {
                            Ok(_) => Ok(value),
                            Err(er) => Err(er),
                        }
                    },
                }
            },
            Expr::Call(c) => {
                let callee = match self.eval(ast, c.callee, fuel - 1) {
                    Ok(v) => v,
                    Err(er) => return Err(er),
                };
                proof {
                    assert(expr_node_wf(ast.exprs@[e as int], e as int));
                }
                let args = match self.eval_args(ast, &c.arguments, 0, fuel - 1) {
                    Ok(v) => v,
                    Err(er) => return Err(er),
                };
                match callee {
                    Object::Func(cal) => self.call_function(ast, cal.func, args, &c.paren, fuel - 1),
                    _ => Err(LoxResult::runtime_error(&c.paren, "can only call functions and classes")),
                }
            },
        }
    }

    /// Evaluate the argument expressions `args[i..]`, left to right.
    fn eval_args(&mut self, ast: &Ast, args: &Vec<usize>, i: usize, fuel: u64) -> (r: Result<
        Vec<Object>,
        LoxResult,
    >)
        requires
            ast.wf(),
            st_wf(old(self)@, *ast),
            i <= args@.len(),
            forall|j: int| 0 <= j < args@.len() ==> (#[trigger] args@[j]) < ast.exprs@.len(),
        ensures
            st_wf(final(self)@, *ast),
            final(self)@.scopes.len() >= old(self)@.scopes.len(),
            ({
                let (st2, r2) = sp_eval_args(*ast, old(self)@, args@, i as int, fuel as nat);
                final(self)@ == st2 && (match (r, r2) {
                    (Ok(v), Ok(s)) => objs_view(v@) == s,
                    (Err(e1), Err(e2)) => e1@ == e2,
                    _ => false,
                })
            }),
        decreases fuel, 2int, args@.len() - i,
    {
        if i >= args.len() {
            return Ok(Vec::new());
        }
        let v = match self.eval(ast, args[i], fuel) {
            Ok(v) => v,
            Err(er) => return Err(er),
        };
        let mut rest = match self.eval_args(ast, args, i + 1, fuel) {
            Ok(v) => v,
            Err(er) => return Err(er),
        };
        let ghost gv = v;
        let ghost grest = rest@;
        let mut out: Vec<Object> = Vec::new();
        out.push(v);
        out.append(&mut rest);
        proof {
            assert(objs_view(out@) =~= seq![gv@] + objs_view(grest));
        }
        Ok(out)
    }

    /// Call a function value with already-evaluated arguments; consumes
    /// the `return` signal at this boundary and restores the caller's
    /// scope on every exit path.
    fn call_function(
        &mut self,
        ast: &Ast,
        fid: usize,
        args: Vec<Object>,
        paren: &Token,
        fuel: u64,
    ) -> (r: Result<Object, LoxResult>)
        requires
            ast.wf(),
            st_wf(old(self)@, *ast),
        ensures
            st_wf(final(self)@, *ast),
            final(self)@.scopes.len() >= old(self)@.scopes.len(),
            ({
                let (st2, r2) = sp_call(
                    *ast,
                    old(self)@,
                    fid as nat,
                    objs_view(args@),
                    paren@,
                    fuel as nat,
                );
                final(self)@ == st2 && ores_view(r) == r2
            }),
        decreases fuel, 4int, 0int,
    {
        if fid >= self.funs.len() {
            return Err(LoxResult::runtime_error(paren, "can only call functions and classes"));
        }
        let is_clock = match &self.funs[fid] {
            FunKind::Clock(_) => true,
            FunKind::Decl(_) => false,
        };
        if is_clock {
            if args.len() != 0 {
                return Err(arity_message(paren, 0, args.len()));
            }
            return Ok(Object::Num(self.clock_millis));
        }
        let (params, body, closure) = match &self.funs[fid] {
            FunKind::Decl(g) => (copy_tokens(&g.params), copy_ids(&g.body), g.closure),
            FunKind::Clock(_) => {
                proof {
                    assert(false);
                }
                (Vec::new(), Vec::new(), 0)
            },
        };
        if args.len() != params.len() {
            return Err(arity_message(paren, params.len(), args.len()));
        }
        let mut env = Environment::new_with_enclosing(closure);
        let n = params.len();
        let mut k: usize = 0;
        let ghost lexs = params@.map_values(|t: Token| t@.lexeme);
        while k < n
            invariant
                0 <= k <= n,
                n == params@.len(),
                n == args@.len(),
                lexs == params@.map_values(|t: Token| t@.lexeme),
                env@.enclosing == Some(closure as nat),
                env@.binds == binds_of(lexs.take(k as int), objs_view(args@)),
            decreases n - k,
        {
            env.define(params[k].lexeme.clone(), args[k].clone());
            proof {
                assert(lexs.take(k as int + 1).drop_last() =~= lexs.take(k as int));
                assert(lexs.take(k as int + 1).last() == lexs[k as int]);
                assert(objs_view(args@)[k as int] == args@[k as int]@);
            }
            k = k + 1;
        }
        proof {
            assert(lexs.take(n as int) =~= lexs);
            assert(funs_view(self.funs@)[fid as int] == self.funs@[fid as int]@);
            assert(fun_wf(self@.funs[fid as int], self@.scopes.len(), *ast));
            assert forall|j: int| 0 <= j < body@.len() implies (#[trigger] body@[j])
                < ast.stmts@.len() by {
                assert(ids_view(body@)[j] == body@[j] as nat);
            }
        }
        let r = self.execute_block(ast, &body, env, fuel);
        match r {
            Ok(_) => Ok(Object::Nil),
            Err(LoxResult::ReturnValue { value }) => Ok(value),
            Err(er) => Err(er),
        }
    }

    /// Execute a statement list in a fresh scope: swap the scope in, run
    /// the statements in order stopping at the first error or signal, and
    /// always restore the previous scope, even on the signal and error
    /// paths.
    pub fn execute_block(
        &mut self,
        ast: &Ast,
        statements: &Vec<usize>,
        environment: Environment,
        fuel: u64,
    ) -> (r: Result<(), LoxResult>)
        requires
            ast.wf(),
            st_wf(old(self)@, *ast),
            forall|j: int|
                0 <= j < statements@.len() ==> (#[trigger] statements@[j]) < ast.stmts@.len(),
            match environment@.enclosing {
                Some(p) => p < old(self)@.scopes.len(),
                None => true,
            },
        ensures
            st_wf(final(self)@, *ast),
            final(self)@.scopes.len() >= old(self)@.scopes.len(),
            ({
                let st1 = GState {
                    scopes: old(self)@.scopes.push(environment@),
                    env: old(self)@.scopes.len(),
                    ..old(self)@
                };
                let (st2, r2) = sp_exec_seq(*ast, st1, ids_view(statements@), 0, fuel as nat);
                final(self)@ == (GState { env: old(self)@.env, ..st2 }) && ures_view(r) == r2
            }),
        decreases fuel, 3int, statements@.len() + 1,
    {
        let prev = self.environment;
        let idx = self.scopes.len();
        let ghost pre_scopes = self.scopes@;
        let ghost genv = environment;
        self.scopes.push(environment);
        self.environment = idx;
        proof {
            lemma_scopes_view_push(pre_scopes, genv);
        }
        let r = self.exec_seq(ast, statements, 0, fuel);
        self.environment = prev;
        r
    }

    /// Execute the statements `list[i..]` in order, stopping at the first
    /// error or control signal.
    fn exec_seq(&mut self, ast: &Ast, list: &Vec<usize>, i: usize, fuel: u64) -> (r: Result<
        (),
        LoxResult,
    >)
        requires
            ast.wf(),
            st_wf(old(self)@, *ast),
            i <= list@.len(),
            forall|j: int| 0 <= j < list@.len() ==> (#[trigger] list@[j]) < ast.stmts@.len(),
        ensures
            st_wf(final(self)@, *ast),
            final(self)@.scopes.len() >= old(self)@.scopes.len(),
            ({
                let (st2, r2) = sp_exec_seq(*ast, old(self)@, ids_view(list@), i as int, fuel as nat);
                final(self)@ == st2 && ures_view(r) == r2
            }),
        decreases fuel, 3int, list@.len() - i,
    {
        if i >= list.len() {
            return Ok(());
        }
        match self.execute(ast, list[i], fuel) {
            Ok(_) => self.exec_seq(ast, list, i + 1, fuel),
            Err(er) => Err(er),
        }
    }

    /// One round of a `while` loop: the `break` signal from the body ends
    /// the loop normally here, at the innermost enclosing loop.
    fn exec_while(&mut self, ast: &Ast, cond: usize, body: usize, fuel: u64) -> (r: Result<
        (),
        LoxResult,
    >)
        requires
            ast.wf(),
            st_wf(old(self)@, *ast),
            cond < ast.exprs@.len(),
            body < ast.stmts@.len(),
        ensures
            st_wf(final(self)@, *ast),
            final(self)@.scopes.len() >= old(self)@.scopes.len(),
            ({
                let (st2, r2) = sp_while(*ast, old(self)@, cond as int, body as int, fuel as nat);
                final(self)@ == st2 && ures_view(r) == r2
            }),
        decreases fuel, 1int, 0int,
    {
        if fuel == 0 {
            return Err(LoxResult::system_error("evaluation budget exhausted"));
        }
        let c = match self.eval(ast, cond, fuel - 1) {
            Ok(v) => v,
            Err(er) => return Err(er),
        };
        if !c.is_truthy() {
            return Ok(());
        }
        match self.execute(ast, body, fuel - 1) {
            Ok(_) => self.exec_while(ast, cond, body, fuel - 1),
            Err(LoxResult::Break) => Ok(()),
            Err(er) => Err(er),
        }
    }

    /// Execute the statement at index `s` with the given budget.
    fn execute(&mut self, ast: &Ast, s: usize, fuel: u64) -> (r: Result<(), LoxResult>)
        requires
            ast.wf(),
            st_wf(old(self)@, *ast),
            s < ast.stmts@.len(),
        ensures
            st_wf(final(self)@, *ast),
            final(self)@.scopes.len() >= old(self)@.scopes.len(),
            ({
                let (st2, r2) = sp_exec(*ast, old(self)@, s as int, fuel as nat);
                final(self)@ == st2 && ures_view(r) == r2
            }),
        decreases fuel, 1int, 0int,
    {
        if fuel == 0 {
            return Err(LoxResult::system_error("evaluation budget exhausted"));
        }
        proof {
            assert(stmt_node_wf(ast.stmts@[s as int], s as int, ast.exprs@.len() as int));
        }
        match &ast.stmts[s] {
            Stmt::Expression(x) => match self.eval(ast, x.expression, fuel - 1) {
                Ok(_) => Ok(()),
                Err(er) => Err(er),
            },
            Stmt::Print(p) => {
                let v = match self.eval(ast, p.expression, fuel - 1) {
                    Ok(v) => v,
                    Err(er) => return Err(er),
                };
                let ghost gv = v;
                let ghost pre_out = self.output@;
                self.output.push(v);
                proof {
                    lemma_objs_view_push(pre_out, gv);
                }
                Ok(())
            },
            Stmt::Var(v) => {
                let value = match &v.initializer {
                    Some(init) => match self.eval(ast, *init, fuel - 1) {
                        Ok(val) => val,
                        Err(er) => return Err(er),
                    },
                    None => Object::Nil,
                };
                let at = self.environment;
                let ghost pre_scopes = self.scopes@;
                self.scopes[at].define(v.name.lexeme.clone(), value);
                proof {
                    lemma_scopes_view_update(pre_scopes, at as int, self.scopes@[at as int]);
                }
                Ok(())
            },
            Stmt::Block(b) => {
                let env = Environment::new_with_enclosing(self.environment);
                self.execute_block(ast, &b.statements, env, fuel - 1)
            },
            Stmt::If(f) => {
                let c = match self.eval(ast, f.condition, fuel - 1) {
                    Ok(v) => v,
                    Err(er) => return Err(er),
                };
                if c.is_truthy() {
                    self.execute(ast, f.then_branch, fuel - 1)
                } else {
                    match &f.else_branch {
                        Some(eb) => self.execute(ast, *eb, fuel - 1),
                        None => Ok(()),
                    }
                }
            },
            Stmt::While(w) => {
                if self.nesting_level == u64::MAX {
                    return Err(LoxResult::system_error("evaluation budget exhausted"));
                }
                let saved = self.nesting_level;
                self.nesting_level = saved + 1;
                let r = self.exec_while(ast, w.condition, w.body, fuel - 1);
                self.nesting_level = saved;
                r
            },
            Stmt::Break(b) => {
                if self.nesting_level == 0 {
                    Err(LoxResult::runtime_error(&b.token, "Can't break outside of loop"))
                } else {
                    Err(LoxResult::Break)
                }
            },
            Stmt::Return(rst) => match &rst.value {
                Some(veid) => {
                    let v = match self.eval(ast, *veid, fuel - 1) {
                        Ok(v) => v,
                        Err(er) => return Err(er),
                    };
                    Err(LoxResult::return_value(v))
                },
                None => Err(LoxResult::return_value(Object::Nil)),
            },
            Stmt::Function(f) => {
                let fid = self.funs.len();
                let lf = LoxFunction::new(f, self.environment);
                let entry = FunKind::Decl(lf);
                let ghost gentry = entry;
                let ghost pre_funs = self.funs@;
                self.funs.push(entry);
                proof {
                    lemma_funs_view_push(pre_funs, gentry);
                }
                let at = self.environment;
                let ghost pre_scopes = self.scopes@;
                self.scopes[at].define(f.name.lexeme.clone(), Object::Func(Callable { func: fid }));
                proof {
                    lemma_scopes_view_update(pre_scopes, at as int, self.scopes@[at as int]);
                }
                Ok(())
            },
        }
    }

    /// Run the top-level statements `stmts[i..]`, stopping at the first
    /// failed statement.
    fn run_list(&mut self, ast: &Ast, stmts: &Vec<usize>, i: usize) -> (had_error: bool)
        requires
            ast.wf(),
            st_wf(old(self)@, *ast),
            i <= stmts@.len(),
            forall|j: int| 0 <= j < stmts@.len() ==> (#[trigger] stmts@[j]) < ast.stmts@.len(),
        ensures
            st_wf(final(self)@, *ast),
            ({
                let (st2, h) = sp_interpret(
                    *ast,
                    old(self)@,
                    ids_view(stmts@),
                    i as int,
                    EVAL_BUDGET as nat,
                );
                final(self)@ == st2 && had_error == h
            }),
        decreases stmts@.len() - i,
    {
        if i >= stmts.len() {
            return false;
        }
        match self.execute(ast, stmts[i], EVAL_BUDGET) {
            Ok(_) => self.run_list(ast, stmts, i + 1),
            Err(_) => true,
        }
    }

    /// Run a program: execute the top-level statements in order, stopping
    /// at the first statement that fails, and report whether any did. A
    /// failed run leaves the interpreter in a sound state, so another
    /// run may follow.
    pub fn interpret(&mut self, ast: &Ast, stmts: &Vec<usize>) -> (had_error: bool)
        requires
            ast.wf(),
            st_wf(old(self)@, *ast),
            forall|j: int| 0 <= j < stmts@.len() ==> (#[trigger] stmts@[j]) < ast.stmts@.len(),
        ensures
            st_wf(final(self)@, *ast),
            ({
                let (st2, h) = sp_interpret(
                    *ast,
                    old(self)@,
                    ids_view(stmts@),
                    0,
                    EVAL_BUDGET as nat,
                );
                final(self)@ == st2 && had_error == h
            }),
    {
        self.run_list(ast, stmts, 0)
    }

    /// Run the top-level statements in order under one shared budget and
    /// hand back the error or stray control signal that stopped the run,
    /// so the embedding program can report it.
    pub fn run_statements(&mut self, ast: &Ast, stmts: &Vec<usize>) -> (r: Result<(), LoxResult>)
        requires
            ast.wf(),
            st_wf(old(self)@, *ast),
            forall|j: int| 0 <= j < stmts@.len() ==> (#[trigger] stmts@[j]) < ast.stmts@.len(),
        ensures
            st_wf(final(self)@, *ast),
            ({
                let (st2, r2) = sp_exec_seq(
                    *ast,
                    old(self)@,
                    ids_view(stmts@),
                    0,
                    EVAL_BUDGET as nat,
                );
                final(self)@ == st2 && ures_view(r) == r2
            }),
    {
        self.exec_seq(ast, stmts, 0, EVAL_BUDGET)
    }

    /// Evaluate one expression under the full budget.
    pub fn evaluate(&mut self, ast: &Ast, expr: usize) -> (r: Result<Object, LoxResult>)
        requires
            ast.wf(),
            st_wf(old(self)@, *ast),
            expr < ast.exprs@.len(),
        ensures
            st_wf(final(self)@, *ast),
            ({
                let (st2, r2) = sp_eval(*ast, old(self)@, expr as int, EVAL_BUDGET as nat);
                final(self)@ == st2 && ores_view(r) == r2
            }),
    {
        self.eval(ast, expr, EVAL_BUDGET)
    }
}

/// The arity-mismatch error, reported at the call's closing parenthesis.
fn arity_message(paren: &Token, want: usize, got: usize) -> (r: LoxResult)
    ensures
        r@ == arity_err(paren@, want as nat, got as nat),
{
    let msg = String::from_str("expected ").concat(usize_to_string(want).as_str()).concat(
        " arguments but got ",
    ).concat(usize_to_string(got).as_str());
    LoxResult::RuntimeError { token: paren.clone(), message: msg }
}

} // verus!
