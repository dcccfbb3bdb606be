//! Laws of the language, stated over the big-step semantics and proved
//! once and for all. Each of these is a property a user can also observe
//! by running programs; here they hold for every program and every state.

use vstd::prelude::*;
use crate::ast::Ast;
use crate::environment::{chain_wf, sp_assign, sp_assign_at, sp_get, sp_get_at, undef_runtime, GScope};
use crate::error::GLox;
use crate::expr::Expr;
use crate::object::{truthy, GObject};
use crate::ops::{in_i64, sp_binary, tdiv};
use crate::function::{ids_view, GFun};
use crate::semantics::{
    binds_of, sp_call, sp_eval, sp_eval_args, sp_exec, sp_exec_seq, sp_interpret, sp_while, st_wf,
    GState,
};
use crate::stmt::Stmt;
use crate::token::{GToken, TokenType};

verus! {

/// Division by zero fails with the division-by-zero runtime error;
/// division of two numbers otherwise yields their quotient truncated
/// toward zero, so `4 / 2` is `2`.
pub proof fn lemma_division(op: GToken, a: int, b: int)
    requires
        op.ttype == TokenType::Slash,
        in_i64(a),
        in_i64(b),
    ensures
        b == 0 ==> sp_binary(op, GObject::Num(a), GObject::Num(b)) == Err::<GObject, GLox>(
            GLox::GenericError { line: op.line, message: "division by zero"@ },
        ),
        b != 0 && in_i64(tdiv(a, b)) ==> sp_binary(op, GObject::Num(a), GObject::Num(b)) == Ok::<
            GObject,
            GLox,
        >(GObject::Num(tdiv(a, b))),
{
}

/// `break` ends exactly the innermost enclosing loop: when a loop's
/// condition holds and its body signals `break`, the loop itself finishes
/// normally in the body's final state — the signal never escapes to an
/// outer loop.
pub proof fn lemma_break_stops_innermost_loop(
    ast: Ast,
    st: GState,
    cond: int,
    body: int,
    fuel: nat,
)
    requires
        fuel > 0,
        ({
            let (st1, r1) = sp_eval(ast, st, cond, (fuel - 1) as nat);
            r1 matches Ok(v) && truthy(v) && sp_exec(ast, st1, body, (fuel - 1) as nat).1 == Err::<
                (),
                GLox,
            >(GLox::Break)
        }),
    ensures
        ({
            let (st1, r1) = sp_eval(ast, st, cond, (fuel - 1) as nat);
            let (st2, r2) = sp_exec(ast, st1, body, (fuel - 1) as nat);
            sp_while(ast, st, cond, body, fuel) == (st2, Ok::<(), GLox>(()))
        }),
{
}

/// `break` outside any loop is a reported runtime error — the
/// loop-nesting counter is zero and the statement fails with the
/// `break`-outside-loop error, leaving the state untouched; it is never
/// the silent `Break` signal.
pub proof fn lemma_break_outside_loop_errs(ast: Ast, st: GState, s: int, fuel: nat)
    requires
        fuel > 0,
        0 <= s < ast.stmts@.len(),
        ast.stmts@[s] matches Stmt::Break(_),
        st.nesting == 0,
    ensures
        ({
            let b = ast.stmts@[s]->Break_0;
            sp_exec(ast, st, s, fuel) == (
                st,
                Err::<(), GLox>(
                    GLox::RuntimeError {
                        token: b.token@,
                        message: "Can't break outside of loop"@,
                    },
                ),
            )
        }),
{
}

/// Re-declaring a name in the same scope overwrites the prior binding and
/// is no error: two `define`s of one name leave the second value, and the
/// rest of the scope is untouched.
pub proof fn lemma_redeclare_overwrites(
    binds: Map<Seq<char>, GObject>,
    n: Seq<char>,
    v1: GObject,
    v2: GObject,
)
    ensures
        binds.insert(n, v1).insert(n, v2) == binds.insert(n, v2),
        binds.insert(n, v1).insert(n, v2)[n] == v2,
{
    assert(binds.insert(n, v1).insert(n, v2) =~= binds.insert(n, v2));
}

/// Whether a name is bound anywhere on the scope chain rising from `at`.
pub open spec fn bound_on_chain(s: Seq<GScope>, at: nat, name: Seq<char>) -> bool
    decreases at,
{
    if at >= s.len() {
        false
    } else if s[at as int].binds.contains_key(name) {
        true
    } else {
        match s[at as int].enclosing {
            Some(j) => j < at && bound_on_chain(s, j, name),
            None => false,
        }
    }
}

/// Assigning to a name that no scope on the chain binds fails with the
/// undefined-variable runtime error naming it, and changes nothing.
pub proof fn lemma_assign_undeclared_errs(s: Seq<GScope>, at: nat, tok: GToken, value: GObject)
    requires
        chain_wf(s),
        at < s.len(),
        !bound_on_chain(s, at, tok.lexeme),
    ensures
        sp_assign(s, at, tok, value) == (s, Err::<(), GLox>(undef_runtime(tok))),
    decreases at,
{
    if !s[at as int].binds.contains_key(tok.lexeme) {
        match s[at as int].enclosing {
            Some(j) => {
                if j < at {
                    lemma_assign_undeclared_errs(s, j, tok, value);
                }
            },
            None => {},
        }
    }
}

/// What every execution step leaves alone: the scope arena only grows and
/// every existing scope keeps its enclosing link — a link, once set at
/// construction, never changes, and no scope a closure could reach is
/// freed.
pub open spec fn scope_links_kept(pre: Seq<GScope>, post: Seq<GScope>) -> bool {
    &&& post.len() >= pre.len()
    &&& forall|i: int| 0 <= i < pre.len() ==> (#[trigger] post[i]).enclosing == pre[i].enclosing
}

/// The execution discipline: evaluation reads the resolver's distance
/// table but never writes it, never moves the clock, only adds functions,
/// and respects the scope arena's structure.
pub open spec fn execution_discipline(pre: GState, post: GState) -> bool {
    &&& post.locals == pre.locals
    &&& post.clock == pre.clock
    &&& post.funs.len() >= pre.funs.len()
    &&& scope_links_kept(pre.scopes, post.scopes)
}

/// The discipline composes across consecutive steps.
pub proof fn lemma_discipline_trans(a: GState, b: GState, c: GState)
    requires
        execution_discipline(a, b),
        execution_discipline(b, c),
    ensures
        execution_discipline(a, c),
{
}

/// Writing through a resolved distance respects the scope structure and
/// the state invariant.
pub proof fn lemma_assign_at_discipline(
    s: Seq<GScope>,
    at: nat,
    d: nat,
    tok: GToken,
    value: GObject,
)
    requires
        chain_wf(s),
        at < s.len(),
    ensures
        scope_links_kept(s, sp_assign_at(s, at, d, tok, value).0),
        sp_assign_at(s, at, d, tok, value).0.len() == s.len(),
        chain_wf(sp_assign_at(s, at, d, tok, value).0),
    decreases d,
{
    if d != 0 {
        match s[at as int].enclosing {
            Some(j) => lemma_assign_at_discipline(s, j, (d - 1) as nat, tok, value),
            None => {},
        }
    }
}

/// The outward-searching assignment respects the scope structure and the
/// state invariant.
pub proof fn lemma_assign_discipline(s: Seq<GScope>, at: nat, tok: GToken, value: GObject)
    requires
        chain_wf(s),
        at < s.len(),
    ensures
        scope_links_kept(s, sp_assign(s, at, tok, value).0),
        sp_assign(s, at, tok, value).0.len() == s.len(),
        chain_wf(sp_assign(s, at, tok, value).0),
    decreases at,
{
    if !s[at as int].binds.contains_key(tok.lexeme) {
        match s[at as int].enclosing {
            Some(j) => {
                if j < at {
                    lemma_assign_discipline(s, j, tok, value);
                }
            },
            None => {},
        }
    }
}

/// Evaluating an expression obeys the execution discipline and preserves
/// the state invariant.
pub proof fn lemma_eval_discipline(ast: Ast, st: GState, e: int, fuel: nat)
    requires
        ast.wf(),
        st_wf(st, ast),
    ensures
        execution_discipline(st, sp_eval(ast, st, e, fuel).0),
        st_wf(sp_eval(ast, st, e, fuel).0, ast),
    decreases fuel, 1int, 0int,
{
    if fuel == 0 || !(0 <= e < ast.exprs@.len()) {
    } else {
        match ast.exprs@[e] {
            Expr::Literal(_) => {},
            Expr::Variable(_) => {},
            Expr::Grouping(g) => lemma_eval_discipline(ast, st, g.expression as int, (fuel - 1) as nat),
            Expr::Unary(u) => lemma_eval_discipline(ast, st, u.right as int, (fuel - 1) as nat),
            Expr::Binary(b) => {
                lemma_eval_discipline(ast, st, b.left as int, (fuel - 1) as nat);
                let (st1, r1) = sp_eval(ast, st, b.left as int, (fuel - 1) as nat);
                lemma_eval_discipline(ast, st1, b.right as int, (fuel - 1) as nat);
                lemma_discipline_trans(st, st1, sp_eval(ast, st1, b.right as int, (fuel - 1) as nat).0);
            },
            Expr::Logical(l) => {
                lemma_eval_discipline(ast, st, l.left as int, (fuel - 1) as nat);
                let (st1, r1) = sp_eval(ast, st, l.left as int, (fuel - 1) as nat);
                lemma_eval_discipline(ast, st1, l.right as int, (fuel - 1) as nat);
                lemma_discipline_trans(st, st1, sp_eval(ast, st1, l.right as int, (fuel - 1) as nat).0);
            },
            Expr::Assign(a) => {
                lemma_eval_discipline(ast, st, a.value as int, (fuel - 1) as nat);
                let (st1, r1) = sp_eval(ast, st, a.value as int, (fuel - 1) as nat);
                match r1 {
                    Err(_) => {},
                    Ok(v) => {
                        if st1.locals.contains_key(e as nat) {
                            lemma_assign_at_discipline(
                                st1.scopes,
                                st1.env,
                                st1.locals[e as nat],
                                a.name@,
                                v,
                            );
                        } else {
                            lemma_assign_discipline(st1.scopes, 0, a.name@, v);
                        }
                        let st2 = GState {
                            scopes: if st1.locals.contains_key(e as nat) {
                                sp_assign_at(st1.scopes, st1.env, st1.locals[e as nat], a.name@, v).0
                            } else {
                                sp_assign(st1.scopes, 0, a.name@, v).0
                            },
                            ..st1
                        };
                        lemma_discipline_trans(st, st1, st2);
                    },
                }
            },
            Expr::Call(c) => {
                lemma_eval_discipline(ast, st, c.callee as int, (fuel - 1) as nat);
                let (st1, r1) = sp_eval(ast, st, c.callee as int, (fuel - 1) as nat);
                match r1 {
                    Err(_) => {},
                    Ok(callee) => {
                        lemma_eval_args_discipline(ast, st1, c.arguments@, 0, (fuel - 1) as nat);
                        let (st2, r2) = sp_eval_args(ast, st1, c.arguments@, 0, (fuel - 1) as nat);
                        lemma_discipline_trans(st, st1, st2);
                        match r2 {
                            Err(_) => {},
                            Ok(args) => match callee {
                                GObject::Func(fid) => {
                                    lemma_call_discipline(ast, st2, fid, args, c.paren@, (fuel - 1) as nat);
                                    lemma_discipline_trans(
                                        st,
                                        st2,
                                        sp_call(ast, st2, fid, args, c.paren@, (fuel - 1) as nat).0,
                                    );
                                },
                                _ => {},
                            },
                        }
                    },
                }
            },
        }
    }
}

/// Evaluating an argument list obeys the execution discipline and
/// preserves the state invariant.
pub proof fn lemma_eval_args_discipline(ast: Ast, st: GState, args: Seq<usize>, i: int, fuel: nat)
    requires
        ast.wf(),
        st_wf(st, ast),
    ensures
        execution_discipline(st, sp_eval_args(ast, st, args, i, fuel).0),
        st_wf(sp_eval_args(ast, st, args, i, fuel).0, ast),
    decreases fuel, 2int, args.len() - i,
{
    if i < 0 || i >= args.len() {
    } else {
        lemma_eval_discipline(ast, st, args[i] as int, fuel);
        let (st1, r1) = sp_eval(ast, st, args[i] as int, fuel);
        match r1 {
            Err(_) => {},
            Ok(_) => {
                lemma_eval_args_discipline(ast, st1, args, i + 1, fuel);
                lemma_discipline_trans(st, st1, sp_eval_args(ast, st1, args, i + 1, fuel).0);
            },
        }
    }
}

/// Calling a function obeys the execution discipline and preserves the
/// state invariant.
pub proof fn lemma_call_discipline(
    ast: Ast,
    st: GState,
    fid: nat,
    args: Seq<GObject>,
    paren: GToken,
    fuel: nat,
)
    requires
        ast.wf(),
        st_wf(st, ast),
    ensures
        execution_discipline(st, sp_call(ast, st, fid, args, paren, fuel).0),
        st_wf(sp_call(ast, st, fid, args, paren, fuel).0, ast),
    decreases fuel, 4int, 0int,
{
    if fid < st.funs.len() {
        match st.funs[fid as int] {
            GFun::Clock => {},
            GFun::Decl { params, body, closure } => {
                if args.len() == params.len() {
                    let sc = GScope { binds: binds_of(params, args), enclosing: Some(closure) };
                    let st1 = GState { scopes: st.scopes.push(sc), env: st.scopes.len(), ..st };
                    assert(execution_discipline(st, st1));
                    assert(st_wf(st1, ast));
                    lemma_exec_seq_discipline(ast, st1, body, 0, fuel);
                    let (st2, r) = sp_exec_seq(ast, st1, body, 0, fuel);
                    lemma_discipline_trans(st, st1, st2);
                }
            },
        }
    }
}

/// Executing a statement obeys the execution discipline and preserves the
/// state invariant.
pub proof fn lemma_exec_discipline(ast: Ast, st: GState, s: int, fuel: nat)
    requires
        ast.wf(),
        st_wf(st, ast),
    ensures
        execution_discipline(st, sp_exec(ast, st, s, fuel).0),
        st_wf(sp_exec(ast, st, s, fuel).0, ast),
    decreases fuel, 1int, 0int,
{
    if fuel == 0 || !(0 <= s < ast.stmts@.len()) {
    } else {
        match ast.stmts@[s] {
            Stmt::Expression(x) => lemma_eval_discipline(ast, st, x.expression as int, (fuel - 1) as nat),
            Stmt::Print(p) => lemma_eval_discipline(ast, st, p.expression as int, (fuel - 1) as nat),
            Stmt::Break(_) => {},
            Stmt::Return(r) => match r.value {
                Some(v) => lemma_eval_discipline(ast, st, v as int, (fuel - 1) as nat),
                None => {},
            },
            Stmt::Var(v) => {
                let (st1, r1) = match v.initializer {
                    Some(init) => sp_eval(ast, st, init as int, (fuel - 1) as nat),
                    None => (st, Ok::<GObject, crate::error::GLox>(GObject::Nil)),
                };
                match v.initializer {
                    Some(init) => lemma_eval_discipline(ast, st, init as int, (fuel - 1) as nat),
                    None => {},
                }
                match r1 {
                    Err(_) => {},
                    Ok(value) => {
                        let upd = st1.scopes.update(
                            st1.env as int,
                            GScope {
                                binds: st1.scopes[st1.env as int].binds.insert(v.name@.lexeme, value),
                                enclosing: st1.scopes[st1.env as int].enclosing,
                            },
                        );
                        assert(scope_links_kept(st1.scopes, upd));
                        lemma_discipline_trans(st, st1, GState { scopes: upd, ..st1 });
                    },
                }
            },
            Stmt::If(f) => {
                lemma_eval_discipline(ast, st, f.condition as int, (fuel - 1) as nat);
                let (st1, r1) = sp_eval(ast, st, f.condition as int, (fuel - 1) as nat);
                match r1 {
                    Err(_) => {},
                    Ok(v) => {
                        if truthy(v) {
                            lemma_exec_discipline(ast, st1, f.then_branch as int, (fuel - 1) as nat);
                            lemma_discipline_trans(
                                st,
                                st1,
                                sp_exec(ast, st1, f.then_branch as int, (fuel - 1) as nat).0,
                            );
                        } else {
                            match f.else_branch {
                                Some(eb) => {
                                    lemma_exec_discipline(ast, st1, eb as int, (fuel - 1) as nat);
                                    lemma_discipline_trans(
                                        st,
                                        st1,
                                        sp_exec(ast, st1, eb as int, (fuel - 1) as nat).0,
                                    );
                                },
                                None => {},
                            }
                        }
                    },
                }
            },
            Stmt::While(w) => {
                if st.nesting < u64::MAX {
                    let st1 = GState { nesting: st.nesting + 1, ..st };
                    lemma_while_discipline(ast, st1, w.condition as int, w.body as int, (fuel - 1) as nat);
                }
            },
            Stmt::Block(b) => {
                let sc = GScope {
                    binds: Map::<Seq<char>, GObject>::empty(),
                    enclosing: Some(st.env),
                };
                let st1 = GState { scopes: st.scopes.push(sc), env: st.scopes.len(), ..st };
                assert(execution_discipline(st, st1));
                assert(st_wf(st1, ast));
                lemma_exec_seq_discipline(
                    ast,
                    st1,
                    ids_view(b.statements@),
                    0,
                    (fuel - 1) as nat,
                );
                lemma_discipline_trans(
                    st,
                    st1,
                    sp_exec_seq(ast, st1, ids_view(b.statements@), 0, (fuel - 1) as nat).0,
                );
            },
            Stmt::Function(f) => {
                let fid = st.funs.len();
                let g = GFun::Decl {
                    params: f.params@.map_values(|t: crate::token::Token| t@.lexeme),
                    body: ids_view(f.body@),
                    closure: st.env,
                };
                let upd = st.scopes.update(
                    st.env as int,
                    GScope {
                        binds: st.scopes[st.env as int].binds.insert(
                            f.name@.lexeme,
                            GObject::Func(fid),
                        ),
                        enclosing: st.scopes[st.env as int].enclosing,
                    },
                );
                assert(scope_links_kept(st.scopes, upd));
                assert(crate::ast::stmt_node_wf(ast.stmts@[s], s, ast.exprs@.len() as int));
                assert forall|k: int| 0 <= k < ids_view(f.body@).len() implies (#[trigger] ids_view(
                    f.body@,
                )[k]) < ast.stmts@.len() by {
                    assert(ids_view(f.body@)[k] == f.body@[k] as nat);
                }
            },
        }
    }
}

/// Executing a statement list obeys the execution discipline and
/// preserves the state invariant.
pub proof fn lemma_exec_seq_discipline(ast: Ast, st: GState, list: Seq<nat>, i: int, fuel: nat)
    requires
        ast.wf(),
        st_wf(st, ast),
    ensures
        execution_discipline(st, sp_exec_seq(ast, st, list, i, fuel).0),
        st_wf(sp_exec_seq(ast, st, list, i, fuel).0, ast),
    decreases fuel, 3int, list.len() - i,
{
    if i < 0 || i >= list.len() {
    } else {
        lemma_exec_discipline(ast, st, list[i] as int, fuel);
        let (st1, r1) = sp_exec(ast, st, list[i] as int, fuel);
        match r1 {
            Err(_) => {},
            Ok(_) => {
                lemma_exec_seq_discipline(ast, st1, list, i + 1, fuel);
                lemma_discipline_trans(st, st1, sp_exec_seq(ast, st1, list, i + 1, fuel).0);
            },
        }
    }
}

/// A loop obeys the execution discipline and preserves the state
/// invariant.
pub proof fn lemma_while_discipline(ast: Ast, st: GState, cond: int, body: int, fuel: nat)
    requires
        ast.wf(),
        st_wf(st, ast),
    ensures
        execution_discipline(st, sp_while(ast, st, cond, body, fuel).0),
        st_wf(sp_while(ast, st, cond, body, fuel).0, ast),
    decreases fuel, 1int, 0int,
{
    if fuel == 0 {
    } else {
        lemma_eval_discipline(ast, st, cond, (fuel - 1) as nat);
        let (st1, r1) = sp_eval(ast, st, cond, (fuel - 1) as nat);
        match r1 {
            Err(_) => {},
            Ok(v) => {
                if truthy(v) {
                    lemma_exec_discipline(ast, st1, body, (fuel - 1) as nat);
                    let (st2, r2) = sp_exec(ast, st1, body, (fuel - 1) as nat);
                    lemma_discipline_trans(st, st1, st2);
                    match r2 {
                        Ok(_) => {
                            lemma_while_discipline(ast, st2, cond, body, (fuel - 1) as nat);
                            lemma_discipline_trans(
                                st,
                                st2,
                                sp_while(ast, st2, cond, body, (fuel - 1) as nat).0,
                            );
                        },
                        Err(_) => {},
                    }
                }
            },
        }
    }
}

/// A whole run obeys the execution discipline: in particular the
/// resolver's table, populated before execution, is read-only while the
/// program runs, the clock reading is stable, and the global scope
/// persists with its bindings reachable.
pub proof fn lemma_interpret_discipline(ast: Ast, st: GState, list: Seq<nat>, i: int, fuel: nat)
    requires
        ast.wf(),
        st_wf(st, ast),
    ensures
        execution_discipline(st, sp_interpret(ast, st, list, i, fuel).0),
        st_wf(sp_interpret(ast, st, list, i, fuel).0, ast),
    decreases list.len() - i,
{
    if i < 0 || i >= list.len() {
    } else {
        lemma_exec_discipline(ast, st, list[i] as int, fuel);
        let (st1, r1) = sp_exec(ast, st, list[i] as int, fuel);
        match r1 {
            Ok(_) => {
                lemma_interpret_discipline(ast, st1, list, i + 1, fuel);
                lemma_discipline_trans(st, st1, sp_interpret(ast, st1, list, i + 1, fuel).0);
            },
            Err(_) => {},
        }
    }
}

/// The distance from `at` to the nearest scope on the chain that binds a
/// name: what a correct resolver records for a reference evaluated at
/// `at`.
pub open spec fn chain_dist(s: Seq<GScope>, at: nat, name: Seq<char>) -> Option<nat>
    decreases at,
{
    if at >= s.len() {
        None
    } else if s[at as int].binds.contains_key(name) {
        Some(0)
    } else {
        match s[at as int].enclosing {
            Some(j) => if j < at {
                match chain_dist(s, j, name) {
                    Some(d) => Some(d + 1),
                    None => None,
                }
            } else {
                None
            },
            None => None,
        }
    }
}

/// Round trip of resolution: reading a reference through its resolved
/// distance returns exactly what the outward name search returns, value
/// and error alike, whenever the recorded distance is the distance to the
/// nearest binding — which is what the resolver records when no
/// shadowing separates the static and the dynamic chain.
pub proof fn lemma_resolved_matches_fallback(s: Seq<GScope>, at: nat, d: nat, tok: GToken)
    requires
        chain_wf(s),
        at < s.len(),
        chain_dist(s, at, tok.lexeme) == Some(d),
    ensures
        sp_get_at(s, at, d, tok.lexeme) == sp_get(s, at, tok),
    decreases at,
{
    if s[at as int].binds.contains_key(tok.lexeme) {
    } else {
        match s[at as int].enclosing {
            Some(j) => {
                if j < at {
                    lemma_resolved_matches_fallback(s, j, (d - 1) as nat, tok);
                }
            },
            None => {},
        }
    }
}

} // verus!
