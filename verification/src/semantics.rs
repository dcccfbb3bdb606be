//! The big-step semantics of the language, as spec functions.
//!
//! A ghost interpreter state [`GState`] holds the scope arena, the current
//! scope, the loop-nesting counter, the resolver's distance table, the
//! function arena, the output trace, and the clock reading. The mutually
//! recursive `sp_*` functions map a syntax tree, a state, and an
//! evaluation budget to the next state and an outcome; the executable
//! interpreter is proved to compute exactly these functions.
//!
//! The budget (`fuel`) decreases on every recursive step, which is what
//! lets a semantics of a Turing-complete language be a total function; a
//! program that would run deeper than the budget ends in a budget error.

use vstd::prelude::*;
use crate::ast::Ast;
use crate::environment::{chain_wf, sp_assign, sp_assign_at, sp_get, sp_get_at, GScope};
use crate::error::GLox;
use crate::expr::Expr;
use crate::function::{ids_view, GFun};
use crate::object::{truthy, GObject, Object};
use crate::ops::{dec_digits, sp_binary, sp_unary};
use crate::stmt::Stmt;
use crate::token::{GToken, Token};

verus! {

/// Ghost state of the interpreter.
pub ghost struct GState {
    /// The scope arena; index 0 is the global scope, which persists.
    pub scopes: Seq<GScope>,
    /// The current scope.
    pub env: nat,
    /// How many loops enclose the current point of execution; zero means
    /// `break` is an error.
    pub nesting: nat,
    /// The resolver's table: expression-node identity to lexical distance.
    pub locals: Map<nat, nat>,
    /// The function arena; a function value is an index into it.
    pub funs: Seq<GFun>,
    /// Everything printed so far, in order.
    pub output: Seq<GObject>,
    /// The clock reading served by the built-in clock function.
    pub clock: int,
}

/// A function arena entry is well formed when its closure points into the
/// scope arena and its body into the statement arena.
pub open spec fn fun_wf(f: GFun, nscopes: nat, ast: Ast) -> bool {
    match f {
        GFun::Clock => true,
        GFun::Decl { params, body, closure } => closure < nscopes && (forall|i: int|
            0 <= i < body.len() ==> (#[trigger] body[i]) < ast.stmts@.len()),
    }
}

/// The state invariant: scopes chain backwards from a global scope, the
/// current scope exists, and every function points at existing scopes and
/// statements.
pub open spec fn st_wf(st: GState, ast: Ast) -> bool {
    &&& st.scopes.len() > 0
    &&& st.env < st.scopes.len()
    &&& chain_wf(st.scopes)
    &&& forall|k: int| 0 <= k < st.funs.len() ==> fun_wf(#[trigger] st.funs[k], st.scopes.len(), ast)
}

/// The error that ends a program which runs deeper than the evaluation
/// budget.
pub open spec fn fuel_err() -> GLox {
    GLox::SystemError { message: "evaluation budget exhausted"@ }
}

/// The runtime error for calling a value that is not callable.
pub open spec fn not_callable_err(paren: GToken) -> GLox {
    GLox::RuntimeError { token: paren, message: "can only call functions and classes"@ }
}

/// The runtime error for a call whose argument count differs from the
/// callee's parameter count, reported at the call's closing parenthesis.
pub open spec fn arity_err(paren: GToken, want: nat, got: nat) -> GLox {
    GLox::RuntimeError {
        token: paren,
        message: "expected "@ + dec_digits(want) + " arguments but got "@ + dec_digits(got),
    }
}

/// Ghost view of a list of runtime values.
pub open spec fn objs_view(s: Seq<Object>) -> Seq<GObject> {
    s.map_values(|o: Object| o@)
}

/// What a variable reference denotes: the resolver's distance when one was
/// recorded for this node, the global scope otherwise.
pub open spec fn sp_lookup(st: GState, eid: nat, tok: GToken) -> Result<GObject, GLox> {
    if st.locals.contains_key(eid) {
        sp_get_at(st.scopes, st.env, st.locals[eid], tok.lexeme)
    } else {
        sp_get(st.scopes, 0, tok)
    }
}

/// The parameter scope of a call: parameters bound positionally, in
/// order, so a repeated name keeps its last argument.
pub open spec fn binds_of(params: Seq<Seq<char>>, args: Seq<GObject>) -> Map<Seq<char>, GObject>
    decreases params.len(),
{
    if params.len() == 0 {
        Map::empty()
    } else {
        binds_of(params.drop_last(), args).insert(params.last(), args[params.len() - 1])
    }
}

/// Evaluate the expression at index `e`.
pub open spec fn sp_eval(ast: Ast, st: GState, e: int, fuel: nat) -> (GState, Result<
    GObject,
    GLox,
>)
    decreases fuel, 1int, 0int,
{
    if fuel == 0 || !(0 <= e < ast.exprs@.len()) {
        (st, Err(fuel_err()))
    } else {
        match ast.exprs@[e] {
            Expr::Literal(l) => (
                st,
                Ok(
                    match l.value {
                        Some(o) => o@,
                        None => GObject::Nil,
                    },
                ),
            ),
            Expr::Grouping(g) => sp_eval(ast, st, g.expression as int, (fuel - 1) as nat),
            Expr::Unary(u) => {
                let (st1, r) = sp_eval(ast, st, u.right as int, (fuel - 1) as nat);
                match r {
                    Ok(v) => (st1, sp_unary(u.operator@, v)),
                    Err(er) => (st1, Err(er)),
                }
            },
            Expr::Binary(b) => {
                let (st1, r1) = sp_eval(ast, st, b.left as int, (fuel - 1) as nat);
                match r1 {
                    Err(er) => (st1, Err(er)),
                    Ok(lv) => {
                        let (st2, r2) = sp_eval(ast, st1, b.right as int, (fuel - 1) as nat);
                        match r2 {
                            Err(er) => (st2, Err(er)),
                            Ok(rv) => (st2, sp_binary(b.operator@, lv, rv)),
                        }
                    },
                }
            },
            Expr::Logical(l) => {
                let (st1, r1) = sp_eval(ast, st, l.left as int, (fuel - 1) as nat);
                match r1 {
                    Err(er) => (st1, Err(er)),
                    Ok(lv) => {
                        let decided = if l.operator@.ttype == crate::token::TokenType::Or {
                            truthy(lv)
                        } else {
                            !truthy(lv)
                        };
                        if decided {
                            (st1, Ok(lv))
                        } else {
                            sp_eval(ast, st1, l.right as int, (fuel - 1) as nat)
                        }
                    },
                }
            },
            Expr::Variable(v) => (st, sp_lookup(st, e as nat, v.name@)),
            Expr::Assign(a) => {
                let (st1, r1) = sp_eval(ast, st, a.value as int, (fuel - 1) as nat);
                match r1 {
                    Err(er) => (st1, Err(er)),
                    Ok(v) => if st1.locals.contains_key(e as nat) {
                        let (sc2, r2) = sp_assign_at(
                            st1.scopes,
                            st1.env,
                            st1.locals[e as nat],
                            a.name@,
                            v,
                        );
                        let st2 = GState { scopes: sc2, ..st1 };
                        match r2 {
                            Ok(_) => (st2, Ok(v)),
                            Err(er) => (st2, Err(er)),
                        }
                    } else {
                        let (sc2, r2) = sp_assign(st1.scopes, 0, a.name@, v);
                        let st2 = GState { scopes: sc2, ..st1 };
                        match r2 {
                            Ok(_) => (st2, Ok(v)),
                            Err(er) => (st2, Err(er)),
                        }
                    },
                }
            },
            Expr::Call(c) => {
                let (st1, r1) = sp_eval(ast, st, c.callee as int, (fuel - 1) as nat);
                match r1 {
                    Err(er) => (st1, Err(er)),
                    Ok(callee) => {
                        let (st2, r2) = sp_eval_args(
                            ast,
                            st1,
                            c.arguments@,
                            0,
                            (fuel - 1) as nat,
                        );
                        match r2 {
                            Err(er) => (st2, Err(er)),
                            Ok(args) => match callee {
                                GObject::Func(fid) => sp_call(
                                    ast,
                                    st2,
                                    fid,
                                    args,
                                    c.paren@,
                                    (fuel - 1) as nat,
                                ),
                                _ => (st2, Err(not_callable_err(c.paren@))),
                            },
                        }
                    },
                }
            },
        }
    }
}

/// Evaluate the argument expressions `args[i..]`, left to right.
pub open spec fn sp_eval_args(ast: Ast, st: GState, args: Seq<usize>, i: int, fuel: nat) -> (
    GState,
    Result<Seq<GObject>, GLox>,
)
    decreases fuel, 2int, args.len() - i,
{
    if i < 0 || i >= args.len() {
        (st, Ok(Seq::empty()))
    } else {
        let (st1, r1) = sp_eval(ast, st, args[i] as int, fuel);
        match r1 {
            Err(er) => (st1, Err(er)),
            Ok(v) => {
                let (st2, r2) = sp_eval_args(ast, st1, args, i + 1, fuel);
                match r2 {
                    Err(er) => (st2, Err(er)),
                    Ok(rest) => (st2, Ok(seq![v] + rest)),
                }
            },
        }
    }
}

/// Call a function value with already-evaluated arguments. A fresh scope
/// enclosing the callee's captured closure — not the caller's scope — is
/// pushed, parameters are bound positionally, and the body runs as a
/// block; the `return` signal is consumed here and becomes the call's
/// value, with `nil` for a body that finishes without `return`. The
/// caller's scope is restored on every exit path.
pub open spec fn sp_call(
    ast: Ast,
    st: GState,
    fid: nat,
    args: Seq<GObject>,
    paren: GToken,
    fuel: nat,
) -> (GState, Result<GObject, GLox>)
    decreases fuel, 4int, 0int,
{
    if fid >= st.funs.len() {
        (st, Err(not_callable_err(paren)))
    } else {
        match st.funs[fid as int] {
            GFun::Clock => if args.len() != 0 {
                (st, Err(arity_err(paren, 0, args.len())))
            } else {
                (st, Ok(GObject::Num(st.clock)))
            },
            GFun::Decl { params, body, closure } => if args.len() != params.len() {
                (st, Err(arity_err(paren, params.len(), args.len())))
            } else {
                let sc = GScope { binds: binds_of(params, args), enclosing: Some(closure) };
                let st1 = GState {
                    scopes: st.scopes.push(sc),
                    env: st.scopes.len(),
                    ..st
                };
                let (st2, r) = sp_exec_seq(ast, st1, body, 0, fuel);
                let st3 = GState { env: st.env, ..st2 };
                match r {
                    Ok(_) => (st3, Ok(GObject::Nil)),
                    Err(GLox::ReturnValue { value }) => (st3, Ok(value)),
                    Err(er) => (st3, Err(er)),
                }
            },
        }
    }
}

/// Execute the statement at index `s`.
pub open spec fn sp_exec(ast: Ast, st: GState, s: int, fuel: nat) -> (GState, Result<(), GLox>)
    decreases fuel, 1int, 0int,
{
    if fuel == 0 || !(0 <= s < ast.stmts@.len()) {
        (st, Err(fuel_err()))
    } else {
        match ast.stmts@[s] {
            Stmt::Expression(x) => {
                let (st1, r) = sp_eval(ast, st, x.expression as int, (fuel - 1) as nat);
                match r {
                    Ok(_) => (st1, Ok(())),
                    Err(er) => (st1, Err(er)),
                }
            },
            Stmt::Print(p) => {
                let (st1, r) = sp_eval(ast, st, p.expression as int, (fuel - 1) as nat);
                match r {
                    Ok(v) => (GState { output: st1.output.push(v), ..st1 }, Ok(())),
                    Err(er) => (st1, Err(er)),
                }
            },
            Stmt::Var(v) => {
                let (st1, r) = match v.initializer {
                    Some(init) => sp_eval(ast, st, init as int, (fuel - 1) as nat),
                    None => (st, Ok(GObject::Nil)),
                };
                match r {
                    Err(er) => (st1, Err(er)),
                    Ok(value) => (
                        GState {
                            scopes: st1.scopes.update(
                                st1.env as int,
                                GScope {
                                    binds: st1.scopes[st1.env as int].binds.insert(
                                        v.name@.lexeme,
                                        value,
                                    ),
                                    enclosing: st1.scopes[st1.env as int].enclosing,
                                },
                            ),
                            ..st1
                        },
                        Ok(()),
                    ),
                }
            },
            Stmt::Block(b) => {
                let sc = GScope {
                    binds: Map::<Seq<char>, GObject>::empty(),
                    enclosing: Some(st.env),
                };
                let st1 = GState { scopes: st.scopes.push(sc), env: st.scopes.len(), ..st };
                let (st2, r) = sp_exec_seq(ast, st1, ids_view(b.statements@), 0, (fuel - 1) as nat);
                (GState { env: st.env, ..st2 }, r)
            },
            Stmt::If(f) => {
                let (st1, r) = sp_eval(ast, st, f.condition as int, (fuel - 1) as nat);
                match r {
                    Err(er) => (st1, Err(er)),
                    Ok(v) => if truthy(v) {
                        sp_exec(ast, st1, f.then_branch as int, (fuel - 1) as nat)
                    } else {
                        match f.else_branch {
                            Some(eb) => sp_exec(ast, st1, eb as int, (fuel - 1) as nat),
                            None => (st1, Ok(())),
                        }
                    },
                }
            },
            Stmt::While(w) => {
                if st.nesting >= u64::MAX {
                    (st, Err(fuel_err()))
                } else {
                    let st1 = GState { nesting: st.nesting + 1, ..st };
                    let (st2, r) = sp_while(
                        ast,
                        st1,
                        w.condition as int,
                        w.body as int,
                        (fuel - 1) as nat,
                    );
                    (GState { nesting: st.nesting, ..st2 }, r)
                }
            },
            Stmt::Break(b) => if st.nesting == 0 {
                (
                    st,
                    Err(
                        GLox::RuntimeError {
                            token: b.token@,
                            message: "Can't break outside of loop"@,
                        },
                    ),
                )
            } else {
                (st, Err(GLox::Break))
            },
            Stmt::Return(r) => match r.value {
                Some(veid) => {
                    let (st1, rv) = sp_eval(ast, st, veid as int, (fuel - 1) as nat);
                    match rv {
                        Ok(v) => (st1, Err(GLox::ReturnValue { value: v })),
                        Err(er) => (st1, Err(er)),
                    }
                },
                None => (st, Err(GLox::ReturnValue { value: GObject::Nil })),
            },
            Stmt::Function(f) => {
                let fid = st.funs.len();
                let g = GFun::Decl {
                    params: f.params@.map_values(|t: Token| t@.lexeme),
                    body: ids_view(f.body@),
                    closure: st.env,
                };
                let st1 = GState {
                    funs: st.funs.push(g),
                    scopes: st.scopes.update(
                        st.env as int,
                        GScope {
                            binds: st.scopes[st.env as int].binds.insert(
                                f.name@.lexeme,
                                GObject::Func(fid),
                            ),
                            enclosing: st.scopes[st.env as int].enclosing,
                        },
                    ),
                    ..st
                };
                (st1, Ok(()))
            },
        }
    }
}

/// Execute the statements `list[i..]` in order, stopping at the first
/// error or control signal.
pub open spec fn sp_exec_seq(ast: Ast, st: GState, list: Seq<nat>, i: int, fuel: nat) -> (
    GState,
    Result<(), GLox>,
)
    decreases fuel, 3int, list.len() - i,
{
    if i < 0 || i >= list.len() {
        (st, Ok(()))
    } else {
        let (st1, r) = sp_exec(ast, st, list[i] as int, fuel);
        match r {
            Ok(_) => sp_exec_seq(ast, st1, list, i + 1, fuel),
            Err(er) => (st1, Err(er)),
        }
    }
}

/// One round of a `while` loop: evaluate the condition; when truthy, run
/// the body and go round again. The `break` signal from the body is
/// consumed here and ends the loop normally — only the innermost loop
/// sees it, because a nearer loop would have consumed it first.
pub open spec fn sp_while(ast: Ast, st: GState, cond: int, body: int, fuel: nat) -> (
    GState,
    Result<(), GLox>,
)
    decreases fuel, 1int, 0int,
{
    if fuel == 0 {
        (st, Err(fuel_err()))
    } else {
        let (st1, r) = sp_eval(ast, st, cond, (fuel - 1) as nat);
        match r {
            Err(er) => (st1, Err(er)),
            Ok(v) => if !truthy(v) {
                (st1, Ok(()))
            } else {
                let (st2, r2) = sp_exec(ast, st1, body, (fuel - 1) as nat);
                match r2 {
                    Ok(_) => sp_while(ast, st2, cond, body, (fuel - 1) as nat),
                    Err(GLox::Break) => (st2, Ok(())),
                    Err(er) => (st2, Err(er)),
                }
            },
        }
    }
}

/// Run a top-level statement list: each statement gets the full budget;
/// the first error (or stray control signal) stops the run and is the
/// whole run's failure.
pub open spec fn sp_interpret(ast: Ast, st: GState, list: Seq<nat>, i: int, fuel: nat) -> (
    GState,
    bool,
)
    decreases list.len() - i,
{
    if i < 0 || i >= list.len() {
        (st, false)
    } else {
        let (st1, r) = sp_exec(ast, st, list[i] as int, fuel);
        match r {
            Ok(_) => sp_interpret(ast, st1, list, i + 1, fuel),
            Err(_) => (st1, true),
        }
    }
}

} // verus!
