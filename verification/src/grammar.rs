//! The grammar, as spec functions.
//!
//! The `pp_*` functions are a functional mirror of the recursive-descent
//! parse: given the token list, a cursor, and the node views built so
//! far, each one says exactly where the cursor ends, which nodes are
//! appended, which node (or parse error) comes back, and — at the
//! statement level — which errors are recorded by recovery. The
//! executable parser is proved to compute these functions, so the
//! precedence ladder, the left- and right-associativity of each level,
//! the `for` desugaring, greedy `else`-binding, the per-token behaviour
//! of `primary`, the synchronisation boundary, and the recovery
//! bookkeeping are all pinned by contract.
//!
//! Cursor-progress guards (`if sub.cur > cur`) make the definitions total
//! for the termination checker; the executable parser always takes the
//! progressing branch, which its progress postconditions prove.

use vstd::prelude::*;
use crate::ast::{GExpr, GStmt};
use crate::error::GLox;
use crate::object::GObject;
use crate::token::{GToken, Token, TokenType};

verus! {

/// The kind of the token under the cursor; out of range counts as the
/// end of input, which the parser's invariant keeps unreachable.
pub open spec fn peek_tt(toks: Seq<Token>, cur: int) -> TokenType {
    if 0 <= cur < toks.len() {
        toks[cur].ttype
    } else {
        TokenType::Eof
    }
}

/// Whether the cursor stands on a token of this kind (never at the end
/// of input).
pub open spec fn pcheck(toks: Seq<Token>, cur: int, tt: TokenType) -> bool {
    peek_tt(toks, cur) != TokenType::Eof && peek_tt(toks, cur) == tt
}

/// The view of the token under the cursor.
pub open spec fn peek_tok(toks: Seq<Token>, cur: int) -> GToken {
    toks[if 0 <= cur < toks.len() {
        cur
    } else {
        0
    }]@
}

/// A parse error at the token under the cursor.
pub open spec fn perr(toks: Seq<Token>, cur: int, msg: Seq<char>) -> GLox {
    GLox::ParseError { token: peek_tok(toks, cur), message: msg }
}

/// Outcome of parsing one expression: final cursor, the node views of
/// both arenas, and the node index or the parse error.
pub ghost struct PExpr {
    pub cur: int,
    pub exprs: Seq<GExpr>,
    pub stmts: Seq<GStmt>,
    pub node: Result<usize, GLox>,
}

/// Outcome of parsing an argument list.
pub ghost struct PArgs {
    pub cur: int,
    pub exprs: Seq<GExpr>,
    pub stmts: Seq<GStmt>,
    pub args: Result<Seq<usize>, GLox>,
}

/// Outcome of parsing one statement; `errs` are the errors recovery
/// recorded inside it (in nested blocks).
pub ghost struct PStmt {
    pub cur: int,
    pub exprs: Seq<GExpr>,
    pub stmts: Seq<GStmt>,
    pub errs: Seq<GLox>,
    pub node: Result<usize, GLox>,
}

/// Outcome of parsing the statements of a block, before its `}`.
pub ghost struct PItems {
    pub cur: int,
    pub exprs: Seq<GExpr>,
    pub stmts: Seq<GStmt>,
    pub errs: Seq<GLox>,
    pub ids: Seq<usize>,
}

/// Outcome of parsing a whole block.
pub ghost struct PList {
    pub cur: int,
    pub exprs: Seq<GExpr>,
    pub stmts: Seq<GStmt>,
    pub errs: Seq<GLox>,
    pub list: Result<Seq<usize>, GLox>,
}

/// Outcome of one declaration with recovery: the statement index when it
/// parsed, nothing when it was abandoned, and the errors recorded.
pub ghost struct PDecl {
    pub cur: int,
    pub exprs: Seq<GExpr>,
    pub stmts: Seq<GStmt>,
    pub errs: Seq<GLox>,
    pub node: Option<usize>,
}

/// Outcome of parsing a whole program.
pub ghost struct PProg {
    pub cur: int,
    pub exprs: Seq<GExpr>,
    pub stmts: Seq<GStmt>,
    pub errs: Seq<GLox>,
    pub roots: Seq<usize>,
}

/// Outcome of the parameter-list tail.
pub ghost struct PParams {
    pub cur: int,
    pub params: Result<Seq<GToken>, GLox>,
}

/// Literals, grouping, and identifiers; anything else is the
/// expect-expression error with the cursor unmoved.
#[verifier::opaque]
pub open spec fn pp_primary(toks: Seq<Token>, cur: int, exprs: Seq<GExpr>, stmts: Seq<GStmt>) -> PExpr
    decreases toks.len() - cur, 1int,
{
    if pcheck(toks, cur, TokenType::False) {
        PExpr {
            cur: cur + 1,
            exprs: exprs.push(GExpr::Literal { value: Some(GObject::Bool(false)) }),
            stmts,
            node: Ok(exprs.len() as usize),
        }
    } else if pcheck(toks, cur, TokenType::True) {
        PExpr {
            cur: cur + 1,
            exprs: exprs.push(GExpr::Literal { value: Some(GObject::Bool(true)) }),
            stmts,
            node: Ok(exprs.len() as usize),
        }
    } else if pcheck(toks, cur, TokenType::Nil) {
        PExpr {
            cur: cur + 1,
            exprs: exprs.push(GExpr::Literal { value: Some(GObject::Nil) }),
            stmts,
            node: Ok(exprs.len() as usize),
        }
    } else if pcheck(toks, cur, TokenType::Number) || pcheck(toks, cur, TokenType::Str) {
        PExpr {
            cur: cur + 1,
            exprs: exprs.push(GExpr::Literal { value: peek_tok(toks, cur).literal }),
            stmts,
            node: Ok(exprs.len() as usize),
        }
    } else if pcheck(toks, cur, TokenType::LeftParen) {
        let r = pp_expression(toks, cur + 1, exprs, stmts);
        match r.node {
            Err(e) => PExpr { cur: r.cur, exprs: r.exprs, stmts: r.stmts, node: Err(e) },
            Ok(inner) => if pcheck(toks, r.cur, TokenType::RightParen) {
                PExpr {
                    cur: r.cur + 1,
                    exprs: r.exprs.push(GExpr::Grouping { expression: inner }),
                    stmts: r.stmts,
                    node: Ok(r.exprs.len() as usize),
                }
            } else {
                PExpr {
                    cur: r.cur,
                    exprs: r.exprs,
                    stmts: r.stmts,
                    node: Err(perr(toks, r.cur, "Expect ')' after expression."@)),
                }
            },
        }
    } else if pcheck(toks, cur, TokenType::Identifier) {
        PExpr {
            cur: cur + 1,
            exprs: exprs.push(GExpr::Variable { name: peek_tok(toks, cur) }),
            stmts,
            node: Ok(exprs.len() as usize),
        }
    } else {
        PExpr { cur, exprs, stmts, node: Err(perr(toks, cur, "Expect expression."@)) }
    }
}

/// A primary followed by any number of argument lists, left-associative.
#[verifier::opaque]
pub open spec fn pp_call(toks: Seq<Token>, cur: int, exprs: Seq<GExpr>, stmts: Seq<GStmt>) -> PExpr
    decreases toks.len() - cur, 3int,
{
    let p = pp_primary(toks, cur, exprs, stmts);
    match p.node {
        Err(e) => p,
        Ok(callee) => if p.cur > cur && p.cur <= toks.len() {
            pp_call_rest(toks, p.cur, p.exprs, p.stmts, callee)
        } else {
            p
        },
    }
}

/// The chain of calls after a callee.
#[verifier::opaque]
pub open spec fn pp_call_rest(
    toks: Seq<Token>,
    cur: int,
    exprs: Seq<GExpr>,
    stmts: Seq<GStmt>,
    callee: usize,
) -> PExpr
    decreases toks.len() - cur, 4int,
{
    if pcheck(toks, cur, TokenType::LeftParen) {
        let f = pp_finish_call(toks, cur + 1, exprs, stmts, callee);
        match f.node {
            Err(e) => f,
            Ok(id) => if f.cur > cur && f.cur <= toks.len() {
                pp_call_rest(toks, f.cur, f.exprs, f.stmts, id)
            } else {
                f
            },
        }
    } else {
        PExpr { cur, exprs, stmts, node: Ok(callee) }
    }
}

/// The argument list and closing parenthesis of a call whose `(` has
/// just been consumed; the call node carries the `)` token.
#[verifier::opaque]
pub open spec fn pp_finish_call(
    toks: Seq<Token>,
    cur: int,
    exprs: Seq<GExpr>,
    stmts: Seq<GStmt>,
    callee: usize,
) -> PExpr
    decreases toks.len() - cur, 20int,
{
    let a = if !pcheck(toks, cur, TokenType::RightParen) {
        let e1 = pp_expression(toks, cur, exprs, stmts);
        match e1.node {
            Err(e) => PArgs { cur: e1.cur, exprs: e1.exprs, stmts: e1.stmts, args: Err(e) },
            Ok(x) => if e1.cur > cur && e1.cur <= toks.len() {
                pp_args_rest(toks, e1.cur, e1.exprs, e1.stmts, seq![x])
            } else {
                PArgs { cur: e1.cur, exprs: e1.exprs, stmts: e1.stmts, args: Ok(seq![x]) }
            },
        }
    } else {
        PArgs { cur, exprs, stmts, args: Ok(Seq::empty()) }
    };
    match a.args {
        Err(e) => PExpr { cur: a.cur, exprs: a.exprs, stmts: a.stmts, node: Err(e) },
        Ok(args) => if pcheck(toks, a.cur, TokenType::RightParen) {
            PExpr {
                cur: a.cur + 1,
                exprs: a.exprs.push(
                    GExpr::Call { callee, paren: peek_tok(toks, a.cur), arguments: args },
                ),
                stmts: a.stmts,
                node: Ok(a.exprs.len() as usize),
            }
        } else {
            PExpr {
                cur: a.cur,
                exprs: a.exprs,
                stmts: a.stmts,
                node: Err(perr(toks, a.cur, "Expect ')' after arguments."@)),
            }
        },
    }
}

/// The comma-separated arguments after the first one.
#[verifier::opaque]
pub open spec fn pp_args_rest(
    toks: Seq<Token>,
    cur: int,
    exprs: Seq<GExpr>,
    stmts: Seq<GStmt>,
    acc: Seq<usize>,
) -> PArgs
    decreases toks.len() - cur, 21int,
{
    if pcheck(toks, cur, TokenType::Comma) {
        let e1 = pp_expression(toks, cur + 1, exprs, stmts);
        match e1.node {
            Err(e) => PArgs { cur: e1.cur, exprs: e1.exprs, stmts: e1.stmts, args: Err(e) },
            Ok(x) => if e1.cur > cur && e1.cur <= toks.len() {
                pp_args_rest(toks, e1.cur, e1.exprs, e1.stmts, acc.push(x))
            } else {
                PArgs { cur: e1.cur, exprs: e1.exprs, stmts: e1.stmts, args: Ok(acc.push(x)) }
            },
        }
    } else {
        PArgs { cur, exprs, stmts, args: Ok(acc) }
    }
}

/// `!` and unary `-`, right-nested.
#[verifier::opaque]
pub open spec fn pp_unary(toks: Seq<Token>, cur: int, exprs: Seq<GExpr>, stmts: Seq<GStmt>) -> PExpr
    decreases toks.len() - cur, 5int,
{
    if pcheck(toks, cur, TokenType::Bang) || pcheck(toks, cur, TokenType::Minus) {
        let r = pp_unary(toks, cur + 1, exprs, stmts);
        match r.node {
            Err(e) => r,
            Ok(right) => PExpr {
                cur: r.cur,
                exprs: r.exprs.push(GExpr::Unary { operator: peek_tok(toks, cur), right }),
                stmts: r.stmts,
                node: Ok(r.exprs.len() as usize),
            },
        }
    } else {
        pp_call(toks, cur, exprs, stmts)
    }
}

/// `*` and `/`, folding left-associatively over unary.
#[verifier::opaque]
pub open spec fn pp_factor(toks: Seq<Token>, cur: int, exprs: Seq<GExpr>, stmts: Seq<GStmt>) -> PExpr
    decreases toks.len() - cur, 6int,
{
    let p = pp_unary(toks, cur, exprs, stmts);
    match p.node {
        Err(e) => p,
        Ok(left) => if p.cur > cur && p.cur <= toks.len() {
            pp_factor_rest(toks, p.cur, p.exprs, p.stmts, left)
        } else {
            p
        },
    }
}

/// The `* /` tail: each step wraps the accumulated left operand.
#[verifier::opaque]
pub open spec fn pp_factor_rest(
    toks: Seq<Token>,
    cur: int,
    exprs: Seq<GExpr>,
    stmts: Seq<GStmt>,
    left: usize,
) -> PExpr
    decreases toks.len() - cur, 7int,
{
    if pcheck(toks, cur, TokenType::Slash) || pcheck(toks, cur, TokenType::Star) {
        let r = pp_unary(toks, cur + 1, exprs, stmts);
        match r.node {
            Err(e) => r,
            Ok(right) => {
                let ex2 = r.exprs.push(
                    GExpr::Binary { left, operator: peek_tok(toks, cur), right },
                );
                let id = r.exprs.len() as usize;
                if r.cur > cur && r.cur <= toks.len() {
                    pp_factor_rest(toks, r.cur, ex2, r.stmts, id)
                } else {
                    PExpr { cur: r.cur, exprs: ex2, stmts: r.stmts, node: Ok(id) }
                }
            },
        }
    } else {
        PExpr { cur, exprs, stmts, node: Ok(left) }
    }
}

/// `+` and `-`, folding left-associatively over factor.
#[verifier::opaque]
pub open spec fn pp_term(toks: Seq<Token>, cur: int, exprs: Seq<GExpr>, stmts: Seq<GStmt>) -> PExpr
    decreases toks.len() - cur, 8int,
{
    let p = pp_factor(toks, cur, exprs, stmts);
    match p.node {
        Err(e) => p,
        Ok(left) => if p.cur > cur && p.cur <= toks.len() {
            pp_term_rest(toks, p.cur, p.exprs, p.stmts, left)
        } else {
            p
        },
    }
}

/// The `+ -` tail.
#[verifier::opaque]
pub open spec fn pp_term_rest(
    toks: Seq<Token>,
    cur: int,
    exprs: Seq<GExpr>,
    stmts: Seq<GStmt>,
    left: usize,
) -> PExpr
    decreases toks.len() - cur, 9int,
{
    if pcheck(toks, cur, TokenType::Minus) || pcheck(toks, cur, TokenType::Plus) {
        let r = pp_factor(toks, cur + 1, exprs, stmts);
        match r.node {
            Err(e) => r,
            Ok(right) => {
                let ex2 = r.exprs.push(
                    GExpr::Binary { left, operator: peek_tok(toks, cur), right },
                );
                let id = r.exprs.len() as usize;
                if r.cur > cur && r.cur <= toks.len() {
                    pp_term_rest(toks, r.cur, ex2, r.stmts, id)
                } else {
                    PExpr { cur: r.cur, exprs: ex2, stmts: r.stmts, node: Ok(id) }
                }
            },
        }
    } else {
        PExpr { cur, exprs, stmts, node: Ok(left) }
    }
}

/// `> >= < <=`, folding left-associatively over term.
#[verifier::opaque]
pub open spec fn pp_comparison(toks: Seq<Token>, cur: int, exprs: Seq<GExpr>, stmts: Seq<GStmt>) -> PExpr
    decreases toks.len() - cur, 10int,
{
    let p = pp_term(toks, cur, exprs, stmts);
    match p.node {
        Err(e) => p,
        Ok(left) => if p.cur > cur && p.cur <= toks.len() {
            pp_comparison_rest(toks, p.cur, p.exprs, p.stmts, left)
        } else {
            p
        },
    }
}

/// Whether the cursor stands on a comparison operator.
pub open spec fn at_comparison_op(toks: Seq<Token>, cur: int) -> bool {
    pcheck(toks, cur, TokenType::Greater) || pcheck(toks, cur, TokenType::GreaterEqual) || pcheck(
        toks,
        cur,
        TokenType::Less,
    ) || pcheck(toks, cur, TokenType::LessEqual)
}

/// The comparison tail.
#[verifier::opaque]
pub open spec fn pp_comparison_rest(
    toks: Seq<Token>,
    cur: int,
    exprs: Seq<GExpr>,
    stmts: Seq<GStmt>,
    left: usize,
) -> PExpr
    decreases toks.len() - cur, 11int,
{
    if at_comparison_op(toks, cur) {
        let r = pp_term(toks, cur + 1, exprs, stmts);
        match r.node {
            Err(e) => r,
            Ok(right) => {
                let ex2 = r.exprs.push(
                    GExpr::Binary { left, operator: peek_tok(toks, cur), right },
                );
                let id = r.exprs.len() as usize;
                if r.cur > cur && r.cur <= toks.len() {
                    pp_comparison_rest(toks, r.cur, ex2, r.stmts, id)
                } else {
                    PExpr { cur: r.cur, exprs: ex2, stmts: r.stmts, node: Ok(id) }
                }
            },
        }
    } else {
        PExpr { cur, exprs, stmts, node: Ok(left) }
    }
}

/// `==` and `!=`, folding left-associatively over comparison.
#[verifier::opaque]
pub open spec fn pp_equality(toks: Seq<Token>, cur: int, exprs: Seq<GExpr>, stmts: Seq<GStmt>) -> PExpr
    decreases toks.len() - cur, 12int,
{
    let p = pp_comparison(toks, cur, exprs, stmts);
    match p.node {
        Err(e) => p,
        Ok(left) => if p.cur > cur && p.cur <= toks.len() {
            pp_equality_rest(toks, p.cur, p.exprs, p.stmts, left)
        } else {
            p
        },
    }
}

/// The equality tail.
#[verifier::opaque]
pub open spec fn pp_equality_rest(
    toks: Seq<Token>,
    cur: int,
    exprs: Seq<GExpr>,
    stmts: Seq<GStmt>,
    left: usize,
) -> PExpr
    decreases toks.len() - cur, 13int,
{
    if pcheck(toks, cur, TokenType::BangEqual) || pcheck(toks, cur, TokenType::EqualEqual) {
        let r = pp_comparison(toks, cur + 1, exprs, stmts);
        match r.node {
            Err(e) => r,
            Ok(right) => {
                let ex2 = r.exprs.push(
                    GExpr::Binary { left, operator: peek_tok(toks, cur), right },
                );
                let id = r.exprs.len() as usize;
                if r.cur > cur && r.cur <= toks.len() {
                    pp_equality_rest(toks, r.cur, ex2, r.stmts, id)
                } else {
                    PExpr { cur: r.cur, exprs: ex2, stmts: r.stmts, node: Ok(id) }
                }
            },
        }
    } else {
        PExpr { cur, exprs, stmts, node: Ok(left) }
    }
}

/// Short-circuiting `and`, folding left-associatively over equality.
#[verifier::opaque]
pub open spec fn pp_and(toks: Seq<Token>, cur: int, exprs: Seq<GExpr>, stmts: Seq<GStmt>) -> PExpr
    decreases toks.len() - cur, 14int,
{
    let p = pp_equality(toks, cur, exprs, stmts);
    match p.node {
        Err(e) => p,
        Ok(left) => if p.cur > cur && p.cur <= toks.len() {
            pp_and_rest(toks, p.cur, p.exprs, p.stmts, left)
        } else {
            p
        },
    }
}

/// The `and` tail.
#[verifier::opaque]
pub open spec fn pp_and_rest(
    toks: Seq<Token>,
    cur: int,
    exprs: Seq<GExpr>,
    stmts: Seq<GStmt>,
    left: usize,
) -> PExpr
    decreases toks.len() - cur, 15int,
{
    if pcheck(toks, cur, TokenType::And) {
        let r = pp_equality(toks, cur + 1, exprs, stmts);
        match r.node {
            Err(e) => r,
            Ok(right) => {
                let ex2 = r.exprs.push(
                    GExpr::Logical { left, operator: peek_tok(toks, cur), right },
                );
                let id = r.exprs.len() as usize;
                if r.cur > cur && r.cur <= toks.len() {
                    pp_and_rest(toks, r.cur, ex2, r.stmts, id)
                } else {
                    PExpr { cur: r.cur, exprs: ex2, stmts: r.stmts, node: Ok(id) }
                }
            },
        }
    } else {
        PExpr { cur, exprs, stmts, node: Ok(left) }
    }
}

/// Short-circuiting `or`, folding left-associatively over `and`.
#[verifier::opaque]
pub open spec fn pp_or(toks: Seq<Token>, cur: int, exprs: Seq<GExpr>, stmts: Seq<GStmt>) -> PExpr
    decreases toks.len() - cur, 16int,
{
    let p = pp_and(toks, cur, exprs, stmts);
    match p.node {
        Err(e) => p,
        Ok(left) => if p.cur > cur && p.cur <= toks.len() {
            pp_or_rest(toks, p.cur, p.exprs, p.stmts, left)
        } else {
            p
        },
    }
}

/// The `or` tail.
#[verifier::opaque]
pub open spec fn pp_or_rest(
    toks: Seq<Token>,
    cur: int,
    exprs: Seq<GExpr>,
    stmts: Seq<GStmt>,
    left: usize,
) -> PExpr
    decreases toks.len() - cur, 17int,
{
    if pcheck(toks, cur, TokenType::Or) {
        let r = pp_and(toks, cur + 1, exprs, stmts);
        match r.node {
            Err(e) => r,
            Ok(right) => {
                let ex2 = r.exprs.push(
                    GExpr::Logical { left, operator: peek_tok(toks, cur), right },
                );
                let id = r.exprs.len() as usize;
                if r.cur > cur && r.cur <= toks.len() {
                    pp_or_rest(toks, r.cur, ex2, r.stmts, id)
                } else {
                    PExpr { cur: r.cur, exprs: ex2, stmts: r.stmts, node: Ok(id) }
                }
            },
        }
    } else {
        PExpr { cur, exprs, stmts, node: Ok(left) }
    }
}

/// Assignment: right-associative, and only legal when the left side is a
/// bare variable reference; any other shape is the
/// invalid-assignment-target error at the `=` token.
#[verifier::opaque]
pub open spec fn pp_assignment(toks: Seq<Token>, cur: int, exprs: Seq<GExpr>, stmts: Seq<GStmt>) -> PExpr
    decreases toks.len() - cur, 18int,
{
    let o = pp_or(toks, cur, exprs, stmts);
    match o.node {
        Err(e) => o,
        Ok(l) => if pcheck(toks, o.cur, TokenType::Equal) {
            if o.cur < cur {
                o
            } else {
                let v = pp_assignment(toks, o.cur + 1, o.exprs, o.stmts);
                match v.node {
                    Err(e) => v,
                    Ok(val) => match v.exprs[l as int] {
                        GExpr::Variable { name } => PExpr {
                            cur: v.cur,
                            exprs: v.exprs.push(GExpr::Assign { name, value: val }),
                            stmts: v.stmts,
                            node: Ok(v.exprs.len() as usize),
                        },
                        _ => PExpr {
                            cur: v.cur,
                            exprs: v.exprs,
                            stmts: v.stmts,
                            node: Err(
                                GLox::ParseError {
                                    token: peek_tok(toks, o.cur),
                                    message: "Invalid assignment target."@,
                                },
                            ),
                        },
                    },
                }
            }
        } else {
            o
        },
    }
}

/// An expression: the bottom of the precedence ladder is assignment.
#[verifier::opaque]
pub open spec fn pp_expression(toks: Seq<Token>, cur: int, exprs: Seq<GExpr>, stmts: Seq<GStmt>) -> PExpr
    decreases toks.len() - cur, 19int,
{
    pp_assignment(toks, cur, exprs, stmts)
}

/// Whether a token kind can start a statement: where synchronisation
/// stops.
pub open spec fn starts_statement(tt: TokenType) -> bool {
    ||| tt == TokenType::Class
    ||| tt == TokenType::Fun
    ||| tt == TokenType::Var
    ||| tt == TokenType::For
    ||| tt == TokenType::If
    ||| tt == TokenType::While
    ||| tt == TokenType::Print
    ||| tt == TokenType::Return
}

/// Skip to a statement boundary: the end of input, the token after a
/// `;`, or a statement-starting keyword.
#[verifier::opaque]
pub open spec fn pp_sync_skip(toks: Seq<Token>, cur: int) -> int
    decreases toks.len() - cur,
{
    if peek_tt(toks, cur) == TokenType::Eof {
        cur
    } else if cur > 0 && cur - 1 < toks.len() && toks[cur - 1].ttype == TokenType::Semicolon {
        cur
    } else if starts_statement(peek_tt(toks, cur)) {
        cur
    } else {
        pp_sync_skip(toks, cur + 1)
    }
}

/// Synchronise after a parse error: step past the offending token, then
/// skip to a statement boundary.
#[verifier::opaque]
pub open spec fn pp_sync(toks: Seq<Token>, cur: int) -> int {
    if peek_tt(toks, cur) == TokenType::Eof {
        cur
    } else {
        pp_sync_skip(toks, cur + 1)
    }
}

/// `return` with an optional value, ended by `;`; the node carries the
/// `return` keyword, which sits just before the entry cursor.
#[verifier::opaque]
pub open spec fn pp_return_statement(
    toks: Seq<Token>,
    cur: int,
    exprs: Seq<GExpr>,
    stmts: Seq<GStmt>,
) -> PStmt
    decreases toks.len() - cur, 21int,
{
    let kw = peek_tok(toks, cur - 1);
    if !pcheck(toks, cur, TokenType::Semicolon) {
        let v = pp_expression(toks, cur, exprs, stmts);
        match v.node {
            Err(e) => PStmt {
                cur: v.cur,
                exprs: v.exprs,
                stmts: v.stmts,
                errs: Seq::empty(),
                node: Err(e),
            },
            Ok(val) => if pcheck(toks, v.cur, TokenType::Semicolon) {
                PStmt {
                    cur: v.cur + 1,
                    exprs: v.exprs,
                    stmts: v.stmts.push(GStmt::Return { token: kw, value: Some(val) }),
                    errs: Seq::empty(),
                    node: Ok(v.stmts.len() as usize),
                }
            } else {
                PStmt {
                    cur: v.cur,
                    exprs: v.exprs,
                    stmts: v.stmts,
                    errs: Seq::empty(),
                    node: Err(perr(toks, v.cur, "Expect ';' after return value."@)),
                }
            },
        }
    } else {
        PStmt {
            cur: cur + 1,
            exprs,
            stmts: stmts.push(GStmt::Return { token: kw, value: None }),
            errs: Seq::empty(),
            node: Ok(stmts.len() as usize),
        }
    }
}

/// `var name` with an optional initializer, ended by `;`.
#[verifier::opaque]
pub open spec fn pp_var_declaration(
    toks: Seq<Token>,
    cur: int,
    exprs: Seq<GExpr>,
    stmts: Seq<GStmt>,
) -> PStmt
    decreases toks.len() - cur, 21int,
{
    if pcheck(toks, cur, TokenType::Identifier) {
        let name = peek_tok(toks, cur);
        if pcheck(toks, cur + 1, TokenType::Equal) {
            let v = pp_expression(toks, cur + 2, exprs, stmts);
            match v.node {
                Err(e) => PStmt {
                    cur: v.cur,
                    exprs: v.exprs,
                    stmts: v.stmts,
                    errs: Seq::empty(),
                    node: Err(e),
                },
                Ok(init) => if pcheck(toks, v.cur, TokenType::Semicolon) {
                    PStmt {
                        cur: v.cur + 1,
                        exprs: v.exprs,
                        stmts: v.stmts.push(GStmt::Var { name, initializer: Some(init) }),
                        errs: Seq::empty(),
                        node: Ok(v.stmts.len() as usize),
                    }
                } else {
                    PStmt {
                        cur: v.cur,
                        exprs: v.exprs,
                        stmts: v.stmts,
                        errs: Seq::empty(),
                        node: Err(perr(toks, v.cur, "Expect ';' after variable declaration."@)),
                    }
                },
            }
        } else if pcheck(toks, cur + 1, TokenType::Semicolon) {
            PStmt {
                cur: cur + 2,
                exprs,
                stmts: stmts.push(GStmt::Var { name, initializer: None }),
                errs: Seq::empty(),
                node: Ok(stmts.len() as usize),
            }
        } else {
            PStmt {
                cur: cur + 1,
                exprs,
                stmts,
                errs: Seq::empty(),
                node: Err(perr(toks, cur + 1, "Expect ';' after variable declaration."@)),
            }
        }
    } else {
        PStmt {
            cur,
            exprs,
            stmts,
            errs: Seq::empty(),
            node: Err(perr(toks, cur, "Expect variable name."@)),
        }
    }
}

/// `print expr;`
#[verifier::opaque]
pub open spec fn pp_print_statement(
    toks: Seq<Token>,
    cur: int,
    exprs: Seq<GExpr>,
    stmts: Seq<GStmt>,
) -> PStmt
    decreases toks.len() - cur, 21int,
{
    let v = pp_expression(toks, cur, exprs, stmts);
    match v.node {
        Err(e) => PStmt { cur: v.cur, exprs: v.exprs, stmts: v.stmts, errs: Seq::empty(), node: Err(e) },
        Ok(x) => if pcheck(toks, v.cur, TokenType::Semicolon) {
            PStmt {
                cur: v.cur + 1,
                exprs: v.exprs,
                stmts: v.stmts.push(GStmt::Print { expression: x }),
                errs: Seq::empty(),
                node: Ok(v.stmts.len() as usize),
            }
        } else {
            PStmt {
                cur: v.cur,
                exprs: v.exprs,
                stmts: v.stmts,
                errs: Seq::empty(),
                node: Err(perr(toks, v.cur, "Expect ';' after value."@)),
            }
        },
    }
}

/// A bare expression evaluated for effect, ended by `;`.
#[verifier::opaque]
pub open spec fn pp_expression_statement(
    toks: Seq<Token>,
    cur: int,
    exprs: Seq<GExpr>,
    stmts: Seq<GStmt>,
) -> PStmt
    decreases toks.len() - cur, 21int,
{
    let v = pp_expression(toks, cur, exprs, stmts);
    match v.node {
        Err(e) => PStmt { cur: v.cur, exprs: v.exprs, stmts: v.stmts, errs: Seq::empty(), node: Err(e) },
        Ok(x) => if pcheck(toks, v.cur, TokenType::Semicolon) {
            PStmt {
                cur: v.cur + 1,
                exprs: v.exprs,
                stmts: v.stmts.push(GStmt::Expression { expression: x }),
                errs: Seq::empty(),
                node: Ok(v.stmts.len() as usize),
            }
        } else {
            PStmt {
                cur: v.cur,
                exprs: v.exprs,
                stmts: v.stmts,
                errs: Seq::empty(),
                node: Err(perr(toks, v.cur, "Expect ';' after value."@)),
            }
        },
    }
}

/// `while` with a parenthesized condition.
#[verifier::opaque]
pub open spec fn pp_while_statement(
    toks: Seq<Token>,
    cur: int,
    exprs: Seq<GExpr>,
    stmts: Seq<GStmt>,
    herr: bool,
) -> PStmt
    decreases toks.len() - cur, 24int,
{
    if !pcheck(toks, cur, TokenType::LeftParen) {
        PStmt {
            cur,
            exprs,
            stmts,
            errs: Seq::empty(),
            node: Err(perr(toks, cur, "Expect '(' after 'while'."@)),
        }
    } else {
        let c = pp_expression(toks, cur + 1, exprs, stmts);
        match c.node {
            Err(e) => PStmt {
                cur: c.cur,
                exprs: c.exprs,
                stmts: c.stmts,
                errs: Seq::empty(),
                node: Err(e),
            },
            Ok(cond) => if !pcheck(toks, c.cur, TokenType::RightParen) {
                PStmt {
                    cur: c.cur,
                    exprs: c.exprs,
                    stmts: c.stmts,
                    errs: Seq::empty(),
                    node: Err(perr(toks, c.cur, "Expect ')' after 'while'."@)),
                }
            } else if c.cur < cur {
                PStmt { cur: c.cur, exprs: c.exprs, stmts: c.stmts, errs: Seq::empty(), node: Err(perr(toks, c.cur, "Expect ')' after 'while'."@)) }
            } else {
                let b = pp_statement(toks, c.cur + 1, c.exprs, c.stmts, herr);
                match b.node {
                    Err(e) => PStmt { cur: b.cur, exprs: b.exprs, stmts: b.stmts, errs: b.errs, node: Err(e) },
                    Ok(body) => PStmt {
                        cur: b.cur,
                        exprs: b.exprs,
                        stmts: b.stmts.push(GStmt::While { condition: cond, body }),
                        errs: b.errs,
                        node: Ok(b.stmts.len() as usize),
                    },
                }
            },
        }
    }
}

/// `if` with an optional `else`; the `else` always attaches here, to the
/// nearest unmatched `if` — greedy binding.
#[verifier::opaque]
pub open spec fn pp_if_statement(
    toks: Seq<Token>,
    cur: int,
    exprs: Seq<GExpr>,
    stmts: Seq<GStmt>,
    herr: bool,
) -> PStmt
    decreases toks.len() - cur, 24int,
{
    if !pcheck(toks, cur, TokenType::LeftParen) {
        PStmt {
            cur,
            exprs,
            stmts,
            errs: Seq::empty(),
            node: Err(perr(toks, cur, "Expect '(' after 'if'."@)),
        }
    } else {
        let c = pp_expression(toks, cur + 1, exprs, stmts);
        match c.node {
            Err(e) => PStmt {
                cur: c.cur,
                exprs: c.exprs,
                stmts: c.stmts,
                errs: Seq::empty(),
                node: Err(e),
            },
            Ok(cond) => if !pcheck(toks, c.cur, TokenType::RightParen) {
                PStmt {
                    cur: c.cur,
                    exprs: c.exprs,
                    stmts: c.stmts,
                    errs: Seq::empty(),
                    node: Err(perr(toks, c.cur, "Expect '(' after 'if'."@)),
                }
            } else if c.cur < cur {
                PStmt { cur: c.cur, exprs: c.exprs, stmts: c.stmts, errs: Seq::empty(), node: Err(perr(toks, c.cur, "Expect '(' after 'if'."@)) }
            } else {
                let t = pp_statement(toks, c.cur + 1, c.exprs, c.stmts, herr);
                match t.node {
                    Err(e) => PStmt { cur: t.cur, exprs: t.exprs, stmts: t.stmts, errs: t.errs, node: Err(e) },
                    Ok(th) => if pcheck(toks, t.cur, TokenType::Else) {
                        if t.cur < cur {
                            PStmt { cur: t.cur, exprs: t.exprs, stmts: t.stmts, errs: t.errs, node: Ok(th) }
                        } else {
                            let el = pp_statement(
                                toks,
                                t.cur + 1,
                                t.exprs,
                                t.stmts,
                                herr || t.errs.len() > 0,
                            );
                            match el.node {
                                Err(e) => PStmt {
                                    cur: el.cur,
                                    exprs: el.exprs,
                                    stmts: el.stmts,
                                    errs: t.errs + el.errs,
                                    node: Err(e),
                                },
                                Ok(eb) => PStmt {
                                    cur: el.cur,
                                    exprs: el.exprs,
                                    stmts: el.stmts.push(
                                        GStmt::If {
                                            condition: cond,
                                            then_branch: th,
                                            else_branch: Some(eb),
                                        },
                                    ),
                                    errs: t.errs + el.errs,
                                    node: Ok(el.stmts.len() as usize),
                                },
                            }
                        }
                    } else {
                        PStmt {
                            cur: t.cur,
                            exprs: t.exprs,
                            stmts: t.stmts.push(
                                GStmt::If { condition: cond, then_branch: th, else_branch: None },
                            ),
                            errs: t.errs,
                            node: Ok(t.stmts.len() as usize),
                        }
                    },
                }
            },
        }
    }
}

/// `for`, desugared: body plus appended increment inside a block, a
/// condition defaulting to `true`, a `while` around them, and an
/// initializer block outside — no dedicated loop node.
#[verifier::opaque]
pub open spec fn pp_for_statement(
    toks: Seq<Token>,
    cur: int,
    exprs: Seq<GExpr>,
    stmts: Seq<GStmt>,
    herr: bool,
) -> PStmt
    decreases toks.len() - cur, 24int,
{
    if !pcheck(toks, cur, TokenType::LeftParen) {
        PStmt {
            cur,
            exprs,
            stmts,
            errs: Seq::empty(),
            node: Err(perr(toks, cur, "Expect '(' after 'for'."@)),
        }
    } else {
        let i0 = if pcheck(toks, cur + 1, TokenType::Semicolon) {
            PStmt { cur: cur + 2, exprs, stmts, errs: Seq::empty(), node: Ok(0) }
        } else if pcheck(toks, cur + 1, TokenType::Var) {
            pp_var_declaration(toks, cur + 2, exprs, stmts)
        } else {
            pp_expression_statement(toks, cur + 1, exprs, stmts)
        };
        let has_init = !pcheck(toks, cur + 1, TokenType::Semicolon);
        match i0.node {
            Err(e) => PStmt { cur: i0.cur, exprs: i0.exprs, stmts: i0.stmts, errs: Seq::empty(), node: Err(e) },
            Ok(init) => {
                let c0 = if !pcheck(toks, i0.cur, TokenType::Semicolon) {
                    pp_expression(toks, i0.cur, i0.exprs, i0.stmts)
                } else {
                    PExpr { cur: i0.cur, exprs: i0.exprs, stmts: i0.stmts, node: Ok(0) }
                };
                let has_cond = !pcheck(toks, i0.cur, TokenType::Semicolon);
                match c0.node {
                    Err(e) => PStmt { cur: c0.cur, exprs: c0.exprs, stmts: c0.stmts, errs: Seq::empty(), node: Err(e) },
                    Ok(cond0) => if !pcheck(toks, c0.cur, TokenType::Semicolon) {
                        PStmt {
                            cur: c0.cur,
                            exprs: c0.exprs,
                            stmts: c0.stmts,
                            errs: Seq::empty(),
                            node: Err(perr(toks, c0.cur, "Expect ';' after loop condition."@)),
                        }
                    } else {
                        let n0 = if !pcheck(toks, c0.cur + 1, TokenType::RightParen) {
                            pp_expression(toks, c0.cur + 1, c0.exprs, c0.stmts)
                        } else {
                            PExpr { cur: c0.cur + 1, exprs: c0.exprs, stmts: c0.stmts, node: Ok(0) }
                        };
                        let has_inc = !pcheck(toks, c0.cur + 1, TokenType::RightParen);
                        match n0.node {
                            Err(e) => PStmt { cur: n0.cur, exprs: n0.exprs, stmts: n0.stmts, errs: Seq::empty(), node: Err(e) },
                            Ok(inc) => if !pcheck(toks, n0.cur, TokenType::RightParen) {
                                PStmt {
                                    cur: n0.cur,
                                    exprs: n0.exprs,
                                    stmts: n0.stmts,
                                    errs: Seq::empty(),
                                    node: Err(perr(toks, n0.cur, "Expect ')' after for clauses."@)),
                                }
                            } else if n0.cur < cur {
                                PStmt { cur: n0.cur, exprs: n0.exprs, stmts: n0.stmts, errs: Seq::empty(), node: Err(perr(toks, n0.cur, "Expect ')' after for clauses."@)) }
                            } else {
                                let b = pp_statement(toks, n0.cur + 1, n0.exprs, n0.stmts, herr);
                                match b.node {
                                    Err(e) => PStmt { cur: b.cur, exprs: b.exprs, stmts: b.stmts, errs: b.errs, node: Err(e) },
                                    Ok(body0) => {
                                        let (stmts1, body1) = if has_inc {
                                            let inc_stmt = b.stmts.len() as usize;
                                            let s1 = b.stmts.push(GStmt::Expression { expression: inc });
                                            (
                                                s1.push(
                                                    GStmt::Block {
                                                        statements: seq![body0, inc_stmt],
                                                    },
                                                ),
                                                s1.len() as usize,
                                            )
                                        } else {
                                            (b.stmts, body0)
                                        };
                                        let (exprs2, cond2) = if has_cond {
                                            (b.exprs, cond0)
                                        } else {
                                            (
                                                b.exprs.push(
                                                    GExpr::Literal {
                                                        value: Some(GObject::Bool(true)),
                                                    },
                                                ),
                                                b.exprs.len() as usize,
                                            )
                                        };
                                        let while_id = stmts1.len() as usize;
                                        let stmts2 = stmts1.push(
                                            GStmt::While { condition: cond2, body: body1 },
                                        );
                                        if has_init {
                                            PStmt {
                                                cur: b.cur,
                                                exprs: exprs2,
                                                stmts: stmts2.push(
                                                    GStmt::Block {
                                                        statements: seq![init, while_id],
                                                    },
                                                ),
                                                errs: b.errs,
                                                node: Ok(stmts2.len() as usize),
                                            }
                                        } else {
                                            PStmt {
                                                cur: b.cur,
                                                exprs: exprs2,
                                                stmts: stmts2,
                                                errs: b.errs,
                                                node: Ok(while_id),
                                            }
                                        }
                                    },
                                }
                            },
                        }
                    },
                }
            },
        }
    }
}

/// The comma-led parameters after the first one; more than 255 is the
/// informative parse error, skipped once an earlier error was recorded.
#[verifier::opaque]
pub open spec fn pp_params_rest(
    toks: Seq<Token>,
    cur: int,
    acc: Seq<GToken>,
    herr: bool,
) -> PParams
    decreases toks.len() - cur,
{
    if pcheck(toks, cur, TokenType::Comma) {
        if acc.len() >= 255 && !herr {
            PParams {
                cur: cur + 1,
                params: Err(perr(toks, cur + 1, "Can't have more than 255 parameters."@)),
            }
        } else if pcheck(toks, cur + 1, TokenType::Identifier) {
            pp_params_rest(toks, cur + 2, acc.push(peek_tok(toks, cur + 1)), herr)
        } else {
            PParams { cur: cur + 1, params: Err(perr(toks, cur + 1, "Expect parameter name."@)) }
        }
    } else {
        PParams { cur, params: Ok(acc) }
    }
}

/// A function declaration: name, parenthesized parameters in source
/// order, and a block body.
#[verifier::opaque]
pub open spec fn pp_function(
    toks: Seq<Token>,
    cur: int,
    exprs: Seq<GExpr>,
    stmts: Seq<GStmt>,
    herr: bool,
) -> PStmt
    decreases toks.len() - cur, 24int,
{
    if !pcheck(toks, cur, TokenType::Identifier) {
        PStmt {
            cur,
            exprs,
            stmts,
            errs: Seq::empty(),
            node: Err(perr(toks, cur, "Expect function name."@)),
        }
    } else if !pcheck(toks, cur + 1, TokenType::LeftParen) {
        PStmt {
            cur: cur + 1,
            exprs,
            stmts,
            errs: Seq::empty(),
            node: Err(perr(toks, cur + 1, "Expect '(' after function name."@)),
        }
    } else {
        let name = peek_tok(toks, cur);
        let pr = if !pcheck(toks, cur + 2, TokenType::RightParen) {
            if pcheck(toks, cur + 2, TokenType::Identifier) {
                pp_params_rest(toks, cur + 3, seq![peek_tok(toks, cur + 2)], herr)
            } else {
                PParams { cur: cur + 2, params: Err(perr(toks, cur + 2, "Expect parameter name."@)) }
            }
        } else {
            PParams { cur: cur + 2, params: Ok(Seq::empty()) }
        };
        match pr.params {
            Err(e) => PStmt { cur: pr.cur, exprs, stmts, errs: Seq::empty(), node: Err(e) },
            Ok(params) => if !pcheck(toks, pr.cur, TokenType::RightParen) {
                PStmt {
                    cur: pr.cur,
                    exprs,
                    stmts,
                    errs: Seq::empty(),
                    node: Err(perr(toks, pr.cur, "Expect ')' after parameters."@)),
                }
            } else if !pcheck(toks, pr.cur + 1, TokenType::LeftBrace) {
                PStmt {
                    cur: pr.cur + 1,
                    exprs,
                    stmts,
                    errs: Seq::empty(),
                    node: Err(perr(toks, pr.cur + 1, "Expect '{' before function body."@)),
                }
            } else if pr.cur < cur {
                PStmt { cur: pr.cur, exprs, stmts, errs: Seq::empty(), node: Err(perr(toks, pr.cur, "Expect ')' after parameters."@)) }
            } else {
                let b = pp_block(toks, pr.cur + 2, exprs, stmts, herr);
                match b.list {
                    Err(e) => PStmt { cur: b.cur, exprs: b.exprs, stmts: b.stmts, errs: b.errs, node: Err(e) },
                    Ok(ids) => PStmt {
                        cur: b.cur,
                        exprs: b.exprs,
                        stmts: b.stmts.push(GStmt::Function { name, params, body: ids }),
                        errs: b.errs,
                        node: Ok(b.stmts.len() as usize),
                    },
                }
            },
        }
    }
}

/// The declarations of a block, with per-statement recovery, up to the
/// `}` or the end of input.
#[verifier::opaque]
pub open spec fn pp_block_items(
    toks: Seq<Token>,
    cur: int,
    exprs: Seq<GExpr>,
    stmts: Seq<GStmt>,
    herr: bool,
) -> PItems
    decreases toks.len() - cur, 31int,
{
    if pcheck(toks, cur, TokenType::RightBrace) || peek_tt(toks, cur) == TokenType::Eof {
        PItems { cur, exprs, stmts, errs: Seq::empty(), ids: Seq::empty() }
    } else {
        let d = pp_declaration(toks, cur, exprs, stmts, herr);
        let first = match d.node {
            Some(id) => seq![id],
            None => Seq::empty(),
        };
        if d.cur > cur && d.cur <= toks.len() {
            let rest = pp_block_items(toks, d.cur, d.exprs, d.stmts, herr || d.errs.len() > 0);
            PItems {
                cur: rest.cur,
                exprs: rest.exprs,
                stmts: rest.stmts,
                errs: d.errs + rest.errs,
                ids: first + rest.ids,
            }
        } else {
            PItems { cur: d.cur, exprs: d.exprs, stmts: d.stmts, errs: d.errs, ids: first }
        }
    }
}

/// A block body: its declarations and the closing `}`.
#[verifier::opaque]
pub open spec fn pp_block(
    toks: Seq<Token>,
    cur: int,
    exprs: Seq<GExpr>,
    stmts: Seq<GStmt>,
    herr: bool,
) -> PList
    decreases toks.len() - cur, 32int,
{
    let it = pp_block_items(toks, cur, exprs, stmts, herr);
    if pcheck(toks, it.cur, TokenType::RightBrace) {
        PList { cur: it.cur + 1, exprs: it.exprs, stmts: it.stmts, errs: it.errs, list: Ok(it.ids) }
    } else {
        PList {
            cur: it.cur,
            exprs: it.exprs,
            stmts: it.stmts,
            errs: it.errs,
            list: Err(perr(toks, it.cur, "expect '}' after block."@)),
        }
    }
}

/// One statement, dispatched on its leading token.
#[verifier::opaque]
pub open spec fn pp_statement(
    toks: Seq<Token>,
    cur: int,
    exprs: Seq<GExpr>,
    stmts: Seq<GStmt>,
    herr: bool,
) -> PStmt
    decreases toks.len() - cur, 28int,
{
    if pcheck(toks, cur, TokenType::Break) {
        if pcheck(toks, cur + 1, TokenType::Semicolon) {
            PStmt {
                cur: cur + 2,
                exprs,
                stmts: stmts.push(GStmt::Break { token: peek_tok(toks, cur) }),
                errs: Seq::empty(),
                node: Ok(stmts.len() as usize),
            }
        } else {
            PStmt {
                cur: cur + 1,
                exprs,
                stmts,
                errs: Seq::empty(),
                node: Err(perr(toks, cur + 1, "Expect ';' after 'break'."@)),
            }
        }
    } else if pcheck(toks, cur, TokenType::For) {
        pp_for_statement(toks, cur + 1, exprs, stmts, herr)
    } else if pcheck(toks, cur, TokenType::If) {
        pp_if_statement(toks, cur + 1, exprs, stmts, herr)
    } else if pcheck(toks, cur, TokenType::Print) {
        pp_print_statement(toks, cur + 1, exprs, stmts)
    } else if pcheck(toks, cur, TokenType::Return) {
        pp_return_statement(toks, cur + 1, exprs, stmts)
    } else if pcheck(toks, cur, TokenType::While) {
        pp_while_statement(toks, cur + 1, exprs, stmts, herr)
    } else if pcheck(toks, cur, TokenType::LeftBrace) {
        let b = pp_block(toks, cur + 1, exprs, stmts, herr);
        match b.list {
            Err(e) => PStmt { cur: b.cur, exprs: b.exprs, stmts: b.stmts, errs: b.errs, node: Err(e) },
            Ok(ids) => PStmt {
                cur: b.cur,
                exprs: b.exprs,
                stmts: b.stmts.push(GStmt::Block { statements: ids }),
                errs: b.errs,
                node: Ok(b.stmts.len() as usize),
            },
        }
    } else {
        pp_expression_statement(toks, cur, exprs, stmts)
    }
}

/// One declaration with recovery: `fun`, `var`, or a statement; on a
/// parse error the statement is abandoned, the error recorded, and the
/// cursor synchronised to the next statement boundary.
#[verifier::opaque]
pub open spec fn pp_declaration(
    toks: Seq<Token>,
    cur: int,
    exprs: Seq<GExpr>,
    stmts: Seq<GStmt>,
    herr: bool,
) -> PDecl
    decreases toks.len() - cur, 29int,
{
    let r = if pcheck(toks, cur, TokenType::Fun) {
        pp_function(toks, cur + 1, exprs, stmts, herr)
    } else if pcheck(toks, cur, TokenType::Var) {
        pp_var_declaration(toks, cur + 1, exprs, stmts)
    } else {
        pp_statement(toks, cur, exprs, stmts, herr)
    };
    match r.node {
        Ok(id) => PDecl { cur: r.cur, exprs: r.exprs, stmts: r.stmts, errs: r.errs, node: Some(id) },
        Err(e) => PDecl {
            cur: pp_sync(toks, r.cur),
            exprs: r.exprs,
            stmts: r.stmts,
            errs: r.errs.push(e),
            node: None,
        },
    }
}

/// A whole program: top-level declarations until the end of input, the
/// surviving statements in source order and every recovered error in
/// order of discovery.
#[verifier::opaque]
pub open spec fn pp_parse(
    toks: Seq<Token>,
    cur: int,
    exprs: Seq<GExpr>,
    stmts: Seq<GStmt>,
    herr: bool,
) -> PProg
    decreases toks.len() - cur, 33int,
{
    if peek_tt(toks, cur) == TokenType::Eof {
        PProg { cur, exprs, stmts, errs: Seq::empty(), roots: Seq::empty() }
    } else {
        let d = pp_declaration(toks, cur, exprs, stmts, herr);
        let first = match d.node {
            Some(id) => seq![id],
            None => Seq::empty(),
        };
        if d.cur > cur && d.cur <= toks.len() {
            let rest = pp_parse(toks, d.cur, d.exprs, d.stmts, herr || d.errs.len() > 0);
            PProg {
                cur: rest.cur,
                exprs: rest.exprs,
                stmts: rest.stmts,
                errs: d.errs + rest.errs,
                roots: first + rest.roots,
            }
        } else {
            PProg { cur: d.cur, exprs: d.exprs, stmts: d.stmts, errs: d.errs, roots: first }
        }
    }
}

} // verus!
