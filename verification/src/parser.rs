//! The recursive-descent parser.
//!
//! Consumes the full token list and produces the top-level statement
//! indices of a program, building nodes bottom-up in the arena so that a
//! well-formed tree comes out by construction. Every function is proved
//! to compute the grammar spec in [`crate::grammar`]: the `pp_*`
//! functions fix the final cursor, the appended node views, the returned
//! node or parse error, and the errors recovery records, so the
//! precedence ladder and the associativity of each level are contract,
//! not convention.
//!
//! On a parse error the parser discards tokens until a statement boundary
//! (after a `;`, or a token that can start a statement), records the
//! error, and goes on, so one broken statement costs one error and the
//! rest of the program is still parsed; `success` reports whether any
//! error occurred.

use vstd::prelude::*;
use crate::ast::{
    exprs_view, lemma_exprs_view_push, lemma_stmts_view_push, stmts_view, Ast, GExpr, GStmt,
};
use crate::error::{GLox, LoxResult};
use crate::expr::{
    AssignExpr, BinaryExpr, CallExpr, Expr, GroupingExpr, LiteralExpr, LogicalExpr, UnaryExpr,
    VariableExpr,
};
use crate::grammar::{
    pcheck, peek_tok, peek_tt, perr, pp_and, pp_and_rest, pp_args_rest, pp_assignment, pp_block,
    pp_block_items, pp_call, pp_call_rest, pp_comparison, pp_comparison_rest, pp_declaration,
    pp_equality, pp_equality_rest, pp_expression, pp_expression_statement, pp_factor,
    pp_factor_rest, pp_finish_call, pp_for_statement, pp_function, pp_if_statement, pp_or,
    pp_or_rest, pp_params_rest, pp_parse, pp_primary, pp_print_statement, pp_return_statement,
    pp_statement, pp_sync, pp_sync_skip, pp_term, pp_term_rest, pp_unary, pp_var_declaration,
    pp_while_statement, starts_statement, PExpr, PStmt,
};
use crate::object::Object;
use crate::stmt::{
    BlockStmt, BreakStmt, ExpressionStmt, FunctionStmt, IfStmt, PrintStmt, ReturnStmt, Stmt,
    VarStmt, WhileStmt,
};
use crate::token::{GToken, Token, TokenType};

verus! {

/// The parser: a cursor over the token list, the arena it grows, the
/// errors it has recovered from, and whether there were any.
pub struct Parser {
    tokens: Vec<Token>,
    current: usize,
    had_error: bool,
    ast: Ast,
    errors: Vec<LoxResult>,
}

/// A token list the parser accepts: non-empty, ending in the end-of-input
/// token, and every number or string token carries its literal value.
pub open spec fn tokens_wf(toks: Seq<Token>) -> bool {
    &&& toks.len() > 0
    &&& toks[toks.len() - 1]@.ttype == TokenType::Eof
    &&& forall|i: int|
        0 <= i < toks.len() ==> (((#[trigger] toks[i])@.ttype == TokenType::Number || toks[i]@.ttype
            == TokenType::Str) ==> toks[i]@.literal is Some)
}

/// Ghost view of a returned node index or parse error.
pub open spec fn pnode_view(r: Result<usize, LoxResult>) -> Result<usize, GLox> {
    match r {
        Ok(id) => Ok(id),
        Err(e) => Err(e@),
    }
}

/// Ghost view of a list of recorded errors.
pub open spec fn errs_view(s: Seq<LoxResult>) -> Seq<GLox> {
    s.map_values(|e: LoxResult| e@)
}

/// Recording an error pushes its view.
proof fn lemma_errs_view_push(s: Seq<LoxResult>, e: LoxResult)
    ensures
        errs_view(s.push(e)) == errs_view(s).push(e@),
{
    assert(errs_view(s.push(e)) =~= errs_view(s).push(e@));
}

/// Concatenation of error lists associates.
proof fn lemma_errs_assoc(a: Seq<GLox>, b: Seq<GLox>, c: Seq<GLox>)
    ensures
        (a + b) + c == a + (b + c),
{
    assert((a + b) + c =~= a + (b + c));
}

/// A push distributes over a preceding concatenation.
proof fn lemma_errs_concat_push(a: Seq<GLox>, b: Seq<GLox>, x: GLox)
    ensures
        (a + b).push(x) == a + b.push(x),
{
    assert((a + b).push(x) =~= a + b.push(x));
}

impl Parser {
    /// The parser's invariant: the token list is acceptable, the cursor
    /// is on a token, the arena is well formed, and the error flag agrees
    /// with the recorded errors.
    pub closed spec fn wf(&self) -> bool {
        &&& tokens_wf(self.tokens@)
        &&& self.current < self.tokens@.len()
        &&& self.ast.wf()
        &&& (self.had_error <==> self.errors@.len() > 0)
    }

    /// The arena the parser has built.
    pub closed spec fn spec_ast(&self) -> Ast {
        self.ast
    }

    /// Whether no parse error has occurred.
    pub closed spec fn spec_success(&self) -> bool {
        !self.had_error
    }

    /// The errors recovered from so far.
    pub closed spec fn spec_errors(&self) -> Seq<LoxResult> {
        self.errors@
    }

    /// The token list being parsed.
    pub closed spec fn spec_tokens(&self) -> Seq<Token> {
        self.tokens@
    }

    /// The cursor.
    pub closed spec fn spec_cur(&self) -> int {
        self.current as int
    }

    /// Whether the cursor stands on the end-of-input token.
    pub closed spec fn spec_finished(&self) -> bool {
        self.cur_tt() == TokenType::Eof
    }

    /// A well-formed parser holds a well-formed arena: what callers need
    /// to hand the arena to the resolver and the evaluator.
    pub proof fn lemma_wf_ast(&self)
        requires
            self.wf(),
        ensures
            self.spec_ast().wf(),
    {
    }

    /// What every parsing step preserves: the tokens, monotone progress,
    /// and the already-built part of the arena.
    spec fn frame(pre: Parser, post: Parser) -> bool {
        &&& post.tokens@ == pre.tokens@
        &&& pre.current <= post.current
        &&& pre.ast.exprs@.is_prefix_of(post.ast.exprs@)
        &&& pre.ast.stmts@.is_prefix_of(post.ast.stmts@)
    }

    /// The kind of the token under the cursor.
    spec fn cur_tt(&self) -> TokenType {
        self.tokens@[self.current as int]@.ttype
    }

    /// The expression-arena view.
    spec fn evs(&self) -> Seq<GExpr> {
        exprs_view(self.ast.exprs@)
    }

    /// The statement-arena view.
    spec fn svs(&self) -> Seq<GStmt> {
        stmts_view(self.ast.stmts@)
    }

    /// What an expression-level function ensures: no error bookkeeping is
    /// touched, and the cursor, the arenas, and the outcome are exactly
    /// the grammar spec's.
    spec fn expr_post(pre: Parser, post: Parser, r: Result<usize, LoxResult>, p: PExpr) -> bool {
        &&& post.wf()
        &&& Self::frame(pre, post)
        &&& post.errors@ == pre.errors@
        &&& post.had_error == pre.had_error
        &&& post.current as int == p.cur
        &&& post.evs() == p.exprs
        &&& post.svs() == p.stmts
        &&& pnode_view(r) == p.node
        &&& (r matches Ok(id) ==> id < post.ast.exprs@.len() && post.current > pre.current)
    }

    /// What a statement-level function ensures: the cursor, the arenas,
    /// the outcome, and the errors recovery recorded are exactly the
    /// grammar spec's.
    spec fn stmt_post(pre: Parser, post: Parser, r: Result<usize, LoxResult>, p: PStmt) -> bool {
        &&& post.wf()
        &&& Self::frame(pre, post)
        &&& post.current as int == p.cur
        &&& post.evs() == p.exprs
        &&& post.svs() == p.stmts
        &&& pnode_view(r) == p.node
        &&& errs_view(post.errors@) == errs_view(pre.errors@) + p.errs
        &&& post.had_error == (pre.had_error || p.errs.len() > 0)
        &&& (r matches Ok(id) ==> id < post.ast.stmts@.len() && post.current > pre.current)
    }

    /// A parser over a fresh arena, at the start of the token list.
    pub fn new(tokens: Vec<Token>) -> (r: Parser)
        requires
            tokens_wf(tokens@),
        ensures
            r.wf(),
            r.spec_success(),
            r.spec_tokens() == tokens@,
            r.spec_cur() == 0,
            r.spec_errors() == Seq::<LoxResult>::empty(),
            r.spec_ast().exprs@.len() == 0,
            r.spec_ast().stmts@.len() == 0,
    {
        let r = Parser {
            tokens,
            current: 0,
            had_error: false,
            ast: Ast::new(),
            errors: Vec::new(),
        };
        proof {
            assert(r.errors@ =~= Seq::<LoxResult>::empty());
        }
        r
    }

    /// A parser that extends an existing arena: how a session feeds every
    /// line into one growing arena, so earlier functions stay callable.
    pub fn new_with_ast(tokens: Vec<Token>, ast: Ast) -> (r: Parser)
        requires
            tokens_wf(tokens@),
            ast.wf(),
        ensures
            r.wf(),
            r.spec_success(),
            r.spec_tokens() == tokens@,
            r.spec_cur() == 0,
            r.spec_errors() == Seq::<LoxResult>::empty(),
            r.spec_ast() == ast,
    {
        let r = Parser { tokens, current: 0, had_error: false, ast, errors: Vec::new() };
        proof {
            assert(r.errors@ =~= Seq::<LoxResult>::empty());
        }
        r
    }

    /// Whether no parse error has occurred.
    pub fn success(&self) -> (r: bool)
        ensures
            r == self.spec_success(),
    {
        !self.had_error
    }

    /// The errors recovered from, for the embedding program to report.
    pub fn errors(&self) -> (r: &Vec<LoxResult>)
        ensures
            r@ == self.spec_errors(),
    {
        &self.errors
    }

    /// The arena built so far.
    pub fn ast(&self) -> (r: &Ast)
        ensures
            *r == self.spec_ast(),
    {
        &self.ast
    }

    /// Surrender the arena.
    pub fn into_ast(self) -> (r: Ast)
        ensures
            r == self.spec_ast(),
    {
        self.ast
    }

    fn peek(&self) -> (t: &Token)
        requires
            self.wf(),
        ensures
            *t == self.tokens@[self.current as int],
            t@ == peek_tok(self.tokens@, self.current as int),
    {
        &self.tokens[self.current]
    }

    fn previous(&self) -> (t: &Token)
        requires
            self.wf(),
            self.current > 0,
        ensures
            *t == self.tokens@[self.current - 1],
            t@ == peek_tok(self.tokens@, self.current - 1),
    {
        &self.tokens[self.current - 1]
    }

    fn is_at_end(&self) -> (b: bool)
        requires
            self.wf(),
        ensures
            b == (self.cur_tt() == TokenType::Eof),
            b == (peek_tt(self.tokens@, self.current as int) == TokenType::Eof),
    {
        self.peek().ttype == TokenType::Eof
    }

    /// Whether the cursor is on a token of this kind (never true at the
    /// end of input).
    fn check(&self, ttype: TokenType) -> (b: bool)
        requires
            self.wf(),
        ensures
            b == pcheck(self.tokens@, self.current as int, ttype),
    {
        if self.is_at_end() {
            return false;
        }
        self.peek().ttype == ttype
    }

    /// Move past the current token; at the end of input the cursor stays.
    fn advance(&mut self)
        requires
            old(self).wf(),
        ensures
            final(self).wf(),
            Self::frame(*old(self), *final(self)),
            final(self).ast == old(self).ast,
            final(self).errors@ == old(self).errors@,
            final(self).had_error == old(self).had_error,
            old(self).cur_tt() != TokenType::Eof ==> final(self).current == old(self).current + 1,
            old(self).cur_tt() == TokenType::Eof ==> final(self).current == old(self).current,
    {
        let n = self.tokens.len();
        if !self.is_at_end() {
            self.current = self.current + 1;
        }
    }

    /// Consume the current token when it has the given kind.
    fn is_match(&mut self, ttype: TokenType) -> (b: bool)
        requires
            old(self).wf(),
        ensures
            final(self).wf(),
            Self::frame(*old(self), *final(self)),
            final(self).ast == old(self).ast,
            final(self).errors@ == old(self).errors@,
            final(self).had_error == old(self).had_error,
            b == pcheck(old(self).tokens@, old(self).current as int, ttype),
            b ==> final(self).current == old(self).current + 1,
            !b ==> final(self).current == old(self).current,
    {
        if self.check(ttype) {
            self.advance();
            true
        } else {
            false
        }
    }

    /// Consume a token of the expected kind or fail with a parse error at
    /// the current token, leaving the cursor where it stands.
    fn consume(&mut self, ttype: TokenType, message: &str) -> (r: Result<(), LoxResult>)
        requires
            old(self).wf(),
        ensures
            final(self).wf(),
            Self::frame(*old(self), *final(self)),
            final(self).ast == old(self).ast,
            final(self).errors@ == old(self).errors@,
            final(self).had_error == old(self).had_error,
            r is Ok <==> pcheck(old(self).tokens@, old(self).current as int, ttype),
            r is Ok ==> final(self).current == old(self).current + 1,
            r is Err ==> final(self).current == old(self).current,
            r matches Err(e) ==> e@ == perr(
                old(self).tokens@,
                old(self).current as int,
                message@,
            ),
    {
        if self.check(ttype) {
            self.advance();
            Ok(())
        } else {
            Err(LoxResult::pares_error(self.peek().clone(), message))
        }
    }

    /// Discard tokens until a statement boundary: the token after a `;`,
    /// or one that can start a statement, or the end of input. Bounds the
    /// damage of a broken statement to one error.
    #[verifier::rlimit(100)]
    #[verifier::spinoff_prover]
    fn synchronise(&mut self)
        requires
            old(self).wf(),
        ensures
            final(self).wf(),
            Self::frame(*old(self), *final(self)),
            final(self).ast == old(self).ast,
            final(self).errors@ == old(self).errors@,
            final(self).had_error == old(self).had_error,
            final(self).current as int == pp_sync(old(self).tokens@, old(self).current as int),
            final(self).current == old(self).current ==> final(self).cur_tt() == TokenType::Eof,
            final(self).cur_tt() == TokenType::Eof || (final(self).current > 0 && final(self).tokens@[final(self).current - 1]@.ttype == TokenType::Semicolon) || starts_statement(
                final(self).cur_tt(),
            ),
    {
        proof {
            reveal(pp_sync);
            reveal(pp_sync_skip);
        }
        self.advance();
        loop
            invariant
                self.wf(),
                Self::frame(*old(self), *self),
                self.ast == old(self).ast,
                self.errors@ == old(self).errors@,
                self.had_error == old(self).had_error,
                old(self).current < self.current || self.cur_tt() == TokenType::Eof,
                pp_sync(old(self).tokens@, old(self).current as int) == pp_sync_skip(
                    self.tokens@,
                    self.current as int,
                ),
            ensures
                self.cur_tt() == TokenType::Eof || (self.current > 0 && self.tokens@[self.current
                    - 1]@.ttype == TokenType::Semicolon) || starts_statement(self.cur_tt()),
                pp_sync(old(self).tokens@, old(self).current as int) == self.current as int,
            decreases self.tokens@.len() - self.current,
        {
            proof {
                reveal(pp_sync);
                reveal(pp_sync_skip);
            }
            if self.is_at_end() {
                break ;
            }
            if self.previous_is_semicolon() {
                return ;
            }
            let tt = self.peek().ttype;
            match tt {
                TokenType::Class | TokenType::Fun | TokenType::Var | TokenType::For
                    | TokenType::If | TokenType::While | TokenType::Print | TokenType::Return => {
                    return ;
                },
                _ => {},
            }
            self.advance();
        }
    }

    /// Whether the token just consumed was a `;` (false at the very
    /// start).
    fn previous_is_semicolon(&self) -> (b: bool)
        requires
            self.wf(),
        ensures
            b == (self.current > 0 && self.tokens@[self.current - 1]@.ttype
                == TokenType::Semicolon),
    {
        if self.current == 0 {
            return false;
        }
        self.previous().ttype == TokenType::Semicolon
    }

    /// Parse the whole program: top-level declarations until the end of
    /// input, recovering at statement boundaries, so a best-effort list
    /// comes back even from a broken program. The roots are the surviving
    /// statements in source order, the recorded errors are exactly those
    /// of the broken statements, and the whole input is consumed.
    #[verifier::rlimit(100)]
    #[verifier::spinoff_prover]
    pub fn parse(&mut self) -> (roots: Vec<usize>)
        requires
            old(self).wf(),
        ensures
            final(self).wf(),
            old(self).spec_ast().exprs@.is_prefix_of(final(self).spec_ast().exprs@),
            old(self).spec_ast().stmts@.is_prefix_of(final(self).spec_ast().stmts@),
            forall|j: int|
                0 <= j < roots@.len() ==> (#[trigger] roots@[j]) < final(self).spec_ast().stmts@.len(),
            final(self).spec_success() ==> final(self).spec_errors().len() == 0,
            final(self).spec_finished(),
            ({
                let p = pp_parse(
                    old(self).spec_tokens(),
                    old(self).spec_cur(),
                    exprs_view(old(self).spec_ast().exprs@),
                    stmts_view(old(self).spec_ast().stmts@),
                    !old(self).spec_success(),
                );
                &&& final(self).spec_cur() == p.cur
                &&& exprs_view(final(self).spec_ast().exprs@) == p.exprs
                &&& stmts_view(final(self).spec_ast().stmts@) == p.stmts
                &&& roots@ == p.roots
                &&& errs_view(final(self).spec_errors()) == errs_view(old(self).spec_errors())
                    + p.errs
                &&& final(self).spec_success() == (old(self).spec_success() && p.errs.len() == 0)
            }),
    {
        proof {
            reveal(pp_parse);
        }
        let mut roots: Vec<usize> = Vec::new();
        let ghost t = old(self).tokens@;
        proof {
            assert(errs_view(self.errors@) =~= errs_view(old(self).errors@) + Seq::<
                GLox,
            >::empty());
            assert(roots@ =~= Seq::<usize>::empty());
        }
        loop
            invariant
                self.wf(),
                Self::frame(*old(self), *self),
                self.tokens@ == t,
                forall|j: int|
                    0 <= j < roots@.len() ==> (#[trigger] roots@[j]) < self.ast.stmts@.len(),
                ({
                    let p0 = pp_parse(
                        t,
                        old(self).current as int,
                        old(self).evs(),
                        old(self).svs(),
                        old(self).had_error,
                    );
                    let rest = pp_parse(
                        t,
                        self.current as int,
                        self.evs(),
                        self.svs(),
                        self.had_error,
                    );
                    &&& p0.cur == rest.cur
                    &&& p0.exprs == rest.exprs
                    &&& p0.stmts == rest.stmts
                    &&& p0.errs == errs_view(self.errors@).skip(
                        errs_view(old(self).errors@).len() as int,
                    ) + rest.errs
                    &&& errs_view(old(self).errors@).is_prefix_of(errs_view(self.errors@))
                    &&& self.had_error == (old(self).had_error || errs_view(self.errors@).len()
                        > errs_view(old(self).errors@).len())
                    &&& p0.roots == roots@ + rest.roots
                }),
            ensures
                self.cur_tt() == TokenType::Eof,
                ({
                    let p0 = pp_parse(
                        t,
                        old(self).current as int,
                        old(self).evs(),
                        old(self).svs(),
                        old(self).had_error,
                    );
                    &&& p0.cur == self.current as int
                    &&& p0.exprs == self.evs()
                    &&& p0.stmts == self.svs()
                    &&& p0.errs == errs_view(self.errors@).skip(
                        errs_view(old(self).errors@).len() as int,
                    )
                    &&& errs_view(old(self).errors@).is_prefix_of(errs_view(self.errors@))
                    &&& self.had_error == (old(self).had_error || errs_view(self.errors@).len()
                        > errs_view(old(self).errors@).len())
                    &&& p0.roots == roots@
                }),
            decreases self.tokens@.len() - self.current,
        {
            proof {
                reveal(pp_parse);
                reveal(pp_declaration);
            }
            if self.is_at_end() {
                break ;
            }
            let before = self.current;
            let ghost pre = *self;
            let ghost roots_pre = roots@;
            match self.declaration() {
                Some(id) => roots.push(id),
                None => {},
            }
            proof {
                let d = pp_declaration(t, pre.current as int, pre.evs(), pre.svs(), pre.had_error);
                assert(errs_view(self.errors@).skip(errs_view(old(self).errors@).len() as int)
                    =~= errs_view(pre.errors@).skip(errs_view(old(self).errors@).len() as int)
                    + d.errs);
                match d.node {
                    Some(id) => {
                        assert(roots@ =~= roots_pre.push(id));
                        assert(roots@ =~= roots_pre + seq![id]);
                    },
                    None => {
                        assert(roots@ =~= roots_pre + Seq::<usize>::empty());
                    },
                }
                if self.current > before {
                    assert((roots_pre + (match d.node {
                        Some(id) => seq![id],
                        None => Seq::<usize>::empty(),
                    })) + pp_parse(t, self.current as int, self.evs(), self.svs(), self.had_error).roots
                        =~= roots_pre + ((match d.node {
                        Some(id) => seq![id],
                        None => Seq::<usize>::empty(),
                    }) + pp_parse(t, self.current as int, self.evs(), self.svs(), self.had_error).roots));
                    assert((errs_view(pre.errors@).skip(errs_view(old(self).errors@).len() as int)
                        + d.errs) + pp_parse(
                        t,
                        self.current as int,
                        self.evs(),
                        self.svs(),
                        self.had_error,
                    ).errs =~= errs_view(pre.errors@).skip(
                        errs_view(old(self).errors@).len() as int,
                    ) + (d.errs + pp_parse(
                        t,
                        self.current as int,
                        self.evs(),
                        self.svs(),
                        self.had_error,
                    ).errs));
                }
            }
            if self.current == before {
                break ;
            }
        }
        roots
    }

    /// One declaration or statement; on a parse error the statement is
    /// abandoned, the error recorded, and the parser synchronised, so the
    /// next statement can be tried.
    #[verifier::rlimit(100)]
    #[verifier::spinoff_prover]
    fn declaration(&mut self) -> (r: Option<usize>)
        requires
            old(self).wf(),
        ensures
            final(self).wf(),
            final(self).tokens@ == old(self).tokens@,
            old(self).current <= final(self).current,
            old(self).ast.exprs@.is_prefix_of(final(self).ast.exprs@),
            old(self).ast.stmts@.is_prefix_of(final(self).ast.stmts@),
            r matches Some(id) ==> id < final(self).ast.stmts@.len() && final(self).current
                > old(self).current,
            final(self).current == old(self).current ==> final(self).cur_tt() == TokenType::Eof,
            ({
                let d = pp_declaration(
                    old(self).tokens@,
                    old(self).current as int,
                    old(self).evs(),
                    old(self).svs(),
                    old(self).had_error,
                );
                &&& final(self).current as int == d.cur
                &&& final(self).evs() == d.exprs
                &&& final(self).svs() == d.stmts
                &&& r == d.node
                &&& errs_view(final(self).errors@) == errs_view(old(self).errors@) + d.errs
                &&& final(self).had_error == (old(self).had_error || d.errs.len() > 0)
            }),
        decreases self.tokens@.len() - self.current, 29int,
    {
        proof {
            reveal(pp_declaration);
        }
        let result = if self.is_match(TokenType::Fun) {
            self.function()
        } else if self.is_match(TokenType::Var) {
            self.var_declaration()
        } else {
            self.statement()
        };
        match result {
            Ok(id) => Some(id),
            Err(e) => {
                let ghost pre_errs = self.errors@;
                let ghost mid = errs_view(self.errors@).skip(
                    errs_view(old(self).errors@).len() as int,
                );
                let ghost gerr = e;
                proof {
                    assert(errs_view(pre_errs) =~= errs_view(old(self).errors@) + mid);
                }
                self.errors.push(e);
                self.had_error = true;
                proof {
                    lemma_errs_view_push(pre_errs, gerr);
                    lemma_errs_concat_push(errs_view(old(self).errors@), mid, gerr@);
                }
                self.synchronise();
                None
            },
        }
    }

    /// One statement: `break`, `for`, `if`, `print`, `return`, `while`, a
    /// block, or an expression statement.
    #[verifier::rlimit(100)]
    #[verifier::spinoff_prover]
    fn statement(&mut self) -> (r: Result<usize, LoxResult>)
        requires
            old(self).wf(),
        ensures
            Self::stmt_post(
                *old(self),
                *final(self),
                r,
                pp_statement(
                    old(self).tokens@,
                    old(self).current as int,
                    old(self).evs(),
                    old(self).svs(),
                    old(self).had_error,
                ),
            ),
        decreases self.tokens@.len() - self.current, 28int,
    {
        proof {
            reveal(pp_statement);
        }
        if self.is_match(TokenType::Break) {
            let token = self.previous().clone();
            match self.consume(TokenType::Semicolon, "Expect ';' after 'break'.") {
                Ok(_) => {},
                Err(e) => {
                    proof {
                        assert(errs_view(self.errors@) =~= errs_view(old(self).errors@) + Seq::<
                            GLox,
                        >::empty());
                    }
                    return Err(e);
                },
            }
            let node = Stmt::Break(BreakStmt { token });
            let ghost gnode = node;
            let ghost pre = self.ast.stmts@;
            let id = self.ast.push_stmt(node);
            proof {
                lemma_stmts_view_push(pre, gnode);
                assert(errs_view(self.errors@) =~= errs_view(old(self).errors@) + Seq::<
                    GLox,
                >::empty());
            }
            return Ok(id);
        }
        if self.is_match(TokenType::For) {
            return self.for_statement();
        }
        if self.is_match(TokenType::If) {
            return self.if_statement();
        }
        if self.is_match(TokenType::Print) {
            return self.print_statement();
        }
        if self.is_match(TokenType::Return) {
            return self.return_statement();
        }
        if self.is_match(TokenType::While) {
            return self.while_statement();
        }
        if self.is_match(TokenType::LeftBrace) {
            let statements = match self.block() {
                Ok(v) => v,
                Err(e) => {
                    return Err(e);
                },
            };
            let node = Stmt::Block(BlockStmt { statements });
            let ghost gnode = node;
            let ghost pre = self.ast.stmts@;
            let id = self.ast.push_stmt(node);
            proof {
                lemma_stmts_view_push(pre, gnode);
            }
            return Ok(id);
        }
        self.expression_statement()
    }

    /// `return` with an optional value, ended by `;`.
    #[verifier::rlimit(100)]
    #[verifier::spinoff_prover]
    fn return_statement(&mut self) -> (r: Result<usize, LoxResult>)
        requires
            old(self).wf(),
            old(self).current > 0,
        ensures
            Self::stmt_post(
                *old(self),
                *final(self),
                r,
                pp_return_statement(
                    old(self).tokens@,
                    old(self).current as int,
                    old(self).evs(),
                    old(self).svs(),
                ),
            ),
        decreases self.tokens@.len() - self.current, 21int,
    {
        proof {
            reveal(pp_return_statement);
        }
        let keyword = self.previous().clone();
        let value = if !self.check(TokenType::Semicolon) {
            match self.expression() {
                Ok(id) => Some(id),
                Err(e) => {
                    proof {
                        assert(errs_view(self.errors@) =~= errs_view(old(self).errors@) + Seq::<
                            GLox,
                        >::empty());
                    }
                    return Err(e);
                },
            }
        } else {
            None
        };
        match self.consume(TokenType::Semicolon, "Expect ';' after return value.") {
            Ok(_) => {},
            Err(e) => {
                proof {
                    assert(errs_view(self.errors@) =~= errs_view(old(self).errors@) + Seq::<
                        GLox,
                    >::empty());
                }
                return Err(e);
            },
        }
        let node = Stmt::Return(ReturnStmt { token: keyword, value });
        let ghost gnode = node;
        let ghost pre = self.ast.stmts@;
        let id = self.ast.push_stmt(node);
        proof {
            lemma_stmts_view_push(pre, gnode);
            assert(errs_view(self.errors@) =~= errs_view(old(self).errors@) + Seq::<
                GLox,
            >::empty());
        }
        Ok(id)
    }

    /// `for`, desugared: the increment is appended to the body, the
    /// missing condition becomes `true`, and the initializer wraps the
    /// loop in a block — there is no dedicated loop node.
    #[verifier::rlimit(100)]
    #[verifier::spinoff_prover]
    fn for_statement(&mut self) -> (r: Result<usize, LoxResult>)
        requires
            old(self).wf(),
        ensures
            Self::stmt_post(
                *old(self),
                *final(self),
                r,
                pp_for_statement(
                    old(self).tokens@,
                    old(self).current as int,
                    old(self).evs(),
                    old(self).svs(),
                    old(self).had_error,
                ),
            ),
        decreases self.tokens@.len() - self.current, 24int,
    {
        proof {
            reveal(pp_for_statement);
            reveal(pp_var_declaration);
            reveal(pp_expression_statement);
        }
        match self.consume(TokenType::LeftParen, "Expect '(' after 'for'.") {
            Ok(_) => {},
            Err(e) => {
                proof {
                    assert(errs_view(self.errors@) =~= errs_view(old(self).errors@) + Seq::<
                        GLox,
                    >::empty());
                }
                return Err(e);
            },
        }
        let initializer = if self.is_match(TokenType::Semicolon) {
            None
        } else if self.is_match(TokenType::Var) {
            match self.var_declaration() {
                Ok(id) => Some(id),
                Err(e) => {
                    return Err(e);
                },
            }
        } else {
            match self.expression_statement() {
                Ok(id) => Some(id),
                Err(e) => {
                    return Err(e);
                },
            }
        };
        let condition = if !self.check(TokenType::Semicolon) {
            match self.expression() {
                Ok(id) => Some(id),
                Err(e) => {
                    proof {
                        assert(errs_view(self.errors@) =~= errs_view(old(self).errors@) + Seq::<
                            GLox,
                        >::empty());
                    }
                    return Err(e);
                },
            }
        } else {
            None
        };
        match self.consume(TokenType::Semicolon, "Expect ';' after loop condition.") {
            Ok(_) => {},
            Err(e) => {
                proof {
                    assert(errs_view(self.errors@) =~= errs_view(old(self).errors@) + Seq::<
                        GLox,
                    >::empty());
                }
                return Err(e);
            },
        }
        let increment = if !self.check(TokenType::RightParen) {
            match self.expression() {
                Ok(id) => Some(id),
                Err(e) => {
                    proof {
                        assert(errs_view(self.errors@) =~= errs_view(old(self).errors@) + Seq::<
                            GLox,
                        >::empty());
                    }
                    return Err(e);
                },
            }
        } else {
            None
        };
        match self.consume(TokenType::RightParen, "Expect ')' after for clauses.") {
            Ok(_) => {},
            Err(e) => {
                proof {
                    assert(errs_view(self.errors@) =~= errs_view(old(self).errors@) + Seq::<
                        GLox,
                    >::empty());
                }
                return Err(e);
            },
        }
        let mut body = match self.statement() {
            Ok(id) => id,
            Err(e) => {
                return Err(e);
            },
        };
        if let Some(inc) = increment {
            let inc_node = Stmt::Expression(ExpressionStmt { expression: inc });
            let ghost ginc = inc_node;
            let ghost pre1 = self.ast.stmts@;
            let inc_stmt = self.ast.push_stmt(inc_node);
            proof {
                lemma_stmts_view_push(pre1, ginc);
            }
            let mut statements: Vec<usize> = Vec::new();
            statements.push(body);
            statements.push(inc_stmt);
            proof {
                assert(statements@ =~= seq![body, inc_stmt]);
            }
            let blk = Stmt::Block(BlockStmt { statements });
            let ghost gblk = blk;
            let ghost pre2 = self.ast.stmts@;
            body = self.ast.push_stmt(blk);
            proof {
                lemma_stmts_view_push(pre2, gblk);
            }
        }
        let cond = match condition {
            Some(c) => c,
            None => {
                let lit = Expr::Literal(LiteralExpr { value: Some(Object::Bool(true)) });
                let ghost glit = lit;
                let ghost pre3 = self.ast.exprs@;
                let c = self.ast.push_expr(lit);
                proof {
                    lemma_exprs_view_push(pre3, glit);
                }
                c
            },
        };
        let wnode = Stmt::While(WhileStmt { condition: cond, body });
        let ghost gw = wnode;
        let ghost pre4 = self.ast.stmts@;
        body = self.ast.push_stmt(wnode);
        proof {
            lemma_stmts_view_push(pre4, gw);
        }
        if let Some(init) = initializer {
            let mut statements: Vec<usize> = Vec::new();
            statements.push(init);
            statements.push(body);
            proof {
                assert(statements@ =~= seq![init, body]);
            }
            let blk = Stmt::Block(BlockStmt { statements });
            let ghost gblk = blk;
            let ghost pre5 = self.ast.stmts@;
            body = self.ast.push_stmt(blk);
            proof {
                lemma_stmts_view_push(pre5, gblk);
            }
        }
        Ok(body)
    }

    /// `if` with an optional `else` bound to the nearest unmatched `if`.
    #[verifier::rlimit(100)]
    #[verifier::spinoff_prover]
    fn if_statement(&mut self) -> (r: Result<usize, LoxResult>)
        requires
            old(self).wf(),
        ensures
            Self::stmt_post(
                *old(self),
                *final(self),
                r,
                pp_if_statement(
                    old(self).tokens@,
                    old(self).current as int,
                    old(self).evs(),
                    old(self).svs(),
                    old(self).had_error,
                ),
            ),
        decreases self.tokens@.len() - self.current, 24int,
    {
        proof {
            reveal(pp_if_statement);
        }
        match self.consume(TokenType::LeftParen, "Expect '(' after 'if'.") {
            Ok(_) => {},
            Err(e) => {
                proof {
                    assert(errs_view(self.errors@) =~= errs_view(old(self).errors@) + Seq::<
                        GLox,
                    >::empty());
                }
                return Err(e);
            },
        }
        let condition = match self.expression() {
            Ok(id) => id,
            Err(e) => {
                proof {
                    assert(errs_view(self.errors@) =~= errs_view(old(self).errors@) + Seq::<
                        GLox,
                    >::empty());
                }
                return Err(e);
            },
        };
        match self.consume(TokenType::RightParen, "Expect '(' after 'if'.") {
            Ok(_) => {},
            Err(e) => {
                proof {
                    assert(errs_view(self.errors@) =~= errs_view(old(self).errors@) + Seq::<
                        GLox,
                    >::empty());
                }
                return Err(e);
            },
        }
        let then_branch = match self.statement() {
            Ok(id) => id,
            Err(e) => {
                return Err(e);
            },
        };
        if self.is_match(TokenType::Else) {
            let ghost t0 = old(self).tokens@;
            let ghost cterm = pp_expression(
                t0,
                old(self).current + 1,
                old(self).evs(),
                old(self).svs(),
            );
            let ghost tterm = pp_statement(
                t0,
                cterm.cur + 1,
                cterm.exprs,
                cterm.stmts,
                old(self).had_error,
            );
            let else_branch = match self.statement() {
                Ok(id) => Some(id),
                Err(e) => {
                    proof {
                        lemma_errs_assoc(
                            errs_view(old(self).errors@),
                            tterm.errs,
                            pp_statement(
                                t0,
                                tterm.cur + 1,
                                tterm.exprs,
                                tterm.stmts,
                                old(self).had_error || tterm.errs.len() > 0,
                            ).errs,
                        );
                    }
                    return Err(e);
                },
            };
            let node = Stmt::If(IfStmt { condition, then_branch, else_branch });
            let ghost gnode = node;
            let ghost pre = self.ast.stmts@;
            let id = self.ast.push_stmt(node);
            proof {
                lemma_stmts_view_push(pre, gnode);
                lemma_errs_assoc(
                    errs_view(old(self).errors@),
                    tterm.errs,
                    pp_statement(
                        t0,
                        tterm.cur + 1,
                        tterm.exprs,
                        tterm.stmts,
                        old(self).had_error || tterm.errs.len() > 0,
                    ).errs,
                );
            }
            Ok(id)
        } else {
            let node = Stmt::If(IfStmt { condition, then_branch, else_branch: None });
            let ghost gnode = node;
            let ghost pre = self.ast.stmts@;
            let id = self.ast.push_stmt(node);
            proof {
                lemma_stmts_view_push(pre, gnode);
            }
            Ok(id)
        }
    }

    /// `while` with a parenthesized condition.
    #[verifier::rlimit(100)]
    #[verifier::spinoff_prover]
    fn while_statement(&mut self) -> (r: Result<usize, LoxResult>)
        requires
            old(self).wf(),
        ensures
            Self::stmt_post(
                *old(self),
                *final(self),
                r,
                pp_while_statement(
                    old(self).tokens@,
                    old(self).current as int,
                    old(self).evs(),
                    old(self).svs(),
                    old(self).had_error,
                ),
            ),
        decreases self.tokens@.len() - self.current, 24int,
    {
        proof {
            reveal(pp_while_statement);
        }
        match self.consume(TokenType::LeftParen, "Expect '(' after 'while'.") {
            Ok(_) => {},
            Err(e) => {
                proof {
                    assert(errs_view(self.errors@) =~= errs_view(old(self).errors@) + Seq::<
                        GLox,
                    >::empty());
                }
                return Err(e);
            },
        }
        let condition = match self.expression() {
            Ok(id) => id,
            Err(e) => {
                proof {
                    assert(errs_view(self.errors@) =~= errs_view(old(self).errors@) + Seq::<
                        GLox,
                    >::empty());
                }
                return Err(e);
            },
        };
        match self.consume(TokenType::RightParen, "Expect ')' after 'while'.") {
            Ok(_) => {},
            Err(e) => {
                proof {
                    assert(errs_view(self.errors@) =~= errs_view(old(self).errors@) + Seq::<
                        GLox,
                    >::empty());
                }
                return Err(e);
            },
        }
        let body = match self.statement() {
            Ok(id) => id,
            Err(e) => {
                return Err(e);
            },
        };
        let node = Stmt::While(WhileStmt { condition, body });
        let ghost gnode = node;
        let ghost pre = self.ast.stmts@;
        let id = self.ast.push_stmt(node);
        proof {
            lemma_stmts_view_push(pre, gnode);
        }
        Ok(id)
    }

    /// `var name` with an optional initializer, ended by `;`.
    #[verifier::rlimit(100)]
    #[verifier::spinoff_prover]
    fn var_declaration(&mut self) -> (r: Result<usize, LoxResult>)
        requires
            old(self).wf(),
        ensures
            Self::stmt_post(
                *old(self),
                *final(self),
                r,
                pp_var_declaration(
                    old(self).tokens@,
                    old(self).current as int,
                    old(self).evs(),
                    old(self).svs(),
                ),
            ),
        decreases self.tokens@.len() - self.current, 21int,
    {
        proof {
            reveal(pp_var_declaration);
        }
        match self.consume(TokenType::Identifier, "Expect variable name.") {
            Ok(_) => {},
            Err(e) => {
                proof {
                    assert(errs_view(self.errors@) =~= errs_view(old(self).errors@) + Seq::<
                        GLox,
                    >::empty());
                }
                return Err(e);
            },
        }
        let name = self.previous().clone();
        let initializer = if self.is_match(TokenType::Equal) {
            match self.expression() {
                Ok(id) => Some(id),
                Err(e) => {
                    proof {
                        assert(errs_view(self.errors@) =~= errs_view(old(self).errors@) + Seq::<
                            GLox,
                        >::empty());
                    }
                    return Err(e);
                },
            }
        } else {
            None
        };
        match self.consume(TokenType::Semicolon, "Expect ';' after variable declaration.") {
            Ok(_) => {},
            Err(e) => {
                proof {
                    assert(errs_view(self.errors@) =~= errs_view(old(self).errors@) + Seq::<
                        GLox,
                    >::empty());
                }
                return Err(e);
            },
        }
        let node = Stmt::Var(VarStmt { name, initializer });
        let ghost gnode = node;
        let ghost pre = self.ast.stmts@;
        let id = self.ast.push_stmt(node);
        proof {
            lemma_stmts_view_push(pre, gnode);
            assert(errs_view(self.errors@) =~= errs_view(old(self).errors@) + Seq::<
                GLox,
            >::empty());
        }
        Ok(id)
    }

    /// `print expr;`
    #[verifier::rlimit(100)]
    #[verifier::spinoff_prover]
    fn print_statement(&mut self) -> (r: Result<usize, LoxResult>)
        requires
            old(self).wf(),
        ensures
            Self::stmt_post(
                *old(self),
                *final(self),
                r,
                pp_print_statement(
                    old(self).tokens@,
                    old(self).current as int,
                    old(self).evs(),
                    old(self).svs(),
                ),
            ),
        decreases self.tokens@.len() - self.current, 21int,
    {
        proof {
            reveal(pp_print_statement);
        }
        let expr = match self.expression() {
            Ok(id) => id,
            Err(e) => {
                proof {
                    assert(errs_view(self.errors@) =~= errs_view(old(self).errors@) + Seq::<
                        GLox,
                    >::empty());
                }
                return Err(e);
            },
        };
        match self.consume(TokenType::Semicolon, "Expect ';' after value.") {
            Ok(_) => {},
            Err(e) => {
                proof {
                    assert(errs_view(self.errors@) =~= errs_view(old(self).errors@) + Seq::<
                        GLox,
                    >::empty());
                }
                return Err(e);
            },
        }
        let node = Stmt::Print(PrintStmt { expression: expr });
        let ghost gnode = node;
        let ghost pre = self.ast.stmts@;
        let id = self.ast.push_stmt(node);
        proof {
            lemma_stmts_view_push(pre, gnode);
            assert(errs_view(self.errors@) =~= errs_view(old(self).errors@) + Seq::<
                GLox,
            >::empty());
        }
        Ok(id)
    }

    /// A bare expression evaluated for effect, ended by `;`.
    #[verifier::rlimit(100)]
    #[verifier::spinoff_prover]
    fn expression_statement(&mut self) -> (r: Result<usize, LoxResult>)
        requires
            old(self).wf(),
        ensures
            Self::stmt_post(
                *old(self),
                *final(self),
                r,
                pp_expression_statement(
                    old(self).tokens@,
                    old(self).current as int,
                    old(self).evs(),
                    old(self).svs(),
                ),
            ),
        decreases self.tokens@.len() - self.current, 21int,
    {
        proof {
            reveal(pp_expression_statement);
        }
        let expr = match self.expression() {
            Ok(id) => id,
            Err(e) => {
                proof {
                    assert(errs_view(self.errors@) =~= errs_view(old(self).errors@) + Seq::<
                        GLox,
                    >::empty());
                }
                return Err(e);
            },
        };
        match self.consume(TokenType::Semicolon, "Expect ';' after value.") {
            Ok(_) => {},
            Err(e) => {
                proof {
                    assert(errs_view(self.errors@) =~= errs_view(old(self).errors@) + Seq::<
                        GLox,
                    >::empty());
                }
                return Err(e);
            },
        }
        let node = Stmt::Expression(ExpressionStmt { expression: expr });
        let ghost gnode = node;
        let ghost pre = self.ast.stmts@;
        let id = self.ast.push_stmt(node);
        proof {
            lemma_stmts_view_push(pre, gnode);
            assert(errs_view(self.errors@) =~= errs_view(old(self).errors@) + Seq::<
                GLox,
            >::empty());
        }
        Ok(id)
    }

    /// A function declaration: name, parenthesized parameters (at most
    /// 255, checked informatively and skipped once an earlier error was
    /// recorded), and a block body.
    #[verifier::rlimit(100)]
    #[verifier::spinoff_prover]
    fn function(&mut self) -> (r: Result<usize, LoxResult>)
        requires
            old(self).wf(),
        ensures
            Self::stmt_post(
                *old(self),
                *final(self),
                r,
                pp_function(
                    old(self).tokens@,
                    old(self).current as int,
                    old(self).evs(),
                    old(self).svs(),
                    old(self).had_error,
                ),
            ),
        decreases self.tokens@.len() - self.current, 24int,
    {
        proof {
            reveal(pp_params_rest);
        }
        proof {
            reveal(pp_function);
            reveal(pp_params_rest);
        }
        let ghost t = old(self).tokens@;
        match self.consume(TokenType::Identifier, "Expect function name.") {
            Ok(_) => {},
            Err(e) => {
                proof {
                    assert(errs_view(self.errors@) =~= errs_view(old(self).errors@) + Seq::<
                        GLox,
                    >::empty());
                }
                return Err(e);
            },
        }
        let fn_name = self.previous().clone();
        match self.consume(TokenType::LeftParen, "Expect '(' after function name.") {
            Ok(_) => {},
            Err(e) => {
                proof {
                    assert(errs_view(self.errors@) =~= errs_view(old(self).errors@) + Seq::<
                        GLox,
                    >::empty());
                }
                return Err(e);
            },
        }
        let mut parameters: Vec<Token> = Vec::new();
        if !self.check(TokenType::RightParen) {
            match self.consume(TokenType::Identifier, "Expect parameter name.") {
                Ok(_) => {},
                Err(e) => {
                    proof {
                        assert(errs_view(self.errors@) =~= errs_view(old(self).errors@) + Seq::<
                            GLox,
                        >::empty());
                    }
                    return Err(e);
                },
            }
            parameters.push(self.previous().clone());
            let ghost entry_cur = self.current as int;
            let ghost entry_acc = parameters@.map_values(|tk: Token| tk@);
            proof {
                assert(entry_acc =~= seq![peek_tok(t, entry_cur - 1)]);
            }
            while self.check(TokenType::Comma)
                invariant
                    self.wf(),
                    Self::frame(*old(self), *self),
                    self.tokens@ == t,
                    self.errors@ == old(self).errors@,
                    self.had_error == old(self).had_error,
                    self.ast == old(self).ast,
                    entry_cur <= self.current as int,
                    entry_cur == old(self).current + 3,
                    entry_acc == seq![peek_tok(t, old(self).current + 2)],
                    pcheck(t, old(self).current as int, TokenType::Identifier),
                    pcheck(t, old(self).current + 1, TokenType::LeftParen),
                    !pcheck(t, old(self).current + 2, TokenType::RightParen),
                    pcheck(t, old(self).current + 2, TokenType::Identifier),
                    pp_params_rest(t, entry_cur, entry_acc, old(self).had_error)
                        == pp_params_rest(
                        t,
                        self.current as int,
                        parameters@.map_values(|tk: Token| tk@),
                        old(self).had_error,
                    ),
                decreases self.tokens@.len() - self.current,
            {
                proof {
                    reveal(pp_params_rest);
                    reveal(pp_function);
                }
                self.advance();
                if parameters.len() >= 255 && !self.had_error {
                    proof {
                        assert(errs_view(self.errors@) =~= errs_view(old(self).errors@) + Seq::<
                            GLox,
                        >::empty());
                    }
                    return Err(
                        LoxResult::pares_error(
                            self.peek().clone(),
                            "Can't have more than 255 parameters.",
                        ),
                    );
                }
                match self.consume(TokenType::Identifier, "Expect parameter name.") {
                    Ok(_) => {},
                    Err(e) => {
                        proof {
                            assert(errs_view(self.errors@) =~= errs_view(old(self).errors@)
                                + Seq::<GLox>::empty());
                        }
                        return Err(e);
                    },
                }
                let ghost acc_pre = parameters@.map_values(|tk: Token| tk@);
                parameters.push(self.previous().clone());
                proof {
                    assert(parameters@.map_values(|tk: Token| tk@) =~= acc_pre.push(
                        peek_tok(t, self.current - 1),
                    ));
                }
            }
        }
        proof {
            if parameters@.len() == 0 {
                assert(parameters@.map_values(|tk: Token| tk@) =~= Seq::<GToken>::empty());
            }
        }
        match self.consume(TokenType::RightParen, "Expect ')' after parameters.") {
            Ok(_) => {},
            Err(e) => {
                proof {
                    assert(errs_view(self.errors@) =~= errs_view(old(self).errors@) + Seq::<
                        GLox,
                    >::empty());
                }
                return Err(e);
            },
        }
        match self.consume(TokenType::LeftBrace, "Expect '{' before function body.") {
            Ok(_) => {},
            Err(e) => {
                proof {
                    assert(errs_view(self.errors@) =~= errs_view(old(self).errors@) + Seq::<
                        GLox,
                    >::empty());
                }
                return Err(e);
            },
        }
        let body = match self.block() {
            Ok(v) => v,
            Err(e) => {
                return Err(e);
            },
        };
        let node = Stmt::Function(FunctionStmt { name: fn_name, params: parameters, body });
        let ghost gnode = node;
        let ghost pre = self.ast.stmts@;
        let id = self.ast.push_stmt(node);
        proof {
            lemma_stmts_view_push(pre, gnode);
        }
        Ok(id)
    }

    /// The statements of a block, up to the closing `}`, with the same
    /// per-statement recovery as at the top level.
    #[verifier::rlimit(100)]
    #[verifier::spinoff_prover]
    fn block(&mut self) -> (r: Result<Vec<usize>, LoxResult>)
        requires
            old(self).wf(),
        ensures
            final(self).wf(),
            Self::frame(*old(self), *final(self)),
            ({
                let b = pp_block(
                    old(self).tokens@,
                    old(self).current as int,
                    old(self).evs(),
                    old(self).svs(),
                    old(self).had_error,
                );
                &&& final(self).current as int == b.cur
                &&& final(self).evs() == b.exprs
                &&& final(self).svs() == b.stmts
                &&& (match (r, b.list) {
                    (Ok(v), Ok(s)) => v@ == s,
                    (Err(e1), Err(e2)) => e1@ == e2,
                    _ => false,
                })
                &&& errs_view(final(self).errors@) == errs_view(old(self).errors@) + b.errs
                &&& final(self).had_error == (old(self).had_error || b.errs.len() > 0)
            }),
            r matches Ok(ids) ==> forall|j: int|
                0 <= j < ids@.len() ==> (#[trigger] ids@[j]) < final(self).ast.stmts@.len(),
        decreases self.tokens@.len() - self.current, 32int,
    {
        proof {
            reveal(pp_block_items);
            reveal(pp_declaration);
        }
        proof {
            reveal(pp_block);
            reveal(pp_block_items);
        }
        let mut statements: Vec<usize> = Vec::new();
        let ghost t = old(self).tokens@;
        proof {
            assert(errs_view(self.errors@) =~= errs_view(old(self).errors@) + Seq::<
                GLox,
            >::empty());
            assert(statements@ =~= Seq::<usize>::empty());
        }
        loop
            invariant
                self.wf(),
                Self::frame(*old(self), *self),
                self.tokens@ == t,
                forall|j: int|
                    0 <= j < statements@.len() ==> (#[trigger] statements@[j])
                        < self.ast.stmts@.len(),
                ({
                    let b0 = pp_block_items(
                        t,
                        old(self).current as int,
                        old(self).evs(),
                        old(self).svs(),
                        old(self).had_error,
                    );
                    let rest = pp_block_items(
                        t,
                        self.current as int,
                        self.evs(),
                        self.svs(),
                        self.had_error,
                    );
                    &&& b0.cur == rest.cur
                    &&& b0.exprs == rest.exprs
                    &&& b0.stmts == rest.stmts
                    &&& b0.errs == errs_view(self.errors@).skip(
                        errs_view(old(self).errors@).len() as int,
                    ) + rest.errs
                    &&& errs_view(old(self).errors@).is_prefix_of(errs_view(self.errors@))
                    &&& self.had_error == (old(self).had_error || errs_view(self.errors@).len()
                        > errs_view(old(self).errors@).len())
                    &&& b0.ids == statements@ + rest.ids
                }),
            ensures
                ({
                    let b0 = pp_block_items(
                        t,
                        old(self).current as int,
                        old(self).evs(),
                        old(self).svs(),
                        old(self).had_error,
                    );
                    &&& b0.cur == self.current as int
                    &&& b0.exprs == self.evs()
                    &&& b0.stmts == self.svs()
                    &&& b0.errs == errs_view(self.errors@).skip(
                        errs_view(old(self).errors@).len() as int,
                    )
                    &&& errs_view(old(self).errors@).is_prefix_of(errs_view(self.errors@))
                    &&& self.had_error == (old(self).had_error || errs_view(self.errors@).len()
                        > errs_view(old(self).errors@).len())
                    &&& b0.ids == statements@
                }),
            decreases self.tokens@.len() - self.current,
        {
            proof {
                reveal(pp_block_items);
                reveal(pp_declaration);
            }
            if self.check(TokenType::RightBrace) || self.is_at_end() {
                break ;
            }
            let before = self.current;
            let ghost pre = *self;
            let ghost stmts_pre = statements@;
            match self.declaration() {
                Some(id) => statements.push(id),
                None => {},
            }
            proof {
                let d = pp_declaration(t, pre.current as int, pre.evs(), pre.svs(), pre.had_error);
                assert(errs_view(self.errors@).skip(errs_view(old(self).errors@).len() as int)
                    =~= errs_view(pre.errors@).skip(errs_view(old(self).errors@).len() as int)
                    + d.errs);
                match d.node {
                    Some(id) => {
                        assert(statements@ =~= stmts_pre + seq![id]);
                    },
                    None => {
                        assert(statements@ =~= stmts_pre + Seq::<usize>::empty());
                    },
                }
                if self.current > before {
                    let rest = pp_block_items(
                        t,
                        self.current as int,
                        self.evs(),
                        self.svs(),
                        self.had_error,
                    );
                    assert((stmts_pre + (match d.node {
                        Some(id) => seq![id],
                        None => Seq::<usize>::empty(),
                    })) + rest.ids =~= stmts_pre + ((match d.node {
                        Some(id) => seq![id],
                        None => Seq::<usize>::empty(),
                    }) + rest.ids));
                    assert((errs_view(pre.errors@).skip(errs_view(old(self).errors@).len() as int)
                        + d.errs) + rest.errs =~= errs_view(pre.errors@).skip(
                        errs_view(old(self).errors@).len() as int,
                    ) + (d.errs + rest.errs));
                }
            }
            if self.current == before {
                break ;
            }
        }
        match self.consume(TokenType::RightBrace, "expect '}' after block.") {
            Ok(_) => {},
            Err(e) => {
                return Err(e);
            },
        }
        Ok(statements)
    }

    /// An expression: the bottom of the precedence ladder is assignment.
    #[verifier::rlimit(100)]
    #[verifier::spinoff_prover]
    fn expression(&mut self) -> (r: Result<usize, LoxResult>)
        requires
            old(self).wf(),
        ensures
            Self::expr_post(
                *old(self),
                *final(self),
                r,
                pp_expression(
                    old(self).tokens@,
                    old(self).current as int,
                    old(self).evs(),
                    old(self).svs(),
                ),
            ),
        decreases self.tokens@.len() - self.current, 19int,
    {
        proof {
            reveal(pp_expression);
        }
        self.assignment()
    }

    /// Assignment: right-associative, and only legal when the left-hand
    /// side parsed as a bare variable reference; any other shape is a
    /// parse error at the `=` token.
    #[verifier::rlimit(100)]
    #[verifier::spinoff_prover]
    fn assignment(&mut self) -> (r: Result<usize, LoxResult>)
        requires
            old(self).wf(),
        ensures
            Self::expr_post(
                *old(self),
                *final(self),
                r,
                pp_assignment(
                    old(self).tokens@,
                    old(self).current as int,
                    old(self).evs(),
                    old(self).svs(),
                ),
            ),
        decreases self.tokens@.len() - self.current, 18int,
    {
        proof {
            reveal(pp_assignment);
        }
        let expr = match self.or() {
            Ok(id) => id,
            Err(e) => {
                return Err(e);
            },
        };
        if self.is_match(TokenType::Equal) {
            let equals = self.previous().clone();
            let value = match self.assignment() {
                Ok(id) => id,
                Err(e) => {
                    return Err(e);
                },
            };
            let name = match &self.ast.exprs[expr] {
                Expr::Variable(v) => v.name.clone(),
                _ => {
                    return Err(LoxResult::pares_error(equals, "Invalid assignment target."));
                },
            };
            let node = Expr::Assign(AssignExpr { name, value });
            let ghost gnode = node;
            let ghost pre = self.ast.exprs@;
            let id = self.ast.push_expr(node);
            proof {
                lemma_exprs_view_push(pre, gnode);
            }
            return Ok(id);
        }
        Ok(expr)
    }

    /// Short-circuiting `or`, folding left-associatively over `and`.
    #[verifier::rlimit(100)]
    #[verifier::spinoff_prover]
    fn or(&mut self) -> (r: Result<usize, LoxResult>)
        requires
            old(self).wf(),
        ensures
            Self::expr_post(
                *old(self),
                *final(self),
                r,
                pp_or(
                    old(self).tokens@,
                    old(self).current as int,
                    old(self).evs(),
                    old(self).svs(),
                ),
            ),
        decreases self.tokens@.len() - self.current, 16int,
    {
        proof {
            reveal(pp_or_rest);
            reveal(pp_and);
        }
        proof {
            reveal(pp_or);
            reveal(pp_or_rest);
        }
        let ghost t = old(self).tokens@;
        let mut expr = match self.and() {
            Ok(id) => id,
            Err(e) => {
                return Err(e);
            },
        };
        while self.check(TokenType::Or)
            invariant
                self.wf(),
                Self::frame(*old(self), *self),
                self.tokens@ == t,
                self.errors@ == old(self).errors@,
                self.had_error == old(self).had_error,
                expr < self.ast.exprs@.len(),
                old(self).current < self.current,
                pp_or(t, old(self).current as int, old(self).evs(), old(self).svs())
                    == pp_or_rest(t, self.current as int, self.evs(), self.svs(), expr),
            decreases self.tokens@.len() - self.current,
        {
            proof {
                reveal(pp_or_rest);
                reveal(pp_and);
            }
            let operator = self.peek().clone();
            self.advance();
            let right = match self.and() {
                Ok(id) => id,
                Err(e) => {
                    return Err(e);
                },
            };
            let node = Expr::Logical(LogicalExpr { left: expr, operator, right });
            let ghost gnode = node;
            let ghost pre = self.ast.exprs@;
            expr = self.ast.push_expr(node);
            proof {
                lemma_exprs_view_push(pre, gnode);
            }
        }
        Ok(expr)
    }

    /// Short-circuiting `and`, folding left-associatively over equality.
    #[verifier::rlimit(100)]
    #[verifier::spinoff_prover]
    fn and(&mut self) -> (r: Result<usize, LoxResult>)
        requires
            old(self).wf(),
        ensures
            Self::expr_post(
                *old(self),
                *final(self),
                r,
                pp_and(
                    old(self).tokens@,
                    old(self).current as int,
                    old(self).evs(),
                    old(self).svs(),
                ),
            ),
        decreases self.tokens@.len() - self.current, 14int,
    {
        proof {
            reveal(pp_and_rest);
            reveal(pp_equality);
        }
        proof {
            reveal(pp_and);
            reveal(pp_and_rest);
        }
        let ghost t = old(self).tokens@;
        let mut expr = match self.equality() {
            Ok(id) => id,
            Err(e) => {
                return Err(e);
            },
        };
        while self.check(TokenType::And)
            invariant
                self.wf(),
                Self::frame(*old(self), *self),
                self.tokens@ == t,
                self.errors@ == old(self).errors@,
                self.had_error == old(self).had_error,
                expr < self.ast.exprs@.len(),
                old(self).current < self.current,
                pp_and(t, old(self).current as int, old(self).evs(), old(self).svs())
                    == pp_and_rest(t, self.current as int, self.evs(), self.svs(), expr),
            decreases self.tokens@.len() - self.current,
        {
            proof {
                reveal(pp_and_rest);
                reveal(pp_equality);
            }
            let operator = self.peek().clone();
            self.advance();
            let right = match self.equality() {
                Ok(id) => id,
                Err(e) => {
                    return Err(e);
                },
            };
            let node = Expr::Logical(LogicalExpr { left: expr, operator, right });
            let ghost gnode = node;
            let ghost pre = self.ast.exprs@;
            expr = self.ast.push_expr(node);
            proof {
                lemma_exprs_view_push(pre, gnode);
            }
        }
        Ok(expr)
    }

    /// `==` and `!=`, folding left-associatively over comparison.
    #[verifier::rlimit(100)]
    #[verifier::spinoff_prover]
    fn equality(&mut self) -> (r: Result<usize, LoxResult>)
        requires
            old(self).wf(),
        ensures
            Self::expr_post(
                *old(self),
                *final(self),
                r,
                pp_equality(
                    old(self).tokens@,
                    old(self).current as int,
                    old(self).evs(),
                    old(self).svs(),
                ),
            ),
        decreases self.tokens@.len() - self.current, 12int,
    {
        proof {
            reveal(pp_equality_rest);
            reveal(pp_comparison);
        }
        proof {
            reveal(pp_equality);
            reveal(pp_equality_rest);
        }
        let ghost t = old(self).tokens@;
        let mut expr = match self.comparison() {
            Ok(id) => id,
            Err(e) => {
                return Err(e);
            },
        };
        while self.check(TokenType::BangEqual) || self.check(TokenType::EqualEqual)
            invariant
                self.wf(),
                Self::frame(*old(self), *self),
                self.tokens@ == t,
                self.errors@ == old(self).errors@,
                self.had_error == old(self).had_error,
                expr < self.ast.exprs@.len(),
                old(self).current < self.current,
                pp_equality(t, old(self).current as int, old(self).evs(), old(self).svs())
                    == pp_equality_rest(t, self.current as int, self.evs(), self.svs(), expr),
            decreases self.tokens@.len() - self.current,
        {
            proof {
                reveal(pp_equality_rest);
                reveal(pp_comparison);
            }
            let operator = self.peek().clone();
            self.advance();
            let right = match self.comparison() {
                Ok(id) => id,
                Err(e) => {
                    return Err(e);
                },
            };
            let node = Expr::Binary(BinaryExpr { left: expr, operator, right });
            let ghost gnode = node;
            let ghost pre = self.ast.exprs@;
            expr = self.ast.push_expr(node);
            proof {
                lemma_exprs_view_push(pre, gnode);
            }
        }
        Ok(expr)
    }

    /// `>`, `>=`, `<`, `<=`, folding left-associatively over term.
    #[verifier::rlimit(100)]
    #[verifier::spinoff_prover]
    fn comparison(&mut self) -> (r: Result<usize, LoxResult>)
        requires
            old(self).wf(),
        ensures
            Self::expr_post(
                *old(self),
                *final(self),
                r,
                pp_comparison(
                    old(self).tokens@,
                    old(self).current as int,
                    old(self).evs(),
                    old(self).svs(),
                ),
            ),
        decreases self.tokens@.len() - self.current, 10int,
    {
        proof {
            reveal(pp_comparison_rest);
            reveal(pp_term);
        }
        proof {
            reveal(pp_comparison);
            reveal(pp_comparison_rest);
        }
        let ghost t = old(self).tokens@;
        let mut expr = match self.term() {
            Ok(id) => id,
            Err(e) => {
                return Err(e);
            },
        };
        while self.check(TokenType::Greater) || self.check(TokenType::GreaterEqual) || self.check(
            TokenType::Less,
        ) || self.check(TokenType::LessEqual)
            invariant
                self.wf(),
                Self::frame(*old(self), *self),
                self.tokens@ == t,
                self.errors@ == old(self).errors@,
                self.had_error == old(self).had_error,
                expr < self.ast.exprs@.len(),
                old(self).current < self.current,
                pp_comparison(t, old(self).current as int, old(self).evs(), old(self).svs())
                    == pp_comparison_rest(t, self.current as int, self.evs(), self.svs(), expr),
            decreases self.tokens@.len() - self.current,
        {
            proof {
                reveal(pp_comparison_rest);
                reveal(pp_term);
            }
            let operator = self.peek().clone();
            self.advance();
            let right = match self.term() {
                Ok(id) => id,
                Err(e) => {
                    return Err(e);
                },
            };
            let node = Expr::Binary(BinaryExpr { left: expr, operator, right });
            let ghost gnode = node;
            let ghost pre = self.ast.exprs@;
            expr = self.ast.push_expr(node);
            proof {
                lemma_exprs_view_push(pre, gnode);
            }
        }
        Ok(expr)
    }

    /// `+` and `-`, folding left-associatively over factor: `a - b - c`
    /// parses as `(a - b) - c`.
    #[verifier::rlimit(100)]
    #[verifier::spinoff_prover]
    fn term(&mut self) -> (r: Result<usize, LoxResult>)
        requires
            old(self).wf(),
        ensures
            Self::expr_post(
                *old(self),
                *final(self),
                r,
                pp_term(
                    old(self).tokens@,
                    old(self).current as int,
                    old(self).evs(),
                    old(self).svs(),
                ),
            ),
        decreases self.tokens@.len() - self.current, 8int,
    {
        proof {
            reveal(pp_term_rest);
            reveal(pp_factor);
        }
        proof {
            reveal(pp_term);
            reveal(pp_term_rest);
        }
        let ghost t = old(self).tokens@;
        let mut expr = match self.factor() {
            Ok(id) => id,
            Err(e) => {
                return Err(e);
            },
        };
        while self.check(TokenType::Minus) || self.check(TokenType::Plus)
            invariant
                self.wf(),
                Self::frame(*old(self), *self),
                self.tokens@ == t,
                self.errors@ == old(self).errors@,
                self.had_error == old(self).had_error,
                expr < self.ast.exprs@.len(),
                old(self).current < self.current,
                pp_term(t, old(self).current as int, old(self).evs(), old(self).svs())
                    == pp_term_rest(t, self.current as int, self.evs(), self.svs(), expr),
            decreases self.tokens@.len() - self.current,
        {
            proof {
                reveal(pp_term_rest);
                reveal(pp_factor);
            }
            let operator = self.peek().clone();
            self.advance();
            let right = match self.factor() {
                Ok(id) => id,
                Err(e) => {
                    return Err(e);
                },
            };
            let node = Expr::Binary(BinaryExpr { left: expr, operator, right });
            let ghost gnode = node;
            let ghost pre = self.ast.exprs@;
            expr = self.ast.push_expr(node);
            proof {
                lemma_exprs_view_push(pre, gnode);
            }
        }
        Ok(expr)
    }

    /// `*` and `/`, folding left-associatively over unary.
    #[verifier::rlimit(100)]
    #[verifier::spinoff_prover]
    fn factor(&mut self) -> (r: Result<usize, LoxResult>)
        requires
            old(self).wf(),
        ensures
            Self::expr_post(
                *old(self),
                *final(self),
                r,
                pp_factor(
                    old(self).tokens@,
                    old(self).current as int,
                    old(self).evs(),
                    old(self).svs(),
                ),
            ),
        decreases self.tokens@.len() - self.current, 6int,
    {
        proof {
            reveal(pp_factor_rest);
            reveal(pp_unary);
        }
        proof {
            reveal(pp_factor);
            reveal(pp_factor_rest);
        }
        let ghost t = old(self).tokens@;
        let mut expr = match self.unary() {
            Ok(id) => id,
            Err(e) => {
                return Err(e);
            },
        };
        while self.check(TokenType::Slash) || self.check(TokenType::Star)
            invariant
                self.wf(),
                Self::frame(*old(self), *self),
                self.tokens@ == t,
                self.errors@ == old(self).errors@,
                self.had_error == old(self).had_error,
                expr < self.ast.exprs@.len(),
                old(self).current < self.current,
                pp_factor(t, old(self).current as int, old(self).evs(), old(self).svs())
                    == pp_factor_rest(t, self.current as int, self.evs(), self.svs(), expr),
            decreases self.tokens@.len() - self.current,
        {
            proof {
                reveal(pp_factor_rest);
                reveal(pp_unary);
            }
            let operator = self.peek().clone();
            self.advance();
            let right = match self.unary() {
                Ok(id) => id,
                Err(e) => {
                    return Err(e);
                },
            };
            let node = Expr::Binary(BinaryExpr { left: expr, operator, right });
            let ghost gnode = node;
            let ghost pre = self.ast.exprs@;
            expr = self.ast.push_expr(node);
            proof {
                lemma_exprs_view_push(pre, gnode);
            }
        }
        Ok(expr)
    }

    /// `!` and unary `-`, right-nested.
    #[verifier::rlimit(100)]
    #[verifier::spinoff_prover]
    fn unary(&mut self) -> (r: Result<usize, LoxResult>)
        requires
            old(self).wf(),
        ensures
            Self::expr_post(
                *old(self),
                *final(self),
                r,
                pp_unary(
                    old(self).tokens@,
                    old(self).current as int,
                    old(self).evs(),
                    old(self).svs(),
                ),
            ),
        decreases self.tokens@.len() - self.current, 5int,
    {
        proof {
            reveal(pp_unary);
        }
        if self.check(TokenType::Bang) || self.check(TokenType::Minus) {
            let operator = self.peek().clone();
            self.advance();
            let right = match self.unary() {
                Ok(id) => id,
                Err(e) => {
                    return Err(e);
                },
            };
            let node = Expr::Unary(UnaryExpr { operator, right });
            let ghost gnode = node;
            let ghost pre = self.ast.exprs@;
            let id = self.ast.push_expr(node);
            proof {
                lemma_exprs_view_push(pre, gnode);
            }
            return Ok(id);
        }
        self.call()
    }

    /// Function application: a primary followed by any number of argument
    /// lists, left-associative and chainable.
    #[verifier::rlimit(100)]
    #[verifier::spinoff_prover]
    fn call(&mut self) -> (r: Result<usize, LoxResult>)
        requires
            old(self).wf(),
        ensures
            Self::expr_post(
                *old(self),
                *final(self),
                r,
                pp_call(
                    old(self).tokens@,
                    old(self).current as int,
                    old(self).evs(),
                    old(self).svs(),
                ),
            ),
        decreases self.tokens@.len() - self.current, 3int,
    {
        proof {
            reveal(pp_call_rest);
            reveal(pp_finish_call);
        }
        proof {
            reveal(pp_call);
            reveal(pp_call_rest);
        }
        let ghost t = old(self).tokens@;
        let mut expr = match self.primary() {
            Ok(id) => id,
            Err(e) => {
                return Err(e);
            },
        };
        while self.check(TokenType::LeftParen)
            invariant
                self.wf(),
                Self::frame(*old(self), *self),
                self.tokens@ == t,
                self.errors@ == old(self).errors@,
                self.had_error == old(self).had_error,
                expr < self.ast.exprs@.len(),
                old(self).current < self.current,
                pp_call(t, old(self).current as int, old(self).evs(), old(self).svs())
                    == pp_call_rest(t, self.current as int, self.evs(), self.svs(), expr),
            decreases self.tokens@.len() - self.current,
        {
            proof {
                reveal(pp_call_rest);
                reveal(pp_finish_call);
            }
            self.advance();
            expr = match self.finish_call(expr) {
                Ok(id) => id,
                Err(e) => {
                    return Err(e);
                },
            };
        }
        Ok(expr)
    }

    /// The argument list and closing parenthesis of a call whose `(` has
    /// just been consumed; the call node carries the `)` token.
    #[verifier::rlimit(100)]
    #[verifier::spinoff_prover]
    fn finish_call(&mut self, callee: usize) -> (r: Result<usize, LoxResult>)
        requires
            old(self).wf(),
            callee < old(self).ast.exprs@.len(),
        ensures
            Self::expr_post(
                *old(self),
                *final(self),
                r,
                pp_finish_call(
                    old(self).tokens@,
                    old(self).current as int,
                    old(self).evs(),
                    old(self).svs(),
                    callee,
                ),
            ),
        decreases self.tokens@.len() - self.current, 20int,
    {
        proof {
            reveal(pp_args_rest);
            reveal(pp_expression);
        }
        proof {
            reveal(pp_finish_call);
            reveal(pp_args_rest);
        }
        let ghost t = old(self).tokens@;
        let mut arguments: Vec<usize> = Vec::new();
        if !self.check(TokenType::RightParen) {
            let first = match self.expression() {
                Ok(id) => id,
                Err(e) => {
                    return Err(e);
                },
            };
            arguments.push(first);
            proof {
                assert(arguments@ =~= seq![first]);
            }
            while self.check(TokenType::Comma)
                invariant
                    self.wf(),
                    Self::frame(*old(self), *self),
                    self.tokens@ == t,
                    self.errors@ == old(self).errors@,
                    self.had_error == old(self).had_error,
                    old(self).current < self.current,
                    forall|j: int|
                        0 <= j < arguments@.len() ==> (#[trigger] arguments@[j])
                            < self.ast.exprs@.len(),
                    ({
                        let g = pp_finish_call(
                            t,
                            old(self).current as int,
                            old(self).evs(),
                            old(self).svs(),
                            callee,
                        );
                        let a = pp_args_rest(
                            t,
                            self.current as int,
                            self.evs(),
                            self.svs(),
                            arguments@,
                        );
                        g == (match a.args {
                            Err(e) => PExpr { cur: a.cur, exprs: a.exprs, stmts: a.stmts, node: Err(e) },
                            Ok(args) => if pcheck(t, a.cur, TokenType::RightParen) {
                                PExpr {
                                    cur: a.cur + 1,
                                    exprs: a.exprs.push(
                                        GExpr::Call {
                                            callee,
                                            paren: peek_tok(t, a.cur),
                                            arguments: args,
                                        },
                                    ),
                                    stmts: a.stmts,
                                    node: Ok(a.exprs.len() as usize),
                                }
                            } else {
                                PExpr {
                                    cur: a.cur,
                                    exprs: a.exprs,
                                    stmts: a.stmts,
                                    node: Err(perr(t, a.cur, "Expect ')' after arguments."@)),
                                }
                            },
                        })
                    }),
                decreases self.tokens@.len() - self.current,
            {
                proof {
                    reveal(pp_args_rest);
                    reveal(pp_expression);
                }
                self.advance();
                let next = match self.expression() {
                    Ok(id) => id,
                    Err(e) => {
                        return Err(e);
                    },
                };
                let ghost args_pre = arguments@;
                arguments.push(next);
                proof {
                    assert(arguments@ =~= args_pre.push(next));
                }
            }
        }
        match self.consume(TokenType::RightParen, "Expect ')' after arguments.") {
            Ok(_) => {},
            Err(e) => {
                return Err(e);
            },
        }
        let paren = self.previous().clone();
        let node = Expr::Call(CallExpr { callee, paren, arguments });
        let ghost gnode = node;
        let ghost pre = self.ast.exprs@;
        let id = self.ast.push_expr(node);
        proof {
            lemma_exprs_view_push(pre, gnode);
        }
        Ok(id)
    }

    /// Literals, grouping, and identifiers; anything else is a parse
    /// error at the current token, which stays unconsumed.
    #[verifier::rlimit(100)]
    #[verifier::spinoff_prover]
    fn primary(&mut self) -> (r: Result<usize, LoxResult>)
        requires
            old(self).wf(),
        ensures
            Self::expr_post(
                *old(self),
                *final(self),
                r,
                pp_primary(
                    old(self).tokens@,
                    old(self).current as int,
                    old(self).evs(),
                    old(self).svs(),
                ),
            ),
        decreases self.tokens@.len() - self.current, 1int,
    {
        proof {
            reveal(pp_primary);
        }
        if self.is_match(TokenType::False) {
            let node = Expr::Literal(LiteralExpr { value: Some(Object::Bool(false)) });
            let ghost gnode = node;
            let ghost pre = self.ast.exprs@;
            let id = self.ast.push_expr(node);
            proof {
                lemma_exprs_view_push(pre, gnode);
            }
            return Ok(id);
        }
        if self.is_match(TokenType::True) {
            let node = Expr::Literal(LiteralExpr { value: Some(Object::Bool(true)) });
            let ghost gnode = node;
            let ghost pre = self.ast.exprs@;
            let id = self.ast.push_expr(node);
            proof {
                lemma_exprs_view_push(pre, gnode);
            }
            return Ok(id);
        }
        if self.is_match(TokenType::Nil) {
            let node = Expr::Literal(LiteralExpr { value: Some(Object::Nil) });
            let ghost gnode = node;
            let ghost pre = self.ast.exprs@;
            let id = self.ast.push_expr(node);
            proof {
                lemma_exprs_view_push(pre, gnode);
            }
            return Ok(id);
        }
        if self.is_match(TokenType::Number) || self.is_match(TokenType::Str) {
            let value = match &self.previous().literal {
                Some(o) => Some(o.clone()),
                None => {
                    proof {
                        assert(false);
                    }
                    None
                },
            };
            let node = Expr::Literal(LiteralExpr { value });
            let ghost gnode = node;
            let ghost pre = self.ast.exprs@;
            let id = self.ast.push_expr(node);
            proof {
                lemma_exprs_view_push(pre, gnode);
            }
            return Ok(id);
        }
        if self.is_match(TokenType::LeftParen) {
            let expr = match self.expression() {
                Ok(id) => id,
                Err(e) => {
                    return Err(e);
                },
            };
            match self.consume(TokenType::RightParen, "Expect ')' after expression.") {
                Ok(_) => {},
                Err(e) => {
                    return Err(e);
                },
            }
            let node = Expr::Grouping(GroupingExpr { expression: expr });
            let ghost gnode = node;
            let ghost pre = self.ast.exprs@;
            let id = self.ast.push_expr(node);
            proof {
                lemma_exprs_view_push(pre, gnode);
            }
            return Ok(id);
        }
        if self.is_match(TokenType::Identifier) {
            let name = self.previous().clone();
            let node = Expr::Variable(VariableExpr { name });
            let ghost gnode = node;
            let ghost pre = self.ast.exprs@;
            let id = self.ast.push_expr(node);
            proof {
                lemma_exprs_view_push(pre, gnode);
            }
            return Ok(id);
        }
        Err(LoxResult::pares_error(self.peek().clone(), "Expect expression."))
    }
}

} // verus!
