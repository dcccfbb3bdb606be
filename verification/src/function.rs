//! Runtime function values.
//!
//! A user-defined function is an immutable record of its declaration data
//! and the scope it captured at declaration time — by index into the scope
//! arena, not by copy, which is what makes closures lexical. The built-in
//! clock shares the same calling convention with a fixed arity of zero.

use vstd::prelude::*;
use crate::callable::NativeClock;
use crate::stmt::FunctionStmt;
use crate::token::Token;

verus! {

/// A user-defined function value: declared name, parameter names, body
/// statement indices, and the captured closure scope.
pub struct LoxFunction {
    pub name: Token,
    pub params: Vec<Token>,
    pub body: Vec<usize>,
    pub closure: usize,
}

/// An entry of the function arena: the built-in clock or a user-defined
/// function.
pub enum FunKind {
    Clock(NativeClock),
    Decl(LoxFunction),
}

/// Ghost view of a function arena entry.
pub ghost enum GFun {
    Clock,
    Decl { params: Seq<Seq<char>>, body: Seq<nat>, closure: nat },
}

/// Ghost view of a sequence of arena indices.
pub open spec fn ids_view(s: Seq<usize>) -> Seq<nat> {
    s.map_values(|x: usize| x as nat)
}

impl View for FunKind {
    type V = GFun;

    open spec fn view(&self) -> GFun {
        match self {
            FunKind::Clock(_) => GFun::Clock,
            FunKind::Decl(f) => GFun::Decl {
                params: f.params@.map_values(|t: Token| t@.lexeme),
                body: ids_view(f.body@),
                closure: f.closure as nat,
            },
        }
    }
}

/// Element-for-element copy of a token list.
pub(crate) fn copy_tokens(v: &Vec<Token>) -> (r: Vec<Token>)
    ensures
        r@ == v@,
{
    let mut r: Vec<Token> = Vec::new();
    let n = v.len();
    let mut i: usize = 0;
    while i < n
        invariant
            0 <= i <= n,
            n == v@.len(),
            r@ == v@.subrange(0, i as int),
        decreases n - i,
    {
        r.push(v[i].clone());
        proof {
            assert(r@ =~= v@.subrange(0, i as int + 1));
        }
        i = i + 1;
    }
    proof {
        assert(v@.subrange(0, n as int) =~= v@);
    }
    r
}

/// Element-for-element copy of an index list.
pub(crate) fn copy_ids(v: &Vec<usize>) -> (r: Vec<usize>)
    ensures
        r@ == v@,
{
    let mut r: Vec<usize> = Vec::new();
    let n = v.len();
    let mut i: usize = 0;
    while i < n
        invariant
            0 <= i <= n,
            n == v@.len(),
            r@ == v@.subrange(0, i as int),
        decreases n - i,
    {
        r.push(v[i]);
        proof {
            assert(r@ =~= v@.subrange(0, i as int + 1));
        }
        i = i + 1;
    }
    proof {
        assert(v@.subrange(0, n as int) =~= v@);
    }
    r
}

impl LoxFunction {
    /// Capture a declaration together with the current scope: the closure
    /// is the scope active where the declaration executes.
    pub fn new(declaration: &FunctionStmt, closure: usize) -> (r: LoxFunction)
        ensures
            r.name == declaration.name,
            r.params@ == declaration.params@,
            r.body@ == declaration.body@,
            r.closure == closure,
    {
        LoxFunction {
            name: declaration.name.clone(),
            params: copy_tokens(&declaration.params),
            body: copy_ids(&declaration.body),
            closure,
        }
    }

    /// The number of arguments the function requires.
    pub fn arity(&self) -> (n: usize)
        ensures
            n == self.params@.len(),
    {
        self.params.len()
    }
}

} // verus!
