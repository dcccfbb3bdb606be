//! Value-level semantics of the unary and binary operators.
//!
//! The spec functions here are the single source of truth for what every
//! operator returns on every pair of runtime values, including every
//! runtime type error. The executable evaluators are proved to return
//! exactly what the spec functions say.
//!
//! `+` overloads to numeric addition or string concatenation and coerces a
//! number to its decimal text when exactly one operand is a string; the
//! other arithmetic operators require two numbers. The relational and
//! equality operators require both operands of the same runtime type,
//! which is stricter than the arithmetic case. Division by zero is a
//! runtime error, and so is signed overflow, which the word-sized number
//! representation makes possible where ideal integers would not.

use vstd::prelude::*;
use vstd::string::{StrSliceExecFns, StringExecFns};
use crate::error::{GLox, LoxResult};
use crate::object::{kind_name, truthy, GObject, Object};
use crate::token::{GToken, Token, TokenType};

verus! {

/// Whether an ideal integer fits the number representation.
pub open spec fn in_i64(x: int) -> bool {
    i64::MIN <= x && x <= i64::MAX
}

/// The decimal digits of a non-negative integer, most significant first.
pub open spec fn dec_digits(n: nat) -> Seq<char>
    decreases n,
{
    if n < 10 {
        seq![((48 + n) as u8) as char]
    } else {
        dec_digits(n / 10).push(((48 + n % 10) as u8) as char)
    }
}

/// The decimal text of an integer: digits, with a leading `-` when
/// negative.
pub open spec fn num_chars(n: int) -> Seq<char> {
    if n < 0 {
        seq!['-'] + dec_digits((-n) as nat)
    } else {
        dec_digits(n as nat)
    }
}

/// Relies on `i64::to_string` (the standard `Display` for integers): the
/// decimal digits of the value, with a leading `-` when negative.
#[verifier::external_body]
pub(crate) fn num_to_string(n: i64) -> (r: String)
    ensures
        r@ == num_chars(n as int),
{
    n.to_string()
}

/// Relies on `usize::to_string` (the standard `Display` for integers):
/// the decimal digits of the value.
#[verifier::external_body]
pub(crate) fn usize_to_string(n: usize) -> (r: String)
    ensures
        r@ == dec_digits(n as nat),
{
    n.to_string()
}

/// Magnitude of an integer.
pub open spec fn iabs(x: int) -> nat {
    if x < 0 {
        (-x) as nat
    } else {
        x as nat
    }
}

/// Division truncated toward zero, as the `/` operator of the language
/// defines it on numbers.
pub open spec fn tdiv(a: int, b: int) -> int {
    let q = (iabs(a) / iabs(b)) as int;
    if (a < 0) != (b < 0) {
        -q
    } else {
        q
    }
}

/// Lexicographic order on character sequences, by code point; the order
/// the relational operators use on strings.
pub open spec fn str_lt(a: Seq<char>, b: Seq<char>) -> bool
    decreases a.len(),
{
    if b.len() == 0 {
        false
    } else if a.len() == 0 {
        true
    } else if a[0] == b[0] {
        str_lt(a.drop_first(), b.drop_first())
    } else {
        (a[0] as int) < (b[0] as int)
    }
}

/// Strict `>` on two values of the same runtime type.
pub open spec fn obj_gt(l: GObject, r: GObject) -> bool {
    match (l, r) {
        (GObject::Num(a), GObject::Num(b)) => a > b,
        (GObject::Str(a), GObject::Str(b)) => str_lt(b, a),
        (GObject::Bool(a), GObject::Bool(b)) => a && !b,
        _ => false,
    }
}

/// Strict `<` on two values of the same runtime type.
pub open spec fn obj_lt(l: GObject, r: GObject) -> bool {
    match (l, r) {
        (GObject::Num(a), GObject::Num(b)) => a < b,
        (GObject::Str(a), GObject::Str(b)) => str_lt(a, b),
        (GObject::Bool(a), GObject::Bool(b)) => !a && b,
        _ => false,
    }
}

/// `>=` on two values of the same runtime type. Two functions are never
/// ordered, not even against themselves; two `nil`s are equal.
pub open spec fn obj_ge(l: GObject, r: GObject) -> bool {
    match (l, r) {
        (GObject::Num(a), GObject::Num(b)) => a >= b,
        (GObject::Str(a), GObject::Str(b)) => !str_lt(a, b),
        (GObject::Bool(a), GObject::Bool(b)) => a || !b,
        (GObject::Nil, GObject::Nil) => true,
        _ => false,
    }
}

/// `<=` on two values of the same runtime type.
pub open spec fn obj_le(l: GObject, r: GObject) -> bool {
    match (l, r) {
        (GObject::Num(a), GObject::Num(b)) => a <= b,
        (GObject::Str(a), GObject::Str(b)) => !str_lt(b, a),
        (GObject::Bool(a), GObject::Bool(b)) => !a || b,
        (GObject::Nil, GObject::Nil) => true,
        _ => false,
    }
}

/// Whether two values have the same runtime type.
pub open spec fn same_kind(l: GObject, r: GObject) -> bool {
    match (l, r) {
        (GObject::Str(_), GObject::Str(_)) => true,
        (GObject::Num(_), GObject::Num(_)) => true,
        (GObject::Nil, GObject::Nil) => true,
        (GObject::Bool(_), GObject::Bool(_)) => true,
        (GObject::Func(_), GObject::Func(_)) => true,
        _ => false,
    }
}

/// Two values have equal type names exactly when they are of the same
/// runtime type: the five type names are pairwise distinct.
pub proof fn lemma_kind_name_same(l: GObject, r: GObject)
    ensures
        kind_name(l) == kind_name(r) <==> same_kind(l, r),
{
    reveal_strlit("string");
    reveal_strlit("number");
    reveal_strlit("nil");
    reveal_strlit("bool");
    reveal_strlit("function");
    if kind_name(l) == kind_name(r) && !same_kind(l, r) {
        assert(kind_name(l)[0] == kind_name(r)[0]);
        assert(kind_name(l).len() == kind_name(r).len());
    }
}

/// What a binary operator returns: the value, or the exact runtime error,
/// for every operator token and every pair of operand values.
pub open spec fn sp_binary(op: GToken, l: GObject, r: GObject) -> Result<GObject, GLox> {
    match op.ttype {
        TokenType::Minus => match (l, r) {
            (GObject::Num(a), GObject::Num(b)) => if in_i64(a - b) {
                Ok(GObject::Num(a - b))
            } else {
                Err(GLox::GenericError { line: op.line, message: "arithmetic overflow"@ })
            },
            _ => Err(GLox::GenericError {
                line: op.line,
                message: "invalid expression: operands must be two numbers"@,
            }),
        },
        TokenType::Plus => match (l, r) {
            (GObject::Num(a), GObject::Num(b)) => if in_i64(a + b) {
                Ok(GObject::Num(a + b))
            } else {
                Err(GLox::GenericError { line: op.line, message: "arithmetic overflow"@ })
            },
            (GObject::Str(a), GObject::Num(b)) => Ok(GObject::Str(a + num_chars(b))),
            (GObject::Num(a), GObject::Str(b)) => Ok(GObject::Str(num_chars(a) + b)),
            (GObject::Str(a), GObject::Str(b)) => Ok(GObject::Str(a + b)),
            _ => Err(GLox::GenericError {
                line: op.line,
                message: "invalid expression:operands must be two numbers or two strings"@,
            }),
        },
        TokenType::Slash => match (l, r) {
            (GObject::Num(a), GObject::Num(b)) => if b == 0 {
                Err(GLox::GenericError { line: op.line, message: "division by zero"@ })
            } else if !in_i64(tdiv(a, b)) {
                Err(GLox::GenericError { line: op.line, message: "arithmetic overflow"@ })
            } else {
                Ok(GObject::Num(tdiv(a, b)))
            },
            _ => Err(GLox::GenericError {
                line: op.line,
                message: "invalid expression:operands must be numbers"@,
            }),
        },
        TokenType::Star => match (l, r) {
            (GObject::Num(a), GObject::Num(b)) => if in_i64(a * b) {
                Ok(GObject::Num(a * b))
            } else {
                Err(GLox::GenericError { line: op.line, message: "arithmetic overflow"@ })
            },
            _ => Err(GLox::GenericError {
                line: op.line,
                message: "invalid expression:operands must be numbers"@,
            }),
        },
        TokenType::Greater => if kind_name(l) != kind_name(r) {
            Err(GLox::GenericError {
                line: op.line,
                message: "invalid expression:operands are different types"@,
            })
        } else {
            Ok(GObject::Bool(obj_gt(l, r)))
        },
        TokenType::Less => if kind_name(l) != kind_name(r) {
            Err(GLox::GenericError {
                line: op.line,
                message: "invalid expression:operands are different types"@,
            })
        } else {
            Ok(GObject::Bool(obj_lt(l, r)))
        },
        TokenType::GreaterEqual => if kind_name(l) != kind_name(r) {
            Err(GLox::GenericError {
                line: op.line,
                message: "invalid expression:operands are different types"@,
            })
        } else {
            Ok(GObject::Bool(obj_ge(l, r)))
        },
        TokenType::LessEqual => if kind_name(l) != kind_name(r) {
            Err(GLox::GenericError {
                line: op.line,
                message: "invalid expression:operands are different types"@,
            })
        } else {
            Ok(GObject::Bool(obj_le(l, r)))
        },
        TokenType::BangEqual => if kind_name(l) != kind_name(r) {
            Err(GLox::GenericError {
                line: op.line,
                message: "invalid expression:operands are different types"@,
            })
        } else {
            Ok(GObject::Bool(l != r))
        },
        TokenType::EqualEqual => if kind_name(l) != kind_name(r) {
            Err(GLox::GenericError {
                line: op.line,
                message: "invalid expression:operands are different types"@,
            })
        } else {
            Ok(GObject::Bool(l == r))
        },
        _ => Err(GLox::RuntimeError { token: op, message: "invalid operator"@ }),
    }
}

/// What a unary operator returns for every operand value.
pub open spec fn sp_unary(op: GToken, r: GObject) -> Result<GObject, GLox> {
    match op.ttype {
        TokenType::Minus => match r {
            GObject::Num(n) => if in_i64(-n) {
                Ok(GObject::Num(-n))
            } else {
                Err(GLox::GenericError { line: op.line, message: "arithmetic overflow"@ })
            },
            _ => Err(GLox::GenericError { line: op.line, message: "Operand must be a number"@ }),
        },
        TokenType::Bang => Ok(GObject::Bool(!truthy(r))),
        _ => Err(GLox::GenericError { line: op.line, message: "unreachable"@ }),
    }
}

/// Ghost view of an expression evaluation result.
pub open spec fn ores_view(r: Result<Object, LoxResult>) -> Result<GObject, GLox> {
    match r {
        Ok(o) => Ok(o@),
        Err(e) => Err(e@),
    }
}

/// Ghost view of a statement execution result.
pub open spec fn ures_view(r: Result<(), LoxResult>) -> Result<(), GLox> {
    match r {
        Ok(u) => Ok(u),
        Err(e) => Err(e@),
    }
}

/// Lexicographic comparison of two strings, by code point.
fn str_lt_exec(a: &str, b: &str) -> (r: bool)
    ensures
        r == str_lt(a@, b@),
{
    let alen = a.unicode_len();
    let blen = b.unicode_len();
    let short = if alen < blen {
        alen
    } else {
        blen
    };
    let mut i: usize = 0;
    proof {
        assert(a@.skip(0) =~= a@);
        assert(b@.skip(0) =~= b@);
    }
    while i < short
        invariant
            0 <= i <= short,
            short == if alen < blen {
                alen
            } else {
                blen
            },
            alen == a@.len(),
            blen == b@.len(),
            str_lt(a@, b@) == str_lt(a@.skip(i as int), b@.skip(i as int)),
        decreases short - i,
    {
        let ca = a.get_char(i);
        let cb = b.get_char(i);
        if ca != cb {
            return (ca as u32) < (cb as u32);
        }
        proof {
            assert(a@.skip(i as int).drop_first() =~= a@.skip(i as int + 1));
            assert(b@.skip(i as int).drop_first() =~= b@.skip(i as int + 1));
        }
        i = i + 1;
    }
    alen < blen
}

/// Character-for-character equality of two strings.
pub(crate) fn str_eq(a: &str, b: &str) -> (r: bool)
    ensures
        r == (a@ == b@),
{
    let alen = a.unicode_len();
    let blen = b.unicode_len();
    if alen != blen {
        return false;
    }
    let mut i: usize = 0;
    while i < alen
        invariant
            0 <= i <= alen,
            alen == a@.len(),
            blen == b@.len(),
            alen == blen,
            forall|j: int| 0 <= j < i ==> a@[j] == b@[j],
        decreases alen - i,
    {
        let ca = a.get_char(i);
        let cb = b.get_char(i);
        if ca != cb {
            return false;
        }
        i = i + 1;
    }
    proof {
        assert(a@ =~= b@);
    }
    true
}

/// `>` on two values known to be of the same runtime type.
fn obj_gt_exec(l: &Object, r: &Object) -> (b: bool)
    requires
        same_kind(l@, r@),
    ensures
        b == obj_gt(l@, r@),
{
    match (l, r) {
        (Object::Num(a), Object::Num(b)) => *a > *b,
        (Object::Str(a), Object::Str(b)) => str_lt_exec(b.as_str(), a.as_str()),
        (Object::Bool(a), Object::Bool(b)) => *a && !*b,
        _ => false,
    }
}

/// `<` on two values known to be of the same runtime type.
fn obj_lt_exec(l: &Object, r: &Object) -> (b: bool)
    requires
        same_kind(l@, r@),
    ensures
        b == obj_lt(l@, r@),
{
    match (l, r) {
        (Object::Num(a), Object::Num(b)) => *a < *b,
        (Object::Str(a), Object::Str(b)) => str_lt_exec(a.as_str(), b.as_str()),
        (Object::Bool(a), Object::Bool(b)) => !*a && *b,
        _ => false,
    }
}

/// `>=` on two values known to be of the same runtime type.
fn obj_ge_exec(l: &Object, r: &Object) -> (b: bool)
    requires
        same_kind(l@, r@),
    ensures
        b == obj_ge(l@, r@),
{
    match (l, r) {
        (Object::Num(a), Object::Num(b)) => *a >= *b,
        (Object::Str(a), Object::Str(b)) => !str_lt_exec(a.as_str(), b.as_str()),
        (Object::Bool(a), Object::Bool(b)) => *a || !*b,
        (Object::Nil, Object::Nil) => true,
        _ => false,
    }
}

/// `<=` on two values known to be of the same runtime type.
fn obj_le_exec(l: &Object, r: &Object) -> (b: bool)
    requires
        same_kind(l@, r@),
    ensures
        b == obj_le(l@, r@),
{
    match (l, r) {
        (Object::Num(a), Object::Num(b)) => *a <= *b,
        (Object::Str(a), Object::Str(b)) => !str_lt_exec(b.as_str(), a.as_str()),
        (Object::Bool(a), Object::Bool(b)) => !*a || *b,
        (Object::Nil, Object::Nil) => true,
        _ => false,
    }
}

/// Apply a binary operator to two evaluated operands.
pub fn eval_binary(op: &Token, left: Object, right: Object) -> (r: Result<Object, LoxResult>)
    ensures
        ores_view(r) == sp_binary(op@, left@, right@),
{
    match op.ttype {
        TokenType::Minus => match (&left, &right) {
            (Object::Num(a), Object::Num(b)) => match a.checked_sub(*b) {
                Some(v) => Ok(Object::Num(v)),
                None => Err(LoxResult::new(op.line, "arithmetic overflow")),
            },
            _ => Err(LoxResult::new(op.line, "invalid expression: operands must be two numbers")),
        },
        TokenType::Plus => match (&left, &right) {
            (Object::Num(a), Object::Num(b)) => match a.checked_add(*b) {
                Some(v) => Ok(Object::Num(v)),
                None => Err(LoxResult::new(op.line, "arithmetic overflow")),
            },
            (Object::Str(a), Object::Num(b)) => Ok(
                Object::Str(a.clone().concat(num_to_string(*b).as_str())),
            ),
            (Object::Num(a), Object::Str(b)) => Ok(
                Object::Str(num_to_string(*a).concat(b.as_str())),
            ),
            (Object::Str(a), Object::Str(b)) => Ok(Object::Str(a.clone().concat(b.as_str()))),
            _ => Err(
                LoxResult::new(
                    op.line,
                    "invalid expression:operands must be two numbers or two strings",
                ),
            ),
        },
        TokenType::Slash => match (&left, &right) {
            (Object::Num(a), Object::Num(b)) => if *b == 0 {
                Err(LoxResult::new(op.line, "division by zero"))
            } else {
                match a.checked_div(*b) {
                    Some(v) => Ok(Object::Num(v)),
                    None => Err(LoxResult::new(op.line, "arithmetic overflow")),
                }
            },
            _ => Err(LoxResult::new(op.line, "invalid expression:operands must be numbers")),
        },
        TokenType::Star => match (&left, &right) {
            (Object::Num(a), Object::Num(b)) => match a.checked_mul(*b) {
                Some(v) => Ok(Object::Num(v)),
                None => Err(LoxResult::new(op.line, "arithmetic overflow")),
            },
            _ => Err(LoxResult::new(op.line, "invalid expression:operands must be numbers")),
        },
        TokenType::Greater => if different_kinds(&left, &right) {
            Err(LoxResult::new(op.line, "invalid expression:operands are different types"))
        } else {
            Ok(Object::Bool(obj_gt_exec(&left, &right)))
        },
        TokenType::Less => if different_kinds(&left, &right) {
            Err(LoxResult::new(op.line, "invalid expression:operands are different types"))
        } else {
            Ok(Object::Bool(obj_lt_exec(&left, &right)))
        },
        TokenType::GreaterEqual => if different_kinds(&left, &right) {
            Err(LoxResult::new(op.line, "invalid expression:operands are different types"))
        } else {
            Ok(Object::Bool(obj_ge_exec(&left, &right)))
        },
        TokenType::LessEqual => if different_kinds(&left, &right) {
            Err(LoxResult::new(op.line, "invalid expression:operands are different types"))
        } else {
            Ok(Object::Bool(obj_le_exec(&left, &right)))
        },
        TokenType::BangEqual => if different_kinds(&left, &right) {
            Err(LoxResult::new(op.line, "invalid expression:operands are different types"))
        } else {
            Ok(Object::Bool(left != right))
        },
        TokenType::EqualEqual => if different_kinds(&left, &right) {
            Err(LoxResult::new(op.line, "invalid expression:operands are different types"))
        } else {
            Ok(Object::Bool(left == right))
        },
        _ => Err(LoxResult::runtime_error(op, "invalid operator")),
    }
}

/// The type-agreement test the relational and equality operators make: the
/// operands' type names are compared.
fn different_kinds(left: &Object, right: &Object) -> (b: bool)
    ensures
        b == (kind_name(left@) != kind_name(right@)),
        !b ==> same_kind(left@, right@),
{
    proof {
        lemma_kind_name_same(left@, right@);
    }
    let lt = left.get_type();
    let rt = right.get_type();
    !(lt == rt)
}

/// Apply a unary operator to an evaluated operand.
pub fn eval_unary(op: &Token, right: Object) -> (r: Result<Object, LoxResult>)
    ensures
        ores_view(r) == sp_unary(op@, right@),
{
    match op.ttype {
        TokenType::Minus => match &right {
            Object::Num(n) => if *n == i64::MIN {
                Err(LoxResult::new(op.line, "arithmetic overflow"))
            } else {
                Ok(Object::Num(-*n))
            },
            _ => Err(LoxResult::new(op.line, "Operand must be a number")),
        },
        TokenType::Bang => Ok(Object::Bool(!right.is_truthy())),
        _ => Err(LoxResult::new(op.line, "unreachable")),
    }
}

} // verus!
