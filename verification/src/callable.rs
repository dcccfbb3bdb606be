//! Runtime handles for callable values.
//!
//! A function value is addressed by a stable index into the interpreter's
//! function arena, so two function values are equal exactly when they are
//! the same closure instance — equality is identity, never structure.

use vstd::prelude::*;

verus! {

/// A callable runtime value: the index of a function in the interpreter's
/// function arena. Two `Callable`s compare equal only when they point at
/// the same arena entry, which is what identity-based function equality
/// asks for.
#[derive(Debug, Clone, Copy, PartialEq, Eq, Structural)]
pub struct Callable {
    pub func: usize,
}

/// The built-in clock function: zero parameters, returns the interpreter's
/// current clock reading (milliseconds since the epoch, supplied by the
/// embedding program).
#[derive(Debug, Clone, Copy)]
pub struct NativeClock;

impl NativeClock {
    /// The clock takes no arguments.
    pub fn arity(&self) -> (n: usize)
        ensures
            n == 0,
    {
        0
    }

    /// Answer a call with the clock reading the interpreter serves.
    pub fn call(&self, now_millis: i64) -> (r: crate::object::Object)
        ensures
            r@ == crate::object::GObject::Num(now_millis as int),
    {
        crate::object::Object::Num(now_millis)
    }
}

} // verus!
