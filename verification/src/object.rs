//! Runtime values.
//!
//! A value is a tagged union of string, number, boolean, nil, and callable.
//! Numbers are 64-bit signed integers. The ghost view [`GObject`] abstracts
//! a value to its mathematical content (a `Seq<char>` for strings, an `int`
//! for numbers, an arena index for functions); the big-step semantics and
//! all contracts speak in terms of this view.

use vstd::prelude::*;
use vstd::string::StringExecFns;
use crate::callable::Callable;

verus! {

/// Mathematical content of a runtime value.
pub ghost enum GObject {
    Str(Seq<char>),
    Num(int),
    Nil,
    Bool(bool),
    Func(nat),
}

/// A runtime value.
#[derive(Debug)]
pub enum Object {
    Str(String),
    Num(i64),
    Nil,
    Bool(bool),
    Func(Callable),
}

impl View for Object {
    type V = GObject;

    open spec fn view(&self) -> GObject {
        match self {
            Object::Str(s) => GObject::Str(s@),
            Object::Num(n) => GObject::Num(*n as int),
            Object::Nil => GObject::Nil,
            Object::Bool(b) => GObject::Bool(*b),
            Object::Func(c) => GObject::Func(c.func as nat),
        }
    }
}

/// The name of a value's runtime type; comparisons and arithmetic are only
/// defined within one type.
pub open spec fn kind_name(g: GObject) -> Seq<char> {
    match g {
        GObject::Str(_) => "string"@,
        GObject::Num(_) => "number"@,
        GObject::Nil => "nil"@,
        GObject::Bool(_) => "bool"@,
        GObject::Func(_) => "function"@,
    }
}

/// Only `nil` and `false` are falsy; every other value, including `0` and
/// the empty string, is truthy.
pub open spec fn truthy(g: GObject) -> bool {
    !(g == GObject::Nil || g == GObject::Bool(false))
}

impl Object {
    pub fn get_type(&self) -> (r: String)
        ensures
            r@ == kind_name(self@),
    {
        match self {
            Object::Str(_) => String::from_str("string"),
            Object::Num(_) => String::from_str("number"),
            Object::Nil => String::from_str("nil"),
            Object::Bool(_) => String::from_str("bool"),
            Object::Func(_) => String::from_str("function"),
        }
    }

    /// Truthiness test, as used by conditions, logical operators, and `!`.
    pub fn is_truthy(&self) -> (r: bool)
        ensures
            r == truthy(self@),
    {
        match self {
            Object::Nil => false,
            Object::Bool(b) => *b,
            _ => true,
        }
    }
}

/// The text `print` shows for a value: a string's characters, a
/// number's decimal digits, and fixed words for `nil`, the booleans, and
/// functions.
pub open spec fn sp_display(g: GObject) -> Seq<char> {
    match g {
        GObject::Str(s) => s,
        GObject::Num(n) => crate::ops::num_chars(n),
        GObject::Nil => "nil"@,
        GObject::Bool(b) => if b {
            "true"@
        } else {
            "false"@
        },
        GObject::Func(_) => "function"@,
    }
}

impl Object {
    /// Render the value the way `print` shows it.
    pub fn render(&self) -> (r: String)
        ensures
            r@ == sp_display(self@),
    {
        match self {
            Object::Str(s) => s.clone(),
            Object::Num(n) => crate::ops::num_to_string(*n),
            Object::Nil => String::from_str("nil"),
            Object::Bool(b) => if *b {
                String::from_str("true")
            } else {
                String::from_str("false")
            },
            Object::Func(_) => String::from_str("function"),
        }
    }
}

impl Clone for Object {
    fn clone(&self) -> (r: Object)
        ensures
            r == *self,
    {
        match self {
            Object::Str(s) => Object::Str(s.clone()),
            Object::Num(n) => Object::Num(*n),
            Object::Nil => Object::Nil,
            Object::Bool(b) => Object::Bool(*b),
            Object::Func(c) => Object::Func(*c),
        }
    }
}

impl PartialEq for Object {
    /// Equality within one runtime type; values of different types are
    /// unequal, and functions are equal only by identity.
    fn eq(&self, other: &Object) -> (r: bool) {
        match (self, other) {
            (Object::Str(a), Object::Str(b)) => *a == *b,
            (Object::Num(a), Object::Num(b)) => a == b,
            (Object::Nil, Object::Nil) => true,
            (Object::Bool(a), Object::Bool(b)) => a == b,
            (Object::Func(a), Object::Func(b)) => a == b,
            _ => false,
        }
    }
}

impl vstd::std_specs::cmp::PartialEqSpecImpl for Object {
    open spec fn obeys_eq_spec() -> bool {
        true
    }

    open spec fn eq_spec(&self, other: &Object) -> bool {
        self@ == other@
    }
}

} // verus!
