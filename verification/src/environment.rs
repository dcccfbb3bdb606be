//! The runtime chain of scopes.
//!
//! A scope maps variable names to values and carries an optional link to
//! its enclosing scope. Scopes live in an arena (`Vec<Environment>`) and
//! link to their parents by index, so a closure and the block that made a
//! scope can both keep it reachable, and no scope is freed while anything
//! can still reach it. A scope's enclosing link is set at construction and
//! never changes; only the name-to-value mapping mutates.
//!
//! A scope is abstracted to a [`GScope`]: a `Map` from name to value view
//! plus the parent link. The contracts of every operation say exactly what
//! they return and how the map changes.

use vstd::prelude::*;
use vstd::string::StringExecFns;
use crate::error::{GLox, LoxResult};
use crate::object::{GObject, Object};
use crate::ops::{ores_view, str_eq, ures_view};
use crate::token::{GToken, Token};

verus! {

/// One scope: a mapping from names to values (later entries shadow
/// earlier ones) and the index of the enclosing scope, if any.
pub struct Environment {
    values: Vec<(String, Object)>,
    enclosing: Option<usize>,
}

/// Ghost view of one scope.
pub ghost struct GScope {
    pub binds: Map<Seq<char>, GObject>,
    pub enclosing: Option<nat>,
}

/// The map an association list denotes: later entries win.
pub open spec fn assoc_map(s: Seq<(String, Object)>) -> Map<Seq<char>, GObject>
    decreases s.len(),
{
    if s.len() == 0 {
        Map::empty()
    } else {
        assoc_map(s.drop_last()).insert(s.last().0@, s.last().1@)
    }
}

impl View for Environment {
    type V = GScope;

    closed spec fn view(&self) -> GScope {
        GScope {
            binds: assoc_map(self.values@),
            enclosing: match self.enclosing {
                Some(i) => Some(i as nat),
                None => None,
            },
        }
    }
}

/// Ghost view of a scope arena.
pub open spec fn scopes_view(s: Seq<Environment>) -> Seq<GScope> {
    s.map_values(|e: Environment| e@)
}

/// Every scope's enclosing link points strictly backwards in the arena:
/// parents are created before their children, and the links can never
/// cycle.
pub open spec fn chain_wf(s: Seq<GScope>) -> bool {
    forall|i: int|
        0 <= i < s.len() ==> match (#[trigger] s[i]).enclosing {
            Some(j) => j < i,
            None => true,
        }
}

/// The message of an undefined-variable error.
pub open spec fn undef_msg(name: Seq<char>) -> Seq<char> {
    "Undefined variable '"@ + name + "'."@
}

/// The undefined-variable error for a named lookup that carries its token.
pub open spec fn undef_runtime(tok: GToken) -> GLox {
    GLox::RuntimeError { token: tok, message: undef_msg(tok.lexeme) }
}

/// The failure reported when a resolved-distance access finds no binding:
/// the resolver's table was wrong, which is a fault of the machinery, not
/// of the program.
pub open spec fn undef_system(name: Seq<char>) -> GLox {
    GLox::SystemError { message: undef_msg(name) }
}

/// What a name denotes at exactly `d` enclosing links above scope `at`.
pub open spec fn sp_get_at(s: Seq<GScope>, at: nat, d: nat, name: Seq<char>) -> Result<
    GObject,
    GLox,
>
    decreases d,
{
    if at >= s.len() {
        Err(undef_system(name))
    } else if d == 0 {
        if s[at as int].binds.contains_key(name) {
            Ok(s[at as int].binds[name])
        } else {
            Err(undef_system(name))
        }
    } else {
        match s[at as int].enclosing {
            Some(j) => sp_get_at(s, j, (d - 1) as nat, name),
            None => Err(undef_system(name)),
        }
    }
}

/// The scopes and outcome after writing a name at exactly `d` enclosing
/// links above scope `at`: the binding is inserted in that scope whether
/// or not it already existed there.
pub open spec fn sp_assign_at(
    s: Seq<GScope>,
    at: nat,
    d: nat,
    tok: GToken,
    value: GObject,
) -> (Seq<GScope>, Result<(), GLox>)
    decreases d,
{
    if at >= s.len() {
        (s, Err(undef_runtime(tok)))
    } else if d == 0 {
        (
            s.update(
                at as int,
                GScope {
                    binds: s[at as int].binds.insert(tok.lexeme, value),
                    enclosing: s[at as int].enclosing,
                },
            ),
            Ok(()),
        )
    } else {
        match s[at as int].enclosing {
            Some(j) => sp_assign_at(s, j, (d - 1) as nat, tok, value),
            None => (s, Err(undef_runtime(tok))),
        }
    }
}

/// What a name denotes when looked up outwards from scope `at`: the value
/// in the nearest scope that binds it, or the undefined-variable error.
pub open spec fn sp_get(s: Seq<GScope>, at: nat, tok: GToken) -> Result<GObject, GLox>
    decreases at,
{
    if at >= s.len() {
        Err(undef_runtime(tok))
    } else if s[at as int].binds.contains_key(tok.lexeme) {
        Ok(s[at as int].binds[tok.lexeme])
    } else {
        match s[at as int].enclosing {
            Some(j) => if j < at {
                sp_get(s, j, tok)
            } else {
                Err(undef_runtime(tok))
            },
            None => Err(undef_runtime(tok)),
        }
    }
}

/// The scopes and outcome after assigning outwards from scope `at`: the
/// nearest scope that already binds the name is updated; with no binding
/// anywhere on the chain the assignment fails.
pub open spec fn sp_assign(s: Seq<GScope>, at: nat, tok: GToken, value: GObject) -> (
    Seq<GScope>,
    Result<(), GLox>,
)
    decreases at,
{
    if at >= s.len() {
        (s, Err(undef_runtime(tok)))
    } else if s[at as int].binds.contains_key(tok.lexeme) {
        (
            s.update(
                at as int,
                GScope {
                    binds: s[at as int].binds.insert(tok.lexeme, value),
                    enclosing: s[at as int].enclosing,
                },
            ),
            Ok(()),
        )
    } else {
        match s[at as int].enclosing {
            Some(j) => if j < at {
                sp_assign(s, j, tok, value)
            } else {
                (s, Err(undef_runtime(tok)))
            },
            None => (s, Err(undef_runtime(tok))),
        }
    }
}

/// The value of the last entry with the given key, if any.
proof fn lemma_assoc_found(s: Seq<(String, Object)>, i: int, k: Seq<char>)
    requires
        0 <= i < s.len(),
        s[i].0@ == k,
        forall|j: int| i < j < s.len() ==> (#[trigger] s[j]).0@ != k,
    ensures
        assoc_map(s).contains_key(k),
        assoc_map(s)[k] == s[i].1@,
    decreases s.len(),
{
    if i < s.len() - 1 {
        lemma_assoc_found(s.drop_last(), i, k);
    }
}

/// A key on no entry is not in the map.
proof fn lemma_assoc_absent(s: Seq<(String, Object)>, k: Seq<char>)
    requires
        forall|j: int| 0 <= j < s.len() ==> (#[trigger] s[j]).0@ != k,
    ensures
        !assoc_map(s).contains_key(k),
    decreases s.len(),
{
    if s.len() > 0 {
        lemma_assoc_absent(s.drop_last(), k);
    }
}

/// The message of the undefined-variable error, built for reporting.
fn undef_message(name: &str) -> (m: String)
    ensures
        m@ == undef_msg(name@),
{
    String::from_str("Undefined variable '").concat(name).concat("'.")
}

impl Environment {
    /// A fresh scope with no enclosing scope: the shape of the global
    /// scope.
    pub fn new() -> (r: Environment)
        ensures
            r@ == (GScope { binds: Map::<Seq<char>, GObject>::empty(), enclosing: None }),
    {
        Environment { values: Vec::new(), enclosing: None }
    }

    /// A fresh scope enclosed by the scope at the given arena index.
    pub fn new_with_enclosing(enclosing: usize) -> (r: Environment)
        ensures
            r@ == (GScope {
                binds: Map::<Seq<char>, GObject>::empty(),
                enclosing: Some(enclosing as nat),
            }),
    {
        Environment { values: Vec::new(), enclosing: Some(enclosing) }
    }

    /// Bind a name in this scope, overwriting any existing binding: what
    /// `var` does, and why re-declaring in the same scope is no error.
    pub fn define(&mut self, name: String, value: Object)
        ensures
            final(self)@ == (GScope {
                binds: old(self)@.binds.insert(name@, value@),
                enclosing: old(self)@.enclosing,
            }),
    {
        let ghost prior = self.values@;
        self.values.push((name, value));
        proof {
            assert(self.values@.drop_last() =~= prior);
        }
    }

    /// The value bound in this one scope, ignoring enclosing scopes.
    fn lookup_local(&self, name: &str) -> (r: Option<Object>)
        ensures
            match r {
                Some(o) => self@.binds.contains_key(name@) && o@ == self@.binds[name@],
                None => !self@.binds.contains_key(name@),
            },
    {
        let n = self.values.len();
        let mut i = n;
        while i > 0
            invariant
                0 <= i <= n,
                n == self.values@.len(),
                forall|j: int| i <= j < n ==> (#[trigger] self.values@[j]).0@ != name@,
            decreases i,
        {
            i = i - 1;
            if str_eq(self.values[i].0.as_str(), name) {
                proof {
                    lemma_assoc_found(self.values@, i as int, name@);
                }
                return Some(self.values[i].1.clone());
            }
        }
        proof {
            lemma_assoc_absent(self.values@, name@);
        }
        None
    }

    /// Read a name at exactly `distance` enclosing links above the scope
    /// `at`: the direct path used when the resolver produced a distance,
    /// bypassing the outward search.
    pub fn get_at(scopes: &Vec<Environment>, at: usize, distance: usize, name: &str) -> (r: Result<
        Object,
        LoxResult,
    >)
        requires
            chain_wf(scopes_view(scopes@)),
            at < scopes@.len(),
        ensures
            ores_view(r) == sp_get_at(scopes_view(scopes@), at as nat, distance as nat, name@),
        decreases distance,
    {
        if distance == 0 {
            match scopes[at].lookup_local(name) {
                Some(o) => Ok(o),
                None => Err(LoxResult::SystemError { message: undef_message(name) }),
            }
        } else {
            match scopes[at].enclosing {
                Some(j) => {
                    proof {
                        assert(scopes_view(scopes@)[at as int] == scopes@[at as int]@);
                    }
                    Environment::get_at(scopes, j, distance - 1, name)
                },
                None => Err(LoxResult::SystemError { message: undef_message(name) }),
            }
        }
    }

    /// Write a name at exactly `distance` enclosing links above the scope
    /// `at`, inserting the binding in that scope.
    pub fn assign_at(
        scopes: &mut Vec<Environment>,
        at: usize,
        distance: usize,
        name: &Token,
        value: Object,
    ) -> (r: Result<(), LoxResult>)
        requires
            chain_wf(scopes_view(old(scopes)@)),
            at < old(scopes)@.len(),
        ensures
            (scopes_view(final(scopes)@), ures_view(r)) == sp_assign_at(
                scopes_view(old(scopes)@),
                at as nat,
                distance as nat,
                name@,
                value@,
            ),
            chain_wf(scopes_view(final(scopes)@)),
            final(scopes)@.len() == old(scopes)@.len(),
        decreases distance,
    {
        if distance == 0 {
            scopes[at].define(name.lexeme.clone(), value);
            proof {
                assert(scopes_view(scopes@) =~= sp_assign_at(
                    scopes_view(old(scopes)@),
                    at as nat,
                    distance as nat,
                    name@,
                    value@,
                ).0);
            }
            Ok(())
        } else {
            match scopes[at].enclosing {
                Some(j) => {
                    proof {
                        assert(scopes_view(scopes@)[at as int] == scopes@[at as int]@);
                    }
                    Environment::assign_at(scopes, j, distance - 1, name, value)
                },
                None => Err(LoxResult::RuntimeError {
                    token: name.clone(),
                    message: undef_message(name.lexeme.as_str()),
                }),
            }
        }
    }

    /// Read a name by searching outwards from the scope `at`: the
    /// fallback used when no resolved distance exists, and the path for
    /// presumed-global lookups.
    pub fn get(scopes: &Vec<Environment>, at: usize, name: &Token) -> (r: Result<Object, LoxResult>)
        requires
            chain_wf(scopes_view(scopes@)),
            at < scopes@.len(),
        ensures
            ores_view(r) == sp_get(scopes_view(scopes@), at as nat, name@),
        decreases at,
    {
        match scopes[at].lookup_local(name.lexeme.as_str()) {
            Some(o) => Ok(o),
            None => match scopes[at].enclosing {
                Some(j) => {
                    proof {
                        assert(scopes_view(scopes@)[at as int] == scopes@[at as int]@);
                    }
                    Environment::get(scopes, j, name)
                },
                None => Err(LoxResult::RuntimeError {
                    token: name.clone(),
                    message: undef_message(name.lexeme.as_str()),
                }),
            },
        }
    }

    /// Write a name by searching outwards from the scope `at` for an
    /// existing binding; fails with the undefined-variable error when no
    /// scope on the chain binds it.
    pub fn assign(scopes: &mut Vec<Environment>, at: usize, name: &Token, value: Object) -> (r:
        Result<(), LoxResult>)
        requires
            chain_wf(scopes_view(old(scopes)@)),
            at < old(scopes)@.len(),
        ensures
            (scopes_view(final(scopes)@), ures_view(r)) == sp_assign(
                scopes_view(old(scopes)@),
                at as nat,
                name@,
                value@,
            ),
            chain_wf(scopes_view(final(scopes)@)),
            final(scopes)@.len() == old(scopes)@.len(),
        decreases at,
    {
        let has = match scopes[at].lookup_local(name.lexeme.as_str()) {
            Some(_) => true,
            None => false,
        };
        if has {
            scopes[at].define(name.lexeme.clone(), value);
            proof {
                assert(scopes_view(scopes@) =~= sp_assign(
                    scopes_view(old(scopes)@),
                    at as nat,
                    name@,
                    value@,
                ).0);
            }
            Ok(())
        } else {
            match scopes[at].enclosing {
                Some(j) => {
                    proof {
                        assert(scopes_view(scopes@)[at as int] == scopes@[at as int]@);
                    }
                    Environment::assign(scopes, j, name, value)
                },
                None => Err(LoxResult::RuntimeError {
                    token: name.clone(),
                    message: undef_message(name.lexeme.as_str()),
                }),
            }
        }
    }
}

} // verus!
