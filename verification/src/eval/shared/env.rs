//! Helpers for environment construction and lookup.
use crate::atom::Atom;
use crate::env::Env;
use crate::env::EnvNode;
use crate::env::EnvV;
use crate::env::bindings;
use crate::env::env_get;
use crate::env::lemma_first_bound_append;
use crate::env::pairs;
use crate::env::stacked;
use std::sync::Arc;
use vstd::prelude::*;

verus! {

/// One environment in front of another; an empty one adds nothing.
pub open spec fn linked(prefix: EnvV, base: EnvV) -> EnvV {
    if prefix is Empty {
        base
    } else if base is Empty {
        prefix
    } else {
        EnvV::Link(Box::new(prefix), Box::new(base))
    }
}

/// Look up a bound variable in an environment.
pub fn lookup(env: &Env, name: &str) -> (r: Option<Atom>)
    ensures
        (match r {
            Some(a) => env_get(env@, name@) == Some(a@),
            None => env_get(env@, name@) is None,
        }),
{
    env.get(name)
}

/// Extend an environment with a single binding.
pub fn bind(env: &Env, name: &str, value: Atom) -> (r: Env)
    ensures
        r@ == EnvV::Cons(name@, Box::new(value@), Box::new(env@)),
{
    env.extend(name, value)
}

/// Extend an environment with a list of bindings.
pub fn bind_all(env: &Env, list: &Vec<(String, Arc<Atom>)>) -> (r: Env)
    ensures
        r@ == stacked(pairs(list@), env@),
        bindings(r@) == pairs(list@).reverse() + bindings(env@),
{
    env.extend_all(list)
}

/// Prepend one environment chain onto another environment, without copying.
pub fn prepend_chain(prefix: Env, base: &Env) -> (r: Env)
    ensures
        r@ == linked(prefix@, base@),
{
    if prefix.is_empty_env() {
        base.clone()
    } else if base.is_empty_env() {
        prefix
    } else {
        Env(Arc::new(EnvNode::Link { prefix, base: base.clone() }))
    }
}

/// Prepending puts the prefix's bindings in front of the base's and keeps the
/// order within each.
pub proof fn prepend_is_concatenation(prefix: EnvV, base: EnvV)
    ensures
        bindings(linked(prefix, base)) == bindings(prefix) + bindings(base),
{
    assert(bindings(linked(prefix, base)) =~= bindings(prefix) + bindings(base));
}

/// A name is looked up in the prefix first and in the base only when the
/// prefix does not bind it.
pub proof fn prepend_then_lookup(prefix: EnvV, base: EnvV, name: Seq<char>)
    ensures
        env_get(linked(prefix, base), name) == (match env_get(prefix, name) {
            Some(v) => Some(v),
            None => env_get(base, name),
        }),
{
    prepend_is_concatenation(prefix, base);
    lemma_first_bound_append(bindings(prefix), bindings(base), name);
}

} // verus!
