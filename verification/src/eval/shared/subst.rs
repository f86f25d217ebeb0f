//! Helpers for substitution and atomization.
use crate::atom::Atom;
use crate::atom::AtomV;
use crate::atom::atoms;
use crate::atom::group_atoms;
use crate::atom::symbol;
use crate::compile::reify::atom_to_expr;
use crate::compile::reify::to_expr;
use crate::env::Binding;
use crate::env::Env;
use crate::env::EnvNode;
use crate::env::EnvV;
use crate::env::bindings;
use crate::env::env_get;
use crate::env::first_bound;
use crate::eval::shared::env::lookup;
use crate::expr::Expr;
use crate::expr::ExprV;
use crate::expr::exprs;
use crate::expr::group_exprs;
use crate::text::is_var;
use crate::text::is_var_name;
use std::sync::Arc;
use vstd::prelude::*;

verus! {

/// An expression as an atom, with bound variables replaced by their values.
pub open spec fn atomized(e: ExprV, env: EnvV) -> AtomV
    decreases e,
{
    match e {
        ExprV::Number(n) => AtomV::Num(n),
        ExprV::Str(s) => AtomV::Str(s),
        ExprV::Symbol(s) => if is_var_name(s) && env_get(env, s) is Some {
            env_get(env, s)->0
        } else {
            symbol(s)
        },
        ExprV::List(items) => AtomV::Expr(all_atomized(items, env)),
    }
}

/// Expressions as atoms, with bound variables replaced by their values.
pub open spec fn all_atomized(s: Seq<ExprV>, env: EnvV) -> Seq<AtomV>
    decreases s,
{
    Seq::new(
        s.len(),
        |i: int|
            if 0 <= i < s.len() {
                atomized(s[i], env)
            } else {
                arbitrary()
            },
    )
}

/// Convert an expression into an atom, substituting bound variables from an
/// environment. Unbound variables remain symbolic.
pub fn subst_and_atomize(expr: &Expr, env: &Env) -> (r: Atom)
    ensures
        r@ == atomized(expr@, env@),
    decreases expr,
{
    broadcast use {group_exprs, group_atoms};

    match expr {
        Expr::Number(n) => Atom::Num(n.clone()),
        Expr::Str(s) => Atom::str_val(s.as_str()),
        Expr::Symbol(s) => {
            if is_var(s.as_str()) {
                match lookup(env, s.as_str()) {
                    Some(a) => a,
                    None => Atom::sym(s.as_str()),
                }
            } else {
                Atom::sym(s.as_str())
            }
        },
        Expr::List(items) => {
            let mut out: Vec<Atom> = Vec::new();
            let mut i: usize = 0;
            let ghost want = all_atomized(exprs(items@), env@);
            while i < items.len()
                invariant
                    i <= items@.len(),
                    *expr == Expr::List(*items),
                    want == all_atomized(exprs(items@), env@),
                    atoms(out@) == want.take(i as int),
                decreases items@.len() - i,
            {
                assert(decreases_to!(expr => expr->List_0@[i as int]));
                out.push(subst_and_atomize(&items[i], env));
                assert(want.take(i + 1) =~= want.take(i as int).push(want[i as int]));
                i += 1;
            }
            assert(want.take(items@.len() as int) =~= want);
            Atom::Expr(Arc::new(out))
        },
    }
}

/// The number of bindings of an environment.
pub open spec fn binding_count(e: EnvV) -> nat
    decreases e,
{
    match e {
        EnvV::Empty => 0,
        EnvV::Cons(name, value, next) => 1 + binding_count(*next),
        EnvV::Link(prefix, base) => binding_count(*prefix) + binding_count(*base),
    }
}

/// The most hops that a chain of variables bound to variables can take: one for
/// each binding.
pub open spec fn hops(env: EnvV) -> nat {
    if binding_count(env) <= u64::MAX {
        binding_count(env)
    } else {
        u64::MAX as nat
    }
}

/// Count the bindings of an environment, up to the largest `u64`.
pub fn count_bindings(env: &Env) -> (r: u64)
    ensures
        r == hops(env@),
    decreases env,
{
    match &*env.0 {
        EnvNode::Empty => 0,
        EnvNode::Cons { name, value, next } => {
            let n: u64 = count_bindings(next);
            if n < u64::MAX {
                n + 1
            } else {
                n
            }
        },
        EnvNode::Link { prefix, base } => {
            let m: u64 = count_bindings(prefix);
            let n: u64 = count_bindings(base);
            if m <= u64::MAX - n {
                m + n
            } else {
                u64::MAX
            }
        },
    }
}

/// Where a variable leads when it is bound to other variables in turn. A chain
/// that does not end within the given number of hops stops where it is.
pub open spec fn chased(name: Seq<char>, env: EnvV, fuel: nat) -> AtomV
    decreases fuel,
{
    match env_get(env, name) {
        None => AtomV::Sym(name),
        Some(AtomV::Sym(b)) => if b == name || !is_var_name(b) || fuel == 0 {
            AtomV::Sym(b)
        } else {
            chased(b, env, (fuel - 1) as nat)
        },
        Some(a) => a,
    }
}

/// An atom with its bound variables replaced by what they lead to.
pub open spec fn substituted(a: AtomV, env: EnvV) -> AtomV
    decreases a,
{
    match a {
        AtomV::Sym(s) => if is_var_name(s) {
            chased(s, env, hops(env))
        } else {
            a
        },
        AtomV::Expr(items) => AtomV::Expr(all_substituted(items, env)),
        _ => a,
    }
}

/// Atoms with their bound variables replaced by what they lead to.
pub open spec fn all_substituted(s: Seq<AtomV>, env: EnvV) -> Seq<AtomV>
    decreases s,
{
    Seq::new(
        s.len(),
        |i: int|
            if 0 <= i < s.len() {
                substituted(s[i], env)
            } else {
                arbitrary()
            },
    )
}

/// Follow a variable from binding to binding.
fn chase(name: &str, env: &Env, fuel: u64) -> (r: Atom)
    ensures
        r@ == chased(name@, env@, fuel as nat),
    decreases fuel,
{
    match lookup(env, name) {
        None => Atom::Sym(name.to_owned()),
        Some(Atom::Sym(b)) => {
            if crate::text::same(b.as_str(), name) || !is_var(b.as_str()) || fuel == 0 {
                Atom::Sym(b)
            } else {
                chase(b.as_str(), env, fuel - 1)
            }
        },
        Some(a) => a,
    }
}

/// Without bindings nothing is substituted.
pub proof fn substitution_of_nothing(a: AtomV, env: EnvV)
    requires
        env is Empty,
    ensures
        substituted(a, env) == a,
    decreases a,
{
    if let AtomV::Expr(items) = a {
        assert forall|i: int| 0 <= i < items.len() implies #[trigger] all_substituted(
            items,
            env,
        )[i] == items[i] by {
            substitution_of_nothing(items[i], env);
        }
        assert(all_substituted(items, env) =~= items);
    }
}

/// An atom without variables is its own substitution.
pub open spec fn is_ground(a: AtomV) -> bool
    decreases a,
{
    match a {
        AtomV::Sym(s) => !is_var_name(s),
        AtomV::Expr(items) => forall|i: int| 0 <= i < items.len() ==> is_ground(#[trigger] items[i]),
        _ => true,
    }
}

/// Substitution leaves an atom without variables alone, whatever is bound.
pub proof fn substitution_of_ground(a: AtomV, env: EnvV)
    requires
        is_ground(a),
    ensures
        substituted(a, env) == a,
    decreases a,
{
    if let AtomV::Expr(items) = a {
        assert forall|i: int| 0 <= i < items.len() implies #[trigger] all_substituted(
            items,
            env,
        )[i] == items[i] by {
            assert(a->Expr_0[i] == items[i]);
            substitution_of_ground(items[i], env);
        }
        assert(all_substituted(items, env) =~= items);
    }
}

/// A chain of variables that ends within `fuel` hops ends in the same place
/// with more hops allowed.
pub open spec fn chain_ends(name: Seq<char>, env: EnvV, fuel: nat) -> bool
    decreases fuel,
{
    match env_get(env, name) {
        Some(AtomV::Sym(b)) => b == name || !is_var_name(b) || (fuel > 0 && chain_ends(
            b,
            env,
            (fuel - 1) as nat,
        )),
        _ => true,
    }
}

/// The hop limit does not matter to chains that end within it.
pub proof fn ended_chain_is_stable(name: Seq<char>, env: EnvV, fuel: nat, more: nat)
    requires
        chain_ends(name, env, fuel),
        fuel <= more,
    ensures
        chased(name, env, more) == chased(name, env, fuel),
    decreases fuel,
{
    if let Some(AtomV::Sym(b)) = env_get(env, name) {
        if b != name && is_var_name(b) {
            ended_chain_is_stable(b, env, (fuel - 1) as nat, (more - 1) as nat);
        }
    }
}

/// The variable that is reached from a name in a number of hops.
spec fn reached(name: Seq<char>, env: EnvV, k: nat) -> Seq<char>
    decreases k,
{
    if k == 0 {
        name
    } else {
        match env_get(env, reached(name, env, (k - 1) as nat)) {
            Some(AtomV::Sym(b)) => b,
            _ => name,
        }
    }
}

/// A chain that ends within some hops ends within more.
proof fn lemma_ends_later(name: Seq<char>, env: EnvV, fuel: nat, more: nat)
    requires
        chain_ends(name, env, fuel),
        fuel <= more,
    ensures
        chain_ends(name, env, more),
    decreases fuel,
{
    if let Some(AtomV::Sym(b)) = env_get(env, name) {
        if b != name && is_var_name(b) {
            lemma_ends_later(b, env, (fuel - 1) as nat, (more - 1) as nat);
        }
    }
}

/// The rest of a chain that takes a number of hops takes the rest of them.
proof fn lemma_rest_of_chain(name: Seq<char>, env: EnvV, m: nat, k: nat)
    requires
        k < m,
        chain_ends(name, env, m),
        !chain_ends(name, env, (m - 1) as nat),
    ensures
        chain_ends(reached(name, env, k), env, (m - k) as nat),
        !chain_ends(reached(name, env, k), env, (m - k - 1) as nat),
        env_get(env, reached(name, env, k)) is Some,
    decreases k,
{
    if k > 0 {
        lemma_rest_of_chain(name, env, m, (k - 1) as nat);
    }
}

/// The number of bindings of an environment is that of its list of bindings.
proof fn lemma_binding_count(env: EnvV)
    ensures
        binding_count(env) == bindings(env).len(),
    decreases env,
{
    match env {
        EnvV::Empty => {},
        EnvV::Cons(name, value, next) => {
            lemma_binding_count(*next);
        },
        EnvV::Link(prefix, base) => {
            lemma_binding_count(*prefix);
            lemma_binding_count(*base);
        },
    }
}

/// A name that has a value is the name of a binding.
proof fn lemma_bound_is_listed(b: Seq<Binding>, name: Seq<char>)
    requires
        first_bound(b, name) is Some,
    ensures
        exists|i: int| 0 <= i < b.len() && (#[trigger] b[i]).0 == name,
    decreases b.len(),
{
    if b[0].0 != name {
        lemma_bound_is_listed(b.drop_first(), name);
        let i = choose|i: int|
            0 <= i < b.drop_first().len() && (#[trigger] b.drop_first()[i]).0 == name;
        assert(b[i + 1].0 == name);
    }
}

/// A chain that takes a number of hops passes as many different bindings.
proof fn lemma_chain_is_short(name: Seq<char>, env: EnvV, m: nat)
    requires
        chain_ends(name, env, m),
        m > 0 ==> !chain_ends(name, env, (m - 1) as nat),
    ensures
        m <= binding_count(env),
{
    let bs = bindings(env);
    let passed = Seq::new(m, |k: int| reached(name, env, k as nat));
    let names = Seq::new(bs.len(), |i: int| bs[i].0);
    assert forall|i: int, j: int| 0 <= i < j < m implies passed[i] != passed[j] by {
        lemma_rest_of_chain(name, env, m, i as nat);
        lemma_rest_of_chain(name, env, m, j as nat);
        if passed[i] == passed[j] {
            lemma_ends_later(passed[j], env, (m - j) as nat, (m - i - 1) as nat);
        }
    }
    assert(passed.no_duplicates());
    passed.unique_seq_to_set();
    assert forall|x: Seq<char>| passed.to_set().contains(x) implies names.to_set().contains(x) by {
        let k = choose|k: int| 0 <= k < passed.len() && passed[k] == x;
        lemma_rest_of_chain(name, env, m, k as nat);
        lemma_bound_is_listed(bs, x);
        let i = choose|i: int| 0 <= i < bs.len() && (#[trigger] bs[i]).0 == x;
        assert(names[i] == x);
    }
    names.lemma_cardinality_of_set();
    vstd::set_lib::lemma_len_subset(passed.to_set(), names.to_set());
    lemma_binding_count(env);
}

/// The hop limit cuts no chain short: one that ends at all ends within it.
pub proof fn chains_are_followed_to_their_end(name: Seq<char>, env: EnvV, n: nat)
    requires
        chain_ends(name, env, n),
        binding_count(env) <= u64::MAX,
    ensures
        chain_ends(name, env, hops(env)),
        chased(name, env, hops(env)) == chased(name, env, n),
    decreases n,
{
    if n > 0 && chain_ends(name, env, (n - 1) as nat) {
        chains_are_followed_to_their_end(name, env, (n - 1) as nat);
        ended_chain_is_stable(name, env, (n - 1) as nat, n);
    } else {
        lemma_chain_is_short(name, env, n);
        lemma_ends_later(name, env, n, hops(env));
        ended_chain_is_stable(name, env, n, hops(env));
    }
}

/// Copy-on-write substitution: nothing is returned when nothing changes.
fn subst_atom_opt(atom: &Atom, env: &Env) -> (r: Option<Atom>)
    ensures
        (match r {
            Some(a) => a@ == substituted(atom@, env@),
            None => atom@ == substituted(atom@, env@),
        }),
    decreases atom,
{
    broadcast use group_atoms;

    match atom {
        Atom::Sym(s) => {
            if !is_var(s.as_str()) {
                return None;
            }
            match lookup(env, s.as_str()) {
                None => None,
                Some(Atom::Sym(b)) => {
                    if crate::text::same(b.as_str(), s.as_str()) || !is_var(b.as_str()) {
                        Some(Atom::Sym(b))
                    } else {
                        let n: u64 = count_bindings(env);
                        Some(chase(s.as_str(), env, n))
                    }
                },
                Some(a) => Some(a),
            }
        },
        Atom::Expr(items) => {
            let ghost want = all_substituted(atoms(items@), env@);
            let mut i: usize = 0;
            while i < items.len()
                invariant
                    i <= items@.len(),
                    *atom == Atom::Expr(*items),
                    want == all_substituted(atoms(items@), env@),
                    forall|j: int| 0 <= j < i ==> atoms(items@)[j] == want[j],
                decreases items@.len() - i,
            {
                assert(decreases_to!(atom => atom->Expr_0@[i as int]));
                match subst_atom_opt(&items[i], env) {
                    None => {
                        assert(atoms(items@)[i as int] == want[i as int]);
                    },
                    Some(first) => {
                        let mut out: Vec<Atom> = Vec::new();
                        let mut k: usize = 0;
                        while k < i
                            invariant
                                k <= i < items@.len(),
                                want == all_substituted(atoms(items@), env@),
                                forall|j: int| 0 <= j < i ==> atoms(items@)[j] == want[j],
                                atoms(out@) == want.take(k as int),
                            decreases i - k,
                        {
                            out.push(items[k].clone());
                            assert(want.take(k + 1) =~= want.take(k as int).push(want[k as int]));
                            assert(atoms(items@)[k as int] == want[k as int]);
                            k += 1;
                        }
                        out.push(first);
                        assert(want.take(i + 1) =~= want.take(i as int).push(want[i as int]));
                        k = i + 1;
                        while k < items.len()
                            invariant
                                k <= items@.len(),
                                *atom == Atom::Expr(*items),
                                want == all_substituted(atoms(items@), env@),
                                atoms(out@) == want.take(k as int),
                            decreases items@.len() - k,
                        {
                            assert(decreases_to!(atom => atom->Expr_0@[k as int]));
                            match subst_atom_opt(&items[k], env) {
                                Some(a) => {
                                    out.push(a);
                                },
                                None => {
                                    out.push(items[k].clone());
                                },
                            }
                            assert(want.take(k + 1) =~= want.take(k as int).push(want[k as int]));
                            k += 1;
                        }
                        assert(want.take(items@.len() as int) =~= want);
                        return Some(Atom::Expr(Arc::new(out)));
                    },
                }
                i += 1;
            }
            assert(want =~= atoms(items@));
            None
        },
        _ => None,
    }
}

/// Replace the bound variables of an atom by what they lead to.
pub fn subst_atom(atom: &Atom, env: &Env) -> (r: Atom)
    ensures
        r@ == substituted(atom@, env@),
{
    if env.is_empty_env() {
        proof {
            substitution_of_nothing(atom@, env@);
        }
        return atom.clone();
    }
    match subst_atom_opt(atom, env) {
        Some(a) => a,
        None => atom.clone(),
    }
}

/// An expression with its bound variables replaced by the expressions of their
/// values. A variable that is bound to a variable stays.
pub open spec fn expr_substituted(e: ExprV, env: EnvV) -> ExprV
    decreases e,
{
    match e {
        ExprV::Symbol(s) => if is_var_name(s) {
            match env_get(env, s) {
                None => e,
                Some(a) => if a is Sym && is_var_name(a->Sym_0) {
                    e
                } else {
                    to_expr(a)
                },
            }
        } else {
            e
        },
        ExprV::List(items) => ExprV::List(exprs_substituted(items, env)),
        _ => e,
    }
}

/// Expressions with their bound variables replaced.
pub open spec fn exprs_substituted(s: Seq<ExprV>, env: EnvV) -> Seq<ExprV>
    decreases s,
{
    Seq::new(
        s.len(),
        |i: int|
            if 0 <= i < s.len() {
                expr_substituted(s[i], env)
            } else {
                arbitrary()
            },
    )
}

/// Substitute bound variables in an expression.
///
/// A variable bound to a variable is kept as it is, so that later matching can
/// still treat it as a variable.
pub fn subst_expr_vars(expr: &Expr, env: &Env) -> (r: Expr)
    ensures
        r@ == expr_substituted(expr@, env@),
    decreases expr,
{
    broadcast use group_exprs;

    match expr {
        Expr::Symbol(s) => {
            if is_var(s.as_str()) {
                match lookup(env, s.as_str()) {
                    None => expr.clone(),
                    Some(Atom::Sym(b)) => {
                        if is_var(b.as_str()) {
                            expr.clone()
                        } else {
                            Expr::Symbol(b)
                        }
                    },
                    Some(a) => match atom_to_expr(&a) {
                        Ok(x) => x,
                        Err(_) => expr.clone(),
                    },
                }
            } else {
                expr.clone()
            }
        },
        Expr::List(items) => {
            let mut out: Vec<Expr> = Vec::new();
            let ghost want = exprs_substituted(exprs(items@), env@);
            let mut i: usize = 0;
            while i < items.len()
                invariant
                    i <= items@.len(),
                    *expr == Expr::List(*items),
                    want == exprs_substituted(exprs(items@), env@),
                    exprs(out@) == want.take(i as int),
                decreases items@.len() - i,
            {
                assert(decreases_to!(expr => expr->List_0@[i as int]));
                out.push(subst_expr_vars(&items[i], env));
                assert(want.take(i + 1) =~= want.take(i as int).push(want[i as int]));
                i += 1;
            }
            assert(want.take(items@.len() as int) =~= want);
            Expr::List(Arc::new(out))
        },
        _ => expr.clone(),
    }
}

/// An expression with its bound variables replaced by the expressions of what
/// they lead to: a chain of variables bound to variables is followed to its end.
pub open spec fn expr_followed(e: ExprV, env: EnvV) -> ExprV
    decreases e,
{
    match e {
        ExprV::Symbol(s) => if is_var_name(s) {
            to_expr(chased(s, env, hops(env)))
        } else {
            e
        },
        ExprV::List(items) => ExprV::List(exprs_followed(items, env)),
        _ => e,
    }
}

/// Expressions with their bound variables replaced by what they lead to.
pub open spec fn exprs_followed(s: Seq<ExprV>, env: EnvV) -> Seq<ExprV>
    decreases s,
{
    Seq::new(
        s.len(),
        |i: int|
            if 0 <= i < s.len() {
                expr_followed(s[i], env)
            } else {
                arbitrary()
            },
    )
}

/// Substitute bound variables in an expression by what they lead to.
///
/// A variable bound to a variable is followed from binding to binding, so that
/// an indirect reference to a variable becomes that variable. A chain that runs
/// in a circle stops at one of its variables.
pub fn follow_expr_vars(expr: &Expr, env: &Env) -> (r: Expr)
    ensures
        r@ == expr_followed(expr@, env@),
    decreases expr,
{
    broadcast use group_exprs;

    match expr {
        Expr::Symbol(s) => {
            if is_var(s.as_str()) {
                let n: u64 = count_bindings(env);
                match atom_to_expr(&chase(s.as_str(), env, n)) {
                    Ok(x) => x,
                    Err(_) => expr.clone(),
                }
            } else {
                expr.clone()
            }
        },
        Expr::List(items) => {
            let mut out: Vec<Expr> = Vec::new();
            let ghost want = exprs_followed(exprs(items@), env@);
            let mut i: usize = 0;
            while i < items.len()
                invariant
                    i <= items@.len(),
                    *expr == Expr::List(*items),
                    want == exprs_followed(exprs(items@), env@),
                    exprs(out@) == want.take(i as int),
                decreases items@.len() - i,
            {
                assert(decreases_to!(expr => expr->List_0@[i as int]));
                out.push(follow_expr_vars(&items[i], env));
                assert(want.take(i + 1) =~= want.take(i as int).push(want[i as int]));
                i += 1;
            }
            assert(want.take(items@.len() as int) =~= want);
            Expr::List(Arc::new(out))
        },
        _ => expr.clone(),
    }
}

/// An expression with its bound variables replaced by the expressions of their
/// values, variables among them, once.
pub open spec fn expr_filled(e: ExprV, env: EnvV) -> ExprV
    decreases e,
{
    match e {
        ExprV::Symbol(s) => if is_var_name(s) {
            match env_get(env, s) {
                None => e,
                Some(a) => to_expr(a),
            }
        } else {
            e
        },
        ExprV::List(items) => ExprV::List(exprs_filled(items, env)),
        _ => e,
    }
}

/// Expressions with their bound variables replaced by their values, once.
pub open spec fn exprs_filled(s: Seq<ExprV>, env: EnvV) -> Seq<ExprV>
    decreases s,
{
    Seq::new(
        s.len(),
        |i: int|
            if 0 <= i < s.len() {
                expr_filled(s[i], env)
            } else {
                arbitrary()
            },
    )
}

/// Substitute bound variables in an expression by their values, once.
pub fn fill_expr_vars(expr: &Expr, env: &Env) -> (r: Expr)
    ensures
        r@ == expr_filled(expr@, env@),
    decreases expr,
{
    broadcast use group_exprs;

    match expr {
        Expr::Symbol(s) => {
            if is_var(s.as_str()) {
                match lookup(env, s.as_str()) {
                    None => expr.clone(),
                    Some(a) => match atom_to_expr(&a) {
                        Ok(x) => x,
                        Err(_) => expr.clone(),
                    },
                }
            } else {
                expr.clone()
            }
        },
        Expr::List(items) => {
            let mut out: Vec<Expr> = Vec::new();
            let ghost want = exprs_filled(exprs(items@), env@);
            let mut i: usize = 0;
            while i < items.len()
                invariant
                    i <= items@.len(),
                    *expr == Expr::List(*items),
                    want == exprs_filled(exprs(items@), env@),
                    exprs(out@) == want.take(i as int),
                decreases items@.len() - i,
            {
                assert(decreases_to!(expr => expr->List_0@[i as int]));
                out.push(fill_expr_vars(&items[i], env));
                assert(want.take(i + 1) =~= want.take(i as int).push(want[i as int]));
                i += 1;
            }
            assert(want.take(items@.len() as int) =~= want);
            Expr::List(Arc::new(out))
        },
        _ => expr.clone(),
    }
}

} // verus!
