//! What heads do with their arguments.
use crate::atom::AtomV;
use crate::atom::symbol;
use crate::builtins::boolean::truth;
use crate::env::Binding;
use crate::env::EnvV;
use crate::env::bindings;
use crate::env::env_get;
use crate::env::extend_then_get;
use crate::eval::forms::query::clause_match;
use crate::eval::machine::vm::call::DispatchV;
use crate::eval::machine::vm::call::all_filled;
use crate::eval::machine::vm::call::dispatched;
use crate::eval::machine::vm::call::members;
use crate::eval::shared::env::linked;
use crate::eval::shared::env::prepend_then_lookup;
use crate::eval::shared::pattern::KnownV;
use crate::eval::shared::pattern::MatchV;
use crate::eval::shared::pattern::all_ground;
use crate::eval::shared::pattern::match_all;
use crate::eval::shared::pattern::match_one;
use crate::eval::shared::subst::substitution_of_ground;
use crate::expr::ExprV;
use crate::func::TableV;
use crate::laws::currying::lemma_two_noted;
use crate::laws::meaning::lemma_ground_same;
use crate::laws::numbers::truth_atom;
use crate::laws::numbers::truth_values_are_symbols;
use crate::text::is_var_name;
use vstd::prelude::*;

verus! {

/// Two different variables that are matched with two atoms are bound to them, in
/// their order, in front of an environment.
proof fn lemma_two_bound(
    a: Seq<char>,
    b: Seq<char>,
    x: AtomV,
    y: AtomV,
    env: EnvV,
    known: Seq<KnownV>,
)
    requires
        is_var_name(a),
        is_var_name(b),
        a != b,
    ensures
        ({
            let r = clause_match(
                seq![ExprV::Symbol(a), ExprV::Symbol(b)],
                seq![x, y],
                env,
                known,
            );
            &&& r is Yes
            &&& env_get(r->Yes_0, a) == Some(x)
            &&& env_get(r->Yes_0, b) == Some(y)
            &&& forall|n: Seq<char>|
                n != a && n != b ==> #[trigger] env_get(r->Yes_0, n) == env_get(env, n)
        }),
{
    let pa = ExprV::Symbol(a);
    let pb = ExprV::Symbol(b);
    let ps = seq![pa, pb];
    let xs = seq![x, y];
    let none = EnvV::Empty;
    assert(ps.drop_last() =~= seq![pa]);
    assert(xs.drop_last() =~= seq![x]);
    assert(seq![pa].drop_last() =~= Seq::<ExprV>::empty());
    assert(seq![x].drop_last() =~= Seq::<AtomV>::empty());
    assert(match_all(Seq::empty(), Seq::empty(), none, known) == MatchV::Yes(none));
    assert(bindings(none) =~= Seq::<Binding>::empty());
    assert(env_get(none, a) is None);
    let e1 = EnvV::Cons(a, Box::new(x), Box::new(none));
    assert(match_one(pa, x, none, known) == MatchV::Yes(e1));
    assert(seq![pa].last() == pa && seq![x].last() == x);
    assert(match_all(seq![pa], seq![x], none, known) == MatchV::Yes(e1));
    extend_then_get(none, a, x, b);
    let e2 = EnvV::Cons(b, Box::new(y), Box::new(e1));
    assert(match_one(pb, y, e1, known) == MatchV::Yes(e2));
    assert(match_all(ps, xs, none, known) == MatchV::Yes(e2));
    let e = linked(e2, env);
    extend_then_get(e1, b, y, a);
    extend_then_get(none, a, x, a);
    extend_then_get(e1, b, y, b);
    assert forall|n: Seq<char>| n != a && n != b implies #[trigger] env_get(e, n) == env_get(
        env,
        n,
    ) by {
        extend_then_get(none, a, x, n);
        extend_then_get(e1, b, y, n);
        prepend_then_lookup(e2, env, n);
    }
    prepend_then_lookup(e2, env, a);
    prepend_then_lookup(e2, env, b);
}

/// A function without a name that is applied to its arguments runs its body with
/// its first variable bound to the first argument and its second variable to the
/// second one.
pub proof fn unnamed_functions_bind_their_arguments(
    a: Seq<char>,
    b: Seq<char>,
    body: ExprV,
    inner: EnvV,
    x: AtomV,
    y: AtomV,
    arity: u8,
    env: EnvV,
    t: TableV,
    known: Seq<KnownV>,
)
    requires
        is_var_name(a),
        is_var_name(b),
        a != b,
    ensures
        ({
            let f = AtomV::Closure(
                seq![ExprV::Symbol(a), ExprV::Symbol(b)],
                body,
                Box::new(inner),
            );
            let d = dispatched(f, seq![x, y], arity, env, t, known).0;
            &&& d is Pending || d is Fail
            &&& d is Pending ==> {
                let p = d->Pending_0;
                &&& p.len() == 1
                &&& env_get(p[0].env, a) == Some(x)
                &&& env_get(p[0].env, b) == Some(y)
                &&& forall|n: Seq<char>|
                    n != a && n != b ==> #[trigger] env_get(p[0].env, n) == env_get(env, n)
                &&& p[0].locals == seq![(x, EnvV::Empty), (y, EnvV::Empty)]
            }
        }),
{
    lemma_two_bound(a, b, x, y, env, known);
    lemma_two_noted(a, b);
    let params = seq![ExprV::Symbol(a), ExprV::Symbol(b)];
    let f = AtomV::Closure(params, body, Box::new(inner));
    let d = dispatched(f, seq![x, y], arity, env, t, known).0;
    if d is Pending {
        assert(d->Pending_0[0].locals =~= seq![(x, EnvV::Empty), (y, EnvV::Empty)]);
    }
}

/// A list that starts with a name that is no function is data: the name and the
/// arguments in their order.
pub proof fn unknown_names_make_data(
    name: Seq<char>,
    xs: Seq<AtomV>,
    env: EnvV,
    t: TableV,
    known: Seq<KnownV>,
)
    requires
        !is_var_name(name),
        symbol(name) == AtomV::Sym(name),
        all_ground(xs),
        !t.natives.contains_key((name, xs.len() as u8)),
        !t.pure_fns.contains((name, xs.len() as u8)),
        t.clauses_of(name, xs.len() as u8) is None,
        !t.takes_more(name, xs.len() as u8 as int),
    ensures
        dispatched(AtomV::Sym(name), xs, xs.len() as u8, env, t, known) == (
            DispatchV::Results(
                seq![(AtomV::Expr(seq![AtomV::Sym(name)] + xs), env)],
            ),
            t,
        ),
{
    let all = seq![AtomV::Sym(name)] + xs;
    assert forall|i: int| 0 <= i < all.len() implies #[trigger] all_filled(all, env)[i] == all[i] by {
        if i > 0 {
            assert(all[i] == xs[i - 1]);
        }
        assert(crate::eval::shared::pattern::is_ground(all[i]));
        lemma_ground_same(all[i]);
        substitution_of_ground(all[i], env);
    }
    assert(all_filled(all, env) =~= all);
}

/// An atom that a list holds is found in it, and each finding is `true`; where
/// nothing is found, `is-member` answers `false` and `member` nothing.
pub proof fn members_are_looked_up(
    x: AtomV,
    items: Seq<AtomV>,
    env: EnvV,
    t: TableV,
    known: Seq<KnownV>,
)
    requires
        t.natives.contains_key(("member"@, 2u8)),
        t.natives.contains_key(("is-member"@, 2u8)),
    ensures
        ({
            let args = seq![x, AtomV::Expr(items)];
            let m = dispatched(AtomV::Sym("member"@), args, 2u8, env, t, known);
            let i = dispatched(AtomV::Sym("is-member"@), args, 2u8, env, t, known);
            &&& m.1 == t && i.1 == t
            &&& m.0 is Results && i.0 is Results
            &&& items.contains(x) ==> m.0->Results_0.len() > 0 && i.0 == m.0
            &&& forall|k: int|
                0 <= k < m.0->Results_0.len() ==> (#[trigger] m.0->Results_0[k]).0 == truth_atom(
                    true,
                )
            &&& m.0->Results_0.len() == 0 ==> i.0 == DispatchV::Results(
                seq![(truth_atom(false), env)],
            )
        }),
{
    truth_values_are_symbols(true);
    truth_values_are_symbols(false);
    lemma_members(x, items, env);
    reveal_strlit("member");
    reveal_strlit("is-member");
    assert("member"@.len() == 6 && "is-member"@.len() == 9);
}

proof fn lemma_members(x: AtomV, items: Seq<AtomV>, env: EnvV)
    ensures
        items.contains(x) ==> members(x, items, env).len() > 0,
        forall|k: int|
            0 <= k < members(x, items, env).len() ==> (#[trigger] members(x, items, env)[k]).0
                == truth(true),
    decreases items.len(),
{
    if items.len() > 0 {
        lemma_members(x, items.drop_last(), env);
        if items.contains(x) && x != items.last() {
            let k = choose|k: int| 0 <= k < items.len() && items[k] == x;
            assert(items.drop_last()[k] == x);
        }
    }
}

} // verus!
