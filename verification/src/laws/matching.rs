//! How the two ways of matching agree, and what a list pattern takes apart.
use crate::atom::AtomV;
use crate::env::Binding;
use crate::env::EnvV;
use crate::env::bindings;
use crate::env::env_get;
use crate::env::extend_then_get;
use crate::eval::shared::pattern::KnownV;
use crate::eval::shared::pattern::MatchV;
use crate::eval::shared::pattern::all_ground;
use crate::eval::shared::pattern::all_plain;
use crate::eval::shared::pattern::is_ground;
use crate::eval::shared::pattern::is_plain;
use crate::eval::shared::pattern::lemma_match_all_stops;
use crate::eval::shared::pattern::match_all;
use crate::eval::shared::pattern::match_one;
use crate::eval::walker::StopV;
use crate::eval::walker::WalkV;
use crate::eval::walker::matching::all_fit;
use crate::eval::walker::matching::fit;
use crate::expr::ExprV;
use crate::text::is_var_name;
use vstd::prelude::*;

verus! {

/// Whether two environments bind the same variables to the same atoms.
pub open spec fn bind_alike(e1: EnvV, e2: EnvV) -> bool {
    forall|n: Seq<char>| #[trigger] env_get(e1, n) == env_get(e2, n)
}

/// Whether a fit and a match come to the same: neither binds anything, or both
/// bind the same.
pub open spec fn come_alike(r: Result<Option<EnvV>, StopV>, m: MatchV) -> bool {
    match m {
        MatchV::Yes(e) => r matches Ok(Some(d)) && bind_alike(d, e),
        MatchV::No => r == Ok::<Option<EnvV>, StopV>(None),
        MatchV::Ask(_, _) => false,
    }
}

proof fn lemma_all_fit(
    ps: Seq<ExprV>,
    xs: Seq<AtomV>,
    i: nat,
    env: EnvV,
    d: EnvV,
    e: EnvV,
    s: WalkV,
    f: nat,
)
    requires
        ps.len() == xs.len(),
        i <= ps.len(),
        all_plain(ps),
        all_ground(xs),
        match_all(ps.take(i as int), xs.take(i as int), env, Seq::empty()) == MatchV::Yes(e),
        bind_alike(d, e),
    ensures
        all_fit(ps, xs, i, d, s, f).1 == s,
        come_alike(all_fit(ps, xs, i, d, s, f).0, match_all(ps, xs, env, Seq::empty())),
    decreases ps, ps.len() - i,
{
    if i < ps.len() {
        let n = i as int;
        let p = ps[n];
        let x = xs[n];
        assert(is_plain(p) && is_ground(x));
        fits_agree_with_matches(p, x, d, e, s, f);
        let pt = ps.take(n + 1);
        let xt = xs.take(n + 1);
        assert(pt.drop_last() =~= ps.take(n));
        assert(xt.drop_last() =~= xs.take(n));
        assert(pt.last() == p && xt.last() == x);
        let r = match_one(p, x, e, Seq::empty());
        assert(match_all(pt, xt, env, Seq::empty()) == r);
        match r {
            MatchV::Yes(e2) => {
                let d2 = fit(p, x, d, s, f).0->Ok_0->Some_0;
                lemma_all_fit(ps, xs, i + 1, env, d2, e2, s, f);
            },
            _ => {
                lemma_match_all_stops(ps, xs, env, Seq::empty(), n + 1);
            },
        }
    } else {
        assert(ps.take(i as int) =~= ps);
        assert(xs.take(i as int) =~= xs);
    }
}

/// Where expressions are walked, a pattern fits an atom exactly where it matches
/// it, and the same is bound.
pub proof fn fits_agree_with_matches(
    p: ExprV,
    a: AtomV,
    d: EnvV,
    e: EnvV,
    s: WalkV,
    f: nat,
)
    requires
        is_plain(p),
        is_ground(a),
        bind_alike(d, e),
    ensures
        fit(p, a, d, s, f).1 == s,
        come_alike(fit(p, a, d, s, f).0, match_one(p, a, e, Seq::empty())),
    decreases p, 0int,
{
    match p {
        ExprV::Symbol(name) => {
            assert(env_get(d, name) == env_get(e, name));
            let d2 = EnvV::Cons(name, Box::new(a), Box::new(d));
            let e2 = EnvV::Cons(name, Box::new(a), Box::new(e));
            assert forall|n: Seq<char>| #[trigger] env_get(d2, n) == env_get(e2, n) by {
                extend_then_get(d, name, a, n);
                extend_then_get(e, name, a, n);
                assert(env_get(d, n) == env_get(e, n));
            }
            if env_get(e, name) == Some(a) {
                assert forall|n: Seq<char>| #[trigger] env_get(d2, n) == env_get(e, n) by {
                    extend_then_get(d, name, a, n);
                    assert(env_get(d, n) == env_get(e, n));
                }
            }
        },
        ExprV::List(items) => {
            if let AtomV::Expr(elements) = a {
                if items.len() == elements.len() {
                    assert(items.take(0) =~= Seq::<ExprV>::empty());
                    assert(elements.take(0) =~= Seq::<AtomV>::empty());
                    lemma_all_fit(items, elements, 0, e, d, e, s, f);
                }
            }
        },
        _ => {},
    }
}

/// `(cons $h $t)` matches each list that is not empty, and binds the first variable
/// to its first element and the second one to the list of the others.
pub proof fn lists_are_matched_as_head_and_tail(
    h: Seq<char>,
    t: Seq<char>,
    x: AtomV,
    xs: Seq<AtomV>,
    known: Seq<KnownV>,
)
    requires
        is_var_name(h),
        is_var_name(t),
        h != t,
    ensures
        ({
            let p = ExprV::List(
                seq![ExprV::Symbol("cons"@), ExprV::Symbol(h), ExprV::Symbol(t)],
            );
            let r = match_one(p, AtomV::Expr(seq![x] + xs), EnvV::Empty, known);
            &&& r is Yes
            &&& env_get(r->Yes_0, h) == Some(x)
            &&& env_get(r->Yes_0, t) == Some(AtomV::Expr(xs))
            &&& match_one(p, AtomV::Expr(Seq::empty()), EnvV::Empty, known) is No
        }),
{
    let items = seq![ExprV::Symbol("cons"@), ExprV::Symbol(h), ExprV::Symbol(t)];
    let all = seq![x] + xs;
    assert(all.skip(1) =~= xs);
    assert(bindings(EnvV::Empty) =~= Seq::<Binding>::empty());
    assert(env_get(EnvV::Empty, h) is None);
    let e1 = EnvV::Cons(h, Box::new(x), Box::new(EnvV::Empty));
    extend_then_get(EnvV::Empty, h, x, t);
    extend_then_get(EnvV::Empty, h, x, h);
    assert(match_one(items[1], x, EnvV::Empty, known) == MatchV::Yes(e1));
    let l = AtomV::Expr(xs);
    let e2 = EnvV::Cons(t, Box::new(l), Box::new(e1));
    assert(match_one(items[2], l, e1, known) == MatchV::Yes(e2));
    extend_then_get(e1, t, l, h);
    extend_then_get(e1, t, l, t);
}

} // verus!
