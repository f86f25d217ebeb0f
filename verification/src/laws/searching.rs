//! Searches, on the matches they find and the values they end with.
use crate::atom::AtomV;
use crate::atom::symbol;
use crate::env::Binding;
use crate::env::EnvV;
use crate::env::bindings;
use crate::env::env_get;
use crate::env::first_bound;
use crate::env::lemma_first_bound_append;
use crate::eval::machine::budget::ResultV;
use crate::eval::machine::budget::raw_atoms;
use crate::eval::machine::vm::bodies::waiting;
use crate::eval::machine::vm::compiler::ScopeV;
use crate::eval::machine::vm::compiler::all_noted;
use crate::eval::machine::vm::compiler::compiled;
use crate::eval::machine::vm::compiler::form_of;
use crate::eval::machine::vm::compiler::noted;
use crate::eval::machine::vm::compiler::vars_of;
use crate::eval::machine::vm::compiler::with_body;
use crate::eval::machine::vm::op::OpcodeV;
use crate::eval::machine::vm::op::PatternBodyV;
use crate::eval::machine::vm::outcome::VmOutV;
use crate::eval::machine::vm::plain::popped;
use crate::eval::machine::vm::plain::pushed;
use crate::eval::machine::vm::plain::top;
use crate::eval::machine::vm::resume::back;
use crate::eval::machine::vm::search::after_first;
use crate::eval::machine::vm::search::search_env;
use crate::eval::machine::vm::search::starts_for;
use crate::eval::machine::vm::state::VmV;
use crate::eval::machine::vm::state::WaitV;
use crate::eval::machine::vm::state::at_fresh;
use crate::eval::machine::vm::state::inherited;
use crate::eval::machine::vm::state::vm_start;
use crate::eval::shared::pattern::KnownV;
use crate::eval::shared::pattern::stands_in;
use crate::eval::shared::pattern::stands_in_one;
use crate::eval::shared::subst::expr_followed;
use crate::eval::shared::subst::exprs_followed;
use crate::expr::ExprV;
use crate::func::TableV;
use crate::laws::applying::lemma_at_split;
use crate::laws::applying::lemma_behind;
use crate::laws::folding::lemma_at_turn;
use crate::laws::meaning::code_leaves;
use crate::laws::meaning::ends_with;
use crate::laws::meaning::gives;
use crate::laws::meaning::is_at;
use crate::laws::meaning::is_past;
use crate::laws::meaning::is_scope;
use crate::laws::meaning::leaves;
use crate::laws::meaning::lemma_at_op;
use crate::laws::meaning::lemma_started;
use crate::laws::meaning::means;
use crate::laws::running::gets;
use crate::laws::running::lemma_gets_join;
use crate::laws::running::lemma_gets_step;
use crate::laws::running::lemma_gets_sub;
use crate::laws::running::makes;
use crate::laws::running::takes;
use crate::space::FoundV;
use crate::space::found_in;
use crate::space::matches_in;
use crate::space::space_match;
use crate::space::space_match_all;
use crate::text::is_var_name;
use vstd::prelude::*;
use vstd::string::*;

verus! {

/// The atoms that match a pattern, in their order.
pub open spec fn matching_atoms(p: ExprV, xs: Seq<AtomV>) -> Seq<AtomV> {
    xs.filter(|a: AtomV| space_match(p, a, Seq::empty()) is Some)
}

/// A search finds exactly the atoms that match: as often and in the order in
/// which they are stored, each with the bindings of its match.
pub proof fn searches_find_all_that_match(p: ExprV, xs: Seq<AtomV>)
    ensures
        found_in(p, xs).len() == matching_atoms(p, xs).len(),
        forall|k: int|
            0 <= k < found_in(p, xs).len() ==> {
                let f = #[trigger] found_in(p, xs)[k];
                &&& f.0 == matching_atoms(p, xs)[k]
                &&& xs.contains(f.0)
                &&& space_match(p, f.0, Seq::empty()) == Some(f.1)
            },
        forall|i: int|
            0 <= i < xs.len() && space_match(p, #[trigger] xs[i], Seq::empty()) is Some
                ==> exists|k: int|
                0 <= k < found_in(p, xs).len() && (#[trigger] found_in(p, xs)[k]).0 == xs[i],
    decreases xs.len(),
{
    let pred = |a: AtomV| space_match(p, a, Seq::empty()) is Some;
    reveal(Seq::filter);
    if xs.len() > 0 {
        let f = xs.drop_last();
        searches_find_all_that_match(p, f);
        let before = found_in(p, f);
        let all = found_in(p, xs);
        assert(matching_atoms(p, xs) == (if pred(xs.last()) {
            matching_atoms(p, f).push(xs.last())
        } else {
            matching_atoms(p, f)
        }));
        assert forall|k: int| 0 <= k < all.len() implies ({
            let x = #[trigger] all[k];
            &&& x.0 == matching_atoms(p, xs)[k]
            &&& xs.contains(x.0)
            &&& space_match(p, x.0, Seq::empty()) == Some(x.1)
        }) by {
            if k < before.len() {
                assert(all[k] == before[k]);
                let i = choose|i: int| 0 <= i < f.len() && f[i] == all[k].0;
                assert(xs[i] == all[k].0);
            } else {
                assert(xs[xs.len() - 1] == xs.last());
            }
        }
        assert forall|i: int|
            0 <= i < xs.len() && space_match(
                p,
                #[trigger] xs[i],
                Seq::empty(),
            ) is Some implies exists|k: int|
            0 <= k < all.len() && (#[trigger] all[k]).0 == xs[i] by {
            if i < f.len() {
                assert(f[i] == xs[i]);
                let k = choose|k: int|
                    0 <= k < before.len() && (#[trigger] before[k]).0 == f[i];
                assert(all[k] == before[k]);
            } else {
                assert(all[all.len() - 1].0 == xs[i]);
            }
        }
    }
}

/// A pattern with the bindings of a match put in for its variables.
pub open spec fn filled_pattern(p: ExprV, b: Seq<Binding>) -> AtomV
    decreases p,
{
    match p {
        ExprV::Symbol(s) => if is_var_name(s) {
            match first_bound(b, s) {
                Some(v) => v,
                None => AtomV::Sym(s),
            }
        } else {
            symbol(s)
        },
        ExprV::Number(n) => AtomV::Num(n),
        ExprV::Str(s) => AtomV::Str(s),
        ExprV::List(items) => AtomV::Expr(filled_patterns(items, b)),
    }
}

/// Patterns with the bindings of a match put in for their variables.
pub open spec fn filled_patterns(s: Seq<ExprV>, b: Seq<Binding>) -> Seq<AtomV>
    decreases s,
{
    Seq::new(
        s.len(),
        |i: int|
            if 0 <= i < s.len() {
                filled_pattern(s[i], b)
            } else {
                arbitrary()
            },
    )
}

/// Whether bindings hold those of others.
pub open spec fn holds_bindings(b: Seq<Binding>, c: Seq<Binding>) -> bool {
    forall|n: Seq<char>|
        first_bound(c, n) is Some ==> #[trigger] first_bound(b, n) == first_bound(c, n)
}

/// Whether bindings bind the variables of a pattern.
pub open spec fn binds_all(b: Seq<Binding>, p: ExprV) -> bool {
    forall|n: Seq<char>|
        is_var_name(n) && #[trigger] stands_in(p, n) ==> first_bound(b, n) is Some
}

/// A binding more.
proof fn lemma_bound_push(b: Seq<Binding>, s: Seq<char>, a: AtomV, n: Seq<char>)
    ensures
        first_bound(b.push((s, a)), n) == (match first_bound(b, n) {
            Some(v) => Some(v),
            None => if n == s {
                Some(a)
            } else {
                None
            },
        }),
{
    let one = seq![(s, a)];
    assert(b.push((s, a)) =~= b + one);
    lemma_first_bound_append(b, one, n);
    assert(one.drop_first() =~= Seq::<Binding>::empty());
    assert(first_bound(one.drop_first(), n) is None);
}

/// What more bindings put in.
proof fn lemma_filled_more(p: ExprV, b: Seq<Binding>, c: Seq<Binding>)
    requires
        holds_bindings(b, c),
        binds_all(c, p),
    ensures
        filled_pattern(p, b) == filled_pattern(p, c),
        binds_all(b, p),
    decreases p,
{
    match p {
        ExprV::Symbol(s) => {
            if is_var_name(s) {
                assert(stands_in(p, s));
            }
        },
        ExprV::List(items) => {
            assert forall|i: int| 0 <= i < items.len() implies #[trigger] filled_patterns(
                items,
                b,
            )[i] == filled_patterns(items, c)[i] by {
                assert(binds_all(c, items[i])) by {
                    assert forall|n: Seq<char>|
                        is_var_name(n) && #[trigger] stands_in(items[i], n) implies first_bound(
                        c,
                        n,
                    ) is Some by {
                        assert(stands_in_one(items, n));
                        assert(stands_in(p, n));
                    }
                }
                lemma_filled_more(items[i], b, c);
            }
            assert(filled_patterns(items, b) =~= filled_patterns(items, c));
        },
        _ => {},
    }
}

/// A match makes the pattern and the atom one: the pattern with its bindings put
/// in is the atom, every variable of the pattern is bound, and bindings that were
/// there before are kept.
pub proof fn matches_fill_the_pattern(p: ExprV, a: AtomV, b: Seq<Binding>)
    ensures
        space_match(p, a, b) matches Some(c) ==> {
            &&& filled_pattern(p, c) == a
            &&& binds_all(c, p)
            &&& holds_bindings(c, b)
        },
    decreases p, 1int,
{
    match p {
        ExprV::Symbol(s) => {
            if is_var_name(s) {
                match first_bound(b, s) {
                    Some(_) => {},
                    None => {
                        let c = b.push((s, a));
                        lemma_bound_push(b, s, a, s);
                        assert forall|n: Seq<char>| first_bound(
                            b,
                            n,
                        ) is Some implies #[trigger] first_bound(c, n) == first_bound(b, n) by {
                            lemma_bound_push(b, s, a, n);
                        }
                    },
                }
            }
        },
        ExprV::List(items) => {
            match a {
                AtomV::Expr(xs) => {
                    if items.len() == xs.len() {
                        lemma_all_filled(items, xs, b);
                        if let Some(c) = space_match_all(items, xs, b) {
                            assert(filled_patterns(items, c) =~= xs);
                            assert forall|n: Seq<char>|
                                is_var_name(n) && #[trigger] stands_in(
                                    p,
                                    n,
                                ) implies first_bound(c, n) is Some by {
                                let i = choose|i: int|
                                    0 <= i < items.len() && stands_in(#[trigger] items[i], n);
                                assert(binds_all(c, items[i]));
                            }
                        }
                    }
                },
                _ => {},
            }
        },
        _ => {},
    }
}

/// Matches of several patterns fill each of them.
proof fn lemma_all_filled(ps: Seq<ExprV>, xs: Seq<AtomV>, b: Seq<Binding>)
    requires
        ps.len() == xs.len(),
    ensures
        space_match_all(ps, xs, b) matches Some(c) ==> {
            &&& holds_bindings(c, b)
            &&& forall|i: int|
                0 <= i < ps.len() ==> filled_pattern(#[trigger] ps[i], c) == xs[i] && binds_all(
                    c,
                    ps[i],
                )
        },
    decreases ps, 0int,
{
    if ps.len() > 0 {
        let f = ps.drop_last();
        lemma_all_filled(f, xs.drop_last(), b);
        if let Some(c1) = space_match_all(f, xs.drop_last(), b) {
            assert(ps.last() == ps[ps.len() - 1]);
            matches_fill_the_pattern(ps.last(), xs.last(), c1);
            if let Some(c) = space_match(ps.last(), xs.last(), c1) {
                assert forall|i: int| 0 <= i < ps.len() implies filled_pattern(
                    #[trigger] ps[i],
                    c,
                ) == xs[i] && binds_all(c, ps[i]) by {
                    if i < f.len() {
                        assert(f[i] == ps[i]);
                        lemma_filled_more(ps[i], c, c1);
                    }
                }
            }
        }
    }
}

/// An atom that a pattern becomes when bindings are put in is matched by it, with
/// bindings that those bindings hold.
pub proof fn instances_are_matched(p: ExprV, a: AtomV, b: Seq<Binding>, d: Seq<Binding>)
    requires
        holds_bindings(d, b),
        binds_all(d, p),
        filled_pattern(p, d) == a,
    ensures
        space_match(p, a, b) matches Some(c) && holds_bindings(d, c),
    decreases p, 1int,
{
    match p {
        ExprV::Symbol(s) => {
            if is_var_name(s) {
                assert(stands_in(p, s));
                if first_bound(b, s) is None {
                    let c = b.push((s, a));
                    assert forall|n: Seq<char>| first_bound(
                        c,
                        n,
                    ) is Some implies #[trigger] first_bound(d, n) == first_bound(c, n) by {
                        lemma_bound_push(b, s, a, n);
                    }
                }
            }
        },
        ExprV::List(items) => {
            let xs = filled_patterns(items, d);
            assert forall|i: int| 0 <= i < items.len() implies binds_all(
                d,
                #[trigger] items[i],
            ) by {
                assert forall|n: Seq<char>|
                    is_var_name(n) && #[trigger] stands_in(items[i], n) implies first_bound(
                    d,
                    n,
                ) is Some by {
                    assert(stands_in_one(items, n));
                    assert(stands_in(p, n));
                }
            }
            lemma_instances_all(items, xs, b, d);
        },
        _ => {},
    }
}

/// Instances of several patterns are matched.
proof fn lemma_instances_all(
    ps: Seq<ExprV>,
    xs: Seq<AtomV>,
    b: Seq<Binding>,
    d: Seq<Binding>,
)
    requires
        ps.len() == xs.len(),
        holds_bindings(d, b),
        forall|i: int|
            0 <= i < ps.len() ==> binds_all(d, #[trigger] ps[i]) && filled_pattern(ps[i], d)
                == xs[i],
    ensures
        space_match_all(ps, xs, b) matches Some(c) && holds_bindings(d, c),
    decreases ps, 0int,
{
    if ps.len() > 0 {
        let f = ps.drop_last();
        assert forall|i: int| 0 <= i < f.len() implies binds_all(d, #[trigger] f[i])
            && filled_pattern(f[i], d) == xs.drop_last()[i] by {
            assert(f[i] == ps[i]);
        }
        lemma_instances_all(f, xs.drop_last(), b, d);
        let c1 = space_match_all(f, xs.drop_last(), b)->Some_0;
        assert(ps.last() == ps[ps.len() - 1]);
        instances_are_matched(ps.last(), xs.last(), c1, d);
    }
}

/// The order in which the matches of a search are taken: the first one, and then
/// from the last one back to the second one.
pub open spec fn taken_order<A>(s: Seq<A>) -> Seq<A> {
    if s.len() == 0 {
        s
    } else {
        seq![s[0]] + s.skip(1).reverse()
    }
}

/// Taking the matches in their order leaves none out and takes none twice.
pub proof fn all_matches_are_taken<A>(s: Seq<A>)
    ensures
        taken_order(s).to_multiset() =~= s.to_multiset(),
        taken_order(s).len() == s.len(),
{
    broadcast use vstd::seq_lib::group_to_multiset_ensures;

    if s.len() > 0 {
        let r = s.skip(1);
        lemma_reversed(r);
        assert(s =~= seq![s[0]] + r);
        vstd::seq_lib::lemma_multiset_commutative(seq![s[0]], r);
        vstd::seq_lib::lemma_multiset_commutative(seq![s[0]], r.reverse());
    }
}

/// A sequence holds what it holds backwards.
proof fn lemma_reversed<A>(s: Seq<A>)
    ensures
        s.reverse().to_multiset() =~= s.to_multiset(),
    decreases s.len(),
{
    broadcast use vstd::seq_lib::group_to_multiset_ensures;

    if s.len() > 0 {
        let f = s.drop_last();
        lemma_reversed(f);
        assert(s =~= f.push(s.last()));
        assert(s.reverse() =~= seq![s.last()] + f.reverse());
        vstd::seq_lib::lemma_multiset_commutative(seq![s.last()], f.reverse());
        assert(seq![s.last()] =~= Seq::<A>::empty().push(s.last()));
    } else {
        assert(s.reverse() =~= s);
    }
}

/// The order after the first match was taken.
proof fn lemma_order_after<A>(s: Seq<A>)
    requires
        s.len() > 0,
    ensures
        taken_order(s) == seq![s[0]] + taken_order(s.update(0, s.last()).drop_last()),
{
    let r = s.update(0, s.last()).drop_last();
    if s.len() == 1 {
        assert(s.skip(1).reverse() =~= Seq::<A>::empty());
        assert(r =~= Seq::<A>::empty());
        assert(taken_order(s) =~= seq![s[0]] + taken_order(r));
    } else {
        assert(r.skip(1) =~= s.skip(1).drop_last());
        assert(s.skip(1).reverse() =~= seq![s.last()] + s.skip(1).drop_last().reverse());
        assert(taken_order(s) =~= seq![s[0]] + taken_order(r));
    }
}

/// The values of lists of values one after the other.
pub open spec fn all_values(s: Seq<Seq<AtomV>>) -> Seq<AtomV>
    decreases s.len(),
{
    if s.len() == 0 {
        Seq::empty()
    } else {
        s[0] + all_values(s.skip(1))
    }
}

/// Whether code that runs for starts has a list of values for each of them.
pub open spec fn starts_leave(
    code: Seq<OpcodeV>,
    left: Seq<(ResultV, EnvV)>,
    t: TableV,
    vss: Seq<Seq<AtomV>>,
) -> bool {
    &&& left.len() == vss.len()
    &&& forall|k: int|
        0 <= k < left.len() ==> code_leaves(
            code,
            raw_atoms((#[trigger] left[k]).0),
            t,
            vss[k],
        )
}

/// The rest of a search.
proof fn lemma_search_goes_on(
    s: VmV,
    t: TableV,
    p: PatternBodyV,
    names: Seq<Seq<char>>,
    left: Seq<(ResultV, EnvV)>,
    vss: Seq<Seq<AtomV>>,
    out: ResultV,
)
    requires
        s.ip < s.code.len(),
        s.code[s.ip as int] == OpcodeV::Match(p, names),
        s.budget is None,
        !s.cut,
        s.known == Seq::<KnownV>::empty(),
        s.wait == WaitV::Match(left, Seq::empty(), None, out),
        starts_leave(p.body.code, left, t, vss),
    ensures
        exists|s2: VmV| #[trigger]
            gets(s, t, s2, t) && s2.stack.len() > 0 && s2 == (VmV {
                ip: s.ip + 1,
                stack: s.stack.push(s2.stack.last()),
                wait: WaitV::Ready,
                env: s2.env,
                ..s
            }) && raw_atoms(s2.stack.last()) == raw_atoms(out) + all_values(taken_order(vss)),
    decreases left.len(),
{
    lemma_at_turn(s, t);
    if left.len() == 0 {
        let s2 = pushed(s, out);
        lemma_gets_step(s, t, s2, t);
        assert(vss =~= Seq::<Seq<AtomV>>::empty());
        assert(raw_atoms(out) + all_values(taken_order(vss)) =~= raw_atoms(out));
    } else {
        let rest = after_first(left);
        let more = vss.update(0, vss.last()).drop_last();
        let sub = vm_start(p.body, left[0].0, Seq::empty(), None, left[0].1);
        let s1 = waiting(s, WaitV::Match(rest, Seq::empty(), None, out));
        assert(makes(s, t) == (VmOutV::Sub(sub, None), s1, t));
        lemma_started(sub, p.body.code, raw_atoms(left[0].0), t, vss[0]);
        let rs = choose|rs: ResultV| #[trigger] ends_with(sub, t, rs) && raw_atoms(rs) == vss[0];
        let s2 = waiting(
            back(s1, None),
            WaitV::Match(rest, Seq::empty(), None, out + rs),
        );
        assert(takes(s1, t, rs, None) == (VmOutV::Next, s2, t)) by {
            reveal(takes);
        }
        lemma_gets_sub(s, t, sub, None, s1, t, rs, None, t, s2, t);
        assert(starts_leave(p.body.code, rest, t, more)) by {
            assert forall|k: int| 0 <= k < rest.len() implies code_leaves(
                p.body.code,
                raw_atoms((#[trigger] rest[k]).0),
                t,
                more[k],
            ) by {
                if k == 0 {
                    assert(rest[0] == left[left.len() - 1]);
                } else {
                    assert(rest[k] == left[k]);
                }
            }
        }
        lemma_search_goes_on(s2, t, p, names, rest, more, out + rs);
        let s3 = choose|s3: VmV| #[trigger]
            gets(s2, t, s3, t) && s3.stack.len() > 0 && s3 == (VmV {
                ip: s2.ip + 1,
                stack: s2.stack.push(s3.stack.last()),
                wait: WaitV::Ready,
                env: s3.env,
                ..s2
            }) && raw_atoms(s3.stack.last()) == raw_atoms(out + rs) + all_values(
                taken_order(more),
            );
        lemma_gets_join(s, t, s2, t, s3, t);
        lemma_order_after(vss);
        let order = taken_order(vss);
        assert(order.skip(1) =~= taken_order(more));
        assert(order[0] == vss[0]);
        assert(raw_atoms(out + rs) =~= raw_atoms(out) + vss[0]);
        assert(raw_atoms(s3.stack.last()) =~= raw_atoms(out) + all_values(order));
        assert(s3 == VmV {
            ip: s.ip + 1,
            stack: s.stack.push(s3.stack.last()),
            wait: WaitV::Ready,
            env: s3.env,
            ..s
        });
    }
}

/// The values of a pattern's variables in a match.
pub open spec fn match_values(p: ExprV, b: Seq<Binding>) -> Seq<AtomV> {
    Seq::new(vars_of(p).len(), |i: int| first_bound(b, vars_of(p)[i])->Some_0)
}

/// Whether an expression compiles where local variables have given names, without
/// other variables.
pub open spec fn compiles(e: ExprV, names: Seq<Seq<char>>) -> bool {
    forall|c: ScopeV, tail: bool|
        #![trigger compiled(e, c, tail)]
        is_scope(c, e, names, tail) ==> {
            &&& compiled(e, c, tail) is Ok
            &&& compiled(e, c, tail)->Ok_0.1 == Seq::<Seq<char>>::empty()
        }
}

/// `(match space pattern body)` runs the body once for each atom of the space
/// that matches the pattern, with the pattern's variables bound to what they
/// stand for in that atom, and has the values of all these runs: those of the
/// first match, and then of the others from the last one back.
pub proof fn searches_have_the_values_of_all_matches(
    sp: ExprV,
    p: ExprV,
    body: ExprV,
    t: TableV,
    space: Seq<char>,
    vss: Seq<Seq<AtomV>>,
)
    requires
        means(sp, t, seq![AtomV::Sym(space)]),
        vss.len() == found_in(p, t.space(space)).len(),
        forall|k: int|
            0 <= k < vss.len() ==> gives(
                body,
                vars_of(p),
                match_values(p, found_in(p, t.space(space))[k].1),
                t,
                #[trigger] vss[k],
            ),
        compiles(body, vars_of(p)),
    ensures
        means(
            ExprV::List(seq![ExprV::Symbol("match"@), sp, p, body]),
            t,
            all_values(taken_order(vss)),
        ),
{
    let parts = seq![ExprV::Symbol("match"@), sp, p, body];
    let e = ExprV::List(parts);
    lemma_match_form(sp, p, body);
    let none: Seq<Seq<char>> = Seq::empty();
    let vals: Seq<AtomV> = Seq::empty();
    let found = found_in(p, t.space(space));
    let want = all_values(taken_order(vss));
    assert forall|c: ScopeV, tail: bool|
        #![trigger compiled(e, c, tail)]
        is_scope(c, e, none, tail) implies {
        &&& compiled(e, c, tail) is Ok
        &&& compiled(e, c, tail)->Ok_0.1 == Seq::<Seq<char>>::empty()
        &&& code_leaves(compiled(e, c, tail)->Ok_0.0, vals, t, want)
    } by {
        assert(is_scope(c, sp, none, false));
        let a = compiled(sp, c, false)->Ok_0;
        let inner = c.knowing(a.1).inside(vars_of(p)).nameless();
        assert(inner.locals =~= vars_of(p));
        assert(is_scope(inner, body, vars_of(p), true));
        let b = compiled(body, inner, true)->Ok_0;
        assert forall|k: int| 0 <= k < vss.len() implies code_leaves(
            b.0,
            match_values(p, found[k].1),
            t,
            #[trigger] vss[k],
        ) by {
            assert(gives(body, vars_of(p), match_values(p, found[k].1), t, vss[k]));
        }
        lemma_search_code(sp, p, body, t, space, vss, c, a.0, b);
    }
}

/// The code of a search leaves the values of all matches.
proof fn lemma_search_code(
    sp: ExprV,
    p: ExprV,
    body: ExprV,
    t: TableV,
    space: Seq<char>,
    vss: Seq<Seq<AtomV>>,
    c: ScopeV,
    code: Seq<OpcodeV>,
    block: (Seq<OpcodeV>, Seq<Seq<char>>),
)
    requires
        code_leaves(code, Seq::empty(), t, seq![AtomV::Sym(space)]),
        c.locals == Seq::<Seq<char>>::empty(),
        block.1 == Seq::<Seq<char>>::empty(),
        vss.len() == found_in(p, t.space(space)).len(),
        forall|k: int|
            0 <= k < vss.len() ==> code_leaves(
                block.0,
                match_values(p, found_in(p, t.space(space))[k].1),
                t,
                #[trigger] vss[k],
            ),
    ensures
        code_leaves(
            code.push(OpcodeV::Match(with_body(p, block), c.locals)),
            Seq::empty(),
            t,
            all_values(taken_order(vss)),
        ),
{
    let pb = with_body(p, block);
    let names = c.locals;
    let op = OpcodeV::Match(pb, names);
    let all = code.push(op);
    let vals: Seq<AtomV> = Seq::empty();
    let found = found_in(p, t.space(space));
    let want = all_values(taken_order(vss));
    assert(all =~= code + seq![op]);
    assert forall|s: VmV| #[trigger] is_at(s, all, vals) implies leaves(s, t, all.len(), want) by {
        lemma_at_split(s, code, seq![op], vals);
        assert(leaves(s, t, code.len(), seq![AtomV::Sym(space)]));
        let s1 = choose|s1: VmV| #[trigger]
            gets(s, t, s1, t) && is_past(s, code.len(), seq![AtomV::Sym(space)], s1);
        lemma_behind(s, code, seq![op], vals, s1);
        lemma_at_op(s1, t, op, vals);
        let rs = s1.stack.last();
        assert(raw_atoms(rs) == seq![AtomV::Sym(space)]);
        assert(raw_atoms(rs).len() == 1);
        assert(raw_atoms(rs)[0] == rs[0].0);
        assert(top(s1, 0) == rs);
        let env = search_env(names, s1.locals);
        assert(env == EnvV::Empty);
        lemma_followed_nothing(p);
        assert(matches_in(t, rs[0].0, p, env) == Ok::<Seq<FoundV>, Seq<char>>(found));
        let left = starts_for(found, pb.pattern_vars, names, s1.locals, env);
        assert(raw_atoms(s1.locals).len() == 0);
        assert forall|k: int| 0 <= k < left.len() implies code_leaves(
            pb.body.code,
            raw_atoms((#[trigger] left[k]).0),
            t,
            vss[k],
        ) by {
            searches_find_all_that_match(p, t.space(space));
            matches_fill_the_pattern(p, found[k].0, Seq::empty());
            lemma_vars_stand(p);
            let b = found[k].1;
            assert forall|i: int| 0 <= i < vars_of(p).len() implies #[trigger] raw_atoms(
                left[k].0,
            )[i] == match_values(p, b)[i] by {
                assert(vars_of(p).contains(vars_of(p)[i]));
            }
            assert(raw_atoms(left[k].0) =~= match_values(p, b));
        }
        let none: ResultV = Seq::empty();
        let q = popped(s1, 1);
        assert(q.stack =~= s.stack);
        let s2 = waiting(q, WaitV::Match(left, Seq::empty(), None, none));
        if found.len() == 0 {
            assert(left =~= Seq::<(ResultV, EnvV)>::empty());
        }
        assert(inherited(pb.body.free_vars, s1.free_vars, s1.bindings, t.fresh).0 =~= Seq::<
            AtomV,
        >::empty());
        assert(at_fresh(t, t.fresh) == t);
        assert(makes(s1, t) == (VmOutV::Next, s2, t));
        lemma_gets_step(s1, t, s2, t);
        lemma_gets_join(s, t, s1, t, s2, t);
        lemma_search_goes_on(s2, t, pb, names, left, vss, none);
        let s3 = choose|s3: VmV| #[trigger]
            gets(s2, t, s3, t) && s3.stack.len() > 0 && s3 == (VmV {
                ip: s2.ip + 1,
                stack: s2.stack.push(s3.stack.last()),
                wait: WaitV::Ready,
                env: s3.env,
                ..s2
            }) && raw_atoms(s3.stack.last()) == raw_atoms(none) + all_values(taken_order(vss));
        lemma_gets_join(s, t, s2, t, s3, t);
        assert(raw_atoms(none) + want =~= want);
        assert(is_past(s, all.len(), want, s3));
    }
}

/// Without bindings no variable is followed.
pub proof fn lemma_followed_nothing(e: ExprV)
    ensures
        expr_followed(e, EnvV::Empty) == e,
    decreases e,
{
    assert(bindings(EnvV::Empty) =~= Seq::<Binding>::empty());
    match e {
        ExprV::Symbol(s) => {
            assert(env_get(EnvV::Empty, s) is None);
        },
        ExprV::List(items) => {
            assert forall|i: int| 0 <= i < items.len() implies #[trigger] exprs_followed(
                items,
                EnvV::Empty,
            )[i] == items[i] by {
                lemma_followed_nothing(items[i]);
            }
            assert(exprs_followed(items, EnvV::Empty) =~= items);
        },
        _ => {},
    }
}

/// The variables of a pattern stand in it.
pub proof fn lemma_vars_stand(p: ExprV)
    ensures
        forall|n: Seq<char>| #[trigger]
            vars_of(p).contains(n) ==> is_var_name(n) && stands_in(p, n),
{
    assert forall|n: Seq<char>| #[trigger] vars_of(p).contains(n) implies is_var_name(n)
        && stands_in(p, n) by {
        lemma_noted_stand(p, Seq::empty(), n);
        assert(!Seq::<Seq<char>>::empty().contains(n));
    }
}

/// A variable that is noted in a pattern stands in it.
proof fn lemma_noted_stand(p: ExprV, seen: Seq<Seq<char>>, n: Seq<char>)
    requires
        noted(p, seen).contains(n),
    ensures
        seen.contains(n) || (is_var_name(n) && stands_in(p, n)),
    decreases p, 1int,
{
    match p {
        ExprV::Symbol(s) => {
            let after = noted(p, seen);
            let i = choose|i: int| 0 <= i < after.len() && after[i] == n;
            if i < seen.len() {
                assert(seen[i] == n);
            }
        },
        ExprV::List(items) => {
            lemma_all_noted_stand(items, seen, n);
        },
        _ => {},
    }
}

/// A variable that is noted in patterns stands in one of them.
pub proof fn lemma_all_noted_stand(ps: Seq<ExprV>, seen: Seq<Seq<char>>, n: Seq<char>)
    requires
        all_noted(ps, seen).contains(n),
    ensures
        seen.contains(n) || (is_var_name(n) && stands_in_one(ps, n)),
    decreases ps, 0int,
{
    if ps.len() > 0 {
        let f = ps.drop_last();
        lemma_noted_stand(ps.last(), all_noted(f, seen), n);
        if all_noted(f, seen).contains(n) {
            lemma_all_noted_stand(f, seen, n);
            if !seen.contains(n) {
                let i = choose|i: int| 0 <= i < f.len() && stands_in(#[trigger] f[i], n);
                assert(stands_in(ps[i], n));
            }
        } else {
            assert(stands_in(ps[ps.len() - 1], n));
        }
    }
}

/// A list that starts with `match` and three more is a search.
pub proof fn lemma_match_form(x: ExprV, y: ExprV, z: ExprV)
    ensures
        form_of(seq![ExprV::Symbol("match"@), x, y, z]) is Match,
{
    reveal_strlit("match");
    reveal_strlit("if");
    assert("match"@.len() == 5 && "if"@.len() == 2);
}

} // verus!
