//! The values of calls of defined functions.
use crate::atom::AtomV;
use crate::atom::symbol;
use crate::builtins::AnswerV;
use crate::builtins::called;
use crate::env::EnvV;
use crate::env::env_get;
use crate::eval::forms::query::env_cost;
use crate::eval::machine::budget::ResultV;
use crate::eval::machine::budget::capped;
use crate::eval::machine::budget::combos;
use crate::eval::machine::budget::raw_atoms;
use crate::eval::machine::vm::bodies::waiting;
use crate::eval::machine::vm::call::DispatchV;
use crate::eval::machine::vm::call::clause_call;
use crate::eval::machine::vm::call::clause_calls;
use crate::eval::machine::vm::call::clause_code;
use crate::eval::machine::vm::call::clause_codes;
use crate::eval::machine::vm::call::dispatched;
use crate::eval::machine::vm::call::has_effect;
use crate::eval::machine::vm::calling::call_name;
use crate::eval::machine::vm::compiler::ScopeV;
use crate::eval::machine::vm::compiler::VMCompiler;
use crate::eval::machine::vm::compiler::all_compiled;
use crate::eval::machine::vm::compiler::all_noted;
use crate::eval::machine::vm::compiler::compiled;
use crate::eval::machine::vm::compiler::form_of;
use crate::eval::machine::vm::iterate::all_pure;
use crate::eval::machine::vm::iterate::call_turn;
use crate::eval::machine::vm::iterate::drain_turn;
use crate::eval::machine::vm::iterate::returned;
use crate::eval::machine::vm::iterate::with_frame;
use crate::eval::machine::vm::op::BlockV;
use crate::eval::machine::vm::op::OpcodeV;
use crate::eval::machine::vm::outcome::VmOutV;
use crate::eval::machine::vm::plain::popped;
use crate::eval::machine::vm::state::CallsV;
use crate::eval::machine::vm::state::KindV;
use crate::eval::machine::vm::state::PendingV;
use crate::eval::machine::vm::state::VmV;
use crate::eval::machine::vm::state::WaitV;
use crate::eval::machine::vm::state::at_fresh;
use crate::eval::machine::vm::state::inherited;
use crate::eval::machine::vm::state::vm_start;
use crate::eval::shared::env::linked;
use crate::eval::shared::env::prepend_then_lookup;
use crate::eval::shared::pattern::KnownV;
use crate::eval::shared::pattern::MatchV;
use crate::eval::shared::pattern::all_ground;
use crate::eval::shared::pattern::all_plain;
use crate::eval::shared::pattern::is_ground;
use crate::eval::shared::pattern::is_plain;
use crate::eval::shared::pattern::match_all;
use crate::eval::shared::pattern::match_one;
use crate::eval::shared::pattern::matching_is_substitution;
use crate::eval::shared::pattern::stands_in;
use crate::eval::shared::pattern::stands_in_one;
use crate::expr::ExprV;
use crate::func::ClauseV;
use crate::func::TableV;
use crate::laws::alternatives::lemma_all_values_last;
use crate::laws::applying::answers;
use crate::laws::applying::applications_apply_heads_to_arguments;
use crate::laws::applying::are_single;
use crate::laws::applying::each_gives;
use crate::laws::applying::is_stacked;
use crate::laws::applying::lemma_arguments;
use crate::laws::applying::lemma_at_calls;
use crate::laws::applying::lemma_at_split;
use crate::laws::applying::lemma_behind;
use crate::laws::applying::lemma_one_combination;
use crate::laws::branching::is_back;
use crate::laws::branching::is_returned;
use crate::laws::branching::lemma_at_frame;
use crate::laws::branching::lemma_frame_body;
use crate::laws::meaning::code_leaves;
use crate::laws::meaning::ends_with;
use crate::laws::meaning::gives;
use crate::laws::meaning::is_at;
use crate::laws::meaning::is_past;
use crate::laws::meaning::is_scope;
use crate::laws::meaning::leaves;
use crate::laws::meaning::lemma_at_op;
use crate::laws::meaning::lemma_started;
use crate::laws::meaning::literals_mean_themselves;
use crate::laws::running::gets;
use crate::laws::running::lemma_gets_join;
use crate::laws::running::lemma_gets_step;
use crate::laws::running::lemma_gets_sub;
use crate::laws::running::makes;
use crate::laws::running::takes;
use crate::laws::searching::all_values;
use crate::laws::searching::compiles;
use crate::laws::searching::lemma_all_noted_stand;
use crate::text::is_var_name;
use vstd::prelude::*;

verus! {

/// The match of a clause's patterns with arguments.
pub open spec fn arguments_match(c: ClauseV, xs: Seq<AtomV>) -> MatchV {
    if c.patterns.len() != xs.len() {
        MatchV::No
    } else {
        match_all(c.patterns, xs, EnvV::Empty, Seq::empty())
    }
}

/// The values of the variables of patterns in an environment.
pub open spec fn parameter_values(ps: Seq<ExprV>, m: EnvV) -> Seq<AtomV> {
    let names = all_noted(ps, Seq::empty());
    Seq::new(names.len(), |i: int| env_get(m, names[i])->Some_0)
}

/// Whether a clause has values for arguments: those of its body, with the
/// variables of its patterns bound to what they stand for, where its patterns
/// match, and none otherwise.
pub open spec fn clause_gives(c: ClauseV, xs: Seq<AtomV>, t: TableV, vs: Seq<AtomV>) -> bool {
    match arguments_match(c, xs) {
        MatchV::Yes(m) => gives(
            c.body,
            all_noted(c.patterns, Seq::empty()),
            parameter_values(c.patterns, m),
            t,
            vs,
        ),
        _ => vs == Seq::<AtomV>::empty(),
    }
}

/// Whether a clause of a function is one whose calls can be followed: its
/// patterns are plain, and its body compiles without other variables, without
/// side effects of its own, and without naming the function.
pub open spec fn is_simple_clause(c: ClauseV, name: Seq<char>) -> bool {
    &&& all_plain(c.patterns)
    &&& compiles(c.body, all_noted(c.patterns, Seq::empty()))
    &&& !stands_in(c.body, name)
    &&& clause_code(c, name) matches Ok(b) ==> !has_effect(b.code)
}

/// The values of the clauses that match.
pub open spec fn kept(cs: Seq<ClauseV>, xs: Seq<AtomV>, vss: Seq<Seq<AtomV>>) -> Seq<Seq<AtomV>>
    decreases cs.len(),
{
    if cs.len() == 0 {
        Seq::empty()
    } else {
        let before = kept(cs.drop_last(), xs, vss.drop_last());
        if arguments_match(cs.last(), xs) is Yes {
            before.push(vss.last())
        } else {
            before
        }
    }
}

/// Whether calls have their values.
pub open spec fn calls_leave(p: Seq<PendingV>, t: TableV, wss: Seq<Seq<AtomV>>) -> bool {
    &&& p.len() == wss.len()
    &&& forall|j: int|
        0 <= j < p.len() ==> {
            let q = #[trigger] p[j];
            &&& code_leaves(q.block.code, raw_atoms(q.locals), t, wss[j])
            &&& q.block.free_vars == Seq::<Seq<char>>::empty()
            &&& q.pure_body
        }
}

/// A match binds the variables of all patterns.
proof fn lemma_all_bound(ps: Seq<ExprV>, xs: Seq<AtomV>, env: EnvV, n: Seq<char>)
    requires
        ps.len() == xs.len(),
        all_plain(ps),
        all_ground(xs),
        match_all(ps, xs, env, Seq::empty()) is Yes,
    ensures
        ({
            let m = match_all(ps, xs, env, Seq::empty())->Yes_0;
            &&& is_var_name(n) && stands_in_one(ps, n) ==> env_get(m, n) is Some
            &&& env_get(env, n) is Some ==> env_get(m, n) == env_get(env, n)
        }),
    decreases ps.len(),
{
    if ps.len() > 0 {
        let f = ps.drop_last();
        let xf = xs.drop_last();
        assert forall|i: int| 0 <= i < f.len() implies is_plain(#[trigger] f[i]) by {
            assert(f[i] == ps[i]);
        }
        assert forall|i: int| 0 <= i < xf.len() implies is_ground(#[trigger] xf[i]) by {
            assert(xf[i] == xs[i]);
        }
        lemma_all_bound(f, xf, env, n);
        let e = match_all(f, xf, env, Seq::empty())->Yes_0;
        assert(is_plain(ps[ps.len() - 1]) && is_ground(xs[xs.len() - 1]));
        matching_is_substitution(ps.last(), xs.last(), e, Seq::empty());
        let m = match_one(ps.last(), xs.last(), e, Seq::empty())->Yes_0;
        if is_var_name(n) && stands_in_one(ps, n) {
            let i = choose|i: int| 0 <= i < ps.len() && stands_in(#[trigger] ps[i], n);
            if i < f.len() {
                assert(stands_in(f[i], n));
                assert(env_get(e, n) is Some);
            }
        }
    }
}

/// The patterns of simple clauses never have to ask.
pub proof fn lemma_no_question(ps: Seq<ExprV>, xs: Seq<AtomV>, env: EnvV)
    requires
        ps.len() == xs.len(),
        all_plain(ps),
        all_ground(xs),
    ensures
        !(match_all(ps, xs, env, Seq::empty()) is Ask),
    decreases ps.len(),
{
    if ps.len() > 0 {
        let f = ps.drop_last();
        let xf = xs.drop_last();
        assert forall|i: int| 0 <= i < f.len() implies is_plain(#[trigger] f[i]) by {
            assert(f[i] == ps[i]);
        }
        assert forall|i: int| 0 <= i < xf.len() implies is_ground(#[trigger] xf[i]) by {
            assert(xf[i] == xs[i]);
        }
        lemma_no_question(f, xf, env);
        assert(is_plain(ps[ps.len() - 1]) && is_ground(xs[xs.len() - 1]));
        if let MatchV::Yes(e) = match_all(f, xf, env, Seq::empty()) {
            matching_is_substitution(ps.last(), xs.last(), e, Seq::empty());
        }
    }
}

/// The compiled bodies of simple clauses.
proof fn lemma_simple_codes(cs: Seq<ClauseV>, name: Seq<char>)
    requires
        forall|i: int| 0 <= i < cs.len() ==> is_simple_clause(#[trigger] cs[i], name),
    ensures
        clause_codes(cs, name) is Ok,
        clause_codes(cs, name)->Ok_0.len() == cs.len(),
        forall|i: int|
            0 <= i < cs.len() ==> {
                let b = #[trigger] clause_codes(cs, name)->Ok_0[i];
                &&& clause_code(cs[i], name) == Ok::<BlockV, Seq<char>>(b)
                &&& b.free_vars == Seq::<Seq<char>>::empty()
                &&& !has_effect(b.code)
            },
    decreases cs.len(),
{
    if cs.len() > 0 {
        let f = cs.drop_last();
        assert forall|i: int| 0 <= i < f.len() implies is_simple_clause(#[trigger] f[i], name) by {
            assert(f[i] == cs[i]);
        }
        lemma_simple_codes(f, name);
        let c = cs.last();
        assert(is_simple_clause(cs[cs.len() - 1], name));
        let sc = VMCompiler::initial(c.patterns, Some(name));
        assert(is_scope(sc, c.body, all_noted(c.patterns, Seq::empty()), true));
        assert(compiled(c.body, sc, true) is Ok);
        let before = clause_codes(f, name)->Ok_0;
        let all = clause_codes(cs, name)->Ok_0;
        assert forall|i: int| 0 <= i < cs.len() implies ({
            let b = #[trigger] all[i];
            &&& clause_code(cs[i], name) == Ok::<BlockV, Seq<char>>(b)
            &&& b.free_vars == Seq::<Seq<char>>::empty()
            &&& !has_effect(b.code)
        }) by {
            if i < f.len() {
                assert(all[i] == before[i]);
                assert(f[i] == cs[i]);
            }
        }
    }
}

/// The calls of the clauses that match.
proof fn lemma_simple_calls(
    cs: Seq<ClauseV>,
    bs: Seq<BlockV>,
    name: Seq<char>,
    xs: Seq<AtomV>,
    env: EnvV,
    t: TableV,
    vss: Seq<Seq<AtomV>>,
)
    requires
        cs.len() == vss.len(),
        cs.len() <= bs.len(),
        all_ground(xs),
        forall|i: int| 0 <= i < cs.len() ==> is_simple_clause(#[trigger] cs[i], name),
        forall|i: int| 0 <= i < cs.len() ==> clause_gives(#[trigger] cs[i], xs, t, vss[i]),
        forall|i: int|
            0 <= i < cs.len() ==> {
                let b = #[trigger] bs[i];
                &&& clause_code(cs[i], name) == Ok::<BlockV, Seq<char>>(b)
                &&& b.free_vars == Seq::<Seq<char>>::empty()
                &&& !has_effect(b.code)
            },
    ensures
        clause_calls(cs, bs, xs, env, Seq::empty()) is Ok,
        calls_leave(clause_calls(cs, bs, xs, env, Seq::empty())->Ok_0, t, kept(cs, xs, vss)),
        all_values(kept(cs, xs, vss)) == all_values(vss),
    decreases cs.len(),
{
    if cs.len() > 0 {
        let f = cs.drop_last();
        let vf = vss.drop_last();
        assert forall|i: int| 0 <= i < f.len() implies is_simple_clause(#[trigger] f[i], name)
            && clause_gives(f[i], xs, t, vf[i]) by {
            assert(f[i] == cs[i]);
        }
        assert forall|i: int| 0 <= i < f.len() implies ({
            let b = #[trigger] bs[i];
            &&& clause_code(f[i], name) == Ok::<BlockV, Seq<char>>(b)
            &&& b.free_vars == Seq::<Seq<char>>::empty()
            &&& !has_effect(b.code)
        }) by {
            assert(f[i] == cs[i]);
        }
        lemma_simple_calls(f, bs, name, xs, env, t, vf);
        lemma_all_values_last(vss);
        let n = cs.len() - 1;
        let c = cs[n];
        let b = bs[n];
        let before = clause_calls(f, bs, xs, env, Seq::empty())->Ok_0;
        let wf = kept(f, xs, vf);
        assert(c == cs.last());
        if c.patterns.len() == xs.len() {
            lemma_no_question(c.patterns, xs, EnvV::Empty);
        }
        match arguments_match(c, xs) {
            MatchV::Yes(m) => {
                let e = linked(m, env);
                let cost = capped(env_cost(m) as int);
                let q = clause_call(c, b, e, cost);
                let noted = all_noted(c.patterns, Seq::empty());
                let sc = VMCompiler::initial(c.patterns, Some(name));
                assert(is_scope(sc, c.body, noted, true));
                assert(compiled(c.body, sc, true)->Ok_0.0 == b.code);
                assert(gives(c.body, noted, parameter_values(c.patterns, m), t, vss[n]));
                assert forall|i: int| 0 <= i < noted.len() implies #[trigger] raw_atoms(
                    q.locals,
                )[i] == parameter_values(c.patterns, m)[i] by {
                    let x = noted[i];
                    assert(noted.contains(x));
                    lemma_all_noted_stand(c.patterns, Seq::empty(), x);
                    assert(!Seq::<Seq<char>>::empty().contains(x));
                    lemma_all_bound(c.patterns, xs, EnvV::Empty, x);
                    prepend_then_lookup(m, env, x);
                }
                assert(raw_atoms(q.locals) =~= parameter_values(c.patterns, m));
                let all = before.push(q);
                let wss = wf.push(vss.last());
                assert(calls_leave(all, t, wss)) by {
                    assert forall|j: int| 0 <= j < all.len() implies ({
                        let r = #[trigger] all[j];
                        &&& code_leaves(r.block.code, raw_atoms(r.locals), t, wss[j])
                        &&& r.block.free_vars == Seq::<Seq<char>>::empty()
                        &&& r.pure_body
                    }) by {
                        if j < before.len() {
                            assert(all[j] == before[j]);
                        }
                    }
                }
                lemma_all_values_last(wss);
                assert(wss.drop_last() =~= wf);
            },
            _ => {
                assert(clause_gives(cs[n], xs, t, vss[n]));
                assert(all_values(vss) =~= all_values(vf));
            },
        }
    } else {
        assert(vss =~= Seq::<Seq<AtomV>>::empty());
        assert(kept(cs, xs, vss) =~= vss);
    }
}

/// The rest of calls that run side by side.
proof fn lemma_drain_goes_on(
    s: VmV,
    t: TableV,
    p: Seq<PendingV>,
    wss: Seq<Seq<AtomV>>,
    k: nat,
    out: ResultV,
)
    requires
        s.wait == WaitV::Drain(k, out),
        s.known == Seq::<KnownV>::empty(),
        s.budget is None,
        !s.cut,
        s.frames.len() > 0,
        s.frames.last().kind is Call,
        s.frames.last().kind->Call_2 == p,
        s.frames.last().kind->Call_3 is None,
        k <= p.len(),
        calls_leave(p, t, wss),
    ensures
        exists|s2: VmV| #[trigger]
            gets(s, t, s2, t) && is_returned(
                s,
                raw_atoms(out) + all_values(wss.skip(k as int)),
                s2,
            ),
    decreases p.len() - k,
{
    let want = raw_atoms(out) + all_values(wss.skip(k as int));
    assert(makes(s, t) == drain_turn(s, t, k, out, p, None)) by {
        reveal(makes);
    }
    if k == p.len() {
        let s2 = returned(s, out);
        lemma_gets_step(s, t, s2, t);
        assert(wss.skip(k as int) =~= Seq::<Seq<AtomV>>::empty());
        assert(want =~= raw_atoms(out));
        assert(is_returned(s, want, s2));
    } else {
        let q = p[k as int];
        let sub = vm_start(q.block, q.locals, Seq::empty(), None, q.env);
        let s1 = VmV { wait: WaitV::Drain(k + 1, out), ..s };
        assert(inherited(q.block.free_vars, s.free_vars, s.bindings, t.fresh).0 =~= Seq::<
            AtomV,
        >::empty());
        assert(at_fresh(t, t.fresh) == t);
        assert(makes(s, t) == (VmOutV::Sub(sub, None), s1, t));
        lemma_started(sub, q.block.code, raw_atoms(q.locals), t, wss[k as int]);
        let rs = choose|rs: ResultV| #[trigger]
            ends_with(sub, t, rs) && raw_atoms(rs) == wss[k as int];
        let s2 = waiting(s1, WaitV::Drain(k + 1, out + rs));
        assert(takes(s1, t, rs, None) == (VmOutV::Next, s2, t)) by {
            reveal(takes);
        }
        lemma_gets_sub(s, t, sub, None, s1, t, rs, None, t, s2, t);
        lemma_drain_goes_on(s2, t, p, wss, k + 1, out + rs);
        let more = raw_atoms(out + rs) + all_values(wss.skip(k as int + 1));
        let s3 = choose|s3: VmV| #[trigger] gets(s2, t, s3, t) && is_returned(s2, more, s3);
        lemma_gets_join(s, t, s2, t, s3, t);
        let rest = wss.skip(k as int);
        assert(rest[0] == wss[k as int]);
        assert(rest.skip(1) =~= wss.skip(k as int + 1));
        assert(more =~= want);
        assert(is_returned(s, want, s3));
    }
}

/// The calls of a frame, one alone or all side by side.
proof fn lemma_calls_run(
    s: VmV,
    t: TableV,
    p: Seq<PendingV>,
    wss: Seq<Seq<AtomV>>,
)
    requires
        s.wait is Iterate,
        s.known == Seq::<KnownV>::empty(),
        s.budget is None,
        !s.cut,
        s.frames.len() > 0,
        s.frames.last().kind is Call,
        s.frames.last().kind->Call_2 == p,
        s.frames.last().kind->Call_3 is None,
        s.frames.last().next == 0,
        s.frames.last().locals_to_pop == 0,
        s.frames.last().out == ResultV::empty(),
        p.len() > 0,
        calls_leave(p, t, wss),
    ensures
        exists|s2: VmV| #[trigger] gets(s, t, s2, t) && is_returned(s, all_values(wss), s2),
{
    lemma_at_frame(s, t);
    let f = s.frames.last();
    let want = all_values(wss);
    assert(p.skip(0) =~= p);
    if p.len() > 1 {
        assert(all_pure(p));
        let none: ResultV = Seq::empty();
        let s1 = VmV { wait: WaitV::Drain(0, none), ..s };
        assert(makes(s, t) == (VmOutV::Next, s1, t));
        lemma_gets_step(s, t, s1, t);
        lemma_drain_goes_on(s1, t, p, wss, 0, none);
        assert(wss.skip(0) =~= wss);
        assert(raw_atoms(none) + all_values(wss) =~= want);
        let s2 = choose|s2: VmV| #[trigger] gets(s1, t, s2, t) && is_returned(s1, want, s2);
        lemma_gets_join(s, t, s1, t, s2, t);
        assert(is_returned(s, want, s2));
    } else {
        let q = p[0];
        let step = call_turn(s, t, p, None);
        let s1 = step.1;
        assert(inherited(q.block.free_vars, s.free_vars, s.bindings, t.fresh).0 =~= Seq::<
            AtomV,
        >::empty());
        assert(at_fresh(t, t.fresh) == t);
        assert(step.0 is Next && step.2 == t);
        lemma_gets_step(s, t, s1, t);
        lemma_frame_body(s1, t, q.block.code, raw_atoms(q.locals), wss[0]);
        let s2 = choose|s2: VmV| #[trigger] gets(s1, t, s2, t) && is_back(s1, wss[0], s2);
        lemma_gets_join(s, t, s1, t, s2, t);
        lemma_at_frame(s2, t);
        let g = s2.frames.last();
        let s3 = returned(s2, g.out);
        assert(g.kind == f.kind && g.next == 1);
        assert(makes(s2, t) == (VmOutV::Next, s3, t));
        lemma_gets_step(s2, t, s3, t);
        lemma_gets_join(s, t, s2, t, s3, t);
        assert(wss.skip(1) =~= Seq::<Seq<AtomV>>::empty());
        assert(all_values(wss.skip(1)) =~= Seq::<AtomV>::empty());
        assert(all_values(wss) =~= wss[0]);
        assert(raw_atoms(f.out) + wss[0] =~= want);
        assert(s2.frames.drop_last() =~= s.frames.drop_last());
        assert(is_returned(s, want, s3));
    }
}

/// A call of a defined function has the values of all its clauses that match the
/// arguments, in the order of the clauses: those of the body of each, with the
/// variables of its patterns bound to what they stand for in the arguments.
pub proof fn calls_have_the_values_of_matching_clauses(
    name: Seq<char>,
    es: Seq<ExprV>,
    names: Seq<Seq<char>>,
    vals: Seq<AtomV>,
    t: TableV,
    xs: Seq<AtomV>,
    cs: Seq<ClauseV>,
    vss: Seq<Seq<AtomV>>,
)
    requires
        es.len() < 256,
        form_of(seq![ExprV::Symbol(name)] + es) is Apply,
        !is_var_name(name),
        symbol(name) == AtomV::Sym(name),
        each_gives(es, names, vals, t, xs),
        all_ground(xs),
        !t.natives.contains_key((name, es.len() as u8)),
        !t.pure_fns.contains((name, es.len() as u8)),
        !t.takes_more(name, es.len() as int),
        t.clauses_of(name, es.len() as u8) == Some(cs),
        cs.len() == vss.len(),
        forall|i: int| 0 <= i < cs.len() ==> is_simple_clause(#[trigger] cs[i], name),
        forall|i: int| 0 <= i < cs.len() ==> clause_gives(#[trigger] cs[i], xs, t, vss[i]),
    ensures
        gives(
            ExprV::List(seq![ExprV::Symbol(name)] + es),
            names,
            vals,
            t,
            all_values(vss),
        ),
{
    let items = seq![ExprV::Symbol(name)] + es;
    let e = ExprV::List(items);
    let h = AtomV::Sym(name);
    let want = all_values(vss);
    let wss = kept(cs, xs, vss);
    let n = xs.len() as u8;
    literals_mean_themselves(crate::numeric::NumV::Int(0), name, names, vals, t);
    assert(items.skip(1) =~= es);
    assert(items.subrange(1, items.len() as int) =~= es);
    lemma_simple_codes(cs, name);
    let bs = clause_codes(cs, name)->Ok_0;
    let any = EnvV::Empty;
    lemma_simple_calls(cs, bs, name, xs, any, t, vss);
    if wss.len() == 0 {
        assert(answers(h, xs, t, want)) by {
            assert forall|env: EnvV| ({
                let d = #[trigger] dispatched(h, xs, xs.len() as u8, env, t, Seq::empty());
                &&& d.1 == t
                &&& match d.0 {
                    DispatchV::Results(rs) => raw_atoms(rs) == want,
                    DispatchV::Native(b, nm, args) => called(b, nm, args, t) == (
                        AnswerV::Values(want),
                        t,
                    ),
                    _ => false,
                }
            }) by {
                lemma_simple_calls(cs, bs, name, xs, env, t, vss);
                let none: ResultV = Seq::empty();
                assert(raw_atoms(none) =~= Seq::<AtomV>::empty());
                assert(dispatched(h, xs, n, env, t, Seq::empty()).0 == DispatchV::Results(none));
            }
        }
        applications_apply_heads_to_arguments(items, names, vals, t, h, xs, want);
    } else {
        assert forall|c: ScopeV, tail: bool|
            #![trigger compiled(e, c, tail)]
            is_scope(c, e, names, tail) implies {
            &&& compiled(e, c, tail) is Ok
            &&& compiled(e, c, tail)->Ok_0.1 == Seq::<Seq<char>>::empty()
            &&& code_leaves(compiled(e, c, tail)->Ok_0.0, vals, t, want)
        } by {
            lemma_arguments(es, names, vals, t, xs, c);
            let a = all_compiled(es, c)->Ok_0;
            assert(c.knowing(a.1) == c);
            if tail && c.fname is Some && items[0] == ExprV::Symbol(c.fname->Some_0) {
                assert(stands_in(items[0], c.fname->Some_0));
                assert(stands_in_one(items, c.fname->Some_0));
                assert(stands_in(e, c.fname->Some_0));
            }
            assert(is_scope(c, items[0], names, false));
            let b = compiled(items[0], c, false)->Ok_0;
            let op = seq![OpcodeV::Call(n)];
            let code = a.0 + b.0 + op;
            assert(compiled(e, c, tail)->Ok_0.0 == code);
            assert forall|s: VmV| #[trigger] is_at(s, code, vals) implies leaves(
                s,
                t,
                code.len(),
                want,
            ) by {
                assert(code =~= a.0 + (b.0 + op));
                lemma_at_split(s, a.0, b.0 + op, vals);
                let (s1, sets) = choose|s1: VmV, sets: Seq<ResultV>|
                    #![trigger gets(s, t, s1, t), are_single(sets, xs)]
                    gets(s, t, s1, t) && are_single(sets, xs) && is_stacked(
                        s,
                        a.0.len(),
                        sets,
                        s1,
                    );
                lemma_behind(s, a.0, b.0 + op, vals, s1);
                lemma_at_split(s1, b.0, op, vals);
                assert(leaves(s1, t, b.0.len(), seq![h]));
                let s2 = choose|s2: VmV| #[trigger]
                    gets(s1, t, s2, t) && is_past(s1, b.0.len(), seq![h], s2);
                lemma_behind(s1, b.0, op, vals, s2);
                lemma_gets_join(s, t, s1, t, s2, t);
                lemma_user_call(s2, t, vals, name, xs, cs, bs, vss, s.stack, sets);
                let s3 = choose|s3: VmV| #[trigger]
                    gets(s2, t, s3, t) && s3.stack.len() > 0 && s3 == (VmV {
                        ip: s2.ip + 1,
                        stack: s.stack.push(s3.stack.last()),
                        locals: s3.locals,
                        ..s2
                    }) && raw_atoms(s3.stack.last()) == want && raw_atoms(s3.locals) == raw_atoms(
                        s2.locals,
                    );
                lemma_gets_join(s, t, s2, t, s3, t);
                assert(is_past(s, code.len(), want, s3));
            }
        }
    }
}

/// The call of a defined function on one combination of arguments.
proof fn lemma_user_call(
    s: VmV,
    t: TableV,
    vals: Seq<AtomV>,
    name: Seq<char>,
    xs: Seq<AtomV>,
    cs: Seq<ClauseV>,
    bs: Seq<BlockV>,
    vss: Seq<Seq<AtomV>>,
    base: Seq<ResultV>,
    sets: Seq<ResultV>,
)
    requires
        is_at(s, seq![OpcodeV::Call(xs.len() as u8)], vals),
        xs.len() < 256,
        s.stack.len() > 0,
        s.stack == (base + sets).push(s.stack.last()),
        raw_atoms(s.stack.last()) == seq![AtomV::Sym(name)],
        are_single(sets, xs),
        all_ground(xs),
        !t.natives.contains_key((name, xs.len() as u8)),
        !t.pure_fns.contains((name, xs.len() as u8)),
        t.clauses_of(name, xs.len() as u8) == Some(cs),
        clause_codes(cs, name) == Ok::<Seq<BlockV>, Seq<char>>(bs),
        cs.len() == vss.len(),
        cs.len() <= bs.len(),
        kept(cs, xs, vss).len() > 0,
        forall|i: int| 0 <= i < cs.len() ==> is_simple_clause(#[trigger] cs[i], name),
        forall|i: int| 0 <= i < cs.len() ==> clause_gives(#[trigger] cs[i], xs, t, vss[i]),
        forall|i: int|
            0 <= i < cs.len() ==> {
                let b = #[trigger] bs[i];
                &&& clause_code(cs[i], name) == Ok::<BlockV, Seq<char>>(b)
                &&& b.free_vars == Seq::<Seq<char>>::empty()
                &&& !has_effect(b.code)
            },
    ensures
        exists|s2: VmV| #[trigger]
            gets(s, t, s2, t) && s2.stack.len() > 0 && s2 == (VmV {
                ip: s.ip + 1,
                stack: base.push(s2.stack.last()),
                locals: s2.locals,
                ..s
            }) && raw_atoms(s2.stack.last()) == all_values(vss) && raw_atoms(s2.locals)
                == raw_atoms(s.locals),
{
    let h = AtomV::Sym(name);
    let n = xs.len() as u8;
    let len = s.stack.len() as int;
    lemma_at_op(s, t, OpcodeV::Call(n), vals);
    let all = seq![s.stack.last()] + s.stack.subrange(len - 1 - n, len - 1);
    assert(s.stack.subrange(len - 1 - n, len - 1) =~= sets);
    let hx = seq![h] + xs;
    assert(are_single(all, hx)) by {
        assert forall|i: int| 0 <= i < all.len() implies raw_atoms(#[trigger] all[i]) == seq![
            hx[i],
        ] by {
            if i > 0 {
                assert(all[i] == sets[i - 1]);
            }
        }
    }
    lemma_one_combination(all, hx);
    let c0 = CallsV {
        arity: n,
        combos: combos(all),
        next: 0,
        out: Seq::empty(),
        pending: Seq::empty(),
        memo: None,
    };
    let p = popped(s, n + 1);
    assert(p.stack =~= base);
    let s1 = waiting(p, WaitV::Calls(c0));
    lemma_gets_step(s, t, s1, t);
    lemma_at_calls(s1, t, c0);
    let env = combos(all)[0].1;
    assert(hx.skip(1) =~= xs);
    assert(hx[0] == h);
    lemma_simple_calls(cs, bs, name, xs, env, t, vss);
    let q = clause_calls(cs, bs, xs, env, Seq::empty())->Ok_0;
    let wss = kept(cs, xs, vss);
    assert(dispatched(h, xs, n, env, t, Seq::empty()) == (DispatchV::Pending(q, None), t));
    let c1 = CallsV { pending: Seq::<PendingV>::empty() + q, memo: None, next: 1, ..c0 };
    assert(c1.pending =~= q);
    let s2 = waiting(s1, WaitV::Calls(c1));
    assert(makes(s1, t) == (VmOutV::Next, s2, t));
    lemma_gets_step(s1, t, s2, t);
    lemma_gets_join(s, t, s1, t, s2, t);
    lemma_at_calls(s2, t, c1);
    let s3 = with_frame(s2, KindV::Call(call_name(c1.combos), n, q, None), c1.out);
    assert(makes(s2, t) == (VmOutV::Next, s3, t));
    lemma_gets_step(s2, t, s3, t);
    lemma_gets_join(s, t, s2, t, s3, t);
    lemma_calls_run(s3, t, q, wss);
    let s4 = choose|s4: VmV| #[trigger] gets(s3, t, s4, t) && is_returned(s3, all_values(wss), s4);
    lemma_gets_join(s, t, s3, t, s4, t);
    assert(s3.frames.drop_last() =~= s.frames);
    assert(s4 =~= VmV {
        ip: s.ip + 1,
        stack: base.push(s4.stack.last()),
        locals: s4.locals,
        ..s
    });
}

} // verus!
