//! Calls of defined functions in the continuation machine.
use crate::atom::AtomV;
use crate::env::EnvV;
use crate::func::ClauseV;
use crate::eval::machine::apply::under_env;
use crate::eval::machine::budget::ComboV;
use crate::eval::machine::budget::ResultV;
use crate::eval::machine::budget::combo_rows;
use crate::eval::machine::budget::combos;
use crate::eval::machine::calls::MatchedV;
use crate::eval::machine::calls::body_tasks;
use crate::eval::machine::calls::call_bodies;
use crate::eval::machine::calls::clause_bodies;
use crate::eval::machine::calls::entry_cost;
use crate::eval::machine::calls::filled_slots;
use crate::eval::machine::calls::open_slots;
use crate::eval::machine::calls::sequential_tasks;
use crate::eval::machine::dispatch::Core;
use crate::eval::machine::dispatch::arg_slot;
use crate::eval::machine::dispatch::arg_slots;
use crate::eval::machine::dispatch::core_of;
use crate::eval::machine::dispatch::evals;
use crate::eval::machine::dispatch::unfilled;
use crate::eval::machine::frame::ContV;
use crate::eval::machine::step::CekOutV;
use crate::eval::machine::task::HeadV;
use crate::eval::machine::task::TaskV;
use crate::eval::machine::transition::TransitionV;
use crate::eval::shared::closure::lazy_mask;
use crate::eval::shared::env::linked;
use crate::eval::shared::pattern::MatchV;
use crate::eval::shared::pattern::all_ground;
use crate::eval::shared::pattern::all_plain;
use crate::expr::ExprV;
use crate::func::TableV;
use crate::laws::checking::each_yields;
use crate::laws::checking::lemma_single_sets;
use crate::laws::checking::single_sets;
use crate::laws::continuing::all_in;
use crate::laws::continuing::cek;
use crate::laws::continuing::lemma_moves_here;
use crate::laws::continuing::lemma_moves_join;
use crate::laws::continuing::lemma_moves_step;
use crate::laws::continuing::lemma_planned;
use crate::laws::continuing::lemma_resumed;
use crate::laws::continuing::lemma_turns;
use crate::laws::continuing::moves;
use crate::laws::continuing::turns;
use crate::laws::continuing::turns_of;
use crate::laws::continuing::yields;
use crate::laws::forms::lemma_joined;
use crate::laws::functions::arguments_match;
use crate::laws::functions::lemma_no_question;
use vstd::prelude::*;

verus! {

/// The results of the clauses of a function that match arguments, in the order of
/// the clauses, each on top of what its patterns bind.
pub open spec fn clause_results(
    cs: Seq<ClauseV>,
    xs: Seq<AtomV>,
    rss: Seq<ResultV>,
) -> ResultV
    decreases cs.len(),
{
    if cs.len() == 0 {
        Seq::empty()
    } else {
        let before = clause_results(cs.drop_last(), xs, rss.drop_last());
        match arguments_match(cs.last(), xs) {
            MatchV::Yes(m) => before + under_env(rss.last(), m),
            _ => before,
        }
    }
}

/// The result sets of the clauses that match.
spec fn matching_sets(cs: Seq<ClauseV>, xs: Seq<AtomV>, rss: Seq<ResultV>) -> Seq<ResultV>
    decreases cs.len(),
{
    if cs.len() == 0 {
        Seq::empty()
    } else {
        let before = matching_sets(cs.drop_last(), xs, rss.drop_last());
        if arguments_match(cs.last(), xs) is Yes {
            before.push(rss.last())
        } else {
            before
        }
    }
}

/// Whether matched bodies have their results.
spec fn bodies_yield(bs: Seq<MatchedV>, t: TableV, qs: Seq<ResultV>, room: nat) -> bool {
    &&& bs.len() == qs.len()
    &&& forall|i: int|
        0 <= i < bs.len() ==> yields((#[trigger] bs[i]).0, bs[i].1, t, qs[i], room)
}

/// Results on top of what matched bodies bind.
spec fn bound_sets(bs: Seq<MatchedV>, qs: Seq<ResultV>) -> Seq<ResultV> {
    Seq::new(bs.len(), |i: int| under_env(qs[i], bs[i].1))
}

/// Bodies that are entered one after the other leave their results.
proof fn lemma_body_tasks(
    w: Seq<TaskV>,
    v: Seq<ResultV>,
    bs: Seq<MatchedV>,
    t: TableV,
    qs: Seq<ResultV>,
    room: nat,
)
    requires
        bodies_yield(bs, t, qs, room),
        w.len() + v.len() + 3 * bs.len() + room <= 2_000_000,
    ensures
        moves(cek(w + body_tasks(bs), v), t, cek(w, v + bound_sets(bs, qs)), t),
    decreases bs.len(),
{
    let sets = bound_sets(bs, qs);
    if bs.len() == 0 {
        assert(w + body_tasks(bs) =~= w);
        assert(v + sets =~= v);
        lemma_moves_here(cek(w, v), t);
    } else {
        let cs = bs.skip(1);
        let rs = qs.skip(1);
        let b = bs[0];
        lemma_tasks_len(cs);
        let w1 = w + body_tasks(cs);
        let m = ContV::MergeEnv(b.1);
        let w2 = w1.push(TaskV::Apply(m));
        let w3 = w2.push(TaskV::Eval(b.0, b.1));
        let tr = TransitionV::Query(entry_cost(b));
        let s = cek(w3.push(TaskV::Transition(tr)), v);
        assert(w + body_tasks(bs) =~= s.work);
        assert(s.work.drop_last() =~= w3);
        assert(turns(s, t) == (CekOutV::Next, Seq::<Seq<char>>::empty(), cek(w3, v), t)) by {
            reveal(turns);
        }
        lemma_moves_step(s, t, cek(w3, v), t);
        assert(yields(b.0, b.1, t, qs[0], room));
        assert(moves(cek(w2.push(TaskV::Eval(b.0, b.1)), v), t, cek(w2, v.push(qs[0])), t));
        lemma_moves_join(s, t, cek(w3, v), t, cek(w2, v.push(qs[0])), t);
        assert(v + seq![qs[0]] =~= v.push(qs[0]));
        lemma_resumed(w1, v, m, seq![qs[0]], t);
        let v1 = v.push(sets[0]);
        assert(sets[0] == under_env(qs[0], b.1));
        lemma_moves_join(s, t, cek(w2, v.push(qs[0])), t, cek(w1, v1), t);
        assert forall|i: int| 0 <= i < cs.len() implies yields(
            (#[trigger] cs[i]).0,
            cs[i].1,
            t,
            rs[i],
            room,
        ) by {
            assert(cs[i] == bs[i + 1]);
        }
        lemma_body_tasks(w, v1, cs, t, rs, room);
        assert(v1 + bound_sets(cs, rs) =~= v + sets);
        lemma_moves_join(s, t, cek(w1, v1), t, cek(w, v + sets), t);
    }
}

proof fn lemma_tasks_len(bs: Seq<MatchedV>)
    ensures
        body_tasks(bs).len() == 3 * bs.len(),
    decreases bs.len(),
{
    if bs.len() > 0 {
        lemma_tasks_len(bs.skip(1));
    }
}

/// The bodies of the clauses that match.
proof fn lemma_matched(
    cs: Seq<ClauseV>,
    xs: Seq<AtomV>,
    t: TableV,
    rss: Seq<ResultV>,
    room: nat,
)
    requires
        cs.len() == rss.len(),
        all_ground(xs),
        forall|i: int| 0 <= i < cs.len() ==> all_plain((#[trigger] cs[i]).patterns),
        forall|i: int|
            0 <= i < cs.len() ==> (arguments_match(#[trigger] cs[i], xs) matches MatchV::Yes(m)
                ==> yields(cs[i].body, m, t, rss[i], room)),
    ensures
        ({
            let r = clause_bodies(cs, (xs, EnvV::Empty), Seq::empty());
            let qs = matching_sets(cs, xs, rss);
            &&& r is Ok
            &&& r->Ok_0.len() <= cs.len()
            &&& bodies_yield(r->Ok_0, t, qs, room)
            &&& bound_sets(r->Ok_0, qs).flatten() == clause_results(cs, xs, rss)
        }),
    decreases cs.len(),
{
    let r = clause_bodies(cs, (xs, EnvV::Empty), Seq::empty());
    let qs = matching_sets(cs, xs, rss);
    if cs.len() > 0 {
        let f = cs.drop_last();
        let g = rss.drop_last();
        assert forall|i: int| 0 <= i < f.len() implies all_plain((#[trigger] f[i]).patterns) by {
            assert(f[i] == cs[i]);
        }
        assert forall|i: int| 0 <= i < f.len() implies (arguments_match(
            #[trigger] f[i],
            xs,
        ) matches MatchV::Yes(m) ==> yields(f[i].body, m, t, g[i], room)) by {
            assert(f[i] == cs[i]);
        }
        lemma_matched(f, xs, t, g, room);
        let before = clause_bodies(f, (xs, EnvV::Empty), Seq::empty())->Ok_0;
        let bq = matching_sets(f, xs, g);
        let c = cs[cs.len() - 1];
        if c.patterns.len() == xs.len() {
            lemma_no_question(c.patterns, xs, EnvV::Empty);
        }
        if let MatchV::Yes(m) = arguments_match(c, xs) {
            assert(linked(m, EnvV::Empty) == m);
            let all = r->Ok_0;
            let q = rss[rss.len() - 1];
            assert(yields(c.body, m, t, q, room));
            assert(all.drop_last() =~= before);
            assert(bodies_yield(all, t, qs, room)) by {
                assert forall|i: int| 0 <= i < all.len() implies yields(
                    (#[trigger] all[i]).0,
                    all[i].1,
                    t,
                    qs[i],
                    room,
                ) by {
                    if i < before.len() {
                        assert(all[i] == before[i]);
                    }
                }
            }
            let sets = bound_sets(all, qs);
            assert(sets.drop_last() =~= bound_sets(before, bq));
            assert(sets.last() == under_env(q, m));
            sets.lemma_flatten_and_flatten_alt_are_equivalent();
            sets.drop_last().lemma_flatten_and_flatten_alt_are_equivalent();
        }
    } else {
        assert(bound_sets(r->Ok_0, qs) =~= Seq::<ResultV>::empty());
        assert(bound_sets(r->Ok_0, qs).flatten() =~= ResultV::empty());
    }
}

/// One value for each argument is one choice, which binds nothing.
proof fn lemma_plain_choice(xs: Seq<AtomV>)
    ensures
        combos(single_sets(xs)) == seq![(xs, EnvV::Empty)],
    decreases xs.len(),
{
    let sets = single_sets(xs);
    if xs.len() > 0 {
        let f = xs.drop_last();
        lemma_plain_choice(f);
        assert(sets.drop_last() =~= single_sets(f));
        let cs = seq![(f, EnvV::Empty)];
        assert(cs.drop_last() =~= Seq::<ComboV>::empty());
        assert(combo_rows(cs.drop_last(), sets.last()) =~= Seq::<ComboV>::empty());
        assert(cs.last() == (f, EnvV::Empty));
        assert(f.push(xs.last()) =~= xs);
        assert(combos(sets) =~= seq![(xs, EnvV::Empty)]);
    } else {
        assert(xs =~= Seq::<AtomV>::empty());
        assert(sets.len() == 0);
        assert(combos(sets) =~= seq![(xs, EnvV::Empty)]);
    }
}

/// Slots that are all open are filled by what is evaluated.
proof fn lemma_open_slots(args: Seq<ExprV>, slots: Seq<Option<ResultV>>, sets: Seq<ResultV>)
    requires
        args.len() == slots.len(),
        sets.len() >= slots.len(),
        forall|i: int| 0 <= i < slots.len() ==> (#[trigger] slots[i]) is None,
    ensures
        unfilled(args, slots) == args,
        open_slots(slots) == slots.len(),
        filled_slots(slots, sets) == sets.take(slots.len() as int),
    decreases slots.len(),
{
    if slots.len() > 0 {
        let f = slots.drop_last();
        let a = args.drop_last();
        assert forall|i: int| 0 <= i < f.len() implies (#[trigger] f[i]) is None by {
            assert(f[i] == slots[i]);
        }
        lemma_open_slots(a, f, sets);
        lemma_unfilled(a, slots);
        assert(slots[slots.len() - 1] is None);
        assert(a.push(args.last()) =~= args);
        let n = f.len() as int;
        assert(sets.take(n).push(sets[n]) =~= sets.take(n + 1));
    } else {
        assert(args =~= Seq::<ExprV>::empty());
        assert(sets.take(0) =~= Seq::<ResultV>::empty());
    }
}

/// Arguments whose slots are all open are all left.
proof fn lemma_unfilled(args: Seq<ExprV>, slots: Seq<Option<ResultV>>)
    requires
        args.len() <= slots.len(),
        forall|i: int| 0 <= i < slots.len() ==> (#[trigger] slots[i]) is None,
    ensures
        unfilled(args, slots) == args,
    decreases args.len(),
{
    if args.len() > 0 {
        lemma_unfilled(args.drop_last(), slots);
        assert(slots[args.len() - 1] is None);
        assert(args.drop_last().push(args.last()) =~= args);
    } else {
        assert(unfilled(args, slots) =~= args);
    }
}

/// A call of a defined function has the results of all its clauses that match the
/// values of the arguments, in the order of the clauses: those of the body of
/// each, with the variables of its patterns bound to what they stand for.
pub proof fn calls_run_all_matching_clauses(
    name: Seq<char>,
    args: Seq<ExprV>,
    env: EnvV,
    t: TableV,
    xs: Seq<AtomV>,
    cs: Seq<ClauseV>,
    rss: Seq<ResultV>,
    room: nat,
)
    requires
        core_of(name) == Core::Other,
        !t.natives.contains_key((name, args.len() as u8)),
        t.clauses_of(name, args.len() as u8) == Some(cs),
        !t.pure_fns.contains((name, args.len() as u8)),
        !t.readers.contains((name, args.len() as u8)),
        forall|i: int|
            0 <= i < args.len() ==> arg_slot(#[trigger] args[i], i, lazy_mask(cs), env) is None,
        each_yields(args, env, t, xs, room),
        all_ground(xs),
        cs.len() == rss.len(),
        forall|i: int| 0 <= i < cs.len() ==> all_plain((#[trigger] cs[i]).patterns),
        forall|i: int|
            0 <= i < cs.len() ==> (arguments_match(#[trigger] cs[i], xs) matches MatchV::Yes(m)
                ==> yields(cs[i].body, m, t, rss[i], room)),
        clause_results(cs, xs, rss).len() <= 1_000_000,
    ensures
        yields(
            ExprV::List(seq![ExprV::Symbol(name)] + args),
            env,
            t,
            clause_results(cs, xs, rss),
            room + args.len() + 3 * cs.len() + 2,
        ),
{
    lemma_single_sets(args, env, t, xs, room);
    lemma_plain_choice(xs);
    lemma_matched(cs, xs, t, rss, room);
    let items = seq![ExprV::Symbol(name)] + args;
    let e = ExprV::List(items);
    assert(items.skip(1) =~= args);
    let bs = all_in(args, env);
    let sets = single_sets(xs);
    let slots = arg_slots(args, lazy_mask(cs), env);
    assert forall|i: int| 0 <= i < slots.len() implies (#[trigger] slots[i]) is None by {
        assert(arg_slot(args[i], i, lazy_mask(cs), env) is None);
    }
    lemma_open_slots(args, slots, sets);
    assert(sets.take(slots.len() as int) =~= sets);
    assert(evals(args, env) =~= turns_of(bs));
    let f = ContV::Call(HeadV::User(name, cs), args.len(), Some(slots));
    let cb = combos(sets);
    let ms = clause_bodies(cs, (xs, EnvV::Empty), Seq::empty())->Ok_0;
    let qs = matching_sets(cs, xs, rss);
    let out = clause_results(cs, xs, rss);
    let none: Seq<MatchedV> = Seq::empty();
    assert(cb.drop_last() =~= Seq::<ComboV>::empty());
    assert(cb.last() == (xs, EnvV::Empty));
    assert(call_bodies(cs, cb.drop_last(), Seq::empty()) == Ok::<Seq<MatchedV>, (ExprV, EnvV)>(
        none,
    ));
    assert(none + ms =~= ms);
    assert(call_bodies(cs, cb, Seq::empty()) == Ok::<Seq<MatchedV>, (ExprV, EnvV)>(ms));
    let all = bound_sets(ms, qs);
    lemma_joined(all);
    lemma_tasks_len(ms);
    assert forall|w: Seq<TaskV>, v: Seq<ResultV>|
        #![trigger cek(w.push(TaskV::Eval(e, env)), v)]
        w.len() + v.len() + (room + args.len() + 3 * cs.len() + 2) <= 2_000_000 implies moves(
        cek(w.push(TaskV::Eval(e, env)), v),
        t,
        cek(w, v.push(out)),
        t,
    ) by {
        let s = cek(w.push(TaskV::Eval(e, env)), v);
        let ts = seq![TaskV::Apply(f)] + turns_of(bs);
        lemma_planned(w, v, e, env, t, ts);
        let w1 = w.push(TaskV::Apply(f));
        assert(w + ts =~= w1 + turns_of(bs));
        lemma_turns(w1, v, bs, t, sets, room);
        lemma_moves_join(s, t, cek(w + ts, v), t, cek(w1, v + sets), t);
        lemma_resumed(w, v, f, sets, t);
        if ms.len() == 0 {
            assert(all =~= Seq::<ResultV>::empty());
            assert(out =~= ResultV::empty());
            lemma_moves_join(s, t, cek(w1, v + sets), t, cek(w, v.push(out)), t);
        } else {
            let g = ContV::Gather(ms.len());
            let us = sequential_tasks(ms, None);
            let w2 = w.push(TaskV::Apply(g));
            assert(w + us =~= w2 + body_tasks(ms));
            lemma_moves_join(s, t, cek(w1, v + sets), t, cek(w + us, v), t);
            lemma_body_tasks(w2, v, ms, t, qs, room);
            lemma_moves_join(s, t, cek(w + us, v), t, cek(w2, v + all), t);
            lemma_resumed(w, v, g, all, t);
            lemma_moves_join(s, t, cek(w2, v + all), t, cek(w, v.push(out)), t);
        }
    }
}

} // verus!
