//! Chains, searches and folds of the continuation machine.
use crate::atom::AtomV;
use crate::compile::reify::to_expr;
use crate::env::EnvV;
use crate::env::stacked;
use crate::eval::machine::apply::bodies_for;
use crate::eval::machine::apply::chained;
use crate::eval::machine::apply::first_raw;
use crate::eval::machine::apply::fold_next;
use crate::eval::machine::apply::space_bodies;
use crate::eval::machine::budget::ResultV;
use crate::eval::machine::budget::plain_results;
use crate::eval::machine::dispatch::evals;
use crate::eval::machine::frame::ContV;
use crate::eval::machine::resumed::ResumedV;
use crate::eval::machine::step::tail_work;
use crate::eval::machine::task::TaskV;
use crate::eval::machine::vm::bodies::call_of_two;
use crate::eval::shared::subst::expr_followed;
use crate::expr::ExprV;
use crate::func::TableV;
use crate::laws::continuing::all_in;
use crate::laws::continuing::all_yield;
use crate::laws::continuing::cek;
use crate::laws::continuing::lemma_moves_join;
use crate::laws::continuing::lemma_planned;
use crate::laws::continuing::lemma_resumed;
use crate::laws::continuing::lemma_turns;
use crate::laws::continuing::moves;
use crate::laws::continuing::turns_of;
use crate::laws::continuing::yields;
use crate::laws::folding::accumulated;
use crate::laws::forms::core_names_are_bound;
use crate::laws::forms::form;
use crate::laws::forms::lemma_form;
use crate::laws::forms::lemma_joined;
use crate::space::FoundV;
use crate::space::matches_in;
use crate::text::is_var_name;
use vstd::prelude::*;

verus! {

/// Whether nothing waits in a way that lets a last call take its place.
pub open spec fn is_no_tail(w: Seq<TaskV>) -> bool {
    w.len() < 2 || !(w[w.len() - 1] is Apply && w[w.len() - 1]->Apply_0 is MergeEnv) || w[w.len()
        - 2] != TaskV::Apply(ContV::Gather(1))
}

/// Whether the expressions of a chain have values, each in the environment that
/// the variables before it make.
pub open spec fn links_hold(
    args: Seq<ExprV>,
    vs: Seq<AtomV>,
    es: Seq<EnvV>,
    t: TableV,
    room: nat,
) -> bool {
    &&& args.len() == 2 * vs.len() + 1
    &&& es.len() == vs.len() + 1
    &&& forall|i: int|
        0 <= i < vs.len() ==> {
            let name = args[2 * i + 1];
            &&& yields(args[2 * i], es[i], t, plain_results(seq![#[trigger] vs[i]]), room)
            &&& name is Symbol && is_var_name(name->Symbol_0)
            &&& es[i + 1] == EnvV::Cons(name->Symbol_0, Box::new(vs[i]), Box::new(es[i]))
        }
}

proof fn lemma_chain_goes_on(
    w: Seq<TaskV>,
    v: Seq<ResultV>,
    args: Seq<ExprV>,
    vs: Seq<AtomV>,
    es: Seq<EnvV>,
    t: TableV,
    rs: ResultV,
    room: nat,
    i: nat,
)
    requires
        is_no_tail(w),
        links_hold(args, vs, es, t, room),
        yields(args[args.len() - 1], es[es.len() - 1], t, rs, room),
        i < vs.len(),
        w.len() + v.len() + room + 2 <= 2_000_000,
    ensures
        moves(
            cek(
                w.push(TaskV::Apply(ContV::ChainBind(args, i, es[i as int]))).push(
                    TaskV::Eval(args[2 * i as int], es[i as int]),
                ),
                v,
            ),
            t,
            cek(w, v.push(rs)),
            t,
        ),
    decreases vs.len() - i,
{
    let n = i as int;
    let f = ContV::ChainBind(args, i, es[n]);
    let w1 = w.push(TaskV::Apply(f));
    let x = args[2 * n];
    let s = cek(w1.push(TaskV::Eval(x, es[n])), v);
    let one = plain_results(seq![vs[n]]);
    assert(yields(x, es[n], t, one, room));
    assert(moves(s, t, cek(w1, v.push(one)), t));
    assert(v + seq![one] =~= v.push(one));
    lemma_resumed(w, v, f, seq![one], t);
    assert(args.len() / 2 == vs.len());
    assert(first_raw(one) == Some(vs[n]));
    if n + 1 < vs.len() {
        let g = ContV::ChainBind(args, i + 1, es[n + 1]);
        let y = args[2 * (n + 1)];
        let ts = seq![TaskV::Apply(g), TaskV::Eval(y, es[n + 1])];
        assert(chained(one, args, i, es[n]) == ResumedV::Tasks(ts));
        let next = cek(w.push(TaskV::Apply(g)).push(TaskV::Eval(y, es[n + 1])), v);
        assert(w + ts =~= next.work);
        lemma_moves_join(s, t, cek(w1, v.push(one)), t, next, t);
        lemma_chain_goes_on(w, v, args, vs, es, t, rs, room, i + 1);
        lemma_moves_join(s, t, next, t, cek(w, v.push(rs)), t);
    } else {
        let e = es[n + 1];
        let y = args.last();
        let next = cek(w.push(TaskV::Eval(y, e)), v);
        assert(chained(one, args, i, es[n]) == ResumedV::Tail(y, e));
        assert(tail_work(w, y, e) == next.work);
        lemma_moves_join(s, t, cek(w1, v.push(one)), t, next, t);
        lemma_moves_join(s, t, next, t, cek(w, v.push(rs)), t);
    }
}

/// A `chain` has the results of its last expression, in which each variable stands
/// for the value of the expression in front of it.
pub proof fn chains_bind_one_variable_after_another(
    args: Seq<ExprV>,
    vs: Seq<AtomV>,
    es: Seq<EnvV>,
    t: TableV,
    rs: ResultV,
    room: nat,
    w: Seq<TaskV>,
    v: Seq<ResultV>,
)
    requires
        vs.len() > 0,
        links_hold(args, vs, es, t, room),
        yields(args[args.len() - 1], es[es.len() - 1], t, rs, room),
        is_no_tail(w),
        w.len() + v.len() + room + 2 <= 2_000_000,
    ensures
        moves(
            cek(w.push(TaskV::Eval(form("chain"@, args), es[0])), v),
            t,
            cek(w, v.push(rs)),
            t,
        ),
{
    core_names_are_bound();
    lemma_form("chain"@, args, es[0], t);
    let e = form("chain"@, args);
    let s = cek(w.push(TaskV::Eval(e, es[0])), v);
    let f = ContV::ChainBind(args, 0, es[0]);
    let ts = seq![TaskV::Apply(f), TaskV::Eval(args[0], es[0])];
    lemma_planned(w, v, e, es[0], t, ts);
    let next = cek(w.push(TaskV::Apply(f)).push(TaskV::Eval(args[0], es[0])), v);
    assert(w + ts =~= next.work);
    lemma_chain_goes_on(w, v, args, vs, es, t, rs, room, 0);
    lemma_moves_join(s, t, next, t, cek(w, v.push(rs)), t);
}

proof fn lemma_streamed(
    w: Seq<TaskV>,
    v: Seq<ResultV>,
    bs: Seq<(ExprV, EnvV)>,
    t: TableV,
    rss: Seq<ResultV>,
    room: nat,
)
    requires
        all_yield(bs, t, rss, room),
        w.len() + v.len() + bs.len() + room + 1 <= 2_000_000,
    ensures
        moves(
            cek(w.push(TaskV::Apply(ContV::SpaceMatchStream(bs.reverse()))), v),
            t,
            cek(w, v + rss),
            t,
        ),
    decreases bs.len(),
{
    let left = bs.reverse();
    let f = ContV::SpaceMatchStream(left);
    let s = cek(w.push(TaskV::Apply(f)), v);
    let none: Seq<ResultV> = Seq::empty();
    assert(v + none =~= v);
    lemma_resumed(w, v, f, none, t);
    if bs.len() == 0 {
        assert(v + rss =~= v);
    } else {
        let cs = bs.skip(1);
        let qs = rss.skip(1);
        assert(left.drop_last() =~= cs.reverse());
        let b = bs[0];
        assert(left.last() == b);
        let g = ContV::SpaceMatchStream(cs.reverse());
        let ts = seq![TaskV::Apply(g), TaskV::Eval(b.0, b.1)];
        let w1 = w.push(TaskV::Apply(g));
        assert(w + ts =~= w1.push(TaskV::Eval(b.0, b.1)));
        let s1 = cek(w1.push(TaskV::Eval(b.0, b.1)), v);
        assert(yields(b.0, b.1, t, rss[0], room));
        assert(moves(s1, t, cek(w1, v.push(rss[0])), t));
        lemma_moves_join(s, t, s1, t, cek(w1, v.push(rss[0])), t);
        assert forall|i: int| 0 <= i < cs.len() implies yields(
            (#[trigger] cs[i]).0,
            cs[i].1,
            t,
            qs[i],
            room,
        ) by {
            assert(cs[i] == bs[i + 1]);
        }
        lemma_streamed(w, v.push(rss[0]), cs, t, qs, room);
        assert(v.push(rss[0]) + qs =~= v + rss);
        lemma_moves_join(s, t, cek(w1, v.push(rss[0])), t, cek(w, v + rss), t);
    }
}

/// `(match space pattern body)` has the results of the body for all that the
/// search of the space finds, in the order in which it is found.
pub proof fn matches_are_evaluated_in_order(
    x: ExprV,
    p: ExprV,
    body: ExprV,
    env: EnvV,
    t: TableV,
    a: AtomV,
    found: Seq<FoundV>,
    rss: Seq<ResultV>,
    room: nat,
)
    requires
        yields(x, env, t, plain_results(seq![a]), room),
        matches_in(t, a, p, env) == Ok::<Seq<FoundV>, Seq<char>>(found),
        all_yield(
            Seq::new(
                found.len(),
                |i: int| (expr_followed(body, env), stacked(found[i].1, env)),
            ),
            t,
            rss,
            room,
        ),
        rss.flatten().len() <= 1_000_000,
    ensures
        yields(
            form("match"@, seq![x, p, body]),
            env,
            t,
            rss.flatten(),
            room + found.len() + 2,
        ),
{
    core_names_are_bound();
    let e = form("match"@, seq![x, p, body]);
    lemma_form("match"@, seq![x, p, body], env, t);
    lemma_joined(rss);
    let one = plain_results(seq![a]);
    let inner = expr_followed(body, env);
    let bs = Seq::new(found.len(), |i: int| (inner, stacked(found[i].1, env)));
    assert(bodies_for(found, inner, env) =~= bs);
    assert(one.drop_last() =~= ResultV::empty());
    assert(space_bodies(one.drop_last(), p, inner, env, t)->Ok_0 =~= Seq::<
        (ExprV, EnvV),
    >::empty());
    assert(space_bodies(one, p, inner, env, t)->Ok_0 =~= bs);
    let f = ContV::SpaceMatch(p, body, env);
    let out = rss.flatten();
    assert forall|w: Seq<TaskV>, v: Seq<ResultV>|
        #![trigger cek(w.push(TaskV::Eval(e, env)), v)]
        w.len() + v.len() + (room + found.len() + 2) <= 2_000_000 implies moves(
        cek(w.push(TaskV::Eval(e, env)), v),
        t,
        cek(w, v.push(out)),
        t,
    ) by {
        let s = cek(w.push(TaskV::Eval(e, env)), v);
        let ts = seq![TaskV::Apply(f), TaskV::Eval(x, env)];
        lemma_planned(w, v, e, env, t, ts);
        let w1 = w.push(TaskV::Apply(f));
        assert(w + ts =~= w1.push(TaskV::Eval(x, env)));
        assert(moves(cek(w1.push(TaskV::Eval(x, env)), v), t, cek(w1, v.push(one)), t));
        lemma_moves_join(s, t, cek(w + ts, v), t, cek(w1, v.push(one)), t);
        lemma_resumed(w, v, f, seq![one], t);
        assert(v + seq![one] =~= v.push(one));
        if bs.len() == 0 {
            assert(rss =~= Seq::<ResultV>::empty());
            assert(out =~= ResultV::empty());
            lemma_moves_join(s, t, cek(w1, v.push(one)), t, cek(w, v.push(out)), t);
        } else {
            let g = ContV::Gather(bs.len());
            let w2 = w.push(TaskV::Apply(g));
            let b = bs[0];
            assert(yields(b.0, b.1, t, rss[0], room));
            if bs.len() == 1 {
                let us = seq![TaskV::Apply(g), TaskV::Eval(b.0, b.1)];
                assert(w + us =~= w2.push(TaskV::Eval(b.0, b.1)));
                assert(v.push(rss[0]) =~= v + rss);
                let s1 = cek(w2.push(TaskV::Eval(b.0, b.1)), v);
                lemma_moves_join(s, t, cek(w1, v.push(one)), t, s1, t);
                assert(moves(s1, t, cek(w2, v.push(rss[0])), t));
                lemma_moves_join(s, t, s1, t, cek(w2, v + rss), t);
            } else {
                let h = ContV::SpaceMatchStream(bs.skip(1).reverse());
                let us = seq![TaskV::Apply(g), TaskV::Apply(h), TaskV::Eval(b.0, b.1)];
                let w3 = w2.push(TaskV::Apply(h));
                assert(w + us =~= w3.push(TaskV::Eval(b.0, b.1)));
                let s1 = cek(w3.push(TaskV::Eval(b.0, b.1)), v);
                lemma_moves_join(s, t, cek(w1, v.push(one)), t, s1, t);
                assert(moves(s1, t, cek(w3, v.push(rss[0])), t));
                lemma_moves_join(s, t, s1, t, cek(w3, v.push(rss[0])), t);
                let cs = bs.skip(1);
                let qs = rss.skip(1);
                assert forall|i: int| 0 <= i < cs.len() implies yields(
                    (#[trigger] cs[i]).0,
                    cs[i].1,
                    t,
                    qs[i],
                    room,
                ) by {
                    assert(cs[i] == bs[i + 1]);
                }
                lemma_streamed(w2, v.push(rss[0]), cs, t, qs, room);
                assert(v.push(rss[0]) + qs =~= v + rss);
                lemma_moves_join(s, t, cek(w3, v.push(rss[0])), t, cek(w2, v + rss), t);
            }
            lemma_resumed(w, v, g, rss, t);
            lemma_moves_join(s, t, cek(w2, v + rss), t, cek(w, v.push(out)), t);
        }
    }
}

/// Whether the calls of a fold in the continuation machine have values.
pub open spec fn steps_yield(
    f: AtomV,
    acc: AtomV,
    items: Seq<AtomV>,
    g: spec_fn(AtomV, AtomV) -> AtomV,
    t: TableV,
    room: nat,
) -> bool {
    forall|k: nat|
        k < items.len() ==> yields(
            ExprV::List(
                seq![
                    to_expr(f),
                    to_expr(accumulated(acc, items, g, k)),
                    to_expr(items[k as int]),
                ],
            ),
            EnvV::Empty,
            t,
            plain_results(seq![#[trigger] accumulated(acc, items, g, k + 1)]),
            room,
        )
}

proof fn lemma_fold_goes_on(
    w: Seq<TaskV>,
    v: Seq<ResultV>,
    f: AtomV,
    acc: AtomV,
    items: Seq<AtomV>,
    g: spec_fn(AtomV, AtomV) -> AtomV,
    t: TableV,
    room: nat,
    k: nat,
)
    requires
        steps_yield(f, acc, items, g, t, room),
        k < items.len(),
        w.len() + v.len() + room + 2 <= 2_000_000,
    ensures
        ({
            let here = accumulated(acc, items, g, k);
            moves(
                cek(
                    w.push(TaskV::Apply(ContV::FoldlAtom(items, k + 1, here, f))).push(
                        TaskV::Eval(call_of_two(to_expr(f), here, items[k as int]), EnvV::Empty),
                    ),
                    v,
                ),
                t,
                cek(
                    w,
                    v.push(plain_results(seq![accumulated(acc, items, g, items.len())])),
                ),
                t,
            )
        }),
    decreases items.len() - k,
{
    let here = accumulated(acc, items, g, k);
    let next = accumulated(acc, items, g, k + 1);
    let c = ContV::FoldlAtom(items, k + 1, here, f);
    let x = call_of_two(to_expr(f), here, items[k as int]);
    let w1 = w.push(TaskV::Apply(c));
    let s = cek(w1.push(TaskV::Eval(x, EnvV::Empty)), v);
    let one = plain_results(seq![next]);
    assert(yields(x, EnvV::Empty, t, one, room));
    assert(moves(s, t, cek(w1, v.push(one)), t));
    assert(v + seq![one] =~= v.push(one));
    lemma_resumed(w, v, c, seq![one], t);
    assert(first_raw(one) == Some(next));
    if k + 1 < items.len() {
        let d = ContV::FoldlAtom(items, k + 2, next, f);
        let y = call_of_two(to_expr(f), next, items[k as int + 1]);
        let ts = seq![TaskV::Apply(d), TaskV::Eval(y, EnvV::Empty)];
        assert(fold_next(items, k + 1, next, f) == ResumedV::Tasks(ts));
        let s1 = cek(w.push(TaskV::Apply(d)).push(TaskV::Eval(y, EnvV::Empty)), v);
        assert(w + ts =~= s1.work);
        lemma_moves_join(s, t, cek(w1, v.push(one)), t, s1, t);
        lemma_fold_goes_on(w, v, f, acc, items, g, t, room, k + 1);
        lemma_moves_join(
            s,
            t,
            s1,
            t,
            cek(w, v.push(plain_results(seq![accumulated(acc, items, g, items.len())]))),
            t,
        );
    } else {
        lemma_moves_join(s, t, cek(w1, v.push(one)), t, cek(w, v.push(one)), t);
    }
}

/// `(foldl-atom list init f)` takes the elements of the list from the left, and
/// calls the function with what there is so far first and the element second.
pub proof fn folds_take_elements_from_the_left(
    list: ExprV,
    init: ExprV,
    func: ExprV,
    env: EnvV,
    t: TableV,
    items: Seq<AtomV>,
    acc: AtomV,
    f: AtomV,
    g: spec_fn(AtomV, AtomV) -> AtomV,
    room: nat,
)
    requires
        yields(list, env, t, plain_results(seq![AtomV::Expr(items)]), room),
        yields(init, env, t, plain_results(seq![acc]), room),
        yields(func, env, t, plain_results(seq![f]), room),
        steps_yield(f, acc, items, g, t, room),
    ensures
        yields(
            form("foldl-atom"@, seq![list, init, func]),
            env,
            t,
            plain_results(seq![accumulated(acc, items, g, items.len())]),
            room + 4,
        ),
{
    core_names_are_bound();
    let args = seq![list, init, func];
    let e = form("foldl-atom"@, args);
    lemma_form("foldl-atom"@, args, env, t);
    let bs = all_in(args, env);
    let rss = seq![
        plain_results(seq![AtomV::Expr(items)]),
        plain_results(seq![acc]),
        plain_results(seq![f]),
    ];
    assert(evals(args, env) =~= turns_of(bs));
    let c = ContV::FoldlInit;
    let last = plain_results(seq![accumulated(acc, items, g, items.len())]);
    assert forall|w: Seq<TaskV>, v: Seq<ResultV>|
        #![trigger cek(w.push(TaskV::Eval(e, env)), v)]
        w.len() + v.len() + (room + 4) <= 2_000_000 implies moves(
        cek(w.push(TaskV::Eval(e, env)), v),
        t,
        cek(w, v.push(last)),
        t,
    ) by {
        let s = cek(w.push(TaskV::Eval(e, env)), v);
        let ts = seq![TaskV::Apply(c)] + turns_of(bs);
        lemma_planned(w, v, e, env, t, ts);
        let w1 = w.push(TaskV::Apply(c));
        assert(w + ts =~= w1 + turns_of(bs));
        lemma_turns(w1, v, bs, t, rss, room);
        lemma_moves_join(s, t, cek(w + ts, v), t, cek(w1, v + rss), t);
        lemma_resumed(w, v, c, rss, t);
        assert(first_raw(rss[0]) == Some(AtomV::Expr(items)));
        assert(first_raw(rss[1]) == Some(acc));
        assert(first_raw(rss[2]) == Some(f));
        assert(accumulated(acc, items, g, 0) == acc);
        if items.len() == 0 {
            assert(fold_next(items, 0, acc, f) == ResumedV::Value(last));
            lemma_moves_join(s, t, cek(w1, v + rss), t, cek(w, v.push(last)), t);
        } else {
            let d = ContV::FoldlAtom(items, 1, acc, f);
            let y = call_of_two(to_expr(f), acc, items[0]);
            let us = seq![TaskV::Apply(d), TaskV::Eval(y, EnvV::Empty)];
            let s1 = cek(w.push(TaskV::Apply(d)).push(TaskV::Eval(y, EnvV::Empty)), v);
            assert(w + us =~= s1.work);
            lemma_moves_join(s, t, cek(w1, v + rss), t, s1, t);
            lemma_fold_goes_on(w, v, f, acc, items, g, t, room, 0);
            lemma_moves_join(s, t, s1, t, cek(w, v.push(last)), t);
        }
    }
}

} // verus!
