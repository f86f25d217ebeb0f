//! What the control forms of the continuation machine choose, and in what order.
use crate::atom::AtomV;
use crate::env::EnvV;
use crate::eval::machine::apply::case_branches;
use crate::eval::machine::apply::clause_for;
use crate::eval::machine::apply::empty_clause;
use crate::eval::machine::apply::has_bindings;
use crate::eval::machine::apply::if_branches;
use crate::eval::machine::apply::let_matches;
use crate::eval::machine::apply::shadows;
use crate::eval::machine::budget::ResultV;
use crate::eval::machine::budget::plain_results;
use crate::eval::machine::budget::raw_atoms;
use crate::eval::machine::budget::result_atoms;
use crate::eval::machine::dispatch::PlanV;
use crate::eval::machine::dispatch::expr_plan;
use crate::eval::machine::frame::ContV;
use crate::eval::machine::resume::needs;
use crate::eval::machine::resume::resumed;
use crate::eval::machine::resumed::ResumedV;
use crate::eval::machine::resumed::branch_tasks;
use crate::eval::machine::task::TaskV;
use crate::eval::shared::env::linked;
use crate::eval::shared::pattern::MatchV;
use crate::eval::shared::pattern::all_ground;
use crate::eval::shared::pattern::match_one;
use crate::eval::shared::subst::substitution_of_ground;
use crate::expr::ExprV;
use crate::func::TableV;
use crate::laws::continuing::all_yield;
use crate::laws::continuing::cek;
use crate::laws::continuing::comes_to;
use crate::laws::continuing::lemma_moves_join;
use crate::laws::continuing::lemma_moves_run;
use crate::laws::continuing::lemma_planned;
use crate::laws::continuing::lemma_resumed;
use crate::laws::continuing::lemma_turns;
use crate::laws::continuing::moves;
use crate::laws::continuing::turns_of;
use crate::laws::continuing::yields;
use crate::laws::forms::core_names_are_bound;
use crate::laws::forms::form;
use crate::laws::forms::lemma_form;
use crate::laws::forms::lemma_joined;
use crate::laws::meaning::lemma_ground_same;
use crate::laws::states::conditions_are_truth;
use crate::laws::states::counts_as_true;
use vstd::prelude::*;

verus! {

/// A form that chooses expressions by the results of another one.
proof fn lemma_selects(
    e: ExprV,
    env: EnvV,
    t: TableV,
    f: ContV,
    x: ExprV,
    apart: bool,
    rs: ResultV,
    g: ContV,
    bs: Seq<(ExprV, EnvV)>,
    rss: Seq<ResultV>,
    out: ResultV,
    room: nat,
)
    requires
        expr_plan(e, env, t) == PlanV::Tasks(
            seq![
                TaskV::Apply(f),
                if apart {
                    TaskV::Run(x, env)
                } else {
                    TaskV::Eval(x, env)
                },
            ],
        ),
        apart ==> comes_to(x, env, t, rs),
        !apart ==> yields(x, env, t, rs, room),
        forall|have: nat| #[trigger] needs(f, have) == 1,
        forall|have: nat| #[trigger] needs(g, have) == bs.len(),
        resumed(f, seq![rs], t, Seq::empty()) == (
            branch_tasks(g, bs),
            Seq::<Seq<char>>::empty(),
            t,
        ),
        all_yield(bs, t, rss, room),
        resumed(g, rss, t, Seq::empty()) == (
            ResumedV::Value(out),
            Seq::<Seq<char>>::empty(),
            t,
        ),
    ensures
        yields(e, env, t, out, room + bs.len() + 2),
{
    assert forall|w: Seq<TaskV>, v: Seq<ResultV>|
        #![trigger cek(w.push(TaskV::Eval(e, env)), v)]
        w.len() + v.len() + (room + bs.len() + 2) <= 2_000_000 implies moves(
        cek(w.push(TaskV::Eval(e, env)), v),
        t,
        cek(w, v.push(out)),
        t,
    ) by {
        let s = cek(w.push(TaskV::Eval(e, env)), v);
        let k = if apart {
            TaskV::Run(x, env)
        } else {
            TaskV::Eval(x, env)
        };
        let ts = seq![TaskV::Apply(f), k];
        lemma_planned(w, v, e, env, t, ts);
        let w1 = w.push(TaskV::Apply(f));
        assert(w + ts =~= w1.push(k));
        let s1 = cek(w1, v.push(rs));
        if apart {
            lemma_moves_run(w1, v, x, env, t, rs);
        } else {
            assert(moves(cek(w1.push(TaskV::Eval(x, env)), v), t, s1, t));
        }
        lemma_moves_join(s, t, cek(w1.push(k), v), t, s1, t);
        lemma_resumed(w, v, f, seq![rs], t);
        assert(v + seq![rs] =~= v.push(rs));
        let w2 = w.push(TaskV::Apply(g));
        let us = seq![TaskV::Apply(g)] + turns_of(bs);
        assert(branch_tasks(g, bs)->Tasks_0 =~= us);
        assert(w + us =~= w2 + turns_of(bs));
        lemma_moves_join(s, t, s1, t, cek(w + us, v), t);
        lemma_turns(w2, v, bs, t, rss, room);
        lemma_moves_join(s, t, cek(w + us, v), t, cek(w2, v + rss), t);
        lemma_resumed(w, v, g, rss, t);
        lemma_moves_join(s, t, cek(w2, v + rss), t, cek(w, v.push(out)), t);
    }
}

/// The atoms of plain results without variables.
pub proof fn lemma_plain_atoms(vs: Seq<AtomV>)
    requires
        all_ground(vs),
    ensures
        result_atoms(plain_results(vs)) == vs,
        raw_atoms(plain_results(vs)) == vs,
{
    let rs = plain_results(vs);
    assert forall|i: int| 0 <= i < vs.len() implies #[trigger] result_atoms(rs)[i] == vs[i] by {
        lemma_ground_same(vs[i]);
        substitution_of_ground(vs[i], EnvV::Empty);
    }
    assert(result_atoms(rs) =~= vs);
    assert(raw_atoms(rs) =~= vs);
}

/// The branches of a condition for its results, in their order: the first one for
/// each result that counts as true, with what it binds, and the second one for
/// each other result.
pub open spec fn branches_for(rs: ResultV, x: ExprV, y: ExprV, env: EnvV) -> Seq<(ExprV, EnvV)> {
    Seq::new(
        rs.len(),
        |i: int|
            if counts_as_true(rs[i].0) {
                (x, linked(rs[i].1, env))
            } else {
                (y, env)
            },
    )
}

proof fn lemma_branches_for(rs: ResultV, x: ExprV, y: ExprV, env: EnvV)
    ensures
        if_branches(rs, x, Some(y), env) == branches_for(rs, x, y, env),
    decreases rs.len(),
{
    if rs.len() > 0 {
        let f = rs.drop_last();
        lemma_branches_for(f, x, y, env);
        conditions_are_truth(rs.last().0);
        assert(branches_for(rs, x, y, env) =~= branches_for(f, x, y, env).push(
            branches_for(rs, x, y, env).last(),
        ));
    } else {
        assert(branches_for(rs, x, y, env) =~= Seq::<(ExprV, EnvV)>::empty());
    }
}

/// Plain results for lists of values.
pub open spec fn plain_sets(vss: Seq<Seq<AtomV>>) -> Seq<ResultV> {
    Seq::new(vss.len(), |i: int| plain_results(vss[i]))
}

proof fn lemma_plain_sets(vss: Seq<Seq<AtomV>>)
    requires
        forall|i: int| 0 <= i < vss.len() ==> all_ground(#[trigger] vss[i]),
    ensures
        crate::eval::machine::apply::all_values(plain_sets(vss)) == vss.flatten(),
    decreases vss.len(),
{
    vss.lemma_flatten_and_flatten_alt_are_equivalent();
    if vss.len() > 0 {
        let f = vss.drop_last();
        assert forall|i: int| 0 <= i < f.len() implies all_ground(#[trigger] f[i]) by {
            assert(f[i] == vss[i]);
        }
        lemma_plain_sets(f);
        f.lemma_flatten_and_flatten_alt_are_equivalent();
        assert(plain_sets(vss).drop_last() =~= plain_sets(f));
        assert(all_ground(vss[vss.len() - 1]));
        lemma_plain_atoms(vss.last());
    }
}

/// `(if c x y)` has the values of `x` for each result of `c` that counts as true,
/// and the values of `y` for each other one, in their order.
pub proof fn conditions_are_decided(
    c: ExprV,
    x: ExprV,
    y: ExprV,
    env: EnvV,
    t: TableV,
    rs: ResultV,
    vss: Seq<Seq<AtomV>>,
    room: nat,
)
    requires
        comes_to(c, env, t, rs),
        all_yield(branches_for(rs, x, y, env), t, plain_sets(vss), room),
        forall|i: int| 0 <= i < vss.len() ==> all_ground(#[trigger] vss[i]),
        !has_bindings(rs) || vss.flatten().len() <= 1,
    ensures
        yields(
            form("if"@, seq![c, x, y]),
            env,
            t,
            plain_results(vss.flatten()),
            room + rs.len() + 2,
        ),
{
    core_names_are_bound();
    lemma_form("if"@, seq![c, x, y], env, t);
    let bs = branches_for(rs, x, y, env);
    lemma_branches_for(rs, x, y, env);
    lemma_plain_sets(vss);
    lemma_selects(
        form("if"@, seq![c, x, y]),
        env,
        t,
        ContV::IfBranch(x, Some(y), env),
        c,
        true,
        rs,
        ContV::IfGather(has_bindings(rs), bs.len()),
        bs,
        plain_sets(vss),
        plain_results(vss.flatten()),
        room,
    );
}

/// Whether a clause of a `case` fits a value, with a body and an environment: the
/// name `$else` fits all values, and a pattern fits those that it matches.
pub open spec fn fits(c: ExprV, a: AtomV, env: EnvV, x: ExprV, e: EnvV) -> bool {
    c is List && c->List_0.len() == 2 && c->List_0[1] == x && c->List_0[0] != ExprV::Symbol(
        "Empty"@,
    ) && if c->List_0[0] == ExprV::Symbol("$else"@) {
        e == env
    } else {
        match_one(c->List_0[0], a, EnvV::Empty, Seq::empty()) matches MatchV::Yes(m) && e
            == linked(m, env)
    }
}

/// Whether a clause of a `case` is passed over for a value.
pub open spec fn is_passed(c: ExprV, a: AtomV) -> bool {
    c is List && c->List_0.len() == 2 && (c->List_0[0] == ExprV::Symbol("Empty"@) || (
    c->List_0[0] != ExprV::Symbol("$else"@) && match_one(
        c->List_0[0],
        a,
        EnvV::Empty,
        Seq::empty(),
    ) is No))
}

/// Whether the first clause of a `case` that fits a value has a body and an
/// environment.
pub open spec fn first_fits(cs: Seq<ExprV>, a: AtomV, env: EnvV, x: ExprV, e: EnvV) -> bool {
    exists|j: int|
        0 <= j < cs.len() && fits(#[trigger] cs[j], a, env, x, e) && forall|i: int|
            0 <= i < j ==> is_passed(#[trigger] cs[i], a)
}

proof fn lemma_clause_for(
    cs: Seq<ExprV>,
    i: nat,
    j: int,
    a: AtomV,
    env: EnvV,
    x: ExprV,
    e: EnvV,
)
    requires
        i <= j < cs.len(),
        fits(cs[j], a, env, x, e),
        forall|k: int| 0 <= k < j ==> is_passed(#[trigger] cs[k], a),
    ensures
        clause_for(cs, i, a, env, Seq::empty()) == crate::eval::machine::apply::ClauseV::Body(x, e),
    decreases j - i,
{
    reveal_strlit("Empty");
    reveal_strlit("$else");
    assert("Empty"@[0] == 'E' && "$else"@[0] == '$');
    if i < j {
        assert(is_passed(cs[i as int], a));
        lemma_clause_for(cs, i + 1, j, a, env, x, e);
    }
}

proof fn lemma_case_branches(
    cs: Seq<ExprV>,
    vs: Seq<AtomV>,
    env: EnvV,
    bs: Seq<(ExprV, EnvV)>,
)
    requires
        bs.len() == vs.len(),
        forall|k: int|
            0 <= k < vs.len() ==> first_fits(cs, #[trigger] vs[k], env, bs[k].0, bs[k].1),
    ensures
        case_branches(cs, plain_results(vs), env, Seq::empty()) == Ok::<
            Seq<(ExprV, EnvV)>,
            crate::eval::machine::apply::ClauseV,
        >(bs),
    decreases vs.len(),
{
    if vs.len() > 0 {
        let f = vs.drop_last();
        let g = bs.drop_last();
        assert forall|k: int| 0 <= k < f.len() implies first_fits(
            cs,
            #[trigger] f[k],
            env,
            g[k].0,
            g[k].1,
        ) by {
            assert(f[k] == vs[k]);
        }
        lemma_case_branches(cs, f, env, g);
        assert(plain_results(vs).drop_last() =~= plain_results(f));
        let a = vs[vs.len() - 1];
        let b = bs[bs.len() - 1];
        assert(first_fits(cs, a, env, b.0, b.1));
        let j = choose|j: int|
            0 <= j < cs.len() && fits(#[trigger] cs[j], a, env, b.0, b.1) && forall|i: int|
                0 <= i < j ==> is_passed(#[trigger] cs[i], a);
        lemma_clause_for(cs, 0, j, a, env, b.0, b.1);
        assert(g.push((b.0, b.1)) =~= bs);
    } else {
        assert(bs =~= Seq::<(ExprV, EnvV)>::empty());
    }
}

/// `case` without a value has the results of the body of the first clause named
/// `Empty`.
pub proof fn cases_without_values_take_the_empty_clause(
    x: ExprV,
    cs: Seq<ExprV>,
    env: EnvV,
    t: TableV,
    j: int,
    body: ExprV,
    rs: ResultV,
    room: nat,
)
    requires
        yields(x, env, t, Seq::empty(), room),
        0 <= j < cs.len(),
        cs[j] == ExprV::List(seq![ExprV::Symbol("Empty"@), body]),
        forall|i: int|
            0 <= i < j ==> !((#[trigger] cs[i]) is List && cs[i]->List_0.len() == 2
                && cs[i]->List_0[0] == ExprV::Symbol("Empty"@)),
        yields(body, env, t, rs, room),
    ensures
        yields(form("case"@, seq![x, ExprV::List(cs)]), env, t, rs, room + 2),
{
    core_names_are_bound();
    let e = form("case"@, seq![x, ExprV::List(cs)]);
    lemma_form("case"@, seq![x, ExprV::List(cs)], env, t);
    lemma_empty_clause(cs, 0, j, body);
    let f = ContV::CaseSelect(cs, env);
    let none: ResultV = Seq::empty();
    assert forall|w: Seq<TaskV>, v: Seq<ResultV>|
        #![trigger cek(w.push(TaskV::Eval(e, env)), v)]
        w.len() + v.len() + (room + 2) <= 2_000_000 implies moves(
        cek(w.push(TaskV::Eval(e, env)), v),
        t,
        cek(w, v.push(rs)),
        t,
    ) by {
        let s = cek(w.push(TaskV::Eval(e, env)), v);
        let ts = seq![TaskV::Apply(f), TaskV::Eval(x, env)];
        lemma_planned(w, v, e, env, t, ts);
        let w1 = w.push(TaskV::Apply(f));
        assert(w + ts =~= w1.push(TaskV::Eval(x, env)));
        assert(moves(cek(w1.push(TaskV::Eval(x, env)), v), t, cek(w1, v.push(none)), t));
        lemma_moves_join(s, t, cek(w + ts, v), t, cek(w1, v.push(none)), t);
        lemma_resumed(w, v, f, seq![none], t);
        assert(v + seq![none] =~= v.push(none));
        assert(w + seq![TaskV::Eval(body, env)] =~= w.push(TaskV::Eval(body, env)));
        lemma_moves_join(
            s,
            t,
            cek(w1, v.push(none)),
            t,
            cek(w.push(TaskV::Eval(body, env)), v),
            t,
        );
        lemma_moves_join(
            s,
            t,
            cek(w.push(TaskV::Eval(body, env)), v),
            t,
            cek(w, v.push(rs)),
            t,
        );
    }
}

proof fn lemma_empty_clause(cs: Seq<ExprV>, i: nat, j: int, body: ExprV)
    requires
        i <= j < cs.len(),
        cs[j] == ExprV::List(seq![ExprV::Symbol("Empty"@), body]),
        forall|k: int|
            0 <= k < j ==> !((#[trigger] cs[k]) is List && cs[k]->List_0.len() == 2
                && cs[k]->List_0[0] == ExprV::Symbol("Empty"@)),
    ensures
        empty_clause(cs, i) == Some(body),
    decreases j - i,
{
    if i < j {
        lemma_empty_clause(cs, i + 1, j, body);
    }
}

/// `case` has, for each value in turn, the results of the body of the first clause
/// that fits it.
pub proof fn cases_take_the_first_clause_that_fits(
    x: ExprV,
    cs: Seq<ExprV>,
    env: EnvV,
    t: TableV,
    vs: Seq<AtomV>,
    bs: Seq<(ExprV, EnvV)>,
    rss: Seq<ResultV>,
    room: nat,
)
    requires
        vs.len() > 0,
        yields(x, env, t, plain_results(vs), room),
        bs.len() == vs.len(),
        forall|k: int|
            0 <= k < vs.len() ==> first_fits(cs, #[trigger] vs[k], env, bs[k].0, bs[k].1),
        all_yield(bs, t, rss, room),
        rss.flatten().len() <= 1_000_000,
    ensures
        yields(
            form("case"@, seq![x, ExprV::List(cs)]),
            env,
            t,
            rss.flatten(),
            room + vs.len() + 2,
        ),
{
    core_names_are_bound();
    let e = form("case"@, seq![x, ExprV::List(cs)]);
    lemma_form("case"@, seq![x, ExprV::List(cs)], env, t);
    lemma_case_branches(cs, vs, env, bs);
    lemma_joined(rss);
    lemma_selects(
        e,
        env,
        t,
        ContV::CaseSelect(cs, env),
        x,
        false,
        plain_results(vs),
        ContV::Gather(bs.len()),
        bs,
        rss,
        rss.flatten(),
        room,
    );
}

/// Whether environments bind the variables of a pattern to parts of values, one
/// environment for each value.
pub open spec fn are_bound(p: ExprV, vs: Seq<AtomV>, env: EnvV, es: Seq<EnvV>) -> bool {
    &&& vs.len() == es.len()
    &&& forall|k: int|
        0 <= k < vs.len() ==> match_one(p, #[trigger] vs[k], EnvV::Empty, Seq::empty())
            == MatchV::Yes(es[k]) && !shadows(es[k], env)
}

/// A body in several environments on top of one.
pub open spec fn body_in(body: ExprV, es: Seq<EnvV>, env: EnvV) -> Seq<(ExprV, EnvV)> {
    Seq::new(es.len(), |i: int| (body, linked(es[i], env)))
}

proof fn lemma_let_matches(label: Seq<char>, p: ExprV, vs: Seq<AtomV>, env: EnvV, es: Seq<EnvV>)
    requires
        are_bound(p, vs, env, es),
    ensures
        let_matches(label, p, plain_results(vs), env, Seq::empty()) == Ok::<
            (Seq<EnvV>, Seq<Seq<char>>),
            (ExprV, EnvV),
        >((Seq::new(es.len(), |i: int| linked(es[i], env)), Seq::empty())),
    decreases vs.len(),
{
    let all = Seq::new(es.len(), |i: int| linked(es[i], env));
    if vs.len() > 0 {
        let f = vs.drop_last();
        let g = es.drop_last();
        assert forall|k: int| 0 <= k < f.len() implies match_one(
            p,
            #[trigger] f[k],
            EnvV::Empty,
            Seq::empty(),
        ) == MatchV::Yes(g[k]) && !shadows(g[k], env) by {
            assert(f[k] == vs[k]);
        }
        lemma_let_matches(label, p, f, env, g);
        assert(plain_results(vs).drop_last() =~= plain_results(f));
        let a = vs[vs.len() - 1];
        assert(match_one(p, a, EnvV::Empty, Seq::empty()) == MatchV::Yes(es[es.len() - 1]));
        assert(Seq::new(g.len(), |i: int| linked(g[i], env)).push(linked(es.last(), env)) =~= all);
    } else {
        assert(all =~= Seq::<EnvV>::empty());
    }
}

/// `(let p x body)` has, for each value of `x` in turn, the results of the body
/// with the variables of the pattern bound as the value matches it.
pub proof fn bodies_see_what_let_binds(
    p: ExprV,
    x: ExprV,
    body: ExprV,
    env: EnvV,
    t: TableV,
    vs: Seq<AtomV>,
    es: Seq<EnvV>,
    rss: Seq<ResultV>,
    room: nat,
)
    requires
        vs.len() > 0,
        yields(x, env, t, plain_results(vs), room),
        are_bound(p, vs, env, es),
        all_yield(body_in(body, es, env), t, rss, room),
        rss.flatten().len() <= 1_000_000,
    ensures
        yields(
            form("let"@, seq![p, x, body]),
            env,
            t,
            rss.flatten(),
            room + vs.len() + 2,
        ),
{
    core_names_are_bound();
    let e = form("let"@, seq![p, x, body]);
    lemma_form("let"@, seq![p, x, body], env, t);
    lemma_let_matches("let"@, p, vs, env, es);
    lemma_joined(rss);
    let bs = body_in(body, es, env);
    let all = Seq::new(es.len(), |i: int| linked(es[i], env));
    assert(Seq::new(all.len(), |i: int| (body, all[i])) =~= bs);
    lemma_selects(
        e,
        env,
        t,
        ContV::LetMatch(p, body, env),
        x,
        false,
        plain_results(vs),
        ContV::Gather(bs.len()),
        bs,
        rss,
        rss.flatten(),
        room,
    );
}

} // verus!
