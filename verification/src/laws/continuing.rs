//! Runs of the continuation machine, and the values of its forms.
use crate::atom::AtomV;
use crate::env::EnvV;
use crate::eval::machine::budget::ResultV;
use crate::eval::machine::budget::raw_atoms;
use crate::eval::machine::budget::result_atoms;
use crate::eval::machine::dispatch::PlanV;
use crate::eval::machine::dispatch::expr_plan;
use crate::eval::machine::evaluator::EvaluatorV;
use crate::eval::machine::evaluator::EventV;
use crate::eval::machine::evaluator::LevelV;
use crate::eval::machine::evaluator::MachineV;
use crate::eval::machine::evaluator::absorbed;
use crate::eval::machine::evaluator::begun;
use crate::eval::machine::evaluator::drive;
use crate::eval::machine::evaluator::machine_moved;
use crate::eval::machine::evaluator::of_cek;
use crate::eval::machine::evaluator::opened;
use crate::eval::machine::evaluator::stepping;
use crate::eval::machine::frame::ContV;
use crate::eval::machine::resume::needs;
use crate::eval::machine::resume::resumed;
use crate::eval::machine::resumed::ResumedV;
use crate::eval::machine::step::CekOutV;
use crate::eval::machine::step::CekStepV;
use crate::eval::machine::step::CekV;
use crate::eval::machine::step::CekWaitV;
use crate::eval::machine::step::cek_delivered;
use crate::eval::machine::step::cek_start;
use crate::eval::machine::step::cek_stepped;
use crate::eval::machine::step::frame_applied;
use crate::eval::machine::step::popped_applied;
use crate::eval::machine::step::tail_work;
use crate::eval::machine::step::with_wait;
use crate::eval::machine::task::TaskV;
use crate::eval::machine::vm::compiler::compiled;
use crate::eval::machine::vm::iterate::alone;
use crate::eval::machine::vm::op::BlockV;
use crate::eval::machine::vm::outcome::ExitV;
use crate::eval::machine::vm::outcome::VmOutV;
use crate::eval::machine::vm::state::VmV;
use crate::eval::machine::vm::state::at_fresh;
use crate::eval::machine::vm::state::inherited;
use crate::eval::machine::vm::state::vm_start;
use crate::eval::runtime::EndingV;
use crate::eval::runtime::EvaluationV;
use crate::eval::runtime::evaluation;
use crate::eval::runtime::finished_for;
use crate::expr::ExprV;
use crate::func::TableV;
use crate::laws::meaning::ends_with;
use crate::laws::meaning::is_scope;
use crate::laws::meaning::lemma_started;
use crate::laws::meaning::means;
use crate::laws::running::evaluates;
use crate::laws::running::gets;
use crate::laws::running::leads;
use crate::laws::running::lemma_drive;
use crate::laws::running::lemma_leads_evaluation;
use crate::laws::running::lemma_reaches_join;
use crate::laws::running::lemma_reaches_step;
use crate::laws::running::makes;
use crate::laws::running::on_top;
use crate::laws::running::reaches;
use vstd::prelude::*;

verus! {

/// Evaluation with a continuation machine on top.
pub open spec fn above(below: Seq<LevelV>, l: LevelV, s: CekV) -> EvaluatorV {
    stepping(below.push(LevelV { machine: MachineV::Cek(s), ..l }))
}

/// Whether a continuation machine gets from one state to another, whatever lies
/// below it.
pub open spec fn moves(s: CekV, t: TableV, s2: CekV, t2: TableV) -> bool {
    forall|below: Seq<LevelV>, l: LevelV|
        #![trigger above(below, l, s)]
        reaches(above(below, l, s), t, above(below, l, s2), t2)
}

/// A step of a continuation machine.
#[verifier::opaque]
pub open spec fn turns(s: CekV, t: TableV) -> CekStepV {
    cek_stepped(s, t)
}

/// A continuation machine that is ready, with tasks and result sets.
pub open spec fn cek(work: Seq<TaskV>, vals: Seq<ResultV>) -> CekV {
    CekV { work, vals, budget: None, wait: CekWaitV::Ready, known: Seq::empty() }
}

/// Whether the evaluation of an expression in an environment, with room for so
/// many more tasks and result sets, leaves its results on the stack and nothing
/// else behind.
pub open spec fn yields(x: ExprV, env: EnvV, t: TableV, rs: ResultV, room: nat) -> bool {
    forall|w: Seq<TaskV>, v: Seq<ResultV>|
        #![trigger cek(w.push(TaskV::Eval(x, env)), v)]
        w.len() + v.len() + room <= 2_000_000 ==> moves(
            cek(w.push(TaskV::Eval(x, env)), v),
            t,
            cek(w, v.push(rs)),
            t,
        )
}

/// Whether the evaluation of an expression as one of its own comes to results.
pub open spec fn comes_to(x: ExprV, env: EnvV, t: TableV, rs: ResultV) -> bool {
    forall|here: Seq<LevelV>|
        #![trigger here.push(nested(x, env, t))]
        here.len() > 0 ==> reaches(
            stepping(here.push(nested(x, env, t))),
            opened(x, env, None, t).1,
            EvaluatorV { levels: here, event: EventV::Deliver(rs, None, ExitV::Normal) },
            t,
        )
}

/// Whether the evaluation of an expression as one of its own comes to values.
pub open spec fn has_values(x: ExprV, env: EnvV, t: TableV, vs: Seq<AtomV>) -> bool {
    exists|rs: ResultV| #[trigger] comes_to(x, env, t, rs) && raw_atoms(rs) == vs
}

/// The level of an expression that is evaluated as one of its own.
pub open spec fn nested(x: ExprV, env: EnvV, t: TableV) -> LevelV {
    LevelV { machine: opened(x, env, None, t).0, mutex: None, ask: None }
}

/// A step with a continuation machine on top.
proof fn lemma_drive_cek(below: Seq<LevelV>, l: LevelV, s: CekV, t: TableV)
    ensures
        drive(above(below, l, s), t) == absorbed(
            below,
            LevelV { machine: MachineV::Cek(s), ..l },
            of_cek(turns(s, t)),
        ),
{
    reveal(turns);
    reveal(machine_moved);
    let top = LevelV { machine: MachineV::Cek(s), ..l };
    let e = above(below, l, s);
    assert(e.levels.drop_last() =~= below);
    assert(e.levels.last() == top);
    let x = machine_moved(top.machine, EventV::Step, t);
    assert(x == of_cek(cek_stepped(s, t)));
    assert(drive(e, t) == absorbed(below, top, x));
}

/// A machine is where it is.
pub proof fn lemma_moves_here(s: CekV, t: TableV)
    ensures
        moves(s, t, s, t),
{
    assert forall|below: Seq<LevelV>, l: LevelV|
        #![trigger above(below, l, s)]
        reaches(above(below, l, s), t, above(below, l, s), t) by {
        assert(leads(above(below, l, s), t, 0, above(below, l, s), t));
    }
}

/// A machine that makes a step gets to where the step leads.
pub proof fn lemma_moves_step(s: CekV, t: TableV, s2: CekV, t2: TableV)
    requires
        turns(s, t) == (CekOutV::Next, Seq::<Seq<char>>::empty(), s2, t2),
    ensures
        moves(s, t, s2, t2),
{
    assert forall|below: Seq<LevelV>, l: LevelV|
        #![trigger above(below, l, s)]
        reaches(above(below, l, s), t, above(below, l, s2), t2) by {
        lemma_drive_cek(below, l, s, t);
        lemma_reaches_step(above(below, l, s), t, above(below, l, s2), t2);
    }
}

/// A machine goes on from where it got.
pub proof fn lemma_moves_join(s: CekV, t: TableV, s1: CekV, t1: TableV, s2: CekV, t2: TableV)
    requires
        moves(s, t, s1, t1),
        moves(s1, t1, s2, t2),
    ensures
        moves(s, t, s2, t2),
{
    assert forall|below: Seq<LevelV>, l: LevelV|
        #![trigger above(below, l, s)]
        reaches(above(below, l, s), t, above(below, l, s2), t2) by {
        lemma_reaches_join(
            above(below, l, s),
            t,
            above(below, l, s1),
            t1,
            above(below, l, s2),
            t2,
        );
    }
}

/// A task that is evaluated as one of its own leaves its results.
pub proof fn lemma_moves_run(
    w: Seq<TaskV>,
    v: Seq<ResultV>,
    x: ExprV,
    env: EnvV,
    t: TableV,
    rs: ResultV,
)
    requires
        comes_to(x, env, t, rs),
        w.len() + v.len() <= 2_000_000,
    ensures
        moves(cek(w.push(TaskV::Run(x, env)), v), t, cek(w, v.push(rs)), t),
{
    let s = cek(w.push(TaskV::Run(x, env)), v);
    let s1 = with_wait(cek(w, v), CekWaitV::Free);
    let s2 = cek(w, v.push(rs));
    assert(w.push(TaskV::Run(x, env)).drop_last() =~= w);
    let none: Seq<Seq<char>> = Seq::empty();
    assert(turns(s, t) == (CekOutV::Run(x, env, None, None), none, s1, t)) by {
        reveal(turns);
    }
    assert forall|below: Seq<LevelV>, l: LevelV|
        #![trigger above(below, l, s)]
        reaches(above(below, l, s), t, above(below, l, s2), t) by {
        lemma_drive_cek(below, l, s, t);
        let top = LevelV { machine: MachineV::Cek(s1), ..l };
        let here = below.push(top);
        let k = nested(x, env, t);
        let t1 = opened(x, env, None, t).1;
        lemma_reaches_step(above(below, l, s), t, stepping(here.push(k)), t1);
        let got = EvaluatorV { levels: here, event: EventV::Deliver(rs, None, ExitV::Normal) };
        lemma_reaches_join(above(below, l, s), t, stepping(here.push(k)), t1, got, t);
        assert(here.drop_last() =~= below);
        assert(here.last() == top);
        assert(drive(got, t) == absorbed(
            below,
            top,
            machine_moved(top.machine, got.event, t),
        ));
        assert(machine_moved(top.machine, got.event, t) == of_cek(
            cek_delivered(s1, t, rs, None),
        )) by {
            reveal(machine_moved);
        }
        assert(cek_delivered(s1, t, rs, None).2 == s2);
        lemma_reaches_step(got, t, above(below, l, s2), t);
        lemma_reaches_join(above(below, l, s), t, got, t, above(below, l, s2), t);
    }
}

/// An expression that is planned as tasks.
pub proof fn lemma_planned(
    w: Seq<TaskV>,
    v: Seq<ResultV>,
    x: ExprV,
    env: EnvV,
    t: TableV,
    ts: Seq<TaskV>,
)
    requires
        expr_plan(x, env, t) == PlanV::Tasks(ts),
        w.len() + v.len() <= 2_000_000,
    ensures
        moves(cek(w.push(TaskV::Eval(x, env)), v), t, cek(w + ts, v), t),
{
    let s = cek(w.push(TaskV::Eval(x, env)), v);
    assert(s.work.drop_last() =~= w);
    assert(turns(s, t) == (CekOutV::Next, Seq::<Seq<char>>::empty(), cek(w + ts, v), t)) by {
        reveal(turns);
    }
    lemma_moves_step(s, t, cek(w + ts, v), t);
}

/// An expression that has its results at once.
pub proof fn lemma_planned_value(x: ExprV, env: EnvV, t: TableV, rs: ResultV)
    requires
        expr_plan(x, env, t) == PlanV::Value(rs),
    ensures
        yields(x, env, t, rs, 0),
{
    assert forall|w: Seq<TaskV>, v: Seq<ResultV>|
        #![trigger cek(w.push(TaskV::Eval(x, env)), v)]
        w.len() + v.len() <= 2_000_000 implies moves(
        cek(w.push(TaskV::Eval(x, env)), v),
        t,
        cek(w, v.push(rs)),
        t,
    ) by {
        let s = cek(w.push(TaskV::Eval(x, env)), v);
        assert(s.work.drop_last() =~= w);
        assert(turns(s, t) == (
            CekOutV::Next,
            Seq::<Seq<char>>::empty(),
            cek(w, v.push(rs)),
            t,
        )) by {
            reveal(turns);
        }
        lemma_moves_step(s, t, cek(w, v.push(rs)), t);
    }
}

/// A frame that takes results and leaves others, or tasks.
pub proof fn lemma_resumed(
    w: Seq<TaskV>,
    v: Seq<ResultV>,
    f: ContV,
    sets: Seq<ResultV>,
    t: TableV,
)
    requires
        w.len() + v.len() + sets.len() <= 2_000_000,
        needs(f, v.len() + sets.len()) == sets.len(),
        resumed(f, sets, t, Seq::empty()).1 == Seq::<Seq<char>>::empty(),
        resumed(f, sets, t, Seq::empty()).2 == t,
    ensures
        match resumed(f, sets, t, Seq::empty()).0 {
            ResumedV::Value(r) => moves(
                cek(w.push(TaskV::Apply(f)), v + sets),
                t,
                cek(w, v.push(r)),
                t,
            ),
            ResumedV::Tasks(ts) => moves(
                cek(w.push(TaskV::Apply(f)), v + sets),
                t,
                cek(w + ts, v),
                t,
            ),
            ResumedV::Tail(x, e) => moves(
                cek(w.push(TaskV::Apply(f)), v + sets),
                t,
                cek(tail_work(w, x, e), v),
                t,
            ),
            ResumedV::Nothing => moves(
                cek(w.push(TaskV::Apply(f)), v + sets),
                t,
                cek(w, v),
                t,
            ),
            _ => true,
        },
{
    let s = cek(w.push(TaskV::Apply(f)), v + sets);
    assert(s.work.drop_last() =~= w);
    let all = v + sets;
    assert(all.take(all.len() - sets.len()) =~= v);
    assert(all.skip(all.len() - sets.len()) =~= sets);
    let rest = cek(w, all);
    assert(turns(s, t) == frame_applied(s, cek(w, v), t, f, sets)) by {
        reveal(turns);
        assert(turns(s, t) == popped_applied(s, rest, t, f));
    }
    match resumed(f, sets, t, Seq::empty()).0 {
        ResumedV::Value(r) => lemma_moves_step(s, t, cek(w, v.push(r)), t),
        ResumedV::Tasks(ts) => lemma_moves_step(s, t, cek(w + ts, v), t),
        ResumedV::Tail(x, e) => lemma_moves_step(s, t, cek(tail_work(w, x, e), v), t),
        ResumedV::Nothing => lemma_moves_step(s, t, cek(w, v), t),
        _ => {},
    }
}

/// The tasks that evaluate expressions in their order.
pub open spec fn turns_of(bs: Seq<(ExprV, EnvV)>) -> Seq<TaskV> {
    Seq::new(
        bs.len(),
        |i: int| TaskV::Eval(bs[bs.len() - 1 - i].0, bs[bs.len() - 1 - i].1),
    )
}

/// Whether each of several expressions has its results.
pub open spec fn all_yield(
    bs: Seq<(ExprV, EnvV)>,
    t: TableV,
    rss: Seq<ResultV>,
    room: nat,
) -> bool {
    &&& bs.len() == rss.len()
    &&& forall|i: int|
        0 <= i < bs.len() ==> yields((#[trigger] bs[i]).0, bs[i].1, t, rss[i], room)
}

/// Expressions that are evaluated in their order leave their results in that
/// order.
pub proof fn lemma_turns(
    w: Seq<TaskV>,
    v: Seq<ResultV>,
    bs: Seq<(ExprV, EnvV)>,
    t: TableV,
    rss: Seq<ResultV>,
    room: nat,
)
    requires
        all_yield(bs, t, rss, room),
        w.len() + v.len() + bs.len() + room <= 2_000_000,
    ensures
        moves(cek(w + turns_of(bs), v), t, cek(w, v + rss), t),
    decreases bs.len(),
{
    if bs.len() == 0 {
        assert(w + turns_of(bs) =~= w);
        assert(v + rss =~= v);
        lemma_moves_here(cek(w, v), t);
    } else {
        let cs = bs.skip(1);
        let qs = rss.skip(1);
        let w1 = w + turns_of(cs);
        let (x, e) = bs[0];
        assert(w + turns_of(bs) =~= w1.push(TaskV::Eval(x, e)));
        assert(yields(x, e, t, rss[0], room));
        assert(moves(cek(w1.push(TaskV::Eval(x, e)), v), t, cek(w1, v.push(rss[0])), t));
        assert forall|i: int| 0 <= i < cs.len() implies yields(
            (#[trigger] cs[i]).0,
            cs[i].1,
            t,
            qs[i],
            room,
        ) by {
            assert(cs[i] == bs[i + 1]);
        }
        lemma_turns(w, v.push(rss[0]), cs, t, qs, room);
        assert(v.push(rss[0]) + qs =~= v + rss);
        lemma_moves_join(
            cek(w + turns_of(bs), v),
            t,
            cek(w1, v.push(rss[0])),
            t,
            cek(w, v + rss),
            t,
        );
    }
}

/// What an expression has in the continuation machine is what its evaluation
/// gives, where that machine evaluates it.
pub proof fn results_are_evaluated(x: ExprV, env: EnvV, t: TableV, rs: ResultV, room: nat)
    requires
        compiled(x, alone(), false) is Err,
        yields(x, env, t, rs, room),
        room <= 2_000_000,
    ensures
        evaluates(x, env, None, t, result_atoms(rs), t),
        comes_to(x, env, t, rs),
{
    let none: Seq<TaskV> = Seq::empty();
    let empty: Seq<ResultV> = Seq::empty();
    let s = cek(none.push(TaskV::Eval(x, env)), empty);
    let f = cek(none, empty.push(rs));
    assert(cek_start(x, env, None).work =~= s.work);
    assert(cek_start(x, env, None).vals =~= s.vals);
    assert(moves(s, t, f, t));
    let quiet: Seq<Seq<char>> = Seq::empty();
    assert(turns(f, t) == (CekOutV::Done(rs, None), quiet, f, t)) by {
        reveal(turns);
    }
    let l = nested(x, env, t);
    assert(opened(x, env, None, t) == (MachineV::Cek(s), t));
    // On top of others.
    assert forall|here: Seq<LevelV>|
        #![trigger here.push(nested(x, env, t))]
        here.len() > 0 implies reaches(
        stepping(here.push(nested(x, env, t))),
        opened(x, env, None, t).1,
        EvaluatorV { levels: here, event: EventV::Deliver(rs, None, ExitV::Normal) },
        t,
    ) by {
        let got = EvaluatorV { levels: here, event: EventV::Deliver(rs, None, ExitV::Normal) };
        assert(stepping(here.push(l)) == above(here, l, s));
        lemma_drive_cek(here, l, f, t);
        lemma_reaches_step(above(here, l, f), t, got, t);
        lemma_reaches_join(above(here, l, s), t, above(here, l, f), t, got, t);
    }
    // Alone.
    let below: Seq<LevelV> = Seq::empty();
    let e = above(below, l, s);
    assert(below.push(l) =~= seq![l]);
    assert(begun(x, env, None, t) == (e, t));
    assert(reaches(e, t, above(below, l, f), t));
    let n = choose|n: nat| #[trigger] leads(e, t, n, above(below, l, f), t);
    lemma_leads_evaluation(e, t, n, above(below, l, f), t, quiet, 1);
    let done = above(below, l, f);
    lemma_drive_cek(below, l, f, t);
    assert(quiet + drive(done, t).1 =~= quiet);
    assert(finished_for(done, t, quiet, 1) == (
        EndingV::Done(rs, None, ExitV::Normal),
        quiet,
        t,
    ));
    assert(evaluation(x, env, None, t, n + 1) == (
        EvaluationV::Values(result_atoms(rs), None),
        quiet,
        t,
    ));
}

/// What an expression means is what it comes to as one of its own.
pub proof fn meanings_are_come_to(e: ExprV, t: TableV, vs: Seq<AtomV>, env: EnvV)
    requires
        means(e, t, vs),
    ensures
        has_values(e, env, t, vs),
{
    let c = alone();
    assert(c.locals =~= Seq::<Seq<char>>::empty());
    assert(is_scope(c, e, Seq::empty(), false));
    let k = compiled(e, c, false)->Ok_0;
    let s = vm_start(
        BlockV { code: k.0, free_vars: k.1 },
        Seq::empty(),
        inherited(k.1, Seq::empty(), Seq::empty(), t.fresh).0,
        None,
        env,
    );
    assert(raw_atoms(s.locals) =~= Seq::<AtomV>::empty());
    lemma_started(s, k.0, Seq::empty(), t, vs);
    let rs = choose|rs: ResultV| #[trigger] ends_with(s, t, rs) && raw_atoms(rs) == vs;
    assert(at_fresh(t, t.fresh) == t);
    assert(opened(e, env, None, t) == (MachineV::Vm(s), t));
    let (f, tf) = choose|f: VmV, tf: TableV| #[trigger]
        gets(s, t, f, tf) && makes(f, tf).0 == VmOutV::Done(rs, None, ExitV::Normal) && makes(
            f,
            tf,
        ).2 == t;
    let l = nested(e, env, t);
    assert forall|here: Seq<LevelV>|
        #![trigger here.push(nested(e, env, t))]
        here.len() > 0 implies reaches(
        stepping(here.push(nested(e, env, t))),
        opened(e, env, None, t).1,
        EvaluatorV { levels: here, event: EventV::Deliver(rs, None, ExitV::Normal) },
        t,
    ) by {
        let got = EvaluatorV { levels: here, event: EventV::Deliver(rs, None, ExitV::Normal) };
        assert(stepping(here.push(l)) == on_top(here, l, s));
        lemma_drive(here, l, f, tf);
        lemma_reaches_step(on_top(here, l, f), tf, got, t);
        lemma_reaches_join(on_top(here, l, s), t, on_top(here, l, f), tf, got, t);
    }
    assert(comes_to(e, env, t, rs));
}

/// Expressions in one environment.
pub open spec fn all_in(xs: Seq<ExprV>, env: EnvV) -> Seq<(ExprV, EnvV)> {
    Seq::new(xs.len(), |i: int| (xs[i], env))
}

} // verus!
