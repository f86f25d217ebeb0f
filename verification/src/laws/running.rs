//! Runs of the machines: from one state to another, and from an expression to
//! its values.
use crate::atom::AtomV;
use crate::env::EnvV;
use crate::eval::machine::budget::ResultV;
use crate::eval::machine::budget::result_atoms;
use crate::eval::machine::evaluator::EvaluatorV;
use crate::eval::machine::evaluator::EventV;
use crate::eval::machine::evaluator::LevelV;
use crate::eval::machine::evaluator::MachineV;
use crate::eval::machine::evaluator::absorbed;
use crate::eval::machine::evaluator::begun;
use crate::eval::machine::evaluator::drive;
use crate::eval::machine::evaluator::machine_moved;
use crate::eval::machine::evaluator::of_vm;
use crate::eval::machine::evaluator::opened;
use crate::eval::machine::evaluator::stepping;
use crate::eval::machine::vm::outcome::ExitV;
use crate::eval::machine::vm::outcome::StepV;
use crate::eval::machine::vm::outcome::VmOutV;
use crate::eval::machine::vm::resume::delivered;
use crate::eval::machine::vm::run::stepped;
use crate::eval::machine::vm::state::VmV;
use crate::eval::runtime::EndingV;
use crate::eval::runtime::EvaluationV;
use crate::eval::runtime::evaluation;
use crate::eval::runtime::finished_for;
use crate::expr::ExprV;
use crate::func::TableV;
use vstd::prelude::*;

verus! {

/// Whether a number of quiet steps leads from one state of evaluation to
/// another.
pub open spec fn leads(e: EvaluatorV, t: TableV, n: nat, e2: EvaluatorV, t2: TableV) -> bool
    decreases n,
{
    if n == 0 {
        e == e2 && t == t2
    } else {
        let (out, lines, e1, t1) = drive(e, t);
        out is Next && lines.len() == 0 && leads(e1, t1, (n - 1) as nat, e2, t2)
    }
}

/// Whether quiet steps lead from one state of evaluation to another.
pub open spec fn reaches(e: EvaluatorV, t: TableV, e2: EvaluatorV, t2: TableV) -> bool {
    exists|n: nat| #[trigger] leads(e, t, n, e2, t2)
}

/// Evaluation with a bytecode machine on top.
pub open spec fn on_top(below: Seq<LevelV>, l: LevelV, s: VmV) -> EvaluatorV {
    stepping(below.push(LevelV { machine: MachineV::Vm(s), ..l }))
}

/// Whether a bytecode machine gets from one state to another, whatever lies
/// below it.
pub open spec fn gets(s: VmV, t: TableV, s2: VmV, t2: TableV) -> bool {
    forall|below: Seq<LevelV>, l: LevelV|
        #![trigger on_top(below, l, s)]
        reaches(on_top(below, l, s), t, on_top(below, l, s2), t2)
}

/// A step of a bytecode machine.
#[verifier::opaque]
pub open spec fn makes(s: VmV, t: TableV) -> StepV {
    stepped(s, t)
}

/// What a bytecode machine does with results.
#[verifier::opaque]
pub open spec fn takes(s: VmV, t: TableV, rs: ResultV, b: Option<i64>) -> StepV {
    delivered(s, t, rs, b, ExitV::Normal)
}

/// A step with a bytecode machine on top.
pub proof fn lemma_drive(below: Seq<LevelV>, l: LevelV, s: VmV, t: TableV)
    ensures
        drive(on_top(below, l, s), t) == absorbed(
            below,
            LevelV { machine: MachineV::Vm(s), ..l },
            of_vm(makes(s, t)),
        ),
{
    reveal(makes);
    reveal(machine_moved);
    let top = LevelV { machine: MachineV::Vm(s), ..l };
    let e = on_top(below, l, s);
    assert(e.levels == below.push(top));
    assert(e.levels.drop_last() =~= below);
    assert(e.levels.last() == top);
    let x = machine_moved(top.machine, EventV::Step, t);
    let y = stepped(s, t);
    assert(makes(s, t) == y);
    assert(x == of_vm(y));
    assert(drive(e, t) == absorbed(below, top, x));
}

/// Results with a bytecode machine on top.
proof fn lemma_drive_results(
    below: Seq<LevelV>,
    l: LevelV,
    s: VmV,
    t: TableV,
    rs: ResultV,
    b: Option<i64>,
)
    ensures
        ({
            let top = LevelV { machine: MachineV::Vm(s), ..l };
            drive(
                EvaluatorV {
                    levels: below.push(top),
                    event: EventV::Deliver(rs, b, ExitV::Normal),
                },
                t,
            ) == absorbed(below, top, of_vm(takes(s, t, rs, b)))
        }),
{
    reveal(takes);
    reveal(machine_moved);
    let top = LevelV { machine: MachineV::Vm(s), ..l };
    let e = EvaluatorV {
        levels: below.push(top),
        event: EventV::Deliver(rs, b, ExitV::Normal),
    };
    assert(e.levels.drop_last() =~= below);
    assert(e.levels.last() == top);
    let x = machine_moved(top.machine, e.event, t);
    let y = delivered(s, t, rs, b, ExitV::Normal);
    assert(takes(s, t, rs, b) == y);
    assert(x == of_vm(y));
    assert(drive(e, t) == absorbed(below, top, x));
}

/// Whether a bytecode machine ends with results.
pub open spec fn finishes(s: VmV, t: TableV, rs: ResultV, b: Option<i64>, t2: TableV) -> bool {
    exists|s1: VmV, t1: TableV| #[trigger]
        gets(s, t, s1, t1) && makes(s1, t1).0 == VmOutV::Done(rs, b, ExitV::Normal) && makes(
            s1,
            t1,
        ).2 == t2
}

/// Steps after steps.
pub proof fn lemma_leads_join(
    e: EvaluatorV,
    t: TableV,
    n: nat,
    e1: EvaluatorV,
    t1: TableV,
    m: nat,
    e2: EvaluatorV,
    t2: TableV,
)
    requires
        leads(e, t, n, e1, t1),
        leads(e1, t1, m, e2, t2),
    ensures
        leads(e, t, n + m, e2, t2),
    decreases n,
{
    if n > 0 {
        let d = drive(e, t);
        lemma_leads_join(d.2, d.3, (n - 1) as nat, e1, t1, m, e2, t2);
    }
}

/// Runs after runs.
pub proof fn lemma_reaches_join(
    e: EvaluatorV,
    t: TableV,
    e1: EvaluatorV,
    t1: TableV,
    e2: EvaluatorV,
    t2: TableV,
)
    requires
        reaches(e, t, e1, t1),
        reaches(e1, t1, e2, t2),
    ensures
        reaches(e, t, e2, t2),
{
    let n = choose|n: nat| #[trigger] leads(e, t, n, e1, t1);
    let m = choose|m: nat| #[trigger] leads(e1, t1, m, e2, t2);
    lemma_leads_join(e, t, n, e1, t1, m, e2, t2);
}

/// One quiet step.
pub proof fn lemma_reaches_step(e: EvaluatorV, t: TableV, e2: EvaluatorV, t2: TableV)
    requires
        drive(e, t).0 is Next,
        drive(e, t).1.len() == 0,
        drive(e, t).2 == e2,
        drive(e, t).3 == t2,
    ensures
        reaches(e, t, e2, t2),
{
    assert(leads(e2, t2, 0, e2, t2));
    assert(leads(e, t, 1, e2, t2));
}

/// A machine is where it is.
pub proof fn lemma_gets_here(s: VmV, t: TableV)
    ensures
        gets(s, t, s, t),
{
    assert forall|below: Seq<LevelV>, l: LevelV|
        #![trigger on_top(below, l, s)]
        reaches(on_top(below, l, s), t, on_top(below, l, s), t) by {
        assert(leads(on_top(below, l, s), t, 0, on_top(below, l, s), t));
    }
}

/// A machine that makes a step gets to where the step leads.
pub proof fn lemma_gets_step(s: VmV, t: TableV, s2: VmV, t2: TableV)
    requires
        makes(s, t) == (VmOutV::Next, s2, t2),
    ensures
        gets(s, t, s2, t2),
{
    assert forall|below: Seq<LevelV>, l: LevelV|
        #![trigger on_top(below, l, s)]
        reaches(on_top(below, l, s), t, on_top(below, l, s2), t2) by {
        let e = on_top(below, l, s);
        lemma_drive(below, l, s, t);
        lemma_reaches_step(e, t, on_top(below, l, s2), t2);
    }
}

/// A machine goes on from where it got.
pub proof fn lemma_gets_join(s: VmV, t: TableV, s1: VmV, t1: TableV, s2: VmV, t2: TableV)
    requires
        gets(s, t, s1, t1),
        gets(s1, t1, s2, t2),
    ensures
        gets(s, t, s2, t2),
{
    assert forall|below: Seq<LevelV>, l: LevelV|
        #![trigger on_top(below, l, s)]
        reaches(on_top(below, l, s), t, on_top(below, l, s2), t2) by {
        lemma_reaches_join(
            on_top(below, l, s),
            t,
            on_top(below, l, s1),
            t1,
            on_top(below, l, s2),
            t2,
        );
    }
}

/// A machine that makes a step and goes on from there.
pub proof fn lemma_step_then(s: VmV, t: TableV, s1: VmV, t1: TableV, s2: VmV, t2: TableV)
    requires
        makes(s, t) == (VmOutV::Next, s1, t1),
        gets(s1, t1, s2, t2),
    ensures
        gets(s, t, s2, t2),
{
    lemma_gets_step(s, t, s1, t1);
    lemma_gets_join(s, t, s1, t1, s2, t2);
}

/// A machine that lets another one run gets its results.
pub proof fn lemma_gets_sub(
    s: VmV,
    t: TableV,
    sub: VmV,
    m: Option<Seq<char>>,
    s1: VmV,
    t1: TableV,
    rs: ResultV,
    b: Option<i64>,
    t2: TableV,
    s2: VmV,
    t3: TableV,
)
    requires
        makes(s, t) == (VmOutV::Sub(sub, m), s1, t1),
        finishes(sub, t1, rs, b, t2),
        takes(s1, t2, rs, b) == (VmOutV::Next, s2, t3),
    ensures
        gets(s, t, s2, t3),
{
    let (f, tf) = choose|f: VmV, tf: TableV| #[trigger]
        gets(sub, t1, f, tf) && makes(f, tf).0 == VmOutV::Done(rs, b, ExitV::Normal) && makes(
            f,
            tf,
        ).2 == t2;
    assert forall|below: Seq<LevelV>, l: LevelV|
        #![trigger on_top(below, l, s)]
        reaches(on_top(below, l, s), t, on_top(below, l, s2), t3) by {
        let e = on_top(below, l, s);
        lemma_drive(below, l, s, t);
        let here = below.push(LevelV { machine: MachineV::Vm(s1), ..l });
        let k = LevelV { machine: MachineV::Vm(sub), mutex: m, ask: None };
        assert(on_top(here, k, sub) == stepping(here.push(k)));
        lemma_reaches_step(e, t, on_top(here, k, sub), t1);
        lemma_reaches_join(e, t, on_top(here, k, sub), t1, on_top(here, k, f), tf);
        let done = on_top(here, k, f);
        lemma_drive(here, k, f, tf);
        let got = EvaluatorV { levels: here, event: EventV::Deliver(rs, b, ExitV::Normal) };
        lemma_reaches_step(done, tf, got, t2);
        lemma_reaches_join(e, t, done, tf, got, t2);
        lemma_drive_results(below, l, s1, t2, rs, b);
        lemma_reaches_step(got, t2, on_top(below, l, s2), t3);
        lemma_reaches_join(e, t, got, t2, on_top(below, l, s2), t3);
    }
}

/// Steps that lead somewhere are steps of evaluation.
pub proof fn lemma_leads_evaluation(
    e: EvaluatorV,
    t: TableV,
    n: nat,
    e2: EvaluatorV,
    t2: TableV,
    lines: Seq<Seq<char>>,
    m: nat,
)
    requires
        leads(e, t, n, e2, t2),
    ensures
        finished_for(e, t, lines, n + m) == finished_for(e2, t2, lines, m),
    decreases n,
{
    if n > 0 {
        let d = drive(e, t);
        assert(lines + d.1 =~= lines);
        lemma_leads_evaluation(d.2, d.3, (n - 1) as nat, e2, t2, lines, m);
        assert((n + m - 1) as nat == (n - 1) as nat + m);
    }
}

/// Whether the evaluation of an expression ends quietly, with values and a
/// table.
pub open spec fn evaluates(
    x: ExprV,
    env: EnvV,
    budget: Option<i64>,
    t: TableV,
    vs: Seq<AtomV>,
    t2: TableV,
) -> bool {
    exists|n: nat| #[trigger]
        evaluation(x, env, budget, t, n) == (
            EvaluationV::Values(vs, budget),
            Seq::<Seq<char>>::empty(),
            t2,
        )
}

/// A machine that ends is an evaluation that ends.
pub proof fn lemma_finishes_evaluates(
    x: ExprV,
    env: EnvV,
    budget: Option<i64>,
    t: TableV,
    s: VmV,
    t1: TableV,
    rs: ResultV,
    t2: TableV,
)
    requires
        opened(x, env, budget, t) == (MachineV::Vm(s), t1),
        finishes(s, t1, rs, budget, t2),
    ensures
        evaluates(x, env, budget, t, result_atoms(rs), t2),
{
    let (f, tf) = choose|f: VmV, tf: TableV| #[trigger]
        gets(s, t1, f, tf) && makes(f, tf).0 == VmOutV::Done(rs, budget, ExitV::Normal)
            && makes(f, tf).2 == t2;
    let none: Seq<LevelV> = Seq::empty();
    let l = LevelV { machine: MachineV::Vm(s), mutex: None, ask: None };
    let e = on_top(none, l, s);
    assert(none.push(l) =~= seq![l]);
    assert(begun(x, env, budget, t) == (e, t1));
    assert(reaches(e, t1, on_top(none, l, f), tf));
    let n = choose|n: nat| #[trigger] leads(e, t1, n, on_top(none, l, f), tf);
    let lines: Seq<Seq<char>> = Seq::empty();
    lemma_leads_evaluation(e, t1, n, on_top(none, l, f), tf, lines, 1);
    let done = on_top(none, l, f);
    lemma_drive(none, l, f, tf);
    assert(lines + drive(done, tf).1 =~= lines);
    assert(finished_for(done, tf, lines, 1) == (
        EndingV::Done(rs, budget, ExitV::Normal),
        lines,
        t2,
    ));
    assert(evaluation(x, env, budget, t, n + 1) == (
        EvaluationV::Values(result_atoms(rs), budget),
        lines,
        t2,
    ));
}

} // verus!
