//! Public entrypoints for expression evaluation.
//!
//! This module defines the functions that evaluate expressions and return
//! their values. It provides the external interface to the evaluator without
//! exposing machine internals.
use crate::atom::Atom;
use crate::atom::AtomV;
use crate::atom::atoms;
use crate::env::Env;
use crate::env::EnvV;
use crate::eval::machine::budget::ResultSet;
use crate::eval::machine::budget::ResultV;
use crate::eval::machine::budget::atoms_of;
use crate::eval::machine::budget::result_atoms;
use crate::eval::machine::budget::results;
use crate::eval::machine::evaluator::DriveOut;
use crate::eval::machine::evaluator::DriveOutV;
use crate::eval::machine::evaluator::Evaluator;
use crate::eval::machine::evaluator::EvaluatorV;
use crate::eval::machine::evaluator::begun;
use crate::eval::machine::evaluator::drive;
use crate::eval::machine::evaluator::running;
use crate::eval::machine::vm::outcome::ExitV;
use crate::eval::machine::vm::outcome::HostCall;
use crate::eval::machine::vm::outcome::HostV;
use crate::eval::machine::vm::outcome::VmExit;
use crate::eval::machine::vm::state::VMState;
use crate::expr::Expr;
use crate::expr::ExprV;
use crate::func::FnTable;
use crate::func::TableV;
use crate::text::texts;
use vstd::prelude::*;

verus! {

/// What evaluation comes to.
pub enum Evaluation {
    /// The values, and what is left of the budget.
    Values(Vec<Atom>, Option<i64>),
    /// An error.
    Error(String),
    /// The host does something first; evaluation is suspended.
    Host(HostCall, Evaluator),
    /// The number of steps is made; evaluation is suspended.
    Unfinished(Evaluator),
}

/// The value of what evaluation comes to.
pub enum EvaluationV {
    /// The values, and what is left of the budget.
    Values(Seq<AtomV>, Option<i64>),
    /// An error.
    Error(Seq<char>),
    /// The host does something first.
    Host(HostV, EvaluatorV),
    /// The number of steps is made.
    Unfinished(EvaluatorV),
}

impl View for Evaluation {
    type V = EvaluationV;

    open spec fn view(&self) -> EvaluationV {
        match self {
            Evaluation::Values(vs, b) => EvaluationV::Values(atoms(vs@), *b),
            Evaluation::Error(m) => EvaluationV::Error(m@),
            Evaluation::Host(h, e) => EvaluationV::Host(h@, e@),
            Evaluation::Unfinished(e) => EvaluationV::Unfinished(e@),
        }
    }
}

/// How a run ends.
pub enum Ending {
    /// The results with their environments, what is left of the budget, and how
    /// the last machine was left.
    Done(ResultSet, Option<i64>, VmExit),
    /// An error.
    Error(String),
    /// The host does something first; the run is suspended.
    Host(HostCall, Evaluator),
    /// The number of steps is made; the run is suspended.
    Unfinished(Evaluator),
}

/// The value of how a run ends.
pub enum EndingV {
    /// The results, what is left of the budget, and how the machine was left.
    Done(ResultV, Option<i64>, ExitV),
    /// An error.
    Error(Seq<char>),
    /// The host does something first.
    Host(HostV, EvaluatorV),
    /// The number of steps is made.
    Unfinished(EvaluatorV),
}

impl View for Ending {
    type V = EndingV;

    open spec fn view(&self) -> EndingV {
        match self {
            Ending::Done(rs, b, x) => EndingV::Done(results(rs@), *b, x@),
            Ending::Error(m) => EndingV::Error(m@),
            Ending::Host(h, e) => EndingV::Host(h@, e@),
            Ending::Unfinished(e) => EndingV::Unfinished(e@),
        }
    }
}

/// Steps of a run, up to its end, a need of the host, or a number of steps: how
/// it ends, the lines that are printed, and the table that is left.
pub open spec fn finished_for(e: EvaluatorV, t: TableV, lines: Seq<Seq<char>>, fuel: nat) -> (
    EndingV,
    Seq<Seq<char>>,
    TableV,
)
    decreases fuel,
{
    if fuel == 0 {
        (EndingV::Unfinished(e), lines, t)
    } else {
        let (out, more, e2, t2) = drive(e, t);
        match out {
            DriveOutV::Next => finished_for(e2, t2, lines + more, (fuel - 1) as nat),
            DriveOutV::Done(rs, b, x) => (EndingV::Done(rs, b, x), lines + more, t2),
            DriveOutV::Fail(m) => (EndingV::Error(m), lines + more, t2),
            DriveOutV::Host(h) => (EndingV::Host(h, e2), lines + more, t2),
        }
    }
}

/// What the end of a run means for an evaluation.
pub open spec fn outcome_of(x: EndingV) -> EvaluationV {
    match x {
        EndingV::Done(rs, b, _) => EvaluationV::Values(result_atoms(rs), b),
        EndingV::Error(m) => EvaluationV::Error(m),
        EndingV::Host(h, e) => EvaluationV::Host(h, e),
        EndingV::Unfinished(e) => EvaluationV::Unfinished(e),
    }
}

/// Steps of evaluation, up to its end, a need of the host, or a number of steps:
/// what it comes to, the lines that are printed, and the table that is left.
pub open spec fn resumed_for(e: EvaluatorV, t: TableV, lines: Seq<Seq<char>>, fuel: nat) -> (
    EvaluationV,
    Seq<Seq<char>>,
    TableV,
) {
    let (x, printed, after) = finished_for(e, t, lines, fuel);
    (outcome_of(x), printed, after)
}

/// Run for a number of steps.
pub fn finish(evaluator: Evaluator, table: &mut FnTable, fuel: u64) -> (r: (Ending, Vec<String>))
    ensures
        (r.0@, texts(r.1@), final(table)@) == finished_for(
            evaluator@,
            old(table)@,
            Seq::empty(),
            fuel as nat,
        ),
{
    let ghost want = finished_for(evaluator@, table@, Seq::empty(), fuel as nat);
    let mut ev = evaluator;
    let mut lines: Vec<String> = Vec::new();
    let mut left: u64 = fuel;
    assert(texts(lines@) =~= Seq::<Seq<char>>::empty());
    while left > 0
        invariant
            want == finished_for(evaluator@, old(table)@, Seq::empty(), fuel as nat),
            want == finished_for(ev@, table@, texts(lines@), left as nat),
        decreases left,
    {
        let (out, more) = ev.step(table);
        let mut more = more;
        let ghost x = lines@;
        let ghost y = more@;
        lines.append(&mut more);
        assert(texts(lines@) =~= texts(x) + texts(y));
        match out {
            DriveOut::Next => {},
            DriveOut::Done(rs, b, x) => {
                return (Ending::Done(rs, b, x), lines);
            },
            DriveOut::Fail(m) => {
                return (Ending::Error(m), lines);
            },
            DriveOut::Host(h) => {
                return (Ending::Host(h, ev), lines);
            },
        }
        left = left - 1;
    }
    (Ending::Unfinished(ev), lines)
}

/// Take evaluation up again for a number of steps.
pub fn resume(evaluator: Evaluator, table: &mut FnTable, fuel: u64) -> (r: (
    Evaluation,
    Vec<String>,
))
    ensures
        (r.0@, texts(r.1@), final(table)@) == resumed_for(
            evaluator@,
            old(table)@,
            Seq::empty(),
            fuel as nat,
        ),
{
    let (x, lines) = finish(evaluator, table, fuel);
    let out = match x {
        Ending::Done(rs, b, _) => Evaluation::Values(atoms_of(&rs), b),
        Ending::Error(m) => Evaluation::Error(m),
        Ending::Host(h, e) => Evaluation::Host(h, e),
        Ending::Unfinished(e) => Evaluation::Unfinished(e),
    };
    (out, lines)
}

/// The evaluation of an expression for a number of steps.
pub open spec fn evaluation(
    x: ExprV,
    env: EnvV,
    budget: Option<i64>,
    t: TableV,
    fuel: nat,
) -> (EvaluationV, Seq<Seq<char>>, TableV) {
    let (e, t2) = begun(x, env, budget, t);
    resumed_for(e, t2, Seq::empty(), fuel)
}

/// Evaluate an expression to its values, for a number of steps.
pub fn run_as_ndet(expr: &Expr, env: &Env, funcs: &mut FnTable, fuel: u64) -> (r: (
    Evaluation,
    Vec<String>,
))
    ensures
        (r.0@, texts(r.1@), final(funcs)@) == evaluation(
            expr@,
            env@,
            None,
            old(funcs)@,
            fuel as nat,
        ),
{
    run_budgeted(expr, env, funcs, None, fuel)
}

/// Evaluate an expression with an optional reduction budget, for a number of
/// steps.
pub fn run_budgeted(
    expr: &Expr,
    env: &Env,
    funcs: &mut FnTable,
    budget: Option<i64>,
    fuel: u64,
) -> (r: (Evaluation, Vec<String>))
    ensures
        (r.0@, texts(r.1@), final(funcs)@) == evaluation(
            expr@,
            env@,
            budget,
            old(funcs)@,
            fuel as nat,
        ),
{
    let e = Evaluator::start(expr, env, budget, funcs);
    resume(e, funcs, fuel)
}

/// Run a bytecode machine, for a number of steps: the results with their
/// environments, what is left of the budget, and how the machine was left.
pub fn run_vm(state: VMState, funcs: &mut FnTable, fuel: u64) -> (r: (Ending, Vec<String>))
    ensures
        (r.0@, texts(r.1@), final(funcs)@) == finished_for(
            running(state@),
            old(funcs)@,
            Seq::empty(),
            fuel as nat,
        ),
{
    finish(Evaluator::of_machine(state), funcs, fuel)
}

/// Evaluate an expression, for a number of steps.
pub fn eval_scope(expr: &Expr, env: &Env, funcs: &mut FnTable, fuel: u64) -> (r: (
    Evaluation,
    Vec<String>,
))
    ensures
        (r.0@, texts(r.1@), final(funcs)@) == evaluation(
            expr@,
            env@,
            None,
            old(funcs)@,
            fuel as nat,
        ),
{
    run_as_ndet(expr, env, funcs, fuel)
}

/// Evaluate an expression with an optional reduction budget, for a number of
/// steps.
pub fn eval_with_state(
    expr: &Expr,
    env: &Env,
    funcs: &mut FnTable,
    cost_budget: Option<i64>,
    fuel: u64,
) -> (r: (Evaluation, Vec<String>))
    ensures
        (r.0@, texts(r.1@), final(funcs)@) == evaluation(
            expr@,
            env@,
            cost_budget,
            old(funcs)@,
            fuel as nat,
        ),
{
    run_budgeted(expr, env, funcs, cost_budget, fuel)
}

/// Evaluation that ends, or needs the host, does so in the same way when more
/// steps are allowed.
pub proof fn more_fuel_changes_nothing(
    e: EvaluatorV,
    t: TableV,
    lines: Seq<Seq<char>>,
    n: nat,
    m: nat,
)
    requires
        n <= m,
        !(resumed_for(e, t, lines, n).0 is Unfinished),
    ensures
        resumed_for(e, t, lines, m) == resumed_for(e, t, lines, n),
    decreases n,
{
    if n > 0 {
        let (out, more, e2, t2) = drive(e, t);
        if out is Next {
            more_fuel_changes_nothing(e2, t2, lines + more, (n - 1) as nat, (m - 1) as nat);
        }
    }
}

/// What was printed before stays in front of what is printed later.
pub proof fn printing_is_kept(e: EvaluatorV, t: TableV, lines: Seq<Seq<char>>, n: nat)
    ensures
        resumed_for(e, t, lines, n).0 == resumed_for(e, t, Seq::empty(), n).0,
        resumed_for(e, t, lines, n).1 == lines + resumed_for(e, t, Seq::empty(), n).1,
        resumed_for(e, t, lines, n).2 == resumed_for(e, t, Seq::empty(), n).2,
    decreases n,
{
    let none: Seq<Seq<char>> = Seq::empty();
    if n == 0 {
        assert(lines + none =~= lines);
    } else {
        let (out, more, e2, t2) = drive(e, t);
        assert(none + more =~= more);
        if out is Next {
            printing_is_kept(e2, t2, lines + more, (n - 1) as nat);
            printing_is_kept(e2, t2, more, (n - 1) as nat);
            let rest = resumed_for(e2, t2, none, (n - 1) as nat).1;
            assert((lines + more) + rest =~= lines + (more + rest));
        }
    }
}

/// Evaluation that is suspended after some steps and taken up again comes to the
/// same as evaluation at one go.
pub proof fn suspension_changes_nothing(
    e: EvaluatorV,
    t: TableV,
    lines: Seq<Seq<char>>,
    n: nat,
    m: nat,
)
    requires
        resumed_for(e, t, lines, n).0 is Unfinished,
    ensures
        resumed_for(e, t, lines, n + m) == resumed_for(
            resumed_for(e, t, lines, n).0->Unfinished_0,
            resumed_for(e, t, lines, n).2,
            resumed_for(e, t, lines, n).1,
            m,
        ),
    decreases n,
{
    if n > 0 {
        let (out, more, e2, t2) = drive(e, t);
        if out is Next {
            suspension_changes_nothing(e2, t2, lines + more, (n - 1) as nat, m);
            assert((n - 1) as nat + m == (n + m - 1) as nat);
        }
    } else {
        assert(n + m == m);
    }
}

} // verus!
