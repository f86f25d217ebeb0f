//! Stepping logic for machine execution.
//!
//! This module advances the evaluator by repeatedly dispatching expressions,
//! applying continuation frames, and executing direct state transitions.
use crate::atom::Atom;
use crate::atom::AtomV;
use crate::atom::atoms;
use crate::atom::group_atoms;
use crate::atom::symbol;
use crate::builtins::Answer;
use crate::builtins::AnswerV;
use crate::builtins::ListLoop;
use crate::builtins::LoopV;
use crate::builtins::call_builtin;
use crate::builtins::called;
use crate::builtins::loops::LoopsOut;
use crate::builtins::loops::LoopsOutV;
use crate::builtins::loops::feed_loops;
use crate::builtins::loops::first_of;
use crate::builtins::loops::loops;
use crate::builtins::loops::loops_fed;
use crate::builtins::loops::loops_stepped;
use crate::builtins::loops::step_loops;
use crate::env::Env;
use crate::env::EnvV;
use crate::eval::machine::apply::first_raw;
use crate::eval::machine::apply::take_first_raw;
use crate::eval::machine::budget::ResultSet;
use crate::eval::machine::budget::ResultV;
use crate::eval::machine::budget::plain;
use crate::eval::machine::budget::plain_results;
use crate::eval::machine::budget::result_sets;
use crate::eval::machine::budget::results;
use crate::eval::machine::budget::single;
use crate::eval::machine::dispatch::Plan;
use crate::eval::machine::dispatch::PlanV;
use crate::eval::machine::dispatch::dispatch_expr;
use crate::eval::machine::dispatch::expr_plan;
use crate::eval::machine::frame::ContV;
use crate::eval::machine::frame::Frame;
use crate::eval::machine::resume::apply_asking;
use crate::eval::machine::resume::apply_frame;
use crate::eval::machine::resume::find_needs;
use crate::eval::machine::resume::is_asking;
use crate::eval::machine::resume::needs;
use crate::eval::machine::resume::patterns_do_not_matter;
use crate::eval::machine::resume::resumed;
use crate::eval::machine::resumed::NativeCalls;
use crate::eval::machine::resumed::NativesV;
use crate::eval::machine::resumed::Resumed;
use crate::eval::machine::resumed::ResumedV;
use crate::eval::machine::resumed::one;
use crate::eval::machine::task::Task;
use crate::eval::machine::task::TaskV;
use crate::eval::machine::task::lemma_tasks_push;
use crate::eval::machine::task::tasks;
use crate::eval::machine::transition::Moved;
use crate::eval::machine::transition::MovedV;
use crate::eval::machine::transition::Transition;
use crate::eval::machine::transition::TransitionV;
use crate::eval::machine::transition::apply_transition;
use crate::eval::machine::transition::transitioned;
use crate::eval::machine::vm::bodies::snapshot_of;
use crate::eval::machine::vm::outcome::HostCall;
use crate::eval::machine::vm::outcome::HostV;
use crate::eval::machine::vm::plain::cut;
use crate::eval::machine::vm::plain::top;
use crate::eval::machine::vm::resume::restored;
use crate::eval::shared::pattern::KnownV;
use crate::eval::shared::pattern::PatternValue;
use crate::eval::shared::pattern::known_values;
use crate::eval::shared::pattern::optional_atom;
use crate::expr::Expr;
use crate::expr::ExprV;
use crate::func::FnTable;
use crate::func::Snapshot;
use crate::func::SnapshotV;
use crate::func::TableV;
use crate::text::joined3;
use crate::text::joined;
use crate::text::nat_digits;
use crate::text::no_lines;
use crate::text::optional_text;
use crate::text::same;
use crate::text::texts;
use crate::text::usize_text;
use vstd::prelude::*;

verus! {

/// What the machine waits for.
pub enum CekWait {
    /// Nothing: the next task can be done.
    Ready,
    /// The next call of a built-in function.
    Natives(NativeCalls),
    /// The values of a built-in function from the host.
    NativeHost(NativeCalls),
    /// The next turn of loops that compute the value of a built-in function.
    Loops(Vec<ListLoop>, NativeCalls),
    /// The value of a function that a loop calls, from the host.
    LoopHost(Vec<ListLoop>, NativeCalls),
    /// The value of a function that a loop calls.
    LoopRun(Vec<ListLoop>, NativeCalls),
    /// The results of an expression that is not paid for.
    Free,
    /// The results of an expression that is paid for.
    Paid,
    /// The results of a transaction.
    Transaction(Snapshot),
    /// Values from the host.
    Host,
}

/// The value of what the machine waits for.
pub enum CekWaitV {
    /// Nothing.
    Ready,
    /// The next call of a built-in function.
    Natives(NativesV),
    /// The values of a built-in function from the host.
    NativeHost(NativesV),
    /// The next turn of loops.
    Loops(Seq<LoopV>, NativesV),
    /// The value of a function that a loop calls, from the host.
    LoopHost(Seq<LoopV>, NativesV),
    /// The value of a function that a loop calls.
    LoopRun(Seq<LoopV>, NativesV),
    /// The results of an expression that is not paid for.
    Free,
    /// The results of an expression that is paid for.
    Paid,
    /// The results of a transaction.
    Transaction(SnapshotV),
    /// Values from the host.
    Host,
}

impl View for CekWait {
    type V = CekWaitV;

    open spec fn view(&self) -> CekWaitV {
        match self {
            CekWait::Ready => CekWaitV::Ready,
            CekWait::Natives(c) => CekWaitV::Natives(c@),
            CekWait::NativeHost(c) => CekWaitV::NativeHost(c@),
            CekWait::Loops(ls, c) => CekWaitV::Loops(loops(ls@), c@),
            CekWait::LoopHost(ls, c) => CekWaitV::LoopHost(loops(ls@), c@),
            CekWait::LoopRun(ls, c) => CekWaitV::LoopRun(loops(ls@), c@),
            CekWait::Free => CekWaitV::Free,
            CekWait::Paid => CekWaitV::Paid,
            CekWait::Transaction(s) => CekWaitV::Transaction(s@),
            CekWait::Host => CekWaitV::Host,
        }
    }
}

/// The state of the machine.
pub struct CekState {
    /// The tasks; the last one comes first.
    pub work: Vec<Task>,
    /// The results that frames wait for.
    pub vals: Vec<ResultSet>,
    /// What may still be spent.
    pub budget: Option<i64>,
    /// What the machine waits for.
    pub wait: CekWait,
    /// The values of patterns that were run as code.
    pub known: Vec<PatternValue>,
}

/// The value of a state.
#[verifier::ext_equal]
pub struct CekV {
    /// The tasks.
    pub work: Seq<TaskV>,
    /// The results that frames wait for.
    pub vals: Seq<ResultV>,
    /// What may still be spent.
    pub budget: Option<i64>,
    /// What the machine waits for.
    pub wait: CekWaitV,
    /// The values of patterns that were run as code.
    pub known: Seq<KnownV>,
}

impl View for CekState {
    type V = CekV;

    open spec fn view(&self) -> CekV {
        CekV {
            work: tasks(self.work@),
            vals: result_sets(self.vals@),
            budget: self.budget,
            wait: self.wait@,
            known: known_values(self.known@),
        }
    }
}

/// The outcome of a step.
pub enum CekOut {
    /// The machine goes on.
    Next,
    /// The machine is done: the results, and what is left of the budget.
    Done(ResultSet, Option<i64>),
    /// An error.
    Fail(String),
    /// The first value of a pattern is needed; the machine has not moved.
    Ask(Expr, Env),
    /// An expression is evaluated first, with a budget, while a named mutex is
    /// held.
    Run(Expr, Env, Option<i64>, Option<String>),
    /// The host does something first.
    Host(HostCall),
}

/// The value of the outcome of a step.
pub enum CekOutV {
    /// The machine goes on.
    Next,
    /// The machine is done.
    Done(ResultV, Option<i64>),
    /// An error.
    Fail(Seq<char>),
    /// The first value of a pattern is needed.
    Ask(ExprV, EnvV),
    /// An expression is evaluated first.
    Run(ExprV, EnvV, Option<i64>, Option<Seq<char>>),
    /// The host does something first.
    Host(HostV),
}

impl View for CekOut {
    type V = CekOutV;

    open spec fn view(&self) -> CekOutV {
        match self {
            CekOut::Next => CekOutV::Next,
            CekOut::Done(rs, b) => CekOutV::Done(results(rs@), *b),
            CekOut::Fail(m) => CekOutV::Fail(m@),
            CekOut::Ask(x, e) => CekOutV::Ask(x@, e@),
            CekOut::Run(x, e, b, m) => CekOutV::Run(x@, e@, *b, optional_text(*m)),
            CekOut::Host(h) => CekOutV::Host(h@),
        }
    }
}

/// The outcome of a step, the lines that are printed, and the state and the
/// table that are left.
pub type CekStepV = (CekOutV, Seq<Seq<char>>, CekV, TableV);

/// Whether two steps agree; the state does not matter once the machine ended.
pub open spec fn cek_agrees(x: CekStepV, y: CekStepV) -> bool {
    &&& x.0 == y.0
    &&& x.1 == y.1
    &&& x.3 == y.3
    &&& (y.0 is Fail || y.0 is Done || x.2 == y.2)
}

/// The state of a machine that evaluates an expression.
pub open spec fn cek_start(x: ExprV, env: EnvV, budget: Option<i64>) -> CekV {
    CekV {
        work: seq![TaskV::Eval(x, env)],
        vals: Seq::empty(),
        budget,
        wait: CekWaitV::Ready,
        known: Seq::empty(),
    }
}

impl CekState {
    /// A machine that evaluates an expression.
    pub fn start(x: Expr, env: Env, budget: Option<i64>) -> (r: CekState)
        ensures
            r@ == cek_start(x@, env@, budget),
    {
        let mut work: Vec<Task> = Vec::new();
        work.push(Task::Eval(x, env));
        let st = CekState {
            work,
            vals: Vec::new(),
            budget,
            wait: CekWait::Ready,
            known: Vec::new(),
        };
        assert(st@ =~= cek_start(x@, env@, budget));
        st
    }
}

/// The machine fails.
pub open spec fn cek_fails(s: CekV, t: TableV, m: Seq<char>) -> CekStepV {
    (CekOutV::Fail(m), Seq::empty(), s, t)
}

/// The machine goes on.
pub open spec fn cek_goes(s: CekV, t: TableV) -> CekStepV {
    (CekOutV::Next, Seq::empty(), s, t)
}

/// Fail without a line.
fn cek_failure(m: String) -> (r: (CekOut, Vec<String>))
    ensures
        r.0@ == CekOutV::Fail(m@),
        texts(r.1@) == Seq::<Seq<char>>::empty(),
{
    (CekOut::Fail(m), no_lines())
}

/// Whether a task collects the results of alternatives.
pub open spec fn is_gather(x: TaskV) -> bool {
    match x {
        TaskV::Apply(ContV::Gather(_)) => true,
        TaskV::Apply(ContV::IfGather(_, _)) => true,
        _ => false,
    }
}

/// The last task that collects the results of alternatives.
pub open spec fn last_gather(work: Seq<TaskV>) -> Option<nat>
    decreases work.len(),
{
    if work.len() == 0 {
        None
    } else if is_gather(work.last()) {
        Some((work.len() - 1) as nat)
    } else {
        last_gather(work.drop_last())
    }
}

/// A task that collects one result in place of several.
pub open spec fn gather_one(x: TaskV) -> TaskV {
    match x {
        TaskV::Apply(ContV::Gather(_)) => TaskV::Apply(ContV::Gather(1)),
        TaskV::Apply(ContV::IfGather(had, _)) => TaskV::Apply(ContV::IfGather(had, 1)),
        _ => x,
    }
}

/// The tasks after other alternatives are given up: those above the innermost
/// collecting task are dropped, save the last one, and it collects one result.
pub open spec fn pruned(work: Seq<TaskV>) -> Seq<TaskV> {
    match last_gather(work) {
        None => work,
        Some(g) => {
            let kept = if work.len() - 1 > g + 1 {
                work.take(g as int + 1).push(work.last())
            } else {
                work
            };
            kept.update(g as int, gather_one(kept[g as int]))
        },
    }
}

/// Where the last collecting task lies.
proof fn lemma_last_gather(work: Seq<TaskV>)
    ensures
        last_gather(work) matches Some(g) ==> g < work.len() && is_gather(work[g as int]),
    decreases work.len(),
{
    if work.len() > 0 && !is_gather(work.last()) {
        lemma_last_gather(work.drop_last());
    }
}

/// Find the last task that collects the results of alternatives.
fn find_last_gather(work: &Vec<Task>) -> (r: Option<usize>)
    ensures
        (match r {
            Some(g) => last_gather(tasks(work@)) == Some(g as nat) && g < work@.len() && is_gather(
                tasks(work@)[g as int],
            ),
            None => last_gather(tasks(work@)) is None,
        }),
{
    let ghost all = tasks(work@);
    let mut i: usize = work.len();
    assert(all.take(i as int) =~= all);
    while i > 0
        invariant
            i <= work@.len(),
            all == tasks(work@),
            last_gather(all.take(i as int)) == last_gather(all),
        decreases i,
    {
        assert(all.take(i as int).drop_last() =~= all.take(i - 1));
        assert(all.take(i as int).last() == work@[i - 1]@);
        let found: bool = match &work[i - 1] {
            Task::Apply(f) => match f {
                Frame::Gather(_) => true,
                Frame::IfGather(_, _) => true,
                _ => false,
            },
            _ => false,
        };
        if found {
            return Some(i - 1);
        }
        i = i - 1;
    }
    assert(all.take(0).len() == 0);
    None
}

/// Give up other alternatives.
fn prune(work: &mut Vec<Task>)
    ensures
        tasks(final(work)@) == pruned(tasks(old(work)@)),
{
    let ghost w = tasks(work@);
    let ghost wk = work@;
    match find_last_gather(work) {
        None => {},
        Some(g) => {
            let n: usize = work.len();
            if n - 1 > g + 1 {
                match work.pop() {
                    Some(top) => {
                        work.truncate(g + 1);
                        work.push(top);
                        assert(tasks(work@) =~= w.take(g as int + 1).push(w.last()));
                    },
                    None => {},
                }
            }
            let ghost kept = tasks(work@);
            assert(kept[g as int] == w[g as int]);
            let one: Task = match &work[g] {
                Task::Apply(f) => match f {
                    Frame::IfGather(had, _) => Task::Apply(Frame::IfGather(*had, 1)),
                    _ => Task::Apply(Frame::Gather(1)),
                },
                _ => Task::Apply(Frame::Gather(1)),
            };
            assert(kept[g as int] == work@[g as int]@);
            assert(one@ == gather_one(kept[g as int]));
            let ghost before = work@;
            work.set(g, one);
            assert(tasks(work@) =~= kept.update(g as int, one@));
        },
    }
}

/// The tasks for an expression in tail position: a collecting task of one
/// result under an environment to merge has nothing to do.
pub open spec fn tail_work(work: Seq<TaskV>, x: ExprV, env: EnvV) -> Seq<TaskV> {
    let n = work.len();
    if n >= 2 && work[n - 1] is Apply && work[n - 1]->Apply_0 is MergeEnv && work[n - 2]
        == TaskV::Apply(ContV::Gather(1)) {
        work.take(n - 2).push(work[n - 1]).push(TaskV::Eval(x, env))
    } else {
        work.push(TaskV::Eval(x, env))
    }
}

/// Add the task for an expression in tail position.
fn push_tail(work: &mut Vec<Task>, x: Expr, env: Env)
    ensures
        tasks(final(work)@) == tail_work(tasks(old(work)@), x@, env@),
{
    broadcast use lemma_tasks_push;

    let ghost w = tasks(work@);
    let n: usize = work.len();
    assert(w.len() == n);
    if n >= 2 {
        assert(w[n - 1] == work@[n - 1]@ && w[n - 2] == work@[n - 2]@);
        let merging: bool = match &work[n - 1] {
            Task::Apply(f) => match f {
                Frame::MergeEnv(_) => true,
                _ => false,
            },
            _ => false,
        };
        let single: bool = match &work[n - 2] {
            Task::Apply(f) => match f {
                Frame::Gather(k) => *k == 1,
                _ => false,
            },
            _ => false,
        };
        if merging && single {
            let _ = work.remove(n - 2);
            assert(tasks(work@) =~= w.take(n - 2).push(w[n - 1]));
        }
    }
    work.push(Task::Eval(x, env));
}

/// The complaint about too much pending work.
pub open spec fn overflow_text(work: nat, vals: nat) -> Seq<char> {
    "evaluation stack overflow: "@ + nat_digits(work) + " pending tasks, "@ + nat_digits(vals)
        + " result sets \u{2014} possible infinite recursion (hint: use direct tail recursion instead of `(range 0 inf)` style loops)"@
}

/// Say that there is too much pending work.
fn overflow(work: usize, vals: usize) -> (r: String)
    ensures
        r@ == overflow_text(work as nat, vals as nat),
{
    let w = usize_text(work);
    let v = usize_text(vals);
    let mut m: String = joined3("evaluation stack overflow: ", w.as_str(), " pending tasks, ");
    m.append(v.as_str());
    m.append(
        " result sets \u{2014} possible infinite recursion (hint: use direct tail recursion instead of `(range 0 inf)` style loops)",
    );
    m
}

/// The state with a result.
pub open spec fn with_result(s: CekV, r: ResultV) -> CekV {
    CekV { vals: s.vals.push(r), wait: CekWaitV::Ready, known: Seq::empty(), ..s }
}

/// Add a result.
fn add_result(st: &mut CekState, rs: ResultSet)
    ensures
        final(st)@ == with_result(old(st)@, results(rs@)),
{
    let ghost s = st@;
    let ghost v = st.vals@;
    st.vals.push(rs);
    st.wait = CekWait::Ready;
    st.known = Vec::new();
    assert(result_sets(st.vals@) =~= result_sets(v).push(results(rs@)));
    assert(st@ =~= with_result(s, results(rs@)));
}

/// The state that waits.
pub open spec fn with_wait(s: CekV, w: CekWaitV) -> CekV {
    CekV { wait: w, known: Seq::empty(), ..s }
}

/// Let the machine wait.
fn set_wait(st: &mut CekState, w: CekWait)
    ensures
        final(st)@ == with_wait(old(st)@, w@),
{
    let ghost s = st@;
    st.wait = w;
    st.known = Vec::new();
    assert(st@ =~= with_wait(s, w@));
}

/// The state with more work.
pub open spec fn with_work(s: CekV, work: Seq<TaskV>) -> CekV {
    CekV { work, wait: CekWaitV::Ready, known: Seq::empty(), ..s }
}

/// Add work.
fn add_work(st: &mut CekState, more: Vec<Task>)
    ensures
        final(st)@ == with_work(old(st)@, old(st)@.work + tasks(more@)),
{
    let ghost s = st@;
    let ghost w = st.work@;
    let ghost m = more@;
    let mut more = more;
    st.work.append(&mut more);
    st.wait = CekWait::Ready;
    st.known = Vec::new();
    assert(tasks(st.work@) =~= tasks(w) + tasks(m));
    assert(st@ =~= with_work(s, s.work + tasks(m)));
}

/// Evaluating an expression.
pub open spec fn evaluated(s: CekV, t: TableV, x: ExprV, env: EnvV) -> CekStepV {
    match expr_plan(x, env, t) {
        PlanV::Value(r) => cek_goes(with_result(s, r), t),
        PlanV::Tasks(ts) => cek_goes(with_work(s, s.work + ts), t),
        PlanV::Cut => cek_goes(
            with_result(
                CekV { work: pruned(s.work), ..s },
                plain_results(seq![symbol("true"@)]),
            ),
            t,
        ),
        PlanV::Host(h) => (CekOutV::Host(h), Seq::empty(), with_wait(s, CekWaitV::Host), t),
        PlanV::Fail(m) => cek_fails(s, t, m),
    }
}

/// Evaluate an expression.
fn evaluate(st: &mut CekState, table: &FnTable, x: &Expr, env: &Env) -> (r: (CekOut, Vec<String>))
    ensures
        cek_agrees(
            (r.0@, texts(r.1@), final(st)@, table@),
            evaluated(old(st)@, table@, x@, env@),
        ),
{
    match dispatch_expr(x, env, table) {
        Plan::Value(rs) => {
            add_result(st, rs);
            (CekOut::Next, no_lines())
        },
        Plan::Tasks(ts) => {
            add_work(st, ts);
            (CekOut::Next, no_lines())
        },
        Plan::Cut => {
            let ghost s = st@;
            prune(&mut st.work);
            assert(st@ =~= (CekV { work: pruned(s.work), ..s }));
            add_result(st, single(Atom::sym("true")));
            (CekOut::Next, no_lines())
        },
        Plan::Host(h) => {
            set_wait(st, CekWait::Host);
            (CekOut::Host(h), no_lines())
        },
        Plan::Fail(m) => cek_failure(m),
    }
}

/// Resuming a frame: the state with the frame still pending, and the state
/// without it and the results that it takes.
pub open spec fn frame_applied(s: CekV, rest: CekV, t: TableV, f: ContV, sets: Seq<ResultV>) -> CekStepV {
    let (out, lines, after) = resumed(f, sets, t, s.known);
    match out {
        ResumedV::Value(r) => (CekOutV::Next, lines, with_result(rest, r), after),
        ResumedV::Nothing => (CekOutV::Next, lines, with_wait(rest, CekWaitV::Ready), after),
        ResumedV::Tasks(ts) => (CekOutV::Next, lines, with_work(rest, rest.work + ts), after),
        ResumedV::Tail(x, e) => (
            CekOutV::Next,
            lines,
            with_work(rest, tail_work(rest.work, x, e)),
            after,
        ),
        ResumedV::Natives(c) => (
            CekOutV::Next,
            lines,
            with_wait(rest, CekWaitV::Natives(c)),
            after,
        ),
        ResumedV::Host(h) => (CekOutV::Host(h), lines, with_wait(rest, CekWaitV::Host), after),
        ResumedV::Ask(x, e) => (CekOutV::Ask(x, e), lines, s, after),
        ResumedV::Fail(m) => (CekOutV::Fail(m), lines, rest, after),
    }
}

/// Go on after a frame was resumed, unless a pattern is needed.
fn go_on(st: &mut CekState, out: Resumed, lines: Vec<String>) -> (r: (CekOut, Vec<String>))
    requires
        !(out@ is Ask),
    ensures
        r.1 == lines,
        (match out@ {
            ResumedV::Value(v) => r.0@ is Next && final(st)@ == with_result(old(st)@, v),
            ResumedV::Nothing => r.0@ is Next && final(st)@ == with_wait(
                old(st)@,
                CekWaitV::Ready,
            ),
            ResumedV::Tasks(ts) => r.0@ is Next && final(st)@ == with_work(
                old(st)@,
                old(st)@.work + ts,
            ),
            ResumedV::Tail(x, e) => r.0@ is Next && final(st)@ == with_work(
                old(st)@,
                tail_work(old(st)@.work, x, e),
            ),
            ResumedV::Natives(c) => r.0@ is Next && final(st)@ == with_wait(
                old(st)@,
                CekWaitV::Natives(c),
            ),
            ResumedV::Host(h) => r.0@ == CekOutV::Host(h) && final(st)@ == with_wait(
                old(st)@,
                CekWaitV::Host,
            ),
            ResumedV::Ask(_, _) => true,
            ResumedV::Fail(m) => r.0@ == CekOutV::Fail(m),
        }),
{
    match out {
        Resumed::Value(rs) => {
            add_result(st, rs);
            (CekOut::Next, lines)
        },
        Resumed::Nothing => {
            set_wait(st, CekWait::Ready);
            (CekOut::Next, lines)
        },
        Resumed::Tasks(ts) => {
            add_work(st, ts);
            (CekOut::Next, lines)
        },
        Resumed::Tail(x, e) => {
            let ghost s = st@;
            push_tail(&mut st.work, x, e);
            assert(st@ =~= (CekV { work: tail_work(s.work, x@, e@), ..s }));
            set_wait(st, CekWait::Ready);
            assert(st@ =~= with_work(s, tail_work(s.work, x@, e@)));
            (CekOut::Next, lines)
        },
        Resumed::Natives(c) => {
            set_wait(st, CekWait::Natives(c));
            (CekOut::Next, lines)
        },
        Resumed::Host(h) => {
            set_wait(st, CekWait::Host);
            (CekOut::Host(h), lines)
        },
        Resumed::Ask(x, e) => (CekOut::Ask(x, e), lines),
        Resumed::Fail(m) => (CekOut::Fail(m), lines),
    }
}

/// Applying the frame of a task that was taken.
pub open spec fn popped_applied(s: CekV, rest: CekV, t: TableV, f: ContV) -> CekStepV {
    let have = rest.vals.len();
    let n = needs(f, have);
    if n > have {
        cek_fails(rest, t, "result stack underflow"@)
    } else {
        frame_applied(
            s,
            CekV { vals: rest.vals.take(have - n), ..rest },
            t,
            f,
            rest.vals.skip(have - n),
        )
    }
}

/// What a frame takes does not change when only that is there.
proof fn lemma_needs(f: ContV, have: nat)
    requires
        needs(f, have) <= have,
    ensures
        needs(f, needs(f, have)) == needs(f, have),
{
}

/// Apply the frame of a task that was taken.
fn apply_popped(st: &mut CekState, table: &mut FnTable, f: Frame) -> (r: (CekOut, Vec<String>))
    ensures
        cek_agrees(
            (r.0@, texts(r.1@), final(st)@, final(table)@),
            popped_applied(
                (CekV { work: old(st)@.work.push(TaskV::Apply(f@)), ..old(st)@ }),
                old(st)@,
                old(table)@,
                f@,
            ),
        ),
{
    broadcast use lemma_tasks_push;

    let ghost rest = st@;
    let ghost t = table@;
    let ghost fv = f@;
    let ghost s = CekV { work: rest.work.push(TaskV::Apply(fv)), ..rest };
    let have: usize = st.vals.len();
    assert(rest.vals.len() == have);
    match find_needs(&f, have) {
        None => cek_failure("result stack underflow".to_owned()),
        Some(n) => {
            if n > have {
                return cek_failure("result stack underflow".to_owned());
            }
            let ghost vs = st.vals@;
            let mut sets = st.vals.split_off(have - n);
            proof {
                lemma_needs(fv, have as nat);
            }
            let ghost sv = rest.vals.skip(have - n);
            assert(result_sets(sets@) =~= sv);
            assert(result_sets(st.vals@) =~= rest.vals.take(have - n));
            let ghost cut = CekV { vals: rest.vals.take(have - n), ..rest };
            assert(st@ =~= cut);
            if is_asking(&f) {
                let (out, lines) = apply_asking(&f, &mut sets, table, &st.known);
                match out {
                    Resumed::Ask(x, e) => {
                        let ghost low = st.vals@;
                        let ghost high = sets@;
                        st.vals.append(&mut sets);
                        assert(st.vals@ =~= low + high);
                        assert(st.vals@ =~= vs);
                        st.work.push(Task::Apply(f));
                        assert(st@ =~= s);
                        (CekOut::Ask(x, e), lines)
                    },
                    other => go_on(st, other, lines),
                }
            } else {
                proof {
                    patterns_do_not_matter(fv, sv, t, s.known);
                }
                let (out, lines) = apply_frame(f, sets, table);
                go_on(st, out, lines)
            }
        },
    }
}

/// Executing a transition.
pub open spec fn transition_done(s: CekV, t: TableV, tr: TransitionV) -> CekStepV {
    let (m, left, after) = transitioned(tr, t, s.budget);
    let s2 = CekV { budget: left, ..s };
    match m {
        MovedV::Silent => cek_goes(with_wait(s2, CekWaitV::Ready), after),
        MovedV::Value(r) => cek_goes(with_result(s2, r), after),
        MovedV::Locked(name, x, e) => (
            CekOutV::Run(x, e, left, Some(name)),
            Seq::empty(),
            with_wait(s2, CekWaitV::Paid),
            after,
        ),
        MovedV::Guarded(snap, x, e) => (
            CekOutV::Run(x, e, left, None),
            Seq::empty(),
            with_wait(s2, CekWaitV::Transaction(snap)),
            after,
        ),
        MovedV::Fail(msg) => cek_fails(s2, after, msg),
    }
}

/// Execute a transition.
fn do_transition(st: &mut CekState, table: &mut FnTable, tr: Transition) -> (r: (
    CekOut,
    Vec<String>,
))
    ensures
        cek_agrees(
            (r.0@, texts(r.1@), final(st)@, final(table)@),
            transition_done(old(st)@, old(table)@, tr@),
        ),
{
    let ghost s = st@;
    let (m, left) = apply_transition(tr, table, st.budget);
    st.budget = left;
    assert(st@ =~= (CekV { budget: left, ..s }));
    match m {
        Moved::Silent => {
            set_wait(st, CekWait::Ready);
            (CekOut::Next, no_lines())
        },
        Moved::Value(rs) => {
            add_result(st, rs);
            (CekOut::Next, no_lines())
        },
        Moved::Locked(name, x, e) => {
            set_wait(st, CekWait::Paid);
            (CekOut::Run(x, e, left, Some(name)), no_lines())
        },
        Moved::Guarded(snap, x, e) => {
            set_wait(st, CekWait::Transaction(snap));
            (CekOut::Run(x, e, left, None), no_lines())
        },
        Moved::Fail(msg) => cek_failure(msg),
    }
}

/// A step of a machine that waits for nothing.
pub open spec fn task_done(s: CekV, t: TableV) -> CekStepV {
    if s.work.len() == 0 {
        (
            CekOutV::Done(
                if s.vals.len() == 0 {
                    Seq::empty()
                } else {
                    s.vals.last()
                },
                s.budget,
            ),
            Seq::empty(),
            s,
            t,
        )
    } else {
        let rest = CekV { work: s.work.drop_last(), ..s };
        if rest.work.len() + rest.vals.len() > 2_000_000 {
            cek_fails(rest, t, overflow_text(rest.work.len(), rest.vals.len()))
        } else {
            match s.work.last() {
                TaskV::Eval(x, e) => evaluated(rest, t, x, e),
                TaskV::Run(x, e) => (
                    CekOutV::Run(x, e, None, None),
                    Seq::empty(),
                    with_wait(rest, CekWaitV::Free),
                    t,
                ),
                TaskV::Apply(f) => popped_applied(s, rest, t, f),
                TaskV::Transition(tr) => transition_done(rest, t, tr),
            }
        }
    }
}

/// Do the next task.
fn do_task(st: &mut CekState, table: &mut FnTable) -> (r: (CekOut, Vec<String>))
    ensures
        cek_agrees(
            (r.0@, texts(r.1@), final(st)@, final(table)@),
            task_done(old(st)@, old(table)@),
        ),
{
    let ghost s = st@;
    let ghost w = st.work@;
    assert(s.work.len() == w.len());
    assert(s.vals.len() == st.vals@.len());
    match st.work.pop() {
        None => {
            let rs: ResultSet = match st.vals.pop() {
                Some(rs) => rs,
                None => Vec::new(),
            };
            assert(s.vals.len() == 0 ==> results(rs@) =~= ResultV::empty());
            (CekOut::Done(rs, st.budget), no_lines())
        },
        Some(task) => {
            assert(tasks(st.work@) =~= s.work.drop_last());
            assert(s.work.last() == task@);
            let ghost rest = CekV { work: s.work.drop_last(), ..s };
            assert(st@ =~= rest);
            let nw: usize = st.work.len();
            let nv: usize = st.vals.len();
            assert(rest.work.len() == nw && rest.vals.len() == nv);
            if nw > 2_000_000 || nv > 2_000_000 || nw + nv > 2_000_000 {
                return cek_failure(overflow(nw, nv));
            }
            match task {
                Task::Eval(x, e) => evaluate(st, table, &x, &e),
                Task::Run(x, e) => {
                    set_wait(st, CekWait::Free);
                    (CekOut::Run(x, e, None, None), no_lines())
                },
                Task::Apply(f) => {
                    assert(s =~= (CekV { work: rest.work.push(TaskV::Apply(f@)), ..rest }));
                    apply_popped(st, table, f)
                },
                Task::Transition(tr) => do_transition(st, table, tr),
            }
        },
    }
}

/// Calls with the values of one of them.
pub open spec fn natives_with(c: NativesV, vs: Seq<AtomV>) -> NativesV {
    NativesV { next: c.next + 1, out: c.out + vs, ..c }
}

/// Add the values of a call.
fn add_native_values(c: NativeCalls, vs: Vec<Atom>) -> (r: NativeCalls)
    requires
        c.next < c.combos@.len(),
    ensures
        r@ == natives_with(c@, atoms(vs@)),
{
    let ghost cv = c@;
    let ghost o = c.out@;
    let ghost more = vs@;
    let n: usize = c.combos.len();
    assert(c.next < n);
    let mut c = c;
    let mut vs = vs;
    c.out.append(&mut vs);
    c.next = c.next + 1;
    assert(atoms(c.out@) =~= atoms(o) + atoms(more));
    assert(c@ =~= natives_with(cv, atoms(more)));
    c
}

/// The machine after one of its calls failed.
pub open spec fn native_failed(s: CekV, t: TableV, c: NativesV, m: Seq<char>) -> CekStepV {
    if c.lenient {
        cek_goes(
            with_wait(
                s,
                CekWaitV::Natives(NativesV { next: c.next + 1, error: Some(m), ..c }),
            ),
            t,
        )
    } else {
        cek_fails(s, t, m)
    }
}

/// Take note of a call that failed.
fn fail_native(st: &mut CekState, c: NativeCalls, m: String) -> (r: (CekOut, Vec<String>))
    requires
        c.next < c.combos@.len(),
    ensures
        forall|t: TableV|
            cek_agrees(
                (r.0@, texts(r.1@), final(st)@, t),
                #[trigger] native_failed(old(st)@, t, c@, m@),
            ),
{
    if c.lenient {
        let ghost cv = c@;
        let n: usize = c.combos.len();
        assert(c.next < n);
        let mut c = c;
        c.next = c.next + 1;
        c.error = Some(m);
        assert(c@ =~= (NativesV { next: cv.next + 1, error: Some(m@), ..cv }));
        set_wait(st, CekWait::Natives(c));
        (CekOut::Next, no_lines())
    } else {
        cek_failure(m)
    }
}

/// The next call of a built-in function, or the result of the calls.
pub open spec fn natives_turn(s: CekV, t: TableV, c: NativesV) -> CekStepV {
    if c.next >= c.combos.len() {
        if c.out.len() == 0 && c.error is Some {
            cek_fails(s, t, c.error->Some_0)
        } else {
            cek_goes(with_result(s, plain_results(c.out)), t)
        }
    } else {
        let (answer, after) = called(c.builtin, c.name, c.combos[c.next as int], t);
        match answer {
            AnswerV::Values(vs) => cek_goes(
                with_wait(s, CekWaitV::Natives(natives_with(c, vs))),
                after,
            ),
            AnswerV::Fail(m) => native_failed(s, after, c, m),
            AnswerV::Report(line, a) => (
                CekOutV::Next,
                seq![line],
                with_wait(s, CekWaitV::Natives(natives_with(c, seq![a]))),
                after,
            ),
            AnswerV::Host(b, n, xs) => (
                CekOutV::Host(HostV::Native(b, n, xs)),
                Seq::empty(),
                with_wait(s, CekWaitV::NativeHost(c)),
                after,
            ),
            AnswerV::Loop(l) => cek_goes(with_wait(s, CekWaitV::Loops(seq![l], c)), after),
        }
    }
}

/// Make the next call of a built-in function.
fn next_native(st: &mut CekState, table: &mut FnTable, c: NativeCalls) -> (r: (CekOut, Vec<String>))
    ensures
        cek_agrees(
            (r.0@, texts(r.1@), final(st)@, final(table)@),
            natives_turn(old(st)@, old(table)@, c@),
        ),
{
    broadcast use group_atoms;

    let n: usize = c.combos.len();
    assert(c@.combos.len() == n);
    if c.next >= n {
        assert(atoms(c.out@).len() == c.out@.len());
        if c.out.len() == 0 {
            match c.error {
                Some(m) => {
                    return cek_failure(m);
                },
                None => {},
            }
        }
        add_result(st, plain(c.out));
        return (CekOut::Next, no_lines());
    }
    assert(c@.combos[c.next as int] == atoms(c.combos@[c.next as int]@));
    match call_builtin(c.builtin, c.name.as_str(), &c.combos[c.next], table) {
        Answer::Values(vs) => {
            set_wait(st, CekWait::Natives(add_native_values(c, vs)));
            (CekOut::Next, no_lines())
        },
        Answer::Fail(m) => fail_native(st, c, m),
        Answer::Report(line, a) => {
            let mut vs: Vec<Atom> = Vec::new();
            vs.push(a);
            assert(atoms(vs@) =~= seq![a@]);
            set_wait(st, CekWait::Natives(add_native_values(c, vs)));
            let mut lines: Vec<String> = Vec::new();
            lines.push(line);
            assert(texts(lines@) =~= seq![line@]);
            (CekOut::Next, lines)
        },
        Answer::Host(b, name, xs) => {
            set_wait(st, CekWait::NativeHost(c));
            (CekOut::Host(HostCall::Native(b, name, xs)), no_lines())
        },
        Answer::Loop(l) => {
            let mut ls: Vec<ListLoop> = Vec::new();
            ls.push(l);
            assert(loops(ls@) =~= seq![l@]);
            set_wait(st, CekWait::Loops(ls, c));
            (CekOut::Next, no_lines())
        },
    }
}

/// The machine does not wait for what came.
pub open spec fn cek_out_of_step(s: CekV, t: TableV) -> CekStepV {
    cek_fails(s, t, "machine out of step"@)
}

/// The next turn of loops that compute the value of a built-in function.
pub open spec fn cek_loops_turn(s: CekV, t: TableV, ls: Seq<LoopV>, c: NativesV) -> CekStepV {
    if c.next >= c.combos.len() {
        cek_out_of_step(s, t)
    } else {
        let (o, rest, after) = loops_stepped(ls, t);
        match o {
            LoopsOutV::Done(v) => cek_goes(
                with_wait(s, CekWaitV::Natives(natives_with(c, seq![v]))),
                after,
            ),
            LoopsOutV::Go(lines) => (
                CekOutV::Next,
                lines,
                with_wait(s, CekWaitV::Loops(rest, c)),
                after,
            ),
            LoopsOutV::Host(b, n, xs) => (
                CekOutV::Host(HostV::Native(b, n, xs)),
                Seq::empty(),
                with_wait(s, CekWaitV::LoopHost(rest, c)),
                after,
            ),
            LoopsOutV::Run(e) => (
                CekOutV::Run(e, EnvV::Empty, None, None),
                Seq::empty(),
                with_wait(s, CekWaitV::LoopRun(rest, c)),
                after,
            ),
            LoopsOutV::Fail(m) => native_failed(s, after, c, m),
        }
    }
}

/// Take the next turn of loops that compute the value of a built-in function.
fn next_cek_loops(st: &mut CekState, table: &mut FnTable, ls: Vec<ListLoop>, c: NativeCalls) -> (r: (
    CekOut,
    Vec<String>,
))
    ensures
        cek_agrees(
            (r.0@, texts(r.1@), final(st)@, final(table)@),
            cek_loops_turn(old(st)@, old(table)@, loops(ls@), c@),
        ),
{
    let n: usize = c.combos.len();
    assert(c@.combos.len() == n);
    if c.next >= n {
        return cek_failure("machine out of step".to_owned());
    }
    let mut ls = ls;
    match step_loops(&mut ls, table) {
        LoopsOut::Done(v) => {
            let mut vs: Vec<Atom> = Vec::new();
            vs.push(v);
            assert(atoms(vs@) =~= seq![v@]);
            set_wait(st, CekWait::Natives(add_native_values(c, vs)));
            (CekOut::Next, no_lines())
        },
        LoopsOut::Go(lines) => {
            set_wait(st, CekWait::Loops(ls, c));
            (CekOut::Next, lines)
        },
        LoopsOut::Host(b, name, xs) => {
            set_wait(st, CekWait::LoopHost(ls, c));
            (CekOut::Host(HostCall::Native(b, name, xs)), no_lines())
        },
        LoopsOut::Run(e) => {
            set_wait(st, CekWait::LoopRun(ls, c));
            (CekOut::Run(e, Env::new(), None, None), no_lines())
        },
        LoopsOut::Fail(m) => fail_native(st, c, m),
    }
}

/// A step of the machine.
pub open spec fn cek_stepped(s: CekV, t: TableV) -> CekStepV {
    match s.wait {
        CekWaitV::Ready => task_done(s, t),
        CekWaitV::Natives(c) => natives_turn(with_wait(s, CekWaitV::Ready), t, c),
        CekWaitV::Loops(ls, c) => cek_loops_turn(with_wait(s, CekWaitV::Ready), t, ls, c),
        _ => cek_out_of_step(s, t),
    }
}

/// Take what the machine waits for.
fn take_cek_wait(st: &mut CekState) -> (r: CekWait)
    ensures
        r == old(st).wait,
        final(st)@ == with_wait(old(st)@, CekWaitV::Ready),
{
    let ghost s = st@;
    let mut w = CekWait::Ready;
    std::mem::swap(&mut st.wait, &mut w);
    st.known = Vec::new();
    assert(st@ =~= with_wait(s, CekWaitV::Ready));
    w
}

/// Make one step of the machine.
pub fn cek_step(st: &mut CekState, table: &mut FnTable) -> (r: (CekOut, Vec<String>))
    ensures
        cek_agrees(
            (r.0@, texts(r.1@), final(st)@, final(table)@),
            cek_stepped(old(st)@, old(table)@),
        ),
{
    match &st.wait {
        CekWait::Ready => {
            return do_task(st, table);
        },
        _ => {},
    }
    match take_cek_wait(st) {
        CekWait::Natives(c) => next_native(st, table, c),
        CekWait::Loops(ls, c) => next_cek_loops(st, table, ls, c),
        _ => cek_failure("machine out of step".to_owned()),
    }
}

/// The machine goes on with the value of a function that a loop calls.
pub open spec fn loop_fed(
    s: CekV,
    t: TableV,
    ls: Seq<LoopV>,
    c: NativesV,
    value: Option<AtomV>,
) -> CekStepV {
    if c.next >= c.combos.len() {
        cek_out_of_step(s, t)
    } else {
        match loops_fed(ls, value) {
            Ok(next) => cek_goes(with_wait(s, CekWaitV::Loops(next, c)), t),
            Err(m) => native_failed(s, t, c, m),
        }
    }
}

/// Go on with the value of a function that a loop calls.
fn feed_cek_loop(
    st: &mut CekState,
    table: &FnTable,
    ls: Vec<ListLoop>,
    c: NativeCalls,
    value: Option<Atom>,
) -> (r: (CekOut, Vec<String>))
    ensures
        cek_agrees(
            (r.0@, texts(r.1@), final(st)@, table@),
            loop_fed(old(st)@, table@, loops(ls@), c@, optional_atom(value)),
        ),
{
    let n: usize = c.combos.len();
    assert(c@.combos.len() == n);
    if c.next >= n {
        return cek_failure("machine out of step".to_owned());
    }
    let mut ls = ls;
    match feed_loops(&mut ls, value) {
        Ok(()) => {
            set_wait(st, CekWait::Loops(ls, c));
            (CekOut::Next, no_lines())
        },
        Err(m) => fail_native(st, c, m),
    }
}

/// The machine goes on with the results of an expression.
///
/// A transaction without a result is undone.
pub open spec fn cek_delivered(s: CekV, t: TableV, rs: ResultV, budget: Option<i64>) -> CekStepV {
    let s2 = with_wait(s, CekWaitV::Ready);
    match s.wait {
        CekWaitV::Free => cek_goes(with_result(s2, rs), t),
        CekWaitV::Paid => cek_goes(with_result(CekV { budget, ..s2 }, rs), t),
        CekWaitV::Transaction(snap) => cek_goes(
            with_result(CekV { budget, ..s2 }, rs),
            if rs.len() == 0 {
                restored(t, snap)
            } else {
                t
            },
        ),
        CekWaitV::LoopRun(ls, c) => loop_fed(s2, t, ls, c, first_raw(rs)),
        _ => cek_out_of_step(s, t),
    }
}

/// Hand the results of an expression to the machine.
pub fn cek_deliver(st: &mut CekState, table: &mut FnTable, rs: ResultSet, budget: Option<i64>) -> (r:
    (CekOut, Vec<String>))
    ensures
        cek_agrees(
            (r.0@, texts(r.1@), final(st)@, final(table)@),
            cek_delivered(old(st)@, old(table)@, results(rs@), budget),
        ),
{
    let ghost s = st@;
    match take_cek_wait(st) {
        CekWait::Free => {
            add_result(st, rs);
            (CekOut::Next, no_lines())
        },
        CekWait::Paid => {
            st.budget = budget;
            assert(st@ =~= (CekV { budget, ..with_wait(s, CekWaitV::Ready) }));
            add_result(st, rs);
            (CekOut::Next, no_lines())
        },
        CekWait::Transaction(snap) => {
            assert(results(rs@).len() == rs@.len());
            if rs.len() == 0 {
                table.restore(snap);
            }
            st.budget = budget;
            assert(st@ =~= (CekV { budget, ..with_wait(s, CekWaitV::Ready) }));
            add_result(st, rs);
            (CekOut::Next, no_lines())
        },
        CekWait::LoopRun(ls, c) => {
            let value = take_first_raw(&rs);
            feed_cek_loop(st, table, ls, c, value)
        },
        _ => cek_failure("machine out of step".to_owned()),
    }
}

/// The machine goes on with values from the host.
pub open spec fn cek_supplied(s: CekV, t: TableV, vs: Seq<AtomV>) -> CekStepV {
    let s2 = with_wait(s, CekWaitV::Ready);
    match s.wait {
        CekWaitV::Host => cek_goes(with_result(s2, plain_results(vs)), t),
        CekWaitV::NativeHost(c) => if c.next >= c.combos.len() {
            cek_out_of_step(s, t)
        } else {
            cek_goes(with_wait(s2, CekWaitV::Natives(natives_with(c, vs))), t)
        },
        CekWaitV::LoopHost(ls, c) => loop_fed(s2, t, ls, c, first_of(vs)),
        _ => cek_out_of_step(s, t),
    }
}

/// Hand values from the host to the machine.
pub fn cek_supply(st: &mut CekState, table: &FnTable, vs: Vec<Atom>) -> (r: (CekOut, Vec<String>))
    ensures
        cek_agrees(
            (r.0@, texts(r.1@), final(st)@, table@),
            cek_supplied(old(st)@, table@, atoms(vs@)),
        ),
{
    match take_cek_wait(st) {
        CekWait::Host => {
            add_result(st, plain(vs));
            (CekOut::Next, no_lines())
        },
        CekWait::NativeHost(c) => {
            let n: usize = c.combos.len();
            assert(c@.combos.len() == n);
            if c.next >= n {
                return cek_failure("machine out of step".to_owned());
            }
            set_wait(st, CekWait::Natives(add_native_values(c, vs)));
            (CekOut::Next, no_lines())
        },
        CekWait::LoopHost(ls, c) => {
            assert(atoms(vs@).len() == vs@.len());
            let first: Option<Atom> = if vs.len() > 0 {
                Some(vs[0].clone())
            } else {
                None
            };
            assert(optional_atom(first) == first_of(atoms(vs@)));
            feed_cek_loop(st, table, ls, c, first)
        },
        _ => cek_failure("machine out of step".to_owned()),
    }
}

/// The machine goes on after an error.
///
/// A transaction that fails is undone.
pub open spec fn cek_refused(s: CekV, t: TableV, m: Seq<char>) -> CekStepV {
    let s2 = with_wait(s, CekWaitV::Ready);
    match s.wait {
        CekWaitV::NativeHost(c) => if c.next >= c.combos.len() {
            cek_out_of_step(s, t)
        } else {
            native_failed(s2, t, c, m)
        },
        CekWaitV::LoopHost(_, c) => if c.next >= c.combos.len() {
            cek_out_of_step(s, t)
        } else {
            native_failed(s2, t, c, m)
        },
        CekWaitV::LoopRun(_, c) => if c.next >= c.combos.len() {
            cek_out_of_step(s, t)
        } else {
            native_failed(s2, t, c, m)
        },
        CekWaitV::Transaction(snap) => cek_fails(s2, restored(t, snap), "transaction: "@ + m),
        _ => cek_fails(s2, t, m),
    }
}

/// Take note of a call that failed, unless no call is pending.
fn fail_pending(st: &mut CekState, table: &FnTable, c: NativeCalls, m: String) -> (r: (
    CekOut,
    Vec<String>,
))
    ensures
        cek_agrees(
            (r.0@, texts(r.1@), final(st)@, table@),
            if c@.next >= c@.combos.len() {
                cek_out_of_step(old(st)@, table@)
            } else {
                native_failed(old(st)@, table@, c@, m@)
            },
        ),
{
    let n: usize = c.combos.len();
    assert(c@.combos.len() == n);
    if c.next >= n {
        return cek_failure("machine out of step".to_owned());
    }
    fail_native(st, c, m)
}

/// Hand an error to the machine.
pub fn cek_refuse(st: &mut CekState, table: &mut FnTable, m: String) -> (r: (CekOut, Vec<String>))
    ensures
        cek_agrees(
            (r.0@, texts(r.1@), final(st)@, final(table)@),
            cek_refused(old(st)@, old(table)@, m@),
        ),
{
    match take_cek_wait(st) {
        CekWait::NativeHost(c) => fail_pending(st, table, c, m),
        CekWait::LoopHost(_, c) => fail_pending(st, table, c, m),
        CekWait::LoopRun(_, c) => fail_pending(st, table, c, m),
        CekWait::Transaction(snap) => {
            table.restore(snap);
            cek_failure(joined("transaction: ", m.as_str()))
        },
        _ => cek_failure(m),
    }
}

/// The name under which a task is counted.
pub open spec fn task_label(x: TaskV) -> Seq<char> {
    match x {
        TaskV::Eval(_, _) => "Eval"@,
        TaskV::Run(_, _) => "Eval"@,
        TaskV::Transition(_) => "Transition"@,
        TaskV::Apply(f) => match f {
            ContV::Call(_, _, _) => "Call"@,
            ContV::Gather(_) => "Gather"@,
            ContV::MergeEnv(_) => "MergeEnv"@,
            ContV::IfGather(_, _) => "IfGather"@,
            ContV::LetStarBind(_, _, _, _) => "LetStarBind"@,
            ContV::LetMatch(_, _, _) => "LetMatch"@,
            ContV::ChainBind(_, _, _) => "ChainBind"@,
            ContV::Progn(_) => "Progn"@,
            ContV::Prog1(_) => "Prog1"@,
            ContV::DataList(_) => "DataList"@,
            ContV::DataListWithHead(_, _) => "DataList"@,
            _ => "OtherFrame"@,
        },
    }
}

/// Find the name under which a task is counted.
fn label_of(x: &Task) -> (r: String)
    ensures
        r@ == task_label(x@),
{
    let s: &str = match x {
        Task::Eval(_, _) => "Eval",
        Task::Run(_, _) => "Eval",
        Task::Transition(_) => "Transition",
        Task::Apply(f) => match f {
            Frame::Call { .. } => "Call",
            Frame::Gather(_) => "Gather",
            Frame::MergeEnv(_) => "MergeEnv",
            Frame::IfGather(_, _) => "IfGather",
            Frame::LetStarBind(_, _, _, _) => "LetStarBind",
            Frame::LetMatch(_, _, _) => "LetMatch",
            Frame::ChainBind(_, _, _) => "ChainBind",
            Frame::Progn(_) => "Progn",
            Frame::Prog1(_) => "Prog1",
            Frame::DataList(_) => "DataList",
            Frame::DataListWithHead(_, _) => "DataList",
            _ => "OtherFrame",
        },
    };
    s.to_owned()
}

/// How many tasks are counted under a name.
pub open spec fn labelled(work: Seq<TaskV>, name: Seq<char>) -> nat
    decreases work.len(),
{
    if work.len() == 0 {
        0
    } else {
        labelled(work.drop_last(), name) + if task_label(work.last()) == name {
            1nat
        } else {
            0nat
        }
    }
}

/// Count the tasks under a name.
fn count_labelled(work: &Vec<Task>, name: &str) -> (r: usize)
    ensures
        r == labelled(tasks(work@), name@),
{
    let ghost all = tasks(work@);
    let mut n: usize = 0;
    let mut i: usize = 0;
    assert(all.take(0) =~= Seq::<TaskV>::empty());
    while i < work.len()
        invariant
            i <= work@.len(),
            all == tasks(work@),
            n == labelled(all.take(i as int), name@),
            n <= i,
        decreases work@.len() - i,
    {
        assert(all.take(i + 1).drop_last() =~= all.take(i as int));
        assert(all[i as int] == work@[i as int]@);
        let l = label_of(&work[i]);
        if same(l.as_str(), name) {
            n += 1;
        }
        i += 1;
    }
    assert(all.take(work@.len() as int) =~= all);
    n
}

/// A text with the count of the tasks under a name behind it.
pub open spec fn with_count(text: Seq<char>, work: Seq<TaskV>, name: Seq<char>) -> Seq<char> {
    let n = labelled(work, name);
    if n == 0 {
        text
    } else {
        (if text.len() == 0 {
            text
        } else {
            text + " "@
        }) + name + ":"@ + nat_digits(n)
    }
}

/// Put the count of the tasks under a name behind a text.
fn add_count(text: String, work: &Vec<Task>, name: &str) -> (r: String)
    ensures
        r@ == with_count(text@, tasks(work@), name@),
{
    let n: usize = count_labelled(work, name);
    let mut text = text;
    if n > 0 {
        if text.as_str().unicode_len() > 0 {
            text.append(" ");
        }
        text.append(name);
        text.append(":");
        let d = usize_text(n);
        text.append(d.as_str());
    }
    text
}

/// The counts of pending tasks under each name that occurs, by name.
pub open spec fn histogram(work: Seq<TaskV>) -> Seq<char> {
    let a = with_count(Seq::empty(), work, "Call"@);
    let b = with_count(a, work, "ChainBind"@);
    let c = with_count(b, work, "DataList"@);
    let d = with_count(c, work, "Eval"@);
    let e = with_count(d, work, "Gather"@);
    let f = with_count(e, work, "IfGather"@);
    let g = with_count(f, work, "LetMatch"@);
    let h = with_count(g, work, "LetStarBind"@);
    let i = with_count(h, work, "MergeEnv"@);
    let j = with_count(i, work, "OtherFrame"@);
    let k = with_count(j, work, "Prog1"@);
    let l = with_count(k, work, "Progn"@);
    with_count(l, work, "Transition"@)
}

/// Tally the kinds of pending tasks. This helps to find the cause of unbounded
/// growth.
pub fn stack_histogram(work: &Vec<Task>) -> (r: String)
    ensures
        r@ == histogram(tasks(work@)),
{
    let none: String = String::new();
    assert(none@ =~= Seq::<char>::empty());
    let a = add_count(none, work, "Call");
    let b = add_count(a, work, "ChainBind");
    let c = add_count(b, work, "DataList");
    let d = add_count(c, work, "Eval");
    let e = add_count(d, work, "Gather");
    let f = add_count(e, work, "IfGather");
    let g = add_count(f, work, "LetMatch");
    let h = add_count(g, work, "LetStarBind");
    let i = add_count(h, work, "MergeEnv");
    let j = add_count(i, work, "OtherFrame");
    let k = add_count(j, work, "Prog1");
    let l = add_count(k, work, "Progn");
    add_count(l, work, "Transition")
}

/// A transaction that fails, or that ends without a result, leaves functions,
/// spaces and state as they were when it began, whatever its body did to them.
/// One that gives a result keeps what its body did.
pub proof fn guards_are_undone(
    s: CekV,
    began: TableV,
    body: ExprV,
    env: EnvV,
    t: TableV,
    m: Seq<char>,
    rs: ResultV,
    budget: Option<i64>,
)
    ensures
        ({
            let w = transition_done(s, began, TransitionV::Transaction(body, env)).2;
            &&& snapshot_of(cek_refused(w, t, m).3) == snapshot_of(began)
            &&& rs.len() == 0 ==> snapshot_of(cek_delivered(w, t, rs, budget).3) == snapshot_of(
                began,
            )
            &&& rs.len() > 0 ==> cek_delivered(w, t, rs, budget).3 == t
        }),
{
}

} // verus!
