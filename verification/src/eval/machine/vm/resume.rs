//! How the bytecode machine goes on with what it waited for.
use crate::atom::Atom;
use crate::atom::AtomV;
use crate::atom::atoms;
use crate::atom::group_atoms;
use crate::atom::symbol;
use crate::atom::affirms;
use crate::builtins::loops::feed_loops;
use crate::builtins::loops::first_of;
use crate::builtins::loops::loops_fed;
use crate::env::bindings;
use crate::eval::machine::budget::ResultSet;
use crate::eval::machine::budget::ResultV;
use crate::eval::machine::budget::atoms_of;
use crate::eval::machine::budget::group_results;
use crate::eval::machine::budget::plain;
use crate::eval::machine::budget::plain_results;
use crate::eval::machine::budget::result_atoms;
use crate::eval::machine::budget::results;
use crate::eval::machine::budget::single;
use crate::eval::machine::vm::bodies::first_value;
use crate::eval::machine::vm::bodies::snapshot_of;
use crate::eval::machine::vm::bodies::take_first;
use crate::eval::machine::vm::bodies::transaction_started;
use crate::eval::machine::vm::bodies::wait_for;
use crate::eval::machine::vm::bodies::waiting;
use crate::eval::machine::vm::calling::add_values;
use crate::eval::machine::vm::calling::with_values;
use crate::eval::machine::vm::iterate::join_results;
use crate::eval::machine::vm::iterate::pop_frame;
use crate::eval::machine::vm::op::BlockV;
use crate::eval::machine::vm::op::Opcode;
use crate::eval::machine::vm::op::OpcodeV;
use crate::eval::machine::vm::op::group_ops;
use crate::eval::machine::vm::op::steps_view;
use crate::eval::machine::vm::outcome::ExitV;
use crate::eval::machine::vm::outcome::StepV;
use crate::eval::machine::vm::outcome::VmExit;
use crate::eval::machine::vm::outcome::VmOut;
use crate::eval::machine::vm::outcome::VmOutV;
use crate::eval::machine::vm::plain::agrees;
use crate::eval::machine::vm::plain::cut;
use crate::eval::machine::vm::plain::failing;
use crate::eval::machine::vm::plain::failure;
use crate::eval::machine::vm::plain::going;
use crate::eval::machine::vm::plain::push;
use crate::eval::machine::vm::plain::pushed;
use crate::eval::machine::vm::state::FrameV;
use crate::eval::machine::vm::state::UnifyRest;
use crate::eval::machine::vm::state::UnifyRestV;
use crate::eval::machine::vm::state::VMState;
use crate::eval::machine::vm::state::VmV;
use crate::eval::machine::vm::state::Wait;
use crate::eval::machine::vm::state::WaitV;
use crate::eval::machine::vm::state::frames;
use crate::eval::machine::vm::state::lemma_frames_push;
use crate::eval::machine::vm::state::start_values;
use crate::eval::shared::pattern::optional_atom;
use crate::func::FnTable;
use crate::func::SnapshotV;
use crate::func::TableV;
use crate::text::copy_texts;
use crate::text::first_index;
use crate::text::first_position;
use crate::text::joined3;
use crate::text::texts;
use std::sync::Arc;
use vstd::prelude::*;
use vstd::string::*;

verus! {

/// The error of a result that nothing waits for.
pub open spec fn out_of_step(s: VmV, t: TableV) -> StepV {
    failing(s, t, "VM out of step"@)
}

/// What a machine is done with after a body that asks to be run again, or the
/// state with pushed results after another body.
pub open spec fn ended(s: VmV, t: TableV, exit: ExitV, done: ResultV, rs: ResultV) -> StepV {
    match exit {
        ExitV::TailCall(l) => (VmOutV::Done(done, s.budget, ExitV::TailCall(l)), s, t),
        ExitV::Cut => going(pushed(VmV { cut: true, ..s }, rs), t),
        ExitV::Normal => going(pushed(s, rs), t),
    }
}

/// Go on after a body with results to push.
fn end_with(st: &mut VMState, table: &FnTable, exit: VmExit, done: ResultSet, rs: ResultSet) -> (r:
    VmOut)
    requires
        old(st).ip < usize::MAX,
    ensures
        agrees(
            (r@, final(st)@, table@),
            ended(old(st)@, table@, exit@, results(done@), results(rs@)),
        ),
{
    match exit {
        VmExit::TailCall(l) => VmOut::Done(done, st.budget, VmExit::TailCall(l)),
        VmExit::Cut => {
            st.cut_executed = true;
            push(st, rs);
            VmOut::Next
        },
        VmExit::Normal => {
            push(st, rs);
            VmOut::Next
        },
    }
}

/// What a machine is done with after a body that asks to be run again, or the
/// state that waits on after another body.
pub open spec fn continued(s: VmV, t: TableV, exit: ExitV, done: ResultV, w: WaitV) -> StepV {
    match exit {
        ExitV::TailCall(l) => (VmOutV::Done(done, s.budget, ExitV::TailCall(l)), s, t),
        ExitV::Cut => going(waiting(VmV { cut: true, ..s }, w), t),
        ExitV::Normal => going(waiting(s, w), t),
    }
}

/// Go on after a body by waiting on.
fn continue_with(st: &mut VMState, table: &FnTable, exit: VmExit, done: ResultSet, w: Wait) -> (r:
    VmOut)
    ensures
        agrees(
            (r@, final(st)@, table@),
            continued(old(st)@, table@, exit@, results(done@), w@),
        ),
{
    match exit {
        VmExit::TailCall(l) => VmOut::Done(done, st.budget, VmExit::TailCall(l)),
        VmExit::Cut => {
            st.cut_executed = true;
            wait_for(st, w);
            VmOut::Next
        },
        VmExit::Normal => {
            wait_for(st, w);
            VmOut::Next
        },
    }
}

/// No results.
fn nothing() -> (r: ResultSet)
    ensures
        results(r@) == ResultV::empty(),
{
    let r: ResultSet = Vec::new();
    assert(results(r@) =~= ResultV::empty());
    r
}

/// The first result alone.
pub open spec fn first_only(r: ResultV) -> ResultV {
    if r.len() == 0 {
        r
    } else {
        r.take(1)
    }
}

/// Keep the first result alone.
pub fn keep_first(rs: ResultSet) -> (r: ResultSet)
    ensures
        results(r@) == first_only(results(rs@)),
{
    let mut rs = rs;
    assert(results(rs@).len() == rs@.len());
    if rs.len() > 1 {
        let ghost all = rs@;
        rs.truncate(1);
        assert(results(rs@) =~= results(all).take(1));
    }
    assert(results(rs@) =~= first_only(results(rs@)));
    rs
}

/// The table with the functions, spaces and state of a snapshot.
pub open spec fn restored(t: TableV, snap: SnapshotV) -> TableV {
    TableV { fns: snap.fns, spaces: snap.spaces, state: snap.state, memo: Seq::empty(), ..t }
}

/// The state with a free variable set.
pub open spec fn free_set(s: VmV, name: Seq<char>, v: AtomV) -> VmV {
    match first_index(s.free_vars, name) {
        Some(k) => if k < s.bindings.len() {
            VmV { bindings: s.bindings.update(k, v), ..s }
        } else {
            s
        },
        None => VmV { free_vars: s.free_vars.push(name), bindings: s.bindings.push(v), ..s },
    }
}

/// Set a free variable.
fn set_free(st: &mut VMState, name: &String, v: Atom)
    ensures
        final(st)@ == free_set(old(st)@, name@, v@),
        final(st).ip == old(st).ip,
{
    broadcast use group_atoms;

    let ghost s0 = st@;
    assert(atoms(st.bindings@).len() == st.bindings@.len());
    match first_position(&st.free_vars, name.as_str()) {
        Some(k) => {
            if k < st.bindings.len() {
                st.bindings.set(k, v);
                assert(atoms(st.bindings@) =~= s0.bindings.update(k as int, v@));
                assert(st@ =~= free_set(s0, name@, v@));
            }
        },
        None => {
            let mut names = copy_texts(&st.free_vars);
            names.push(name.clone());
            assert(texts(names@) =~= s0.free_vars.push(name@));
            st.free_vars = Arc::new(names);
            st.bindings.push(v);
            assert(st@ =~= free_set(s0, name@, v@));
        },
    }
}

/// The state after a step of a chain: its value is bound to its variable.
pub open spec fn chain_delivered(
    s: VmV,
    t: TableV,
    steps: Seq<(Seq<OpcodeV>, Seq<char>)>,
    n: nat,
    rs: ResultV,
    exit: ExitV,
) -> StepV {
    if n == 0 || n > steps.len() {
        out_of_step(s, t)
    } else {
        let name = steps[n - 1].1;
        match exit {
            ExitV::TailCall(l) => (
                VmOutV::Done(Seq::empty(), s.budget, ExitV::TailCall(l)),
                s,
                t,
            ),
            _ => match first_value(rs) {
                None => failing(s, t, "chain: step "@ + name + " produced no result"@),
                Some(v) => going(
                    waiting(
                        VmV { cut: s.cut || exit is Cut, ..free_set(s, name, v) },
                        WaitV::Chain(n),
                    ),
                    t,
                ),
            },
        }
    }
}

/// Whether all of some results are true, and there is one.
pub open spec fn all_true(r: ResultV) -> bool {
    r.len() > 0 && forall|i: int| 0 <= i < r.len() ==> affirms(#[trigger] result_atoms(r)[i])
}

/// Test whether all of some results are true.
fn test_all(rs: &ResultSet) -> (r: bool)
    ensures
        r == all_true(results(rs@)),
{
    broadcast use group_atoms;

    let list = atoms_of(rs);
    assert(atoms(list@).len() == list@.len());
    if list.len() == 0 {
        return false;
    }
    let mut i: usize = 0;
    while i < list.len()
        invariant
            i <= list@.len(),
            atoms(list@) == result_atoms(results(rs@)),
            forall|k: int| 0 <= k < i ==> affirms(#[trigger] result_atoms(results(rs@))[k]),
        decreases list@.len() - i,
    {
        assert(result_atoms(results(rs@))[i as int] == list@[i as int]@);
        if !list[i].affirms() {
            assert(atoms(list@).len() == list@.len());
            assert(i < results(rs@).len());
            assert(!affirms(result_atoms(results(rs@))[i as int]));
            return false;
        }
        i += 1;
    }
    true
}

/// A list with an element added when there is one.
pub open spec fn with_some(s: Seq<AtomV>, a: Option<AtomV>) -> Seq<AtomV> {
    match a {
        Some(x) => s.push(x),
        None => s,
    }
}

/// The filtered elements after the one at a position was checked.
pub open spec fn filtered(items: Seq<AtomV>, n: nat, out: Seq<AtomV>, rs: ResultV) -> Seq<AtomV> {
    if first_value(rs) is Some && affirms(first_value(rs)->Some_0) && 0 < n <= items.len() {
        out.push(items[n - 1])
    } else {
        out
    }
}

/// Add the element at a position to the filtered ones when it passes.
fn filter_one(items: &Vec<Atom>, n: usize, out: &mut Vec<Atom>, rs: &ResultSet)
    ensures
        atoms(final(out)@) == filtered(
            atoms(items@),
            n as nat,
            atoms(old(out)@),
            results(rs@),
        ),
{
    broadcast use group_atoms;

    assert(atoms(items@).len() == items@.len());
    match take_first(rs) {
        Some(v) => {
            if v.affirms() && n > 0 && n <= items.len() {
                out.push(items[n - 1].clone());
            }
        },
        None => {},
    }
}

/// The state that has come back from a body: the environment is that of the
/// start, and the budget is what the body left.
pub open spec fn back(s: VmV, budget: Option<i64>) -> VmV {
    VmV { env: s.home, budget, ..s }
}

/// The state with another budget.
pub open spec fn left_with(s: VmV, budget: Option<i64>) -> VmV {
    VmV { budget, ..s }
}

/// The machine goes on with the results of a body or an evaluation, what was
/// left of the budget, and how the body ended.
pub open spec fn delivered(
    s: VmV,
    t: TableV,
    rs: ResultV,
    budget: Option<i64>,
    exit: ExitV,
) -> StepV {
    match s.wait {
        WaitV::Drain(k, out) => going(waiting(s, WaitV::Drain(k, out + rs)), t),
        WaitV::EvalRun => if s.frames.len() == 0 {
            out_of_step(s, t)
        } else {
            let f = s.frames.last();
            going(
                waiting(
                    VmV {
                        frames: s.frames.drop_last().push(FrameV { out: f.out + rs, ..f }),
                        budget,
                        ..s
                    },
                    WaitV::Iterate,
                ),
                t,
            )
        },
        _ => if s.ip >= s.code.len() {
            out_of_step(s, t)
        } else {
            delivered_here(s, t, s.code[s.ip as int], rs, budget, exit)
        },
    }
}

/// The machine goes on with the results of a body for an instruction.
pub open spec fn delivered_here(
    s: VmV,
    t: TableV,
    op: OpcodeV,
    rs: ResultV,
    budget: Option<i64>,
    exit: ExitV,
) -> StepV {
    let none: ResultV = Seq::empty();
    match s.wait {
        WaitV::LoopRun(ls, c) => match loops_fed(
            ls,
            if rs.len() > 0 {
                Some(rs[0].0)
            } else {
                None
            },
        ) {
            Ok(next) => going(waiting(s, WaitV::Loops(next, c)), t),
            Err(m) => failing(s, t, m),
        },
        WaitV::Push => going(pushed(left_with(s, budget), rs), t),
        WaitV::Once => ended(back(s, budget), t, exit, none, first_only(rs)),
        WaitV::WithMutex => ended(left_with(s, budget), t, exit, none, rs),
        WaitV::Within => if !(exit is TailCall) && rs.len() == 0 {
            failing(s, t, "within: expression produced no results"@)
        } else {
            ended(
                back(s, budget),
                t,
                exit,
                none,
                plain_results(
                    seq![AtomV::Expr(seq![symbol("within"@)] + result_atoms(rs))],
                ),
            )
        },
        WaitV::Transaction(snap) => ended(
            back(s, budget),
            if exit is TailCall || rs.len() == 0 {
                restored(t, snap)
            } else {
                t
            },
            exit,
            none,
            rs,
        ),
        WaitV::Progn(n, _) => continued(back(s, budget), t, exit, none, WaitV::Progn(n, rs)),
        WaitV::Prog1(n, first) => continued(
            back(s, budget),
            t,
            exit,
            none,
            WaitV::Prog1(
                n,
                if n == 1 {
                    rs
                } else {
                    first
                },
            ),
        ),
        WaitV::Chain(n) => match op {
            OpcodeV::Chain(steps, _) => chain_delivered(
                back(s, budget),
                t,
                steps,
                n,
                rs,
                exit,
            ),
            _ => out_of_step(s, t),
        },
        WaitV::ChainLast => ended(
            back(s, budget),
            t,
            exit,
            none,
            plain_results(with_some(Seq::empty(), first_value(rs))),
        ),
        WaitV::Match(left, values, b, out) => continued(
            back(s, budget),
            t,
            exit,
            out + rs,
            WaitV::Match(
                if exit is Cut {
                    Seq::empty()
                } else {
                    left
                },
                values,
                b,
                out + rs,
            ),
        ),
        WaitV::Unify(rest, env, values, any, other, out) => continued(
            back(s, budget),
            t,
            exit,
            out + rs,
            WaitV::Unify(
                if exit is Cut {
                    UnifyRestV::Nothing
                } else {
                    rest
                },
                env,
                values,
                any,
                other && !(exit is Cut),
                out + rs,
            ),
        ),
        WaitV::FoldlLambda(acc, items, n) => {
            let next = match first_value(rs) {
                Some(v) => v,
                None => acc,
            };
            continued(
                back(s, budget),
                t,
                exit,
                plain_results(seq![next]),
                WaitV::FoldlLambda(next, items, n),
            )
        },
        WaitV::MapLambda(items, n, out) => going(
            waiting(
                s,
                WaitV::MapLambda(
                    items,
                    n,
                    out.push(
                        match first_value(rs) {
                            Some(v) => v,
                            None => symbol("()"@),
                        },
                    ),
                ),
            ),
            t,
        ),
        WaitV::FilterLambda(items, n, out) => going(
            waiting(s, WaitV::FilterLambda(items, n, filtered(items, n, out, rs))),
            t,
        ),
        WaitV::MapPattern(items, n, out) => {
            let next = with_some(out, first_value(rs));
            continued(
                back(s, budget),
                t,
                exit,
                plain_results(seq![AtomV::Expr(next)]),
                WaitV::MapPattern(items, n, next),
            )
        },
        WaitV::FilterPattern(items, n, out) => {
            let next = filtered(items, n, out, rs);
            continued(
                back(s, budget),
                t,
                exit,
                plain_results(seq![AtomV::Expr(next)]),
                WaitV::FilterPattern(items, n, next),
            )
        },
        WaitV::Foldall(head, env, _, values, n) => match first_value(rs) {
            None => failing(s, t, "foldall: agg-func produced no result"@),
            Some(v) => going(
                waiting(left_with(s, budget), WaitV::Foldall(head, env, v, values, n)),
                t,
            ),
        },
        WaitV::Forall(_, _, _, _) => if all_true(rs) {
            going(waiting(s, s.wait), t)
        } else {
            going(pushed(s, plain_results(seq![symbol("false"@)])), t)
        },
        WaitV::Foldl(head, acc, items, n) => going(
            waiting(
                left_with(s, budget),
                WaitV::Foldl(
                    head,
                    match first_value(rs) {
                        Some(v) => v,
                        None => acc,
                    },
                    items,
                    n,
                ),
            ),
            t,
        ),
        _ => out_of_step(s, t),
    }
}

/// Take what the machine waits for.
pub fn take_wait(st: &mut VMState) -> (r: Wait)
    ensures
        r == old(st).wait,
        final(st)@ == (VmV { wait: WaitV::Ready, ..old(st)@ }),
        final(st).ip == old(st).ip,
{
    let mut w: Wait = Wait::Ready;
    std::mem::swap(&mut w, &mut st.wait);
    assert(st@ =~= VmV { wait: WaitV::Ready, ..old(st)@ });
    w
}

/// Bring a machine back from a body.
fn come_back(st: &mut VMState, budget: Option<i64>)
    ensures
        final(st)@ == back(old(st)@, budget),
        final(st).ip == old(st).ip,
{
    st.env = st.home.clone();
    st.budget = budget;
    assert(st@ =~= back(old(st)@, budget));
}

/// Bind the value of a step of a chain.
fn deliver_chain(
    st: &mut VMState,
    table: &FnTable,
    steps: &Vec<crate::eval::machine::vm::op::ChainStep>,
    n: usize,
    rs: &ResultSet,
    exit: VmExit,
) -> (r: VmOut)
    ensures
        agrees(
            (r@, final(st)@, table@),
            chain_delivered(
                old(st)@,
                table@,
                steps_view(steps@),
                n as nat,
                results(rs@),
                exit@,
            ),
        ),
{
    assert(steps_view(steps@).len() == steps@.len());
    if n == 0 || n > steps.len() {
        return failure("VM out of step");
    }
    assert(steps_view(steps@)[n - 1].1 == steps@[n - 1].var@);
    let is_cut: bool = match exit {
        VmExit::TailCall(l) => {
            return VmOut::Done(nothing(), st.budget, VmExit::TailCall(l));
        },
        VmExit::Cut => true,
        VmExit::Normal => false,
    };
    match take_first(rs) {
        None => VmOut::Fail(
            joined3("chain: step ", steps[n - 1].var.as_str(), " produced no result"),
        ),
        Some(v) => {
            set_free(st, &steps[n - 1].var, v);
            if is_cut {
                st.cut_executed = true;
            }
            wait_for(st, Wait::Chain(n));
            VmOut::Next
        },
    }
}

/// Hand the results of a body or an evaluation to the machine.
pub fn deliver(
    st: &mut VMState,
    table: &mut FnTable,
    rs: ResultSet,
    budget: Option<i64>,
    exit: VmExit,
) -> (r: VmOut)
    ensures
        agrees(
            (r@, final(st)@, final(table)@),
            delivered(old(st)@, old(table)@, results(rs@), budget, exit@),
        ),
{
    broadcast use {group_results, group_atoms, group_ops, lemma_frames_push};

    let ghost s0 = st@;
    let ghost r0 = results(rs@);
    match &st.wait {
        Wait::Drain(_, _) => {
            match take_wait(st) {
                Wait::Drain(k, out) => {
                    wait_for(st, Wait::Drain(k, join_results(out, rs)));
                },
                _ => {},
            }
            return VmOut::Next;
        },
        Wait::EvalRun => {
            assert(frames(st.frames@).len() == st.frames@.len());
            if st.frames.len() == 0 {
                return failure("VM out of step");
            }
            let mut f = pop_frame(st);
            let ghost f0 = f@;
            let mut all: ResultSet = Vec::new();
            std::mem::swap(&mut all, &mut f.out);
            f.out = join_results(all, rs);
            assert(f@ =~= FrameV { out: f0.out + r0, ..f0 });
            st.frames.push(f);
            st.budget = budget;
            wait_for(st, Wait::Iterate);
            return VmOut::Next;
        },
        _ => {},
    }
    if st.ip >= st.code.len() {
        return failure("VM out of step");
    }
    deliver_here(st, table, rs, budget, exit)
}

/// Hand the results of a body to the machine at an instruction.
#[verifier::rlimit(60)]
fn deliver_here(
    st: &mut VMState,
    table: &mut FnTable,
    rs: ResultSet,
    budget: Option<i64>,
    exit: VmExit,
) -> (r: VmOut)
    requires
        old(st).ip < old(st).code@.len(),
    ensures
        agrees(
            (r@, final(st)@, final(table)@),
            delivered_here(
                old(st)@,
                old(table)@,
                old(st)@.code[old(st).ip as int],
                results(rs@),
                budget,
                exit@,
            ),
        ),
{
    broadcast use {group_results, group_atoms, group_ops};

    let code = st.code.clone();
    let ip: usize = st.ip;
    let n_code: usize = code.len();
    assert(ip < n_code);
    let is_cut: bool = match &exit {
        VmExit::Cut => true,
        _ => false,
    };
    let is_tail: bool = match &exit {
        VmExit::TailCall(_) => true,
        _ => false,
    };
    assert(results(rs@).len() == rs@.len());
    match take_wait(st) {
        Wait::LoopRun(ls, c) => {
            let mut ls = ls;
            let first: Option<Atom> = if rs.len() > 0 {
                Some(rs[0].0.clone())
            } else {
                None
            };
            match feed_loops(&mut ls, first) {
                Ok(_) => {
                    wait_for(st, Wait::Loops(ls, c));
                    VmOut::Next
                },
                Err(m) => VmOut::Fail(m),
            }
        },
        Wait::Push => {
            st.budget = budget;
            push(st, rs);
            VmOut::Next
        },
        Wait::Once => {
            come_back(st, budget);
            end_with(st, table, exit, nothing(), keep_first(rs))
        },
        Wait::WithMutex => {
            st.budget = budget;
            end_with(st, table, exit, nothing(), rs)
        },
        Wait::Within => {
            if !is_tail && rs.len() == 0 {
                return failure("within: expression produced no results");
            }
            come_back(st, budget);
            let mut list: Vec<Atom> = Vec::new();
            list.push(Atom::sym("within"));
            let mut more = atoms_of(&rs);
            let ghost m = more@;
            list.append(&mut more);
            assert(atoms(list@) =~= seq![symbol("within"@)] + atoms(m));
            end_with(st, table, exit, nothing(), single(Atom::expr(list)))
        },
        Wait::Transaction(snap) => {
            come_back(st, budget);
            if is_tail || rs.len() == 0 {
                table.restore(snap);
            }
            end_with(st, table, exit, nothing(), rs)
        },
        Wait::Progn(n, _) => {
            come_back(st, budget);
            continue_with(st, table, exit, nothing(), Wait::Progn(n, rs))
        },
        Wait::Prog1(n, first) => {
            come_back(st, budget);
            let kept = if n == 1 {
                rs
            } else {
                first
            };
            continue_with(st, table, exit, nothing(), Wait::Prog1(n, kept))
        },
        Wait::Chain(n) => match &code[ip] {
            Opcode::Chain { steps, last: _ } => {
                come_back(st, budget);
                deliver_chain(st, table, steps, n, &rs, exit)
            },
            _ => failure("VM out of step"),
        },
        Wait::ChainLast => {
            come_back(st, budget);
            let mut list: Vec<Atom> = Vec::new();
            match take_first(&rs) {
                Some(v) => {
                    list.push(v);
                },
                None => {},
            }
            assert(atoms(list@) =~= with_some(Seq::empty(), first_value(results(rs@))));
            end_with(st, table, exit, nothing(), plain(list))
        },
        Wait::Match(left, values, b, out) => {
            come_back(st, budget);
            let all = join_results(out, rs);
            let done = crate::eval::machine::budget::copy_results(&all);
            let left = if is_cut {
                let none: Vec<(ResultSet, crate::env::Env)> = Vec::new();
                assert(start_values(none@) =~= Seq::empty());
                none
            } else {
                left
            };
            continue_with(st, table, exit, done, Wait::Match(left, values, b, all))
        },
        Wait::Unify(rest, env, values, any, other, out) => {
            come_back(st, budget);
            let all = join_results(out, rs);
            let done = crate::eval::machine::budget::copy_results(&all);
            let rest = if is_cut {
                UnifyRest::Nothing
            } else {
                rest
            };
            continue_with(
                st,
                table,
                exit,
                done,
                Wait::Unify(rest, env, values, any, other && !is_cut, all),
            )
        },
        Wait::FoldlLambda(acc, items, n) => {
            come_back(st, budget);
            let next: Atom = match take_first(&rs) {
                Some(v) => v,
                None => acc,
            };
            let done = single(next.clone());
            continue_with(st, table, exit, done, Wait::FoldlLambda(next, items, n))
        },
        Wait::MapLambda(items, n, out) => {
            let mut out = out;
            let v: Atom = match take_first(&rs) {
                Some(v) => v,
                None => Atom::sym("()"),
            };
            out.push(v);
            wait_for(st, Wait::MapLambda(items, n, out));
            VmOut::Next
        },
        Wait::FilterLambda(items, n, out) => {
            let mut out = out;
            filter_one(&items, n, &mut out, &rs);
            wait_for(st, Wait::FilterLambda(items, n, out));
            VmOut::Next
        },
        Wait::MapPattern(items, n, out) => {
            come_back(st, budget);
            let mut out = out;
            match take_first(&rs) {
                Some(v) => {
                    out.push(v);
                },
                None => {},
            }
            let copy = crate::atom::copy_atoms(&out, 0);
            assert(out@.skip(0) =~= out@);
            let done = single(Atom::expr(copy));
            continue_with(st, table, exit, done, Wait::MapPattern(items, n, out))
        },
        Wait::FilterPattern(items, n, out) => {
            come_back(st, budget);
            let mut out = out;
            filter_one(&items, n, &mut out, &rs);
            let copy = crate::atom::copy_atoms(&out, 0);
            assert(out@.skip(0) =~= out@);
            let done = single(Atom::expr(copy));
            continue_with(st, table, exit, done, Wait::FilterPattern(items, n, out))
        },
        Wait::Foldall(head, env, _, values, n) => match take_first(&rs) {
            None => failure("foldall: agg-func produced no result"),
            Some(v) => {
                st.budget = budget;
                wait_for(st, Wait::Foldall(head, env, v, values, n));
                VmOut::Next
            },
        },
        Wait::Forall(head, front, values, n) => {
            if test_all(&rs) {
                wait_for(st, Wait::Forall(head, front, values, n));
            } else {
                push(st, single(Atom::sym("false")));
            }
            VmOut::Next
        },
        Wait::Foldl(head, acc, items, n) => {
            st.budget = budget;
            let next: Atom = match take_first(&rs) {
                Some(v) => v,
                None => acc,
            };
            wait_for(st, Wait::Foldl(head, next, items, n));
            VmOut::Next
        },
        _ => failure("VM out of step"),
    }
}

/// The machine goes on with values from the host.
pub open spec fn supplied(s: VmV, t: TableV, vs: Seq<AtomV>) -> StepV {
    if s.ip >= s.code.len() {
        out_of_step(s, t)
    } else {
        match s.wait {
            WaitV::CallHost(c) => if c.next >= c.combos.len() {
                out_of_step(s, t)
            } else {
                going(with_values(s, c, vs), t)
            },
            WaitV::LoopHost(ls, c) => match loops_fed(ls, first_of(vs)) {
                Ok(next) => going(waiting(s, WaitV::Loops(next, c)), t),
                Err(m) => failing(s, t, m),
            },
            WaitV::Push => going(pushed(s, plain_results(vs)), t),
            _ => out_of_step(s, t),
        }
    }
}

/// Hand values from the host to the machine.
pub fn supply(st: &mut VMState, table: &FnTable, vs: Vec<Atom>) -> (r: VmOut)
    ensures
        agrees((r@, final(st)@, table@), supplied(old(st)@, table@, atoms(vs@))),
{
    broadcast use {group_atoms, group_ops};

    let n_code: usize = st.code.len();
    if st.ip >= n_code {
        return failure("VM out of step");
    }
    match take_wait(st) {
        Wait::CallHost(c) => {
            let n: usize = c.combos.len();
            assert(c@.combos.len() == n);
            if c.next >= n {
                return failure("VM out of step");
            }
            add_values(st, c, &vs);
            VmOut::Next
        },
        Wait::LoopHost(ls, c) => {
            let mut ls = ls;
            assert(atoms(vs@).len() == vs@.len());
            let first: Option<Atom> = if vs.len() > 0 {
                Some(vs[0].clone())
            } else {
                None
            };
            assert(optional_atom(first) == first_of(atoms(vs@)));
            match feed_loops(&mut ls, first) {
                Ok(_) => {
                    wait_for(st, Wait::Loops(ls, c));
                    VmOut::Next
                },
                Err(m) => VmOut::Fail(m),
            }
        },
        Wait::Push => {
            push(st, plain(vs));
            VmOut::Next
        },
        _ => failure("VM out of step"),
    }
}

/// The machine goes on with an error of what it waited for.
///
/// A failed check counts as false, a failed transaction is undone, and every
/// other error ends the machine.
pub open spec fn refused(s: VmV, t: TableV, m: Seq<char>) -> StepV {
    match s.wait {
        WaitV::Forall(_, _, _, _) => if s.ip >= s.code.len() {
            failing(s, t, m)
        } else {
            going(pushed(s, plain_results(seq![symbol("false"@)])), t)
        },
        WaitV::Transaction(snap) => failing(s, restored(t, snap), m),
        _ => failing(s, t, m),
    }
}

/// Hand an error to the machine.
pub fn refuse(st: &mut VMState, table: &mut FnTable, m: String) -> (r: VmOut)
    ensures
        agrees((r@, final(st)@, final(table)@), refused(old(st)@, old(table)@, m@)),
{
    broadcast use group_ops;

    match take_wait(st) {
        Wait::Forall(_, _, _, _) => {
            let n_code: usize = st.code.len();
            if st.ip >= n_code {
                return VmOut::Fail(m);
            }
            push(st, single(Atom::sym("false")));
            VmOut::Next
        },
        Wait::Transaction(snap) => {
            table.restore(snap);
            VmOut::Fail(m)
        },
        _ => VmOut::Fail(m),
    }
}

/// A transaction that fails, or that ends without a result, leaves functions,
/// spaces and state as they were when it began, whatever its body did to them.
/// One that gives a result keeps what its body did.
pub proof fn transactions_are_undone(
    s: VmV,
    began: TableV,
    body: BlockV,
    t: TableV,
    m: Seq<char>,
    rs: ResultV,
    budget: Option<i64>,
)
    requires
        s.ip < s.code.len(),
    ensures
        ({
            let w = transaction_started(s, began, body).1;
            &&& snapshot_of(refused(w, t, m).2) == snapshot_of(began)
            &&& refused(w, t, m).0 == VmOutV::Fail(m)
            &&& rs.len() == 0 ==> snapshot_of(delivered(w, t, rs, budget, ExitV::Normal).2)
                == snapshot_of(began)
            &&& rs.len() > 0 ==> delivered(w, t, rs, budget, ExitV::Normal).2 == t
        }),
{
}

} // verus!
