//! Instructions of the bytecode machine that open frames, and how frames end.
use crate::atom::Atom;
use crate::atom::AtomV;
use crate::atom::atoms;
use crate::atom::group_atoms;
use crate::compile::reify::atom_to_expr;
use crate::compile::reify::to_expr;
use crate::env::Env;
use crate::env::EnvV;
use crate::eval::forms::query::lookup_user_clauses;
use crate::eval::machine::budget::ResultSet;
use crate::eval::machine::budget::ResultV;
use crate::eval::machine::budget::group_results;
use crate::eval::machine::budget::raw_atoms;
use crate::eval::machine::budget::results;
use crate::eval::machine::vm::call::ClauseCalls;
use crate::eval::machine::vm::call::clause_calls;
use crate::eval::machine::vm::call::clause_codes;
use crate::eval::machine::vm::call::compile_clauses;
use crate::eval::machine::vm::call::lemma_codes_len;
use crate::eval::machine::vm::call::match_clauses;
use crate::eval::machine::vm::iterate::add_frame;
use crate::eval::machine::vm::iterate::join_results;
use crate::eval::machine::vm::iterate::pop_frame;
use crate::eval::machine::vm::iterate::return_from;
use crate::eval::machine::vm::iterate::returned;
use crate::eval::machine::vm::iterate::with_frame;
use crate::eval::machine::vm::op::CaseBranch;
use crate::eval::machine::vm::op::Opcode;
use crate::eval::machine::vm::op::OpcodeV;
use crate::eval::machine::vm::op::PatternBody;
use crate::eval::machine::vm::op::PatternBodyV;
use crate::eval::machine::vm::op::branches;
use crate::eval::machine::vm::op::ops;
use crate::eval::machine::vm::outcome::ExitV;
use crate::eval::machine::vm::outcome::StepV;
use crate::eval::machine::vm::outcome::VmExit;
use crate::eval::machine::vm::outcome::VmOut;
use crate::eval::machine::vm::outcome::VmOutV;
use crate::eval::machine::vm::plain::agrees;
use crate::eval::machine::vm::plain::failing;
use crate::eval::machine::vm::plain::failure;
use crate::eval::machine::vm::plain::going;
use crate::eval::machine::vm::plain::locals_popped;
use crate::eval::machine::vm::plain::pop;
use crate::eval::machine::vm::plain::pop_locals;
use crate::eval::machine::vm::plain::popped;
use crate::eval::machine::vm::plain::top;
use crate::eval::machine::vm::state::CallFrame;
use crate::eval::machine::vm::state::CallFrameKind;
use crate::eval::machine::vm::state::FrameV;
use crate::eval::machine::vm::state::KindV;
use crate::eval::machine::vm::state::PendingCall;
use crate::eval::machine::vm::state::PendingV;
use crate::eval::machine::vm::state::VMState;
use crate::eval::machine::vm::state::VmV;
use crate::eval::machine::vm::state::Wait;
use crate::eval::machine::vm::state::WaitV;
use crate::eval::machine::vm::state::frames;
use crate::eval::machine::vm::state::lemma_frames_push;
use crate::eval::machine::vm::state::pendings;
use crate::eval::machine::vm::state::target_values;
use crate::eval::shared::env::linked;
use crate::eval::shared::env::prepend_chain;
use crate::eval::shared::pattern::KnownV;
use crate::eval::shared::pattern::PatternValue;
use crate::eval::shared::pattern::known_values;
use crate::expr::Expr;
use crate::expr::ExprV;
use crate::func::FnTable;
use crate::func::TableV;
use crate::func::clauses;
use crate::text::texts;
use std::sync::Arc;
use vstd::prelude::*;
use vstd::string::*;

verus! {

/// Opening a frame over the values on the stack.
pub open spec fn let_opened(s: VmV, t: TableV, p: PatternBodyV) -> StepV {
    if s.stack.len() == 0 {
        failing(s, t, "VM stack underflow on Let"@)
    } else {
        going(with_frame(popped(s, 1), KindV::Let(top(s, 0), p), Seq::empty()), t)
    }
}

/// Open a frame that binds the values on the stack.
pub fn open_let(st: &mut VMState, table: &FnTable, p: &PatternBody) -> (r: VmOut)
    requires
        old(st).ip < usize::MAX,
    ensures
        agrees((r@, final(st)@, table@), let_opened(old(st)@, table@, p@)),
{
    match pop(st) {
        None => failure("VM stack underflow on Let"),
        Some(rs) => {
            let out: ResultSet = Vec::new();
            assert(results(out@) =~= Seq::empty());
            add_frame(st, CallFrameKind::Let { values: Arc::new(rs), pattern: p.clone() }, out);
            VmOut::Next
        },
    }
}

/// Opening a frame over the values of a condition.
pub open spec fn if_opened(
    s: VmV,
    t: TableV,
    yes: Seq<OpcodeV>,
    no: Seq<OpcodeV>,
    free: Seq<Seq<char>>,
) -> StepV {
    if s.stack.len() == 0 {
        failing(s, t, "VM stack underflow on If"@)
    } else {
        going(with_frame(popped(s, 1), KindV::If(top(s, 0), yes, no, free), Seq::empty()), t)
    }
}

/// Open a frame over the values of a condition.
pub fn open_if(
    st: &mut VMState,
    table: &FnTable,
    yes: &Arc<Vec<Opcode>>,
    no: &Arc<Vec<Opcode>>,
    free: &Arc<Vec<String>>,
) -> (r: VmOut)
    requires
        old(st).ip < usize::MAX,
    ensures
        agrees(
            (r@, final(st)@, table@),
            if_opened(old(st)@, table@, ops(yes@), ops(no@), texts(free@)),
        ),
{
    match pop(st) {
        None => failure("VM stack underflow on If"),
        Some(rs) => {
            let out: ResultSet = Vec::new();
            assert(results(out@) =~= Seq::empty());
            add_frame(
                st,
                CallFrameKind::If {
                    values: Arc::new(rs),
                    then_code: yes.clone(),
                    else_code: no.clone(),
                    free_vars: free.clone(),
                },
                out,
            );
            VmOut::Next
        },
    }
}

/// Opening a frame over the values that a `case` looks at.
pub open spec fn case_opened(s: VmV, t: TableV, bs: Seq<PatternBodyV>) -> StepV {
    if s.stack.len() == 0 {
        failing(s, t, "VM stack underflow on Case"@)
    } else {
        going(with_frame(popped(s, 1), KindV::Case(top(s, 0), bs), Seq::empty()), t)
    }
}

/// Open a frame over the values that a `case` looks at.
pub fn open_case(st: &mut VMState, table: &FnTable, bs: &Arc<Vec<CaseBranch>>) -> (r: VmOut)
    requires
        old(st).ip < usize::MAX,
    ensures
        agrees((r@, final(st)@, table@), case_opened(old(st)@, table@, branches(bs@))),
{
    match pop(st) {
        None => failure("VM stack underflow on Case"),
        Some(rs) => {
            let out: ResultSet = Vec::new();
            assert(results(out@) =~= Seq::empty());
            add_frame(st, CallFrameKind::Case { values: Arc::new(rs), branches: bs.clone() }, out);
            VmOut::Next
        },
    }
}

/// What `eval` evaluates for a value: the body of an anonymous function without
/// parameters in the function's own environment, or the value as an
/// expression.
pub open spec fn eval_target(a: AtomV, env: EnvV) -> (ExprV, EnvV) {
    if a is Closure && a->Closure_0.len() == 0 {
        (a->Closure_1, *a->Closure_2)
    } else {
        (to_expr(a), env)
    }
}

/// What `eval` evaluates for values.
pub open spec fn eval_targets(r: ResultV) -> Seq<(ExprV, EnvV)> {
    Seq::new(r.len(), |i: int| eval_target(r[i].0, r[i].1))
}

/// Opening a frame over the values that `eval` evaluates.
pub open spec fn eval_opened(s: VmV, t: TableV) -> StepV {
    if s.stack.len() == 0 {
        failing(s, t, "VM stack underflow on Eval"@)
    } else {
        going(
            with_frame(popped(s, 1), KindV::Eval(eval_targets(top(s, 0))), Seq::empty()),
            t,
        )
    }
}

/// Find what `eval` evaluates for a value.
fn find_target(a: &Atom, env: &Env) -> (r: (Expr, Env))
    ensures
        (r.0@, r.1@) == eval_target(a@, env@),
{
    match a {
        Atom::Closure(c) => {
            assert(crate::expr::exprs(c.params@).len() == c.params@.len());
            if c.params.len() == 0 {
                return (c.body.clone(), c.env.clone());
            }
        },
        _ => {},
    }
    match atom_to_expr(a) {
        Ok(e) => (e, env.clone()),
        Err(m) => (Expr::Symbol(m), env.clone()),
    }
}

/// Open a frame over the values that `eval` evaluates.
pub fn open_eval(st: &mut VMState, table: &FnTable) -> (r: VmOut)
    requires
        old(st).ip < usize::MAX,
    ensures
        agrees((r@, final(st)@, table@), eval_opened(old(st)@, table@)),
{
    match pop(st) {
        None => failure("VM stack underflow on Eval"),
        Some(rs) => {
            let ghost want = eval_targets(results(rs@));
            let mut targets: Vec<(Expr, Env)> = Vec::new();
            let mut i: usize = 0;
            assert(target_values(targets@) =~= want.take(0));
            while i < rs.len()
                invariant
                    i <= rs@.len(),
                    want == eval_targets(results(rs@)),
                    target_values(targets@) == want.take(i as int),
                decreases rs@.len() - i,
            {
                let ghost before = targets@;
                let x = find_target(&rs[i].0, &rs[i].1);
                targets.push(x);
                assert(target_values(targets@) =~= target_values(before).push((x.0@, x.1@)));
                assert(want.take(i + 1) =~= want.take(i as int).push(want[i as int]));
                i += 1;
            }
            assert(want.take(rs@.len() as int) =~= want);
            let out: ResultSet = Vec::new();
            assert(results(out@) =~= Seq::empty());
            add_frame(st, CallFrameKind::Eval { targets: Arc::new(targets) }, out);
            VmOut::Next
        },
    }
}

/// Results with an environment behind their own.
pub open spec fn over_env(r: ResultV, env: EnvV) -> ResultV {
    Seq::new(r.len(), |i: int| (r[i].0, linked(r[i].1, env)))
}

/// Put an environment behind those of results.
pub fn put_behind(rs: &ResultSet, env: &Env) -> (r: ResultSet)
    ensures
        results(r@) == over_env(results(rs@), env@),
{
    broadcast use group_results;

    let ghost want = over_env(results(rs@), env@);
    let mut out: ResultSet = Vec::new();
    let mut i: usize = 0;
    assert(results(out@) =~= want.take(0));
    while i < rs.len()
        invariant
            i <= rs@.len(),
            want == over_env(results(rs@), env@),
            results(out@) == want.take(i as int),
        decreases rs@.len() - i,
    {
        out.push((rs[i].0.clone(), prepend_chain(rs[i].1.clone(), env)));
        assert(want.take(i + 1) =~= want.take(i as int).push(want[i as int]));
        i += 1;
    }
    assert(want.take(rs@.len() as int) =~= want);
    out
}

/// The topmost result, or nothing.
pub open spec fn last_result(s: VmV) -> ResultV {
    if s.stack.len() > 0 {
        s.stack.last()
    } else {
        Seq::empty()
    }
}

/// The state without the topmost result, if there is one.
pub open spec fn without_last(s: VmV) -> VmV {
    if s.stack.len() > 0 {
        popped(s, 1)
    } else {
        s
    }
}

/// The end of code: the topmost frame collects the result and takes its next
/// turn, or the machine is done.
pub open spec fn code_ended(s: VmV, t: TableV) -> StepV {
    let rs = last_result(s);
    let below = without_last(s);
    if s.frames.len() == 0 {
        (
            VmOutV::Done(
                over_env(rs, s.env),
                s.budget,
                if s.cut {
                    ExitV::Cut
                } else {
                    ExitV::Normal
                },
            ),
            s,
            t,
        )
    } else {
        let f = s.frames.last();
        let saves = f.kind is Call || f.kind is Eval;
        let g = FrameV {
            out: f.out + (if f.kind is Call {
                over_env(rs, s.env)
            } else {
                rs
            }),
            locals_to_pop: if saves {
                f.locals_to_pop
            } else {
                0
            },
            ..f
        };
        let after = VmV {
            locals: if saves {
                f.saved_locals
            } else {
                locals_popped(s.locals, f.locals_to_pop as int)
            },
            frames: s.frames.drop_last().push(g),
            ..below
        };
        if s.cut {
            going(returned(after, g.out), t)
        } else {
            going(VmV { wait: WaitV::Iterate, known: Seq::empty(), ..after }, t)
        }
    }
}

/// End code.
pub fn end_code(st: &mut VMState, table: &FnTable) -> (r: VmOut)
    ensures
        agrees((r@, final(st)@, table@), code_ended(old(st)@, table@)),
{
    broadcast use {group_results, lemma_frames_push};

    let ghost s0 = st@;
    let rs: ResultSet = match pop(st) {
        Some(rs) => rs,
        None => {
            let none: ResultSet = Vec::new();
            assert(results(none@) =~= Seq::empty());
            none
        },
    };
    assert(results(rs@) == last_result(s0));
    assert(st@ == without_last(s0));
    assert(frames(st.frames@).len() == st.frames@.len());
    if st.frames.len() == 0 {
        let out = put_behind(&rs, &st.env);
        let exit = if st.cut_executed {
            VmExit::Cut
        } else {
            VmExit::Normal
        };
        return VmOut::Done(out, st.budget, exit);
    }
    let mut f = pop_frame(st);
    let ghost f0 = f@;
    let ghost below = st@;
    let is_call: bool = match &f.kind {
        CallFrameKind::Call { .. } => true,
        _ => false,
    };
    let is_eval: bool = match &f.kind {
        CallFrameKind::Eval { .. } => true,
        _ => false,
    };
    let more = if is_call {
        put_behind(&rs, &st.env)
    } else {
        rs
    };
    let mut all: ResultSet = Vec::new();
    assert(results(all@) =~= Seq::empty());
    std::mem::swap(&mut all, &mut f.out);
    f.out = join_results(all, more);
    if is_call || is_eval {
        st.locals = crate::eval::machine::budget::copy_results(&f.saved_locals);
    } else {
        pop_locals(&mut st.locals, f.locals_to_pop);
        f.locals_to_pop = 0;
    }
    let ghost g = f@;
    let ghost after = VmV { frames: below.frames.push(g), locals: st@.locals, ..below };
    assert(g =~= FrameV {
        out: f0.out + (if f0.kind is Call {
            over_env(last_result(s0), s0.env)
        } else {
            last_result(s0)
        }),
        locals_to_pop: if f0.kind is Call || f0.kind is Eval {
            f0.locals_to_pop
        } else {
            0
        },
        ..f0
    });
    if st.cut_executed {
        let out = crate::eval::machine::budget::copy_results(&f.out);
        return_from(st, f, out);
        VmOut::Next
    } else {
        st.frames.push(f);
        st.wait = Wait::Iterate;
        st.known = Vec::new();
        assert(known_values(st.known@) =~= Seq::empty());
        assert(st@ =~= VmV { wait: WaitV::Iterate, known: Seq::empty(), ..after });
        VmOut::Next
    }
}

/// How many turns a frame takes.
pub open spec fn turns(k: KindV) -> nat {
    match k {
        KindV::Let(values, _) => values.len(),
        KindV::If(values, _, _, _) => values.len(),
        KindV::Case(values, _) => values.len(),
        KindV::Call(_, _, pending, _) => pending.len(),
        KindV::Eval(targets) => targets.len(),
    }
}

/// Whether a frame down to the topmost call has turns left, and the position of
/// that call.
pub open spec fn tail_scan(fs: Seq<FrameV>) -> (bool, Option<int>)
    decreases fs.len(),
{
    if fs.len() == 0 {
        (false, None)
    } else {
        let f = fs.last();
        let left = f.next < turns(f.kind);
        if f.kind is Call {
            (left, Some(fs.len() - 1))
        } else {
            let below = tail_scan(fs.drop_last());
            (left || below.0, below.1)
        }
    }
}

/// Scan the frames down to the topmost call.
fn scan_tail(fs: &Vec<CallFrame>) -> (r: (bool, Option<usize>))
    ensures
        r.0 == tail_scan(frames(fs@)).0,
        (match r.1 {
            Some(k) => tail_scan(frames(fs@)).1 == Some(k as int) && k < fs@.len() && frames(
                fs@,
            )[k as int].kind is Call,
            None => tail_scan(frames(fs@)).1 is None,
        }),
{
    let ghost all = frames(fs@);
    let mut n: usize = fs.len();
    let mut left: bool = false;
    assert(all.take(n as int) =~= all);
    while n > 0
        invariant
            n <= fs@.len(),
            all == frames(fs@),
            tail_scan(all) == (
                left || tail_scan(all.take(n as int)).0,
                tail_scan(all.take(n as int)).1,
            ),
        decreases n,
    {
        let f = &fs[n - 1];
        assert(all.take(n as int).last() == f@);
        assert(all.take(n as int).drop_last() =~= all.take(n - 1));
        let count: usize = match &f.kind {
            CallFrameKind::Let { values, .. } => values.len(),
            CallFrameKind::If { values, .. } => values.len(),
            CallFrameKind::Case { values, .. } => values.len(),
            CallFrameKind::Call { pending, .. } => pending.len(),
            CallFrameKind::Eval { targets } => targets.len(),
        };
        assert(count == turns(f@.kind));
        left = left || f.next < count;
        match &f.kind {
            CallFrameKind::Call { .. } => {
                return (left, Some(n - 1));
            },
            _ => {},
        }
        n = n - 1;
    }
    assert(all.take(0) =~= Seq::<FrameV>::empty());
    (left, None)
}

/// The calls of the clauses of a function.
pub enum NewCallsV {
    /// These calls.
    Calls(Seq<PendingV>),
    /// A value is missing.
    Ask(ExprV, EnvV),
    /// An error.
    Fail(Seq<char>),
}

/// The calls of the clauses of a function that match arguments.
pub open spec fn new_calls(
    name: Seq<char>,
    arity: u8,
    args: Seq<AtomV>,
    env: EnvV,
    t: TableV,
    known: Seq<KnownV>,
) -> NewCallsV {
    match t.clauses_of(name, arity) {
        None => NewCallsV::Calls(Seq::empty()),
        Some(cs) => match clause_codes(cs, name) {
            Err(m) => NewCallsV::Fail(m),
            Ok(bs) => match clause_calls(cs, bs, args, env, known) {
                Err(q) => NewCallsV::Ask(q.0, q.1),
                Ok(p) => NewCallsV::Calls(p),
            },
        },
    }
}

/// The calls of the clauses of a function.
enum NewCalls {
    /// These calls.
    Calls(Vec<PendingCall>),
    /// The value of this expression in this environment is needed first.
    Ask(Expr, Env),
    /// An error.
    Fail(String),
}

/// The value of calls.
spec fn calls_value(c: NewCalls) -> NewCallsV {
    match c {
        NewCalls::Calls(p) => NewCallsV::Calls(pendings(p@)),
        NewCalls::Ask(x, e) => NewCallsV::Ask(x@, e@),
        NewCalls::Fail(m) => NewCallsV::Fail(m@),
    }
}

/// Find the calls of the clauses of a function that match arguments.
fn find_calls(
    name: &str,
    arity: u8,
    args: &Vec<Atom>,
    env: &Env,
    table: &FnTable,
    known: &Vec<PatternValue>,
) -> (r: NewCalls)
    ensures
        calls_value(r) == new_calls(
            name@,
            arity,
            atoms(args@),
            env@,
            table@,
            known_values(known@),
        ),
{
    match lookup_user_clauses(name, arity, table) {
        None => {
            let none: Vec<PendingCall> = Vec::new();
            assert(pendings(none@) =~= Seq::<PendingV>::empty());
            NewCalls::Calls(none)
        },
        Some(cs) => match compile_clauses(&cs, name) {
            Err(m) => NewCalls::Fail(m),
            Ok(bs) => {
                proof {
                    lemma_codes_len(clauses(cs@), name@);
                }
                match match_clauses(&cs, &bs, args, env, known) {
                    ClauseCalls::Ask(x, e) => NewCalls::Ask(x, e),
                    ClauseCalls::Calls(p) => NewCalls::Calls(p),
                }
            },
        },
    }
}

/// The new arguments of a function that calls itself: its first local
/// variables.
pub open spec fn self_args(locals: ResultV, arity: u8) -> Seq<AtomV> {
    raw_atoms(
        locals.take(
            if (arity as int) < locals.len() {
                arity as int
            } else {
                locals.len() as int
            },
        ),
    )
}

/// Find the new arguments of a function that calls itself.
fn find_self_args(locals: &ResultSet, arity: u8) -> (r: Vec<Atom>)
    ensures
        atoms(r@) == self_args(results(locals@), arity),
{
    broadcast use group_atoms;

    let ghost want = self_args(results(locals@), arity);
    let mut out: Vec<Atom> = Vec::new();
    let mut i: usize = 0;
    assert(atoms(out@) =~= want.take(0));
    while i < arity as usize && i < locals.len()
        invariant
            i <= arity,
            i <= locals@.len(),
            want == self_args(results(locals@), arity),
            atoms(out@) == want.take(i as int),
        decreases arity - i,
    {
        out.push(locals[i].0.clone());
        assert(want.take(i + 1) =~= want.take(i as int).push(want[i as int]));
        i += 1;
    }
    assert(want.take(i as int) =~= want);
    out
}

/// A function calls itself at its end.
///
/// While alternatives are left, the call gets a frame of its own. Otherwise
/// the frame of the running call is used again, and without such a frame the
/// machine asks to be run again.
pub open spec fn self_called(s: VmV, t: TableV) -> StepV {
    let (left, call) = tail_scan(s.frames);
    match call {
        None => (VmOutV::Done(Seq::empty(), s.budget, ExitV::TailCall(s.locals)), s, t),
        Some(k) => {
            let f = s.frames[k];
            let name = f.kind->Call_0;
            let arity = f.kind->Call_1;
            match new_calls(name, arity, self_args(s.locals, arity), s.env, t, s.known) {
                NewCallsV::Fail(m) => failing(s, t, m),
                NewCallsV::Ask(x, e) => (VmOutV::Ask(x, e), s, t),
                NewCallsV::Calls(p) => if left {
                    going(with_frame(s, KindV::Call(name, arity, p, None), Seq::empty()), t)
                } else {
                    going(frame_reused(s, k, p), t)
                },
            }
        },
    }
}

/// The state in which the frame of a call is used again for other calls.
pub open spec fn frame_reused(s: VmV, k: int, p: Seq<PendingV>) -> VmV {
    let f = s.frames[k];
    VmV {
        locals: f.saved_locals,
        frames: s.frames.take(k).push(
            FrameV {
                kind: KindV::Call(f.kind->Call_0, f.kind->Call_1, p, f.kind->Call_3),
                next: 0,
                locals_to_pop: 0,
                ..f
            },
        ),
        wait: WaitV::Iterate,
        known: Seq::empty(),
        ..s
    }
}

/// Use the frame of a call again for other calls.
fn reuse_frame(st: &mut VMState, k: usize, p: Vec<PendingCall>)
    requires
        k < old(st).frames@.len(),
        old(st)@.frames[k as int].kind is Call,
    ensures
        final(st)@ == frame_reused(old(st)@, k as int, pendings(p@)),
{
    broadcast use lemma_frames_push;

    let ghost s0 = st@;
    let n: usize = st.frames.len();
    assert(k < n);
    st.frames.truncate(k + 1);
    assert(frames(st.frames@) =~= s0.frames.take(k + 1));
    let ghost s1 = st@;
    let mut f = pop_frame(st);
    assert(s1.frames.drop_last() =~= s0.frames.take(k as int));
    let ghost f0 = f@;
    assert(f0 == s0.frames[k as int]);
    match f.kind {
        CallFrameKind::Call { name: n, arity: a, pending: _, memo: m } => {
            f.kind = CallFrameKind::Call { name: n, arity: a, pending: Arc::new(p), memo: m };
        },
        other => {
            f.kind = other;
        },
    }
    st.locals = crate::eval::machine::budget::copy_results(&f.saved_locals);
    f.next = 0;
    f.locals_to_pop = 0;
    assert(f@ =~= FrameV {
        kind: KindV::Call(f0.kind->Call_0, f0.kind->Call_1, pendings(p@), f0.kind->Call_3),
        next: 0,
        locals_to_pop: 0,
        ..f0
    });
    st.frames.push(f);
    st.wait = Wait::Iterate;
    st.known = Vec::new();
    assert(known_values(st.known@) =~= Seq::empty());
    assert(st@ =~= frame_reused(s0, k as int, pendings(p@)));
}

/// Let a function call itself at its end.
pub fn call_self(st: &mut VMState, table: &FnTable) -> (r: VmOut)
    requires
        old(st).ip < usize::MAX,
    ensures
        agrees((r@, final(st)@, table@), self_called(old(st)@, table@)),
{
    broadcast use {group_results, group_atoms, lemma_frames_push};

    let ghost s0 = st@;
    assert(frames(st.frames@).len() == st.frames@.len());
    let (left, call) = scan_tail(&st.frames);
    match call {
        None => {
            let none: ResultSet = Vec::new();
            assert(results(none@) =~= Seq::empty());
            let locals = crate::eval::machine::budget::copy_results(&st.locals);
            VmOut::Done(none, st.budget, VmExit::TailCall(locals))
        },
        Some(k) => match &st.frames[k].kind {
            CallFrameKind::Call { name, arity, pending, memo } => {
                let arity: u8 = *arity;
                let name: String = name.clone();
                let args = find_self_args(&st.locals, arity);
                assert(s0.frames[k as int] == st.frames@[k as int]@);
                match find_calls(name.as_str(), arity, &args, &st.env, table, &st.known) {
                    NewCalls::Fail(m) => VmOut::Fail(m),
                    NewCalls::Ask(x, e) => VmOut::Ask(x, e),
                    NewCalls::Calls(p) => {
                        if left {
                            let out: ResultSet = Vec::new();
                            assert(results(out@) =~= Seq::empty());
                            add_frame(
                                st,
                                CallFrameKind::Call { name, arity, pending: Arc::new(p), memo: None },
                                out,
                            );
                            return VmOut::Next;
                        }
                        reuse_frame(st, k, p);
                        VmOut::Next
                    },
                }
            },
            _ => VmOut::Next,
        },
    }
}

} // verus!
