//! Instructions of the bytecode machine that apply functions or ask the host.
use crate::atom::Atom;
use crate::atom::AtomV;
use crate::atom::atoms;
use crate::atom::copy_atoms;
use crate::atom::group_atoms;
use crate::atom::symbol;
use crate::builtins::Answer;
use crate::builtins::AnswerV;
use crate::builtins::ListLoop;
use crate::builtins::LoopV;
use crate::builtins::call_builtin;
use crate::builtins::called;
use crate::builtins::loops::LoopsOut;
use crate::builtins::loops::LoopsOutV;
use crate::builtins::loops::loops;
use crate::builtins::loops::loops_stepped;
use crate::builtins::loops::step_loops;
use crate::env::Env;
use crate::env::EnvV;
use crate::eval::machine::budget::ComboV;
use crate::eval::machine::budget::ResultSet;
use crate::eval::machine::budget::ResultV;
use crate::eval::machine::budget::combo_values;
use crate::eval::machine::budget::combos;
use crate::eval::machine::budget::result_sets;
use crate::eval::machine::budget::results;
use crate::eval::machine::budget::threaded_combinations;
use crate::eval::machine::vm::bodies::first_value;
use crate::eval::machine::vm::bodies::take_first;
use crate::eval::machine::vm::bodies::wait_for;
use crate::eval::machine::vm::bodies::waiting;
use crate::eval::machine::vm::call::Dispatch;
use crate::eval::machine::vm::call::DispatchV;
use crate::eval::machine::vm::call::dispatch_call;
use crate::eval::machine::vm::call::dispatched;
use crate::eval::machine::vm::call::in_env;
use crate::eval::machine::vm::call::with_env;
use crate::eval::machine::vm::iterate::add_frame;
use crate::eval::machine::vm::iterate::join_results;
use crate::eval::machine::vm::iterate::with_frame;
use crate::eval::machine::vm::outcome::HostCall;
use crate::eval::machine::vm::outcome::HostV;
use crate::eval::machine::vm::outcome::StepV;
use crate::eval::machine::vm::outcome::VmOut;
use crate::eval::machine::vm::outcome::VmOutV;
use crate::eval::machine::vm::plain::agrees;
use crate::eval::machine::vm::plain::failing;
use crate::eval::machine::vm::plain::failure;
use crate::eval::machine::vm::plain::going;
use crate::eval::machine::vm::plain::pop;
use crate::eval::machine::vm::plain::popped;
use crate::eval::machine::vm::plain::push;
use crate::eval::machine::vm::plain::pushed;
use crate::eval::machine::vm::plain::top;
use crate::eval::machine::vm::state::Calls;
use crate::eval::machine::vm::state::CallsV;
use crate::eval::machine::vm::state::CallFrameKind;
use crate::eval::machine::vm::state::KindV;
use crate::eval::machine::vm::state::PendingCall;
use crate::eval::machine::vm::state::PendingV;
use crate::eval::machine::vm::state::VMState;
use crate::eval::machine::vm::state::VmV;
use crate::eval::machine::vm::state::Wait;
use crate::eval::machine::vm::state::WaitV;
use crate::eval::machine::vm::state::memo_key;
use crate::eval::machine::vm::state::pendings;
use crate::expr::Expr;
use crate::func::FnTable;
use crate::func::TableV;
use crate::text::chars_of;
use crate::text::same;
use crate::text::texts;
use std::sync::Arc;
use vstd::prelude::*;
use vstd::string::*;

verus! {

/// Starting to apply heads to arguments: all combinations of their values are
/// worked through.
pub open spec fn call_started(s: VmV, t: TableV, arity: u8) -> StepV {
    if s.stack.len() == 0 {
        failing(s, t, "VM stack underflow on Call head"@)
    } else if s.stack.len() < arity + 1 {
        failing(s, t, "VM stack underflow on Call arg"@)
    } else {
        let len = s.stack.len() as int;
        let sets = seq![s.stack.last()] + s.stack.subrange(len - 1 - arity, len - 1);
        going(
            waiting(
                popped(s, arity + 1),
                WaitV::Calls(
                    CallsV {
                        arity,
                        combos: combos(sets),
                        next: 0,
                        out: Seq::empty(),
                        pending: Seq::empty(),
                        memo: None,
                    },
                ),
            ),
            t,
        )
    }
}

/// Start to apply heads to arguments.
pub fn start_call(st: &mut VMState, table: &FnTable, arity: u8) -> (r: VmOut)
    ensures
        agrees((r@, final(st)@, table@), call_started(old(st)@, table@, arity)),
{
    let ghost s0 = st@;
    let ghost len = s0.stack.len() as int;
    match pop(st) {
        None => failure("VM stack underflow on Call head"),
        Some(head) => {
            let mut taken: Vec<ResultSet> = Vec::new();
            let mut i: u8 = 0;
            while i < arity
                invariant
                    i <= arity,
                    s0 == old(st)@,
                    len == s0.stack.len(),
                    1 + i <= len,
                    st@ == popped(s0, 1 + i),
                    taken@.len() == i,
                    forall|k: int|
                        0 <= k < i ==> results(#[trigger] taken@[k]@) == s0.stack[len - 2 - k],
                decreases arity - i,
            {
                match pop(st) {
                    None => {
                        return failure("VM stack underflow on Call arg");
                    },
                    Some(rs) => {
                        taken.push(rs);
                        assert(st@ =~= popped(s0, 2 + i));
                    },
                }
                i += 1;
            }
            let ghost args = s0.stack.subrange(len - 1 - arity, len - 1);
            let mut sets: Vec<ResultSet> = Vec::new();
            sets.push(head);
            let ghost want = seq![s0.stack.last()] + args;
            assert(result_sets(sets@) =~= want.take(1));
            while taken.len() > 0
                invariant
                    len == s0.stack.len(),
                    arity + 1 <= len,
                    taken@.len() <= arity,
                    args == s0.stack.subrange(len - 1 - arity, len - 1),
                    want == seq![s0.stack.last()] + args,
                    forall|k: int|
                        0 <= k < taken@.len() ==> results(#[trigger] taken@[k]@) == s0.stack[len - 2
                            - k],
                    result_sets(sets@) == want.take(1 + arity - taken@.len()),
                decreases taken@.len(),
            {
                let ghost n = taken@.len() as int;
                let ghost before = sets@;
                let ghost was = taken@;
                match taken.pop() {
                    Some(rs) => {
                        assert(was[n - 1] == rs);
                        sets.push(rs);
                        assert(result_sets(sets@) =~= result_sets(before).push(results(rs@)));
                        assert(want[1 + arity - n] == s0.stack[len - 1 - n]);
                        assert(want.take(1 + arity - n + 1) =~= want.take(1 + arity - n).push(
                            want[1 + arity - n],
                        ));
                    },
                    None => {},
                }
            }
            assert(want.take(1 + arity) =~= want);
            let list = threaded_combinations(&sets);
            let out: ResultSet = Vec::new();
            let pending: Vec<PendingCall> = Vec::new();
            assert(results(out@) =~= Seq::empty());
            assert(pendings(pending@) =~= Seq::<PendingV>::empty());
            wait_for(
                st,
                Wait::Calls(Calls { arity, combos: list, next: 0, out, pending, memo: None }),
            );
            VmOut::Next
        },
    }
}

/// Combinations after the results of the next one.
pub open spec fn calls_with(c: CallsV, rs: ResultV) -> CallsV {
    CallsV { out: c.out + rs, next: c.next + 1, ..c }
}

/// Add the results of the next combination.
pub fn add_results(c: &mut Calls, rs: ResultSet)
    requires
        old(c).next < usize::MAX,
    ensures
        final(c)@ == calls_with(old(c)@, results(rs@)),
        final(c).combos == old(c).combos,
        final(c).arity == old(c).arity,
{
    let mut all: ResultSet = Vec::new();
    std::mem::swap(&mut all, &mut c.out);
    c.out = join_results(all, rs);
    c.next = c.next + 1;
    assert(c@ =~= calls_with(old(c)@, results(rs@)));
}

/// The environment of the next combination.
pub open spec fn combo_env(c: CallsV) -> EnvV {
    if c.next < c.combos.len() {
        c.combos[c.next as int].1
    } else {
        EnvV::Empty
    }
}

/// Find the environment of the next combination.
pub fn find_combo_env(c: &Calls) -> (r: Env)
    ensures
        r@ == combo_env(c@),
{
    assert(combo_values(c.combos@).len() == c.combos@.len());
    if c.next < c.combos.len() {
        c.combos[c.next].1.clone()
    } else {
        Env::new()
    }
}

/// The state after the values of the next combination.
pub open spec fn with_values(s: VmV, c: CallsV, vs: Seq<AtomV>) -> VmV {
    waiting(s, WaitV::Calls(calls_with(c, in_env(vs, combo_env(c)))))
}

/// Add the values of the next combination.
pub fn add_values(st: &mut VMState, c: Calls, vs: &Vec<Atom>)
    requires
        c.next < usize::MAX,
    ensures
        final(st)@ == with_values(old(st)@, c@, atoms(vs@)),
{
    let mut c = c;
    let env = find_combo_env(&c);
    let rs = with_env(vs, &env);
    add_results(&mut c, rs);
    wait_for(st, Wait::Calls(c));
}

/// The name of the function that combinations start with.
pub open spec fn call_name(cs: Seq<ComboV>) -> Seq<char> {
    if cs.len() > 0 && cs[0].0.len() > 0 && cs[0].0[0] is Sym {
        cs[0].0[0]->Sym_0
    } else {
        ""@
    }
}

/// Find the name of the function that combinations start with.
fn find_call_name(cs: &Vec<(Vec<Atom>, Env)>) -> (r: String)
    ensures
        r@ == call_name(combo_values(cs@)),
{
    broadcast use group_atoms;

    assert(combo_values(cs@).len() == cs@.len());
    if cs.len() > 0 {
        assert(combo_values(cs@)[0].0 == atoms(cs@[0].0@));
        assert(atoms(cs@[0].0@).len() == cs@[0].0@.len());
        if cs[0].0.len() > 0 {
            match &cs[0].0[0] {
                Atom::Sym(s) => {
                    return s.clone();
                },
                _ => {},
            }
        }
    }
    "".to_owned()
}

/// Calling a built-in function for the next combination.
pub open spec fn native_called(
    s: VmV,
    t: TableV,
    c: CallsV,
    b: crate::func::Builtin,
    name: Seq<char>,
    args: Seq<AtomV>,
) -> StepV {
    let (answer, after) = called(b, name, args, t);
    match answer {
        AnswerV::Values(vs) => going(with_values(s, c, vs), after),
        AnswerV::Fail(m) => failing(s, after, m),
        AnswerV::Report(line, a) => (
            VmOutV::Say(seq![line]),
            with_values(s, c, seq![a]),
            after,
        ),
        AnswerV::Host(b2, n2, xs) => (
            VmOutV::Host(HostV::Native(b2, n2, xs)),
            waiting(s, WaitV::CallHost(c)),
            after,
        ),
        AnswerV::Loop(l) => going(waiting(s, WaitV::Loops(seq![l], c)), after),
    }
}

/// Call a built-in function for the next combination.
fn call_native(
    st: &mut VMState,
    table: &mut FnTable,
    c: Calls,
    b: crate::func::Builtin,
    name: &str,
    args: &Vec<Atom>,
) -> (r: VmOut)
    requires
        c.next < usize::MAX,
    ensures
        agrees(
            (r@, final(st)@, final(table)@),
            native_called(old(st)@, old(table)@, c@, b, name@, atoms(args@)),
        ),
{
    broadcast use group_atoms;

    match call_builtin(b, name, args, table) {
        Answer::Values(vs) => {
            add_values(st, c, &vs);
            VmOut::Next
        },
        Answer::Fail(m) => VmOut::Fail(m),
        Answer::Report(line, a) => {
            let mut vs: Vec<Atom> = Vec::new();
            vs.push(a);
            assert(atoms(vs@) =~= seq![a@]);
            add_values(st, c, &vs);
            let mut lines: Vec<String> = Vec::new();
            lines.push(line);
            assert(texts(lines@) =~= seq![line@]);
            VmOut::Say(lines)
        },
        Answer::Host(b2, n2, xs) => {
            wait_for(st, Wait::CallHost(c));
            VmOut::Host(HostCall::Native(b2, n2, xs))
        },
        Answer::Loop(l) => {
            let mut ls: Vec<ListLoop> = Vec::new();
            ls.push(l);
            assert(loops(ls@) =~= seq![l@]);
            wait_for(st, Wait::Loops(ls, c));
            VmOut::Next
        },
    }
}

/// The next turn of a call: the next combination, or a frame for the calls that
/// were found.
pub open spec fn calls_turn(s: VmV, t: TableV, c: CallsV) -> StepV {
    if c.next >= c.combos.len() {
        if c.pending.len() == 0 {
            going(pushed(s, c.out), t)
        } else {
            going(
                with_frame(
                    s,
                    KindV::Call(call_name(c.combos), c.arity, c.pending, c.memo),
                    c.out,
                ),
                t,
            )
        }
    } else {
        let (combo, env) = c.combos[c.next as int];
        if combo.len() == 0 {
            going(waiting(s, WaitV::Calls(CallsV { next: c.next + 1, ..c })), t)
        } else {
            let (d, after) = dispatched(combo[0], combo.skip(1), c.arity, env, t, s.known);
            match d {
                DispatchV::Ask(x, e) => (VmOutV::Ask(x, e), s, after),
                DispatchV::Fail(m) => failing(s, after, m),
                DispatchV::Results(rs) => going(
                    waiting(s, WaitV::Calls(calls_with(c, rs))),
                    after,
                ),
                DispatchV::Pending(p, m) => going(
                    waiting(
                        s,
                        WaitV::Calls(
                            CallsV {
                                pending: c.pending + p,
                                memo: if c.combos.len() == 1 {
                                    m
                                } else {
                                    c.memo
                                },
                                next: c.next + 1,
                                ..c
                            },
                        ),
                    ),
                    after,
                ),
                DispatchV::Native(b, name, args) => native_called(s, after, c, b, name, args),
            }
        }
    }
}

/// Take the next turn of a call.
pub fn next_call(st: &mut VMState, table: &mut FnTable, c: Calls) -> (r: VmOut)
    requires
        old(st).ip < usize::MAX,
    ensures
        agrees(
            (r@, final(st)@, final(table)@),
            calls_turn((VmV { wait: WaitV::Calls(c@), ..old(st)@ }), old(table)@, c@),
        ),
{
    broadcast use group_atoms;

    let ghost s1 = VmV { wait: WaitV::Calls(c@), ..st@ };
    let n: usize = c.combos.len();
    assert(combo_values(c.combos@).len() == n);
    if c.next >= n {
        assert(pendings(c.pending@).len() == c.pending@.len());
        if c.pending.len() == 0 {
            push(st, c.out);
        } else {
            let name = find_call_name(&c.combos);
            add_frame(
                st,
                CallFrameKind::Call {
                    name,
                    arity: c.arity,
                    pending: Arc::new(c.pending),
                    memo: c.memo,
                },
                c.out,
            );
        }
        return VmOut::Next;
    }
    let ghost combo = c@.combos[c.next as int];
    assert(combo == (atoms(c.combos@[c.next as int].0@), c.combos@[c.next as int].1@));
    assert(combo.0.len() == c.combos@[c.next as int].0@.len());
    if c.combos[c.next].0.len() == 0 {
        let mut c = c;
        c.next = c.next + 1;
        wait_for(st, Wait::Calls(c));
        return VmOut::Next;
    }
    let args = copy_atoms(&c.combos[c.next].0, 1);
    assert(atoms(args@) =~= combo.0.skip(1));
    let d = dispatch_call(
        &c.combos[c.next].0[0],
        &args,
        c.arity,
        &c.combos[c.next].1,
        table,
        &st.known,
    );
    match d {
        Dispatch::Ask(x, e) => {
            st.wait = Wait::Calls(c);
            assert(st@ =~= s1);
            VmOut::Ask(x, e)
        },
        Dispatch::Fail(m) => VmOut::Fail(m),
        Dispatch::Results(rs) => {
            let mut c = c;
            add_results(&mut c, rs);
            wait_for(st, Wait::Calls(c));
            VmOut::Next
        },
        Dispatch::Pending(p, m) => {
            let mut c = c;
            let mut p = p;
            let ghost c0 = c@;
            let ghost x = c.pending@;
            let ghost y = p@;
            c.pending.append(&mut p);
            assert(pendings(c.pending@) =~= pendings(x) + pendings(y));
            if n == 1 {
                c.memo = m;
            }
            c.next = c.next + 1;
            assert(c@ =~= CallsV {
                pending: c0.pending + pendings(y),
                memo: if c0.combos.len() == 1 {
                    memo_key(m)
                } else {
                    c0.memo
                },
                next: c0.next + 1,
                ..c0
            });
            wait_for(st, Wait::Calls(c));
            VmOut::Next
        },
        Dispatch::Native(b, name, xs) => call_native(st, table, c, b, name.as_str(), &xs),
    }
}

/// The next turn of loops that compute the value of a built-in function.
pub open spec fn loops_turn(s: VmV, t: TableV, ls: Seq<LoopV>, c: CallsV) -> StepV {
    let (o, rest, after) = loops_stepped(ls, t);
    match o {
        LoopsOutV::Done(v) => going(with_values(s, c, seq![v]), after),
        LoopsOutV::Go(lines) => (
            VmOutV::Say(lines),
            waiting(s, WaitV::Loops(rest, c)),
            after,
        ),
        LoopsOutV::Host(b, n, xs) => (
            VmOutV::Host(HostV::Native(b, n, xs)),
            waiting(s, WaitV::LoopHost(rest, c)),
            after,
        ),
        LoopsOutV::Run(e) => (
            VmOutV::Run(e, EnvV::Empty, None),
            waiting(s, WaitV::LoopRun(rest, c)),
            after,
        ),
        LoopsOutV::Fail(m) => failing(s, after, m),
    }
}

/// Take the next turn of loops that compute the value of a built-in function.
pub fn next_loops(st: &mut VMState, table: &mut FnTable, ls: Vec<ListLoop>, c: Calls) -> (r: VmOut)
    requires
        c.next < usize::MAX,
    ensures
        agrees(
            (r@, final(st)@, final(table)@),
            loops_turn(old(st)@, old(table)@, loops(ls@), c@),
        ),
{
    broadcast use group_atoms;

    let mut ls = ls;
    match step_loops(&mut ls, table) {
        LoopsOut::Done(v) => {
            let mut vs: Vec<Atom> = Vec::new();
            vs.push(v);
            assert(atoms(vs@) =~= seq![v@]);
            add_values(st, c, &vs);
            VmOut::Next
        },
        LoopsOut::Go(lines) => {
            wait_for(st, Wait::Loops(ls, c));
            VmOut::Say(lines)
        },
        LoopsOut::Host(b, n, xs) => {
            wait_for(st, Wait::LoopHost(ls, c));
            VmOut::Host(HostCall::Native(b, n, xs))
        },
        LoopsOut::Run(e) => {
            wait_for(st, Wait::LoopRun(ls, c));
            VmOut::Run(e, Env::new(), None)
        },
        LoopsOut::Fail(m) => VmOut::Fail(m),
    }
}

/// Asking the host, whose values are pushed then.
pub open spec fn host_asked(s: VmV, t: TableV, h: HostV) -> StepV {
    (VmOutV::Host(h), waiting(s, WaitV::Push), t)
}

/// Ask the host.
pub fn ask_host(st: &mut VMState, table: &FnTable, h: HostCall) -> (r: VmOut)
    ensures
        (r@, final(st)@, table@) == host_asked(old(st)@, table@, h@),
{
    wait_for(st, Wait::Push);
    VmOut::Host(h)
}

/// The space that a value refers to: the one of the program unless there is a
/// value.
pub open spec fn space_of(r: ResultV) -> AtomV {
    match first_value(r) {
        Some(a) => a,
        None => symbol("&self"@),
    }
}

/// Find the space that a value refers to.
fn find_space(rs: &ResultSet) -> (r: Atom)
    ensures
        r@ == space_of(results(rs@)),
{
    match take_first(rs) {
        Some(a) => a,
        None => Atom::sym("&self"),
    }
}

/// Loading a program file.
pub open spec fn file_imported(s: VmV, t: TableV, path: Seq<char>) -> StepV {
    if s.stack.len() == 0 {
        failing(s, t, "VM stack underflow on ImportFile"@)
    } else {
        host_asked(popped(s, 1), t, HostV::Import(path, space_of(top(s, 0)), s.env))
    }
}

/// Load a program file.
pub fn import_file(st: &mut VMState, table: &FnTable, path: &String) -> (r: VmOut)
    ensures
        agrees((r@, final(st)@, table@), file_imported(old(st)@, table@, path@)),
{
    match pop(st) {
        None => failure("VM stack underflow on ImportFile"),
        Some(rs) => {
            let space = find_space(&rs);
            let env = st.env.clone();
            ask_host(st, table, HostCall::Import(path.clone(), space, env))
        },
    }
}

/// Loading a Python file; the space does not matter.
pub open spec fn python_imported(s: VmV, t: TableV, path: Seq<char>) -> StepV {
    host_asked(
        if s.stack.len() == 0 {
            s
        } else {
            popped(s, 1)
        },
        t,
        HostV::PyImport(path),
    )
}

/// Load a Python file.
pub fn import_python(st: &mut VMState, table: &FnTable, path: &String) -> (r: VmOut)
    ensures
        agrees((r@, final(st)@, table@), python_imported(old(st)@, table@, path@)),
{
    let _ = pop(st);
    ask_host(st, table, HostCall::PyImport(path.clone()))
}

/// The path that a value names.
pub open spec fn import_path(a: Option<AtomV>) -> Result<Seq<char>, Seq<char>> {
    match a {
        Some(AtomV::Sym(s)) => Ok(s),
        Some(AtomV::Str(s)) => Ok(s),
        Some(AtomV::Expr(items)) => if items.len() == 2 {
            if items[0] == AtomV::Sym("library"@) {
                match items[1] {
                    AtomV::Sym(s) => Ok(s),
                    AtomV::Str(s) => Ok(s),
                    _ => Err("import!: invalid path expression"@),
                }
            } else {
                Err("import!: invalid path expression"@)
            }
        } else {
            Err("import!: path must be a symbol or string"@)
        },
        _ => Err("import!: path must be a symbol or string"@),
    }
}

/// Find the path that a value names.
pub fn find_import_path(a: &Option<Atom>) -> (r: Result<String, String>)
    ensures
        (match r {
            Ok(p) => import_path(crate::eval::shared::pattern::optional_atom(*a)) == Ok::<
                Seq<char>,
                Seq<char>,
            >(p@),
            Err(m) => import_path(crate::eval::shared::pattern::optional_atom(*a)) == Err::<
                Seq<char>,
                Seq<char>,
            >(m@),
        }),
{
    broadcast use group_atoms;

    match a {
        Some(Atom::Sym(s)) => Ok(s.clone()),
        Some(Atom::Str(s)) => Ok(s.as_str().to_owned()),
        Some(Atom::Expr(items)) => {
            assert(atoms(items@).len() == items@.len());
            if items.len() != 2 {
                return Err("import!: path must be a symbol or string".to_owned());
            }
            assert(atoms(items@)[0] == items@[0]@ && atoms(items@)[1] == items@[1]@);
            let is_library: bool = match &items[0] {
                Atom::Sym(h) => same(h.as_str(), "library"),
                _ => false,
            };
            if !is_library {
                return Err("import!: invalid path expression".to_owned());
            }
            match &items[1] {
                Atom::Sym(s) => Ok(s.clone()),
                Atom::Str(s) => Ok(s.as_str().to_owned()),
                _ => Err("import!: invalid path expression".to_owned()),
            }
        },
        _ => Err("import!: path must be a symbol or string".to_owned()),
    }
}

/// Whether a path names a Python file.
pub open spec fn is_python(path: Seq<char>) -> bool {
    path.len() >= 3 && path.skip(path.len() - 3) == ".py"@
}

/// Test whether a path names a Python file.
pub fn is_python_path(path: &str) -> (r: bool)
    ensures
        r == is_python(path@),
{
    let v = chars_of(path);
    let n: usize = v.len();
    proof {
        reveal_strlit(".py");
    }
    if n < 3 {
        return false;
    }
    let r = v[n - 3] == '.' && v[n - 2] == 'p' && v[n - 1] == 'y';
    let ghost end = path@.skip(n - 3);
    assert(end.len() == 3);
    assert(end[0] == v@[n - 3] && end[1] == v@[n - 2] && end[2] == v@[n - 1]);
    assert(".py"@.len() == 3 && ".py"@[0] == '.' && ".py"@[1] == 'p' && ".py"@[2] == 'y');
    assert(r ==> end =~= ".py"@);
    r
}

/// Loading a file whose name is computed.
pub open spec fn dynamic_imported(s: VmV, t: TableV) -> StepV {
    if s.stack.len() == 0 {
        failing(s, t, "VM stack underflow on ImportDynamic path"@)
    } else if s.stack.len() == 1 {
        failing(s, t, "VM stack underflow on ImportDynamic space"@)
    } else {
        match import_path(first_value(top(s, 0))) {
            Err(m) => failing(s, t, m),
            Ok(path) => host_asked(
                popped(s, 2),
                t,
                if is_python(path) {
                    HostV::PyImport(path)
                } else {
                    HostV::Import(path, space_of(top(s, 1)), s.env)
                },
            ),
        }
    }
}

/// Load a file whose name is computed.
pub fn import_dynamic(st: &mut VMState, table: &FnTable) -> (r: VmOut)
    ensures
        agrees((r@, final(st)@, table@), dynamic_imported(old(st)@, table@)),
{
    let ghost s0 = st@;
    match pop(st) {
        None => failure("VM stack underflow on ImportDynamic path"),
        Some(path_rs) => match pop(st) {
            None => failure("VM stack underflow on ImportDynamic space"),
            Some(space_rs) => {
                assert(st@ =~= popped(s0, 2));
                let first = take_first(&path_rs);
                match find_import_path(&first) {
                    Err(m) => VmOut::Fail(m),
                    Ok(path) => {
                        if is_python_path(path.as_str()) {
                            ask_host(st, table, HostCall::PyImport(path))
                        } else {
                            let space = find_space(&space_rs);
                            let env = st.env.clone();
                            ask_host(st, table, HostCall::Import(path, space, env))
                        }
                    },
                }
            },
        },
    }
}

} // verus!
