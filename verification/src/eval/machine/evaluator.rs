//! Evaluation with suspended machines.
//!
//! An expression is compiled and run by the bytecode machine when it can be, and
//! otherwise evaluated by the continuation machine. A machine that needs the
//! results of another one is suspended until they are there.
use crate::atom::Atom;
use crate::atom::AtomV;
use crate::atom::atoms;
use crate::builtins::Answer;
use crate::builtins::loops::first_of;
use crate::env::Env;
use crate::env::EnvV;
use crate::env::bindings;
use crate::eval::machine::budget::ResultSet;
use crate::eval::machine::budget::ResultV;
use crate::eval::machine::budget::atoms_of;
use crate::eval::machine::budget::result_atoms;
use crate::eval::machine::budget::results;
use crate::eval::machine::resumed::nothing;
use crate::eval::machine::step::CekOut;
use crate::eval::machine::step::CekOutV;
use crate::eval::machine::step::CekState;
use crate::eval::machine::step::CekStepV;
use crate::eval::machine::step::CekV;
use crate::eval::machine::step::cek_agrees;
use crate::eval::machine::step::cek_deliver;
use crate::eval::machine::step::cek_delivered;
use crate::eval::machine::step::cek_refuse;
use crate::eval::machine::step::cek_refused;
use crate::eval::machine::step::cek_start;
use crate::eval::machine::step::cek_step;
use crate::eval::machine::step::cek_stepped;
use crate::eval::machine::step::cek_supplied;
use crate::eval::machine::step::cek_supply;
use crate::eval::machine::vm::compiler::compiled;
use crate::eval::machine::vm::iterate::alone;
use crate::eval::machine::vm::iterate::compile_alone;
use crate::eval::machine::vm::op::BlockV;
use crate::eval::machine::vm::outcome::ExitV;
use crate::eval::machine::vm::outcome::HostCall;
use crate::eval::machine::vm::outcome::HostV;
use crate::eval::machine::vm::outcome::StepV;
use crate::eval::machine::vm::outcome::VmExit;
use crate::eval::machine::vm::outcome::VmOut;
use crate::eval::machine::vm::outcome::VmOutV;
use crate::eval::machine::vm::plain::agrees;
use crate::eval::machine::vm::plain::top;
use crate::eval::machine::vm::resume::deliver;
use crate::eval::machine::vm::resume::delivered;
use crate::eval::machine::vm::resume::refuse;
use crate::eval::machine::vm::resume::refused;
use crate::eval::machine::vm::resume::supplied;
use crate::eval::machine::vm::resume::supply;
use crate::eval::machine::vm::run::stepped;
use crate::eval::machine::vm::run;
use crate::eval::machine::vm::state::VMState;
use crate::eval::machine::vm::state::VmV;
use crate::eval::machine::vm::state::at_fresh;
use crate::eval::machine::vm::state::inherit;
use crate::eval::machine::vm::state::inherited;
use crate::eval::machine::vm::state::vm_start;
use crate::eval::shared::pattern::PatternValue;
use crate::eval::shared::pattern::known_values;
use crate::eval::shared::pattern::optional_atom;
use crate::expr::Expr;
use crate::expr::ExprV;
use crate::func::FnTable;
use crate::func::TableV;
use crate::text::no_lines;
use crate::text::optional_text;
use crate::text::texts;
use vstd::prelude::*;

verus! {

/// A machine.
pub enum Machine {
    /// A bytecode machine.
    Vm(VMState),
    /// A continuation machine.
    Cek(CekState),
}

/// The value of a machine.
pub enum MachineV {
    /// A bytecode machine.
    Vm(VmV),
    /// A continuation machine.
    Cek(CekV),
}

impl View for Machine {
    type V = MachineV;

    open spec fn view(&self) -> MachineV {
        match self {
            Machine::Vm(s) => MachineV::Vm(s@),
            Machine::Cek(s) => MachineV::Cek(s@),
        }
    }
}

/// A machine among suspended ones.
pub struct Level {
    /// The machine.
    pub machine: Machine,
    /// The mutex that is held while it runs.
    pub mutex: Option<String>,
    /// The pattern whose first value the machine below needs.
    pub ask: Option<(Expr, Env)>,
}

/// The value of a machine among suspended ones.
pub struct LevelV {
    /// The machine.
    pub machine: MachineV,
    /// The mutex that is held while it runs.
    pub mutex: Option<Seq<char>>,
    /// The pattern whose first value the machine below needs.
    pub ask: Option<(ExprV, EnvV)>,
}

/// The value of a question.
pub open spec fn question(q: Option<(Expr, Env)>) -> Option<(ExprV, EnvV)> {
    match q {
        Some(p) => Some((p.0@, p.1@)),
        None => None,
    }
}

impl View for Level {
    type V = LevelV;

    open spec fn view(&self) -> LevelV {
        LevelV {
            machine: self.machine@,
            mutex: optional_text(self.mutex),
            ask: question(self.ask),
        }
    }
}

/// The values of machines.
pub open spec fn levels(s: Seq<Level>) -> Seq<LevelV> {
    Seq::new(s.len(), |i: int| s[i]@)
}

/// What happens to the topmost machine next.
pub enum Event {
    /// It makes a step.
    Step,
    /// It gets results.
    Deliver(ResultSet, Option<i64>, VmExit),
    /// It gets the first value of a pattern.
    Answer(Expr, Env, Option<Atom>),
    /// It gets values from the host.
    Supply(Vec<Atom>),
    /// It gets an error.
    Refuse(String),
}

/// The value of what happens next.
pub enum EventV {
    /// It makes a step.
    Step,
    /// It gets results.
    Deliver(ResultV, Option<i64>, ExitV),
    /// It gets the first value of a pattern.
    Answer(ExprV, EnvV, Option<AtomV>),
    /// It gets values from the host.
    Supply(Seq<AtomV>),
    /// It gets an error.
    Refuse(Seq<char>),
}

impl View for Event {
    type V = EventV;

    open spec fn view(&self) -> EventV {
        match self {
            Event::Step => EventV::Step,
            Event::Deliver(rs, b, x) => EventV::Deliver(results(rs@), *b, x@),
            Event::Answer(x, e, a) => EventV::Answer(x@, e@, optional_atom(*a)),
            Event::Supply(vs) => EventV::Supply(atoms(vs@)),
            Event::Refuse(m) => EventV::Refuse(m@),
        }
    }
}

/// Suspended machines, the topmost of which runs.
pub struct Evaluator {
    /// The machines.
    pub levels: Vec<Level>,
    /// What happens next.
    pub event: Event,
}

/// The value of suspended machines.
#[verifier::ext_equal]
pub struct EvaluatorV {
    /// The machines.
    pub levels: Seq<LevelV>,
    /// What happens next.
    pub event: EventV,
}

impl View for Evaluator {
    type V = EvaluatorV;

    open spec fn view(&self) -> EvaluatorV {
        EvaluatorV { levels: levels(self.levels@), event: self.event@ }
    }
}

/// What a machine comes to in one step.
pub enum MachineOut {
    /// It goes on.
    Next,
    /// It is done.
    Done(ResultSet, Option<i64>, VmExit),
    /// An error.
    Fail(String),
    /// The first value of a pattern is needed.
    Ask(Expr, Env),
    /// Another machine runs first, while a named mutex is held.
    Sub(Machine, Option<String>),
    /// An expression is evaluated first, with a budget, while a named mutex is
    /// held.
    Run(Expr, Env, Option<i64>, Option<String>),
    /// The host does something first.
    Host(HostCall),
}

/// The value of what a machine comes to in one step.
pub enum MachineOutV {
    /// It goes on.
    Next,
    /// It is done.
    Done(ResultV, Option<i64>, ExitV),
    /// An error.
    Fail(Seq<char>),
    /// The first value of a pattern is needed.
    Ask(ExprV, EnvV),
    /// Another machine runs first.
    Sub(MachineV, Option<Seq<char>>),
    /// An expression is evaluated first.
    Run(ExprV, EnvV, Option<i64>, Option<Seq<char>>),
    /// The host does something first.
    Host(HostV),
}

impl View for MachineOut {
    type V = MachineOutV;

    open spec fn view(&self) -> MachineOutV {
        match self {
            MachineOut::Next => MachineOutV::Next,
            MachineOut::Done(rs, b, x) => MachineOutV::Done(results(rs@), *b, x@),
            MachineOut::Fail(m) => MachineOutV::Fail(m@),
            MachineOut::Ask(x, e) => MachineOutV::Ask(x@, e@),
            MachineOut::Sub(s, m) => MachineOutV::Sub(s@, optional_text(*m)),
            MachineOut::Run(x, e, b, m) => MachineOutV::Run(x@, e@, *b, optional_text(*m)),
            MachineOut::Host(h) => MachineOutV::Host(h@),
        }
    }
}

/// What a machine comes to, the lines that are printed, and the machine and the
/// table that are left.
pub type MachineStepV = (MachineOutV, Seq<Seq<char>>, MachineV, TableV);

/// Whether two steps agree; the machine does not matter once it ended.
pub open spec fn machine_agrees(x: MachineStepV, y: MachineStepV) -> bool {
    &&& x.0 == y.0
    &&& x.1 == y.1
    &&& x.3 == y.3
    &&& (y.0 is Fail || y.0 is Done || x.2 == y.2)
}

/// A step of the bytecode machine as a step of a machine.
pub open spec fn of_vm(step: StepV) -> MachineStepV {
    let none: Seq<Seq<char>> = Seq::empty();
    let m = MachineV::Vm(step.1);
    match step.0 {
        VmOutV::Next => (MachineOutV::Next, none, m, step.2),
        VmOutV::Say(lines) => (MachineOutV::Next, lines, m, step.2),
        VmOutV::Done(rs, b, x) => (MachineOutV::Done(rs, b, x), none, m, step.2),
        VmOutV::Fail(e) => (MachineOutV::Fail(e), none, m, step.2),
        VmOutV::Ask(x, e) => (MachineOutV::Ask(x, e), none, m, step.2),
        VmOutV::Sub(s, l) => (MachineOutV::Sub(MachineV::Vm(s), l), none, m, step.2),
        VmOutV::Fallback(x, e, b) => (
            MachineOutV::Sub(MachineV::Cek(cek_start(x, e, b)), None),
            none,
            m,
            step.2,
        ),
        VmOutV::Run(x, e, b) => (MachineOutV::Run(x, e, b, None), none, m, step.2),
        VmOutV::Host(h) => (MachineOutV::Host(h), none, m, step.2),
    }
}

/// A step of the continuation machine as a step of a machine.
pub open spec fn of_cek(step: CekStepV) -> MachineStepV {
    let m = MachineV::Cek(step.2);
    match step.0 {
        CekOutV::Next => (MachineOutV::Next, step.1, m, step.3),
        CekOutV::Done(rs, b) => (MachineOutV::Done(rs, b, ExitV::Normal), step.1, m, step.3),
        CekOutV::Fail(e) => (MachineOutV::Fail(e), step.1, m, step.3),
        CekOutV::Ask(x, e) => (MachineOutV::Ask(x, e), step.1, m, step.3),
        CekOutV::Run(x, e, b, l) => (MachineOutV::Run(x, e, b, l), step.1, m, step.3),
        CekOutV::Host(h) => (MachineOutV::Host(h), step.1, m, step.3),
    }
}

/// What happens to a machine.
#[verifier::opaque]
pub open spec fn machine_moved(m: MachineV, event: EventV, t: TableV) -> MachineStepV {
    match m {
        MachineV::Vm(s) => match event {
            EventV::Step => of_vm(stepped(s, t)),
            EventV::Deliver(rs, b, x) => of_vm(delivered(s, t, rs, b, x)),
            EventV::Answer(x, e, a) => (
                MachineOutV::Next,
                Seq::empty(),
                MachineV::Vm(VmV { known: s.known.push((x, e, a)), ..s }),
                t,
            ),
            EventV::Supply(vs) => of_vm(supplied(s, t, vs)),
            EventV::Refuse(msg) => of_vm(refused(s, t, msg)),
        },
        MachineV::Cek(s) => match event {
            EventV::Step => of_cek(cek_stepped(s, t)),
            EventV::Deliver(rs, b, _) => of_cek(cek_delivered(s, t, rs, b)),
            EventV::Answer(x, e, a) => (
                MachineOutV::Next,
                Seq::empty(),
                MachineV::Cek(CekV { known: s.known.push((x, e, a)), ..s }),
                t,
            ),
            EventV::Supply(vs) => of_cek(cek_supplied(s, t, vs)),
            EventV::Refuse(msg) => of_cek(cek_refused(s, t, msg)),
        },
    }
}

/// Take an outcome of the bytecode machine.
fn take_vm(out: VmOut) -> (r: (MachineOut, Vec<String>))
    ensures
        forall|s: VmV, t: TableV|
            {
                &&& (#[trigger] of_vm((out@, s, t))).0 == r.0@
                &&& of_vm((out@, s, t)).1 == texts(r.1@)
                &&& of_vm((out@, s, t)).2 == MachineV::Vm(s)
                &&& of_vm((out@, s, t)).3 == t
            },
{
    match out {
        VmOut::Next => (MachineOut::Next, no_lines()),
        VmOut::Say(lines) => (MachineOut::Next, lines),
        VmOut::Done(rs, b, x) => (MachineOut::Done(rs, b, x), no_lines()),
        VmOut::Fail(m) => (MachineOut::Fail(m), no_lines()),
        VmOut::Ask(x, e) => (MachineOut::Ask(x, e), no_lines()),
        VmOut::Sub(s, l) => (MachineOut::Sub(Machine::Vm(s), l), no_lines()),
        VmOut::Fallback(x, e, b) => (
            MachineOut::Sub(Machine::Cek(CekState::start(x, e, b)), None),
            no_lines(),
        ),
        VmOut::Run(x, e, b) => (MachineOut::Run(x, e, b, None), no_lines()),
        VmOut::Host(h) => (MachineOut::Host(h), no_lines()),
    }
}

/// Take an outcome of the continuation machine.
fn take_cek(out: CekOut) -> (r: MachineOut)
    ensures
        forall|l: Seq<Seq<char>>, s: CekV, t: TableV|
            (#[trigger] of_cek((out@, l, s, t))) == (r@, l, MachineV::Cek(s), t),
{
    match out {
        CekOut::Next => MachineOut::Next,
        CekOut::Done(rs, b) => MachineOut::Done(rs, b, VmExit::Normal),
        CekOut::Fail(m) => MachineOut::Fail(m),
        CekOut::Ask(x, e) => MachineOut::Ask(x, e),
        CekOut::Run(x, e, b, l) => MachineOut::Run(x, e, b, l),
        CekOut::Host(h) => MachineOut::Host(h),
    }
}

/// Steps that agree are the same steps of a machine.
proof fn lemma_of_vm(x: StepV, y: StepV)
    requires
        agrees(x, y),
    ensures
        machine_agrees(of_vm(x), of_vm(y)),
{
}

/// Steps that agree are the same steps of a machine.
proof fn lemma_of_cek(x: CekStepV, y: CekStepV)
    requires
        cek_agrees(x, y),
    ensures
        machine_agrees(of_cek(x), of_cek(y)),
{
}

/// Adding the value of a pattern adds its value.
proof fn lemma_known_push(s: Seq<PatternValue>, x: PatternValue)
    ensures
        known_values(s.push(x)) == known_values(s).push((x.expr@, x.env@, optional_atom(x.value))),
{
    assert(known_values(s.push(x)) =~= known_values(s).push(
        (x.expr@, x.env@, optional_atom(x.value)),
    ));
}

/// Let something happen to a bytecode machine.
fn move_vm(st: &mut VMState, event: Event, table: &mut FnTable) -> (r: (MachineOut, Vec<String>))
    ensures
        machine_agrees(
            (r.0@, texts(r.1@), MachineV::Vm(final(st)@), final(table)@),
            machine_moved(MachineV::Vm(old(st)@), event@, old(table)@),
        ),
{
    reveal(machine_moved);
    let ghost s = st@;
    let ghost t = table@;
    let out: VmOut = match event {
        Event::Step => {
            let o = run::step(st, table);
            proof {
                lemma_of_vm((o@, st@, table@), stepped(s, t));
            }
            o
        },
        Event::Deliver(rs, b, x) => {
            let o = deliver(st, table, rs, b, x);
            proof {
                lemma_of_vm(
                    (o@, st@, table@),
                    delivered(s, t, event@->Deliver_0, b, event@->Deliver_2),
                );
            }
            o
        },
        Event::Answer(x, e, a) => {
            let ghost k = st.known@;
            let p = PatternValue { expr: x, env: e, value: a };
            st.known.push(p);
            proof {
                lemma_known_push(k, p);
            }
            assert(st@ =~= (VmV { known: s.known.push((x@, e@, optional_atom(a))), ..s }));
            return (MachineOut::Next, no_lines());
        },
        Event::Supply(vs) => {
            let o = supply(st, table, vs);
            proof {
                lemma_of_vm((o@, st@, table@), supplied(s, t, event@->Supply_0));
            }
            o
        },
        Event::Refuse(m) => {
            let o = refuse(st, table, m);
            proof {
                lemma_of_vm((o@, st@, table@), refused(s, t, m@));
            }
            o
        },
    };
    let ghost was = of_vm((out@, st@, table@));
    take_vm(out)
}

/// Let something happen to a continuation machine.
fn move_cek(st: &mut CekState, event: Event, table: &mut FnTable) -> (r: (MachineOut, Vec<String>))
    ensures
        machine_agrees(
            (r.0@, texts(r.1@), MachineV::Cek(final(st)@), final(table)@),
            machine_moved(MachineV::Cek(old(st)@), event@, old(table)@),
        ),
{
    reveal(machine_moved);
    let ghost s = st@;
    let ghost t = table@;
    let (out, lines) = match event {
        Event::Step => {
            let o = cek_step(st, table);
            proof {
                lemma_of_cek((o.0@, texts(o.1@), st@, table@), cek_stepped(s, t));
            }
            o
        },
        Event::Deliver(rs, b, x) => {
            let o = cek_deliver(st, table, rs, b);
            proof {
                lemma_of_cek(
                    (o.0@, texts(o.1@), st@, table@),
                    cek_delivered(s, t, event@->Deliver_0, b),
                );
            }
            o
        },
        Event::Answer(x, e, a) => {
            let ghost k = st.known@;
            let p = PatternValue { expr: x, env: e, value: a };
            st.known.push(p);
            proof {
                lemma_known_push(k, p);
            }
            assert(st@ =~= (CekV { known: s.known.push((x@, e@, optional_atom(a))), ..s }));
            return (MachineOut::Next, no_lines());
        },
        Event::Supply(vs) => {
            let o = cek_supply(st, table, vs);
            proof {
                lemma_of_cek(
                    (o.0@, texts(o.1@), st@, table@),
                    cek_supplied(s, t, event@->Supply_0),
                );
            }
            o
        },
        Event::Refuse(m) => {
            let o = cek_refuse(st, table, m);
            proof {
                lemma_of_cek((o.0@, texts(o.1@), st@, table@), cek_refused(s, t, m@));
            }
            o
        },
    };
    let ghost was = of_cek((out@, texts(lines@), st@, table@));
    (take_cek(out), lines)
}

/// The machine that evaluates an expression: the bytecode machine where the
/// expression can be compiled.
pub open spec fn opened(x: ExprV, env: EnvV, budget: Option<i64>, t: TableV) -> (MachineV, TableV) {
    match compiled(x, alone(), false) {
        Ok(c) => {
            let b = inherited(c.1, Seq::empty(), Seq::empty(), t.fresh);
            (
                MachineV::Vm(
                    vm_start(
                        BlockV { code: c.0, free_vars: c.1 },
                        Seq::empty(),
                        b.0,
                        budget,
                        env,
                    ),
                ),
                at_fresh(t, b.1),
            )
        },
        Err(_) => (MachineV::Cek(cek_start(x, env, budget)), t),
    }
}

/// Open the machine that evaluates an expression.
pub fn open_machine(x: Expr, env: Env, budget: Option<i64>, table: &mut FnTable) -> (r: Machine)
    ensures
        (r@, final(table)@) == opened(x@, env@, budget, old(table)@),
{
    match compile_alone(&x) {
        Some(block) => {
            let none: Vec<String> = Vec::new();
            let nothing: Vec<Atom> = Vec::new();
            assert(texts(none@) =~= Seq::<Seq<char>>::empty());
            assert(atoms(nothing@) =~= Seq::<AtomV>::empty());
            let bindings = inherit(&block.free_vars, &none, &nothing, table);
            let locals: ResultSet = Vec::new();
            assert(results(locals@) =~= Seq::empty());
            Machine::Vm(VMState::start(block, locals, bindings, budget, env))
        },
        None => Machine::Cek(CekState::start(x, env, budget)),
    }
}

/// What evaluation comes to in one step.
pub enum DriveOut {
    /// It goes on.
    Next,
    /// It is done: the results, what is left of the budget, and how it ended.
    Done(ResultSet, Option<i64>, VmExit),
    /// An error.
    Fail(String),
    /// The host does something first.
    Host(HostCall),
}

/// The value of what evaluation comes to in one step.
pub enum DriveOutV {
    /// It goes on.
    Next,
    /// It is done.
    Done(ResultV, Option<i64>, ExitV),
    /// An error.
    Fail(Seq<char>),
    /// The host does something first.
    Host(HostV),
}

impl View for DriveOut {
    type V = DriveOutV;

    open spec fn view(&self) -> DriveOutV {
        match self {
            DriveOut::Next => DriveOutV::Next,
            DriveOut::Done(rs, b, x) => DriveOutV::Done(results(rs@), *b, x@),
            DriveOut::Fail(m) => DriveOutV::Fail(m@),
            DriveOut::Host(h) => DriveOutV::Host(h@),
        }
    }
}

/// What evaluation comes to, the lines that are printed, and the machines and
/// the table that are left.
pub type DriveV = (DriveOutV, Seq<Seq<char>>, EvaluatorV, TableV);

/// Whether two steps agree; the machines do not matter once evaluation ended.
pub open spec fn drive_agrees(x: DriveV, y: DriveV) -> bool {
    &&& x.0 == y.0
    &&& x.1 == y.1
    &&& x.3 == y.3
    &&& (y.0 is Fail || y.0 is Done || x.2 == y.2)
}

/// The first of the values of results.
pub open spec fn first_result(rs: ResultV) -> Option<AtomV> {
    first_of(result_atoms(rs))
}

/// Machines that go on with a step.
pub open spec fn stepping(ls: Seq<LevelV>) -> EvaluatorV {
    EvaluatorV { levels: ls, event: EventV::Step }
}

/// Evaluation goes on after a step of the topmost machine.
///
/// The results or the error of a machine go to the one below it; an error in a
/// pattern counts as no value.
pub open spec fn absorbed(rest: Seq<LevelV>, top: LevelV, step: MachineStepV) -> DriveV {
    let (out, lines, m, t) = step;
    let here = rest.push(LevelV { machine: m, ..top });
    match out {
        MachineOutV::Next => (DriveOutV::Next, lines, stepping(here), t),
        MachineOutV::Host(h) => (DriveOutV::Host(h), lines, stepping(here), t),
        MachineOutV::Done(rs, b, x) => if rest.len() == 0 {
            (DriveOutV::Done(rs, b, x), lines, stepping(here), t)
        } else {
            (
                DriveOutV::Next,
                lines,
                EvaluatorV {
                    levels: rest,
                    event: match top.ask {
                        Some(q) => EventV::Answer(q.0, q.1, first_result(rs)),
                        None => EventV::Deliver(rs, b, x),
                    },
                },
                t,
            )
        },
        MachineOutV::Fail(e) => if rest.len() == 0 {
            (DriveOutV::Fail(e), lines, stepping(here), t)
        } else {
            (
                DriveOutV::Next,
                lines,
                EvaluatorV {
                    levels: rest,
                    event: match top.ask {
                        Some(q) => EventV::Answer(q.0, q.1, None),
                        None => EventV::Refuse(e),
                    },
                },
                t,
            )
        },
        MachineOutV::Ask(x, e) => {
            let (n, t2) = opened(x, e, None, t);
            (
                DriveOutV::Next,
                lines,
                stepping(here.push(LevelV { machine: n, mutex: None, ask: Some((x, e)) })),
                t2,
            )
        },
        MachineOutV::Sub(s, l) => (
            DriveOutV::Next,
            lines,
            stepping(here.push(LevelV { machine: s, mutex: l, ask: None })),
            t,
        ),
        MachineOutV::Run(x, e, b, l) => {
            let (n, t2) = opened(x, e, b, t);
            (
                DriveOutV::Next,
                lines,
                stepping(here.push(LevelV { machine: n, mutex: l, ask: None })),
                t2,
            )
        },
    }
}

/// A step of evaluation.
pub open spec fn drive(e: EvaluatorV, t: TableV) -> DriveV {
    if e.levels.len() == 0 {
        (DriveOutV::Fail("nothing to evaluate"@), Seq::empty(), e, t)
    } else {
        let top = e.levels.last();
        absorbed(e.levels.drop_last(), top, machine_moved(top.machine, e.event, t))
    }
}

/// Adding a machine adds its value.
proof fn lemma_levels_push(s: Seq<Level>, x: Level)
    ensures
        levels(s.push(x)) == levels(s).push(x@),
{
    assert(levels(s.push(x)) =~= levels(s).push(x@));
}

impl Evaluator {
    /// Begin to evaluate an expression.
    pub fn start(x: &Expr, env: &Env, budget: Option<i64>, table: &mut FnTable) -> (r: Evaluator)
        ensures
            (r@, final(table)@) == begun(x@, env@, budget, old(table)@),
    {
        let machine = open_machine(x.clone(), env.clone(), budget, table);
        let mut list: Vec<Level> = Vec::new();
        let top = Level { machine, mutex: None, ask: None };
        list.push(top);
        assert(levels(list@) =~= seq![top@]);
        Evaluator { levels: list, event: Event::Step }
    }

    /// Begin to run a bytecode machine.
    pub fn of_machine(state: VMState) -> (r: Evaluator)
        ensures
            r@ == running(state@),
    {
        let mut list: Vec<Level> = Vec::new();
        let top = Level { machine: Machine::Vm(state), mutex: None, ask: None };
        list.push(top);
        assert(levels(list@) =~= seq![top@]);
        Evaluator { levels: list, event: Event::Step }
    }

    /// The mutexes that are held, the innermost last.
    pub fn held(&self) -> (r: Vec<String>)
        ensures
            texts(r@) == held_in(self@.levels),
    {
        let ghost all = levels(self.levels@);
        let mut out: Vec<String> = Vec::new();
        let mut i: usize = 0;
        assert(all.take(0) =~= Seq::<LevelV>::empty());
        assert(texts(out@) =~= Seq::<Seq<char>>::empty());
        while i < self.levels.len()
            invariant
                i <= self.levels@.len(),
                all == levels(self.levels@),
                texts(out@) == held_in(all.take(i as int)),
            decreases self.levels@.len() - i,
        {
            assert(all.take(i + 1).drop_last() =~= all.take(i as int));
            assert(all[i as int] == self.levels@[i as int]@);
            let ghost before = out@;
            match &self.levels[i].mutex {
                Some(m) => {
                    out.push(m.clone());
                    assert(texts(out@) =~= texts(before).push(m@));
                },
                None => {},
            }
            i += 1;
        }
        assert(all.take(self.levels@.len() as int) =~= all);
        out
    }

    /// Hand values from the host to the topmost machine.
    pub fn supply(&mut self, values: Vec<Atom>)
        ensures
            final(self)@ == (EvaluatorV { event: EventV::Supply(atoms(values@)), ..old(self)@ }),
    {
        self.event = Event::Supply(values);
    }

    /// Hand an error from the host to the topmost machine.
    pub fn refuse(&mut self, message: String)
        ensures
            final(self)@ == (EvaluatorV { event: EventV::Refuse(message@), ..old(self)@ }),
    {
        self.event = Event::Refuse(message);
    }

    /// Make one step.
    pub fn step(&mut self, table: &mut FnTable) -> (r: (DriveOut, Vec<String>))
        ensures
            drive_agrees(
                (r.0@, texts(r.1@), final(self)@, final(table)@),
                drive(old(self)@, old(table)@),
            ),
    {
        let ghost e = self@;
        let ghost t = table@;
        let ghost all = self.levels@;
        assert(e.levels.len() == all.len());
        let mut event = Event::Step;
        std::mem::swap(&mut self.event, &mut event);
        match self.levels.pop() {
            None => (DriveOut::Fail("nothing to evaluate".to_owned()), no_lines()),
            Some(level) => {
                assert(levels(self.levels@) =~= e.levels.drop_last());
                assert(e.levels.last() == level@);
                let (out, lines, machine) = match level.machine {
                    Machine::Vm(st) => {
                        let mut st = st;
                        let (o, l) = move_vm(&mut st, event, table);
                        (o, l, Machine::Vm(st))
                    },
                    Machine::Cek(st) => {
                        let mut st = st;
                        let (o, l) = move_cek(&mut st, event, table);
                        (o, l, Machine::Cek(st))
                    },
                };
                let ghost want = machine_moved(e.levels.last().machine, e.event, t);
                assert(machine_agrees((out@, texts(lines@), machine@, table@), want));
                let here = Level { machine, mutex: level.mutex, ask: level.ask };
                self.absorb(here, out, lines, table, Ghost(want))
            },
        }
    }

    /// Go on after a step of the topmost machine, which was taken off.
    fn absorb(
        &mut self,
        here: Level,
        out: MachineOut,
        lines: Vec<String>,
        table: &mut FnTable,
        Ghost(want): Ghost<MachineStepV>,
    ) -> (r: (DriveOut, Vec<String>))
        requires
            old(self)@.event is Step,
            machine_agrees((out@, texts(lines@), here@.machine, old(table)@), want),
        ensures
            drive_agrees(
                (r.0@, texts(r.1@), final(self)@, final(table)@),
                absorbed(old(self)@.levels, here@, want),
            ),
    {
        let ghost rest = self@.levels;
        let ghost low = self.levels@;
        let ghost hv = here@;
        assert(rest.len() == low.len());
        match out {
            MachineOut::Next => {
                self.levels.push(here);
                proof {
                    lemma_levels_push(low, here);
                }
                assert(self@ =~= stepping(rest.push(hv)));
                (DriveOut::Next, lines)
            },
            MachineOut::Host(h) => {
                self.levels.push(here);
                proof {
                    lemma_levels_push(low, here);
                }
                assert(self@ =~= stepping(rest.push(hv)));
                (DriveOut::Host(h), lines)
            },
            MachineOut::Done(rs, b, x) => {
                if self.levels.len() == 0 {
                    return (DriveOut::Done(rs, b, x), lines);
                }
                match here.ask {
                    Some(q) => {
                        let vs = atoms_of(&rs);
                        assert(atoms(vs@).len() == vs@.len());
                        let first: Option<Atom> = if vs.len() > 0 {
                            Some(vs[0].clone())
                        } else {
                            None
                        };
                        assert(optional_atom(first) == first_result(results(rs@)));
                        self.event = Event::Answer(q.0, q.1, first);
                    },
                    None => {
                        self.event = Event::Deliver(rs, b, x);
                    },
                }
                (DriveOut::Next, lines)
            },
            MachineOut::Fail(m) => {
                if self.levels.len() == 0 {
                    return (DriveOut::Fail(m), lines);
                }
                match here.ask {
                    Some(q) => {
                        self.event = Event::Answer(q.0, q.1, None);
                    },
                    None => {
                        self.event = Event::Refuse(m);
                    },
                }
                (DriveOut::Next, lines)
            },
            MachineOut::Ask(x, e) => {
                self.levels.push(here);
                proof {
                    lemma_levels_push(low, here);
                }
                let machine = open_machine(x.clone(), e.clone(), None, table);
                let ghost mid = self.levels@;
                let top = Level { machine, mutex: None, ask: Some((x, e)) };
                self.levels.push(top);
                proof {
                    lemma_levels_push(mid, top);
                }
                assert(self@ =~= stepping(rest.push(hv).push(top@)));
                (DriveOut::Next, lines)
            },
            MachineOut::Sub(s, l) => {
                self.levels.push(here);
                proof {
                    lemma_levels_push(low, here);
                }
                let ghost mid = self.levels@;
                let top = Level { machine: s, mutex: l, ask: None };
                self.levels.push(top);
                proof {
                    lemma_levels_push(mid, top);
                }
                assert(self@ =~= stepping(rest.push(hv).push(top@)));
                (DriveOut::Next, lines)
            },
            MachineOut::Run(x, e, b, l) => {
                self.levels.push(here);
                proof {
                    lemma_levels_push(low, here);
                }
                let machine = open_machine(x, e, b, table);
                let ghost mid = self.levels@;
                let top = Level { machine, mutex: l, ask: None };
                self.levels.push(top);
                proof {
                    lemma_levels_push(mid, top);
                }
                assert(self@ =~= stepping(rest.push(hv).push(top@)));
                (DriveOut::Next, lines)
            },
        }
    }

    /// Make steps until evaluation ends, the host is needed, something is
    /// printed, or a number of steps is made.
    pub fn run(&mut self, table: &mut FnTable, fuel: u64) -> (r: (DriveOut, Vec<String>))
        ensures
            drive_agrees(
                (r.0@, texts(r.1@), final(self)@, final(table)@),
                driven(old(self)@, old(table)@, fuel as nat),
            ),
    {
        let ghost e0 = self@;
        let ghost t0 = table@;
        let mut left: u64 = fuel;
        while left > 0
            invariant
                left <= fuel,
                e0 == old(self)@,
                t0 == old(table)@,
                driven(e0, t0, fuel as nat) == driven(self@, table@, left as nat),
            decreases left,
        {
            let ghost e1 = self@;
            let ghost t1 = table@;
            let (out, lines) = self.step(table);
            let n: usize = lines.len();
            assert(texts(lines@).len() == n);
            match out {
                DriveOut::Next => {
                    if n > 0 {
                        return (DriveOut::Next, lines);
                    }
                    assert(texts(lines@) =~= Seq::<Seq<char>>::empty());
                },
                other => {
                    return (other, lines);
                },
            }
            left = left - 1;
        }
        (DriveOut::Next, no_lines())
    }
}

/// The machines that begin to evaluate an expression.
pub open spec fn begun(x: ExprV, env: EnvV, budget: Option<i64>, t: TableV) -> (EvaluatorV, TableV) {
    let (m, t2) = opened(x, env, budget, t);
    (stepping(seq![LevelV { machine: m, mutex: None, ask: None }]), t2)
}

/// The machines that begin with a bytecode machine.
pub open spec fn running(s: VmV) -> EvaluatorV {
    stepping(seq![LevelV { machine: MachineV::Vm(s), mutex: None, ask: None }])
}

/// The mutexes that are held.
pub open spec fn held_in(ls: Seq<LevelV>) -> Seq<Seq<char>>
    decreases ls.len(),
{
    if ls.len() == 0 {
        Seq::empty()
    } else {
        let before = held_in(ls.drop_last());
        match ls.last().mutex {
            Some(m) => before.push(m),
            None => before,
        }
    }
}

/// Steps of evaluation, up to the first that does not simply go on.
pub open spec fn driven(e: EvaluatorV, t: TableV, fuel: nat) -> DriveV
    decreases fuel,
{
    if fuel == 0 {
        (DriveOutV::Next, Seq::empty(), e, t)
    } else {
        let step = drive(e, t);
        if step.0 is Next && step.1.len() == 0 {
            driven(step.2, step.3, (fuel - 1) as nat)
        } else {
            step
        }
    }
}

/// Evaluation that stops on its own stops in the same way with more steps.
pub proof fn more_steps_change_nothing(e: EvaluatorV, t: TableV, n: nat, m: nat)
    requires
        n <= m,
        !(driven(e, t, n).0 is Next) || driven(e, t, n).1.len() > 0,
    ensures
        driven(e, t, m) == driven(e, t, n),
    decreases n,
{
    if n > 0 {
        let step = drive(e, t);
        if step.0 is Next && step.1.len() == 0 {
            more_steps_change_nothing(step.2, step.3, (n - 1) as nat, (m - 1) as nat);
        }
    }
}

/// Evaluation that is interrupted and taken up again comes to the same as
/// evaluation at one go.
pub proof fn interruptions_change_nothing(e: EvaluatorV, t: TableV, n: nat, m: nat)
    requires
        driven(e, t, n).0 is Next,
        driven(e, t, n).1.len() == 0,
    ensures
        driven(e, t, n + m) == driven(driven(e, t, n).2, driven(e, t, n).3, m),
    decreases n,
{
    if n > 0 {
        let step = drive(e, t);
        if step.0 is Next && step.1.len() == 0 {
            interruptions_change_nothing(step.2, step.3, (n - 1) as nat, m);
            assert((n - 1) as nat + m == (n + m - 1) as nat);
        }
    } else {
        assert(n + m == m);
    }
}

} // verus!
