//! Outcomes of a step of the bytecode machine.
use crate::atom::Atom;
use crate::atom::AtomV;
use crate::atom::atoms;
use crate::env::Env;
use crate::env::EnvV;
use crate::eval::machine::budget::ResultSet;
use crate::eval::machine::budget::ResultV;
use crate::eval::machine::budget::results;
use crate::eval::machine::vm::state::VMState;
use crate::eval::machine::vm::state::VmV;
use crate::expr::Expr;
use crate::expr::ExprV;
use crate::func::Builtin;
use crate::func::TableV;
use crate::text::optional_text;
use crate::text::texts;
use vstd::prelude::*;

verus! {

/// How code ended.
pub enum VmExit {
    /// It ran to its end.
    Normal,
    /// It gave up other alternatives.
    Cut,
    /// It asks to be run again with these local variables.
    TailCall(ResultSet),
}

/// The value of how code ended.
pub enum ExitV {
    /// It ran to its end.
    Normal,
    /// It gave up other alternatives.
    Cut,
    /// It asks to be run again.
    TailCall(ResultV),
}

impl View for VmExit {
    type V = ExitV;

    open spec fn view(&self) -> ExitV {
        match self {
            VmExit::Normal => ExitV::Normal,
            VmExit::Cut => ExitV::Cut,
            VmExit::TailCall(l) => ExitV::TailCall(results(l@)),
        }
    }
}

/// Work that only the host can do.
pub enum HostCall {
    /// Compute the values of a built-in function.
    Native(Builtin, String, Vec<Atom>),
    /// Read a line and parse it.
    Readln,
    /// Load a program file into a space, in an environment.
    Import(String, Atom, Env),
    /// Load a Python file.
    PyImport(String),
    /// Call Python.
    PyCall(Expr, Env),
    /// Evaluate Python.
    PyEval(Expr, Env),
    /// Load a plugin.
    Plugin(Expr, Env),
}

/// The value of work that only the host can do.
pub enum HostV {
    /// Compute the values of a built-in function.
    Native(Builtin, Seq<char>, Seq<AtomV>),
    /// Read a line and parse it.
    Readln,
    /// Load a program file into a space.
    Import(Seq<char>, AtomV, EnvV),
    /// Load a Python file.
    PyImport(Seq<char>),
    /// Call Python.
    PyCall(ExprV, EnvV),
    /// Evaluate Python.
    PyEval(ExprV, EnvV),
    /// Load a plugin.
    Plugin(ExprV, EnvV),
}

impl View for HostCall {
    type V = HostV;

    open spec fn view(&self) -> HostV {
        match self {
            HostCall::Native(b, n, args) => HostV::Native(*b, n@, atoms(args@)),
            HostCall::Readln => HostV::Readln,
            HostCall::Import(p, a, e) => HostV::Import(p@, a@, e@),
            HostCall::PyImport(p) => HostV::PyImport(p@),
            HostCall::PyCall(x, e) => HostV::PyCall(x@, e@),
            HostCall::PyEval(x, e) => HostV::PyEval(x@, e@),
            HostCall::Plugin(x, e) => HostV::Plugin(x@, e@),
        }
    }
}

/// The outcome of a step.
pub enum VmOut {
    /// The machine goes on.
    Next,
    /// The machine goes on after these lines are printed.
    Say(Vec<String>),
    /// The machine is done.
    Done(ResultSet, Option<i64>, VmExit),
    /// An error.
    Fail(String),
    /// The first value of a pattern is needed; the machine has not moved.
    Ask(Expr, Env),
    /// Another machine runs first, while a named mutex is held.
    Sub(VMState, Option<String>),
    /// An expression is evaluated first, with a budget.
    Run(Expr, Env, Option<i64>),
    /// An expression is evaluated first by the continuation machine, with a
    /// budget.
    Fallback(Expr, Env, Option<i64>),
    /// The host does something first.
    Host(HostCall),
}

/// The value of the outcome of a step.
pub enum VmOutV {
    /// The machine goes on.
    Next,
    /// The machine goes on after these lines are printed.
    Say(Seq<Seq<char>>),
    /// The machine is done.
    Done(ResultV, Option<i64>, ExitV),
    /// An error.
    Fail(Seq<char>),
    /// The first value of a pattern is needed.
    Ask(ExprV, EnvV),
    /// Another machine runs first.
    Sub(VmV, Option<Seq<char>>),
    /// An expression is evaluated first.
    Run(ExprV, EnvV, Option<i64>),
    /// An expression is evaluated first by the continuation machine.
    Fallback(ExprV, EnvV, Option<i64>),
    /// The host does something first.
    Host(HostV),
}

impl View for VmOut {
    type V = VmOutV;

    open spec fn view(&self) -> VmOutV {
        match self {
            VmOut::Next => VmOutV::Next,
            VmOut::Say(v) => VmOutV::Say(texts(v@)),
            VmOut::Done(rs, b, x) => VmOutV::Done(results(rs@), *b, x@),
            VmOut::Fail(m) => VmOutV::Fail(m@),
            VmOut::Ask(x, e) => VmOutV::Ask(x@, e@),
            VmOut::Sub(s, m) => VmOutV::Sub(s@, optional_text(*m)),
            VmOut::Run(x, e, b) => VmOutV::Run(x@, e@, *b),
            VmOut::Fallback(x, e, b) => VmOutV::Fallback(x@, e@, *b),
            VmOut::Host(h) => VmOutV::Host(h@),
        }
    }
}

/// The outcome of a step, the state and the table it leaves.
pub type StepV = (VmOutV, VmV, TableV);

} // verus!
