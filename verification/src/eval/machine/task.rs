//! Work items scheduled by the evaluator.
//!
//! Tasks represent units of machine work such as evaluating an expression,
//! resuming a continuation, or changing a space.
use crate::env::Env;
use crate::env::EnvV;
use crate::eval::machine::frame::ContV;
use crate::eval::machine::frame::Frame;
use crate::eval::machine::transition::Transition;
use crate::eval::machine::transition::TransitionV;
use crate::expr::Expr;
use crate::expr::ExprV;
use crate::func::Builtin;
use crate::func::Clause;
use crate::func::ClauseV;
use crate::func::clauses;
use vstd::prelude::*;

verus! {

/// The callable head selected for a function application.
pub enum Head {
    /// A built-in function.
    Native(Builtin, String),
    /// A user-defined function: its name and its clauses.
    User(String, Vec<Clause>),
}

/// The value of a callable head.
pub enum HeadV {
    /// A built-in function.
    Native(Builtin, Seq<char>),
    /// A user-defined function.
    User(Seq<char>, Seq<ClauseV>),
}

impl View for Head {
    type V = HeadV;

    open spec fn view(&self) -> HeadV {
        match self {
            Head::Native(b, n) => HeadV::Native(*b, n@),
            Head::User(n, cs) => HeadV::User(n@, clauses(cs@)),
        }
    }
}

/// A unit of scheduled machine work.
pub enum Task {
    /// Evaluate an expression in an environment.
    Eval(Expr, Env),
    /// Evaluate an expression in an environment on its own, without a budget.
    Run(Expr, Env),
    /// Apply a suspended continuation frame.
    Apply(Frame),
    /// Execute a transition.
    Transition(Transition),
}

/// The value of a unit of work.
pub enum TaskV {
    /// Evaluate an expression in an environment.
    Eval(ExprV, EnvV),
    /// Evaluate an expression on its own.
    Run(ExprV, EnvV),
    /// Apply a suspended continuation frame.
    Apply(ContV),
    /// Execute a transition.
    Transition(TransitionV),
}

impl View for Task {
    type V = TaskV;

    open spec fn view(&self) -> TaskV {
        match self {
            Task::Eval(x, e) => TaskV::Eval(x@, e@),
            Task::Run(x, e) => TaskV::Run(x@, e@),
            Task::Apply(f) => TaskV::Apply(f@),
            Task::Transition(t) => TaskV::Transition(t@),
        }
    }
}

/// The values of tasks.
pub open spec fn tasks(s: Seq<Task>) -> Seq<TaskV> {
    Seq::new(s.len(), |i: int| s[i]@)
}

/// Adding a task adds its value.
pub broadcast proof fn lemma_tasks_push(s: Seq<Task>, x: Task)
    ensures
        #[trigger] tasks(s.push(x)) == tasks(s).push(x@),
{
    assert(tasks(s.push(x)) =~= tasks(s).push(x@));
}

} // verus!
