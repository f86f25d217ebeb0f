//! What applying a continuation frame comes to.
use crate::atom::Atom;
use crate::atom::AtomV;
use crate::atom::atoms;
use crate::builtins::types::atom_lists;
use crate::env::Env;
use crate::env::EnvV;
use crate::eval::machine::budget::ResultSet;
use crate::eval::machine::budget::ResultV;
use crate::eval::machine::budget::plain_results;
use crate::eval::machine::budget::results;
use crate::eval::machine::budget::single;
use crate::eval::machine::frame::ContV;
use crate::eval::machine::frame::Frame;
use crate::eval::machine::task::Task;
use crate::eval::machine::task::TaskV;
use crate::eval::machine::task::lemma_tasks_push;
use crate::eval::machine::task::tasks;
use crate::eval::machine::vm::outcome::HostCall;
use crate::eval::machine::vm::outcome::HostV;
use crate::eval::machine::vm::state::target_values;
use crate::expr::Expr;
use crate::expr::ExprV;
use crate::func::Builtin;
use crate::text::optional_text;
use vstd::prelude::*;
use vstd::string::*;

verus! {

/// Calls of a built-in function for combinations of arguments.
pub struct NativeCalls {
    /// The function.
    pub builtin: Builtin,
    /// Its name.
    pub name: String,
    /// The combinations.
    pub combos: Vec<Vec<Atom>>,
    /// The position of the next one.
    pub next: usize,
    /// The values so far.
    pub out: Vec<Atom>,
    /// Whether an error counts only when there is no value at all.
    pub lenient: bool,
    /// The last error.
    pub error: Option<String>,
}

/// The value of calls of a built-in function.
#[verifier::ext_equal]
pub struct NativesV {
    /// The function.
    pub builtin: Builtin,
    /// Its name.
    pub name: Seq<char>,
    /// The combinations.
    pub combos: Seq<Seq<AtomV>>,
    /// The position of the next one.
    pub next: nat,
    /// The values so far.
    pub out: Seq<AtomV>,
    /// Whether an error counts only when there is no value at all.
    pub lenient: bool,
    /// The last error.
    pub error: Option<Seq<char>>,
}

impl View for NativeCalls {
    type V = NativesV;

    open spec fn view(&self) -> NativesV {
        NativesV {
            builtin: self.builtin,
            name: self.name@,
            combos: atom_lists(self.combos@),
            next: self.next as nat,
            out: atoms(self.out@),
            lenient: self.lenient,
            error: optional_text(self.error),
        }
    }
}

/// What applying a frame comes to.
pub enum Resumed {
    /// A result.
    Value(ResultSet),
    /// Nothing to do.
    Nothing,
    /// Work to do; the last task comes first.
    Tasks(Vec<Task>),
    /// An expression in tail position.
    Tail(Expr, Env),
    /// Calls of a built-in function.
    Natives(NativeCalls),
    /// The host computes the values.
    Host(HostCall),
    /// The value of this expression in this environment is needed first.
    Ask(Expr, Env),
    /// An error.
    Fail(String),
}

/// The value of what applying a frame comes to.
pub enum ResumedV {
    /// A result.
    Value(ResultV),
    /// Nothing to do.
    Nothing,
    /// Work to do.
    Tasks(Seq<TaskV>),
    /// An expression in tail position.
    Tail(ExprV, EnvV),
    /// Calls of a built-in function.
    Natives(NativesV),
    /// The host computes the values.
    Host(HostV),
    /// A value is missing.
    Ask(ExprV, EnvV),
    /// An error.
    Fail(Seq<char>),
}

impl View for Resumed {
    type V = ResumedV;

    open spec fn view(&self) -> ResumedV {
        match self {
            Resumed::Value(rs) => ResumedV::Value(results(rs@)),
            Resumed::Nothing => ResumedV::Nothing,
            Resumed::Tasks(v) => ResumedV::Tasks(tasks(v@)),
            Resumed::Tail(x, e) => ResumedV::Tail(x@, e@),
            Resumed::Natives(c) => ResumedV::Natives(c@),
            Resumed::Host(h) => ResumedV::Host(h@),
            Resumed::Ask(x, e) => ResumedV::Ask(x@, e@),
            Resumed::Fail(m) => ResumedV::Fail(m@),
        }
    }
}

/// No result.
pub open spec fn nothing() -> ResumedV {
    ResumedV::Value(Seq::empty())
}

/// Come to no result.
pub fn resume_nothing() -> (r: Resumed)
    ensures
        r@ == nothing(),
{
    let rs: ResultSet = Vec::new();
    assert(results(rs@) =~= ResultV::empty());
    Resumed::Value(rs)
}

/// One value.
pub open spec fn one(a: AtomV) -> ResumedV {
    ResumedV::Value(plain_results(seq![a]))
}

/// Come to one value.
pub fn resume_one(a: Atom) -> (r: Resumed)
    ensures
        r@ == one(a@),
{
    Resumed::Value(single(a))
}

/// An error.
pub fn resume_fail(m: &str) -> (r: Resumed)
    ensures
        r@ == ResumedV::Fail(m@),
{
    Resumed::Fail(m.to_owned())
}

/// A frame that waits for branches in their order.
pub open spec fn branch_tasks(f: ContV, bs: Seq<(ExprV, EnvV)>) -> ResumedV {
    ResumedV::Tasks(
        seq![TaskV::Apply(f)] + Seq::new(
            bs.len(),
            |i: int| TaskV::Eval(bs[bs.len() - 1 - i].0, bs[bs.len() - 1 - i].1),
        ),
    )
}

/// Let a frame wait for branches in their order.
pub fn resume_branches(f: Frame, bs: &Vec<(Expr, Env)>) -> (r: Resumed)
    ensures
        r@ == branch_tasks(f@, target_values(bs@)),
{
    broadcast use lemma_tasks_push;

    let ghost b = target_values(bs@);
    let ghost want = seq![TaskV::Apply(f@)] + Seq::new(
        b.len(),
        |i: int| TaskV::Eval(b[b.len() - 1 - i].0, b[b.len() - 1 - i].1),
    );
    let mut v: Vec<Task> = Vec::new();
    v.push(Task::Apply(f));
    assert(tasks(v@) =~= want.take(1));
    let mut k: usize = bs.len();
    assert(b.len() == bs@.len());
    while k > 0
        invariant
            k <= bs@.len(),
            b == target_values(bs@),
            b.len() == bs@.len(),
            want == seq![TaskV::Apply(f@)] + Seq::new(
                b.len(),
                |i: int| TaskV::Eval(b[b.len() - 1 - i].0, b[b.len() - 1 - i].1),
            ),
            tasks(v@) == want.take(1 + bs@.len() - k),
        decreases k,
    {
        k = k - 1;
        v.push(Task::Eval(bs[k].0.clone(), bs[k].1.clone()));
        let ghost i = 1 + bs@.len() - k - 1;
        assert(want[i] == TaskV::Eval(b[k as int].0, b[k as int].1));
        assert(want.take(i + 1) =~= want.take(i).push(want[i]));
    }
    assert(want.take(1 + bs@.len() as int) =~= want);
    Resumed::Tasks(v)
}

/// A frame that waits for one task.
pub open spec fn frame_then(f: ContV, t: TaskV) -> ResumedV {
    ResumedV::Tasks(seq![TaskV::Apply(f), t])
}

/// Let a frame wait for one task.
pub fn resume_frame(f: Frame, t: Task) -> (r: Resumed)
    ensures
        r@ == frame_then(f@, t@),
{
    let mut v: Vec<Task> = Vec::new();
    v.push(Task::Apply(f));
    v.push(t);
    assert(tasks(v@) =~= seq![TaskV::Apply(f@), t@]);
    Resumed::Tasks(v)
}

/// Adding an expression with an environment adds its value.
pub proof fn lemma_targets_push(s: Seq<(Expr, Env)>, x: (Expr, Env))
    ensures
        target_values(s.push(x)) == target_values(s).push((x.0@, x.1@)),
{
    assert(target_values(s.push(x)) =~= target_values(s).push((x.0@, x.1@)));
}

} // verus!
