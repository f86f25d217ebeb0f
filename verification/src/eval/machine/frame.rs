//! Continuation frames used during evaluation.
//!
//! A frame represents a suspended evaluation context. Frames capture the
//! information needed to continue evaluation after a child expression produces
//! a result.
use crate::atom::Atom;
use crate::atom::AtomV;
use crate::atom::atoms;
use crate::env::Env;
use crate::env::EnvV;
use crate::eval::machine::budget::ResultSet;
use crate::eval::machine::budget::ResultV;
use crate::eval::machine::budget::results;
use crate::eval::machine::task::Head;
use crate::eval::machine::task::HeadV;
use crate::eval::machine::vm::state::MemoKey;
use crate::eval::machine::vm::state::MemoKeyV;
use crate::eval::machine::vm::state::memo_key;
use crate::eval::machine::vm::state::target_values;
use crate::expr::Expr;
use crate::expr::ExprV;
use crate::expr::exprs;
use std::sync::Arc;
use vstd::prelude::*;

verus! {

/// A suspended continuation frame.
pub enum Frame {
    /// Resume a function application after its arguments have been evaluated.
    Call {
        /// The selected callable head.
        head: Head,
        /// The number of argument positions in the call.
        arity: usize,
        /// Argument slots that were filled before the remaining arguments were
        /// scheduled.
        prebound: Option<Vec<Option<ResultSet>>>,
    },
    /// Reconstruct a data list after all element result sets are available.
    DataList(usize),
    /// Reconstruct a data list whose head value is already known.
    DataListWithHead(Atom, usize),
    /// Concatenate multiple child result sets.
    Gather(usize),
    /// Collect branch results: whether the condition carried bindings, and the
    /// number of branch result sets.
    IfGather(bool, usize),
    /// Select the branches of a conditional: what to evaluate when the
    /// condition holds, and otherwise.
    IfBranch(Expr, Option<Expr>, Env),
    /// Select `case` branches from evaluated results.
    CaseSelect(Arc<Vec<Expr>>, Env),
    /// Wrap a child result as a `within` expression result.
    WithinWrap,
    /// Collapse a child result stream into a single list atom.
    CollapseGather,
    /// Merge a stored environment into the results of a child evaluation.
    MergeEnv(Env),
    /// Keep only the first result produced by a child expression.
    OnceCut,
    /// Continue a `chain` form: the arguments and the index of the current pair.
    ChainBind(Arc<Vec<Expr>>, usize, Env),
    /// Continue a `let*` form: the bindings, the index of the current one, and
    /// the body.
    LetStarBind(Arc<Vec<Expr>>, usize, Expr, Env),
    /// Match atoms in a resolved space and continue with the body.
    SpaceMatch(Expr, Expr, Env),
    /// Evaluate the remaining bodies of a space match, the next one last.
    SpaceMatchStream(Vec<(Expr, Env)>),
    /// Resolve a space reference and add one atom to that space.
    SpaceAdd(Expr, Env),
    /// Resolve a space reference and remove one atom from that space.
    SpaceRemove(Expr, Env),
    /// Resolve a mutex name and evaluate the body while the mutex is held.
    MutexEnter(Expr, Env),
    /// Unpack the result of `superpose` when it is an expression atom.
    SuperposeUnpack,
    /// Match a `let` pattern against a computed value and continue with the
    /// body for each successful match.
    LetMatch(Expr, Expr, Env),
    /// Collect the evaluated arguments of a fold: list, accumulator, function.
    FoldlInit,
    /// One step of a fold: the list, the next index, the accumulator before the
    /// step, and the function.
    FoldlAtom(Arc<Vec<Atom>>, usize, Atom, Atom),
    /// Check the initial value of a `foldall` and evaluate its function.
    FoldallInit(Expr, Env),
    /// Take the function of a `foldall`: the values and the initial value.
    FoldallFn(Arc<Vec<Atom>>, Atom, Env),
    /// One step of a `foldall`: the head of the call, the values, and the next
    /// index.
    FoldallStep(Expr, Env, Arc<Vec<Atom>>, usize),
    /// Take the values and the check of a `forall`.
    ForallInit(Env),
    /// One step of a `forall`: the head of the call, the environment in front,
    /// the environment, the values, and the next index.
    ForallStep(Expr, Env, Env, Arc<Vec<Atom>>, usize),
    /// Print the evaluated argument, return it.
    Println,
    /// Apply a head value to previously evaluated arguments.
    ApplyHead(usize),
    /// Run bodies one after the other: the bodies, the index of the next one,
    /// the results so far, the key under which the results are remembered, and
    /// whether the environments of bodies are kept in results.
    Bodies(Arc<Vec<(Expr, Env)>>, usize, ResultSet, Option<MemoKey>, bool),
    /// Load a program file after the space argument is evaluated.
    ImportFile(String, Env),
    /// Load a Python file after the space argument is evaluated.
    PythonImport(String),
    /// Keep the last of several results.
    Progn(usize),
    /// Keep the first of several results.
    Prog1(usize),
    /// Remember the topmost result under a key.
    MemoStore(MemoKey),
}

/// The value of a suspended continuation frame.
pub enum ContV {
    /// Resume a function application.
    Call(HeadV, nat, Option<Seq<Option<ResultV>>>),
    /// Reconstruct a data list.
    DataList(nat),
    /// Reconstruct a data list whose head value is already known.
    DataListWithHead(AtomV, nat),
    /// Concatenate multiple child result sets.
    Gather(nat),
    /// Collect branch results.
    IfGather(bool, nat),
    /// Select the branches of a conditional.
    IfBranch(ExprV, Option<ExprV>, EnvV),
    /// Select `case` branches.
    CaseSelect(Seq<ExprV>, EnvV),
    /// Wrap a child result.
    WithinWrap,
    /// Collapse a child result stream.
    CollapseGather,
    /// Merge a stored environment.
    MergeEnv(EnvV),
    /// Keep only the first result.
    OnceCut,
    /// Continue a `chain` form.
    ChainBind(Seq<ExprV>, nat, EnvV),
    /// Continue a `let*` form.
    LetStarBind(Seq<ExprV>, nat, ExprV, EnvV),
    /// Match atoms in a resolved space.
    SpaceMatch(ExprV, ExprV, EnvV),
    /// Evaluate the remaining bodies of a space match.
    SpaceMatchStream(Seq<(ExprV, EnvV)>),
    /// Add one atom to a space.
    SpaceAdd(ExprV, EnvV),
    /// Remove one atom from a space.
    SpaceRemove(ExprV, EnvV),
    /// Evaluate the body while a mutex is held.
    MutexEnter(ExprV, EnvV),
    /// Unpack the result of `superpose`.
    SuperposeUnpack,
    /// Match a `let` pattern.
    LetMatch(ExprV, ExprV, EnvV),
    /// Collect the evaluated arguments of a fold.
    FoldlInit,
    /// One step of a fold.
    FoldlAtom(Seq<AtomV>, nat, AtomV, AtomV),
    /// Check the initial value of a `foldall`.
    FoldallInit(ExprV, EnvV),
    /// Take the function of a `foldall`.
    FoldallFn(Seq<AtomV>, AtomV, EnvV),
    /// One step of a `foldall`.
    FoldallStep(ExprV, EnvV, Seq<AtomV>, nat),
    /// Take the values and the check of a `forall`.
    ForallInit(EnvV),
    /// One step of a `forall`.
    ForallStep(ExprV, EnvV, EnvV, Seq<AtomV>, nat),
    /// Print the evaluated argument.
    Println,
    /// Apply a head value.
    ApplyHead(nat),
    /// Run bodies one after the other.
    Bodies(Seq<(ExprV, EnvV)>, nat, ResultV, Option<MemoKeyV>, bool),
    /// Load a program file.
    ImportFile(Seq<char>, EnvV),
    /// Load a Python file.
    PythonImport(Seq<char>),
    /// Keep the last of several results.
    Progn(nat),
    /// Keep the first of several results.
    Prog1(nat),
    /// Remember the topmost result under a key.
    MemoStore(MemoKeyV),
}

/// The value of an optional expression.
pub open spec fn optional_expr(o: Option<Expr>) -> Option<ExprV> {
    match o {
        Some(x) => Some(x@),
        None => None,
    }
}

/// The value of an argument slot.
pub open spec fn slot_value(o: Option<ResultSet>) -> Option<ResultV> {
    match o {
        Some(rs) => Some(results(rs@)),
        None => None,
    }
}

/// The values of argument slots.
pub open spec fn slot_values(s: Seq<Option<ResultSet>>) -> Seq<Option<ResultV>> {
    Seq::new(s.len(), |i: int| slot_value(s[i]))
}

/// The value of optional argument slots.
pub open spec fn optional_slots(o: Option<Vec<Option<ResultSet>>>) -> Option<
    Seq<Option<ResultV>>,
> {
    match o {
        Some(v) => Some(slot_values(v@)),
        None => None,
    }
}

impl View for Frame {
    type V = ContV;

    open spec fn view(&self) -> ContV {
        match self {
            Frame::Call { head, arity, prebound } => ContV::Call(
                head@,
                *arity as nat,
                optional_slots(*prebound),
            ),
            Frame::DataList(n) => ContV::DataList(*n as nat),
            Frame::DataListWithHead(h, n) => ContV::DataListWithHead(h@, *n as nat),
            Frame::Gather(n) => ContV::Gather(*n as nat),
            Frame::IfGather(b, n) => ContV::IfGather(*b, *n as nat),
            Frame::IfBranch(x, y, e) => ContV::IfBranch(x@, optional_expr(*y), e@),
            Frame::CaseSelect(cs, e) => ContV::CaseSelect(exprs(cs@), e@),
            Frame::WithinWrap => ContV::WithinWrap,
            Frame::CollapseGather => ContV::CollapseGather,
            Frame::MergeEnv(e) => ContV::MergeEnv(e@),
            Frame::OnceCut => ContV::OnceCut,
            Frame::ChainBind(args, i, e) => ContV::ChainBind(exprs(args@), *i as nat, e@),
            Frame::LetStarBind(b, i, x, e) => ContV::LetStarBind(
                exprs(b@),
                *i as nat,
                x@,
                e@,
            ),
            Frame::SpaceMatch(p, b, e) => ContV::SpaceMatch(p@, b@, e@),
            Frame::SpaceMatchStream(v) => ContV::SpaceMatchStream(target_values(v@)),
            Frame::SpaceAdd(a, e) => ContV::SpaceAdd(a@, e@),
            Frame::SpaceRemove(a, e) => ContV::SpaceRemove(a@, e@),
            Frame::MutexEnter(b, e) => ContV::MutexEnter(b@, e@),
            Frame::SuperposeUnpack => ContV::SuperposeUnpack,
            Frame::LetMatch(p, b, e) => ContV::LetMatch(p@, b@, e@),
            Frame::FoldlInit => ContV::FoldlInit,
            Frame::FoldlAtom(v, i, acc, f) => ContV::FoldlAtom(
                atoms(v@),
                *i as nat,
                acc@,
                f@,
            ),
            Frame::FoldallInit(f, e) => ContV::FoldallInit(f@, e@),
            Frame::FoldallFn(v, init, e) => ContV::FoldallFn(atoms(v@), init@, e@),
            Frame::FoldallStep(h, e, v, i) => ContV::FoldallStep(h@, e@, atoms(v@), *i as nat),
            Frame::ForallInit(e) => ContV::ForallInit(e@),
            Frame::ForallStep(h, front, e, v, i) => ContV::ForallStep(
                h@,
                front@,
                e@,
                atoms(v@),
                *i as nat,
            ),
            Frame::Println => ContV::Println,
            Frame::ApplyHead(n) => ContV::ApplyHead(*n as nat),
            Frame::Bodies(b, i, out, key, keep) => ContV::Bodies(
                target_values(b@),
                *i as nat,
                results(out@),
                memo_key(*key),
                *keep,
            ),
            Frame::ImportFile(p, e) => ContV::ImportFile(p@, e@),
            Frame::PythonImport(p) => ContV::PythonImport(p@),
            Frame::Progn(n) => ContV::Progn(*n as nat),
            Frame::Prog1(n) => ContV::Prog1(*n as nat),
            Frame::MemoStore(k) => ContV::MemoStore((k.name@, atoms(k.args@))),
        }
    }
}

} // verus!
