//! Loops over lists whose steps are calls.
//!
//! The machine that runs a loop asks for its next step, makes the call, and
//! hands the first value of the call back.
use crate::atom::Atom;
use crate::atom::AtomV;
use crate::atom::affirms;
use crate::atom::atom_same;
use crate::atom::atoms;
use crate::atom::group_atoms;
use crate::atom::sexpr;
use crate::atom::symbol;
use crate::builtins::Answer;
use crate::builtins::AnswerV;
use crate::builtins::Callee;
use crate::builtins::CalleeV;
use crate::builtins::ListLoop;
use crate::builtins::LoopKind;
use crate::builtins::LoopV;
use crate::builtins::call_builtin;
use crate::builtins::called;
use crate::compile::reify::atom_to_expr;
use crate::compile::reify::to_expr;
use crate::eval::shared::pattern::optional_atom;
use crate::expr::Expr;
use crate::expr::ExprV;
use crate::expr::copy_exprs;
use crate::expr::exprs;
use crate::expr::group_exprs;
use crate::func::Builtin;
use crate::func::FnTable;
use crate::func::TableV;
use crate::text::joined;
use crate::text::texts;
use std::sync::Arc;
use vstd::prelude::*;
use vstd::string::*;

verus! {

/// What a loop does next.
pub enum LoopStep {
    /// It ends with a value.
    End(Atom),
    /// It calls a built-in function.
    Call(Builtin, String, Vec<Atom>),
    /// It runs an expression.
    Run(Expr),
}

/// What a loop does next, as a value.
pub enum LoopStepV {
    /// It ends with a value.
    End(AtomV),
    /// It calls a built-in function.
    Call(Builtin, Seq<char>, Seq<AtomV>),
    /// It runs an expression.
    Run(ExprV),
}

impl View for LoopStep {
    type V = LoopStepV;

    open spec fn view(&self) -> LoopStepV {
        match self {
            LoopStep::End(a) => LoopStepV::End(a@),
            LoopStep::Call(b, name, args) => LoopStepV::Call(*b, name@, atoms(args@)),
            LoopStep::Run(e) => LoopStepV::Run(e@),
        }
    }
}

/// The values of loops.
pub open spec fn loops(s: Seq<ListLoop>) -> Seq<LoopV> {
    Seq::new(s.len(), |i: int| s[i]@)
}

/// What a loop does next.
pub open spec fn loop_step(l: LoopV) -> LoopStepV {
    if l.next >= l.items.len() {
        LoopStepV::End(
            if l.kind == LoopKind::Fold {
                l.acc
            } else {
                AtomV::Expr(l.out)
            },
        )
    } else {
        let item = l.items[l.next as int];
        match l.callee {
            CalleeV::Native(b) => LoopStepV::Call(
                b,
                l.name,
                if l.kind == LoopKind::Fold {
                    seq![l.acc, item]
                } else {
                    seq![item]
                },
            ),
            CalleeV::Code(parts) => LoopStepV::Run(ExprV::List(parts.push(to_expr(item)))),
        }
    }
}

/// Find out what a loop does next.
pub fn next_step(l: &ListLoop) -> (r: LoopStep)
    ensures
        r@ == loop_step(l@),
{
    broadcast use {group_atoms, group_exprs};

    assert(atoms(l.items@).len() == l.items@.len());
    if l.next >= l.items.len() {
        if l.kind == LoopKind::Fold {
            return LoopStep::End(l.acc.clone());
        }
        let out = crate::atom::copy_atoms(&l.out, 0);
        assert(l.out@.skip(0) =~= l.out@);
        return LoopStep::End(Atom::expr(out));
    }
    let ghost item = l.items@[l.next as int]@;
    assert(l@.items[l.next as int] == item);
    match &l.callee {
        Callee::Native(b) => {
            let mut args: Vec<Atom> = Vec::new();
            if l.kind == LoopKind::Fold {
                args.push(l.acc.clone());
            }
            args.push(l.items[l.next].clone());
            assert(atoms(args@) =~= (if l.kind == LoopKind::Fold {
                seq![l.acc@, item]
            } else {
                seq![item]
            }));
            LoopStep::Call(*b, l.name.clone(), args)
        },
        Callee::Code(parts) => {
            let mut v = copy_exprs(parts, 0);
            assert(parts@.skip(0) =~= parts@);
            match atom_to_expr(&l.items[l.next]) {
                Ok(e) => {
                    v.push(e);
                },
                Err(_) => {},
            }
            assert(exprs(v@) == exprs(parts@).push(to_expr(item)));
            LoopStep::Run(Expr::List(Arc::new(v)))
        },
    }
}

/// The loop after a step with a value, or the complaint about a step without
/// one.
pub open spec fn fed(l: LoopV, value: Option<AtomV>) -> Result<LoopV, Seq<char>> {
    let item = l.items[l.next as int];
    match l.kind {
        LoopKind::Fold => match value {
            Some(v) => Ok(LoopV { acc: v, next: l.next + 1, ..l }),
            None => Err(l.complaint),
        },
        LoopKind::Collect => match value {
            Some(v) => Ok(LoopV { out: l.out.push(v), next: l.next + 1, ..l }),
            None => Err(l.complaint + sexpr(item)),
        },
        LoopKind::Filter => match value {
            Some(v) => if affirms(v) {
                Ok(LoopV { out: l.out.push(item), next: l.next + 1, ..l })
            } else {
                Ok(LoopV { next: l.next + 1, ..l })
            },
            None => Ok(LoopV { next: l.next + 1, ..l }),
        },
        LoopKind::KeepTrue => if value == Some(symbol("True"@)) {
            Ok(LoopV { out: l.out.push(item), next: l.next + 1, ..l })
        } else {
            Ok(LoopV { next: l.next + 1, ..l })
        },
    }
}

/// Hand the first value of a step to a loop.
pub fn feed(l: &mut ListLoop, value: Option<Atom>) -> (r: Result<(), String>)
    requires
        old(l).next < old(l).items@.len(),
    ensures
        (match fed(old(l)@, optional_atom(value)) {
            Ok(n) => r is Ok && final(l)@ == n,
            Err(m) => r matches Err(e) && e@ == m,
        }),
{
    broadcast use group_atoms;

    let n: usize = l.items.len();
    assert(l.next < n);
    match l.kind {
        LoopKind::Fold => match value {
            Some(v) => {
                l.acc = v;
                l.next = l.next + 1;
                Ok(())
            },
            None => Err(l.complaint.clone()),
        },
        LoopKind::Collect => match value {
            Some(v) => {
                l.out.push(v);
                l.next = l.next + 1;
                Ok(())
            },
            None => {
                let t = l.items[l.next].to_sexpr_string();
                Err(joined(l.complaint.as_str(), t.as_str()))
            },
        },
        LoopKind::Filter => {
            match value {
                Some(v) => {
                    if v.affirms() {
                        let item = l.items[l.next].clone();
                        l.out.push(item);
                    }
                },
                None => {},
            }
            l.next = l.next + 1;
            Ok(())
        },
        LoopKind::KeepTrue => {
            match value {
                Some(v) => {
                    if atom_same(&v, &Atom::sym("True")) {
                        let item = l.items[l.next].clone();
                        l.out.push(item);
                    }
                },
                None => {},
            }
            l.next = l.next + 1;
            Ok(())
        },
    }
}

/// What nested loops do next.
pub enum LoopsOut {
    /// The outermost loop has ended with a value.
    Done(Atom),
    /// They go on after these lines are printed.
    Go(Vec<String>),
    /// The host computes a step.
    Host(Builtin, String, Vec<Atom>),
    /// An expression computes a step.
    Run(Expr),
    /// An error.
    Fail(String),
}

/// What nested loops do next, as a value.
pub enum LoopsOutV {
    /// The outermost loop has ended with a value.
    Done(AtomV),
    /// They go on after these lines are printed.
    Go(Seq<Seq<char>>),
    /// The host computes a step.
    Host(Builtin, Seq<char>, Seq<AtomV>),
    /// An expression computes a step.
    Run(ExprV),
    /// An error.
    Fail(Seq<char>),
}

impl View for LoopsOut {
    type V = LoopsOutV;

    open spec fn view(&self) -> LoopsOutV {
        match self {
            LoopsOut::Done(a) => LoopsOutV::Done(a@),
            LoopsOut::Go(v) => LoopsOutV::Go(texts(v@)),
            LoopsOut::Host(b, n, args) => LoopsOutV::Host(*b, n@, atoms(args@)),
            LoopsOut::Run(e) => LoopsOutV::Run(e@),
            LoopsOut::Fail(m) => LoopsOutV::Fail(m@),
        }
    }
}

/// Nested loops after the innermost one has got the value of a step.
pub open spec fn loops_fed(ls: Seq<LoopV>, value: Option<AtomV>) -> Result<
    Seq<LoopV>,
    Seq<char>,
> {
    if ls.len() == 0 || ls.last().next >= ls.last().items.len() {
        Err("no loop waits for a value"@)
    } else {
        match fed(ls.last(), value) {
            Ok(l) => Ok(ls.drop_last().push(l)),
            Err(m) => Err(m),
        }
    }
}

/// Hand the value of a step to the innermost loop.
pub fn feed_loops(ls: &mut Vec<ListLoop>, value: Option<Atom>) -> (r: Result<(), String>)
    ensures
        (match loops_fed(loops(old(ls)@), optional_atom(value)) {
            Ok(n) => r is Ok && loops(final(ls)@) == n,
            Err(m) => r matches Err(e) && e@ == m,
        }),
{
    broadcast use group_atoms;

    let ghost before = ls@;
    match ls.pop() {
        None => Err("no loop waits for a value".to_owned()),
        Some(l) => {
            let mut l = l;
            assert(loops(before).last() == l@);
            assert(atoms(l.items@).len() == l.items@.len());
            if l.next >= l.items.len() {
                return Err("no loop waits for a value".to_owned());
            }
            match feed(&mut l, value) {
                Err(m) => Err(m),
                Ok(_) => {
                    ls.push(l);
                    assert(loops(ls@) =~= loops(before).drop_last().push(l@));
                    Ok(())
                },
            }
        },
    }
}

/// The first of some values.
pub open spec fn first_of(s: Seq<AtomV>) -> Option<AtomV> {
    if s.len() > 0 {
        Some(s[0])
    } else {
        None
    }
}

/// Nested loops after a step: what they do next, the loops, and the table.
pub open spec fn loops_stepped(ls: Seq<LoopV>, t: TableV) -> (LoopsOutV, Seq<LoopV>, TableV) {
    if ls.len() == 0 {
        (LoopsOutV::Fail("no loop waits for a value"@), ls, t)
    } else {
        match loop_step(ls.last()) {
            LoopStepV::End(v) => if ls.len() == 1 {
                (LoopsOutV::Done(v), Seq::empty(), t)
            } else {
                match loops_fed(ls.drop_last(), Some(v)) {
                    Ok(n) => (LoopsOutV::Go(Seq::empty()), n, t),
                    Err(m) => (LoopsOutV::Fail(m), ls, t),
                }
            },
            LoopStepV::Run(e) => (LoopsOutV::Run(e), ls, t),
            LoopStepV::Call(b, name, args) => {
                let (answer, after) = called(b, name, args, t);
                match answer {
                    AnswerV::Values(vs) => match loops_fed(ls, first_of(vs)) {
                        Ok(n) => (LoopsOutV::Go(Seq::empty()), n, after),
                        Err(m) => (LoopsOutV::Fail(m), ls, after),
                    },
                    AnswerV::Fail(m) => (LoopsOutV::Fail(m), ls, after),
                    AnswerV::Report(line, a) => match loops_fed(ls, Some(a)) {
                        Ok(n) => (LoopsOutV::Go(seq![line]), n, after),
                        Err(m) => (LoopsOutV::Fail(m), ls, after),
                    },
                    AnswerV::Host(c, n, xs) => (LoopsOutV::Host(c, n, xs), ls, after),
                    AnswerV::Loop(l) => (LoopsOutV::Go(Seq::empty()), ls.push(l), after),
                }
            },
        }
    }
}

/// Whether an outcome with loops and a table is the expected one; after an
/// error the loops do not matter.
pub open spec fn loops_agree(
    x: (LoopsOutV, Seq<LoopV>, TableV),
    y: (LoopsOutV, Seq<LoopV>, TableV),
) -> bool {
    x.0 == y.0 && x.2 == y.2 && (x.0 is Fail || x.1 == y.1)
}

/// Take a step of nested loops.
pub fn step_loops(ls: &mut Vec<ListLoop>, table: &mut FnTable) -> (r: LoopsOut)
    ensures
        loops_agree(
            (r@, loops(final(ls)@), final(table)@),
            loops_stepped(loops(old(ls)@), old(table)@),
        ),
{
    broadcast use group_atoms;

    let ghost before = ls@;
    let n: usize = ls.len();
    assert(loops(before).len() == n);
    if n == 0 {
        return LoopsOut::Fail("no loop waits for a value".to_owned());
    }
    assert(loops(before).last() == ls@[n - 1]@);
    let none: Vec<String> = Vec::new();
    assert(texts(none@) =~= Seq::<Seq<char>>::empty());
    match next_step(&ls[n - 1]) {
        LoopStep::End(v) => {
            ls.pop();
            assert(loops(ls@) =~= loops(before).drop_last());
            if n == 1 {
                assert(loops(ls@) =~= Seq::<LoopV>::empty());
                return LoopsOut::Done(v);
            }
            match feed_loops(ls, Some(v)) {
                Ok(_) => LoopsOut::Go(none),
                Err(m) => LoopsOut::Fail(m),
            }
        },
        LoopStep::Run(e) => LoopsOut::Run(e),
        LoopStep::Call(b, name, args) => match call_builtin(b, name.as_str(), &args, table) {
            Answer::Values(vs) => {
                assert(atoms(vs@).len() == vs@.len());
                let first: Option<Atom> = if vs.len() > 0 {
                    Some(vs[0].clone())
                } else {
                    None
                };
                assert(optional_atom(first) == first_of(atoms(vs@)));
                match feed_loops(ls, first) {
                    Ok(_) => LoopsOut::Go(none),
                    Err(m) => LoopsOut::Fail(m),
                }
            },
            Answer::Fail(m) => LoopsOut::Fail(m),
            Answer::Report(line, a) => match feed_loops(ls, Some(a)) {
                Ok(_) => {
                    let mut lines: Vec<String> = Vec::new();
                    lines.push(line);
                    assert(texts(lines@) =~= seq![line@]);
                    LoopsOut::Go(lines)
                },
                Err(m) => LoopsOut::Fail(m),
            },
            Answer::Host(c, n2, xs) => LoopsOut::Host(c, n2, xs),
            Answer::Loop(l) => {
                ls.push(l);
                assert(loops(ls@) =~= loops(before).push(l@));
                LoopsOut::Go(none)
            },
        },
    }
}

} // verus!
