//! Execution of explicit machine transitions.
use crate::atom::Atom;
use crate::atom::AtomV;
use crate::atom::atoms;
use crate::atom::group_atoms;
use crate::atom::symbol;
use crate::compile::reify::atom_to_expr;
use crate::compile::reify::to_expr;
use crate::env::Env;
use crate::env::EnvV;
use crate::env::stacked;
use crate::eval::machine::budget::ResultSet;
use crate::eval::machine::budget::ResultV;
use crate::eval::machine::budget::atom_cost;
use crate::eval::machine::budget::calculate_cost;
use crate::eval::machine::budget::capped;
use crate::eval::machine::budget::plain;
use crate::eval::machine::budget::plain_results;
use crate::eval::machine::budget::results;
use crate::eval::machine::budget::single;
use crate::eval::machine::vm::bodies::snapshot_of;
use crate::eval::machine::vm::iterate::paid;
use crate::eval::machine::vm::iterate::pay;
use crate::eval::shared::env::bind_all;
use crate::eval::shared::subst::atomized;
use crate::eval::shared::subst::subst_and_atomize;
use crate::expr::Expr;
use crate::expr::ExprV;
use crate::func::FnTable;
use crate::func::Snapshot;
use crate::func::SnapshotV;
use crate::func::TableV;
use crate::space::add_atom;
use crate::space::collect_match_results;
use crate::space::found_values;
use crate::space::matches_in;
use crate::space::remove_atom;
use crate::space::space_name;
use crate::space::with_atom;
use crate::space::without_atom;
use crate::text::joined;
use vstd::prelude::*;

verus! {

/// A direct change of the machine's state.
pub enum Transition {
    /// Pay for a query.
    Query(u64),
    /// Pay for a step of a chain.
    Chain(u64),
    /// Put out what there is.
    Output,
    /// Rewrite the matches of a pattern: the pattern and the replacement.
    Transform(Atom, Atom),
    /// Add an atom to a space: the space and the atom.
    AddAtom(Atom, Atom),
    /// Remove an atom from a space: the space and the atom.
    RemAtom(Atom, Atom),
    /// Run a body while a named mutex is held.
    WithMutex(String, Expr, Env),
    /// Run a body, and undo what it did when it fails.
    Transaction(Expr, Env),
}

/// The value of a transition.
pub enum TransitionV {
    /// Pay for a query.
    Query(u64),
    /// Pay for a step of a chain.
    Chain(u64),
    /// Put out what there is.
    Output,
    /// Rewrite the matches of a pattern.
    Transform(AtomV, AtomV),
    /// Add an atom to a space.
    AddAtom(AtomV, AtomV),
    /// Remove an atom from a space.
    RemAtom(AtomV, AtomV),
    /// Run a body while a named mutex is held.
    WithMutex(Seq<char>, ExprV, EnvV),
    /// Run a body, and undo what it did when it fails.
    Transaction(ExprV, EnvV),
}

impl View for Transition {
    type V = TransitionV;

    open spec fn view(&self) -> TransitionV {
        match self {
            Transition::Query(c) => TransitionV::Query(*c),
            Transition::Chain(c) => TransitionV::Chain(*c),
            Transition::Output => TransitionV::Output,
            Transition::Transform(p, r) => TransitionV::Transform(p@, r@),
            Transition::AddAtom(s, a) => TransitionV::AddAtom(s@, a@),
            Transition::RemAtom(s, a) => TransitionV::RemAtom(s@, a@),
            Transition::WithMutex(n, b, e) => TransitionV::WithMutex(n@, b@, e@),
            Transition::Transaction(b, e) => TransitionV::Transaction(b@, e@),
        }
    }
}

/// Paying for an atom.
pub open spec fn atom_paid(a: AtomV, budget: Option<i64>, op: Seq<char>) -> Result<
    Option<i64>,
    Seq<char>,
> {
    match paid(budget, capped(atom_cost(a) as int) as int) {
        Some(left) => Ok(left),
        None => Err("Budget exhausted for "@ + op),
    }
}

/// Pay for an atom.
fn debit_budget(atom: &Atom, budget: Option<i64>, op: &str) -> (r: Result<Option<i64>, String>)
    ensures
        (match r {
            Ok(left) => atom_paid(atom@, budget, op@) == Ok::<Option<i64>, Seq<char>>(left),
            Err(m) => atom_paid(atom@, budget, op@) == Err::<Option<i64>, Seq<char>>(m@),
        }),
{
    let cost: i64 = match calculate_cost(atom) {
        Some(c) => c,
        None => 0,
    };
    match pay(budget, cost as i128) {
        Some(left) => Ok(left),
        None => Err(joined("Budget exhausted for ", op)),
    }
}

/// The replacements for the matches of a pattern in the default space.
pub open spec fn transformed(t: TableV, pattern: AtomV, replacement: AtomV) -> Result<
    Seq<AtomV>,
    Seq<char>,
> {
    match matches_in(t, symbol("&self"@), to_expr(pattern), EnvV::Empty) {
        Err(m) => Err(m),
        Ok(found) => Ok(
            Seq::new(
                found.len(),
                |i: int| atomized(to_expr(replacement), stacked(found[i].1, EnvV::Empty)),
            ),
        ),
    }
}

/// Rewrite the matches of a pattern in the default space.
pub fn transform_matches(table: &FnTable, pattern: &Atom, replacement: &Atom) -> (r: Result<
    Vec<Atom>,
    String,
>)
    ensures
        (match r {
            Ok(v) => transformed(table@, pattern@, replacement@) == Ok::<Seq<AtomV>, Seq<char>>(
                atoms(v@),
            ),
            Err(m) => transformed(table@, pattern@, replacement@) == Err::<Seq<AtomV>, Seq<char>>(
                m@,
            ),
        }),
{
    broadcast use group_atoms;

    let p: Expr = match atom_to_expr(pattern) {
        Ok(e) => e,
        Err(m) => Expr::Symbol(m),
    };
    let q: Expr = match atom_to_expr(replacement) {
        Ok(e) => e,
        Err(m) => Expr::Symbol(m),
    };
    let space = Atom::sym("&self");
    let env = Env::new();
    match collect_match_results(table, &space, &p, &env) {
        Err(m) => Err(m),
        Ok(found) => {
            let ghost fv = found_values(found@);
            let ghost want = transformed(table@, pattern@, replacement@)->Ok_0;
            let mut out: Vec<Atom> = Vec::new();
            let mut i: usize = 0;
            assert(atoms(out@) =~= want.take(0));
            while i < found.len()
                invariant
                    i <= found@.len(),
                    fv == found_values(found@),
                    want.len() == fv.len(),
                    env@ == EnvV::Empty,
                    q@ == to_expr(replacement@),
                    forall|k: int|
                        0 <= k < fv.len() ==> #[trigger] want[k] == atomized(
                            to_expr(replacement@),
                            stacked(fv[k].1, EnvV::Empty),
                        ),
                    atoms(out@) == want.take(i as int),
                decreases found@.len() - i,
            {
                let inner = bind_all(&env, &found[i].bindings);
                out.push(subst_and_atomize(&q, &inner));
                assert(want.take(i + 1) =~= want.take(i as int).push(want[i as int]));
                i += 1;
            }
            assert(want.take(found@.len() as int) =~= want);
            Ok(out)
        },
    }
}

/// What a transition comes to.
pub enum Moved {
    /// Nothing is produced.
    Silent,
    /// A result.
    Value(ResultSet),
    /// A body runs while a named mutex is held.
    Locked(String, Expr, Env),
    /// A body runs, and the table is put back as it was when it fails.
    Guarded(Snapshot, Expr, Env),
    /// An error.
    Fail(String),
}

/// The value of what a transition comes to.
pub enum MovedV {
    /// Nothing is produced.
    Silent,
    /// A result.
    Value(ResultV),
    /// A body runs while a named mutex is held.
    Locked(Seq<char>, ExprV, EnvV),
    /// A body runs, and the table is put back as it was when it fails.
    Guarded(SnapshotV, ExprV, EnvV),
    /// An error.
    Fail(Seq<char>),
}

impl View for Moved {
    type V = MovedV;

    open spec fn view(&self) -> MovedV {
        match self {
            Moved::Silent => MovedV::Silent,
            Moved::Value(rs) => MovedV::Value(results(rs@)),
            Moved::Locked(n, x, e) => MovedV::Locked(n@, x@, e@),
            Moved::Guarded(s, x, e) => MovedV::Guarded(s@, x@, e@),
            Moved::Fail(m) => MovedV::Fail(m@),
        }
    }
}

/// What a transition comes to, what is left of the budget, and the table.
pub open spec fn transitioned(tr: TransitionV, t: TableV, budget: Option<i64>) -> (
    MovedV,
    Option<i64>,
    TableV,
) {
    match tr {
        TransitionV::Query(cost) | TransitionV::Chain(cost) => match paid(budget, cost as int) {
            Some(left) => (MovedV::Silent, left, t),
            None => (MovedV::Fail("Budget exhausted"@), budget, t),
        },
        TransitionV::Output => (MovedV::Silent, budget, t),
        TransitionV::Transform(p, q) => match transformed(t, p, q) {
            Ok(vs) => (MovedV::Value(plain_results(vs)), budget, t),
            Err(m) => (MovedV::Fail(m), budget, t),
        },
        TransitionV::AddAtom(space, a) => match atom_paid(a, budget, "addAtom"@) {
            Err(m) => (MovedV::Fail(m), budget, t),
            Ok(left) => match space_name(space) {
                Err(m) => (MovedV::Fail(m), left, t),
                Ok(name) => (
                    MovedV::Value(plain_results(seq![symbol("true"@)])),
                    left,
                    with_atom(t, name, a),
                ),
            },
        },
        TransitionV::RemAtom(space, a) => match atom_paid(a, budget, "remAtom"@) {
            Err(m) => (MovedV::Fail(m), budget, t),
            Ok(left) => match space_name(space) {
                Err(m) => (MovedV::Fail(m), left, t),
                Ok(name) => (
                    MovedV::Value(
                        plain_results(
                            seq![
                                if t.space(name).contains(a) {
                                    symbol("true"@)
                                } else {
                                    symbol(""@)
                                },
                            ],
                        ),
                    ),
                    left,
                    without_atom(t, name, a),
                ),
            },
        },
        TransitionV::WithMutex(n, body, env) => (MovedV::Locked(n, body, env), budget, t),
        TransitionV::Transaction(body, env) => (
            MovedV::Guarded(snapshot_of(t), body, env),
            budget,
            t,
        ),
    }
}

/// Execute one machine transition.
pub fn apply_transition(tr: Transition, table: &mut FnTable, budget: Option<i64>) -> (r: (
    Moved,
    Option<i64>,
))
    ensures
        (r.0@, r.1, final(table)@) == transitioned(tr@, old(table)@, budget),
{
    match tr {
        Transition::Query(cost) | Transition::Chain(cost) => match pay(budget, cost as i128) {
            Some(left) => (Moved::Silent, left),
            None => (Moved::Fail("Budget exhausted".to_owned()), budget),
        },
        Transition::Output => (Moved::Silent, budget),
        Transition::Transform(p, q) => match transform_matches(table, &p, &q) {
            Ok(vs) => (Moved::Value(plain(vs)), budget),
            Err(m) => (Moved::Fail(m), budget),
        },
        Transition::AddAtom(space, a) => match debit_budget(&a, budget, "addAtom") {
            Err(m) => (Moved::Fail(m), budget),
            Ok(left) => match add_atom(table, &space, &a) {
                Err(m) => (Moved::Fail(m), left),
                Ok(()) => (Moved::Value(single(Atom::sym("true"))), left),
            },
        },
        Transition::RemAtom(space, a) => match debit_budget(&a, budget, "remAtom") {
            Err(m) => (Moved::Fail(m), budget),
            Ok(left) => match remove_atom(table, &space, &a) {
                Err(m) => (Moved::Fail(m), left),
                Ok(true) => (Moved::Value(single(Atom::sym("true"))), left),
                Ok(false) => (Moved::Value(single(Atom::sym(""))), left),
            },
        },
        Transition::WithMutex(n, body, env) => (Moved::Locked(n, body, env), budget),
        Transition::Transaction(body, env) => (
            Moved::Guarded(table.snapshot(), body, env),
            budget,
        ),
    }
}

} // verus!
