//! Helpers for converting between parsed expressions and runtime atoms.
use crate::atom::Atom;
use crate::atom::AtomV;
use crate::atom::atoms;
use crate::atom::canonical_name;
use crate::atom::group_atoms;
use crate::atom::symbol;
use crate::expr::Expr;
use crate::expr::ExprV;
use crate::expr::exprs;
use crate::expr::group_exprs;
use std::sync::Arc;
use vstd::prelude::*;

verus! {

/// The atom that an expression denotes as data.
pub open spec fn to_atom(e: ExprV) -> AtomV
    decreases e,
{
    match e {
        ExprV::Symbol(s) => symbol(s),
        ExprV::Str(s) => AtomV::Str(s),
        ExprV::Number(n) => AtomV::Num(n),
        ExprV::List(items) => AtomV::Expr(to_atoms(items)),
    }
}

/// The atoms that expressions denote as data.
pub open spec fn to_atoms(s: Seq<ExprV>) -> Seq<AtomV>
    decreases s,
{
    Seq::new(
        s.len(),
        |i: int|
            if 0 <= i < s.len() {
                to_atom(s[i])
            } else {
                arbitrary()
            },
    )
}

/// The expression that shows an atom.
pub open spec fn to_expr(a: AtomV) -> ExprV
    decreases a,
{
    match a {
        AtomV::Sym(s) => ExprV::Symbol(s),
        AtomV::Str(s) => ExprV::Str(s),
        AtomV::Num(n) => ExprV::Number(n),
        AtomV::Expr(items) => ExprV::List(to_exprs(items)),
        AtomV::Closure(params, body, env) => ExprV::List(
            seq![ExprV::Symbol("|->"@), ExprV::List(params), body],
        ),
        AtomV::Gnd(key, text) => ExprV::Symbol(text),
    }
}

/// The expressions that show atoms.
pub open spec fn to_exprs(s: Seq<AtomV>) -> Seq<ExprV>
    decreases s,
{
    Seq::new(
        s.len(),
        |i: int|
            if 0 <= i < s.len() {
                to_expr(s[i])
            } else {
                arbitrary()
            },
    )
}

/// Convert a parsed expression into a runtime atom.
pub fn expr_to_atom(expr: &Expr) -> (r: Atom)
    ensures
        r@ == to_atom(expr@),
    decreases expr,
{
    broadcast use {group_exprs, group_atoms};

    match expr {
        Expr::Symbol(s) => Atom::sym(s.as_str()),
        Expr::Str(s) => Atom::str_val(s.as_str()),
        Expr::Number(n) => Atom::Num(n.clone()),
        Expr::List(items) => {
            let mut out: Vec<Atom> = Vec::new();
            let mut i: usize = 0;
            while i < items.len()
                invariant
                    i <= items@.len(),
                    *expr == Expr::List(*items),
                    atoms(out@) == to_atoms(exprs(items@)).take(i as int),
                decreases items@.len() - i,
            {
                assert(decreases_to!(expr => expr->List_0@[i as int]));
                out.push(expr_to_atom(&items[i]));
                assert(to_atoms(exprs(items@)).take(i + 1) =~= to_atoms(exprs(items@)).take(
                    i as int,
                ).push(to_atom(exprs(items@)[i as int])));
                i += 1;
            }
            assert(to_atoms(exprs(items@)).take(items@.len() as int) =~= to_atoms(exprs(items@)));
            Atom::expr(out)
        },
    }
}

/// Convert a runtime atom into a parsed expression. This never fails.
pub fn atom_to_expr(atom: &Atom) -> (r: Result<Expr, String>)
    ensures
        r is Ok,
        r->Ok_0@ == to_expr(atom@),
    decreases atom,
{
    broadcast use {group_exprs, group_atoms};

    match atom {
        Atom::Sym(s) => Ok(Expr::Symbol(s.clone())),
        Atom::Str(s) => Ok(Expr::Str(s.clone())),
        Atom::Num(n) => Ok(Expr::Number(n.clone())),
        Atom::Expr(items) => {
            let mut out: Vec<Expr> = Vec::new();
            let mut i: usize = 0;
            while i < items.len()
                invariant
                    i <= items@.len(),
                    *atom == Atom::Expr(*items),
                    exprs(out@) == to_exprs(atoms(items@)).take(i as int),
                decreases items@.len() - i,
            {
                assert(decreases_to!(atom => atom->Expr_0@[i as int]));
                match atom_to_expr(&items[i]) {
                    Ok(e) => {
                        out.push(e);
                        assert(to_exprs(atoms(items@)).take(i + 1) =~= to_exprs(atoms(items@)).take(
                            i as int,
                        ).push(to_expr(atoms(items@)[i as int])));
                    },
                    Err(m) => {
                        return Err(m);
                    },
                }
                i += 1;
            }
            assert(to_exprs(atoms(items@)).take(items@.len() as int) =~= to_exprs(atoms(items@)));
            Ok(Expr::List(Arc::new(out)))
        },
        Atom::Closure(c) => {
            let mut out: Vec<Expr> = Vec::new();
            out.push(Expr::Symbol("|->".to_owned()));
            out.push(Expr::List(c.params.clone()));
            out.push(c.body.clone());
            assert(exprs(out@) =~= seq![
                ExprV::Symbol("|->"@),
                ExprV::List(exprs(c.params@)),
                c.body@,
            ]);
            Ok(Expr::List(Arc::new(out)))
        },
        Atom::Gnd(g) => Ok(Expr::Symbol(g.text.clone())),
    }
}

/// Whether an atom is plain data: no closure, no host object, and every symbol
/// written in its canonical form.
pub open spec fn is_plain(a: AtomV) -> bool
    decreases a,
{
    match a {
        AtomV::Sym(s) => canonical_name(s) == s,
        AtomV::Str(_) => true,
        AtomV::Num(_) => true,
        AtomV::Expr(items) => forall|i: int| 0 <= i < items.len() ==> is_plain(#[trigger] items[i]),
        _ => false,
    }
}

/// Whether every symbol of an expression is written in its canonical form.
pub open spec fn is_canonical(e: ExprV) -> bool
    decreases e,
{
    match e {
        ExprV::Symbol(s) => canonical_name(s) == s,
        ExprV::List(items) => forall|i: int|
            0 <= i < items.len() ==> is_canonical(#[trigger] items[i]),
        _ => true,
    }
}

/// Plain data survives the way to an expression and back.
pub proof fn atom_round_trip(a: AtomV)
    requires
        is_plain(a),
    ensures
        to_atom(to_expr(a)) == a,
    decreases a,
{
    if let AtomV::Expr(items) = a {
        assert forall|i: int| 0 <= i < items.len() implies to_atom(#[trigger] to_exprs(items)[i])
            == items[i] by {
            atom_round_trip(items[i]);
        }
        assert(to_atoms(to_exprs(items)) =~= items);
    }
}

/// An expression with canonical symbols survives the way to an atom and back.
pub proof fn expr_round_trip(e: ExprV)
    requires
        is_canonical(e),
    ensures
        to_expr(to_atom(e)) == e,
    decreases e,
{
    if let ExprV::List(items) = e {
        assert forall|i: int| 0 <= i < items.len() implies to_expr(#[trigger] to_atoms(items)[i])
            == items[i] by {
            expr_round_trip(items[i]);
        }
        assert(to_exprs(to_atoms(items)) =~= items);
    }
}

} // verus!
