//! Helpers for inspecting evaluator values.
use crate::atom::Atom;
use crate::atom::AtomV;
use crate::atom::atoms;
use crate::atom::sexpr;
use crate::atom::truthy;
use crate::numeric::NumV;
use vstd::prelude::*;

verus! {

/// Return whether an atom is truthy.
pub fn is_truthy(atom: &Atom) -> (r: bool)
    ensures
        r == truthy(atom@),
{
    atom.is_truthy()
}

/// Return a numeric value from an atom.
pub fn expect_num(atom: &Atom) -> (r: Result<i128, String>)
    ensures
        r is Ok == (atom@ matches AtomV::Num(NumV::Int(n)) && i128::MIN <= n <= i128::MAX),
        r matches Ok(n) ==> atom@ == AtomV::Num(NumV::Int(n as int)),
{
    atom.as_num()
}

/// Return a symbol string from an atom.
pub fn expect_sym(atom: &Atom) -> (r: Result<&str, String>)
    ensures
        r is Ok == (atom is Sym),
        r matches Ok(s) ==> atom@ == AtomV::Sym(s@),
        r matches Err(e) ==> e@ == "expected symbol, got "@ + sexpr(atom@),
{
    atom.as_sym()
}

/// Return expression items from an atom.
pub fn expect_expr(atom: &Atom) -> (r: Result<&Vec<Atom>, String>)
    ensures
        r is Ok == (atom is Expr),
        r matches Ok(items) ==> atom@ == AtomV::Expr(atoms(items@)),
        r matches Err(e) ==> e@ == "expected expression, got "@ + sexpr(atom@),
{
    atom.as_expr()
}

} // verus!
