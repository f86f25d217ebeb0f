//! Helpers for immediate surface forms.
use crate::atom::Atom;
use crate::atom::symbol;
use crate::env::Env;
use crate::eval::shared::subst::atomized;
use crate::eval::shared::subst::subst_and_atomize;
use crate::expr::Expr;
use crate::expr::expr_text;
use vstd::prelude::*;

verus! {

/// Return the atom represented by a quoted expression.
pub fn quote_atom(expr: &Expr, env: &Env) -> (r: Atom)
    ensures
        r@ == atomized(expr@, env@),
{
    subst_and_atomize(expr, env)
}

/// Return the textual representation of a surface expression.
pub fn repr_expr(expr: &Expr) -> (r: Atom)
    ensures
        r@ == symbol(expr_text(expr@)),
{
    let t = expr.to_text();
    Atom::sym(t.as_str())
}

} // verus!
