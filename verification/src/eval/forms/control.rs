//! Helpers for control-oriented surface forms.
use crate::atom::Atom;
use crate::atom::truthy;
use crate::env::Env;
use crate::env::EnvV;
use crate::eval::shared::env::bind;
use crate::expr::Expr;
use crate::expr::ExprV;
use crate::expr::exprs;
use crate::expr::group_exprs;
use crate::text::joined;
use crate::text::nat_digits;
use crate::text::usize_text;
use std::sync::Arc;
use vstd::prelude::*;

verus! {

/// Return whether an atom selects the truthy branch.
pub fn is_truthy(atom: &Atom) -> (r: bool)
    ensures
        r == truthy(atom@),
{
    crate::eval::shared::value::is_truthy(atom)
}

/// Extend an environment with a single binding.
pub fn bind_value(env: &Env, name: &str, value: Atom) -> (r: Env)
    ensures
        r@ == EnvV::Cons(name@, Box::new(value@), Box::new(env@)),
{
    bind(env, name, value)
}

/// The bindings of a `let*` form's arguments, or what is wrong with them.
pub open spec fn star_bindings(args: Seq<ExprV>) -> Result<Seq<ExprV>, Seq<char>> {
    if args.len() != 2 {
        Err("let*: expected 2 args, got "@ + nat_digits(args.len()))
    } else {
        match args[0] {
            ExprV::List(items) => Ok(items),
            _ => Err("let*: bindings must be a list"@),
        }
    }
}

/// One pair of a `let*` form's bindings, or what is wrong with it.
pub open spec fn star_binding(bindings: Seq<ExprV>, index: nat) -> Result<
    (ExprV, ExprV),
    Seq<char>,
> {
    if index >= bindings.len() {
        Err("let*: missing binding at index "@ + nat_digits(index))
    } else {
        match bindings[index as int] {
            ExprV::List(items) => if items.len() == 2 {
                Ok((items[0], items[1]))
            } else {
                Err("let*: each binding must be a list (pattern value)"@)
            },
            _ => Err("let*: each binding must be a list (pattern value)"@),
        }
    }
}

/// Return the sequential binding list for a `let*` form.
pub fn let_star_bindings(args: &Vec<Expr>) -> (r: Result<Arc<Vec<Expr>>, String>)
    ensures
        (match r {
            Ok(b) => star_bindings(exprs(args@)) == Ok::<Seq<ExprV>, Seq<char>>(exprs(b@)),
            Err(m) => star_bindings(exprs(args@)) == Err::<Seq<ExprV>, Seq<char>>(m@),
        }),
{
    broadcast use group_exprs;

    if args.len() != 2 {
        let n = usize_text(args.len());
        return Err(joined("let*: expected 2 args, got ", n.as_str()));
    }
    assert(exprs(args@)[0] == args@[0]@);
    match &args[0] {
        Expr::List(items) => Ok(items.clone()),
        _ => Err("let*: bindings must be a list".to_owned()),
    }
}

/// Return one binding pair from a `let*` binding list.
pub fn let_star_binding(bindings: &Vec<Expr>, index: usize) -> (r: Result<(&Expr, &Expr), String>)
    ensures
        (match r {
            Ok(p) => star_binding(exprs(bindings@), index as nat) == Ok::<
                (ExprV, ExprV),
                Seq<char>,
            >((p.0@, p.1@)),
            Err(m) => star_binding(exprs(bindings@), index as nat) == Err::<
                (ExprV, ExprV),
                Seq<char>,
            >(m@),
        }),
{
    broadcast use group_exprs;

    if index >= bindings.len() {
        let n = usize_text(index);
        return Err(joined("let*: missing binding at index ", n.as_str()));
    }
    assert(exprs(bindings@)[index as int] == bindings@[index as int]@);
    match &bindings[index] {
        Expr::List(items) => {
            assert(exprs(items@).len() == items@.len());
            if items.len() == 2 {
                assert(exprs(items@)[0] == items@[0]@ && exprs(items@)[1] == items@[1]@);
                Ok((&items[0], &items[1]))
            } else {
                Err("let*: each binding must be a list (pattern value)".to_owned())
            }
        },
        _ => Err("let*: each binding must be a list (pattern value)".to_owned()),
    }
}

} // verus!
