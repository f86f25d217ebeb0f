//! Helpers for compiling function definitions into clause data.
use crate::expr::Expr;
use crate::expr::ExprV;
use crate::expr::copy_exprs;
use crate::expr::exprs;
use crate::expr::group_exprs;
use crate::func::Clause;
use crate::text::joined;
use crate::text::nat_digits;
use crate::text::same;
use crate::text::usize_text;
use vstd::prelude::*;
use vstd::string::*;

verus! {

/// A function definition: name, argument patterns and body.
pub type Definition = (Seq<char>, Seq<ExprV>, ExprV);

/// The definition that an expression of the shape `(= (name patterns...) body)`
/// gives, or what is wrong with its shape.
pub open spec fn definition(e: ExprV) -> Result<Definition, Seq<char>> {
    match e {
        ExprV::List(items) => if items.len() != 3 {
            Err("definition expects 3 elements (= head body), got "@ + nat_digits(items.len()))
        } else if items[0] != ExprV::Symbol("="@) {
            Err("definition must start with ="@)
        } else {
            match items[1] {
                ExprV::List(head) => if head.len() == 0 {
                    Err("function head cannot be empty"@)
                } else {
                    match head[0] {
                        ExprV::Symbol(name) => Ok((name, head.skip(1), items[2])),
                        _ => Err("function name must be a symbol"@),
                    }
                },
                _ => Err("function head must be a list (name args...)"@),
            }
        },
        _ => Err("definition must be a list"@),
    }
}

/// Compile a surface definition expression into a function name and clause.
pub fn compile_definition(expr: &Expr) -> (r: Result<(String, Clause), String>)
    ensures
        (match r {
            Ok(d) => definition(expr@) == Ok::<Definition, Seq<char>>(
                (d.0@, d.1@.patterns, d.1@.body),
            ),
            Err(m) => definition(expr@) == Err::<Definition, Seq<char>>(m@),
        }),
{
    broadcast use group_exprs;

    let items = match expr {
        Expr::List(items) => items,
        _ => {
            return Err("definition must be a list".to_owned());
        },
    };
    if items.len() != 3 {
        let n = usize_text(items.len());
        return Err(joined("definition expects 3 elements (= head body), got ", n.as_str()));
    }
    let starts = match &items[0] {
        Expr::Symbol(s) => same(s.as_str(), "="),
        _ => false,
    };
    assert(starts == (exprs(items@)[0] == ExprV::Symbol("="@)));
    if !starts {
        return Err("definition must start with =".to_owned());
    }
    let head = match &items[1] {
        Expr::List(head) => head,
        _ => {
            return Err("function head must be a list (name args...)".to_owned());
        },
    };
    if head.len() == 0 {
        return Err("function head cannot be empty".to_owned());
    }
    assert(exprs(head@)[0] == head@[0]@);
    let name = match &head[0] {
        Expr::Symbol(s) => s.clone(),
        _ => {
            return Err("function name must be a symbol".to_owned());
        },
    };
    let patterns = copy_exprs(head, 1);
    assert(exprs(patterns@) =~= exprs(head@).skip(1));
    let body = items[2].clone();
    Ok((name, Clause { patterns, body }))
}

} // verus!
