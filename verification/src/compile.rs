//! Compiler: converts a parsed `(= (name args...) body)` form into a clause.
//!
//! The function name is taken out; the raw pattern expressions and the body are
//! stored for the evaluator to dispatch on.
use crate::compile::definitions::Definition;
use crate::compile::definitions::definition;
use crate::expr::Expr;
use crate::expr::ExprV;
use crate::func::Clause;
use crate::text::is_var;
use crate::text::is_var_name;
use crate::text::joined;
use vstd::prelude::*;

pub mod definitions;
pub mod reify;

verus! {

/// A definition whose name is not a variable.
pub open spec fn named_definition(e: ExprV) -> Result<Definition, Seq<char>> {
    match definition(e) {
        Ok(d) => if is_var_name(d.0) {
            Err("function name cannot be a variable: "@ + d.0)
        } else {
            Ok(d)
        },
        Err(m) => Err(m),
    }
}

/// Try to read an expression as a user-defined function clause.
///
/// Expects `(= (name pattern1 pattern2 ...) body)`. The patterns can be
/// variables, literals, numbers or nested lists.
///
/// Fails if the shape does not match, or if the head is not a list starting with
/// a non-variable symbol.
pub fn compile_definition(expr: &Expr) -> (r: Result<(String, Clause), String>)
    ensures
        (match r {
            Ok(d) => named_definition(expr@) == Ok::<Definition, Seq<char>>(
                (d.0@, d.1@.patterns, d.1@.body),
            ),
            Err(m) => named_definition(expr@) == Err::<Definition, Seq<char>>(m@),
        }),
{
    match crate::compile::definitions::compile_definition(expr) {
        Ok((name, clause)) => {
            if is_var(name.as_str()) {
                Err(joined("function name cannot be a variable: ", name.as_str()))
            } else {
                Ok((name, clause))
            }
        },
        Err(m) => Err(m),
    }
}

} // verus!
