//! Helpers for closures and delayed arguments.
use crate::expr::Expr;
use crate::expr::ExprV;
use crate::expr::exprs;
use crate::expr::group_exprs;
use crate::func::Clause;
use crate::func::ClauseV;
use crate::func::clauses;
use crate::text::is_var;
use crate::text::is_var_name;
use crate::text::same;
use vstd::prelude::*;
use vstd::string::*;

verus! {

/// Whether a list is `(eval var)`.
pub open spec fn is_eval_of(items: Seq<ExprV>, var: Seq<char>) -> bool {
    items.len() == 2 && items[0] == ExprV::Symbol("eval"@) && items[1] == ExprV::Symbol(var)
}

/// Whether a variable occurs somewhere else than as the argument of `(eval var)`.
pub open spec fn occurs_bare(e: ExprV, var: Seq<char>) -> bool
    decreases e,
{
    match e {
        ExprV::Symbol(s) => s == var,
        ExprV::List(items) => !is_eval_of(items, var) && exists|i: int|
            0 <= i < items.len() && occurs_bare(#[trigger] items[i], var),
        _ => false,
    }
}

/// Whether `(eval var)` occurs.
pub open spec fn occurs_evaluated(e: ExprV, var: Seq<char>) -> bool
    decreases e,
{
    match e {
        ExprV::List(items) => is_eval_of(items, var) || exists|i: int|
            0 <= i < items.len() && occurs_evaluated(#[trigger] items[i], var),
        _ => false,
    }
}

/// Whether a variable is used, and only under `(eval var)`.
pub open spec fn eval_only(body: ExprV, var: Seq<char>) -> bool {
    occurs_evaluated(body, var) && !occurs_bare(body, var)
}

/// Whether a variable occurs anywhere.
pub open spec fn occurs(e: ExprV, var: Seq<char>) -> bool
    decreases e,
{
    match e {
        ExprV::Symbol(s) => s == var,
        ExprV::List(items) => exists|i: int| 0 <= i < items.len() && occurs(#[trigger] items[i], var),
        _ => false,
    }
}

/// Whether a body is directly `(== ... var ...)` or `(!= ... var ...)`, with no
/// nested occurrence of the variable.
pub open spec fn compares_directly(body: ExprV, var: Seq<char>) -> bool {
    match body {
        ExprV::List(items) => {
            &&& items.len() >= 2
            &&& (items[0] == ExprV::Symbol("=="@) || items[0] == ExprV::Symbol("!="@))
            &&& exists|i: int| 1 <= i < items.len() && #[trigger] items[i] == ExprV::Symbol(var)
            &&& forall|i: int|
                1 <= i < items.len() && (#[trigger] items[i] is List) ==> !occurs(items[i], var)
        },
        _ => false,
    }
}

/// Whether every clause passes the argument at a position on unevaluated.
pub open spec fn lazy_at(cs: Seq<ClauseV>, arity: nat, index: int) -> bool {
    forall|c: int| 0 <= c < cs.len() ==> clause_lazy_at(#[trigger] cs[c], arity, index)
}

/// Whether a clause passes the argument at a position on unevaluated.
pub open spec fn clause_lazy_at(c: ClauseV, arity: nat, index: int) -> bool {
    c.patterns.len() == arity && (match c.patterns[index] {
        ExprV::Symbol(name) => is_var_name(name) && (eval_only(c.body, name) || compares_directly(
            c.body,
            name,
        )),
        _ => false,
    })
}

/// The lazy argument mask of a function's clauses.
pub open spec fn lazy_mask(cs: Seq<ClauseV>) -> Seq<bool> {
    if cs.len() == 0 {
        Seq::empty()
    } else {
        Seq::new(cs[0].patterns.len(), |i: int| lazy_at(cs, cs[0].patterns.len(), i))
    }
}

/// Look for the uses of a variable: `seen` records `(eval var)`, and `ok` turns
/// false at the first other occurrence.
fn walk(expr: &Expr, var: &str, seen: &mut bool, ok: &mut bool)
    requires
        *old(ok),
    ensures
        *final(ok) == !occurs_bare(expr@, var@),
        *final(ok) ==> *final(seen) == (*old(seen) || occurs_evaluated(expr@, var@)),
    decreases expr,
{
    broadcast use group_exprs;

    match expr {
        Expr::Symbol(s) => {
            if same(s.as_str(), var) {
                *seen = true;
                *ok = false;
            }
        },
        Expr::List(items) => {
            let is_eval = items.len() == 2 && (match &items[0] {
                Expr::Symbol(s) => same(s.as_str(), "eval"),
                _ => false,
            }) && (match &items[1] {
                Expr::Symbol(s) => same(s.as_str(), var),
                _ => false,
            });
            assert(is_eval == is_eval_of(exprs(items@), var@));
            if is_eval {
                *seen = true;
                return ;
            }
            let mut i: usize = 0;
            while i < items.len()
                invariant
                    i <= items@.len(),
                    *expr == Expr::List(*items),
                    !is_eval_of(exprs(items@), var@),
                    *ok,
                    forall|j: int| 0 <= j < i ==> !occurs_bare(#[trigger] exprs(items@)[j], var@),
                    *seen == (*old(seen) || exists|j: int|
                        0 <= j < i && occurs_evaluated(#[trigger] exprs(items@)[j], var@)),
                decreases items@.len() - i,
            {
                assert(decreases_to!(expr => expr->List_0@[i as int]));
                let ghost before = *seen;
                walk(&items[i], var, seen, ok);
                if !*ok {
                    assert(occurs_bare(exprs(items@)[i as int], var@));
                    return ;
                }
                proof {
                    if *seen && !before {
                        assert(occurs_evaluated(exprs(items@)[i as int], var@));
                    }
                }
                i += 1;
            }
        },
        _ => {},
    }
}

/// Return `true` when a variable occurs, and every occurrence is under an
/// `(eval var)` form.
pub fn is_eval_only_param(body: &Expr, var: &str) -> (r: bool)
    ensures
        r == eval_only(body@, var@),
{
    let mut seen: bool = false;
    let mut ok: bool = true;
    walk(body, var, &mut seen, &mut ok);
    seen && ok
}

/// A variable that occurs in an element occurs in the list.
proof fn lemma_occurs_in(items: Seq<ExprV>, i: int, var: Seq<char>)
    requires
        0 <= i < items.len(),
        occurs(items[i], var),
    ensures
        occurs(ExprV::List(items), var),
{
    assert(ExprV::List(items)->List_0[i] == items[i]);
}

/// Return `true` when `var` appears anywhere in the expression tree.
pub fn contains_var(expr: &Expr, var: &str) -> (r: bool)
    ensures
        r == occurs(expr@, var@),
    decreases expr,
{
    broadcast use group_exprs;

    match expr {
        Expr::Symbol(s) => {
            assert(expr@ == ExprV::Symbol(s@));
            same(s.as_str(), var)
        },
        Expr::List(items) => {
            assert(expr@ == ExprV::List(exprs(items@)));
            let mut i: usize = 0;
            while i < items.len()
                invariant
                    i <= items@.len(),
                    *expr == Expr::List(*items),
                    forall|j: int| 0 <= j < i ==> !occurs(#[trigger] exprs(items@)[j], var@),
                decreases items@.len() - i,
            {
                assert(decreases_to!(expr => expr->List_0@[i as int]));
                if contains_var(&items[i], var) {
                    assert(0 <= i < exprs(items@).len() && occurs(exprs(items@)[i as int], var@));
                    proof {
                        lemma_occurs_in(exprs(items@), i as int, var@);
                    }
                    return true;
                }
                i += 1;
            }
            false
        },
        _ => false,
    }
}

/// Return `true` when the body is directly `(== $var ...)` or `(!= $var ...)`
/// with `var` as a direct (non-nested) argument.
pub fn is_eq_direct_body(body: &Expr, var: &str) -> (r: bool)
    ensures
        r == compares_directly(body@, var@),
{
    broadcast use group_exprs;

    match body {
        Expr::List(items) => {
            if items.len() < 2 {
                return false;
            }
            let compares = match &items[0] {
                Expr::Symbol(s) => same(s.as_str(), "==") || same(s.as_str(), "!="),
                _ => false,
            };
            assert(compares == (exprs(items@)[0] == ExprV::Symbol("=="@) || exprs(items@)[0]
                == ExprV::Symbol("!="@)));
            if !compares {
                return false;
            }
            let mut direct: bool = false;
            let mut i: usize = 1;
            while i < items.len()
                invariant
                    1 <= i <= items@.len(),
                    *body == Expr::List(*items),
                    direct == exists|j: int|
                        1 <= j < i && #[trigger] exprs(items@)[j] == ExprV::Symbol(var@),
                    forall|j: int|
                        1 <= j < i && (#[trigger] exprs(items@)[j] is List) ==> !occurs(
                            exprs(items@)[j],
                            var@,
                        ),
                decreases items@.len() - i,
            {
                match &items[i] {
                    Expr::Symbol(s) => {
                        let here = same(s.as_str(), var);
                        assert(here == (exprs(items@)[i as int] == ExprV::Symbol(var@)));
                        if here {
                            direct = true;
                        }
                    },
                    Expr::List(_) => {
                        if contains_var(&items[i], var) {
                            assert(exprs(items@)[i as int] is List);
                            return false;
                        }
                    },
                    _ => {},
                }
                i += 1;
            }
            direct
        },
        _ => false,
    }
}

/// Compute the lazy argument mask for a set of user-function clauses.
///
/// A slot is lazy when every clause uses the corresponding variable only as an
/// explicit argument to `eval`, or compares it directly.
pub fn lazy_user_arg_mask(cs: &Vec<Clause>) -> (r: Vec<bool>)
    ensures
        r@ == lazy_mask(clauses(cs@)),
{
    broadcast use group_exprs;

    let mut out: Vec<bool> = Vec::new();
    if cs.len() == 0 {
        assert(out@ =~= lazy_mask(clauses(cs@)));
        return out;
    }
    let arity: usize = cs[0].patterns.len();
    let mut index: usize = 0;
    while index < arity
        invariant
            index <= arity,
            cs@.len() > 0,
            arity == cs@[0].patterns@.len(),
            out@.len() == index,
            forall|i: int| 0 <= i < index ==> out@[i] == lazy_at(clauses(cs@), arity as nat, i),
        decreases arity - index,
    {
        let mut lazy: bool = true;
        let mut c: usize = 0;
        while c < cs.len()
            invariant
                c <= cs@.len(),
                index < arity,
                lazy == forall|d: int|
                    0 <= d < c ==> clause_lazy_at(
                        #[trigger] clauses(cs@)[d],
                        arity as nat,
                        index as int,
                    ),
            decreases cs@.len() - c,
        {
            let cl = &cs[c];
            let here = cl.patterns.len() == arity && (match &cl.patterns[index] {
                Expr::Symbol(name) => is_var(name.as_str()) && (is_eval_only_param(
                    &cl.body,
                    name.as_str(),
                ) || is_eq_direct_body(&cl.body, name.as_str())),
                _ => false,
            });
            assert(here == clause_lazy_at(clauses(cs@)[c as int], arity as nat, index as int));
            if !here {
                lazy = false;
            }
            c += 1;
        }
        out.push(lazy);
        index += 1;
    }
    assert(out@ =~= lazy_mask(clauses(cs@)));
    out
}

} // verus!
