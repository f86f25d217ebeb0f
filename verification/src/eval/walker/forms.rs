//! Control forms of the tree-walking evaluator.
use crate::atom::Atom;
use crate::atom::AtomV;
use crate::atom::ClosureData;
use crate::atom::affirms;
use crate::atom::atoms;
use crate::atom::group_atoms;
use crate::atom::sexpr;
use crate::builtins::collections::items_of;
use crate::builtins::collections::list_items;
use crate::compile::reify::atom_to_expr;
use crate::compile::reify::to_expr;
use crate::env::Env;
use crate::env::EnvV;
use crate::env::env_get;
use crate::eval::machine::apply::empty_clause;
use crate::eval::machine::apply::find_empty_clause;
use crate::eval::machine::apply::has_bindings;
use crate::eval::machine::budget::ResultSet;
use crate::eval::machine::budget::ResultV;
use crate::eval::machine::budget::results;
use crate::eval::machine::dispatch::lambda_params;
use crate::eval::machine::dispatch::take_params;
use crate::eval::machine::frame::optional_expr;
use crate::eval::shared::env::bind;
use crate::eval::shared::env::linked;
use crate::eval::shared::env::prepend_chain;
use crate::eval::shared::fresh::is_form;
use crate::eval::shared::subst::atomized;
use crate::eval::shared::subst::subst_and_atomize;
use crate::eval::walker::OutV;
use crate::eval::walker::Stop;
use crate::eval::walker::StopV;
use crate::eval::walker::WalkV;
use crate::eval::walker::Walked;
use crate::eval::walker::Walker;
use crate::eval::walker::constrain::constrained;
use crate::eval::walker::counted;
use crate::eval::walker::fail;
use crate::eval::walker::fail_counted;
use crate::eval::walker::failed;
use crate::eval::walker::first_or;
use crate::eval::walker::give_none;
use crate::eval::walker::give_one;
use crate::eval::walker::gives;
use crate::eval::walker::gives_one;
use crate::eval::walker::join_atoms;
use crate::eval::walker::matching::fit;
use crate::eval::walker::walked;
use crate::eval::walker::walked_value;
use crate::eval::walker::with_line;
use crate::expr::Expr;
use crate::expr::ExprV;
use crate::expr::copy_exprs;
use crate::expr::expr_text;
use crate::expr::exprs;
use crate::expr::group_exprs;
use crate::expr::list3;
use crate::expr::list4;
use crate::text::is_var;
use crate::text::is_var_name;
use crate::text::joined3;
use crate::text::joined;
use crate::text::same;
use crate::text::usize_text;
use std::sync::Arc;
use vstd::prelude::*;
use vstd::string::*;

verus! {

/// The number of arguments of a form.
pub open spec fn arguments(items: Seq<ExprV>) -> nat {
    (items.len() - 1) as nat
}

/// The values of the branches of a conditional from a position on, behind those
/// before.
pub open spec fn branches_walked(
    rs: ResultV,
    i: nat,
    before: Seq<AtomV>,
    items: Seq<ExprV>,
    env: EnvV,
    s: WalkV,
    f: nat,
) -> OutV
    decreases f, 1nat, 0nat, rs.len() - i,
{
    if i >= rs.len() {
        gives(s, before)
    } else {
        let (r, s2) = if affirms(rs[i as int].0) {
            walked(items[2], linked(rs[i as int].1, env), s, f)
        } else if items.len() > 3 {
            walked(items[3], env, s, f)
        } else {
            gives(s, Seq::empty())
        };
        match r {
            Err(e) => (Err(e), s2),
            Ok(vs) => branches_walked(rs, i + 1, before + vs, items, env, s2, f),
        }
    }
}

/// The values of a conditional: those that rest on bindings make one list when
/// there are several.
pub open spec fn solutions(rs: ResultV, vs: Seq<AtomV>) -> Seq<AtomV> {
    if has_bindings(rs) && vs.len() > 1 {
        seq![AtomV::Expr(vs)]
    } else {
        vs
    }
}

/// The values of `(if cond then else)`.
pub open spec fn if_walked(items: Seq<ExprV>, env: EnvV, s: WalkV, f: nat) -> OutV
    decreases f, 8nat, 0nat, 0nat,
{
    let n = arguments(items);
    if n < 2 || n > 3 {
        failed(s, counted("if: expected 2 or 3 args, got "@, n, ""@))
    } else {
        let (r, s2) = constrained(items[1], env, s, f);
        match r {
            Err(e) => (Err(e), s2),
            Ok(rs) => {
                let (r2, s3) = branches_walked(rs, 0, Seq::empty(), items, env, s2, f);
                match r2 {
                    Err(e) => (Err(e), s3),
                    Ok(vs) => gives(s3, solutions(rs, vs)),
                }
            },
        }
    }
}

/// A sequence of forms.
pub open spec fn sequence_of(xs: Seq<ExprV>) -> ExprV {
    ExprV::List(seq![ExprV::Symbol("progn"@)] + xs)
}

/// A form of a sequence with the forms that follow it in its body, where it
/// binds variables: they are visible in the rest of the sequence.
pub open spec fn rewritten(items: Seq<ExprV>, i: nat) -> Option<ExprV> {
    if i + 1 >= items.len() || !(items[i as int] is List) {
        None
    } else {
        let l = items[i as int]->List_0;
        let rest = items.skip(i as int + 1);
        if is_form(l, "let"@, 4) {
            Some(ExprV::List(seq![l[0], l[1], l[2], sequence_of(seq![l[3]] + rest)]))
        } else if is_form(l, "let*"@, 3) {
            Some(ExprV::List(seq![l[0], l[1], sequence_of(seq![l[2]] + rest)]))
        } else if is_form(l, "match"@, 4) && l[3] is Symbol && is_var_name(l[3]->Symbol_0) {
            Some(
                ExprV::List(
                    seq![ExprV::Symbol("let"@), l[3], items[i as int], sequence_of(rest)],
                ),
            )
        } else {
            None
        }
    }
}

/// The values of the last of a sequence of forms from a position on, with those
/// of the one before.
pub open spec fn progn_from(
    items: Seq<ExprV>,
    i: nat,
    last: Seq<AtomV>,
    env: EnvV,
    s: WalkV,
    f: nat,
) -> OutV
    decreases f, 1nat, 0nat, items.len() - i,
{
    if i >= items.len() {
        gives(s, last)
    } else {
        match rewritten(items, i) {
            Some(x) => walked(x, env, s, f),
            None => {
                let (r, s2) = walked(items[i as int], env, s, f);
                match r {
                    Err(e) => (Err(e), s2),
                    Ok(vs) => progn_from(items, i + 1, vs, env, s2, f),
                }
            },
        }
    }
}

/// The values of `(progn e1 e2 ...)`.
pub open spec fn progn_walked(items: Seq<ExprV>, env: EnvV, s: WalkV, f: nat) -> OutV
    decreases f, 8nat, 0nat, 0nat,
{
    if arguments(items) == 0 {
        failed(s, "progn: expected at least one form"@)
    } else {
        progn_from(items, 1, Seq::empty(), env, s, f)
    }
}

/// The values of the body of a `let` form for values from a position on, behind
/// those before. A value that does not fit is skipped, and so is one for which
/// the body fails.
pub open spec fn let_values(
    vs: Seq<AtomV>,
    i: nat,
    before: Seq<AtomV>,
    items: Seq<ExprV>,
    env: EnvV,
    s: WalkV,
    f: nat,
) -> OutV
    decreases f, 8nat, 0nat, vs.len() - i,
{
    if i >= vs.len() {
        gives(s, before)
    } else {
        let (m, s2) = fit(items[1], vs[i as int], EnvV::Empty, s, f);
        match m {
            Err(StopV::Error(_)) => let_values(vs, i + 1, before, items, env, s2, f),
            Err(e) => (Err(e), s2),
            Ok(None) => let_values(vs, i + 1, before, items, env, s2, f),
            Ok(Some(e)) => {
                let (r, s3) = walked(items[3], linked(e, env), s2, f);
                match r {
                    Ok(ws) => let_values(vs, i + 1, before + ws, items, env, s3, f),
                    Err(StopV::Error(m)) => let_values(
                        vs,
                        i + 1,
                        before,
                        items,
                        env,
                        with_line(s3, "DEBUG eval_let error: "@ + m),
                        f,
                    ),
                    Err(e) => (Err(e), s3),
                }
            },
        }
    }
}

/// The values of `(let pattern value body)`.
pub open spec fn let_walked(items: Seq<ExprV>, env: EnvV, s: WalkV, f: nat) -> OutV
    decreases f, 9nat, 0nat, 0nat,
{
    let n = arguments(items);
    if n != 3 {
        failed(s, counted("let: expected (pattern value body), got "@, n, " args"@))
    } else {
        let (r, s2) = walked(items[2], env, s, f);
        match r {
            Err(e) => (Err(e), s2),
            Ok(vs) => let_values(vs, 0, Seq::empty(), items, env, s2, f),
        }
    }
}

/// The values of a body behind bindings from a position on.
pub open spec fn star_from(
    bs: Seq<ExprV>,
    i: nat,
    body: ExprV,
    env: EnvV,
    s: WalkV,
    f: nat,
) -> OutV
    decreases f, 8nat, 0nat, bs.len() - i,
{
    if i >= bs.len() {
        walked(body, env, s, f)
    } else {
        let b = bs[i as int];
        if b is List && b->List_0.len() == 2 {
            let p = b->List_0[0];
            let (r, s2) = first_or(
                walked(b->List_0[1], env, s, f),
                "let*: binding "@ + expr_text(p) + " produced no value"@,
            );
            match r {
                Err(e) => (Err(e), s2),
                Ok(v) => {
                    let (m, s3) = fit(p, v, EnvV::Empty, s2, f);
                    match m {
                        Err(e) => (Err(e), s3),
                        Ok(None) => failed(
                            s3,
                            "let*: pattern does not match value: "@ + expr_text(p) + " vs "@
                                + sexpr(v),
                        ),
                        Ok(Some(e)) => star_from(bs, i + 1, body, linked(e, env), s3, f),
                    }
                },
            }
        } else {
            failed(s, "let*: each binding must be a list (pattern val)"@)
        }
    }
}

/// The values of `(let* ((pattern value) ...) body)`.
pub open spec fn star_walked(items: Seq<ExprV>, env: EnvV, s: WalkV, f: nat) -> OutV
    decreases f, 9nat, 0nat, 0nat,
{
    let n = arguments(items);
    if n != 2 {
        failed(s, counted("let*: expected ((bindings) body), got "@, n, " args"@))
    } else {
        match items[1] {
            ExprV::List(bs) => star_from(bs, 0, items[2], env, s, f),
            _ => failed(s, "let*: first arg must be a list of (pattern val) pairs"@),
        }
    }
}

/// The value of `(quote expr)`.
pub open spec fn quote_walked(items: Seq<ExprV>, env: EnvV, s: WalkV) -> OutV {
    let n = arguments(items);
    if n != 1 {
        failed(s, counted("quote: expected 1 arg, got "@, n, ""@))
    } else {
        gives_one(s, atomized(items[1], env))
    }
}

/// The value of `(|-> params body)`.
pub open spec fn lambda_walked(items: Seq<ExprV>, env: EnvV, s: WalkV) -> OutV {
    let n = arguments(items);
    if n != 2 {
        failed(s, counted("|->: expected (params body), got "@, n, " args"@))
    } else {
        gives_one(s, AtomV::Closure(lambda_params(items[1]), items[2], Box::new(env)))
    }
}

/// The values of `(call expr)`.
pub open spec fn call_form_walked(items: Seq<ExprV>, env: EnvV, s: WalkV, f: nat) -> OutV
    decreases f, 8nat, 0nat, 0nat,
{
    let n = arguments(items);
    if n != 1 {
        failed(s, counted("call: expected 1 arg, got "@, n, ""@))
    } else {
        walked(items[1], env, s, f)
    }
}

/// The values of `(eval expr)`: the value of a variable is taken as code.
pub open spec fn eval_walked(items: Seq<ExprV>, env: EnvV, s: WalkV, f: nat) -> OutV
    decreases f, 8nat, 0nat, 0nat,
{
    let n = arguments(items);
    if n != 1 {
        failed(s, counted("eval: expected 1 arg, got "@, n, ""@))
    } else {
        match items[1] {
            ExprV::Symbol(name) => if is_var_name(name) {
                match env_get(env, name) {
                    Some(a) => walked(to_expr(a), env, s, f),
                    None => failed(s, "eval: unbound variable "@ + name),
                }
            } else {
                walked(items[1], env, s, f)
            },
            _ => walked(items[1], env, s, f),
        }
    }
}

/// The values of expressions from a position on, behind those before.
pub open spec fn spread(
    xs: Seq<ExprV>,
    i: nat,
    before: Seq<AtomV>,
    env: EnvV,
    s: WalkV,
    f: nat,
) -> OutV
    decreases f, 1nat, 0nat, xs.len() - i,
{
    if i >= xs.len() {
        gives(s, before)
    } else {
        let (r, s2) = walked(xs[i as int], env, s, f);
        match r {
            Err(e) => (Err(e), s2),
            Ok(vs) => spread(xs, i + 1, before + vs, env, s2, f),
        }
    }
}

/// The values of `(superpose expr)`.
pub open spec fn superpose_walked(items: Seq<ExprV>, env: EnvV, s: WalkV, f: nat) -> OutV
    decreases f, 8nat, 0nat, 0nat,
{
    if arguments(items) != 1 {
        failed(s, "superpose: expected exactly 1 argument (a list)"@)
    } else {
        match items[1] {
            ExprV::List(xs) => spread(xs, 0, Seq::empty(), env, s, f),
            _ => {
                let (r, s2) = first_or(
                    walked(items[1], env, s, f),
                    "superpose: argument produced no results"@,
                );
                match r {
                    Err(e) => (Err(e), s2),
                    Ok(a) => gives(s2, items_of(a)),
                }
            },
        }
    }
}

/// The value of `(collapse expr)`.
pub open spec fn collapse_walked(items: Seq<ExprV>, env: EnvV, s: WalkV, f: nat) -> OutV
    decreases f, 8nat, 0nat, 0nat,
{
    let n = arguments(items);
    if n != 1 {
        failed(s, counted("collapse: expected 1 arg, got "@, n, ""@))
    } else {
        let (r, s2) = walked(items[1], env, s, f);
        match r {
            Err(e) => (Err(e), s2),
            Ok(vs) => gives_one(s2, AtomV::Expr(vs)),
        }
    }
}

/// The values of a chain from a pair of an expression and a variable on.
pub open spec fn chain_from(items: Seq<ExprV>, i: nat, env: EnvV, s: WalkV, f: nat) -> OutV
    decreases f, 1nat, 0nat, arguments(items) / 2 - i,
{
    if i >= arguments(items) / 2 {
        walked(items.last(), env, s, f)
    } else {
        let var = items[2 * i as int + 2];
        if var is Symbol && is_var_name(var->Symbol_0) {
            let (r, s2) = first_or(
                walked(items[2 * i as int + 1], env, s, f),
                counted("chain: expression "@, 2 * i, " produced no results"@),
            );
            match r {
                Err(e) => (Err(e), s2),
                Ok(v) => chain_from(
                    items,
                    i + 1,
                    EnvV::Cons(var->Symbol_0, Box::new(v), Box::new(env)),
                    s2,
                    f,
                ),
            }
        } else {
            failed(
                s,
                counted("chain: arg "@, 2 * i + 1, " must be a $variable, got "@ + expr_text(var)),
            )
        }
    }
}

/// The values of `(chain expr $var expr ...)`.
pub open spec fn chain_walked(items: Seq<ExprV>, env: EnvV, s: WalkV, f: nat) -> OutV
    decreases f, 8nat, 0nat, 0nat,
{
    let n = arguments(items);
    if n % 2 == 0 {
        failed(
            s,
            counted("chain: expected odd number of args (expr $var expr ...), got "@, n, ""@),
        )
    } else {
        chain_from(items, 0, env, s, f)
    }
}

/// The body of the first clause from a position on that fits a value, and its
/// environment.
pub open spec fn clause_chosen(
    cs: Seq<ExprV>,
    j: nat,
    value: AtomV,
    env: EnvV,
    s: WalkV,
    f: nat,
) -> (Result<(ExprV, EnvV), StopV>, WalkV)
    decreases f, 8nat, 0nat, cs.len() - j,
{
    if j >= cs.len() {
        (Err(StopV::Error("case: no clause matched value "@ + sexpr(value))), s)
    } else {
        let c = cs[j as int];
        if !(c is List && c->List_0.len() == 2) {
            (
                Err(StopV::Error("case: each clause must be (pattern body), got "@ + expr_text(c))),
                s,
            )
        } else {
            let p = c->List_0[0];
            if p == ExprV::Symbol("Empty"@) {
                clause_chosen(cs, j + 1, value, env, s, f)
            } else if p == ExprV::Symbol("$else"@) {
                (Ok((c->List_0[1], env)), s)
            } else {
                let (m, s2) = fit(p, value, EnvV::Empty, s, f);
                match m {
                    Err(e) => (Err(e), s2),
                    Ok(None) => clause_chosen(cs, j + 1, value, env, s2, f),
                    Ok(Some(e)) => (Ok((c->List_0[1], linked(e, env))), s2),
                }
            }
        }
    }
}

/// The values of `(case expr ((pattern body) ...))`: the first value of the
/// expression decides.
pub open spec fn case_walked(items: Seq<ExprV>, env: EnvV, s: WalkV, f: nat) -> OutV
    decreases f, 10nat, 0nat, 0nat,
{
    let n = arguments(items);
    if n != 2 {
        failed(s, counted("case: expected (expr (clauses...)), got "@, n, " args"@))
    } else {
        match items[2] {
            ExprV::List(cs) => {
                let (r, s2) = walked(items[1], env, s, f);
                match r {
                    Err(e) => (Err(e), s2),
                    Ok(vs) => if vs.len() == 0 {
                        match empty_clause(cs, 0) {
                            Some(body) => walked(body, env, s2, f),
                            None => gives(s2, Seq::empty()),
                        }
                    } else {
                        let (c, s3) = clause_chosen(cs, 0, vs[0], env, s2, f);
                        match c {
                            Err(e) => (Err(e), s3),
                            Ok(p) => walked(p.0, p.1, s3, f),
                        }
                    },
                }
            },
            _ => failed(s, "case: second arg must be a list of (pattern body) pairs"@),
        }
    }
}

/// Test whether results carry bindings.
fn test_bindings(rs: &ResultSet) -> (r: bool)
    ensures
        r == has_bindings(results(rs@)),
{
    let ghost rv = results(rs@);
    let mut i: usize = 0;
    while i < rs.len()
        invariant
            i <= rs@.len(),
            rv == results(rs@),
            forall|k: int| 0 <= k < i ==> (#[trigger] rv[k]).1 is Empty,
        decreases rs@.len() - i,
    {
        assert(rv[i as int] == (rs@[i as int].0@, rs@[i as int].1@));
        if !rs[i].1.is_empty_env() {
            return true;
        }
        i += 1;
    }
    assert(rv.len() == rs@.len());
    false
}

/// The forms in front of a sequence.
spec fn front_of(first: Option<Expr>) -> Seq<ExprV> {
    match first {
        Some(x) => seq![x@],
        None => Seq::empty(),
    }
}

/// Make a sequence of forms: one in front of those behind a position.
fn make_sequence(first: Option<Expr>, items: &Vec<Expr>, from: usize) -> (r: Expr)
    requires
        from <= items@.len(),
    ensures
        r@ == sequence_of(front_of(first) + exprs(items@).skip(from as int)),
{
    broadcast use group_exprs;

    let ghost front = front_of(first);
    let mut v: Vec<Expr> = Vec::new();
    v.push(Expr::Symbol("progn".to_owned()));
    match first {
        Some(x) => {
            v.push(x);
        },
        None => {},
    }
    let ghost head = v@;
    let mut rest = copy_exprs(items, from);
    v.append(&mut rest);
    assert(v@ =~= head + items@.skip(from as int));
    assert(exprs(v@) =~= (seq![ExprV::Symbol("progn"@)] + front) + exprs(items@).skip(
        from as int,
    ));
    assert((seq![ExprV::Symbol("progn"@)] + front) + exprs(items@).skip(from as int) =~= seq![
        ExprV::Symbol("progn"@),
    ] + (front + exprs(items@).skip(from as int)));
    Expr::List(Arc::new(v))
}

/// Test whether a list is a form of a given length.
fn test_form(l: &Vec<Expr>, head: &str, n: usize) -> (r: bool)
    requires
        n > 0,
    ensures
        r == is_form(exprs(l@), head@, n as nat),
{
    broadcast use group_exprs;

    assert(exprs(l@).len() == l@.len());
    if l.len() != n {
        return false;
    }
    assert(exprs(l@)[0] == l@[0]@);
    match &l[0] {
        Expr::Symbol(s) => same(s.as_str(), head),
        _ => false,
    }
}

/// Rewrite a form of a sequence that binds variables for the forms that follow.
fn rewrite(items: &Vec<Expr>, i: usize) -> (r: Option<Expr>)
    requires
        i < items@.len(),
    ensures
        optional_expr(r) == rewritten(exprs(items@), i as nat),
{
    broadcast use group_exprs;

    let ghost xs = exprs(items@);
    assert(xs.len() == items@.len());
    assert(xs[i as int] == items@[i as int]@);
    if i >= items.len() - 1 {
        return None;
    }
    match &items[i] {
        Expr::List(l) => {
            let ghost lv = exprs(l@);
            assert(lv.len() == l@.len());
            if test_form(l, "let", 4) {
                assert(lv[0] == l@[0]@ && lv[1] == l@[1]@ && lv[2] == l@[2]@ && lv[3] == l@[3]@);
                let tail = make_sequence(Some(l[3].clone()), items, i + 1);
                Some(list4(l[0].clone(), l[1].clone(), l[2].clone(), tail))
            } else if test_form(l, "let*", 3) {
                assert(lv[0] == l@[0]@ && lv[1] == l@[1]@ && lv[2] == l@[2]@);
                let tail = make_sequence(Some(l[2].clone()), items, i + 1);
                Some(list3(l[0].clone(), l[1].clone(), tail))
            } else if test_form(l, "match", 4) {
                assert(lv[3] == l@[3]@);
                match &l[3] {
                    Expr::Symbol(v) => {
                        if is_var(v.as_str()) {
                            let tail = make_sequence(None, items, i + 1);
                            assert(Seq::<ExprV>::empty() + xs.skip(i + 1) =~= xs.skip(i + 1));
                            Some(
                                list4(
                                    Expr::Symbol("let".to_owned()),
                                    l[3].clone(),
                                    items[i].clone(),
                                    tail,
                                ),
                            )
                        } else {
                            None
                        }
                    },
                    _ => None,
                }
            } else {
                None
            }
        },
        _ => None,
    }
}

/// The value of a clause that is chosen, or of why evaluation stops.
pub open spec fn chosen_value(r: Result<(Expr, Env), Stop>) -> Result<(ExprV, EnvV), StopV> {
    match r {
        Ok(p) => Ok((p.0@, p.1@)),
        Err(e) => Err(e@),
    }
}

impl Walker {
    /// Evaluate the branches of a conditional.
    fn eval_branches(&mut self, rs: &ResultSet, items: &Vec<Expr>, env: &Env, f: u64) -> (r: Walked)
        requires
            items@.len() >= 3,
        ensures
            (walked_value(r), final(self)@) == branches_walked(
                results(rs@),
                0,
                Seq::empty(),
                exprs(items@),
                env@,
                old(self)@,
                f as nat,
            ),
        decreases f, 1nat, 0nat, rs@.len() + 1,
    {
        broadcast use group_exprs;

        let ghost rv = results(rs@);
        let ghost xs = exprs(items@);
        let ghost want = branches_walked(rv, 0, Seq::empty(), xs, env@, self@, f as nat);
        let mut out: Vec<Atom> = Vec::new();
        let mut i: usize = 0;
        let n: usize = items.len();
        assert(xs.len() == n && rv.len() == rs@.len());
        assert(atoms(out@) =~= Seq::<AtomV>::empty());
        while i < rs.len()
            invariant
                i <= rs@.len(),
                3 <= n == items@.len(),
                rv == results(rs@),
                rv.len() == rs@.len(),
                xs == exprs(items@),
                xs.len() == n,
                want == branches_walked(rv, 0, Seq::empty(), xs, env@, old(self)@, f as nat),
                want == branches_walked(
                    rv,
                    i as nat,
                    atoms(out@),
                    xs,
                    env@,
                    self@,
                    f as nat,
                ),
            decreases rs@.len() - i,
        {
            assert(rv[i as int] == (rs@[i as int].0@, rs@[i as int].1@));
            assert(xs[2] == items@[2]@);
            let r = if rs[i].0.affirms() {
                let inner = prepend_chain(rs[i].1.clone(), env);
                self.eval(&items[2], &inner, f)
            } else if n > 3 {
                assert(xs[3] == items@[3]@);
                self.eval(&items[3], env, f)
            } else {
                give_none()
            };
            match r {
                Err(e) => {
                    return Err(e);
                },
                Ok(vs) => {
                    out = join_atoms(out, vs);
                },
            }
            i += 1;
        }
        Ok(out)
    }

    /// Evaluate `(if cond then else)`.
    pub fn eval_if(&mut self, items: &Vec<Expr>, env: &Env, f: u64) -> (r: Walked)
        requires
            items@.len() > 0,
        ensures
            (walked_value(r), final(self)@) == if_walked(
                exprs(items@),
                env@,
                old(self)@,
                f as nat,
            ),
        decreases f, 8nat, 0nat, 0nat,
    {
        broadcast use group_exprs;

        let ghost xs = exprs(items@);
        assert(xs.len() == items@.len());
        let n: usize = items.len() - 1;
        if n < 2 || n > 3 {
            return fail_counted("if: expected 2 or 3 args, got ", n, "");
        }
        assert(xs[1] == items@[1]@);
        match self.eval_constrained(&items[1], env, f) {
            Err(e) => Err(e),
            Ok(rs) => match self.eval_branches(&rs, items, env, f) {
                Err(e) => Err(e),
                Ok(vs) => {
                    assert(atoms(vs@).len() == vs@.len());
                    if vs.len() > 1 && test_bindings(&rs) {
                        return give_one(Atom::expr(vs));
                    }
                    Ok(vs)
                },
            },
        }
    }

    /// Evaluate `(progn e1 e2 ...)`: forms in order, of which the last gives the
    /// values.
    pub fn eval_progn(&mut self, items: &Vec<Expr>, env: &Env, f: u64) -> (r: Walked)
        requires
            items@.len() > 0,
        ensures
            (walked_value(r), final(self)@) == progn_walked(
                exprs(items@),
                env@,
                old(self)@,
                f as nat,
            ),
        decreases f, 8nat, 0nat, 0nat,
    {
        broadcast use group_exprs;

        let ghost xs = exprs(items@);
        assert(xs.len() == items@.len());
        if items.len() == 1 {
            return fail("progn: expected at least one form");
        }
        let ghost want = progn_from(xs, 1, Seq::empty(), env@, self@, f as nat);
        let mut last: Vec<Atom> = Vec::new();
        let mut i: usize = 1;
        assert(atoms(last@) =~= Seq::<AtomV>::empty());
        while i < items.len()
            invariant
                1 <= i <= items@.len(),
                xs == exprs(items@),
                xs.len() == items@.len(),
                items@.len() > 1,
                want == progn_walked(xs, env@, old(self)@, f as nat),
                want == progn_from(xs, i as nat, atoms(last@), env@, self@, f as nat),
            decreases items@.len() - i,
        {
            assert(xs[i as int] == items@[i as int]@);
            match rewrite(items, i) {
                Some(x) => {
                    return self.eval(&x, env, f);
                },
                None => {},
            }
            match self.eval(&items[i], env, f) {
                Err(e) => {
                    return Err(e);
                },
                Ok(vs) => {
                    last = vs;
                },
            }
            i += 1;
        }
        Ok(last)
    }

    /// Evaluate the body of a `let` form for each value that fits.
    fn eval_let_values(&mut self, vs: &Vec<Atom>, items: &Vec<Expr>, env: &Env, f: u64) -> (r:
        Walked)
        requires
            items@.len() == 4,
        ensures
            (walked_value(r), final(self)@) == let_values(
                atoms(vs@),
                0,
                Seq::empty(),
                exprs(items@),
                env@,
                old(self)@,
                f as nat,
            ),
        decreases f, 8nat, 0nat, vs@.len() + 1,
    {
        broadcast use {group_exprs, group_atoms};

        let ghost vv = atoms(vs@);
        let ghost xs = exprs(items@);
        let ghost want = let_values(vv, 0, Seq::empty(), xs, env@, self@, f as nat);
        let mut out: Vec<Atom> = Vec::new();
        let mut i: usize = 0;
        assert(vv.len() == vs@.len() && xs.len() == 4);
        assert(atoms(out@) =~= Seq::<AtomV>::empty());
        while i < vs.len()
            invariant
                i <= vs@.len(),
                items@.len() == 4,
                vv == atoms(vs@),
                vv.len() == vs@.len(),
                xs == exprs(items@),
                xs.len() == 4,
                want == let_values(vv, 0, Seq::empty(), xs, env@, old(self)@, f as nat),
                want == let_values(vv, i as nat, atoms(out@), xs, env@, self@, f as nat),
            decreases vs@.len() - i,
        {
            assert(vv[i as int] == vs@[i as int]@);
            assert(xs[1] == items@[1]@ && xs[3] == items@[3]@);
            match self.try_match_one(&items[1], &vs[i], &Env::new(), f) {
                Err(Stop::Error(_)) => {},
                Err(e) => {
                    return Err(e);
                },
                Ok(None) => {},
                Ok(Some(e)) => {
                    let inner = prepend_chain(e, env);
                    match self.eval(&items[3], &inner, f) {
                        Ok(ws) => {
                            out = join_atoms(out, ws);
                        },
                        Err(Stop::Error(m)) => {
                            self.say(joined("DEBUG eval_let error: ", m.as_str()));
                        },
                        Err(e) => {
                            return Err(e);
                        },
                    }
                },
            }
            i += 1;
        }
        Ok(out)
    }

    /// Evaluate `(let pattern value body)`.
    pub fn eval_let(&mut self, items: &Vec<Expr>, env: &Env, f: u64) -> (r: Walked)
        requires
            items@.len() > 0,
        ensures
            (walked_value(r), final(self)@) == let_walked(
                exprs(items@),
                env@,
                old(self)@,
                f as nat,
            ),
        decreases f, 9nat, 0nat, 0nat,
    {
        broadcast use group_exprs;

        let ghost xs = exprs(items@);
        assert(xs.len() == items@.len());
        let n: usize = items.len() - 1;
        if n != 3 {
            return fail_counted("let: expected (pattern value body), got ", n, " args");
        }
        assert(xs[2] == items@[2]@);
        match self.eval(&items[2], env, f) {
            Err(e) => Err(e),
            Ok(vs) => self.eval_let_values(&vs, items, env, f),
        }
    }

    /// Evaluate a body behind bindings that are made in order.
    fn eval_star(&mut self, bs: &Vec<Expr>, body: &Expr, env: &Env, f: u64) -> (r: Walked)
        ensures
            (walked_value(r), final(self)@) == star_from(
                exprs(bs@),
                0,
                body@,
                env@,
                old(self)@,
                f as nat,
            ),
        decreases f, 8nat, 0nat, bs@.len() + 1,
    {
        broadcast use group_exprs;

        let ghost bv = exprs(bs@);
        let ghost want = star_from(bv, 0, body@, env@, self@, f as nat);
        let mut now = env.clone();
        let mut i: usize = 0;
        assert(bv.len() == bs@.len());
        while i < bs.len()
            invariant
                i <= bs@.len(),
                bv == exprs(bs@),
                bv.len() == bs@.len(),
                want == star_from(bv, 0, body@, env@, old(self)@, f as nat),
                want == star_from(bv, i as nat, body@, now@, self@, f as nat),
            decreases bs@.len() - i,
        {
            assert(bv[i as int] == bs@[i as int]@);
            match &bs[i] {
                Expr::List(pair) => {
                    let ghost pv = exprs(pair@);
                    assert(pv.len() == pair@.len());
                    if pair.len() != 2 {
                        return fail("let*: each binding must be a list (pattern val)");
                    }
                    assert(pv[0] == pair@[0]@ && pv[1] == pair@[1]@);
                    let t = pair[0].to_text();
                    let m = joined3("let*: binding ", t.as_str(), " produced no value");
                    let v = match self.eval_first(&pair[1], &now, f, m.as_str()) {
                        Err(e) => {
                            return Err(e);
                        },
                        Ok(v) => v,
                    };
                    match self.try_match_one(&pair[0], &v, &Env::new(), f) {
                        Err(e) => {
                            return Err(e);
                        },
                        Ok(None) => {
                            let front = joined3(
                                "let*: pattern does not match value: ",
                                t.as_str(),
                                " vs ",
                            );
                            let vt = v.to_sexpr_string();
                            return Err(Stop::Error(joined(front.as_str(), vt.as_str())));
                        },
                        Ok(Some(e)) => {
                            now = prepend_chain(e, &now);
                        },
                    }
                },
                _ => {
                    return fail("let*: each binding must be a list (pattern val)");
                },
            }
            i += 1;
        }
        self.eval(body, &now, f)
    }

    /// Evaluate `(let* ((pattern value) ...) body)`.
    pub fn eval_let_star(&mut self, items: &Vec<Expr>, env: &Env, f: u64) -> (r: Walked)
        requires
            items@.len() > 0,
        ensures
            (walked_value(r), final(self)@) == star_walked(
                exprs(items@),
                env@,
                old(self)@,
                f as nat,
            ),
        decreases f, 9nat, 0nat, 0nat,
    {
        broadcast use group_exprs;

        let ghost xs = exprs(items@);
        assert(xs.len() == items@.len());
        let n: usize = items.len() - 1;
        if n != 2 {
            return fail_counted("let*: expected ((bindings) body), got ", n, " args");
        }
        assert(xs[1] == items@[1]@ && xs[2] == items@[2]@);
        match &items[1] {
            Expr::List(bs) => self.eval_star(bs, &items[2], env, f),
            _ => fail("let*: first arg must be a list of (pattern val) pairs"),
        }
    }

    /// Evaluate `(quote expr)`: the expression as data, with the values of bound
    /// variables.
    pub fn eval_quote(&mut self, items: &Vec<Expr>, env: &Env) -> (r: Walked)
        requires
            items@.len() > 0,
        ensures
            (walked_value(r), final(self)@) == quote_walked(exprs(items@), env@, old(self)@),
    {
        broadcast use group_exprs;

        let ghost xs = exprs(items@);
        assert(xs.len() == items@.len());
        let n: usize = items.len() - 1;
        if n != 1 {
            return fail_counted("quote: expected 1 arg, got ", n, "");
        }
        assert(xs[1] == items@[1]@);
        give_one(subst_and_atomize(&items[1], env))
    }

    /// Evaluate `(|-> params body)`: a closure over the environment.
    pub fn eval_lambda(&mut self, items: &Vec<Expr>, env: &Env) -> (r: Walked)
        requires
            items@.len() > 0,
        ensures
            (walked_value(r), final(self)@) == lambda_walked(exprs(items@), env@, old(self)@),
    {
        broadcast use group_exprs;

        let ghost xs = exprs(items@);
        assert(xs.len() == items@.len());
        let n: usize = items.len() - 1;
        if n != 2 {
            return fail_counted("|->: expected (params body), got ", n, " args");
        }
        assert(xs[1] == items@[1]@ && xs[2] == items@[2]@);
        let a = Atom::Closure(
            Arc::new(
                ClosureData {
                    params: take_params(&items[1]),
                    body: items[2].clone(),
                    env: env.clone(),
                },
            ),
        );
        assert(a@ == AtomV::Closure(lambda_params(xs[1]), xs[2], Box::new(env@)));
        give_one(a)
    }

    /// Evaluate `(call expr)`.
    pub fn eval_call(&mut self, items: &Vec<Expr>, env: &Env, f: u64) -> (r: Walked)
        requires
            items@.len() > 0,
        ensures
            (walked_value(r), final(self)@) == call_form_walked(
                exprs(items@),
                env@,
                old(self)@,
                f as nat,
            ),
        decreases f, 8nat, 0nat, 0nat,
    {
        broadcast use group_exprs;

        let ghost xs = exprs(items@);
        assert(xs.len() == items@.len());
        let n: usize = items.len() - 1;
        if n != 1 {
            return fail_counted("call: expected 1 arg, got ", n, "");
        }
        assert(xs[1] == items@[1]@);
        self.eval(&items[1], env, f)
    }

    /// Evaluate `(eval expr)`.
    pub fn eval_eval(&mut self, items: &Vec<Expr>, env: &Env, f: u64) -> (r: Walked)
        requires
            items@.len() > 0,
        ensures
            (walked_value(r), final(self)@) == eval_walked(
                exprs(items@),
                env@,
                old(self)@,
                f as nat,
            ),
        decreases f, 8nat, 0nat, 0nat,
    {
        broadcast use group_exprs;

        let ghost xs = exprs(items@);
        assert(xs.len() == items@.len());
        let n: usize = items.len() - 1;
        if n != 1 {
            return fail_counted("eval: expected 1 arg, got ", n, "");
        }
        assert(xs[1] == items@[1]@);
        match &items[1] {
            Expr::Symbol(name) => {
                if is_var(name.as_str()) {
                    return match env.get(name.as_str()) {
                        Some(a) => match atom_to_expr(&a) {
                            Ok(x) => self.eval(&x, env, f),
                            Err(m) => Err(Stop::Error(m)),
                        },
                        None => Err(
                            Stop::Error(joined("eval: unbound variable ", name.as_str())),
                        ),
                    };
                }
            },
            _ => {},
        }
        self.eval(&items[1], env, f)
    }

    /// Evaluate expressions to all of their values.
    fn eval_spread(&mut self, xs: &Vec<Expr>, env: &Env, f: u64) -> (r: Walked)
        ensures
            (walked_value(r), final(self)@) == spread(
                exprs(xs@),
                0,
                Seq::empty(),
                env@,
                old(self)@,
                f as nat,
            ),
        decreases f, 1nat, 0nat, xs@.len() + 1,
    {
        broadcast use group_exprs;

        let ghost xv = exprs(xs@);
        let ghost want = spread(xv, 0, Seq::empty(), env@, self@, f as nat);
        let mut out: Vec<Atom> = Vec::new();
        let mut i: usize = 0;
        assert(xv.len() == xs@.len());
        assert(atoms(out@) =~= Seq::<AtomV>::empty());
        while i < xs.len()
            invariant
                i <= xs@.len(),
                xv == exprs(xs@),
                xv.len() == xs@.len(),
                want == spread(xv, 0, Seq::empty(), env@, old(self)@, f as nat),
                want == spread(xv, i as nat, atoms(out@), env@, self@, f as nat),
            decreases xs@.len() - i,
        {
            assert(xv[i as int] == xs@[i as int]@);
            match self.eval(&xs[i], env, f) {
                Err(e) => {
                    return Err(e);
                },
                Ok(vs) => {
                    out = join_atoms(out, vs);
                },
            }
            i += 1;
        }
        Ok(out)
    }

    /// Evaluate `(superpose expr)`: the elements of a list as values.
    pub fn eval_superpose(&mut self, items: &Vec<Expr>, env: &Env, f: u64) -> (r: Walked)
        requires
            items@.len() > 0,
        ensures
            (walked_value(r), final(self)@) == superpose_walked(
                exprs(items@),
                env@,
                old(self)@,
                f as nat,
            ),
        decreases f, 8nat, 0nat, 0nat,
    {
        broadcast use group_exprs;

        let ghost xs = exprs(items@);
        assert(xs.len() == items@.len());
        if items.len() != 2 {
            return fail("superpose: expected exactly 1 argument (a list)");
        }
        assert(xs[1] == items@[1]@);
        match &items[1] {
            Expr::List(l) => {
                return self.eval_spread(l, env, f);
            },
            _ => {},
        }
        match self.eval_first(&items[1], env, f, "superpose: argument produced no results") {
            Err(e) => Err(e),
            Ok(a) => Ok(list_items(&a)),
        }
    }

    /// Evaluate `(collapse expr)`: all values in one list.
    pub fn eval_collapse(&mut self, items: &Vec<Expr>, env: &Env, f: u64) -> (r: Walked)
        requires
            items@.len() > 0,
        ensures
            (walked_value(r), final(self)@) == collapse_walked(
                exprs(items@),
                env@,
                old(self)@,
                f as nat,
            ),
        decreases f, 8nat, 0nat, 0nat,
    {
        broadcast use group_exprs;

        let ghost xs = exprs(items@);
        assert(xs.len() == items@.len());
        let n: usize = items.len() - 1;
        if n != 1 {
            return fail_counted("collapse: expected 1 arg, got ", n, "");
        }
        assert(xs[1] == items@[1]@);
        match self.eval(&items[1], env, f) {
            Err(e) => Err(e),
            Ok(vs) => give_one(Atom::expr(vs)),
        }
    }

    /// Evaluate `(chain expr $var expr ...)`: each value is bound for what
    /// follows.
    pub fn eval_chain(&mut self, items: &Vec<Expr>, env: &Env, f: u64) -> (r: Walked)
        requires
            items@.len() > 0,
        ensures
            (walked_value(r), final(self)@) == chain_walked(
                exprs(items@),
                env@,
                old(self)@,
                f as nat,
            ),
        decreases f, 8nat, 0nat, 0nat,
    {
        broadcast use group_exprs;

        let ghost xs = exprs(items@);
        assert(xs.len() == items@.len());
        let n: usize = items.len() - 1;
        if n % 2 == 0 {
            return fail_counted(
                "chain: expected odd number of args (expr $var expr ...), got ",
                n,
                "",
            );
        }
        let ghost want = chain_from(xs, 0, env@, self@, f as nat);
        let mut now = env.clone();
        let mut i: usize = 0;
        while i < n / 2
            invariant
                i <= n / 2,
                n % 2 == 1,
                n == items@.len() - 1,
                xs == exprs(items@),
                xs.len() == items@.len(),
                want == chain_walked(xs, env@, old(self)@, f as nat),
                want == chain_from(xs, i as nat, now@, self@, f as nat),
            decreases n / 2 - i,
        {
            let k: usize = 2 * i;
            assert(xs[k + 1] == items@[k + 1]@ && xs[k + 2] == items@[k + 2]@);
            match &items[k + 2] {
                Expr::Symbol(var) => {
                    if is_var(var.as_str()) {
                        let d = usize_text(k);
                        let m = joined3("chain: expression ", d.as_str(), " produced no results");
                        match self.eval_first(&items[k + 1], &now, f, m.as_str()) {
                            Err(e) => {
                                return Err(e);
                            },
                            Ok(v) => {
                                now = bind(&now, var.as_str(), v);
                            },
                        }
                    } else {
                        let t = items[k + 2].to_text();
                        let end = joined(" must be a $variable, got ", t.as_str());
                        return fail_counted("chain: arg ", k + 1, end.as_str());
                    }
                },
                _ => {
                    let t = items[k + 2].to_text();
                    let end = joined(" must be a $variable, got ", t.as_str());
                    return fail_counted("chain: arg ", k + 1, end.as_str());
                },
            }
            i += 1;
        }
        assert(xs.last() == items@[n as int]@);
        self.eval(&items[n], &now, f)
    }

    /// Choose the clause for a value.
    fn choose_clause(&mut self, cs: &Vec<Expr>, value: &Atom, env: &Env, f: u64) -> (r: Result<
        (Expr, Env),
        Stop,
    >)
        ensures
            (chosen_value(r), final(self)@) == clause_chosen(
                exprs(cs@),
                0,
                value@,
                env@,
                old(self)@,
                f as nat,
            ),
        decreases f, 8nat, 0nat, cs@.len() + 1,
    {
        broadcast use group_exprs;

        let ghost cv = exprs(cs@);
        let ghost want = clause_chosen(cv, 0, value@, env@, self@, f as nat);
        let mut j: usize = 0;
        assert(cv.len() == cs@.len());
        while j < cs.len()
            invariant
                j <= cs@.len(),
                cv == exprs(cs@),
                cv.len() == cs@.len(),
                want == clause_chosen(cv, 0, value@, env@, old(self)@, f as nat),
                want == clause_chosen(cv, j as nat, value@, env@, self@, f as nat),
            decreases cs@.len() - j,
        {
            assert(cv[j as int] == cs@[j as int]@);
            match &cs[j] {
                Expr::List(pair) => {
                    let ghost pv = exprs(pair@);
                    assert(pv.len() == pair@.len());
                    if pair.len() != 2 {
                        let t = cs[j].to_text();
                        return Err(
                            Stop::Error(
                                joined("case: each clause must be (pattern body), got ", t.as_str()),
                            ),
                        );
                    }
                    assert(pv[0] == pair@[0]@ && pv[1] == pair@[1]@);
                    let mut skip: bool = false;
                    match &pair[0] {
                        Expr::Symbol(name) => {
                            if same(name.as_str(), "Empty") {
                                skip = true;
                            } else if same(name.as_str(), "$else") {
                                return Ok((pair[1].clone(), env.clone()));
                            }
                        },
                        _ => {},
                    }
                    if !skip {
                        match self.try_match_one(&pair[0], value, &Env::new(), f) {
                            Err(e) => {
                                return Err(e);
                            },
                            Ok(None) => {},
                            Ok(Some(e)) => {
                                return Ok((pair[1].clone(), prepend_chain(e, env)));
                            },
                        }
                    }
                },
                _ => {
                    let t = cs[j].to_text();
                    return Err(
                        Stop::Error(
                            joined("case: each clause must be (pattern body), got ", t.as_str()),
                        ),
                    );
                },
            }
            j += 1;
        }
        let t = value.to_sexpr_string();
        Err(Stop::Error(joined("case: no clause matched value ", t.as_str())))
    }

    /// Evaluate `(case expr ((pattern body) ...))`.
    pub fn eval_case(&mut self, items: &Vec<Expr>, env: &Env, f: u64) -> (r: Walked)
        requires
            items@.len() > 0,
        ensures
            (walked_value(r), final(self)@) == case_walked(
                exprs(items@),
                env@,
                old(self)@,
                f as nat,
            ),
        decreases f, 10nat, 0nat, 0nat,
    {
        broadcast use group_exprs;

        let ghost xs = exprs(items@);
        assert(xs.len() == items@.len());
        let n: usize = items.len() - 1;
        if n != 2 {
            return fail_counted("case: expected (expr (clauses...)), got ", n, " args");
        }
        assert(xs[1] == items@[1]@ && xs[2] == items@[2]@);
        match &items[2] {
            Expr::List(cs) => match self.eval(&items[1], env, f) {
                Err(e) => Err(e),
                Ok(vs) => {
                    broadcast use group_atoms;

                    assert(atoms(vs@).len() == vs@.len());
                    if vs.len() > 0 {
                        return match self.choose_clause(cs, &vs[0], env, f) {
                            Err(e) => Err(e),
                            Ok((body, inner)) => self.eval(&body, &inner, f),
                        };
                    }
                    match find_empty_clause(cs) {
                        Some(body) => self.eval(&body, env, f),
                        None => give_none(),
                    }
                },
            },
            _ => fail("case: second arg must be a list of (pattern body) pairs"),
        }
    }
}

} // verus!
