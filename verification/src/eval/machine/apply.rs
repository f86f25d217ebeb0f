//! Continuation application logic.
//!
//! This module resumes suspended frames with child results and determines the
//! next machine actions required to continue evaluation.
use crate::atom::Atom;
use crate::atom::AtomV;
use crate::atom::atoms;
use crate::atom::copy_atoms;
use crate::atom::group_atoms;
use crate::atom::sexpr;
use crate::atom::symbol;
use crate::atom::affirms;
use crate::builtins::collections::items_of;
use crate::builtins::collections::list_items;
use crate::builtins::types::atom_lists;
use crate::compile::reify::atom_to_expr;
use crate::compile::reify::to_expr;
use crate::env::Env;
use crate::env::EnvNode;
use crate::env::EnvV;
use crate::env::bindings;
use crate::env::env_get;
use crate::env::stacked;
use crate::eval::forms::control::let_star_binding;
use crate::eval::forms::control::star_binding;
use crate::eval::machine::budget::ResultSet;
use crate::eval::machine::budget::ResultV;
use crate::eval::machine::budget::atoms_of;
use crate::eval::machine::budget::copy_results;
use crate::eval::machine::budget::group_results;
use crate::eval::machine::budget::plain;
use crate::eval::machine::budget::plain_results;
use crate::eval::machine::budget::raw_atoms;
use crate::eval::machine::budget::raw_atoms_of;
use crate::eval::machine::budget::result_atoms;
use crate::eval::machine::budget::result_sets;
use crate::eval::machine::budget::results;
use crate::eval::machine::frame::ContV;
use crate::eval::machine::frame::Frame;
use crate::eval::machine::frame::optional_expr;
use crate::eval::machine::product::cartesian_product;
use crate::eval::machine::product::products;
use crate::eval::machine::resumed::Resumed;
use crate::eval::machine::resumed::ResumedV;
use crate::eval::machine::resumed::branch_tasks;
use crate::eval::machine::resumed::frame_then;
use crate::eval::machine::resumed::lemma_targets_push;
use crate::eval::machine::resumed::nothing;
use crate::eval::machine::resumed::one;
use crate::eval::machine::resumed::resume_branches;
use crate::eval::machine::resumed::resume_fail;
use crate::eval::machine::resumed::resume_frame;
use crate::eval::machine::resumed::resume_nothing;
use crate::eval::machine::resumed::resume_one;
use crate::eval::machine::task::Task;
use crate::eval::machine::task::TaskV;
use crate::eval::machine::task::lemma_tasks_push;
use crate::eval::machine::task::tasks;
use crate::eval::machine::transition::Transition;
use crate::eval::machine::transition::TransitionV;
use crate::eval::machine::vm::bodies::call_of_two;
use crate::eval::machine::vm::bodies::make_call_of_two;
use crate::eval::machine::vm::iterate::join_results;
use crate::eval::machine::vm::plain::all_joined;
use crate::eval::machine::vm::state::target_values;
use crate::eval::shared::env::bind;
use crate::eval::shared::env::bind_all;
use crate::eval::shared::env::linked;
use crate::eval::shared::env::prepend_chain;
use crate::eval::shared::pattern::KnownV;
use crate::eval::shared::pattern::MatchV;
use crate::eval::shared::pattern::Matching;
use crate::eval::shared::pattern::PatternValue;
use crate::eval::shared::pattern::known_values;
use crate::eval::shared::pattern::match_one;
use crate::eval::shared::pattern::optional_atom;
use crate::eval::shared::pattern::try_match_one;
use crate::eval::shared::subst::atomized;
use crate::eval::shared::subst::expr_followed;
use crate::eval::shared::subst::subst_and_atomize;
use crate::eval::shared::subst::follow_expr_vars;
use crate::expr::Expr;
use crate::expr::ExprV;
use crate::expr::expr_text;
use crate::expr::exprs;
use crate::expr::group_exprs;
use crate::func::FnTable;
use crate::func::TableV;
use crate::space::FoundV;
use crate::space::collect_match_results;
use crate::space::found_values;
use crate::space::matches_in;
use crate::text::is_var;
use crate::text::is_var_name;
use crate::text::joined;
use crate::text::joined3;
use crate::text::lemma_texts_push;
use crate::text::nat_digits;
use crate::text::same;
use crate::text::texts;
use crate::text::usize_text;
use std::sync::Arc;
use vstd::prelude::*;
use vstd::string::*;

verus! {

/// The first atom of results as it stands.
pub open spec fn first_raw(r: ResultV) -> Option<AtomV> {
    if r.len() > 0 {
        Some(r[0].0)
    } else {
        None
    }
}

/// Take the first atom of results as it stands.
pub fn take_first_raw(rs: &ResultSet) -> (r: Option<Atom>)
    ensures
        optional_atom(r) == first_raw(results(rs@)),
{
    assert(results(rs@).len() == rs@.len());
    if rs.len() > 0 {
        Some(rs[0].0.clone())
    } else {
        None
    }
}

/// Whether new bindings would shadow a variable of an outer environment.
pub open spec fn shadows(new: EnvV, outer: EnvV) -> bool {
    exists|i: int|
        0 <= i < bindings(new).len() && env_get(outer, (#[trigger] bindings(new)[i]).0) is Some
}

/// Bindings in two parts.
proof fn lemma_shadows_link(prefix: EnvV, base: EnvV, outer: EnvV)
    ensures
        shadows(EnvV::Link(Box::new(prefix), Box::new(base)), outer) == (shadows(prefix, outer)
            || shadows(base, outer)),
{
    let all = bindings(EnvV::Link(Box::new(prefix), Box::new(base)));
    let a = bindings(prefix);
    let b = bindings(base);
    assert(all == a + b);
    if shadows(EnvV::Link(Box::new(prefix), Box::new(base)), outer) {
        let i = choose|i: int| 0 <= i < all.len() && env_get(outer, (#[trigger] all[i]).0) is Some;
        if i < a.len() {
            assert(a[i] == all[i]);
        } else {
            assert(b[i - a.len()] == all[i]);
        }
    }
    if shadows(prefix, outer) {
        let i = choose|i: int| 0 <= i < a.len() && env_get(outer, (#[trigger] a[i]).0) is Some;
        assert(all[i] == a[i]);
    }
    if shadows(base, outer) {
        let i = choose|i: int| 0 <= i < b.len() && env_get(outer, (#[trigger] b[i]).0) is Some;
        assert(all[a.len() + i] == b[i]);
    }
}

/// A first binding and the rest.
proof fn lemma_shadows_cons(name: Seq<char>, value: AtomV, next: EnvV, outer: EnvV)
    ensures
        shadows(EnvV::Cons(name, Box::new(value), Box::new(next)), outer) == (env_get(
            outer,
            name,
        ) is Some || shadows(next, outer)),
{
    let e = EnvV::Cons(name, Box::new(value), Box::new(next));
    let all = bindings(e);
    let b = bindings(next);
    assert(all =~= seq![(name, value)] + b);
    if shadows(e, outer) {
        let i = choose|i: int| 0 <= i < all.len() && env_get(outer, (#[trigger] all[i]).0) is Some;
        if i > 0 {
            assert(b[i - 1] == all[i]);
        }
    }
    if env_get(outer, name) is Some {
        assert(all[0].0 == name);
    }
    if shadows(next, outer) {
        let i = choose|i: int| 0 <= i < b.len() && env_get(outer, (#[trigger] b[i]).0) is Some;
        assert(all[1 + i] == b[i]);
    }
}

/// Test whether new bindings would shadow a variable of an outer environment.
///
/// Variables are assigned once: such bindings are rejected.
pub fn has_shadowing(new_env: &Env, outer_env: &Env) -> (r: bool)
    ensures
        r == shadows(new_env@, outer_env@),
    decreases new_env,
{
    match &*new_env.0 {
        EnvNode::Empty => {
            assert(bindings(new_env@).len() == 0);
            false
        },
        EnvNode::Cons { name, value, next } => {
            proof {
                lemma_shadows_cons(name@, value@, next@, outer_env@);
            }
            match outer_env.get(name.as_str()) {
                Some(_) => true,
                None => has_shadowing(next, outer_env),
            }
        },
        EnvNode::Link { prefix, base } => {
            proof {
                lemma_shadows_link(prefix@, base@, outer_env@);
            }
            has_shadowing(prefix, outer_env) || has_shadowing(base, outer_env)
        },
    }
}

/// Putting result sets together.
pub open spec fn gathered(sets: Seq<ResultV>) -> ResumedV {
    if all_joined(sets).len() > 1_000_000 {
        ResumedV::Fail(
            "result set exceeded 1 000 000 entries \u{2014} possible infinite recursion (hint: replace `(range 0 inf)` loops with direct tail recursion)"@,
        )
    } else {
        ResumedV::Value(all_joined(sets))
    }
}

/// Put result sets together.
pub fn gather(sets: &Vec<ResultSet>) -> (r: Resumed)
    ensures
        r@ == gathered(result_sets(sets@)),
{
    let ghost all = result_sets(sets@);
    let mut out: ResultSet = Vec::new();
    let mut i: usize = 0;
    assert(all.take(0) =~= Seq::<ResultV>::empty());
    assert(results(out@) =~= ResultV::empty());
    while i < sets.len()
        invariant
            i <= sets@.len(),
            all == result_sets(sets@),
            results(out@) == all_joined(all.take(i as int)),
        decreases sets@.len() - i,
    {
        assert(all.take(i + 1).drop_last() =~= all.take(i as int));
        out = join_results(out, copy_results(&sets[i]));
        i += 1;
    }
    assert(all.take(sets@.len() as int) =~= all);
    assert(results(out@).len() == out@.len());
    if out.len() > 1_000_000 {
        return resume_fail(
            "result set exceeded 1 000 000 entries \u{2014} possible infinite recursion (hint: replace `(range 0 inf)` loops with direct tail recursion)",
        );
    }
    Resumed::Value(out)
}

/// The values of several results.
pub open spec fn all_values(sets: Seq<ResultV>) -> Seq<AtomV>
    decreases sets.len(),
{
    if sets.len() == 0 {
        Seq::empty()
    } else {
        all_values(sets.drop_last()) + result_atoms(sets.last())
    }
}

/// Take the values of several results.
fn take_values(sets: &Vec<ResultSet>) -> (r: Vec<Atom>)
    ensures
        atoms(r@) == all_values(result_sets(sets@)),
{
    let ghost all = result_sets(sets@);
    let mut out: Vec<Atom> = Vec::new();
    let mut i: usize = 0;
    assert(all.take(0) =~= Seq::<ResultV>::empty());
    assert(atoms(out@) =~= Seq::<AtomV>::empty());
    while i < sets.len()
        invariant
            i <= sets@.len(),
            all == result_sets(sets@),
            atoms(out@) == all_values(all.take(i as int)),
        decreases sets@.len() - i,
    {
        assert(all.take(i + 1).drop_last() =~= all.take(i as int));
        let mut more = atoms_of(&sets[i]);
        let ghost x = out@;
        let ghost y = more@;
        out.append(&mut more);
        assert(atoms(out@) =~= atoms(x) + atoms(y));
        i += 1;
    }
    assert(all.take(sets@.len() as int) =~= all);
    out
}

/// Collecting the results of the branches of a conditional: with bindings in
/// the condition, several values become one list.
pub open spec fn if_gathered(had: bool, sets: Seq<ResultV>) -> ResumedV {
    let out = all_values(sets);
    if had && out.len() > 1 {
        one(AtomV::Expr(out))
    } else {
        ResumedV::Value(plain_results(out))
    }
}

/// Collect the results of the branches of a conditional.
pub fn gather_if(had: bool, sets: &Vec<ResultSet>) -> (r: Resumed)
    ensures
        r@ == if_gathered(had, result_sets(sets@)),
{
    let out = take_values(sets);
    assert(atoms(out@).len() == out@.len());
    if had && out.len() > 1 {
        resume_one(Atom::expr(out))
    } else {
        Resumed::Value(plain(out))
    }
}

/// The branches for the values of a condition.
pub open spec fn if_branches(
    r: ResultV,
    yes: ExprV,
    no: Option<ExprV>,
    env: EnvV,
) -> Seq<(ExprV, EnvV)>
    decreases r.len(),
{
    if r.len() == 0 {
        Seq::empty()
    } else {
        let before = if_branches(r.drop_last(), yes, no, env);
        if affirms(r.last().0) {
            before.push((yes, linked(r.last().1, env)))
        } else {
            match no {
                Some(x) => before.push((x, env)),
                None => before,
            }
        }
    }
}

/// Whether a result carries bindings.
pub open spec fn has_bindings(r: ResultV) -> bool {
    exists|i: int| 0 <= i < r.len() && !((#[trigger] r[i]).1 is Empty)
}

/// Selecting the branches of a conditional.
pub open spec fn if_selected(r: ResultV, yes: ExprV, no: Option<ExprV>, env: EnvV) -> ResumedV {
    let bs = if_branches(r, yes, no, env);
    branch_tasks(ContV::IfGather(has_bindings(r), bs.len()), bs)
}

/// Select the branches of a conditional.
pub fn select_if(rs: &ResultSet, yes: &Expr, no: &Option<Expr>, env: &Env) -> (r: Resumed)
    ensures
        r@ == if_selected(results(rs@), yes@, optional_expr(*no), env@),
{
    let ghost rv = results(rs@);
    let mut bs: Vec<(Expr, Env)> = Vec::new();
    let mut had: bool = false;
    let mut i: usize = 0;
    assert(rv.take(0) =~= ResultV::empty());
    assert(target_values(bs@) =~= Seq::<(ExprV, EnvV)>::empty());
    while i < rs.len()
        invariant
            i <= rs@.len(),
            rv == results(rs@),
            target_values(bs@) == if_branches(
                rv.take(i as int),
                yes@,
                optional_expr(*no),
                env@,
            ),
            had == exists|k: int| 0 <= k < i && !((#[trigger] rv[k]).1 is Empty),
        decreases rs@.len() - i,
    {
        assert(rv.take(i + 1).drop_last() =~= rv.take(i as int));
        assert(rv[i as int] == (rs@[i as int].0@, rs@[i as int].1@));
        if !rs[i].1.is_empty_env() {
            had = true;
        }
        let ghost before = bs@;
        if rs[i].0.affirms() {
            let x = (yes.clone(), prepend_chain(rs[i].1.clone(), env));
            bs.push(x);
            proof {
                lemma_targets_push(before, x);
            }
        } else {
            match no {
                Some(n) => {
                    let x = (n.clone(), env.clone());
                    bs.push(x);
                    proof {
                        lemma_targets_push(before, x);
                    }
                },
                None => {},
            }
        }
        i += 1;
    }
    assert(rv.take(rs@.len() as int) =~= rv);
    let n: usize = bs.len();
    assert(target_values(bs@).len() == n);
    assert(had == has_bindings(rv));
    resume_branches(Frame::IfGather(had, n), &bs)
}

/// Results with an environment in front of their own.
pub open spec fn under_env(r: ResultV, env: EnvV) -> ResultV {
    Seq::new(r.len(), |i: int| (r[i].0, linked(env, r[i].1)))
}

/// Put an environment in front of those of results.
pub fn put_in_front(rs: &ResultSet, env: &Env) -> (r: ResultSet)
    ensures
        results(r@) == under_env(results(rs@), env@),
{
    broadcast use group_results;

    let ghost want = under_env(results(rs@), env@);
    let mut out: ResultSet = Vec::new();
    let mut i: usize = 0;
    assert(results(out@) =~= want.take(0));
    while i < rs.len()
        invariant
            i <= rs@.len(),
            want == under_env(results(rs@), env@),
            results(out@) == want.take(i as int),
        decreases rs@.len() - i,
    {
        out.push((rs[i].0.clone(), prepend_chain(env.clone(), &rs[i].1)));
        assert(want.take(i + 1) =~= want.take(i as int).push(want[i as int]));
        i += 1;
    }
    assert(want.take(rs@.len() as int) =~= want);
    out
}

/// Whether a clause of a `case` is a pair with a pattern.
pub open spec fn is_clause_for(c: ExprV, name: Seq<char>) -> bool {
    c is List && c->List_0.len() == 2 && c->List_0[0] == ExprV::Symbol(name)
}

/// The body of the clause for the case without a value.
pub open spec fn empty_clause(cs: Seq<ExprV>, j: nat) -> Option<ExprV>
    decreases cs.len() - j,
{
    if j >= cs.len() {
        None
    } else if is_clause_for(cs[j as int], "Empty"@) {
        Some(cs[j as int]->List_0[1])
    } else {
        empty_clause(cs, j + 1)
    }
}

/// Find the body of the clause for the case without a value.
pub fn find_empty_clause(cs: &Vec<Expr>) -> (r: Option<Expr>)
    ensures
        optional_expr(r) == empty_clause(exprs(cs@), 0),
{
    broadcast use group_exprs;

    let ghost cv = exprs(cs@);
    let mut j: usize = 0;
    while j < cs.len()
        invariant
            j <= cs@.len(),
            cv == exprs(cs@),
            empty_clause(cv, j as nat) == empty_clause(cv, 0),
        decreases cs@.len() - j,
    {
        assert(cv[j as int] == cs@[j as int]@);
        match &cs[j] {
            Expr::List(items) => {
                assert(exprs(items@).len() == items@.len());
                if items.len() == 2 {
                    assert(exprs(items@)[0] == items@[0]@ && exprs(items@)[1] == items@[1]@);
                    match &items[0] {
                        Expr::Symbol(s) => {
                            if same(s.as_str(), "Empty") {
                                return Some(items[1].clone());
                            }
                        },
                        _ => {},
                    }
                }
            },
            _ => {},
        }
        j += 1;
    }
    None
}

/// The clause of a `case` for a value.
pub enum ClauseV {
    /// This body in this environment.
    Body(ExprV, EnvV),
    /// A value is missing.
    Ask(ExprV, EnvV),
    /// An error.
    Fail(Seq<char>),
}

/// The clause of a `case` for a value, from a position on.
pub open spec fn clause_for(
    cs: Seq<ExprV>,
    j: nat,
    value: AtomV,
    env: EnvV,
    known: Seq<KnownV>,
) -> ClauseV
    decreases cs.len() - j,
{
    if j >= cs.len() {
        ClauseV::Fail("case: no clause matched value "@ + sexpr(value))
    } else {
        let c = cs[j as int];
        if !(c is List && c->List_0.len() == 2) {
            ClauseV::Fail("case: each clause must be (pattern body), got "@ + expr_text(c))
        } else {
            let p = c->List_0[0];
            let body = c->List_0[1];
            if p == ExprV::Symbol("Empty"@) {
                clause_for(cs, j + 1, value, env, known)
            } else if p == ExprV::Symbol("$else"@) {
                ClauseV::Body(body, env)
            } else {
                match match_one(p, value, EnvV::Empty, known) {
                    MatchV::Yes(m) => ClauseV::Body(body, linked(m, env)),
                    MatchV::No => clause_for(cs, j + 1, value, env, known),
                    MatchV::Ask(x, e) => ClauseV::Ask(x, e),
                }
            }
        }
    }
}

/// The clause of a `case` for a value.
enum CaseClause {
    /// This body in this environment.
    Body(Expr, Env),
    /// The value of this expression in this environment is needed first.
    Ask(Expr, Env),
    /// An error.
    Fail(String),
}

/// The value of a clause for a value.
spec fn case_value(c: CaseClause) -> ClauseV {
    match c {
        CaseClause::Body(x, e) => ClauseV::Body(x@, e@),
        CaseClause::Ask(x, e) => ClauseV::Ask(x@, e@),
        CaseClause::Fail(m) => ClauseV::Fail(m@),
    }
}

/// Find the clause of a `case` for a value.
fn find_clause(cs: &Vec<Expr>, value: &Atom, env: &Env, known: &Vec<PatternValue>) -> (r: CaseClause)
    ensures
        case_value(r) == clause_for(exprs(cs@), 0, value@, env@, known_values(known@)),
{
    broadcast use group_exprs;

    let ghost cv = exprs(cs@);
    let ghost kn = known_values(known@);
    let mut j: usize = 0;
    while j < cs.len()
        invariant
            j <= cs@.len(),
            cv == exprs(cs@),
            kn == known_values(known@),
            clause_for(cv, j as nat, value@, env@, kn) == clause_for(cv, 0, value@, env@, kn),
        decreases cs@.len() - j,
    {
        assert(cv[j as int] == cs@[j as int]@);
        match &cs[j] {
            Expr::List(items) => {
                assert(exprs(items@).len() == items@.len());
                if items.len() != 2 {
                    let t = cs[j].to_text();
                    return CaseClause::Fail(
                        joined("case: each clause must be (pattern body), got ", t.as_str()),
                    );
                }
                assert(exprs(items@)[0] == items@[0]@ && exprs(items@)[1] == items@[1]@);
                let is_empty: bool = match &items[0] {
                    Expr::Symbol(s) => same(s.as_str(), "Empty"),
                    _ => false,
                };
                let is_else: bool = match &items[0] {
                    Expr::Symbol(s) => same(s.as_str(), "$else"),
                    _ => false,
                };
                if is_empty {
                } else if is_else {
                    return CaseClause::Body(items[1].clone(), env.clone());
                } else {
                    match try_match_one(&items[0], value, &Env::new(), known) {
                        Matching::Yes(m) => {
                            return CaseClause::Body(items[1].clone(), prepend_chain(m, env));
                        },
                        Matching::No => {},
                        Matching::Ask(x, e) => {
                            return CaseClause::Ask(x, e);
                        },
                    }
                }
            },
            _ => {
                let t = cs[j].to_text();
                return CaseClause::Fail(
                    joined("case: each clause must be (pattern body), got ", t.as_str()),
                );
            },
        }
        j += 1;
    }
    let t = value.to_sexpr_string();
    CaseClause::Fail(joined("case: no clause matched value ", t.as_str()))
}

/// The branches of a `case` for values, or what stops them.
pub open spec fn case_branches(
    cs: Seq<ExprV>,
    r: ResultV,
    env: EnvV,
    known: Seq<KnownV>,
) -> Result<Seq<(ExprV, EnvV)>, ClauseV>
    decreases r.len(),
{
    if r.len() == 0 {
        Ok(Seq::empty())
    } else {
        match case_branches(cs, r.drop_last(), env, known) {
            Err(c) => Err(c),
            Ok(bs) => match clause_for(cs, 0, r.last().0, env, known) {
                ClauseV::Body(x, e) => Ok(bs.push((x, e))),
                other => Err(other),
            },
        }
    }
}

/// What stops an initial part stops the whole.
proof fn lemma_case_stops(cs: Seq<ExprV>, r: ResultV, env: EnvV, known: Seq<KnownV>, n: int)
    requires
        0 <= n <= r.len(),
        case_branches(cs, r.take(n), env, known) is Err,
    ensures
        case_branches(cs, r, env, known) == case_branches(cs, r.take(n), env, known),
    decreases r.len() - n,
{
    if n == r.len() {
        assert(r.take(n) =~= r);
    } else {
        assert(r.take(n + 1).drop_last() =~= r.take(n));
        lemma_case_stops(cs, r, env, known, n + 1);
    }
}

/// Selecting the branches of a `case`.
pub open spec fn case_selected(
    r: ResultV,
    cs: Seq<ExprV>,
    env: EnvV,
    known: Seq<KnownV>,
) -> ResumedV {
    if r.len() == 0 {
        match empty_clause(cs, 0) {
            Some(x) => ResumedV::Tasks(seq![TaskV::Eval(x, env)]),
            None => nothing(),
        }
    } else {
        match case_branches(cs, r, env, known) {
            Err(ClauseV::Ask(x, e)) => ResumedV::Ask(x, e),
            Err(ClauseV::Fail(m)) => ResumedV::Fail(m),
            Err(_) => nothing(),
            Ok(bs) => branch_tasks(ContV::Gather(bs.len()), bs),
        }
    }
}

/// Select the branches of a `case`.
pub fn select_case(rs: &ResultSet, cs: &Vec<Expr>, env: &Env, known: &Vec<PatternValue>) -> (r:
    Resumed)
    ensures
        r@ == case_selected(results(rs@), exprs(cs@), env@, known_values(known@)),
{
    let ghost rv = results(rs@);
    let ghost cv = exprs(cs@);
    let ghost kn = known_values(known@);
    assert(rv.len() == rs@.len());
    if rs.len() == 0 {
        return match find_empty_clause(cs) {
            Some(x) => {
                let mut v: Vec<Task> = Vec::new();
                v.push(Task::Eval(x, env.clone()));
                assert(tasks(v@) =~= seq![TaskV::Eval(x@, env@)]);
                Resumed::Tasks(v)
            },
            None => resume_nothing(),
        };
    }
    let mut bs: Vec<(Expr, Env)> = Vec::new();
    let mut i: usize = 0;
    assert(rv.take(0) =~= ResultV::empty());
    assert(target_values(bs@) =~= Seq::<(ExprV, EnvV)>::empty());
    while i < rs.len()
        invariant
            i <= rs@.len(),
            rs@.len() > 0,
            rv == results(rs@),
            cv == exprs(cs@),
            kn == known_values(known@),
            case_branches(cv, rv.take(i as int), env@, kn) == Ok::<
                Seq<(ExprV, EnvV)>,
                ClauseV,
            >(target_values(bs@)),
        decreases rs@.len() - i,
    {
        assert(rv.take(i + 1).drop_last() =~= rv.take(i as int));
        assert(rv[i as int] == (rs@[i as int].0@, rs@[i as int].1@));
        match find_clause(cs, &rs[i].0, env, known) {
            CaseClause::Ask(x, e) => {
                proof {
                    lemma_case_stops(cv, rv, env@, kn, i + 1);
                }
                return Resumed::Ask(x, e);
            },
            CaseClause::Fail(m) => {
                proof {
                    lemma_case_stops(cv, rv, env@, kn, i + 1);
                }
                return Resumed::Fail(m);
            },
            CaseClause::Body(x, e) => {
                let ghost before = bs@;
                bs.push((x, e));
                proof {
                    lemma_targets_push(before, (x, e));
                }
            },
        }
        i += 1;
    }
    assert(rv.take(rs@.len() as int) =~= rv);
    let n: usize = bs.len();
    assert(target_values(bs@).len() == n);
    resume_branches(Frame::Gather(n), &bs)
}

/// What matching values against a pattern comes to: the environments of the
/// matches and the warnings, or a missing value.
pub struct LetMatches {
    /// The environments.
    pub envs: Vec<Env>,
    /// The warnings.
    pub lines: Vec<String>,
    /// A missing value.
    pub ask: Option<(Expr, Env)>,
}

/// The values of environments.
pub open spec fn env_values(s: Seq<Env>) -> Seq<EnvV> {
    Seq::new(s.len(), |i: int| s[i]@)
}

/// What matching a value against a pattern comes to: an environment or a
/// warning.
pub open spec fn let_match(
    label: Seq<char>,
    p: ExprV,
    value: AtomV,
    env: EnvV,
    known: Seq<KnownV>,
) -> Result<Result<EnvV, Seq<char>>, (ExprV, EnvV)> {
    match match_one(p, value, EnvV::Empty, known) {
        MatchV::Ask(x, e) => Err((x, e)),
        MatchV::Yes(m) => Ok(
            if shadows(m, env) {
                Err(
                    "warn: "@ + label
                        + " pattern variable shadows outer binding \u{2014} rejecting match"@,
                )
            } else {
                Ok(linked(m, env))
            },
        ),
        MatchV::No => Ok(
            Err(
                "warn: "@ + label + " pattern "@ + expr_text(p) + " does not match value "@ + sexpr(
                    value,
                ),
            ),
        ),
    }
}

/// What matching values against a pattern comes to.
pub open spec fn let_matches(
    label: Seq<char>,
    p: ExprV,
    r: ResultV,
    env: EnvV,
    known: Seq<KnownV>,
) -> Result<(Seq<EnvV>, Seq<Seq<char>>), (ExprV, EnvV)>
    decreases r.len(),
{
    if r.len() == 0 {
        Ok((Seq::empty(), Seq::empty()))
    } else {
        match let_matches(label, p, r.drop_last(), env, known) {
            Err(q) => Err(q),
            Ok(b) => match let_match(label, p, r.last().0, env, known) {
                Err(q) => Err(q),
                Ok(Ok(e)) => Ok((b.0.push(e), b.1)),
                Ok(Err(line)) => Ok((b.0, b.1.push(line))),
            },
        }
    }
}

/// A missing value for an initial part is missing for the whole.
proof fn lemma_let_stops(
    label: Seq<char>,
    p: ExprV,
    r: ResultV,
    env: EnvV,
    known: Seq<KnownV>,
    n: int,
)
    requires
        0 <= n <= r.len(),
        let_matches(label, p, r.take(n), env, known) is Err,
    ensures
        let_matches(label, p, r, env, known) == let_matches(label, p, r.take(n), env, known),
    decreases r.len() - n,
{
    if n == r.len() {
        assert(r.take(n) =~= r);
    } else {
        assert(r.take(n + 1).drop_last() =~= r.take(n));
        lemma_let_stops(label, p, r, env, known, n + 1);
    }
}

/// The value of what matching values against a pattern comes to.
pub open spec fn let_value(m: LetMatches) -> Result<
    (Seq<EnvV>, Seq<Seq<char>>),
    (ExprV, EnvV),
> {
    match m.ask {
        Some(q) => Err((q.0@, q.1@)),
        None => Ok((env_values(m.envs@), texts(m.lines@))),
    }
}

/// Match values against a pattern.
pub fn match_values(
    label: &str,
    p: &Expr,
    rs: &ResultSet,
    env: &Env,
    known: &Vec<PatternValue>,
) -> (r: LetMatches)
    ensures
        let_value(r) == let_matches(label@, p@, results(rs@), env@, known_values(known@)),
{
    broadcast use lemma_texts_push;

    let ghost rv = results(rs@);
    let ghost kn = known_values(known@);
    let mut out: LetMatches = LetMatches { envs: Vec::new(), lines: Vec::new(), ask: None };
    let mut i: usize = 0;
    assert(rv.take(0) =~= ResultV::empty());
    assert(env_values(out.envs@) =~= Seq::<EnvV>::empty());
    assert(texts(out.lines@) =~= Seq::<Seq<char>>::empty());
    while i < rs.len()
        invariant
            i <= rs@.len(),
            rv == results(rs@),
            kn == known_values(known@),
            out.ask is None,
            let_matches(label@, p@, rv.take(i as int), env@, kn) == Ok::<
                (Seq<EnvV>, Seq<Seq<char>>),
                (ExprV, EnvV),
            >((env_values(out.envs@), texts(out.lines@))),
        decreases rs@.len() - i,
    {
        assert(rv.take(i + 1).drop_last() =~= rv.take(i as int));
        assert(rv[i as int] == (rs@[i as int].0@, rs@[i as int].1@));
        match try_match_one(p, &rs[i].0, &Env::new(), known) {
            Matching::Ask(x, e) => {
                proof {
                    lemma_let_stops(label@, p@, rv, env@, kn, i + 1);
                }
                return LetMatches { envs: out.envs, lines: out.lines, ask: Some((x, e)) };
            },
            Matching::Yes(m) => {
                if has_shadowing(&m, env) {
                    let line = joined3(
                        "warn: ",
                        label,
                        " pattern variable shadows outer binding \u{2014} rejecting match",
                    );
                    let ghost before = out.lines@;
                    out.lines.push(line);
                    assert(texts(out.lines@) =~= texts(before).push(line@));
                } else {
                    let ghost before = out.envs@;
                    let x = prepend_chain(m, env);
                    out.envs.push(x);
                    assert(env_values(out.envs@) =~= env_values(before).push(x@));
                }
            },
            Matching::No => {
                let ghost before = out.lines@;
                let mut line: String = joined3("warn: ", label, " pattern ");
                let pt = p.to_text();
                line.append(pt.as_str());
                line.append(" does not match value ");
                let vt = rs[i].0.to_sexpr_string();
                line.append(vt.as_str());
                assert(let_match(label@, p@, rv[i as int].0, env@, kn) == Ok::<
                    Result<EnvV, Seq<char>>,
                    (ExprV, EnvV),
                >(Err(line@)));
                out.lines.push(line);
                assert(texts(out.lines@) =~= texts(before).push(line@));
            },
        }
        i += 1;
    }
    assert(rv.take(rs@.len() as int) =~= rv);
    out
}

/// What a frame comes to, with lines to print first.
pub type PrintedV = (ResumedV, Seq<Seq<char>>);

/// Binding the variables of a `let` pattern.
pub open spec fn let_bound(
    r: ResultV,
    p: ExprV,
    body: ExprV,
    env: EnvV,
    known: Seq<KnownV>,
) -> PrintedV {
    match let_matches("let"@, p, r, env, known) {
        Err(q) => (ResumedV::Ask(q.0, q.1), Seq::empty()),
        Ok(b) => (
            if b.0.len() == 0 {
                nothing()
            } else {
                branch_tasks(
                    ContV::Gather(b.0.len()),
                    Seq::new(b.0.len(), |i: int| (body, b.0[i])),
                )
            },
            b.1,
        ),
    }
}

/// Bind the variables of a `let` pattern.
pub fn bind_let(
    rs: &ResultSet,
    p: &Expr,
    body: &Expr,
    env: &Env,
    known: &Vec<PatternValue>,
) -> (r: (Resumed, Vec<String>))
    ensures
        (r.0@, texts(r.1@)) == let_bound(results(rs@), p@, body@, env@, known_values(known@)),
{
    let m = match_values("let", p, rs, env, known);
    match m.ask {
        Some(q) => {
            let none: Vec<String> = Vec::new();
            assert(texts(none@) =~= Seq::<Seq<char>>::empty());
            (Resumed::Ask(q.0, q.1), none)
        },
        None => {
            let ghost es = env_values(m.envs@);
            assert(es.len() == m.envs@.len());
            if m.envs.len() == 0 {
                return (resume_nothing(), m.lines);
            }
            let ghost want = Seq::new(es.len(), |i: int| (body@, es[i]));
            let mut bs: Vec<(Expr, Env)> = Vec::new();
            let mut i: usize = 0;
            assert(target_values(bs@) =~= want.take(0));
            while i < m.envs.len()
                invariant
                    i <= m.envs@.len(),
                    es == env_values(m.envs@),
                    want == Seq::new(es.len(), |i: int| (body@, es[i])),
                    target_values(bs@) == want.take(i as int),
                decreases m.envs@.len() - i,
            {
                let ghost before = bs@;
                let x = (body.clone(), m.envs[i].clone());
                bs.push(x);
                proof {
                    lemma_targets_push(before, x);
                }
                assert(want.take(i + 1) =~= want.take(i as int).push(want[i as int]));
                i += 1;
            }
            assert(want.take(m.envs@.len() as int) =~= want);
            let n: usize = bs.len();
            assert(target_values(bs@).len() == n);
            (resume_branches(Frame::Gather(n), &bs), m.lines)
        },
    }
}

/// The tasks for a match of a `let*` binding: the next binding, or the body.
pub open spec fn star_tasks(
    bs: Seq<ExprV>,
    i: nat,
    body: ExprV,
    next: Option<ExprV>,
    e: EnvV,
) -> Seq<TaskV> {
    match next {
        Some(x) => seq![
            TaskV::Apply(ContV::LetStarBind(bs, i + 1, body, e)),
            TaskV::Eval(x, e),
        ],
        None => seq![TaskV::Eval(body, e)],
    }
}

/// The tasks for the matches of a `let*` binding, the first match last.
pub open spec fn all_star_tasks(
    bs: Seq<ExprV>,
    i: nat,
    body: ExprV,
    next: Option<ExprV>,
    es: Seq<EnvV>,
) -> Seq<TaskV>
    decreases es.len(),
{
    if es.len() == 0 {
        Seq::empty()
    } else {
        all_star_tasks(bs, i, body, next, es.skip(1)) + star_tasks(bs, i, body, next, es[0])
    }
}

/// Binding the variables of a pattern of a `let*`.
///
/// The value of the next binding is looked up at the first match; what was
/// printed before that stays printed.
pub open spec fn star_bound(
    r: ResultV,
    bs: Seq<ExprV>,
    i: nat,
    body: ExprV,
    env: EnvV,
    known: Seq<KnownV>,
) -> PrintedV {
    match star_binding(bs, i) {
        Err(m) => (ResumedV::Fail(m), Seq::empty()),
        Ok(pair) => match let_matches("let*"@, pair.0, r, env, known) {
            Err(q) => (ResumedV::Ask(q.0, q.1), Seq::empty()),
            Ok(b) => if b.0.len() == 0 {
                (nothing(), b.1)
            } else if i + 1 < bs.len() {
                match star_binding(bs, i + 1) {
                    Err(m) => (
                        ResumedV::Fail(m),
                        lines_before("let*"@, pair.0, r, env, known),
                    ),
                    Ok(next) => (
                        ResumedV::Tasks(
                            seq![TaskV::Apply(ContV::Gather(b.0.len()))] + all_star_tasks(
                                bs,
                                i,
                                body,
                                Some(next.1),
                                b.0,
                            ),
                        ),
                        b.1,
                    ),
                }
            } else {
                (
                    ResumedV::Tasks(
                        seq![TaskV::Apply(ContV::Gather(b.0.len()))] + all_star_tasks(
                            bs,
                            i,
                            body,
                            None,
                            b.0,
                        ),
                    ),
                    b.1,
                )
            },
        },
    }
}

/// The warnings before the first match.
pub open spec fn lines_before(
    label: Seq<char>,
    p: ExprV,
    r: ResultV,
    env: EnvV,
    known: Seq<KnownV>,
) -> Seq<Seq<char>>
    decreases r.len(),
{
    if r.len() == 0 {
        Seq::empty()
    } else {
        match let_match(label, p, r[0].0, env, known) {
            Ok(Err(line)) => seq![line] + lines_before(label, p, r.skip(1), env, known),
            _ => Seq::empty(),
        }
    }
}

/// Find the warnings before the first match.
fn find_lines_before(
    label: &str,
    p: &Expr,
    rs: &ResultSet,
    env: &Env,
    known: &Vec<PatternValue>,
) -> (r: Vec<String>)
    ensures
        texts(r@) == lines_before(label@, p@, results(rs@), env@, known_values(known@)),
{
    broadcast use lemma_texts_push;

    let ghost rv = results(rs@);
    let ghost kn = known_values(known@);
    let ghost want = lines_before(label@, p@, rv, env@, kn);
    let mut out: Vec<String> = Vec::new();
    let mut i: usize = 0;
    assert(rv.skip(0) =~= rv);
    assert(texts(out@) + want =~= want);
    while i < rs.len()
        invariant
            i <= rs@.len(),
            rv == results(rs@),
            kn == known_values(known@),
            want == lines_before(label@, p@, rv, env@, kn),
            texts(out@) + lines_before(label@, p@, rv.skip(i as int), env@, kn) == want,
        decreases rs@.len() - i,
    {
        let ghost rest = rv.skip(i as int);
        assert(rest[0] == (rs@[i as int].0@, rs@[i as int].1@));
        assert(rest.skip(1) =~= rv.skip(i + 1));
        let ghost before = texts(out@);
        match try_match_one(p, &rs[i].0, &Env::new(), known) {
            Matching::Ask(_, _) => {
                assert(lines_before(label@, p@, rest, env@, kn) =~= Seq::empty());
                assert(texts(out@) =~= want);
                return out;
            },
            Matching::Yes(m) => {
                if has_shadowing(&m, env) {
                    let line = joined3(
                        "warn: ",
                        label,
                        " pattern variable shadows outer binding \u{2014} rejecting match",
                    );
                    out.push(line);
                    assert(before.push(line@) + lines_before(
                        label@,
                        p@,
                        rv.skip(i + 1),
                        env@,
                        kn,
                    ) =~= before + lines_before(label@, p@, rest, env@, kn));
                } else {
                    assert(lines_before(label@, p@, rest, env@, kn) =~= Seq::empty());
                    assert(texts(out@) =~= want);
                    return out;
                }
            },
            Matching::No => {
                let mut line: String = joined3("warn: ", label, " pattern ");
                let pt = p.to_text();
                line.append(pt.as_str());
                line.append(" does not match value ");
                let vt = rs[i].0.to_sexpr_string();
                line.append(vt.as_str());
                out.push(line);
                assert(before.push(line@) + lines_before(label@, p@, rv.skip(i + 1), env@, kn)
                    =~= before + lines_before(label@, p@, rest, env@, kn));
            },
        }
        i += 1;
    }
    assert(rv.skip(rs@.len() as int) =~= ResultV::empty());
    assert(texts(out@) =~= want);
    out
}

/// Make the tasks for the matches of a `let*` binding.
fn make_star_tasks(
    bs: &Arc<Vec<Expr>>,
    i: usize,
    body: &Expr,
    next: &Option<Expr>,
    envs: &Vec<Env>,
) -> (r: Resumed)
    requires
        i < bs@.len(),
    ensures
        r@ == ResumedV::Tasks(
            seq![TaskV::Apply(ContV::Gather(envs@.len()))] + all_star_tasks(
                exprs(bs@),
                i as nat,
                body@,
                optional_expr(*next),
                env_values(envs@),
            ),
        ),
{
    broadcast use lemma_tasks_push;

    let ghost b = exprs(bs@);
    let ghost es = env_values(envs@);
    let ghost nx = optional_expr(*next);
    let len: usize = bs.len();
    assert(i < len);
    let mut v: Vec<Task> = Vec::new();
    v.push(Task::Apply(Frame::Gather(envs.len())));
    let ghost front = seq![TaskV::Apply(ContV::Gather(envs@.len()))];
    let mut k: usize = envs.len();
    assert(es.skip(k as int) =~= Seq::<EnvV>::empty());
    assert(tasks(v@) =~= front + all_star_tasks(b, i as nat, body@, nx, es.skip(k as int)));
    while k > 0
        invariant
            k <= envs@.len(),
            b == exprs(bs@),
            es == env_values(envs@),
            nx == optional_expr(*next),
            i < len,
            tasks(v@) == front + all_star_tasks(b, i as nat, body@, nx, es.skip(k as int)),
        decreases k,
    {
        k = k - 1;
        let ghost rest = es.skip(k as int);
        assert(rest.skip(1) =~= es.skip(k + 1));
        assert(rest[0] == envs@[k as int]@);
        let ghost before = tasks(v@);
        match next {
            Some(x) => {
                v.push(
                    Task::Apply(
                        Frame::LetStarBind(bs.clone(), i + 1, body.clone(), envs[k].clone()),
                    ),
                );
                v.push(Task::Eval(x.clone(), envs[k].clone()));
            },
            None => {
                v.push(Task::Eval(body.clone(), envs[k].clone()));
            },
        }
        assert(tasks(v@) =~= before + star_tasks(b, i as nat, body@, nx, rest[0]));
        assert(tasks(v@) =~= front + all_star_tasks(b, i as nat, body@, nx, rest));
    }
    assert(es.skip(0) =~= es);
    Resumed::Tasks(v)
}

/// Bind the variables of a pattern of a `let*`.
pub fn bind_star(
    rs: &ResultSet,
    bs: &Arc<Vec<Expr>>,
    i: usize,
    body: &Expr,
    env: &Env,
    known: &Vec<PatternValue>,
) -> (r: (Resumed, Vec<String>))
    ensures
        (r.0@, texts(r.1@)) == star_bound(
            results(rs@),
            exprs(bs@),
            i as nat,
            body@,
            env@,
            known_values(known@),
        ),
{
    let none: Vec<String> = Vec::new();
    assert(texts(none@) =~= Seq::<Seq<char>>::empty());
    assert(exprs(bs@).len() == bs@.len());
    match let_star_binding(bs, i) {
        Err(m) => (Resumed::Fail(m), none),
        Ok((p, _)) => {
            let m = match_values("let*", p, rs, env, known);
            match m.ask {
                Some(q) => (Resumed::Ask(q.0, q.1), none),
                None => {
                    assert(env_values(m.envs@).len() == m.envs@.len());
                    if m.envs.len() == 0 {
                        return (resume_nothing(), m.lines);
                    }
                    let len: usize = bs.len();
                    assert(i < len);
                    if i + 1 < len {
                        match let_star_binding(bs, i + 1) {
                            Err(e) => {
                                let lines = find_lines_before("let*", p, rs, env, known);
                                (Resumed::Fail(e), lines)
                            },
                            Ok((_, x)) => {
                                let next: Option<Expr> = Some(x.clone());
                                (make_star_tasks(bs, i, body, &next, &m.envs), m.lines)
                            },
                        }
                    } else {
                        (make_star_tasks(bs, i, body, &None, &m.envs), m.lines)
                    }
                },
            }
        },
    }
}

/// The bodies for the matches in a space.
pub open spec fn bodies_for(found: Seq<FoundV>, body: ExprV, env: EnvV) -> Seq<(ExprV, EnvV)> {
    Seq::new(found.len(), |i: int| (body, stacked(found[i].1, env)))
}

/// The bodies for the matches in several spaces.
pub open spec fn space_bodies(
    r: ResultV,
    p: ExprV,
    body: ExprV,
    env: EnvV,
    t: TableV,
) -> Result<Seq<(ExprV, EnvV)>, Seq<char>>
    decreases r.len(),
{
    if r.len() == 0 {
        Ok(Seq::empty())
    } else {
        match space_bodies(r.drop_last(), p, body, env, t) {
            Err(m) => Err(m),
            Ok(bs) => match matches_in(t, r.last().0, p, env) {
                Err(m) => Err(m),
                Ok(found) => Ok(bs + bodies_for(found, body, env)),
            },
        }
    }
}

/// An error in an initial part is an error in the whole.
proof fn lemma_space_stops(r: ResultV, p: ExprV, body: ExprV, env: EnvV, t: TableV, n: int)
    requires
        0 <= n <= r.len(),
        space_bodies(r.take(n), p, body, env, t) is Err,
    ensures
        space_bodies(r, p, body, env, t) == space_bodies(r.take(n), p, body, env, t),
    decreases r.len() - n,
{
    if n == r.len() {
        assert(r.take(n) =~= r);
    } else {
        assert(r.take(n + 1).drop_last() =~= r.take(n));
        lemma_space_stops(r, p, body, env, t, n + 1);
    }
}

/// Searching spaces: the first body is evaluated, the others wait.
pub open spec fn space_matched(
    r: ResultV,
    p: ExprV,
    body: ExprV,
    env: EnvV,
    t: TableV,
) -> ResumedV {
    match space_bodies(r, p, expr_followed(body, env), env, t) {
        Err(m) => ResumedV::Fail(m),
        Ok(bs) => if bs.len() == 0 {
            nothing()
        } else if bs.len() == 1 {
            ResumedV::Tasks(
                seq![TaskV::Apply(ContV::Gather(1)), TaskV::Eval(bs[0].0, bs[0].1)],
            )
        } else {
            ResumedV::Tasks(
                seq![
                    TaskV::Apply(ContV::Gather(bs.len())),
                    TaskV::Apply(ContV::SpaceMatchStream(bs.skip(1).reverse())),
                    TaskV::Eval(bs[0].0, bs[0].1),
                ],
            )
        },
    }
}

/// Search spaces.
pub fn match_spaces(rs: &ResultSet, p: &Expr, body: &Expr, env: &Env, table: &FnTable) -> (r:
    Resumed)
    ensures
        r@ == space_matched(results(rs@), p@, body@, env@, table@),
{
    let ghost rv = results(rs@);
    let filled = follow_expr_vars(body, env);
    let ghost fb = filled@;
    let mut bs: Vec<(Expr, Env)> = Vec::new();
    let mut i: usize = 0;
    assert(rv.take(0) =~= ResultV::empty());
    assert(target_values(bs@) =~= Seq::<(ExprV, EnvV)>::empty());
    while i < rs.len()
        invariant
            i <= rs@.len(),
            rv == results(rs@),
            fb == filled@,
            fb == expr_followed(body@, env@),
            space_bodies(rv.take(i as int), p@, fb, env@, table@) == Ok::<
                Seq<(ExprV, EnvV)>,
                Seq<char>,
            >(target_values(bs@)),
        decreases rs@.len() - i,
    {
        assert(rv.take(i + 1).drop_last() =~= rv.take(i as int));
        assert(rv[i as int] == (rs@[i as int].0@, rs@[i as int].1@));
        match collect_match_results(table, &rs[i].0, p, env) {
            Err(m) => {
                proof {
                    lemma_space_stops(rv, p@, fb, env@, table@, i + 1);
                }
                return Resumed::Fail(m);
            },
            Ok(found) => {
                let ghost fv = found_values(found@);
                let ghost base = target_values(bs@);
                let ghost more = bodies_for(fv, fb, env@);
                let mut j: usize = 0;
                assert(base + more.take(0) =~= base);
                while j < found.len()
                    invariant
                        j <= found@.len(),
                        fv == found_values(found@),
                        fb == filled@,
                        more == bodies_for(fv, fb, env@),
                        target_values(bs@) == base + more.take(j as int),
                    decreases found@.len() - j,
                {
                    let ghost before = bs@;
                    let x = (filled.clone(), bind_all(env, &found[j].bindings));
                    bs.push(x);
                    proof {
                        lemma_targets_push(before, x);
                    }
                    assert(base + more.take(j + 1) =~= (base + more.take(j as int)).push(
                        more[j as int],
                    ));
                    j += 1;
                }
                assert(more.take(found@.len() as int) =~= more);
            },
        }
        i += 1;
    }
    assert(rv.take(rs@.len() as int) =~= rv);
    let ghost all = target_values(bs@);
    let n: usize = bs.len();
    assert(all.len() == n);
    if n == 0 {
        return resume_nothing();
    }
    let first = Task::Eval(bs[0].0.clone(), bs[0].1.clone());
    assert(first@ == TaskV::Eval(all[0].0, all[0].1));
    let mut v: Vec<Task> = Vec::new();
    v.push(Task::Apply(Frame::Gather(n)));
    if n > 1 {
        let ghost want = all.skip(1).reverse();
        let mut rest: Vec<(Expr, Env)> = Vec::new();
        let mut k: usize = n;
        assert(target_values(rest@) =~= want.take(0));
        while k > 1
            invariant
                1 <= k <= n,
                n == bs@.len(),
                all == target_values(bs@),
                want == all.skip(1).reverse(),
                target_values(rest@) == want.take(n - k),
            decreases k,
        {
            k = k - 1;
            let ghost before = rest@;
            let x = (bs[k].0.clone(), bs[k].1.clone());
            rest.push(x);
            proof {
                lemma_targets_push(before, x);
            }
            assert(want[n - k - 1] == all[k as int]);
            assert(want.take(n - k) =~= want.take(n - k - 1).push(want[n - k - 1]));
        }
        assert(want.take(n - 1) =~= want);
        v.push(Task::Apply(Frame::SpaceMatchStream(rest)));
    }
    v.push(first);
    assert(tasks(v@) =~= space_matched(rv, p@, body@, env@, table@)->Tasks_0);
    Resumed::Tasks(v)
}

/// Going on with the remaining bodies of a search.
pub open spec fn streamed(left: Seq<(ExprV, EnvV)>) -> ResumedV {
    if left.len() == 0 {
        ResumedV::Nothing
    } else {
        frame_then(
            ContV::SpaceMatchStream(left.drop_last()),
            TaskV::Eval(left.last().0, left.last().1),
        )
    }
}

/// Go on with the remaining bodies of a search.
pub fn stream(left: Vec<(Expr, Env)>) -> (r: Resumed)
    ensures
        r@ == streamed(target_values(left@)),
{
    let mut left = left;
    let ghost all = left@;
    assert(target_values(all).len() == all.len());
    match left.pop() {
        None => Resumed::Nothing,
        Some(x) => {
            assert(target_values(left@) =~= target_values(all).drop_last());
            assert(target_values(all).last() == (x.0@, x.1@));
            resume_frame(Frame::SpaceMatchStream(left), Task::Eval(x.0, x.1))
        },
    }
}

/// A transition for each space or mutex.
pub open spec fn transitions(n: nat, f: spec_fn(int) -> TransitionV) -> ResumedV {
    if n == 0 {
        nothing()
    } else {
        ResumedV::Tasks(
            seq![TaskV::Apply(ContV::Gather(n))] + Seq::new(
                n,
                |i: int| TaskV::Transition(f(n - 1 - i)),
            ),
        )
    }
}

/// Adding an atom to spaces.
pub open spec fn space_added(r: ResultV, x: ExprV, env: EnvV) -> ResumedV {
    transitions(r.len(), |i: int| TransitionV::AddAtom(r[i].0, atomized(x, env)))
}

/// Removing an atom from spaces.
pub open spec fn space_removed(r: ResultV, x: ExprV, env: EnvV) -> ResumedV {
    transitions(r.len(), |i: int| TransitionV::RemAtom(r[i].0, atomized(x, env)))
}

/// Add an atom to spaces, or remove it.
pub fn change_spaces(rs: &ResultSet, x: &Expr, env: &Env, add: bool) -> (r: Resumed)
    ensures
        r@ == (if add {
            space_added(results(rs@), x@, env@)
        } else {
            space_removed(results(rs@), x@, env@)
        }),
{
    broadcast use lemma_tasks_push;

    let ghost rv = results(rs@);
    let ghost a = atomized(x@, env@);
    let atom = subst_and_atomize(x, env);
    let n: usize = rs.len();
    assert(rv.len() == n);
    if n == 0 {
        return resume_nothing();
    }
    let ghost want = (if add {
        space_added(rv, x@, env@)
    } else {
        space_removed(rv, x@, env@)
    })->Tasks_0;
    let mut v: Vec<Task> = Vec::new();
    v.push(Task::Apply(Frame::Gather(n)));
    let mut k: usize = n;
    assert(tasks(v@) =~= want.take(1));
    while k > 0
        invariant
            k <= n,
            n == rs@.len(),
            n > 0,
            rv == results(rs@),
            a == atomized(x@, env@),
            atom@ == a,
            want == (if add {
                space_added(rv, x@, env@)
            } else {
                space_removed(rv, x@, env@)
            })->Tasks_0,
            tasks(v@) == want.take(1 + n - k),
        decreases k,
    {
        k = k - 1;
        assert(rv[k as int] == (rs@[k as int].0@, rs@[k as int].1@));
        if add {
            v.push(Task::Transition(Transition::AddAtom(rs[k].0.clone(), atom.clone())));
        } else {
            v.push(Task::Transition(Transition::RemAtom(rs[k].0.clone(), atom.clone())));
        }
        assert(want.take(1 + n - k) =~= want.take(n - k).push(want[n - k]));
    }
    assert(want.take(1 + n) =~= want);
    Resumed::Tasks(v)
}

/// Running a body under mutexes.
pub open spec fn mutexes_entered(r: ResultV, body: ExprV, env: EnvV) -> ResumedV {
    transitions(r.len(), |i: int| TransitionV::WithMutex(sexpr(r[i].0), body, env))
}

/// Run a body under mutexes.
pub fn enter_mutexes(rs: &ResultSet, body: &Expr, env: &Env) -> (r: Resumed)
    ensures
        r@ == mutexes_entered(results(rs@), body@, env@),
{
    broadcast use lemma_tasks_push;

    let ghost rv = results(rs@);
    let n: usize = rs.len();
    assert(rv.len() == n);
    if n == 0 {
        return resume_nothing();
    }
    let ghost want = mutexes_entered(rv, body@, env@)->Tasks_0;
    let mut v: Vec<Task> = Vec::new();
    v.push(Task::Apply(Frame::Gather(n)));
    let mut k: usize = n;
    assert(tasks(v@) =~= want.take(1));
    while k > 0
        invariant
            k <= n,
            n == rs@.len(),
            n > 0,
            rv == results(rs@),
            want == mutexes_entered(rv, body@, env@)->Tasks_0,
            tasks(v@) == want.take(1 + n - k),
        decreases k,
    {
        k = k - 1;
        assert(rv[k as int] == (rs@[k as int].0@, rs@[k as int].1@));
        let name = rs[k].0.to_sexpr_string();
        v.push(Task::Transition(Transition::WithMutex(name, body.clone(), env.clone())));
        assert(want.take(1 + n - k) =~= want.take(n - k).push(want[n - k]));
    }
    assert(want.take(1 + n) =~= want);
    Resumed::Tasks(v)
}

/// Wrapping results as a `within` list.
pub open spec fn wrapped(r: ResultV) -> ResumedV {
    if r.len() == 0 {
        ResumedV::Fail("within: expression produced no results"@)
    } else {
        one(AtomV::Expr(seq![symbol("within"@)] + result_atoms(r)))
    }
}

/// Wrap results as a `within` list.
pub fn wrap(rs: &ResultSet) -> (r: Resumed)
    ensures
        r@ == wrapped(results(rs@)),
{
    assert(results(rs@).len() == rs@.len());
    if rs.len() == 0 {
        return resume_fail("within: expression produced no results");
    }
    let mut list: Vec<Atom> = Vec::new();
    list.push(Atom::sym("within"));
    let mut more = atoms_of(rs);
    let ghost m = more@;
    list.append(&mut more);
    assert(atoms(list@) =~= seq![symbol("within"@)] + atoms(m));
    resume_one(Atom::expr(list))
}

/// Going on with a chain.
pub open spec fn chained(r: ResultV, args: Seq<ExprV>, i: nat, env: EnvV) -> ResumedV {
    if i >= args.len() / 2 {
        ResumedV::Fail("chain: variable missing"@)
    } else {
        let var = args[i as int * 2 + 1];
        match first_raw(r) {
            None => ResumedV::Fail(
                "chain: expression "@ + nat_digits(i * 2) + " produced no results"@,
            ),
            Some(v) => if var is Symbol && is_var_name(var->Symbol_0) {
                let next = EnvV::Cons(var->Symbol_0, Box::new(v), Box::new(env));
                if i + 1 < args.len() / 2 {
                    frame_then(
                        ContV::ChainBind(args, i + 1, next),
                        TaskV::Eval(args[(i as int + 1) * 2], next),
                    )
                } else {
                    ResumedV::Tail(args.last(), next)
                }
            } else {
                ResumedV::Fail(
                    "chain: arg "@ + nat_digits(i * 2 + 1) + " must be a $variable, got "@
                        + expr_text(var),
                )
            },
        }
    }
}

/// Go on with a chain.
pub fn chain(rs: &ResultSet, args: &Arc<Vec<Expr>>, i: usize, env: &Env) -> (r: Resumed)
    ensures
        r@ == chained(results(rs@), exprs(args@), i as nat, env@),
{
    broadcast use group_exprs;

    let ghost xs = exprs(args@);
    assert(xs.len() == args@.len());
    let len: usize = args.len();
    if i >= len / 2 {
        return resume_fail("chain: variable missing");
    }
    assert(i * 2 + 1 < len);
    match take_first_raw(rs) {
        None => {
            let d = usize_text(i * 2);
            Resumed::Fail(joined3("chain: expression ", d.as_str(), " produced no results"))
        },
        Some(v) => {
            assert(xs[i * 2 + 1] == args@[i * 2 + 1]@);
            match &args[i * 2 + 1] {
                Expr::Symbol(s) => {
                    if is_var(s.as_str()) {
                        let next = bind(env, s.as_str(), v);
                        if i + 1 < len / 2 {
                            assert(xs[(i + 1) * 2] == args@[(i + 1) * 2]@);
                            return resume_frame(
                                Frame::ChainBind(args.clone(), i + 1, next.clone()),
                                Task::Eval(args[(i + 1) * 2].clone(), next),
                            );
                        }
                        assert(xs.last() == args@[len - 1]@);
                        return Resumed::Tail(args[len - 1].clone(), next);
                    }
                },
                _ => {},
            }
            let d = usize_text(i * 2 + 1);
            let t = args[i * 2 + 1].to_text();
            let mut m: String = joined3("chain: arg ", d.as_str(), " must be a $variable, got ");
            m.append(t.as_str());
            Resumed::Fail(m)
        },
    }
}

/// Values from a list.
pub open spec fn unpacked(r: ResultV) -> ResumedV {
    match first_raw(r) {
        None => ResumedV::Fail("superpose: argument produced no results"@),
        Some(a) => ResumedV::Value(plain_results(items_of(a))),
    }
}

/// Take values from a list.
pub fn unpack(rs: &ResultSet) -> (r: Resumed)
    ensures
        r@ == unpacked(results(rs@)),
{
    match take_first_raw(rs) {
        None => resume_fail("superpose: argument produced no results"),
        Some(a) => Resumed::Value(plain(list_items(&a))),
    }
}

/// The values of result sets.
pub open spec fn option_values(sets: Seq<ResultV>) -> Seq<Seq<AtomV>> {
    Seq::new(sets.len(), |i: int| result_atoms(sets[i]))
}

/// Take the values of result sets.
pub fn take_options(sets: &Vec<ResultSet>) -> (r: Vec<Vec<Atom>>)
    ensures
        atom_lists(r@) == option_values(result_sets(sets@)),
{
    let ghost want = option_values(result_sets(sets@));
    let mut out: Vec<Vec<Atom>> = Vec::new();
    let mut i: usize = 0;
    assert(atom_lists(out@) =~= want.take(0));
    while i < sets.len()
        invariant
            i <= sets@.len(),
            want == option_values(result_sets(sets@)),
            atom_lists(out@) == want.take(i as int),
        decreases sets@.len() - i,
    {
        let ghost before = out@;
        let x = atoms_of(&sets[i]);
        out.push(x);
        assert(atom_lists(out@) =~= atom_lists(before).push(atoms(x@)));
        assert(want.take(i + 1) =~= want.take(i as int).push(want[i as int]));
        i += 1;
    }
    assert(want.take(sets@.len() as int) =~= want);
    out
}

/// Whether a list of values is empty.
pub open spec fn some_empty(options: Seq<Seq<AtomV>>) -> bool {
    exists|i: int| 0 <= i < options.len() && (#[trigger] options[i]).len() == 0
}

/// Test whether a list of values is empty.
pub fn any_empty(options: &Vec<Vec<Atom>>) -> (r: bool)
    ensures
        r == some_empty(atom_lists(options@)),
{
    let ghost all = atom_lists(options@);
    let mut i: usize = 0;
    while i < options.len()
        invariant
            i <= options@.len(),
            all == atom_lists(options@),
            forall|k: int| 0 <= k < i ==> (#[trigger] all[k]).len() > 0,
        decreases options@.len() - i,
    {
        assert(all[i as int] == atoms(options@[i as int]@));
        assert(all[i as int].len() == options@[i as int]@.len());
        if options[i].len() == 0 {
            return true;
        }
        i += 1;
    }
    false
}

/// Lists of choices.
pub open spec fn as_lists(cs: Seq<Seq<AtomV>>, front: Seq<AtomV>) -> Seq<AtomV> {
    Seq::new(cs.len(), |i: int| AtomV::Expr(front + cs[i]))
}

/// Make lists of choices.
pub fn make_lists(cs: &Vec<Vec<Atom>>, front: &Vec<Atom>) -> (r: Vec<Atom>)
    ensures
        atoms(r@) == as_lists(atom_lists(cs@), atoms(front@)),
{
    broadcast use group_atoms;

    let ghost want = as_lists(atom_lists(cs@), atoms(front@));
    let mut out: Vec<Atom> = Vec::new();
    let mut i: usize = 0;
    assert(atoms(out@) =~= want.take(0));
    while i < cs.len()
        invariant
            i <= cs@.len(),
            want == as_lists(atom_lists(cs@), atoms(front@)),
            atoms(out@) == want.take(i as int),
        decreases cs@.len() - i,
    {
        let mut list = copy_atoms(front, 0);
        assert(front@.skip(0) =~= front@);
        let mut more = copy_atoms(&cs[i], 0);
        assert(cs@[i as int]@.skip(0) =~= cs@[i as int]@);
        list.append(&mut more);
        assert(atoms(list@) =~= atoms(front@) + atom_lists(cs@)[i as int]);
        out.push(Atom::expr(list));
        assert(want.take(i + 1) =~= want.take(i as int).push(want[i as int]));
        i += 1;
    }
    assert(want.take(cs@.len() as int) =~= want);
    out
}

/// Reconstructing data lists from the values of their elements.
pub open spec fn listed(sets: Seq<ResultV>, front: Seq<AtomV>) -> ResumedV {
    let options = option_values(sets);
    if some_empty(options) {
        nothing()
    } else {
        ResumedV::Value(plain_results(as_lists(products(options), front)))
    }
}

/// Reconstruct data lists from the values of their elements.
pub fn list_data(sets: &Vec<ResultSet>, front: &Vec<Atom>) -> (r: Resumed)
    ensures
        r@ == listed(result_sets(sets@), atoms(front@)),
{
    let options = take_options(sets);
    if any_empty(&options) {
        return resume_nothing();
    }
    let cs = cartesian_product(&options);
    Resumed::Value(plain(make_lists(&cs, front)))
}

/// The next step of a fold, or its result.
pub open spec fn fold_next(items: Seq<AtomV>, i: nat, acc: AtomV, f: AtomV) -> ResumedV {
    if i < items.len() {
        frame_then(
            ContV::FoldlAtom(items, i + 1, acc, f),
            TaskV::Eval(call_of_two(to_expr(f), acc, items[i as int]), EnvV::Empty),
        )
    } else {
        one(acc)
    }
}

/// Take the next step of a fold.
pub fn next_fold(items: &Arc<Vec<Atom>>, i: usize, acc: Atom, f: &Atom) -> (r: Resumed)
    ensures
        r@ == fold_next(atoms(items@), i as nat, acc@, f@),
{
    broadcast use group_atoms;

    assert(atoms(items@).len() == items@.len());
    let len: usize = items.len();
    if i < len {
        let head: Expr = match atom_to_expr(f) {
            Ok(e) => e,
            Err(m) => Expr::Symbol(m),
        };
        let call = make_call_of_two(&head, &acc, &items[i]);
        resume_frame(
            Frame::FoldlAtom(items.clone(), i + 1, acc, f.clone()),
            Task::Eval(call, Env::new()),
        )
    } else {
        resume_one(acc)
    }
}

/// Starting a fold with evaluated arguments.
pub open spec fn fold_started(list: ResultV, acc: ResultV, f: ResultV) -> ResumedV {
    match first_raw(f) {
        None => ResumedV::Fail("foldl-atom: func arg produced no result"@),
        Some(func) => match first_raw(acc) {
            None => ResumedV::Fail("foldl-atom: acc arg produced no result"@),
            Some(a) => match first_raw(list) {
                None => ResumedV::Fail("foldl-atom: list arg produced no result"@),
                Some(l) => fold_next(items_of(l), 0, a, func),
            },
        },
    }
}

/// Start a fold with evaluated arguments.
pub fn start_fold(list: &ResultSet, acc: &ResultSet, f: &ResultSet) -> (r: Resumed)
    ensures
        r@ == fold_started(results(list@), results(acc@), results(f@)),
{
    match take_first_raw(f) {
        None => resume_fail("foldl-atom: func arg produced no result"),
        Some(func) => match take_first_raw(acc) {
            None => resume_fail("foldl-atom: acc arg produced no result"),
            Some(a) => match take_first_raw(list) {
                None => resume_fail("foldl-atom: list arg produced no result"),
                Some(l) => {
                    let items = Arc::new(list_items(&l));
                    next_fold(&items, 0, a, &func)
                },
            },
        },
    }
}

/// The next step of a `foldall`, or its result.
pub open spec fn foldall_next(
    head: ExprV,
    env: EnvV,
    values: Seq<AtomV>,
    i: nat,
    acc: AtomV,
) -> ResumedV {
    if i < values.len() {
        frame_then(
            ContV::FoldallStep(head, env, values, i + 1),
            TaskV::Run(call_of_two(head, acc, values[i as int]), env),
        )
    } else {
        one(acc)
    }
}

/// Take the next step of a `foldall`.
pub fn next_foldall(head: Expr, env: Env, values: Arc<Vec<Atom>>, i: usize, acc: Atom) -> (r:
    Resumed)
    ensures
        r@ == foldall_next(head@, env@, atoms(values@), i as nat, acc@),
{
    broadcast use group_atoms;

    assert(atoms(values@).len() == values@.len());
    let len: usize = values.len();
    if i < len {
        let call = make_call_of_two(&head, &acc, &values[i]);
        resume_frame(
            Frame::FoldallStep(head, env.clone(), values, i + 1),
            Task::Run(call, env),
        )
    } else {
        resume_one(acc)
    }
}

/// Taking the values and the initial value of a `foldall`.
pub open spec fn foldall_begun(gen: ResultV, init: ResultV, f: ExprV, env: EnvV) -> ResumedV {
    match first_raw(init) {
        None => ResumedV::Fail("foldall: init produced no result"@),
        Some(a) => frame_then(
            ContV::FoldallFn(raw_atoms(gen), a, env),
            TaskV::Run(f, env),
        ),
    }
}

/// Take the values and the initial value of a `foldall`.
pub fn begin_foldall(gen: &ResultSet, init: &ResultSet, f: &Expr, env: &Env) -> (r: Resumed)
    ensures
        r@ == foldall_begun(results(gen@), results(init@), f@, env@),
{
    match take_first_raw(init) {
        None => resume_fail("foldall: init produced no result"),
        Some(a) => {
            let values = Arc::new(raw_atoms_of(gen));
            resume_frame(
                Frame::FoldallFn(values, a, env.clone()),
                Task::Run(f.clone(), env.clone()),
            )
        },
    }
}

/// Taking the function of a `foldall`.
pub open spec fn foldall_started(
    f: ResultV,
    values: Seq<AtomV>,
    init: AtomV,
    env: EnvV,
) -> ResumedV {
    match first_raw(f) {
        None => ResumedV::Fail("foldall: agg-func produced no value"@),
        Some(AtomV::Sym(name)) => foldall_next(ExprV::Symbol(name), env, values, 0, init),
        Some(AtomV::Closure(p, b, e)) => foldall_next(
            ExprV::Symbol("$__foldall_fn"@),
            EnvV::Cons("$__foldall_fn"@, Box::new(AtomV::Closure(p, b, e)), Box::new(env)),
            values,
            0,
            init,
        ),
        Some(_) => ResumedV::Fail("foldall: agg-func must be a function symbol or closure"@),
    }
}

/// Take the function of a `foldall`.
pub fn start_foldall(f: &ResultSet, values: Arc<Vec<Atom>>, init: Atom, env: &Env) -> (r: Resumed)
    ensures
        r@ == foldall_started(results(f@), atoms(values@), init@, env@),
{
    match take_first_raw(f) {
        None => resume_fail("foldall: agg-func produced no value"),
        Some(a) => match &a {
            Atom::Sym(name) => next_foldall(
                Expr::Symbol(name.clone()),
                env.clone(),
                values,
                0,
                init,
            ),
            Atom::Closure(_) => {
                let inner = bind(env, "$__foldall_fn", a.clone());
                next_foldall(Expr::Symbol("$__foldall_fn".to_owned()), inner, values, 0, init)
            },
            _ => resume_fail("foldall: agg-func must be a function symbol or closure"),
        },
    }
}

/// Going on with a `foldall`.
pub open spec fn foldall_stepped(
    r: ResultV,
    head: ExprV,
    env: EnvV,
    values: Seq<AtomV>,
    i: nat,
) -> ResumedV {
    match first_raw(r) {
        None => ResumedV::Fail("foldall: agg-func produced no result"@),
        Some(a) => foldall_next(head, env, values, i, a),
    }
}

/// The next step of a `forall`, or its result.
pub open spec fn forall_next(
    head: ExprV,
    front: EnvV,
    env: EnvV,
    values: Seq<AtomV>,
    i: nat,
) -> ResumedV {
    if i < values.len() {
        frame_then(
            ContV::ForallStep(head, front, env, values, i + 1),
            TaskV::Run(
                ExprV::List(seq![head, ExprV::Symbol("$__fv"@)]),
                linked(front, EnvV::Cons("$__fv"@, Box::new(values[i as int]), Box::new(env))),
            ),
        )
    } else {
        one(symbol("true"@))
    }
}

/// Take the next step of a `forall`.
pub fn next_forall(head: Expr, front: Env, env: Env, values: Arc<Vec<Atom>>, i: usize) -> (r:
    Resumed)
    ensures
        r@ == forall_next(head@, front@, env@, atoms(values@), i as nat),
{
    broadcast use group_atoms;

    assert(atoms(values@).len() == values@.len());
    let len: usize = values.len();
    if i < len {
        let mut v: Vec<Expr> = Vec::new();
        v.push(head.clone());
        v.push(Expr::Symbol("$__fv".to_owned()));
        assert(exprs(v@) =~= seq![head@, ExprV::Symbol("$__fv"@)]);
        let base = bind(&env, "$__fv", values[i].clone());
        let inner = prepend_chain(front.clone(), &base);
        resume_frame(
            Frame::ForallStep(head, front, env, values, i + 1),
            Task::Run(Expr::List(Arc::new(v)), inner),
        )
    } else {
        resume_one(Atom::sym("true"))
    }
}

/// Taking the values and the check of a `forall`.
pub open spec fn forall_started(gen: ResultV, check: ResultV, env: EnvV) -> ResumedV {
    let values = raw_atoms(gen);
    match first_raw(check) {
        None => ResumedV::Fail("forall: check produced no value"@),
        Some(AtomV::Sym(name)) => forall_next(
            ExprV::Symbol(name),
            EnvV::Empty,
            env,
            values,
            0,
        ),
        Some(AtomV::Closure(p, b, e)) => forall_next(
            ExprV::Symbol("$__check_fn"@),
            EnvV::Cons("$__check_fn"@, Box::new(AtomV::Closure(p, b, e)), Box::new(env)),
            env,
            values,
            0,
        ),
        Some(_) => if values.len() == 0 {
            one(symbol("true"@))
        } else {
            ResumedV::Fail("forall: check must be a function symbol or closure"@)
        },
    }
}

/// Take the values and the check of a `forall`.
pub fn start_forall(gen: &ResultSet, check: &ResultSet, env: &Env) -> (r: Resumed)
    ensures
        r@ == forall_started(results(gen@), results(check@), env@),
{
    let values = Arc::new(raw_atoms_of(gen));
    assert(atoms(values@).len() == values@.len());
    match take_first_raw(check) {
        None => resume_fail("forall: check produced no value"),
        Some(a) => match &a {
            Atom::Sym(name) => next_forall(
                Expr::Symbol(name.clone()),
                Env::new(),
                env.clone(),
                values,
                0,
            ),
            Atom::Closure(_) => {
                let front = bind(env, "$__check_fn", a.clone());
                next_forall(
                    Expr::Symbol("$__check_fn".to_owned()),
                    front,
                    env.clone(),
                    values,
                    0,
                )
            },
            _ => {
                if values.len() == 0 {
                    resume_one(Atom::sym("true"))
                } else {
                    resume_fail("forall: check must be a function symbol or closure")
                }
            },
        },
    }
}

/// Whether all of some results are true as they stand, and there is one.
pub open spec fn all_raw_true(r: ResultV) -> bool {
    r.len() > 0 && forall|i: int| 0 <= i < r.len() ==> affirms((#[trigger] r[i]).0)
}

/// Test whether all of some results are true as they stand.
pub fn test_raw(rs: &ResultSet) -> (r: bool)
    ensures
        r == all_raw_true(results(rs@)),
{
    let ghost rv = results(rs@);
    assert(rv.len() == rs@.len());
    if rs.len() == 0 {
        return false;
    }
    let mut i: usize = 0;
    while i < rs.len()
        invariant
            i <= rs@.len(),
            rv == results(rs@),
            forall|k: int| 0 <= k < i ==> affirms((#[trigger] rv[k]).0),
        decreases rs@.len() - i,
    {
        assert(rv[i as int] == (rs@[i as int].0@, rs@[i as int].1@));
        if !rs[i].0.affirms() {
            return false;
        }
        i += 1;
    }
    true
}

/// Going on with a `forall`.
pub open spec fn forall_stepped(
    r: ResultV,
    head: ExprV,
    front: EnvV,
    env: EnvV,
    values: Seq<AtomV>,
    i: nat,
) -> ResumedV {
    if all_raw_true(r) {
        forall_next(head, front, env, values, i)
    } else {
        one(symbol("false"@))
    }
}

/// The space that a value refers to as it stands.
pub open spec fn raw_space(r: ResultV) -> AtomV {
    match first_raw(r) {
        Some(a) => a,
        None => symbol("&self"@),
    }
}

} // verus!
