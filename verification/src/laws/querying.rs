//! Bindings, conditions, searches and calls where expressions are walked.
use crate::atom::AtomV;
use crate::builtins::AnswerV;
use crate::builtins::called;
use crate::env::EnvV;
use crate::env::stacked;
use crate::func::ClauseV;
use crate::eval::machine::apply::has_bindings;
use crate::eval::machine::budget::ResultV;
use crate::eval::shared::env::linked;
use crate::eval::shared::subst::expr_filled;
use crate::eval::walker::StopV;
use crate::eval::walker::WalkV;
use crate::eval::walker::calls::args_walked;
use crate::eval::walker::calls::bodies_walked;
use crate::eval::walker::calls::call_or_data;
use crate::eval::walker::calls::function_walked;
use crate::eval::walker::calls::native_walked;
use crate::eval::walker::constrain::constrained;
use crate::eval::walker::forms::branches_walked;
use crate::eval::walker::forms::let_values;
use crate::eval::walker::gives;
use crate::eval::walker::lists::WalkForm;
use crate::eval::walker::lists::walk_form;
use crate::eval::walker::matching::FittingV;
use crate::eval::walker::matching::clause_fit;
use crate::eval::walker::matching::clauses_fit;
use crate::eval::walker::matching::fit;
use crate::eval::walker::queries::found_walked;
use crate::eval::walker::queries::home;
use crate::eval::walker::queries::space_walked;
use crate::eval::walker::with_table;
use crate::expr::ExprV;
use crate::laws::forms::form;
use crate::laws::states::conditions_are_truth;
use crate::laws::states::counts_as_true;
use crate::laws::walking::form_names_are_bound;
use crate::laws::walking::lemma_walked_form;
use crate::laws::walking::walks;
use crate::space::FoundV;
use crate::space::found_in;
use crate::text::is_var_name;
use vstd::prelude::*;

verus! {

/// Whether a body has values for each of several values that a pattern matches,
/// and none for the others; the state stays as it is.
pub open spec fn body_walks(
    p: ExprV,
    body: ExprV,
    vs: Seq<AtomV>,
    env: EnvV,
    s: WalkV,
    f: nat,
    vss: Seq<Seq<AtomV>>,
) -> bool {
    &&& vs.len() == vss.len()
    &&& forall|i: int|
        0 <= i < vs.len() ==> {
            let r = fit(p, #[trigger] vs[i], EnvV::Empty, s, f);
            &&& r.1 == s
            &&& match r.0 {
                Ok(Some(e)) => walks(body, linked(e, env), s, f, vss[i], s),
                Ok(None) => vss[i] == Seq::<AtomV>::empty(),
                Err(_) => false,
            }
        }
}

proof fn lemma_let_values(
    vs: Seq<AtomV>,
    i: nat,
    before: Seq<AtomV>,
    items: Seq<ExprV>,
    env: EnvV,
    s: WalkV,
    f: nat,
    vss: Seq<Seq<AtomV>>,
)
    requires
        i <= vs.len(),
        body_walks(items[1], items[3], vs, env, s, f, vss),
    ensures
        let_values(vs, i, before, items, env, s, f) == (
            Ok::<Seq<AtomV>, StopV>(before + vss.skip(i as int).flatten()),
            s,
        ),
    decreases vs.len() - i,
{
    let rest = vss.skip(i as int);
    if i < vs.len() {
        let r = fit(items[1], vs[i as int], EnvV::Empty, s, f);
        assert(r.1 == s);
        assert(before + vss[i as int] =~= if vss[i as int].len() == 0 {
            before
        } else {
            before + vss[i as int]
        });
        lemma_let_values(vs, i + 1, before + vss[i as int], items, env, s, f, vss);
        assert(rest.drop_first() =~= vss.skip(i as int + 1));
        assert(rest.first() == vss[i as int]);
        assert(before + rest.flatten() =~= before + vss[i as int] + vss.skip(
            i as int + 1,
        ).flatten());
    } else {
        assert(rest.flatten() =~= Seq::<AtomV>::empty());
        assert(before + rest.flatten() =~= before);
    }
}

/// `(let p x body)` has the values of the body for each value of `x` that the
/// pattern matches, in their order.
pub proof fn bindings_are_walked_in_order(
    p: ExprV,
    x: ExprV,
    body: ExprV,
    env: EnvV,
    s: WalkV,
    f: nat,
    vs: Seq<AtomV>,
    vss: Seq<Seq<AtomV>>,
)
    requires
        walks(x, env, s, f, vs, s),
        body_walks(p, body, vs, env, s, f, vss),
    ensures
        walks(form("let"@, seq![p, x, body]), env, s, f + 1, vss.flatten(), s),
{
    form_names_are_bound();
    lemma_walked_form("let"@, seq![p, x, body], env, s, f);
    let items = seq![ExprV::Symbol("let"@)] + seq![p, x, body];
    lemma_let_values(vs, 0, Seq::empty(), items, env, s, f, vss);
    assert(vss.skip(0) =~= vss);
    assert(Seq::<AtomV>::empty() + vss.flatten() =~= vss.flatten());
}

/// Whether the branches of a condition have values: the first one for each result
/// that counts as true, and the second one for each other result.
pub open spec fn branches_walk(
    rs: ResultV,
    x: ExprV,
    y: ExprV,
    env: EnvV,
    s: WalkV,
    f: nat,
    vss: Seq<Seq<AtomV>>,
) -> bool {
    &&& rs.len() == vss.len()
    &&& forall|i: int|
        0 <= i < rs.len() ==> if counts_as_true((#[trigger] rs[i]).0) {
            walks(x, linked(rs[i].1, env), s, f, vss[i], s)
        } else {
            walks(y, env, s, f, vss[i], s)
        }
}

proof fn lemma_branches_walked(
    rs: ResultV,
    i: nat,
    before: Seq<AtomV>,
    items: Seq<ExprV>,
    env: EnvV,
    s: WalkV,
    f: nat,
    vss: Seq<Seq<AtomV>>,
)
    requires
        i <= rs.len(),
        items.len() == 4,
        branches_walk(rs, items[2], items[3], env, s, f, vss),
    ensures
        branches_walked(rs, i, before, items, env, s, f) == (
            Ok::<Seq<AtomV>, StopV>(before + vss.skip(i as int).flatten()),
            s,
        ),
    decreases rs.len() - i,
{
    let rest = vss.skip(i as int);
    if i < rs.len() {
        conditions_are_truth(rs[i as int].0);
        lemma_branches_walked(rs, i + 1, before + vss[i as int], items, env, s, f, vss);
        assert(rest.drop_first() =~= vss.skip(i as int + 1));
        assert(rest.first() == vss[i as int]);
        assert(before + rest.flatten() =~= before + vss[i as int] + vss.skip(
            i as int + 1,
        ).flatten());
    } else {
        assert(rest.flatten() =~= Seq::<AtomV>::empty());
        assert(before + rest.flatten() =~= before);
    }
}

/// `(if c x y)` has the values of `x` for each result of `c` that counts as true,
/// and those of `y` for each other one, in their order.
pub proof fn conditions_are_walked(
    c: ExprV,
    x: ExprV,
    y: ExprV,
    env: EnvV,
    s: WalkV,
    f: nat,
    rs: ResultV,
    vss: Seq<Seq<AtomV>>,
)
    requires
        constrained(c, env, s, f) == (Ok::<ResultV, StopV>(rs), s),
        branches_walk(rs, x, y, env, s, f, vss),
        !has_bindings(rs) || vss.flatten().len() <= 1,
    ensures
        walks(form("if"@, seq![c, x, y]), env, s, f + 1, vss.flatten(), s),
{
    form_names_are_bound();
    lemma_walked_form("if"@, seq![c, x, y], env, s, f);
    let items = seq![ExprV::Symbol("if"@)] + seq![c, x, y];
    lemma_branches_walked(rs, 0, Seq::empty(), items, env, s, f, vss);
    assert(vss.skip(0) =~= vss);
    assert(Seq::<AtomV>::empty() + vss.flatten() =~= vss.flatten());
}

proof fn lemma_args_walked(
    items: Seq<ExprV>,
    i: nat,
    name: Seq<char>,
    env: EnvV,
    s: WalkV,
    f: nat,
    xs: Seq<AtomV>,
)
    requires
        items.len() == xs.len() + 1,
        1 <= i <= items.len(),
        forall|k: int|
            1 <= k < items.len() ==> walks(
                #[trigger] items[k],
                env,
                s,
                f,
                seq![xs[k - 1]],
                s,
            ),
    ensures
        args_walked(items, i, name, xs.take(i - 1), env, s, f) == (
            Ok::<Seq<AtomV>, StopV>(xs),
            s,
        ),
    decreases items.len() - i,
{
    if i < items.len() {
        assert(walks(items[i as int], env, s, f, seq![xs[i - 1]], s));
        assert(xs.take(i - 1).push(xs[i - 1]) =~= xs.take(i as int));
        lemma_args_walked(items, i + 1, name, env, s, f, xs);
    } else {
        assert(xs.take(i - 1) =~= xs);
    }
}

/// Whether the clauses of a function have values for arguments: those of the body
/// of each clause that fits, and none for the others.
pub open spec fn clauses_walk(
    cs: Seq<ClauseV>,
    xs: Seq<AtomV>,
    env: EnvV,
    s: WalkV,
    f: nat,
    vss: Seq<Seq<AtomV>>,
) -> bool {
    &&& cs.len() == vss.len()
    &&& forall|i: int|
        0 <= i < cs.len() ==> {
            let r = clause_fit((#[trigger] cs[i]).patterns, xs, env, s, f);
            &&& r.1 == s
            &&& match r.0 {
                Ok(Some(e)) => walks(cs[i].body, e, s, f, vss[i], s),
                Ok(None) => vss[i] == Seq::<AtomV>::empty(),
                Err(_) => false,
            }
        }
}

/// The clauses that fit, with what they bind.
spec fn fitting(
    cs: Seq<ClauseV>,
    i: nat,
    xs: Seq<AtomV>,
    env: EnvV,
    s: WalkV,
    f: nat,
) -> Seq<FittingV>
    decreases cs.len() - i,
{
    if i >= cs.len() {
        Seq::empty()
    } else {
        let rest = fitting(cs, i + 1, xs, env, s, f);
        match clause_fit(cs[i as int].patterns, xs, env, s, f).0 {
            Ok(Some(e)) => seq![(e, cs[i as int].body)] + rest,
            _ => rest,
        }
    }
}

proof fn lemma_fitting(
    cs: Seq<ClauseV>,
    i: nat,
    xs: Seq<AtomV>,
    env: EnvV,
    before: Seq<FittingV>,
    s: WalkV,
    f: nat,
    vss: Seq<Seq<AtomV>>,
)
    requires
        clauses_walk(cs, xs, env, s, f, vss),
        i <= cs.len(),
    ensures
        clauses_fit(cs, i, xs, env, before, s, f) == (
            Ok::<Seq<FittingV>, StopV>(before + fitting(cs, i, xs, env, s, f)),
            s,
        ),
    decreases cs.len() - i,
{
    if i < cs.len() {
        let c = cs[i as int];
        let r = clause_fit(c.patterns, xs, env, s, f);
        assert(r.1 == s);
        let rest = fitting(cs, i + 1, xs, env, s, f);
        match r.0 {
            Ok(Some(e)) => {
                lemma_fitting(cs, i + 1, xs, env, before.push((e, c.body)), s, f, vss);
                assert(before.push((e, c.body)) + rest =~= before + (seq![(e, c.body)] + rest));
            },
            _ => {
                lemma_fitting(cs, i + 1, xs, env, before, s, f, vss);
            },
        }
    } else {
        assert(before + fitting(cs, i, xs, env, s, f) =~= before);
    }
}

proof fn lemma_bodies_walked(
    cs: Seq<ClauseV>,
    i: nat,
    xs: Seq<AtomV>,
    env: EnvV,
    bs: Seq<FittingV>,
    k: nat,
    before: Seq<AtomV>,
    s: WalkV,
    f: nat,
    vss: Seq<Seq<AtomV>>,
)
    requires
        clauses_walk(cs, xs, env, s, f, vss),
        i <= cs.len(),
        k <= bs.len(),
        bs.skip(k as int) == fitting(cs, i, xs, env, s, f),
    ensures
        bodies_walked(bs, k, before, s, f) == (
            Ok::<Seq<AtomV>, StopV>(before + vss.skip(i as int).flatten()),
            s,
        ),
    decreases cs.len() - i,
{
    let rest = vss.skip(i as int);
    if i < cs.len() {
        let c = cs[i as int];
        let r = clause_fit(c.patterns, xs, env, s, f);
        assert(r.1 == s);
        assert(rest.drop_first() =~= vss.skip(i as int + 1));
        assert(rest.first() == vss[i as int]);
        let more = vss.skip(i as int + 1).flatten();
        match r.0 {
            Ok(Some(e)) => {
                let left = bs.skip(k as int);
                assert(left.len() == bs.len() - k);
                assert(left.len() == 1 + fitting(cs, i + 1, xs, env, s, f).len());
                assert(left[0] == (e, c.body));
                assert(bs[k as int] == left[0]);
                assert(bs.skip(k as int + 1) =~= left.skip(1));
                assert(left.skip(1) =~= fitting(cs, i + 1, xs, env, s, f));
                lemma_bodies_walked(
                    cs,
                    i + 1,
                    xs,
                    env,
                    bs,
                    k + 1,
                    before + vss[i as int],
                    s,
                    f,
                    vss,
                );
                assert(before + rest.flatten() =~= before + vss[i as int] + more);
            },
            _ => {
                lemma_bodies_walked(cs, i + 1, xs, env, bs, k, before, s, f, vss);
                assert(before + rest.flatten() =~= before + more);
            },
        }
    } else {
        assert(bs.skip(k as int).len() == 0);
        assert(rest.flatten() =~= Seq::<AtomV>::empty());
        assert(before + rest.flatten() =~= before);
    }
}

/// A call of a defined function has the values of the bodies of all its clauses
/// that fit the values of the arguments, in the order of the clauses.
pub proof fn calls_are_walked_clause_by_clause(
    name: Seq<char>,
    args: Seq<ExprV>,
    env: EnvV,
    s: WalkV,
    f: nat,
    xs: Seq<AtomV>,
    cs: Seq<ClauseV>,
    vss: Seq<Seq<AtomV>>,
)
    requires
        walk_form(name) == WalkForm::Other,
        !is_var_name(name),
        args.len() == xs.len(),
        forall|k: int|
            0 <= k < args.len() ==> walks(#[trigger] args[k], env, s, f, seq![xs[k]], s),
        !s.t.natives.contains_key((name, args.len() as u8)),
        s.t.clauses_of(name, args.len() as u8) == Some(cs),
        clauses_walk(cs, xs, env, s, f, vss),
        vss.flatten().len() > 0,
    ensures
        walks(form(name, args), env, s, f + 1, vss.flatten(), s),
{
    lemma_walked_form(name, args, env, s, f);
    let items = seq![ExprV::Symbol(name)] + args;
    assert forall|k: int| 1 <= k < items.len() implies walks(
        #[trigger] items[k],
        env,
        s,
        f,
        seq![xs[k - 1]],
        s,
    ) by {
        assert(items[k] == args[k - 1]);
    }
    lemma_args_walked(items, 1, name, env, s, f, xs);
    assert(xs.take(0) =~= Seq::<AtomV>::empty());
    let none: Seq<FittingV> = Seq::empty();
    lemma_fitting(cs, 0, xs, env, none, s, f, vss);
    let bs = fitting(cs, 0, xs, env, s, f);
    assert(none + bs =~= bs);
    assert(bs.skip(0) =~= bs);
    lemma_bodies_walked(cs, 0, xs, env, bs, 0, Seq::empty(), s, f, vss);
    assert(vss.skip(0) =~= vss);
    assert(Seq::<AtomV>::empty() + vss.flatten() =~= vss.flatten());
    if bs.len() == 0 {
        assert(bodies_walked(bs, 0, Seq::empty(), s, f) == gives(s, Seq::empty()));
    }
    assert(function_walked(name, items, env, s, f) == (
        Ok::<Seq<AtomV>, StopV>(vss.flatten()),
        s,
    ));
    assert(call_or_data(items, env, s, f) == (Ok::<Seq<AtomV>, StopV>(vss.flatten()), s));
}

/// A call of a built-in function has the values that the function answers for the
/// values of its arguments, in their order.
pub proof fn built_in_calls_are_walked(
    name: Seq<char>,
    args: Seq<ExprV>,
    env: EnvV,
    s: WalkV,
    f: nat,
    xs: Seq<AtomV>,
    vs: Seq<AtomV>,
)
    requires
        walk_form(name) == WalkForm::Other,
        !is_var_name(name),
        args.len() == xs.len(),
        forall|k: int|
            0 <= k < args.len() ==> walks(#[trigger] args[k], env, s, f, seq![xs[k]], s),
        s.t.natives.contains_key((name, args.len() as u8)),
        called(s.t.natives[(name, args.len() as u8)], name, xs, s.t) == (
            AnswerV::Values(vs),
            s.t,
        ),
    ensures
        walks(form(name, args), env, s, f + 1, vs, s),
{
    lemma_walked_form(name, args, env, s, f);
    let items = seq![ExprV::Symbol(name)] + args;
    assert forall|k: int| 1 <= k < items.len() implies walks(
        #[trigger] items[k],
        env,
        s,
        f,
        seq![xs[k - 1]],
        s,
    ) by {
        assert(items[k] == args[k - 1]);
    }
    lemma_args_walked(items, 1, name, env, s, f, xs);
    assert(xs.take(0) =~= Seq::<AtomV>::empty());
    let b = s.t.natives[(name, args.len() as u8)];
    assert(with_table(s, s.t) == s);
    assert(native_walked(b, name, xs, s, f) == (Ok::<Seq<AtomV>, StopV>(vs), s));
    assert(function_walked(name, items, env, s, f) == (Ok::<Seq<AtomV>, StopV>(vs), s));
    assert(call_or_data(items, env, s, f) == (Ok::<Seq<AtomV>, StopV>(vs), s));
}

proof fn lemma_found_walked(
    found: Seq<FoundV>,
    i: nat,
    before: Seq<AtomV>,
    body: ExprV,
    env: EnvV,
    s: WalkV,
    f: nat,
    vss: Seq<Seq<AtomV>>,
)
    requires
        i <= found.len(),
        found.len() == vss.len(),
        forall|k: int|
            0 <= k < found.len() ==> walks(
                body,
                stacked((#[trigger] found[k]).1, env),
                s,
                f,
                vss[k],
                s,
            ),
    ensures
        found_walked(found, i, before, body, env, s, f) == (
            Ok::<Seq<AtomV>, StopV>(before + vss.skip(i as int).flatten()),
            s,
        ),
    decreases found.len() - i,
{
    let rest = vss.skip(i as int);
    if i < found.len() {
        assert(walks(body, stacked(found[i as int].1, env), s, f, vss[i as int], s));
        lemma_found_walked(found, i + 1, before + vss[i as int], body, env, s, f, vss);
        assert(rest.drop_first() =~= vss.skip(i as int + 1));
        assert(rest.first() == vss[i as int]);
        assert(before + rest.flatten() =~= before + vss[i as int] + vss.skip(
            i as int + 1,
        ).flatten());
    } else {
        assert(rest.flatten() =~= Seq::<AtomV>::empty());
        assert(before + rest.flatten() =~= before);
    }
}

/// `(match space pattern body)` has the values of the body for all that is found
/// in the program's own space, in the order in which it is found.
pub proof fn searches_are_walked_in_order(
    x: ExprV,
    p: ExprV,
    body: ExprV,
    env: EnvV,
    s: WalkV,
    f: nat,
    a: AtomV,
    vss: Seq<Seq<AtomV>>,
)
    requires
        walks(x, env, s, f, seq![a], s),
        body is List,
        ({
            let found = found_in(expr_filled(p, env), s.t.space("&self"@));
            &&& found.len() == vss.len()
            &&& forall|k: int|
                0 <= k < found.len() ==> walks(
                    body,
                    stacked((#[trigger] found[k]).1, env),
                    s,
                    f,
                    vss[k],
                    s,
                )
        }),
    ensures
        walks(form("match"@, seq![x, p, body]), env, s, f + 1, vss.flatten(), s),
{
    form_names_are_bound();
    lemma_walked_form("match"@, seq![x, p, body], env, s, f);
    assert(home() == "&self"@) by {
        reveal_strlit("&self");
        reveal_strlit("True");
        reveal_strlit("False");
        assert("&self"@.len() == 5 && "True"@.len() == 4 && "False"@.len() == 5);
        assert("&self"@[0] == '&' && "False"@[0] == 'F');
    }
    let found = found_in(expr_filled(p, env), s.t.space("&self"@));
    let items = seq![ExprV::Symbol("match"@)] + seq![x, p, body];
    lemma_found_walked(found, 0, Seq::empty(), body, env, s, f, vss);
    assert(vss.skip(0) =~= vss);
    assert(Seq::<AtomV>::empty() + vss.flatten() =~= vss.flatten());
    assert(space_walked("match"@, items, env, s, f) == (Ok::<AtomV, StopV>(a), s));
}

} // verus!
