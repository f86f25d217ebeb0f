//! Loops over all values of an expression, and calls, in the continuation
//! machine.
use crate::atom::AtomV;
use crate::atom::symbol;
use crate::builtins::AnswerV;
use crate::builtins::called;
use crate::compile::reify::to_expr;
use crate::env::EnvV;
use crate::eval::machine::apply::all_raw_true;
use crate::eval::machine::apply::as_lists;
use crate::eval::machine::apply::first_raw;
use crate::eval::machine::apply::foldall_next;
use crate::eval::machine::apply::forall_next;
use crate::eval::machine::apply::option_values;
use crate::eval::machine::apply::some_empty;
use crate::eval::machine::budget::ResultV;
use crate::eval::machine::budget::plain_results;
use crate::eval::machine::budget::raw_atoms;
use crate::eval::machine::dispatch::Core;
use crate::eval::machine::dispatch::core_of;
use crate::eval::machine::dispatch::evals;
use crate::eval::machine::frame::ContV;
use crate::eval::machine::product::products;
use crate::eval::machine::resumed::NativesV;
use crate::eval::machine::resumed::ResumedV;
use crate::eval::machine::step::CekOutV;
use crate::eval::machine::step::CekWaitV;
use crate::eval::machine::step::frame_applied;
use crate::eval::machine::step::natives_with;
use crate::eval::machine::step::popped_applied;
use crate::eval::machine::step::with_wait;
use crate::eval::machine::task::TaskV;
use crate::eval::machine::vm::bodies::call_of_two;
use crate::eval::shared::env::linked;
use crate::eval::shared::pattern::all_ground;
use crate::expr::ExprV;
use crate::func::TableV;
use crate::laws::continuing::all_in;
use crate::laws::continuing::all_yield;
use crate::laws::continuing::cek;
use crate::laws::continuing::comes_to;
use crate::laws::continuing::has_values;
use crate::laws::continuing::lemma_moves_join;
use crate::laws::continuing::lemma_moves_run;
use crate::laws::continuing::lemma_moves_step;
use crate::laws::continuing::lemma_planned;
use crate::laws::continuing::lemma_resumed;
use crate::laws::continuing::lemma_turns;
use crate::laws::continuing::moves;
use crate::laws::continuing::turns;
use crate::laws::continuing::turns_of;
use crate::laws::continuing::yields;
use crate::laws::control::lemma_plain_atoms;
use crate::laws::currying::lemma_one_product;
use crate::laws::folding::accumulated;
use crate::laws::forms::core_names_are_bound;
use crate::laws::forms::form;
use crate::laws::forms::lemma_form;
use crate::laws::forms::lemma_waits;
use crate::laws::numbers::truth_atom;
use crate::laws::states::conditions_are_truth;
use crate::laws::states::counts_as_true;
use crate::text::is_var_name;
use vstd::prelude::*;

verus! {

/// Whether the calls of `foldall` have values.
pub open spec fn rounds_come_to(
    name: Seq<char>,
    acc: AtomV,
    vs: Seq<AtomV>,
    g: spec_fn(AtomV, AtomV) -> AtomV,
    env: EnvV,
    t: TableV,
) -> bool {
    forall|k: nat|
        k < vs.len() ==> has_values(
            ExprV::List(
                seq![
                    ExprV::Symbol(name),
                    to_expr(accumulated(acc, vs, g, k)),
                    to_expr(vs[k as int]),
                ],
            ),
            env,
            t,
            seq![#[trigger] accumulated(acc, vs, g, k + 1)],
        )
}

/// Results with one value.
proof fn lemma_first_value(rs: ResultV, a: AtomV)
    requires
        raw_atoms(rs) == seq![a],
    ensures
        rs.len() == 1,
        rs[0].0 == a,
        first_raw(rs) == Some(a),
{
    assert(raw_atoms(rs).len() == 1);
    assert(raw_atoms(rs)[0] == a);
}

proof fn lemma_rounds_go_on(
    w: Seq<TaskV>,
    v: Seq<ResultV>,
    name: Seq<char>,
    acc: AtomV,
    vs: Seq<AtomV>,
    g: spec_fn(AtomV, AtomV) -> AtomV,
    env: EnvV,
    t: TableV,
    k: nat,
)
    requires
        rounds_come_to(name, acc, vs, g, env, t),
        k < vs.len(),
        w.len() + v.len() + 2 <= 2_000_000,
    ensures
        ({
            let h = ExprV::Symbol(name);
            moves(
                cek(
                    w.push(TaskV::Apply(ContV::FoldallStep(h, env, vs, k + 1))).push(
                        TaskV::Run(
                            call_of_two(h, accumulated(acc, vs, g, k), vs[k as int]),
                            env,
                        ),
                    ),
                    v,
                ),
                t,
                cek(w, v.push(plain_results(seq![accumulated(acc, vs, g, vs.len())]))),
                t,
            )
        }),
    decreases vs.len() - k,
{
    let h = ExprV::Symbol(name);
    let next = accumulated(acc, vs, g, k + 1);
    let c = ContV::FoldallStep(h, env, vs, k + 1);
    let x = call_of_two(h, accumulated(acc, vs, g, k), vs[k as int]);
    let w1 = w.push(TaskV::Apply(c));
    let s = cek(w1.push(TaskV::Run(x, env)), v);
    assert(has_values(x, env, t, seq![next]));
    let rs = choose|rs: ResultV| #[trigger]
        comes_to(x, env, t, rs) && raw_atoms(rs) == seq![next];
    let last = plain_results(seq![next]);
    lemma_first_value(rs, next);
    lemma_moves_run(w1, v, x, env, t, rs);
    assert(v + seq![rs] =~= v.push(rs));
    lemma_resumed(w, v, c, seq![rs], t);
    assert(first_raw(rs) == Some(next));
    if k + 1 < vs.len() {
        let d = ContV::FoldallStep(h, env, vs, k + 2);
        let y = call_of_two(h, next, vs[k as int + 1]);
        let ts = seq![TaskV::Apply(d), TaskV::Run(y, env)];
        assert(foldall_next(h, env, vs, k + 1, next) == ResumedV::Tasks(ts));
        let s1 = cek(w.push(TaskV::Apply(d)).push(TaskV::Run(y, env)), v);
        assert(w + ts =~= s1.work);
        lemma_moves_join(s, t, cek(w1, v.push(rs)), t, s1, t);
        lemma_rounds_go_on(w, v, name, acc, vs, g, env, t, k + 1);
        lemma_moves_join(
            s,
            t,
            s1,
            t,
            cek(w, v.push(plain_results(seq![accumulated(acc, vs, g, vs.len())]))),
            t,
        );
    } else {
        lemma_moves_join(s, t, cek(w1, v.push(rs)), t, cek(w, v.push(last)), t);
    }
}

/// `(foldall f gen init)` takes all values of an expression in their order, and
/// calls the function with what there is so far first and the value second.
pub proof fn all_values_are_folded(
    func: ExprV,
    gen: ExprV,
    init: ExprV,
    env: EnvV,
    t: TableV,
    name: Seq<char>,
    vs: Seq<AtomV>,
    acc: AtomV,
    g: spec_fn(AtomV, AtomV) -> AtomV,
)
    requires
        has_values(gen, env, t, vs),
        has_values(init, env, t, seq![acc]),
        has_values(func, env, t, seq![AtomV::Sym(name)]),
        rounds_come_to(name, acc, vs, g, env, t),
    ensures
        yields(
            form("foldall"@, seq![func, gen, init]),
            env,
            t,
            plain_results(seq![accumulated(acc, vs, g, vs.len())]),
            4,
        ),
{
    core_names_are_bound();
    let args = seq![func, gen, init];
    let e = form("foldall"@, args);
    lemma_form("foldall"@, args, env, t);
    let c = ContV::FoldallInit(func, env);
    let last = plain_results(seq![accumulated(acc, vs, g, vs.len())]);
    let rg = choose|rs: ResultV| #[trigger] comes_to(gen, env, t, rs) && raw_atoms(rs) == vs;
    let ri = choose|rs: ResultV| #[trigger]
        comes_to(init, env, t, rs) && raw_atoms(rs) == seq![acc];
    let rf = choose|rs: ResultV| #[trigger]
        comes_to(func, env, t, rs) && raw_atoms(rs) == seq![AtomV::Sym(name)];
    lemma_first_value(ri, acc);
    lemma_first_value(rf, AtomV::Sym(name));
    assert(first_raw(ri) == Some(acc));
    assert(first_raw(rf) == Some(AtomV::Sym(name)));
    assert forall|w: Seq<TaskV>, v: Seq<ResultV>|
        #![trigger cek(w.push(TaskV::Eval(e, env)), v)]
        w.len() + v.len() + 4nat <= 2_000_000 implies moves(
        cek(w.push(TaskV::Eval(e, env)), v),
        t,
        cek(w, v.push(last)),
        t,
    ) by {
        let s = cek(w.push(TaskV::Eval(e, env)), v);
        let ts = seq![TaskV::Apply(c), TaskV::Run(init, env), TaskV::Run(gen, env)];
        lemma_planned(w, v, e, env, t, ts);
        let w1 = w.push(TaskV::Apply(c));
        let w2 = w1.push(TaskV::Run(init, env));
        assert(w + ts =~= w2.push(TaskV::Run(gen, env)));
        lemma_moves_run(w2, v, gen, env, t, rg);
        lemma_moves_join(s, t, cek(w + ts, v), t, cek(w2, v.push(rg)), t);
        lemma_moves_run(w1, v.push(rg), init, env, t, ri);
        let sets = seq![rg, ri];
        assert(v.push(rg).push(ri) =~= v + sets);
        lemma_moves_join(s, t, cek(w2, v.push(rg)), t, cek(w1, v + sets), t);
        lemma_resumed(w, v, c, sets, t);
        let d = ContV::FoldallFn(vs, acc, env);
        let us = seq![TaskV::Apply(d), TaskV::Run(func, env)];
        let w3 = w.push(TaskV::Apply(d));
        assert(w + us =~= w3.push(TaskV::Run(func, env)));
        lemma_moves_join(s, t, cek(w1, v + sets), t, cek(w + us, v), t);
        lemma_moves_run(w3, v, func, env, t, rf);
        lemma_moves_join(s, t, cek(w + us, v), t, cek(w3, v.push(rf)), t);
        assert(v + seq![rf] =~= v.push(rf));
        lemma_resumed(w, v, d, seq![rf], t);
        assert(accumulated(acc, vs, g, 0) == acc);
        if vs.len() == 0 {
            lemma_moves_join(s, t, cek(w3, v.push(rf)), t, cek(w, v.push(last)), t);
        } else {
            let h = ExprV::Symbol(name);
            let k = ContV::FoldallStep(h, env, vs, 1);
            let y = call_of_two(h, acc, vs[0]);
            let zs = seq![TaskV::Apply(k), TaskV::Run(y, env)];
            let s1 = cek(w.push(TaskV::Apply(k)).push(TaskV::Run(y, env)), v);
            assert(w + zs =~= s1.work);
            lemma_moves_join(s, t, cek(w3, v.push(rf)), t, s1, t);
            lemma_rounds_go_on(w, v, name, acc, vs, g, env, t, 0);
            lemma_moves_join(s, t, s1, t, cek(w, v.push(last)), t);
        }
    }
}

/// Whether checks of values have results.
pub open spec fn checks_come_to(
    name: Seq<char>,
    vs: Seq<AtomV>,
    cs: Seq<AtomV>,
    env: EnvV,
    t: TableV,
) -> bool {
    &&& vs.len() == cs.len()
    &&& forall|k: int|
        0 <= k < vs.len() ==> has_values(
            ExprV::List(seq![ExprV::Symbol(name), ExprV::Symbol("$__fv"@)]),
            EnvV::Cons("$__fv"@, Box::new(#[trigger] vs[k]), Box::new(env)),
            t,
            seq![cs[k]],
        )
}

/// Whether all atoms from a position on count as true.
pub open spec fn all_count(cs: Seq<AtomV>, k: nat) -> bool {
    forall|i: int| k <= i < cs.len() ==> counts_as_true(#[trigger] cs[i])
}

/// The symbols of the truth values.
pub proof fn lemma_truth_symbols()
    ensures
        symbol("true"@) == truth_atom(true),
        symbol("false"@) == truth_atom(false),
{
    reveal_strlit("True");
    reveal_strlit("False");
    reveal_strlit("true");
    reveal_strlit("false");
    assert("true"@[0] == 't' && "True"@[0] == 'T' && "false"@[0] == 'f' && "False"@[0] == 'F');
    assert("true"@.len() == 4 && "False"@.len() == 5 && "false"@.len() == 5 && "True"@.len() == 4);
}

proof fn lemma_checks_go_on(
    w: Seq<TaskV>,
    v: Seq<ResultV>,
    name: Seq<char>,
    vs: Seq<AtomV>,
    cs: Seq<AtomV>,
    env: EnvV,
    t: TableV,
    k: nat,
)
    requires
        checks_come_to(name, vs, cs, env, t),
        k < vs.len(),
        w.len() + v.len() + 2 <= 2_000_000,
    ensures
        ({
            let h = ExprV::Symbol(name);
            moves(
                cek(
                    w.push(
                        TaskV::Apply(ContV::ForallStep(h, EnvV::Empty, env, vs, k + 1)),
                    ).push(
                        TaskV::Run(
                            ExprV::List(seq![h, ExprV::Symbol("$__fv"@)]),
                            EnvV::Cons("$__fv"@, Box::new(vs[k as int]), Box::new(env)),
                        ),
                    ),
                    v,
                ),
                t,
                cek(w, v.push(plain_results(seq![truth_atom(all_count(cs, k))]))),
                t,
            )
        }),
    decreases vs.len() - k,
{
    let h = ExprV::Symbol(name);
    let c = ContV::ForallStep(h, EnvV::Empty, env, vs, k + 1);
    let x = ExprV::List(seq![h, ExprV::Symbol("$__fv"@)]);
    let e = EnvV::Cons("$__fv"@, Box::new(vs[k as int]), Box::new(env));
    let w1 = w.push(TaskV::Apply(c));
    let s = cek(w1.push(TaskV::Run(x, e)), v);
    assert(has_values(x, e, t, seq![cs[k as int]]));
    let rs = choose|rs: ResultV| #[trigger]
        comes_to(x, e, t, rs) && raw_atoms(rs) == seq![cs[k as int]];
    lemma_first_value(rs, cs[k as int]);
    let want = plain_results(seq![truth_atom(all_count(cs, k))]);
    lemma_moves_run(w1, v, x, e, t, rs);
    assert(v + seq![rs] =~= v.push(rs));
    lemma_resumed(w, v, c, seq![rs], t);
    conditions_are_truth(cs[k as int]);
    lemma_truth_symbols();
    assert(rs[0].0 == cs[k as int]);
    if counts_as_true(cs[k as int]) {
        assert(all_raw_true(rs));
        assert(all_count(cs, k) == all_count(cs, k + 1));
        if k + 1 < vs.len() {
            let d = ContV::ForallStep(h, EnvV::Empty, env, vs, k + 2);
            let e2 = EnvV::Cons("$__fv"@, Box::new(vs[k as int + 1]), Box::new(env));
            let ts = seq![TaskV::Apply(d), TaskV::Run(x, e2)];
            assert(linked(EnvV::Empty, e2) == e2);
            assert(forall_next(h, EnvV::Empty, env, vs, k + 1) == ResumedV::Tasks(ts));
            let s1 = cek(w.push(TaskV::Apply(d)).push(TaskV::Run(x, e2)), v);
            assert(w + ts =~= s1.work);
            lemma_moves_join(s, t, cek(w1, v.push(rs)), t, s1, t);
            lemma_checks_go_on(w, v, name, vs, cs, env, t, k + 1);
            lemma_moves_join(s, t, s1, t, cek(w, v.push(want)), t);
        } else {
            assert(all_count(cs, k));
            lemma_moves_join(s, t, cek(w1, v.push(rs)), t, cek(w, v.push(want)), t);
        }
    } else {
        assert(!all_raw_true(rs));
        assert(!all_count(cs, k));
        lemma_moves_join(s, t, cek(w1, v.push(rs)), t, cek(w, v.push(want)), t);
    }
}

/// `(forall gen check)` is true where the check of each value of an expression
/// counts as true, and false where that of some value does not.
pub proof fn all_values_are_checked(
    gen: ExprV,
    check: ExprV,
    env: EnvV,
    t: TableV,
    name: Seq<char>,
    vs: Seq<AtomV>,
    cs: Seq<AtomV>,
)
    requires
        has_values(gen, env, t, vs),
        has_values(check, env, t, seq![AtomV::Sym(name)]),
        checks_come_to(name, vs, cs, env, t),
    ensures
        yields(
            form("forall"@, seq![gen, check]),
            env,
            t,
            plain_results(
                seq![
                    truth_atom(
                        forall|i: int|
                            0 <= i < cs.len() ==> counts_as_true(#[trigger] cs[i]),
                    ),
                ],
            ),
            4,
        ),
{
    core_names_are_bound();
    lemma_truth_symbols();
    let args = seq![gen, check];
    let e = form("forall"@, args);
    lemma_form("forall"@, args, env, t);
    let c = ContV::ForallInit(env);
    let all = forall|i: int| 0 <= i < cs.len() ==> counts_as_true(#[trigger] cs[i]);
    assert(all == all_count(cs, 0));
    let want = plain_results(seq![truth_atom(all)]);
    let rg = choose|rs: ResultV| #[trigger] comes_to(gen, env, t, rs) && raw_atoms(rs) == vs;
    let rf = choose|rs: ResultV| #[trigger]
        comes_to(check, env, t, rs) && raw_atoms(rs) == seq![AtomV::Sym(name)];
    lemma_first_value(rf, AtomV::Sym(name));
    assert(first_raw(rf) == Some(AtomV::Sym(name)));
    assert forall|w: Seq<TaskV>, v: Seq<ResultV>|
        #![trigger cek(w.push(TaskV::Eval(e, env)), v)]
        w.len() + v.len() + 4nat <= 2_000_000 implies moves(
        cek(w.push(TaskV::Eval(e, env)), v),
        t,
        cek(w, v.push(want)),
        t,
    ) by {
        let s = cek(w.push(TaskV::Eval(e, env)), v);
        let ts = seq![TaskV::Apply(c), TaskV::Run(check, env), TaskV::Run(gen, env)];
        lemma_planned(w, v, e, env, t, ts);
        let w1 = w.push(TaskV::Apply(c));
        let w2 = w1.push(TaskV::Run(check, env));
        assert(w + ts =~= w2.push(TaskV::Run(gen, env)));
        lemma_moves_run(w2, v, gen, env, t, rg);
        lemma_moves_join(s, t, cek(w + ts, v), t, cek(w2, v.push(rg)), t);
        lemma_moves_run(w1, v.push(rg), check, env, t, rf);
        let sets = seq![rg, rf];
        assert(v.push(rg).push(rf) =~= v + sets);
        lemma_moves_join(s, t, cek(w2, v.push(rg)), t, cek(w1, v + sets), t);
        lemma_resumed(w, v, c, sets, t);
        if vs.len() == 0 {
            lemma_moves_join(s, t, cek(w1, v + sets), t, cek(w, v.push(want)), t);
        } else {
            let h = ExprV::Symbol(name);
            let k = ContV::ForallStep(h, EnvV::Empty, env, vs, 1);
            let x = ExprV::List(seq![h, ExprV::Symbol("$__fv"@)]);
            let e2 = EnvV::Cons("$__fv"@, Box::new(vs[0]), Box::new(env));
            assert(linked(EnvV::Empty, e2) == e2);
            let zs = seq![TaskV::Apply(k), TaskV::Run(x, e2)];
            let s1 = cek(w.push(TaskV::Apply(k)).push(TaskV::Run(x, e2)), v);
            assert(w + zs =~= s1.work);
            lemma_moves_join(s, t, cek(w1, v + sets), t, s1, t);
            lemma_checks_go_on(w, v, name, vs, cs, env, t, 0);
            lemma_moves_join(s, t, s1, t, cek(w, v.push(want)), t);
        }
    }
}

/// Whether each of several expressions has one value.
pub open spec fn each_yields(
    xs: Seq<ExprV>,
    env: EnvV,
    t: TableV,
    vs: Seq<AtomV>,
    room: nat,
) -> bool {
    &&& xs.len() == vs.len()
    &&& forall|i: int|
        0 <= i < xs.len() ==> yields(
            #[trigger] xs[i],
            env,
            t,
            plain_results(seq![vs[i]]),
            room,
        )
}

/// The result sets of one value each.
pub open spec fn single_sets(vs: Seq<AtomV>) -> Seq<ResultV> {
    Seq::new(vs.len(), |i: int| plain_results(seq![vs[i]]))
}

pub proof fn lemma_single_sets(xs: Seq<ExprV>, env: EnvV, t: TableV, vs: Seq<AtomV>, room: nat)
    requires
        each_yields(xs, env, t, vs, room),
        all_ground(vs),
    ensures
        all_yield(all_in(xs, env), t, single_sets(vs), room),
        products(option_values(single_sets(vs))) == seq![vs],
        !some_empty(option_values(single_sets(vs))),
{
    let sets = single_sets(vs);
    let bs = all_in(xs, env);
    assert forall|i: int| 0 <= i < bs.len() implies yields(
        (#[trigger] bs[i]).0,
        bs[i].1,
        t,
        sets[i],
        room,
    ) by {
        assert(bs[i].0 == xs[i]);
    }
    let options = option_values(sets);
    assert forall|i: int| 0 <= i < options.len() implies #[trigger] options[i] == seq![vs[i]] by {
        assert(all_ground(seq![vs[i]]));
        lemma_plain_atoms(seq![vs[i]]);
    }
    lemma_one_product(options, vs);
}

/// A list with a name in front that is no function is the list of the values of
/// its parts, in their order.
pub proof fn data_are_lists_of_values(
    name: Seq<char>,
    items: Seq<ExprV>,
    env: EnvV,
    t: TableV,
    vs: Seq<AtomV>,
    room: nat,
)
    requires
        items.len() > 0,
        items[0] == ExprV::Symbol(name),
        core_of(name) == Core::Other,
        !is_var_name(name),
        !t.natives.contains_key((name, (items.len() - 1) as u8)),
        t.clauses_of(name, (items.len() - 1) as u8) is None,
        !t.takes_more(name, items.len() - 1),
        each_yields(items, env, t, vs, room),
        all_ground(vs),
    ensures
        yields(
            ExprV::List(items),
            env,
            t,
            plain_results(seq![AtomV::Expr(vs)]),
            room + items.len() + 1,
        ),
{
    lemma_single_sets(items, env, t, vs, room);
    let bs = all_in(items, env);
    assert(evals(items, env) =~= turns_of(bs));
    assert(items.skip(1).len() == items.len() - 1);
    let out = plain_results(seq![AtomV::Expr(vs)]);
    let none: Seq<AtomV> = Seq::empty();
    assert(none + vs =~= vs);
    assert(as_lists(seq![vs], none) =~= seq![AtomV::Expr(vs)]);
    lemma_waits(
        ExprV::List(items),
        env,
        t,
        ContV::DataList(items.len()),
        bs,
        single_sets(vs),
        out,
        room,
    );
}

/// A call of a built-in function has the values that the function answers for the
/// values of its arguments, in their order.
pub proof fn built_in_functions_get_their_arguments(
    name: Seq<char>,
    args: Seq<ExprV>,
    env: EnvV,
    t: TableV,
    xs: Seq<AtomV>,
    vs: Seq<AtomV>,
    room: nat,
)
    requires
        core_of(name) == Core::Other,
        t.natives.contains_key((name, args.len() as u8)),
        each_yields(args, env, t, xs, room),
        all_ground(xs),
        called(t.natives[(name, args.len() as u8)], name, xs, t) == (AnswerV::Values(vs), t),
    ensures
        yields(
            ExprV::List(seq![ExprV::Symbol(name)] + args),
            env,
            t,
            plain_results(vs),
            room + args.len() + 1,
        ),
{
    lemma_single_sets(args, env, t, xs, room);
    let items = seq![ExprV::Symbol(name)] + args;
    let e = ExprV::List(items);
    assert(items.skip(1) =~= args);
    let bs = all_in(args, env);
    let sets = single_sets(xs);
    assert(evals(args, env) =~= turns_of(bs));
    let b = t.natives[(name, args.len() as u8)];
    let f = ContV::Call(crate::eval::machine::task::HeadV::Native(b, name), args.len(), None);
    assert forall|w: Seq<TaskV>, v: Seq<ResultV>|
        #![trigger cek(w.push(TaskV::Eval(e, env)), v)]
        w.len() + v.len() + (room + args.len() + 1) <= 2_000_000 implies moves(
        cek(w.push(TaskV::Eval(e, env)), v),
        t,
        cek(w, v.push(plain_results(vs))),
        t,
    ) by {
        let s = cek(w.push(TaskV::Eval(e, env)), v);
        let ts = seq![TaskV::Apply(f)] + turns_of(bs);
        lemma_planned(w, v, e, env, t, ts);
        let w1 = w.push(TaskV::Apply(f));
        assert(w + ts =~= w1 + turns_of(bs));
        lemma_turns(w1, v, bs, t, sets, room);
        lemma_moves_join(s, t, cek(w + ts, v), t, cek(w1, v + sets), t);
        let s1 = cek(w1, v + sets);
        let c = NativesV {
            builtin: b,
            name,
            combos: seq![xs],
            next: 0,
            out: Seq::empty(),
            lenient: true,
            error: None,
        };
        let none: Seq<Seq<char>> = Seq::empty();
        let s2 = with_wait(cek(w, v), CekWaitV::Natives(c));
        assert(turns(s1, t) == (CekOutV::Next, none, s2, t)) by {
            reveal(turns);
            let all = v + sets;
            assert(w1.drop_last() =~= w);
            assert(all.take(all.len() - sets.len()) =~= v);
            assert(all.skip(all.len() - sets.len()) =~= sets);
            assert(turns(s1, t) == popped_applied(s1, cek(w, all), t, f));
            assert(turns(s1, t) == frame_applied(s1, cek(w, v), t, f, sets));
        }
        lemma_moves_step(s1, t, s2, t);
        lemma_moves_join(s, t, s1, t, s2, t);
        let c2 = natives_with(c, vs);
        assert(c.out + vs =~= vs);
        let s3 = with_wait(cek(w, v), CekWaitV::Natives(c2));
        assert(turns(s2, t) == (CekOutV::Next, none, s3, t)) by {
            reveal(turns);
        }
        lemma_moves_step(s2, t, s3, t);
        lemma_moves_join(s, t, s2, t, s3, t);
        let s4 = cek(w, v.push(plain_results(vs)));
        assert(turns(s3, t) == (CekOutV::Next, none, s4, t)) by {
            reveal(turns);
        }
        lemma_moves_step(s3, t, s4, t);
        lemma_moves_join(s, t, s3, t, s4, t);
    }
}

} // verus!
