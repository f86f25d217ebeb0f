//! Functions that get their arguments in several goes.
use crate::atom::AtomV;
use crate::atom::symbol;
use crate::builtins::collections::items_of;
use crate::compile::reify::to_expr;
use crate::compile::reify::to_exprs;
use crate::env::Binding;
use crate::env::EnvV;
use crate::env::bindings;
use crate::env::env_get;
use crate::env::extend_then_get;
use crate::eval::forms::query::env_cost;
use crate::func::ClauseV;
use crate::eval::machine::apply::option_values;
use crate::eval::machine::apply::some_empty;
use crate::eval::machine::budget::ResultV;
use crate::eval::machine::budget::capped;
use crate::eval::machine::budget::plain_results;
use crate::eval::machine::frame::ContV;
use crate::eval::machine::heads::completed_calls;
use crate::eval::machine::heads::flat;
use crate::eval::machine::heads::partial_parts;
use crate::eval::machine::heads::value_applied;
use crate::eval::machine::product::product_rows;
use crate::eval::machine::product::products;
use crate::eval::machine::resumed::ResumedV;
use crate::eval::machine::resumed::frame_then;
use crate::eval::machine::task::TaskV;
use crate::eval::machine::vm::call::clause_call;
use crate::eval::machine::vm::call::clause_calls;
use crate::eval::machine::vm::call::clause_codes;
use crate::eval::machine::vm::call::dispatched;
use crate::eval::machine::vm::call::is_partial;
use crate::eval::machine::vm::compiler::all_noted;
use crate::eval::machine::vm::compiler::noted;
use crate::eval::machine::vm::state::PendingV;
use crate::eval::shared::env::linked;
use crate::eval::shared::env::prepend_then_lookup;
use crate::eval::shared::pattern::KnownV;
use crate::eval::shared::pattern::MatchV;
use crate::eval::shared::pattern::match_all;
use crate::eval::shared::pattern::match_one;
use crate::expr::ExprV;
use crate::func::TableV;
use crate::text::first_index;
use crate::text::is_var_name;
use vstd::prelude::*;
use vstd::string::*;

verus! {

/// A function with some of its arguments.
pub open spec fn partial_value(f: AtomV, xs: Seq<AtomV>) -> AtomV {
    AtomV::Expr(seq![AtomV::Sym("partial"@), f, AtomV::Expr(xs)])
}

/// The mark of a function with some of its arguments is no truth value.
proof fn lemma_partial_mark()
    ensures
        symbol("partial"@) == AtomV::Sym("partial"@),
{
    reveal_strlit("partial");
    reveal_strlit("True");
    reveal_strlit("False");
    assert("partial"@.len() == 7 && "True"@.len() == 4 && "False"@.len() == 5);
}

/// Applying a function with some of its arguments to more arguments is applying
/// the function to all of them, the ones it had first.
pub proof fn arguments_may_come_in_two_goes(
    f: AtomV,
    xs: Seq<AtomV>,
    ys: Seq<AtomV>,
    arity: u8,
    env: EnvV,
    t: TableV,
    known: Seq<KnownV>,
)
    ensures
        dispatched(partial_value(f, xs), ys, arity, env, t, known) == dispatched(
            f,
            xs + ys,
            (xs + ys).len() as u8,
            env,
            t,
            known,
        ),
{
    lemma_partial_mark();
    let parts = seq![AtomV::Sym("partial"@), f, AtomV::Expr(xs)];
    assert(is_partial(parts));
    assert(items_of(parts[2]) == xs);
}

/// A function of more arguments that is applied to too few of them keeps them:
/// what comes out, applied to the missing ones, is the function applied to all.
pub proof fn missing_arguments_are_waited_for(
    name: Seq<char>,
    xs: Seq<AtomV>,
    ys: Seq<AtomV>,
    arity: u8,
    env: EnvV,
    t: TableV,
    known: Seq<KnownV>,
)
    requires
        xs.len() < 256,
        !t.natives.contains_key((name, xs.len() as u8)),
        !t.fns.contains_key((name, xs.len() as u8)),
        !t.pure_fns.contains((name, xs.len() as u8)),
        t.takes_more(name, xs.len() as int),
    ensures
        ({
            let d = dispatched(AtomV::Sym(name), xs, xs.len() as u8, env, t, known);
            &&& d.1 == t
            &&& d.0 is Results
            &&& d.0->Results_0.len() == 1
            &&& d.0->Results_0[0].1 == env
            &&& dispatched(d.0->Results_0[0].0, ys, arity, env, t, known) == dispatched(
                AtomV::Sym(name),
                xs + ys,
                (xs + ys).len() as u8,
                env,
                t,
                known,
            )
        }),
{
    lemma_partial_mark();
    arguments_may_come_in_two_goes(AtomV::Sym(name), xs, ys, arity, env, t, known);
}

/// A function of two arguments, defined by one clause with two variables, that
/// gets its arguments in two goes, binds the first variable to the argument that
/// came first and the second variable to the one that came second.
pub proof fn arguments_are_bound_in_order(
    name: Seq<char>,
    a: Seq<char>,
    b: Seq<char>,
    body: ExprV,
    x: AtomV,
    y: AtomV,
    arity: u8,
    env: EnvV,
    t: TableV,
    known: Seq<KnownV>,
)
    requires
        is_var_name(a),
        is_var_name(b),
        a != b,
        !t.natives.contains_key((name, 2u8)),
        !t.pure_fns.contains((name, 2u8)),
        t.clauses_of(name, 2) == Some(
            seq![ClauseV { patterns: seq![ExprV::Symbol(a), ExprV::Symbol(b)], body }],
        ),
    ensures
        ({
            let d = dispatched(
                partial_value(AtomV::Sym(name), seq![x]),
                seq![y],
                arity,
                env,
                t,
                known,
            );
            &&& d.1 == t
            &&& d.0 is Pending || d.0 is Fail
            &&& d.0 is Pending ==> {
                let p = d.0->Pending_0;
                &&& p.len() == 1
                &&& env_get(p[0].env, a) == Some(x)
                &&& env_get(p[0].env, b) == Some(y)
                &&& forall|n: Seq<char>|
                    n != a && n != b ==> #[trigger] env_get(p[0].env, n) == env_get(env, n)
                &&& p[0].locals == seq![(x, EnvV::Empty), (y, EnvV::Empty)]
            }
        }),
{
    let f = AtomV::Sym(name);
    arguments_may_come_in_two_goes(f, seq![x], seq![y], arity, env, t, known);
    let xs = seq![x] + seq![y];
    assert(xs =~= seq![x, y]);
    let pa = ExprV::Symbol(a);
    let pb = ExprV::Symbol(b);
    let ps = seq![pa, pb];
    let c = ClauseV { patterns: ps, body };
    let cs = seq![c];
    assert(cs.drop_last() =~= Seq::<ClauseV>::empty());
    assert(cs.last() == c);
    // The match.
    let none = EnvV::Empty;
    assert(ps.drop_last() =~= seq![pa]);
    assert(xs.drop_last() =~= seq![x]);
    assert(seq![pa].drop_last() =~= Seq::<ExprV>::empty());
    assert(seq![x].drop_last() =~= Seq::<AtomV>::empty());
    assert(match_all(Seq::empty(), Seq::empty(), none, known) == MatchV::Yes(none));
    assert(bindings(none) =~= Seq::<Binding>::empty());
    assert(env_get(none, a) is None);
    let e1 = EnvV::Cons(a, Box::new(x), Box::new(none));
    assert(match_one(pa, x, none, known) == MatchV::Yes(e1));
    assert(seq![pa].last() == pa && seq![x].last() == x);
    assert(match_all(seq![pa], seq![x], none, known) == MatchV::Yes(e1));
    extend_then_get(none, a, x, b);
    let e2 = EnvV::Cons(b, Box::new(y), Box::new(e1));
    assert(match_one(pb, y, e1, known) == MatchV::Yes(e2));
    assert(match_all(ps, xs, none, known) == MatchV::Yes(e2));
    let e = linked(e2, env);
    // What is bound.
    extend_then_get(e1, b, y, a);
    assert forall|n: Seq<char>| n != a && n != b implies #[trigger] env_get(e, n) == env_get(
        env,
        n,
    ) by {
        extend_then_get(none, a, x, n);
        extend_then_get(e1, b, y, n);
        prepend_then_lookup(e2, env, n);
    }
    prepend_then_lookup(e2, env, a);
    prepend_then_lookup(e2, env, b);
    // The call.
    match clause_codes(cs, name) {
        Ok(bs) => {
            assert(clause_calls(cs.drop_last(), bs, xs, env, known) == Ok::<
                Seq<PendingV>,
                (ExprV, EnvV),
            >(Seq::empty()));
            let cost = capped(env_cost(e2) as int);
            let p = clause_call(c, bs[0], e, cost);
            assert(clause_calls(cs, bs, xs, env, known)->Ok_0 =~= seq![p]);
            lemma_two_noted(a, b);
            assert(p.locals =~= seq![(x, EnvV::Empty), (y, EnvV::Empty)]);
        },
        Err(_) => {},
    }
}

/// The variables of two patterns that are variables.
pub proof fn lemma_two_noted(a: Seq<char>, b: Seq<char>)
    requires
        is_var_name(a),
        is_var_name(b),
        a != b,
    ensures
        all_noted(seq![ExprV::Symbol(a), ExprV::Symbol(b)], Seq::empty()) == seq![a, b],
{
    let pa = ExprV::Symbol(a);
    let pb = ExprV::Symbol(b);
    let none: Seq<Seq<char>> = Seq::empty();
    assert(seq![pa, pb].drop_last() =~= seq![pa]);
    assert(seq![pa].drop_last() =~= Seq::<ExprV>::empty());
    assert(all_noted(Seq::empty(), none) == none);
    assert(first_index(none, a) is None);
    assert(none.push(a) =~= seq![a]);
    assert(seq![pa].last() == pa && seq![pa, pb].last() == pb);
    assert(noted(pa, none) == seq![a]);
    assert(all_noted(seq![pa], none) == noted(pa, all_noted(seq![pa].drop_last(), none)));
    assert(all_noted(seq![pa], none) == seq![a]);
    assert(seq![a].drop_first() =~= none);
    assert(seq![a].drop_last() =~= none);
    assert(first_index(none, b) is None);
    assert(first_index(seq![a], b) is None);
    assert(seq![a].push(b) =~= seq![a, b]);
    assert(noted(pb, seq![a]) == seq![a, b]);
    assert(all_noted(seq![pa, pb], none) == noted(pb, all_noted(seq![pa, pb].drop_last(), none)));
}

/// Whether results are one value each.
pub open spec fn are_values(args: Seq<ResultV>, ys: Seq<AtomV>) -> bool {
    &&& args.len() == ys.len()
    &&& forall|i: int|
        0 <= i < args.len() ==> option_values(args)[i] == seq![ys[i]] && #[trigger] args[i].len()
            == 1
}

/// One value each makes one combination of values.
pub proof fn lemma_one_product(options: Seq<Seq<AtomV>>, ys: Seq<AtomV>)
    requires
        options.len() == ys.len(),
        forall|i: int| 0 <= i < options.len() ==> #[trigger] options[i] == seq![ys[i]],
    ensures
        products(options) == seq![ys],
        flat(options) == ys,
        !some_empty(options),
    decreases options.len(),
{
    if options.len() > 0 {
        let f = options.drop_last();
        assert forall|i: int| 0 <= i < f.len() implies #[trigger] f[i] == seq![
            ys.drop_last()[i],
        ] by {
            assert(f[i] == options[i]);
        }
        lemma_one_product(f, ys.drop_last());
        assert(options[options.len() - 1] == options.last());
        let cs = seq![ys.drop_last()];
        assert(cs.drop_last() =~= Seq::<Seq<AtomV>>::empty());
        assert(product_rows(cs.drop_last(), options.last()) =~= Seq::<Seq<AtomV>>::empty());
        assert(ys.drop_last().push(ys.last()) =~= ys);
        assert(products(options) =~= seq![ys]);
        assert(flat(options) =~= ys);
    } else {
        assert(ys =~= Seq::<AtomV>::empty());
        assert(products(options) =~= seq![ys]);
    }
}

/// In the continuation machine, too, a function with some of its arguments that
/// is applied to more calls the function with all of them, the ones it had
/// first; and a function that is applied to too few keeps them in their order.
pub proof fn partial_calls_are_completed_in_order(
    name: Seq<char>,
    xs: Seq<AtomV>,
    args: Seq<ResultV>,
    ys: Seq<AtomV>,
    t: TableV,
    known: Seq<KnownV>,
)
    requires
        are_values(args, ys),
    ensures
        value_applied(partial_value(AtomV::Sym(name), xs), args, t, known) == (
            Some(
                frame_then(
                    ContV::Bodies(
                        seq![
                            (
                                ExprV::List(
                                    seq![to_expr(AtomV::Sym(name))] + to_exprs(xs + ys),
                                ),
                                EnvV::Empty,
                            ),
                        ],
                        1,
                        Seq::empty(),
                        None,
                        false,
                    ),
                    TaskV::Run(
                        ExprV::List(seq![to_expr(AtomV::Sym(name))] + to_exprs(xs + ys)),
                        EnvV::Empty,
                    ),
                ),
            ),
            t,
        ),
        ({
            let n = ys.len() as u8;
            !t.natives.contains_key((name, n)) && !t.fns.contains_key((name, n)) && t.takes_more(
                name,
                ys.len() as int,
            ) ==> value_applied(AtomV::Sym(name), args, t, known) == (
                Some(ResumedV::Value(
                    plain_results(seq![partial_value(AtomV::Sym(name), ys)]),
                )),
                t,
            )
        }),
{
    lemma_partial_mark();
    let options = option_values(args);
    assert forall|i: int| 0 <= i < options.len() implies #[trigger] options[i] == seq![ys[i]] by {
        assert(args[i].len() == 1);
    }
    lemma_one_product(options, ys);
    let p = partial_value(AtomV::Sym(name), xs);
    assert(partial_parts(p) == Some((name, xs)));
    let bs = completed_calls(name, xs, products(options));
    assert(bs =~= seq![
        (ExprV::List(seq![to_expr(AtomV::Sym(name))] + to_exprs(xs + ys)), EnvV::Empty),
    ]);
}

} // verus!
