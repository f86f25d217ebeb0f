//! The results of the core forms in the continuation machine.
use crate::atom::AtomV;
use crate::atom::symbol;
use crate::compile::reify::to_expr;
use crate::env::EnvV;
use crate::env::env_get;
use crate::eval::machine::budget::ResultV;
use crate::eval::machine::budget::plain_results;
use crate::eval::machine::budget::result_atoms;
use crate::eval::machine::dispatch::Core;
use crate::eval::machine::dispatch::PlanV;
use crate::eval::machine::dispatch::core_of;
use crate::eval::machine::dispatch::core_plan;
use crate::eval::machine::dispatch::evals;
use crate::eval::machine::dispatch::expr_plan;
use crate::eval::machine::dispatch::one_task;
use crate::eval::machine::dispatch::then_frame;
use crate::eval::machine::frame::ContV;
use crate::eval::machine::resume::needs;
use crate::eval::machine::resume::resumed;
use crate::eval::machine::resumed::ResumedV;
use crate::eval::machine::task::TaskV;
use crate::eval::machine::vm::plain::all_joined;
use crate::eval::machine::vm::resume::first_only;
use crate::eval::shared::pattern::all_ground;
use crate::eval::shared::subst::atomized;
use crate::eval::shared::subst::substitution_of_ground;
use crate::expr::ExprV;
use crate::func::TableV;
use crate::laws::continuing::all_in;
use crate::laws::continuing::all_yield;
use crate::laws::continuing::cek;
use crate::laws::continuing::lemma_moves_join;
use crate::laws::continuing::lemma_planned;
use crate::laws::continuing::lemma_planned_value;
use crate::laws::continuing::lemma_resumed;
use crate::laws::continuing::lemma_turns;
use crate::laws::continuing::moves;
use crate::laws::continuing::turns_of;
use crate::laws::continuing::yields;
use crate::laws::meaning::lemma_ground_same;
use crate::numeric::NumV;
use crate::text::is_var_name;
use vstd::prelude::*;

verus! {

/// A form: a list with a name in front.
pub open spec fn form(name: Seq<char>, args: Seq<ExprV>) -> ExprV {
    ExprV::List(seq![ExprV::Symbol(name)] + args)
}

/// The names of the core forms.
pub proof fn core_names_are_bound()
    ensures
        core_of("cut"@) == Core::Cut,
        core_of("quote"@) == Core::Quote,
        core_of("call"@) == Core::Reduce,
        core_of("reduce"@) == Core::Reduce,
        core_of("eval"@) == Core::Eval,
        core_of("|->"@) == Core::Lambda,
        core_of("empty"@) == Core::Empty,
        core_of("import!"@) == Core::Import,
        core_of("import-rs!"@) == Core::ImportRs,
        core_of("println!"@) == Core::Println,
        core_of("readln!"@) == Core::Readln,
        core_of("foldall"@) == Core::Foldall,
        core_of("forall"@) == Core::Forall,
        core_of("foldl-atom"@) == Core::Foldl,
        core_of("if"@) == Core::If,
        core_of("case"@) == Core::Case,
        core_of("within"@) == Core::Within,
        core_of("collapse"@) == Core::Collapse,
        core_of("once"@) == Core::Once,
        core_of("superpose"@) == Core::Superpose,
        core_of("let"@) == Core::Let,
        core_of("let*"@) == Core::LetStar,
        core_of("chain"@) == Core::Chain,
        core_of("progn"@) == Core::Progn,
        core_of("prog1"@) == Core::Prog1,
        core_of("match"@) == Core::Match,
        core_of("transform"@) == Core::Transform,
        core_of("with_mutex"@) == Core::WithMutex,
        core_of("transaction"@) == Core::Transaction,
        core_of("add-atom"@) == Core::AddAtom,
        core_of("remove-atom"@) == Core::RemoveAtom,
{
    reveal_strlit("cut");
    reveal_strlit("quote");
    reveal_strlit("call");
    reveal_strlit("reduce");
    reveal_strlit("eval");
    reveal_strlit("|->");
    reveal_strlit("empty");
    reveal_strlit("import!");
    reveal_strlit("import-rs!");
    reveal_strlit("println!");
    reveal_strlit("readln!");
    reveal_strlit("foldall");
    reveal_strlit("forall");
    reveal_strlit("foldl-atom");
    reveal_strlit("if");
    reveal_strlit("case");
    reveal_strlit("within");
    reveal_strlit("collapse");
    reveal_strlit("once");
    reveal_strlit("superpose");
    reveal_strlit("let");
    reveal_strlit("let*");
    reveal_strlit("chain");
    reveal_strlit("progn");
    reveal_strlit("prog1");
    reveal_strlit("match");
    reveal_strlit("transform");
    reveal_strlit("with_mutex");
    reveal_strlit("transaction");
    reveal_strlit("add-atom");
    reveal_strlit("remove-atom");
    assert("cut"@.len() == 3);
    assert("quote"@.len() == 5);
    assert("call"@.len() == 4);
    assert("reduce"@.len() == 6);
    assert("eval"@.len() == 4);
    assert("|->"@.len() == 3);
    assert("empty"@.len() == 5);
    assert("import!"@.len() == 7);
    assert("import-rs!"@.len() == 10);
    assert("println!"@.len() == 8);
    assert("readln!"@.len() == 7);
    assert("foldall"@.len() == 7);
    assert("forall"@.len() == 6);
    assert("foldl-atom"@.len() == 10);
    assert("if"@.len() == 2);
    assert("case"@.len() == 4);
    assert("within"@.len() == 6);
    assert("collapse"@.len() == 8);
    assert("once"@.len() == 4);
    assert("superpose"@.len() == 9);
    assert("let"@.len() == 3);
    assert("let*"@.len() == 4);
    assert("chain"@.len() == 5);
    assert("progn"@.len() == 5);
    assert("prog1"@.len() == 5);
    assert("match"@.len() == 5);
    assert("transform"@.len() == 9);
    assert("with_mutex"@.len() == 10);
    assert("transaction"@.len() == 11);
    assert("add-atom"@.len() == 8);
    assert("remove-atom"@.len() == 11);
    assert("cut"@[0] == 'c');
    assert("|->"@[0] == '|');
    assert("let"@[0] == 'l');
    assert("quote"@[0] == 'q');
    assert("empty"@[0] == 'e');
    assert("chain"@[0] == 'c');
    assert("progn"@[0] == 'p');
    assert("prog1"@[0] == 'p');
    assert("match"@[0] == 'm');
    assert("call"@[0] == 'c');
    assert("eval"@[0] == 'e');
    assert("call"@[2] == 'l');
    assert("case"@[2] == 's');
    assert("once"@[0] == 'o');
    assert("let*"@[0] == 'l');
    assert("reduce"@[0] == 'r');
    assert("forall"@[0] == 'f');
    assert("within"@[0] == 'w');
    assert("case"@[0] == 'c');
    assert("import!"@[0] == 'i');
    assert("readln!"@[0] == 'r');
    assert("foldall"@[0] == 'f');
    assert("import-rs!"@[0] == 'i');
    assert("foldl-atom"@[0] == 'f');
    assert("with_mutex"@[0] == 'w');
    assert("println!"@[0] == 'p');
    assert("collapse"@[0] == 'c');
    assert("add-atom"@[0] == 'a');
    assert("superpose"@[0] == 's');
    assert("transform"@[0] == 't');
    assert("progn"@[4] == 'n');
    assert("prog1"@[4] == '1');
    assert("transaction"@[0] == 't');
    assert("remove-atom"@[0] == 'r');
}

/// How a core form is planned.
pub proof fn lemma_form(name: Seq<char>, args: Seq<ExprV>, env: EnvV, t: TableV)
    requires
        core_of(name) != Core::Other,
    ensures
        ({
            let items = seq![ExprV::Symbol(name)] + args;
            &&& expr_plan(form(name, args), env, t) == core_plan(core_of(name), items, env)
            &&& items.skip(1) == args
            &&& items[0] == ExprV::Symbol(name)
        }),
{
    let items = seq![ExprV::Symbol(name)] + args;
    assert(items.skip(1) =~= args);
}

/// The results of result sets, one after the other.
pub proof fn lemma_joined(rss: Seq<ResultV>)
    ensures
        all_joined(rss) == rss.flatten(),
    decreases rss.len(),
{
    lemma_joined_alt(rss);
    rss.lemma_flatten_and_flatten_alt_are_equivalent();
}

proof fn lemma_joined_alt(rss: Seq<ResultV>)
    ensures
        all_joined(rss) == rss.flatten_alt(),
    decreases rss.len(),
{
    if rss.len() > 0 {
        lemma_joined_alt(rss.drop_last());
    }
}

/// A form with a frame that waits for expressions.
pub proof fn lemma_waits(
    e: ExprV,
    env: EnvV,
    t: TableV,
    f: ContV,
    bs: Seq<(ExprV, EnvV)>,
    rss: Seq<ResultV>,
    out: ResultV,
    room: nat,
)
    requires
        expr_plan(e, env, t) == PlanV::Tasks(seq![TaskV::Apply(f)] + turns_of(bs)),
        all_yield(bs, t, rss, room),
        forall|have: nat| #[trigger] needs(f, have) == bs.len(),
        resumed(f, rss, t, Seq::empty()) == (
            ResumedV::Value(out),
            Seq::<Seq<char>>::empty(),
            t,
        ),
    ensures
        yields(e, env, t, out, room + bs.len() + 1),
{
    assert forall|w: Seq<TaskV>, v: Seq<ResultV>|
        #![trigger cek(w.push(TaskV::Eval(e, env)), v)]
        w.len() + v.len() + (room + bs.len() + 1) <= 2_000_000 implies moves(
        cek(w.push(TaskV::Eval(e, env)), v),
        t,
        cek(w, v.push(out)),
        t,
    ) by {
        let ts = seq![TaskV::Apply(f)] + turns_of(bs);
        let s = cek(w.push(TaskV::Eval(e, env)), v);
        lemma_planned(w, v, e, env, t, ts);
        let w1 = w.push(TaskV::Apply(f));
        assert(w + ts =~= w1 + turns_of(bs));
        lemma_turns(w1, v, bs, t, rss, room);
        lemma_moves_join(s, t, cek(w1 + turns_of(bs), v), t, cek(w1, v + rss), t);
        lemma_resumed(w, v, f, rss, t);
        lemma_moves_join(s, t, cek(w1, v + rss), t, cek(w, v.push(out)), t);
    }
}

/// `progn` has the results of its last form, and `prog1` those of its first one.
pub proof fn sequences_keep_one(
    xs: Seq<ExprV>,
    env: EnvV,
    t: TableV,
    rss: Seq<ResultV>,
    room: nat,
)
    requires
        xs.len() > 0,
        all_yield(all_in(xs, env), t, rss, room),
    ensures
        yields(form("progn"@, xs), env, t, rss[rss.len() - 1], room + xs.len() + 1),
        yields(form("prog1"@, xs), env, t, rss[0], room + xs.len() + 1),
{
    core_names_are_bound();
    let bs = all_in(xs, env);
    let n = xs.len();
    assert(evals(xs, env) =~= turns_of(bs));
    lemma_form("progn"@, xs, env, t);
    lemma_form("prog1"@, xs, env, t);
    lemma_waits(form("progn"@, xs), env, t, ContV::Progn(n), bs, rss, rss.last(), room);
    lemma_waits(form("prog1"@, xs), env, t, ContV::Prog1(n), bs, rss, rss[0], room);
}

/// A form with a frame that waits for one expression.
pub proof fn lemma_waits_one(
    e: ExprV,
    env: EnvV,
    t: TableV,
    f: ContV,
    x: ExprV,
    rs: ResultV,
    out: ResultV,
    room: nat,
)
    requires
        expr_plan(e, env, t) == then_frame(f, x, env),
        yields(x, env, t, rs, room),
        forall|have: nat| #[trigger] needs(f, have) == 1,
        resumed(f, seq![rs], t, Seq::empty()) == (
            ResumedV::Value(out),
            Seq::<Seq<char>>::empty(),
            t,
        ),
    ensures
        yields(e, env, t, out, room + 2),
{
    let bs = seq![(x, env)];
    assert(seq![TaskV::Apply(f)] + turns_of(bs) =~= seq![TaskV::Apply(f), TaskV::Eval(x, env)]);
    assert(all_yield(bs, t, seq![rs], room));
    lemma_waits(e, env, t, f, bs, seq![rs], out, room);
}

/// `once` keeps the first result, `collapse` makes one list of all values, and
/// `within` such a list with its own name in front.
pub proof fn results_are_kept_and_gathered(
    x: ExprV,
    env: EnvV,
    t: TableV,
    vs: Seq<AtomV>,
    room: nat,
)
    requires
        yields(x, env, t, plain_results(vs), room),
        all_ground(vs),
        vs.len() > 0,
    ensures
        yields(form("once"@, seq![x]), env, t, plain_results(seq![vs[0]]), room + 2),
        yields(form("collapse"@, seq![x]), env, t, plain_results(seq![AtomV::Expr(vs)]), room + 2),
        yields(
            form("within"@, seq![x]),
            env,
            t,
            plain_results(seq![AtomV::Expr(seq![AtomV::Sym("within"@)] + vs)]),
            room + 2,
        ),
{
    core_names_are_bound();
    let rs = plain_results(vs);
    lemma_form("once"@, seq![x], env, t);
    lemma_form("collapse"@, seq![x], env, t);
    lemma_form("within"@, seq![x], env, t);
    assert(result_atoms(rs) =~= vs) by {
        assert forall|i: int| 0 <= i < vs.len() implies #[trigger] result_atoms(rs)[i] == vs[i] by {
            lemma_ground_same(vs[i]);
            substitution_of_ground(vs[i], EnvV::Empty);
        }
    }
    assert(first_only(rs) =~= plain_results(seq![vs[0]]));
    assert(symbol("within"@) == AtomV::Sym("within"@)) by {
        reveal_strlit("within");
        reveal_strlit("True");
        reveal_strlit("False");
        assert("within"@.len() == 6 && "True"@.len() == 4 && "False"@.len() == 5);
    }
    lemma_waits_one(
        form("once"@, seq![x]),
        env,
        t,
        ContV::OnceCut,
        x,
        rs,
        plain_results(seq![vs[0]]),
        room,
    );
    lemma_waits_one(
        form("collapse"@, seq![x]),
        env,
        t,
        ContV::CollapseGather,
        x,
        rs,
        plain_results(seq![AtomV::Expr(vs)]),
        room,
    );
    lemma_waits_one(
        form("within"@, seq![x]),
        env,
        t,
        ContV::WithinWrap,
        x,
        rs,
        plain_results(seq![AtomV::Expr(seq![AtomV::Sym("within"@)] + vs)]),
        room,
    );
}

/// `superpose` of expressions has the results of all of them, in their order, and
/// `superpose` of one expression has the elements of the list that it gives.
pub proof fn alternatives_are_superposed(
    xs: Seq<ExprV>,
    x: ExprV,
    env: EnvV,
    t: TableV,
    rss: Seq<ResultV>,
    ys: Seq<AtomV>,
    room: nat,
)
    requires
        all_yield(all_in(xs, env), t, rss, room),
        rss.flatten().len() <= 1_000_000,
        !(x is List),
        yields(x, env, t, plain_results(seq![AtomV::Expr(ys)]), room),
    ensures
        yields(
            form("superpose"@, seq![ExprV::List(xs)]),
            env,
            t,
            rss.flatten(),
            room + xs.len() + 1,
        ),
        yields(form("superpose"@, seq![x]), env, t, plain_results(ys), room + 2),
{
    core_names_are_bound();
    let l = ExprV::List(xs);
    lemma_form("superpose"@, seq![l], env, t);
    lemma_form("superpose"@, seq![x], env, t);
    lemma_joined(rss);
    let e = form("superpose"@, seq![l]);
    if xs.len() == 0 {
        lemma_planned_value(e, env, t, Seq::empty());
        assert(rss.flatten() =~= ResultV::empty());
        lemma_more_room(e, env, t, Seq::empty(), 0, room + 1);
    } else {
        let bs = all_in(xs, env);
        assert(evals(xs, env) =~= turns_of(bs));
        lemma_waits(e, env, t, ContV::Gather(xs.len()), bs, rss, rss.flatten(), room);
    }
    lemma_waits_one(
        form("superpose"@, seq![x]),
        env,
        t,
        ContV::SuperposeUnpack,
        x,
        plain_results(seq![AtomV::Expr(ys)]),
        plain_results(ys),
        room,
    );
}

/// More room does no harm.
pub proof fn lemma_more_room(
    x: ExprV,
    env: EnvV,
    t: TableV,
    rs: ResultV,
    room: nat,
    more: nat,
)
    requires
        yields(x, env, t, rs, room),
        room <= more,
    ensures
        yields(x, env, t, rs, more),
{
    assert forall|w: Seq<TaskV>, v: Seq<ResultV>|
        #![trigger cek(w.push(TaskV::Eval(x, env)), v)]
        w.len() + v.len() + more <= 2_000_000 implies moves(
        cek(w.push(TaskV::Eval(x, env)), v),
        t,
        cek(w, v.push(rs)),
        t,
    ) by {
        assert(w.len() + v.len() + room <= 2_000_000);
    }
}

/// Literals, quoted forms and functions have one result, which is what they say,
/// and `empty` has none.
pub proof fn forms_stand_for_themselves(
    n: NumV,
    s: Seq<char>,
    x: ExprV,
    p: Seq<ExprV>,
    body: ExprV,
    env: EnvV,
    t: TableV,
)
    ensures
        yields(ExprV::Number(n), env, t, plain_results(seq![AtomV::Num(n)]), 0),
        yields(ExprV::Str(s), env, t, plain_results(seq![AtomV::Str(s)]), 0),
        is_var_name(s) && env_get(env, s) is Some ==> yields(
            ExprV::Symbol(s),
            env,
            t,
            plain_results(seq![env_get(env, s)->Some_0]),
            0,
        ),
        yields(form("quote"@, seq![x]), env, t, plain_results(seq![atomized(x, env)]), 0),
        yields(
            form("|->"@, seq![ExprV::List(p), body]),
            env,
            t,
            plain_results(seq![AtomV::Closure(p, body, Box::new(env))]),
            0,
        ),
        yields(form("empty"@, Seq::empty()), env, t, Seq::empty(), 0),
{
    core_names_are_bound();
    lemma_form("quote"@, seq![x], env, t);
    lemma_form("|->"@, seq![ExprV::List(p), body], env, t);
    lemma_form("empty"@, Seq::empty(), env, t);
    lemma_planned_value(ExprV::Number(n), env, t, plain_results(seq![AtomV::Num(n)]));
    lemma_planned_value(ExprV::Str(s), env, t, plain_results(seq![AtomV::Str(s)]));
    if is_var_name(s) && env_get(env, s) is Some {
        lemma_planned_value(
            ExprV::Symbol(s),
            env,
            t,
            plain_results(seq![env_get(env, s)->Some_0]),
        );
    }
    lemma_planned_value(form("quote"@, seq![x]), env, t, plain_results(seq![atomized(x, env)]));
    lemma_planned_value(
        form("|->"@, seq![ExprV::List(p), body]),
        env,
        t,
        plain_results(seq![AtomV::Closure(p, body, Box::new(env))]),
    );
    lemma_planned_value(form("empty"@, Seq::empty()), env, t, Seq::empty());
}

/// A form that is planned as the evaluation of one expression.
proof fn lemma_runs_one(
    e: ExprV,
    env: EnvV,
    t: TableV,
    x: ExprV,
    inner: EnvV,
    rs: ResultV,
    room: nat,
)
    requires
        expr_plan(e, env, t) == one_task(TaskV::Eval(x, inner)),
        yields(x, inner, t, rs, room),
    ensures
        yields(e, env, t, rs, room),
{
    assert forall|w: Seq<TaskV>, v: Seq<ResultV>|
        #![trigger cek(w.push(TaskV::Eval(e, env)), v)]
        w.len() + v.len() + room <= 2_000_000 implies moves(
        cek(w.push(TaskV::Eval(e, env)), v),
        t,
        cek(w, v.push(rs)),
        t,
    ) by {
        let s = cek(w.push(TaskV::Eval(e, env)), v);
        let ts = seq![TaskV::Eval(x, inner)];
        lemma_planned(w, v, e, env, t, ts);
        assert(w + ts =~= w.push(TaskV::Eval(x, inner)));
        assert(moves(cek(w.push(TaskV::Eval(x, inner)), v), t, cek(w, v.push(rs)), t));
        lemma_moves_join(s, t, cek(w + ts, v), t, cek(w, v.push(rs)), t);
    }
}

/// `call` and `reduce` have the results of their argument. `eval` has those of its
/// argument too, or, where that is a variable, of what the variable is bound to.
pub proof fn evaluated_forms_are_run(
    x: ExprV,
    name: Seq<char>,
    env: EnvV,
    t: TableV,
    rs: ResultV,
    room: nat,
)
    requires
        is_var_name(name),
    ensures
        yields(x, env, t, rs, room) ==> yields(form("call"@, seq![x]), env, t, rs, room)
            && yields(form("reduce"@, seq![x]), env, t, rs, room),
        yields(x, env, t, rs, room) && !(x is Symbol && is_var_name(x->Symbol_0)) ==> yields(
            form("eval"@, seq![x]),
            env,
            t,
            rs,
            room,
        ),
        env_get(env, name) matches Some(a) ==> !(a is Closure) && yields(
            to_expr(a),
            env,
            t,
            rs,
            room,
        ) ==> yields(form("eval"@, seq![ExprV::Symbol(name)]), env, t, rs, room),
{
    core_names_are_bound();
    lemma_form("call"@, seq![x], env, t);
    lemma_form("reduce"@, seq![x], env, t);
    lemma_form("eval"@, seq![x], env, t);
    let y = ExprV::Symbol(name);
    lemma_form("eval"@, seq![y], env, t);
    if yields(x, env, t, rs, room) {
        lemma_runs_one(form("call"@, seq![x]), env, t, x, env, rs, room);
        lemma_runs_one(form("reduce"@, seq![x]), env, t, x, env, rs, room);
        if !(x is Symbol && is_var_name(x->Symbol_0)) {
            lemma_runs_one(form("eval"@, seq![x]), env, t, x, env, rs, room);
        }
    }
    if let Some(a) = env_get(env, name) {
        if !(a is Closure) && yields(to_expr(a), env, t, rs, room) {
            lemma_runs_one(form("eval"@, seq![y]), env, t, to_expr(a), env, rs, room);
        }
    }
}

} // verus!
