//! What the depth and the answers of tree-walking evaluation decide.
//!
//! They decide only how far it comes: a result that does not come from a lack of
//! depth or of answers stays as it is when there is more of them.
use crate::atom::AtomV;
use crate::atom::affirms;
use crate::builtins::AnswerV;
use crate::builtins::LoopV;
use crate::builtins::called;
use crate::builtins::loops::LoopsOutV;
use crate::builtins::loops::first_of;
use crate::builtins::loops::loops_fed;
use crate::builtins::loops::loops_stepped;
use crate::compile::reify::to_expr;
use crate::env::EnvV;
use crate::env::env_get;
use crate::env::stacked;
use crate::eval::machine::apply::empty_clause;
use crate::eval::machine::budget::ComboV;
use crate::eval::machine::budget::ResultV;
use crate::eval::machine::budget::combos;
use crate::eval::machine::product::products;
use crate::eval::machine::vm::outcome::HostV;
use crate::eval::shared::env::linked;
use crate::eval::shared::subst::expr_filled;
use crate::eval::walker::HostAnswerV;
use crate::eval::walker::OutV;
use crate::eval::walker::StopV;
use crate::eval::walker::WalkV;
use crate::eval::walker::asked;
use crate::eval::walker::calls::args_walked;
use crate::eval::walker::calls::bodies_walked;
use crate::eval::walker::calls::call_or_data;
use crate::eval::walker::calls::closure_walked;
use crate::eval::walker::calls::firsts_walked;
use crate::eval::walker::calls::function_walked;
use crate::eval::walker::calls::loops_answered;
use crate::eval::walker::calls::loops_walked;
use crate::eval::walker::calls::native_walked;
use crate::eval::walker::constrain::accumulated;
use crate::eval::walker::constrain::constrained;
use crate::eval::walker::constrain::constrained_args;
use crate::eval::walker::constrain::constrained_bodies;
use crate::eval::walker::constrain::constrained_calls;
use crate::eval::walker::constrain::constrained_function;
use crate::eval::walker::constrain::constrained_target;
use crate::eval::walker::counted;
use crate::eval::walker::first_or;
use crate::eval::walker::folds::check_walked;
use crate::eval::walker::folds::foldall_walked;
use crate::eval::walker::folds::folded_from;
use crate::eval::walker::folds::forall_from;
use crate::eval::walker::folds::forall_walked;
use crate::eval::walker::folds::map_walked;
use crate::eval::walker::folds::mapped;
use crate::eval::walker::folds::mapped_from;
use crate::eval::walker::folds::raw_values;
use crate::eval::walker::forms::arguments;
use crate::eval::walker::forms::branches_walked;
use crate::eval::walker::forms::call_form_walked;
use crate::eval::walker::forms::case_walked;
use crate::eval::walker::forms::chain_from;
use crate::eval::walker::forms::chain_walked;
use crate::eval::walker::forms::clause_chosen;
use crate::eval::walker::forms::collapse_walked;
use crate::eval::walker::forms::eval_walked;
use crate::eval::walker::forms::if_walked;
use crate::eval::walker::forms::let_values;
use crate::eval::walker::forms::let_walked;
use crate::eval::walker::forms::progn_from;
use crate::eval::walker::forms::progn_walked;
use crate::eval::walker::forms::rewritten;
use crate::eval::walker::forms::spread;
use crate::eval::walker::forms::star_from;
use crate::eval::walker::forms::star_walked;
use crate::eval::walker::forms::superpose_walked;
use crate::eval::walker::generate::clause_generated;
use crate::eval::walker::generate::clauses_generated;
use crate::eval::walker::generate::concrete_args;
use crate::eval::walker::generate::generated;
use crate::eval::walker::generate::head_generated;
use crate::eval::walker::generate::is_free;
use crate::eval::walker::generate::natives_generated;
use crate::eval::walker::generate::offered;
use crate::eval::walker::generate::options_generated;
use crate::eval::walker::generate::params_bound;
use crate::eval::walker::generate::walked_or_generated;
use crate::eval::walker::gives;
use crate::eval::walker::hosted::python_args;
use crate::eval::walker::hosted::python_call;
use crate::eval::walker::hosted::python_name;
use crate::eval::walker::hosted::python_walked;
use crate::eval::walker::hosted::quoted_value;
use crate::eval::walker::lists::WalkForm;
use crate::eval::walker::lists::data_walked;
use crate::eval::walker::lists::item_walked;
use crate::eval::walker::lists::list_form;
use crate::eval::walker::lists::list_walked;
use crate::eval::walker::matching::FittingV;
use crate::eval::walker::matching::all_fit;
use crate::eval::walker::matching::clause_fit;
use crate::eval::walker::matching::clauses_fit;
use crate::eval::walker::matching::fit;
use crate::eval::walker::matching::lemma_weights;
use crate::eval::walker::matching::weight;
use crate::eval::walker::matching::weights;
use crate::eval::walker::queries::add_walked;
use crate::eval::walker::queries::found_walked;
use crate::eval::walker::queries::home;
use crate::eval::walker::queries::import_walked;
use crate::eval::walker::queries::match_walked;
use crate::eval::walker::queries::printed;
use crate::eval::walker::queries::printed_from;
use crate::eval::walker::queries::println_walked;
use crate::eval::walker::queries::remove_walked;
use crate::eval::walker::queries::space_walked;
use crate::eval::walker::queries::template;
use crate::eval::walker::walked;
use crate::eval::walker::with_line;
use crate::eval::walker::with_table;
use crate::expr::ExprV;
use crate::expr::expr_text;
use crate::func::Builtin;
use crate::func::ClauseV;
use crate::space::FoundV;
use crate::space::found_in;
use crate::text::is_var_name;
use vstd::prelude::*;

verus! {

/// The state with more answers of the host.
pub open spec fn extended(s: WalkV, more: Seq<HostAnswerV>) -> WalkV {
    WalkV { answers: s.answers + more, ..s }
}

/// Whether a result does not come from a lack of depth, nor of answers when there
/// are more.
pub open spec fn settled<T>(r: Result<T, StopV>, more: Seq<HostAnswerV>) -> bool {
    !(r is Err && (r->Err_0 is Deep || (r->Err_0 is Host && more.len() > 0)))
}

/// More answers do not change those that are there.
proof fn lemma_asked(h: HostV, s: WalkV, more: Seq<HostAnswerV>)
    ensures
        settled(asked(h, s).0, more) ==> asked(h, extended(s, more)) == (
            asked(h, s).0,
            extended(asked(h, s).1, more),
        ),
{
    if more.len() == 0 {
        assert(s.answers + more =~= s.answers);
    }
}

/// More depth and more answers change nothing in an expression.
proof fn stable_walked(
    x: ExprV,
    env: EnvV,
    s: WalkV,
    more: Seq<HostAnswerV>,
    f: nat,
    g: nat,
)
    requires
        f <= g,
    ensures
        settled(walked(x, env, s, f).0, more) ==> walked(x, env, extended(s, more), g) == (
            walked(x, env, s, f).0,
            extended(walked(x, env, s, f).1, more),
        ),
    decreases f, 0nat, 0nat, 0nat,
{
    if f > 0 {
        match x {
            ExprV::List(items) => {
                stable_list_walked(items, env, s, more, (f - 1) as nat, (g - 1) as nat);
            },
            _ => {},
        }
    }
}

/// More depth and more answers change nothing in matching a pattern.
proof fn stable_fit(
    p: ExprV,
    a: AtomV,
    env: EnvV,
    s: WalkV,
    more: Seq<HostAnswerV>,
    f: nat,
    g: nat,
)
    requires
        f <= g,
    ensures
        settled(fit(p, a, env, s, f).0, more) ==> fit(p, a, env, extended(s, more), g) == (
            fit(p, a, env, s, f).0,
            extended(fit(p, a, env, s, f).1, more),
        ),
    decreases f, 1nat, weight(p), 0nat,
{
    match p {
        ExprV::List(items) => match a {
            AtomV::Expr(elements) => {
                if items.len() == elements.len() {
                    stable_all_fit(items, elements, 0, env, s, more, f, g);
                }
            },
            AtomV::Sym(v) => {
                if is_var_name(v) {
                    stable_walked(p, env, s, more, f, g);
                }
            },
            _ => {},
        },
        _ => {},
    }
}

/// More depth and more answers change nothing in matching patterns.
proof fn stable_all_fit(
    ps: Seq<ExprV>,
    xs: Seq<AtomV>,
    i: nat,
    env: EnvV,
    s: WalkV,
    more: Seq<HostAnswerV>,
    f: nat,
    g: nat,
)
    requires
        f <= g,
    ensures
        settled(all_fit(ps, xs, i, env, s, f).0, more) ==> all_fit(ps, xs, i, env, extended(s, more), g) == (
            all_fit(ps, xs, i, env, s, f).0,
            extended(all_fit(ps, xs, i, env, s, f).1, more),
        ),
    decreases f, 1nat, weights(ps), ps.len() - i,
{
    if i < ps.len() && i < xs.len() {
        lemma_weights(ps, i as int);
        let o = fit(ps[i as int], xs[i as int], env, s, f);
        stable_fit(ps[i as int], xs[i as int], env, s, more, f, g);
        match o.0 {
            Ok(Some(e)) => {
                stable_all_fit(ps, xs, i + 1, e, o.1, more, f, g);
            },
            _ => {},
        }
    }
}

/// More depth and more answers change nothing in matching a clause.
proof fn stable_clause_fit(
    ps: Seq<ExprV>,
    xs: Seq<AtomV>,
    base: EnvV,
    s: WalkV,
    more: Seq<HostAnswerV>,
    f: nat,
    g: nat,
)
    requires
        f <= g,
    ensures
        settled(clause_fit(ps, xs, base, s, f).0, more) ==> clause_fit(ps, xs, base, extended(s, more), g) == (
            clause_fit(ps, xs, base, s, f).0,
            extended(clause_fit(ps, xs, base, s, f).1, more),
        ),
    decreases f, 2nat, 0nat, 0nat,
{
    if ps.len() == xs.len() {
        stable_all_fit(ps, xs, 0, EnvV::Empty, s, more, f, g);
    }
}

/// More depth and more answers change nothing in matching clauses.
proof fn stable_clauses_fit(
    cs: Seq<ClauseV>,
    i: nat,
    xs: Seq<AtomV>,
    base: EnvV,
    before: Seq<FittingV>,
    s: WalkV,
    more: Seq<HostAnswerV>,
    f: nat,
    g: nat,
)
    requires
        f <= g,
    ensures
        settled(clauses_fit(cs, i, xs, base, before, s, f).0, more) ==> clauses_fit(cs, i, xs, base, before, extended(s, more), g) == (
            clauses_fit(cs, i, xs, base, before, s, f).0,
            extended(clauses_fit(cs, i, xs, base, before, s, f).1, more),
        ),
    decreases f, 3nat, 0nat, cs.len() - i,
{
    if i < cs.len() {
        let o = clause_fit(cs[i as int].patterns, xs, base, s, f);
        stable_clause_fit(cs[i as int].patterns, xs, base, s, more, f, g);
        match o.0 {
            Err(_) => {},
            Ok(None) => {
                stable_clauses_fit(cs, i + 1, xs, base, before, o.1, more, f, g);
            },
            Ok(Some(e)) => {
                stable_clauses_fit(
                    cs,
                    i + 1,
                    xs,
                    base,
                    before.push((e, cs[i as int].body)),
                    o.1,
                    more,
                    f,
                    g,
                );
            },
        }
    }
}

/// More depth and more answers change nothing in an element of a list.
proof fn stable_item_walked(
    x: ExprV,
    env: EnvV,
    s: WalkV,
    more: Seq<HostAnswerV>,
    f: nat,
    g: nat,
)
    requires
        f <= g,
    ensures
        settled(item_walked(x, env, s, f).0, more) ==> item_walked(x, env, extended(s, more), g) == (
            item_walked(x, env, s, f).0,
            extended(item_walked(x, env, s, f).1, more),
        ),
    decreases f, 1nat, 0nat, 0nat,
{
    stable_walked(x, env, s, more, f, g);
}

/// More depth and more answers change nothing in a list of data.
proof fn stable_data_walked(
    items: Seq<ExprV>,
    i: nat,
    before: Seq<AtomV>,
    env: EnvV,
    s: WalkV,
    more: Seq<HostAnswerV>,
    f: nat,
    g: nat,
)
    requires
        f <= g,
    ensures
        settled(data_walked(items, i, before, env, s, f).0, more) ==> data_walked(items, i, before, env, extended(s, more), g) == (
            data_walked(items, i, before, env, s, f).0,
            extended(data_walked(items, i, before, env, s, f).1, more),
        ),
    decreases f, 2nat, 0nat, items.len() - i,
{
    if i < items.len() {
        let o = item_walked(items[i as int], env, s, f);
        stable_item_walked(items[i as int], env, s, more, f, g);
        if o.0 is Ok {
            stable_data_walked(items, i + 1, before.push(o.0->Ok_0), env, o.1, more, f, g);
        }
    }
}

/// More depth and more answers change nothing in arguments.
proof fn stable_args_walked(
    items: Seq<ExprV>,
    i: nat,
    name: Seq<char>,
    before: Seq<AtomV>,
    env: EnvV,
    s: WalkV,
    more: Seq<HostAnswerV>,
    f: nat,
    g: nat,
)
    requires
        f <= g,
    ensures
        settled(args_walked(items, i, name, before, env, s, f).0, more) ==> args_walked(items, i, name, before, env, extended(s, more), g) == (
            args_walked(items, i, name, before, env, s, f).0,
            extended(args_walked(items, i, name, before, env, s, f).1, more),
        ),
    decreases f, 1nat, 0nat, items.len() - i,
{
    if i < items.len() {
        let o = walked(items[i as int], env, s, f);
        stable_walked(items[i as int], env, s, more, f, g);
        if o.0 is Ok && o.0->Ok_0.len() > 0 {
            stable_args_walked(items, i + 1, name, before.push(o.0->Ok_0[0]), env, o.1, more, f, g);
        }
    }
}

/// More depth and more answers change nothing in the arguments of a closure.
proof fn stable_firsts_walked(
    items: Seq<ExprV>,
    i: nat,
    before: Seq<AtomV>,
    env: EnvV,
    s: WalkV,
    more: Seq<HostAnswerV>,
    f: nat,
    g: nat,
)
    requires
        f <= g,
    ensures
        settled(firsts_walked(items, i, before, env, s, f).0, more) ==> firsts_walked(items, i, before, env, extended(s, more), g) == (
            firsts_walked(items, i, before, env, s, f).0,
            extended(firsts_walked(items, i, before, env, s, f).1, more),
        ),
    decreases f, 1nat, 0nat, items.len() - i,
{
    if i < items.len() {
        let o = first_or(
            walked(items[i as int], env, s, f),
            counted("closure: argument "@, i + 1, " produced no results"@),
        );
        stable_walked(items[i as int], env, s, more, f, g);
        if o.0 is Ok {
            stable_firsts_walked(items, i + 1, before.push(o.0->Ok_0), env, o.1, more, f, g);
        }
    }
}

/// More depth and more answers change nothing in a closure.
proof fn stable_closure_walked(
    params: Seq<ExprV>,
    body: ExprV,
    inner: EnvV,
    args: Seq<ExprV>,
    env: EnvV,
    s: WalkV,
    more: Seq<HostAnswerV>,
    f: nat,
    g: nat,
)
    requires
        f <= g,
    ensures
        settled(closure_walked(params, body, inner, args, env, s, f).0, more) ==> closure_walked(params, body, inner, args, env, extended(s, more), g) == (
            closure_walked(params, body, inner, args, env, s, f).0,
            extended(closure_walked(params, body, inner, args, env, s, f).1, more),
        ),
    decreases f, 5nat, 0nat, 0nat,
{
    let o = firsts_walked(args, 0, Seq::empty(), env, s, f);
    stable_firsts_walked(args, 0, Seq::empty(), env, s, more, f, g);
    if o.0 is Ok {
        let m = clause_fit(params, o.0->Ok_0, inner, o.1, f);
        stable_clause_fit(params, o.0->Ok_0, inner, o.1, more, f, g);
        match m.0 {
            Ok(Some(e)) => {
                stable_walked(body, e, m.1, more, f, g);
            },
            _ => {},
        }
    }
}

/// More depth and more answers change nothing in loops.
proof fn stable_loops_walked(
    ls: Seq<LoopV>,
    s: WalkV,
    more: Seq<HostAnswerV>,
    f: nat,
    g: nat,
)
    requires
        f <= g,
    ensures
        settled(loops_walked(ls, s, f).0, more) ==> loops_walked(ls, extended(s, more), g) == (
            loops_walked(ls, s, f).0,
            extended(loops_walked(ls, s, f).1, more),
        ),
    decreases f, 0nat, 0nat, 0nat,
{
    if f > 0 {
        let a = (f - 1) as nat;
        let b = (g - 1) as nat;
        let (o, rest, after) = loops_stepped(ls, s.t);
        let s2 = with_table(s, after);
        match o {
            LoopsOutV::Go(lines) => {
                stable_loops_walked(rest, WalkV { lines: s2.lines + lines, ..s2 }, more, a, b);
            },
            LoopsOutV::Host(n, t, xs) => {
                lemma_asked(HostV::Native(n, t, xs), s2, more);
                stable_loops_answered(rest, asked(HostV::Native(n, t, xs), s2), more, a, b);
            },
            LoopsOutV::Run(e) => {
                stable_walked(e, EnvV::Empty, s2, more, a, b);
                stable_loops_answered(rest, walked(e, EnvV::Empty, s2, a), more, a, b);
            },
            _ => {},
        }
    }
}

/// More depth and more answers change nothing in loops that go on.
proof fn stable_loops_answered(
    ls: Seq<LoopV>,
    out: OutV,
    more: Seq<HostAnswerV>,
    f: nat,
    g: nat,
)
    requires
        f <= g,
    ensures
        settled(loops_answered(ls, out, f).0, more) ==> loops_answered(ls, (out.0, extended(out.1, more)), g) == (
            loops_answered(ls, out, f).0,
            extended(loops_answered(ls, out, f).1, more),
        ),
    decreases f, 1nat, 0nat, 0nat,
{
    match out.0 {
        Ok(vs) => match loops_fed(ls, first_of(vs)) {
            Ok(next) => {
                stable_loops_walked(next, out.1, more, f, g);
            },
            Err(_) => {},
        },
        Err(_) => {},
    }
}

/// More depth and more answers change nothing in a built-in function.
proof fn stable_native_walked(
    b: Builtin,
    name: Seq<char>,
    args: Seq<AtomV>,
    s: WalkV,
    more: Seq<HostAnswerV>,
    f: nat,
    g: nat,
)
    requires
        f <= g,
    ensures
        settled(native_walked(b, name, args, s, f).0, more) ==> native_walked(b, name, args, extended(s, more), g) == (
            native_walked(b, name, args, s, f).0,
            extended(native_walked(b, name, args, s, f).1, more),
        ),
    decreases f, 2nat, 0nat, 0nat,
{
    let (answer, after) = called(b, name, args, s.t);
    match answer {
        AnswerV::Loop(l) => {
            stable_loops_walked(seq![l], with_table(s, after), more, f, g);
        },
        AnswerV::Host(n, t, xs) => {
            lemma_asked(HostV::Native(n, t, xs), with_table(s, after), more);
        },
        _ => {},
    }
}

/// More depth and more answers change nothing in bodies.
proof fn stable_bodies_walked(
    bs: Seq<FittingV>,
    i: nat,
    before: Seq<AtomV>,
    s: WalkV,
    more: Seq<HostAnswerV>,
    f: nat,
    g: nat,
)
    requires
        f <= g,
    ensures
        settled(bodies_walked(bs, i, before, s, f).0, more) ==> bodies_walked(bs, i, before, extended(s, more), g) == (
            bodies_walked(bs, i, before, s, f).0,
            extended(bodies_walked(bs, i, before, s, f).1, more),
        ),
    decreases f, 1nat, 0nat, bs.len() - i,
{
    if i < bs.len() {
        let o = walked(bs[i as int].1, bs[i as int].0, s, f);
        stable_walked(bs[i as int].1, bs[i as int].0, s, more, f, g);
        if o.0 is Ok {
            stable_bodies_walked(bs, i + 1, before + o.0->Ok_0, o.1, more, f, g);
        }
    }
}

/// More depth and more answers change nothing in the call of a function.
proof fn stable_function_walked(
    name: Seq<char>,
    items: Seq<ExprV>,
    env: EnvV,
    s: WalkV,
    more: Seq<HostAnswerV>,
    f: nat,
    g: nat,
)
    requires
        f <= g,
    ensures
        settled(function_walked(name, items, env, s, f).0, more) ==> function_walked(name, items, env, extended(s, more), g) == (
            function_walked(name, items, env, s, f).0,
            extended(function_walked(name, items, env, s, f).1, more),
        ),
    decreases f, 6nat, 0nat, 0nat,
{
    let arity = (items.len() - 1) as u8;
    let o = args_walked(items, 1, name, Seq::empty(), env, s, f);
    stable_args_walked(items, 1, name, Seq::empty(), env, s, more, f, g);
    if o.0 is Ok {
        let args = o.0->Ok_0;
        if s.t.natives.contains_key((name, arity)) {
            stable_native_walked(s.t.natives[(name, arity)], name, args, o.1, more, f, g);
        } else {
            match s.t.clauses_of(name, arity) {
                Some(cs) => {
                    let m = clauses_fit(cs, 0, args, env, Seq::empty(), o.1, f);
                    stable_clauses_fit(cs, 0, args, env, Seq::empty(), o.1, more, f, g);
                    if m.0 is Ok {
                        stable_bodies_walked(m.0->Ok_0, 0, Seq::empty(), m.1, more, f, g);
                    }
                },
                None => {},
            }
        }
    }
}

/// More depth and more answers change nothing in a call or a list of data.
proof fn stable_call_or_data(
    items: Seq<ExprV>,
    env: EnvV,
    s: WalkV,
    more: Seq<HostAnswerV>,
    f: nat,
    g: nat,
)
    requires
        f <= g,
    ensures
        settled(call_or_data(items, env, s, f).0, more) ==> call_or_data(items, env, extended(s, more), g) == (
            call_or_data(items, env, s, f).0,
            extended(call_or_data(items, env, s, f).1, more),
        ),
    decreases f, 7nat, 0nat, 0nat,
{
    let arity = (items.len() - 1) as u8;
    if items[0] is Symbol && !is_var_name(items[0]->Symbol_0) {
        stable_function_walked(items[0]->Symbol_0, items, env, s, more, f, g);
        stable_data_walked(items, 0, Seq::empty(), env, s, more, f, g);
    } else {
        let o = first_or(
            walked(items[0], env, s, f),
            "expression produced no results in data list"@,
        );
        stable_walked(items[0], env, s, more, f, g);
        if o.0 is Ok {
            let op = o.0->Ok_0;
            stable_data_walked(items, 1, seq![op], env, o.1, more, f, g);
            match op {
                AtomV::Sym(name) => {
                    stable_function_walked(name, items, env, o.1, more, f, g);
                },
                AtomV::Closure(params, body, inner) => {
                    stable_closure_walked(
                        params,
                        body,
                        *inner,
                        items.skip(1),
                        env,
                        o.1,
                        more,
                        f,
                        g,
                    );
                },
                _ => {},
            }
        }
    }
}

/// More depth and more answers change nothing in arguments with bindings.
proof fn stable_constrained_args(
    items: Seq<ExprV>,
    i: nat,
    before: Seq<ResultV>,
    env: EnvV,
    s: WalkV,
    more: Seq<HostAnswerV>,
    f: nat,
    g: nat,
)
    requires
        f <= g,
    ensures
        settled(constrained_args(items, i, before, env, s, f).0, more) ==> constrained_args(items, i, before, env, extended(s, more), g) == (
            constrained_args(items, i, before, env, s, f).0,
            extended(constrained_args(items, i, before, env, s, f).1, more),
        ),
    decreases f, 1nat, 0nat, items.len() - i,
{
    if i < items.len() {
        let o = constrained(items[i as int], env, s, f);
        stable_constrained(items[i as int], env, s, more, f, g);
        if o.0 is Ok {
            stable_constrained_args(items, i + 1, before.push(o.0->Ok_0), env, o.1, more, f, g);
        }
    }
}

/// More depth and more answers change nothing in bodies with bindings.
proof fn stable_constrained_bodies(
    bs: Seq<FittingV>,
    i: nat,
    before: ResultV,
    args: EnvV,
    env: EnvV,
    s: WalkV,
    more: Seq<HostAnswerV>,
    f: nat,
    g: nat,
)
    requires
        f <= g,
    ensures
        settled(constrained_bodies(bs, i, before, args, env, s, f).0, more) ==> constrained_bodies(bs, i, before, args, env, extended(s, more), g) == (
            constrained_bodies(bs, i, before, args, env, s, f).0,
            extended(constrained_bodies(bs, i, before, args, env, s, f).1, more),
        ),
    decreases f, 1nat, 0nat, bs.len() - i,
{
    if i < bs.len() {
        let (m, body) = bs[i as int];
        let o = constrained(body, linked(m, env), s, f);
        stable_constrained(body, linked(m, env), s, more, f, g);
        if o.0 is Ok {
            stable_constrained_bodies(
                bs,
                i + 1,
                before + accumulated(o.0->Ok_0, m, args),
                args,
                env,
                o.1,
                more,
                f,
                g,
            );
        }
    }
}

/// More depth and more answers change nothing in calls with bindings.
proof fn stable_constrained_calls(
    cs: Seq<ClauseV>,
    cb: Seq<ComboV>,
    i: nat,
    before: ResultV,
    env: EnvV,
    s: WalkV,
    more: Seq<HostAnswerV>,
    f: nat,
    g: nat,
)
    requires
        f <= g,
    ensures
        settled(constrained_calls(cs, cb, i, before, env, s, f).0, more) ==> constrained_calls(cs, cb, i, before, env, extended(s, more), g) == (
            constrained_calls(cs, cb, i, before, env, s, f).0,
            extended(constrained_calls(cs, cb, i, before, env, s, f).1, more),
        ),
    decreases f, 4nat, 0nat, cb.len() - i,
{
    if i < cb.len() {
        let o = clauses_fit(cs, 0, cb[i as int].0, EnvV::Empty, Seq::empty(), s, f);
        stable_clauses_fit(cs, 0, cb[i as int].0, EnvV::Empty, Seq::empty(), s, more, f, g);
        if o.0 is Ok {
            let p = constrained_bodies(o.0->Ok_0, 0, before, cb[i as int].1, env, o.1, f);
            stable_constrained_bodies(
                o.0->Ok_0,
                0,
                before,
                cb[i as int].1,
                env,
                o.1,
                more,
                f,
                g,
            );
            if p.0 is Ok {
                stable_constrained_calls(cs, cb, i + 1, p.0->Ok_0, env, p.1, more, f, g);
            }
        }
    }
}

/// More depth and more answers change nothing in a function with bindings.
proof fn stable_constrained_function(
    cs: Seq<ClauseV>,
    items: Seq<ExprV>,
    inner: EnvV,
    env: EnvV,
    s: WalkV,
    more: Seq<HostAnswerV>,
    f: nat,
    g: nat,
)
    requires
        f <= g,
    ensures
        settled(constrained_function(cs, items, inner, env, s, f).0, more) ==> constrained_function(cs, items, inner, env, extended(s, more), g) == (
            constrained_function(cs, items, inner, env, s, f).0,
            extended(constrained_function(cs, items, inner, env, s, f).1, more),
        ),
    decreases f, 5nat, 0nat, 0nat,
{
    let o = constrained_args(items, 1, Seq::empty(), env, s, f);
    stable_constrained_args(items, 1, Seq::empty(), env, s, more, f, g);
    if o.0 is Ok {
        stable_constrained_calls(
            cs,
            combos(o.0->Ok_0),
            0,
            Seq::empty(),
            inner,
            o.1,
            more,
            f,
            g,
        );
    }
}

/// More depth and more answers change nothing in what bindings are kept for.
proof fn stable_constrained_target(
    items: Seq<ExprV>,
    env: EnvV,
    s: WalkV,
    more: Seq<HostAnswerV>,
    f: nat,
    g: nat,
)
    requires
        f <= g,
    ensures
        settled(constrained_target(items, env, s, f).0, more) ==> constrained_target(items, env, extended(s, more), g) == (
            constrained_target(items, env, s, f).0,
            extended(constrained_target(items, env, s, f).1, more),
        ),
    decreases f, 6nat, 0nat, 0nat,
{
    if items.len() > 0 {
        stable_walked(items[0], env, s, more, f, g);
    }
}

/// More depth and more answers change nothing in an expression with bindings.
proof fn stable_constrained(
    x: ExprV,
    env: EnvV,
    s: WalkV,
    more: Seq<HostAnswerV>,
    f: nat,
    g: nat,
)
    requires
        f <= g,
    ensures
        settled(constrained(x, env, s, f).0, more) ==> constrained(x, env, extended(s, more), g) == (
            constrained(x, env, s, f).0,
            extended(constrained(x, env, s, f).1, more),
        ),
    decreases f, 0nat, 0nat, 0nat,
{
    if f > 0 {
        let a = (f - 1) as nat;
        let b = (g - 1) as nat;
        stable_walked(x, env, s, more, a, b);
        match x {
            ExprV::List(items) => {
                let o = constrained_target(items, env, s, a);
                stable_constrained_target(items, env, s, more, a, b);
                match o.0 {
                    Ok(None) => {
                        stable_walked(x, env, o.1, more, a, b);
                    },
                    Ok(Some((cs, inner))) => {
                        let p = constrained_function(cs, items, inner, env, o.1, a);
                        stable_constrained_function(cs, items, inner, env, o.1, more, a, b);
                        if p.0 is Ok && p.0->Ok_0.len() == 0 {
                            stable_walked(x, env, p.1, more, a, b);
                        }
                    },
                    Err(_) => {},
                }
            },
            _ => {},
        }
    }
}

/// More depth and more answers change nothing in the parameters of a closure.
proof fn stable_params_bound(
    params: Seq<ExprV>,
    args: Seq<ExprV>,
    i: nat,
    inner: EnvV,
    env: EnvV,
    s: WalkV,
    more: Seq<HostAnswerV>,
    f: nat,
    g: nat,
)
    requires
        f <= g,
    ensures
        settled(params_bound(params, args, i, inner, env, s, f).0, more) ==> params_bound(params, args, i, inner, env, extended(s, more), g) == (
            params_bound(params, args, i, inner, env, s, f).0,
            extended(params_bound(params, args, i, inner, env, s, f).1, more),
        ),
    decreases f, 1nat, 0nat, params.len() - i,
{
    if i < params.len() && i < args.len() {
        if is_free(args[i as int], env) {
            stable_params_bound(params, args, i + 1, inner, env, s, more, f, g);
        } else {
            let o = walked(args[i as int], env, s, f);
            stable_walked(args[i as int], env, s, more, f, g);
            match o.0 {
                Ok(vs) => {
                    let next = if vs.len() > 0 && params[i as int] is Symbol {
                        EnvV::Cons(
                            params[i as int]->Symbol_0,
                            Box::new(vs[0]),
                            Box::new(inner),
                        )
                    } else {
                        inner
                    };
                    stable_params_bound(params, args, i + 1, next, env, o.1, more, f, g);
                },
                Err(StopV::Error(_)) => {
                    stable_params_bound(params, args, i + 1, inner, env, o.1, more, f, g);
                },
                Err(_) => {},
            }
        }
    }
}

/// More depth and more answers change nothing in values that may be generated.
proof fn stable_walked_or_generated(
    x: ExprV,
    env: EnvV,
    s: WalkV,
    more: Seq<HostAnswerV>,
    f: nat,
    g: nat,
)
    requires
        f <= g,
    ensures
        settled(walked_or_generated(x, env, s, f).0, more) ==> walked_or_generated(x, env, extended(s, more), g) == (
            walked_or_generated(x, env, s, f).0,
            extended(walked_or_generated(x, env, s, f).1, more),
        ),
    decreases f, 1nat, 0nat, 0nat,
{
    let o = walked(x, env, s, f);
    stable_walked(x, env, s, more, f, g);
    match o.0 {
        Err(StopV::Error(_)) => {
            stable_generated(x, env, o.1, more, f, g);
        },
        _ => {},
    }
}

/// More depth and more answers change nothing in arguments that may be
/// generated.
proof fn stable_options_generated(
    items: Seq<ExprV>,
    i: nat,
    before: Seq<Seq<AtomV>>,
    env: EnvV,
    s: WalkV,
    more: Seq<HostAnswerV>,
    f: nat,
    g: nat,
)
    requires
        f <= g,
    ensures
        settled(options_generated(items, i, before, env, s, f).0, more) ==> options_generated(items, i, before, env, extended(s, more), g) == (
            options_generated(items, i, before, env, s, f).0,
            extended(options_generated(items, i, before, env, s, f).1, more),
        ),
    decreases f, 2nat, 0nat, items.len() - i,
{
    if i < items.len() {
        let o = walked_or_generated(items[i as int], env, s, f);
        stable_walked_or_generated(items[i as int], env, s, more, f, g);
        if o.0 is Ok && o.0->Ok_0.len() > 0 {
            stable_options_generated(items, i + 1, before.push(o.0->Ok_0), env, o.1, more, f, g);
        }
    }
}

/// More depth and more answers change nothing in values of a built-in function
/// that are generated.
proof fn stable_natives_generated(
    b: Builtin,
    name: Seq<char>,
    cs: Seq<Seq<AtomV>>,
    i: nat,
    before: Seq<AtomV>,
    s: WalkV,
    more: Seq<HostAnswerV>,
    f: nat,
    g: nat,
)
    requires
        f <= g,
    ensures
        settled(natives_generated(b, name, cs, i, before, s, f).0, more) ==> natives_generated(b, name, cs, i, before, extended(s, more), g) == (
            natives_generated(b, name, cs, i, before, s, f).0,
            extended(natives_generated(b, name, cs, i, before, s, f).1, more),
        ),
    decreases f, 3nat, 0nat, cs.len() - i,
{
    if i < cs.len() {
        let o = native_walked(b, name, cs[i as int], s, f);
        stable_native_walked(b, name, cs[i as int], s, more, f, g);
        match o.0 {
            Ok(vs) => {
                stable_natives_generated(b, name, cs, i + 1, before + vs, o.1, more, f, g);
            },
            Err(StopV::Error(_)) => {
                stable_natives_generated(b, name, cs, i + 1, before, o.1, more, f, g);
            },
            Err(_) => {},
        }
    }
}

/// More depth and more answers change nothing in arguments for a clause.
proof fn stable_concrete_args(
    items: Seq<ExprV>,
    patterns: Seq<ExprV>,
    i: nat,
    before: Seq<AtomV>,
    free: bool,
    env: EnvV,
    s: WalkV,
    more: Seq<HostAnswerV>,
    f: nat,
    g: nat,
)
    requires
        f <= g,
    ensures
        settled(concrete_args(items, patterns, i, before, free, env, s, f).0, more) ==> concrete_args(items, patterns, i, before, free, env, extended(s, more), g) == (
            concrete_args(items, patterns, i, before, free, env, s, f).0,
            extended(concrete_args(items, patterns, i, before, free, env, s, f).1, more),
        ),
    decreases f, 1nat, 0nat, items.len() - i,
{
    if i + 1 < items.len() && i < patterns.len() {
        let x = items[i as int + 1];
        if is_free(x, env) {
            match offered(patterns[i as int]) {
                Some(a) => {
                    stable_concrete_args(
                        items,
                        patterns,
                        i + 1,
                        before.push(a),
                        true,
                        env,
                        s,
                        more,
                        f,
                        g,
                    );
                },
                None => {},
            }
        } else {
            let o = walked(x, env, s, f);
            stable_walked(x, env, s, more, f, g);
            if o.0 is Ok && o.0->Ok_0.len() > 0 {
                stable_concrete_args(
                    items,
                    patterns,
                    i + 1,
                    before.push(o.0->Ok_0[0]),
                    free,
                    env,
                    o.1,
                    more,
                    f,
                    g,
                );
            }
        }
    }
}

/// More depth and more answers change nothing in a clause for free variables.
proof fn stable_clause_generated(
    c: ClauseV,
    items: Seq<ExprV>,
    env: EnvV,
    s: WalkV,
    more: Seq<HostAnswerV>,
    f: nat,
    g: nat,
)
    requires
        f <= g,
    ensures
        settled(clause_generated(c, items, env, s, f).0, more) ==> clause_generated(c, items, env, extended(s, more), g) == (
            clause_generated(c, items, env, s, f).0,
            extended(clause_generated(c, items, env, s, f).1, more),
        ),
    decreases f, 3nat, 0nat, 0nat,
{
    if c.patterns.len() == items.len() - 1 {
        let o = concrete_args(items, c.patterns, 0, Seq::empty(), false, env, s, f);
        stable_concrete_args(items, c.patterns, 0, Seq::empty(), false, env, s, more, f, g);
        match o.0 {
            Ok(Some(p)) => {
                if p.1 {
                    let m = clause_fit(c.patterns, p.0, env, o.1, f);
                    stable_clause_fit(c.patterns, p.0, env, o.1, more, f, g);
                    match m.0 {
                        Ok(Some(e)) => {
                            stable_walked(c.body, e, m.1, more, f, g);
                        },
                        _ => {},
                    }
                }
            },
            _ => {},
        }
    }
}

/// More depth and more answers change nothing in clauses for free variables.
proof fn stable_clauses_generated(
    cs: Seq<ClauseV>,
    i: nat,
    items: Seq<ExprV>,
    before: Seq<AtomV>,
    env: EnvV,
    s: WalkV,
    more: Seq<HostAnswerV>,
    f: nat,
    g: nat,
)
    requires
        f <= g,
    ensures
        settled(clauses_generated(cs, i, items, before, env, s, f).0, more) ==> clauses_generated(cs, i, items, before, env, extended(s, more), g) == (
            clauses_generated(cs, i, items, before, env, s, f).0,
            extended(clauses_generated(cs, i, items, before, env, s, f).1, more),
        ),
    decreases f, 4nat, 0nat, cs.len() - i,
{
    if i < cs.len() {
        let o = clause_generated(cs[i as int], items, env, s, f);
        stable_clause_generated(cs[i as int], items, env, s, more, f, g);
        if o.0 is Ok {
            stable_clauses_generated(cs, i + 1, items, before + o.0->Ok_0, env, o.1, more, f, g);
        }
    }
}

/// More depth and more answers change nothing in a call whose head is known.
proof fn stable_head_generated(
    op: AtomV,
    items: Seq<ExprV>,
    env: EnvV,
    s: WalkV,
    more: Seq<HostAnswerV>,
    f: nat,
    g: nat,
)
    requires
        f <= g,
    ensures
        settled(head_generated(op, items, env, s, f).0, more) ==> head_generated(op, items, env, extended(s, more), g) == (
            head_generated(op, items, env, s, f).0,
            extended(head_generated(op, items, env, s, f).1, more),
        ),
    decreases f, 5nat, 0nat, 0nat,
{
    let arity = (items.len() - 1) as nat;
    match op {
        AtomV::Closure(params, body, inner) => {
            let o = params_bound(params, items.skip(1), 0, *inner, env, s, f);
            stable_params_bound(params, items.skip(1), 0, *inner, env, s, more, f, g);
            if o.0 is Ok {
                stable_walked_or_generated(body, o.0->Ok_0, o.1, more, f, g);
            }
        },
        AtomV::Sym(name) => {
            if s.t.natives.contains_key((name, arity as u8)) {
                let o = options_generated(items.skip(1), 0, Seq::empty(), env, s, f);
                stable_options_generated(items.skip(1), 0, Seq::empty(), env, s, more, f, g);
                match o.0 {
                    Ok(Some(options)) => {
                        stable_natives_generated(
                            s.t.natives[(name, arity as u8)],
                            name,
                            products(options),
                            0,
                            Seq::empty(),
                            o.1,
                            more,
                            f,
                            g,
                        );
                    },
                    _ => {},
                }
            } else {
                match s.t.clauses_of(name, arity as u8) {
                    Some(cs) => {
                        stable_clauses_generated(cs, 0, items, Seq::empty(), env, s, more, f, g);
                    },
                    None => {},
                }
            }
        },
        _ => {},
    }
}

/// More depth and more answers change nothing in values that are generated.
proof fn stable_generated(
    x: ExprV,
    env: EnvV,
    s: WalkV,
    more: Seq<HostAnswerV>,
    f: nat,
    g: nat,
)
    requires
        f <= g,
    ensures
        settled(generated(x, env, s, f).0, more) ==> generated(x, env, extended(s, more), g) == (
            generated(x, env, s, f).0,
            extended(generated(x, env, s, f).1, more),
        ),
    decreases f, 0nat, 0nat, 0nat,
{
    if f > 0 && x is List && x->List_0.len() > 0 {
        let a = (f - 1) as nat;
        let b = (g - 1) as nat;
        let items = x->List_0;
        let o = first_or(
            walked(items[0], env, s, a),
            "generator: operator produced no results"@,
        );
        stable_walked(items[0], env, s, more, a, b);
        if o.0 is Ok {
            stable_head_generated(o.0->Ok_0, items, env, o.1, more, a, b);
        }
    }
}

/// More depth and more answers change nothing in the branches of a
/// conditional.
proof fn stable_branches_walked(
    rs: ResultV,
    i: nat,
    before: Seq<AtomV>,
    items: Seq<ExprV>,
    env: EnvV,
    s: WalkV,
    more: Seq<HostAnswerV>,
    f: nat,
    g: nat,
)
    requires
        f <= g,
    ensures
        settled(branches_walked(rs, i, before, items, env, s, f).0, more) ==> branches_walked(rs, i, before, items, env, extended(s, more), g) == (
            branches_walked(rs, i, before, items, env, s, f).0,
            extended(branches_walked(rs, i, before, items, env, s, f).1, more),
        ),
    decreases f, 1nat, 0nat, rs.len() - i,
{
    if i < rs.len() {
        let o = if affirms(rs[i as int].0) {
            walked(items[2], linked(rs[i as int].1, env), s, f)
        } else if items.len() > 3 {
            walked(items[3], env, s, f)
        } else {
            gives(s, Seq::empty())
        };
        stable_walked(items[2], linked(rs[i as int].1, env), s, more, f, g);
        stable_walked(items[3], env, s, more, f, g);
        if o.0 is Ok {
            stable_branches_walked(rs, i + 1, before + o.0->Ok_0, items, env, o.1, more, f, g);
        }
    }
}

/// More depth and more answers change nothing in a conditional.
proof fn stable_if_walked(
    items: Seq<ExprV>,
    env: EnvV,
    s: WalkV,
    more: Seq<HostAnswerV>,
    f: nat,
    g: nat,
)
    requires
        f <= g,
    ensures
        settled(if_walked(items, env, s, f).0, more) ==> if_walked(items, env, extended(s, more), g) == (
            if_walked(items, env, s, f).0,
            extended(if_walked(items, env, s, f).1, more),
        ),
    decreases f, 8nat, 0nat, 0nat,
{
    let n = arguments(items);
    if 2 <= n <= 3 {
        let o = constrained(items[1], env, s, f);
        stable_constrained(items[1], env, s, more, f, g);
        if o.0 is Ok {
            stable_branches_walked(o.0->Ok_0, 0, Seq::empty(), items, env, o.1, more, f, g);
        }
    }
}

/// More depth and more answers change nothing in the rest of a sequence.
proof fn stable_progn_from(
    items: Seq<ExprV>,
    i: nat,
    last: Seq<AtomV>,
    env: EnvV,
    s: WalkV,
    more: Seq<HostAnswerV>,
    f: nat,
    g: nat,
)
    requires
        f <= g,
    ensures
        settled(progn_from(items, i, last, env, s, f).0, more) ==> progn_from(items, i, last, env, extended(s, more), g) == (
            progn_from(items, i, last, env, s, f).0,
            extended(progn_from(items, i, last, env, s, f).1, more),
        ),
    decreases f, 1nat, 0nat, items.len() - i,
{
    if i < items.len() {
        match rewritten(items, i) {
            Some(x) => {
                stable_walked(x, env, s, more, f, g);
            },
            None => {
                let o = walked(items[i as int], env, s, f);
                stable_walked(items[i as int], env, s, more, f, g);
                if o.0 is Ok {
                    stable_progn_from(items, i + 1, o.0->Ok_0, env, o.1, more, f, g);
                }
            },
        }
    }
}

/// More depth and more answers change nothing in a sequence.
proof fn stable_progn_walked(
    items: Seq<ExprV>,
    env: EnvV,
    s: WalkV,
    more: Seq<HostAnswerV>,
    f: nat,
    g: nat,
)
    requires
        f <= g,
    ensures
        settled(progn_walked(items, env, s, f).0, more) ==> progn_walked(items, env, extended(s, more), g) == (
            progn_walked(items, env, s, f).0,
            extended(progn_walked(items, env, s, f).1, more),
        ),
    decreases f, 8nat, 0nat, 0nat,
{
    stable_progn_from(items, 1, Seq::empty(), env, s, more, f, g);
}

/// More depth and more answers change nothing in the values of a binding.
proof fn stable_let_values(
    vs: Seq<AtomV>,
    i: nat,
    before: Seq<AtomV>,
    items: Seq<ExprV>,
    env: EnvV,
    s: WalkV,
    more: Seq<HostAnswerV>,
    f: nat,
    g: nat,
)
    requires
        f <= g,
    ensures
        settled(let_values(vs, i, before, items, env, s, f).0, more) ==> let_values(vs, i, before, items, env, extended(s, more), g) == (
            let_values(vs, i, before, items, env, s, f).0,
            extended(let_values(vs, i, before, items, env, s, f).1, more),
        ),
    decreases f, 8nat, 0nat, vs.len() - i,
{
    if i < vs.len() {
        let o = fit(items[1], vs[i as int], EnvV::Empty, s, f);
        stable_fit(items[1], vs[i as int], EnvV::Empty, s, more, f, g);
        match o.0 {
            Err(StopV::Error(_)) => {
                stable_let_values(vs, i + 1, before, items, env, o.1, more, f, g);
            },
            Err(_) => {},
            Ok(None) => {
                stable_let_values(vs, i + 1, before, items, env, o.1, more, f, g);
            },
            Ok(Some(e)) => {
                let p = walked(items[3], linked(e, env), o.1, f);
                stable_walked(items[3], linked(e, env), o.1, more, f, g);
                match p.0 {
                    Ok(ws) => {
                        stable_let_values(vs, i + 1, before + ws, items, env, p.1, more, f, g);
                    },
                    Err(StopV::Error(m)) => {
                        stable_let_values(
                            vs,
                            i + 1,
                            before,
                            items,
                            env,
                            with_line(p.1, "DEBUG eval_let error: "@ + m),
                            more,
                            f,
                            g,
                        );
                    },
                    Err(_) => {},
                }
            },
        }
    }
}

/// More depth and more answers change nothing in a binding.
proof fn stable_let_walked(
    items: Seq<ExprV>,
    env: EnvV,
    s: WalkV,
    more: Seq<HostAnswerV>,
    f: nat,
    g: nat,
)
    requires
        f <= g,
    ensures
        settled(let_walked(items, env, s, f).0, more) ==> let_walked(items, env, extended(s, more), g) == (
            let_walked(items, env, s, f).0,
            extended(let_walked(items, env, s, f).1, more),
        ),
    decreases f, 9nat, 0nat, 0nat,
{
    if arguments(items) == 3 {
        let o = walked(items[2], env, s, f);
        stable_walked(items[2], env, s, more, f, g);
        if o.0 is Ok {
            stable_let_values(o.0->Ok_0, 0, Seq::empty(), items, env, o.1, more, f, g);
        }
    }
}

/// More depth and more answers change nothing in the rest of a list of
/// bindings.
proof fn stable_star_from(
    bs: Seq<ExprV>,
    i: nat,
    body: ExprV,
    env: EnvV,
    s: WalkV,
    more: Seq<HostAnswerV>,
    f: nat,
    g: nat,
)
    requires
        f <= g,
    ensures
        settled(star_from(bs, i, body, env, s, f).0, more) ==> star_from(bs, i, body, env, extended(s, more), g) == (
            star_from(bs, i, body, env, s, f).0,
            extended(star_from(bs, i, body, env, s, f).1, more),
        ),
    decreases f, 8nat, 0nat, bs.len() - i,
{
    stable_walked(body, env, s, more, f, g);
    if i < bs.len() {
        let b = bs[i as int];
        if b is List && b->List_0.len() == 2 {
            let p = b->List_0[0];
            let o = first_or(
                walked(b->List_0[1], env, s, f),
                "let*: binding "@ + expr_text(p) + " produced no value"@,
            );
            stable_walked(b->List_0[1], env, s, more, f, g);
            if o.0 is Ok {
                let m = fit(p, o.0->Ok_0, EnvV::Empty, o.1, f);
                stable_fit(p, o.0->Ok_0, EnvV::Empty, o.1, more, f, g);
                match m.0 {
                    Ok(Some(e)) => {
                        stable_star_from(bs, i + 1, body, linked(e, env), m.1, more, f, g);
                    },
                    _ => {},
                }
            }
        }
    }
}

/// More depth and more answers change nothing in a list of bindings.
proof fn stable_star_walked(
    items: Seq<ExprV>,
    env: EnvV,
    s: WalkV,
    more: Seq<HostAnswerV>,
    f: nat,
    g: nat,
)
    requires
        f <= g,
    ensures
        settled(star_walked(items, env, s, f).0, more) ==> star_walked(items, env, extended(s, more), g) == (
            star_walked(items, env, s, f).0,
            extended(star_walked(items, env, s, f).1, more),
        ),
    decreases f, 9nat, 0nat, 0nat,
{
    if arguments(items) == 2 {
        match items[1] {
            ExprV::List(bs) => {
                stable_star_from(bs, 0, items[2], env, s, more, f, g);
            },
            _ => {},
        }
    }
}

/// More depth and more answers change nothing in a call by form.
proof fn stable_call_form_walked(
    items: Seq<ExprV>,
    env: EnvV,
    s: WalkV,
    more: Seq<HostAnswerV>,
    f: nat,
    g: nat,
)
    requires
        f <= g,
    ensures
        settled(call_form_walked(items, env, s, f).0, more) ==> call_form_walked(items, env, extended(s, more), g) == (
            call_form_walked(items, env, s, f).0,
            extended(call_form_walked(items, env, s, f).1, more),
        ),
    decreases f, 8nat, 0nat, 0nat,
{
    stable_walked(items[1], env, s, more, f, g);
}

/// More depth and more answers change nothing in code that is evaluated.
proof fn stable_eval_walked(
    items: Seq<ExprV>,
    env: EnvV,
    s: WalkV,
    more: Seq<HostAnswerV>,
    f: nat,
    g: nat,
)
    requires
        f <= g,
    ensures
        settled(eval_walked(items, env, s, f).0, more) ==> eval_walked(items, env, extended(s, more), g) == (
            eval_walked(items, env, s, f).0,
            extended(eval_walked(items, env, s, f).1, more),
        ),
    decreases f, 8nat, 0nat, 0nat,
{
    stable_walked(items[1], env, s, more, f, g);
    match items[1] {
        ExprV::Symbol(name) => match env_get(env, name) {
            Some(a) => {
                stable_walked(to_expr(a), env, s, more, f, g);
            },
            None => {},
        },
        _ => {},
    }
}

/// More depth and more answers change nothing in alternatives.
proof fn stable_spread(
    xs: Seq<ExprV>,
    i: nat,
    before: Seq<AtomV>,
    env: EnvV,
    s: WalkV,
    more: Seq<HostAnswerV>,
    f: nat,
    g: nat,
)
    requires
        f <= g,
    ensures
        settled(spread(xs, i, before, env, s, f).0, more) ==> spread(xs, i, before, env, extended(s, more), g) == (
            spread(xs, i, before, env, s, f).0,
            extended(spread(xs, i, before, env, s, f).1, more),
        ),
    decreases f, 1nat, 0nat, xs.len() - i,
{
    if i < xs.len() {
        let o = walked(xs[i as int], env, s, f);
        stable_walked(xs[i as int], env, s, more, f, g);
        if o.0 is Ok {
            stable_spread(xs, i + 1, before + o.0->Ok_0, env, o.1, more, f, g);
        }
    }
}

/// More depth and more answers change nothing in a superposition.
proof fn stable_superpose_walked(
    items: Seq<ExprV>,
    env: EnvV,
    s: WalkV,
    more: Seq<HostAnswerV>,
    f: nat,
    g: nat,
)
    requires
        f <= g,
    ensures
        settled(superpose_walked(items, env, s, f).0, more) ==> superpose_walked(items, env, extended(s, more), g) == (
            superpose_walked(items, env, s, f).0,
            extended(superpose_walked(items, env, s, f).1, more),
        ),
    decreases f, 8nat, 0nat, 0nat,
{
    stable_walked(items[1], env, s, more, f, g);
    match items[1] {
        ExprV::List(xs) => {
            stable_spread(xs, 0, Seq::empty(), env, s, more, f, g);
        },
        _ => {},
    }
}

/// More depth and more answers change nothing in a collection of values.
proof fn stable_collapse_walked(
    items: Seq<ExprV>,
    env: EnvV,
    s: WalkV,
    more: Seq<HostAnswerV>,
    f: nat,
    g: nat,
)
    requires
        f <= g,
    ensures
        settled(collapse_walked(items, env, s, f).0, more) ==> collapse_walked(items, env, extended(s, more), g) == (
            collapse_walked(items, env, s, f).0,
            extended(collapse_walked(items, env, s, f).1, more),
        ),
    decreases f, 8nat, 0nat, 0nat,
{
    stable_walked(items[1], env, s, more, f, g);
}

/// More depth and more answers change nothing in the rest of a chain.
proof fn stable_chain_from(
    items: Seq<ExprV>,
    i: nat,
    env: EnvV,
    s: WalkV,
    more: Seq<HostAnswerV>,
    f: nat,
    g: nat,
)
    requires
        f <= g,
    ensures
        settled(chain_from(items, i, env, s, f).0, more) ==> chain_from(items, i, env, extended(s, more), g) == (
            chain_from(items, i, env, s, f).0,
            extended(chain_from(items, i, env, s, f).1, more),
        ),
    decreases f, 1nat, 0nat, arguments(items) / 2 - i,
{
    stable_walked(items.last(), env, s, more, f, g);
    if i < arguments(items) / 2 {
        let var = items[2 * i as int + 2];
        if var is Symbol && is_var_name(var->Symbol_0) {
            let o = first_or(
                walked(items[2 * i as int + 1], env, s, f),
                counted("chain: expression "@, 2 * i, " produced no results"@),
            );
            stable_walked(items[2 * i as int + 1], env, s, more, f, g);
            if o.0 is Ok {
                stable_chain_from(
                    items,
                    i + 1,
                    EnvV::Cons(var->Symbol_0, Box::new(o.0->Ok_0), Box::new(env)),
                    o.1,
                    more,
                    f,
                    g,
                );
            }
        }
    }
}

/// More depth and more answers change nothing in a chain.
proof fn stable_chain_walked(
    items: Seq<ExprV>,
    env: EnvV,
    s: WalkV,
    more: Seq<HostAnswerV>,
    f: nat,
    g: nat,
)
    requires
        f <= g,
    ensures
        settled(chain_walked(items, env, s, f).0, more) ==> chain_walked(items, env, extended(s, more), g) == (
            chain_walked(items, env, s, f).0,
            extended(chain_walked(items, env, s, f).1, more),
        ),
    decreases f, 8nat, 0nat, 0nat,
{
    stable_chain_from(items, 0, env, s, more, f, g);
}

/// More depth and more answers change nothing in the choice of a clause.
proof fn stable_clause_chosen(
    cs: Seq<ExprV>,
    j: nat,
    value: AtomV,
    env: EnvV,
    s: WalkV,
    more: Seq<HostAnswerV>,
    f: nat,
    g: nat,
)
    requires
        f <= g,
    ensures
        settled(clause_chosen(cs, j, value, env, s, f).0, more) ==> clause_chosen(cs, j, value, env, extended(s, more), g) == (
            clause_chosen(cs, j, value, env, s, f).0,
            extended(clause_chosen(cs, j, value, env, s, f).1, more),
        ),
    decreases f, 8nat, 0nat, cs.len() - j,
{
    if j < cs.len() {
        let c = cs[j as int];
        if c is List && c->List_0.len() == 2 {
            let p = c->List_0[0];
            if p == ExprV::Symbol("Empty"@) {
                stable_clause_chosen(cs, j + 1, value, env, s, more, f, g);
            } else if p != ExprV::Symbol("$else"@) {
                let o = fit(p, value, EnvV::Empty, s, f);
                stable_fit(p, value, EnvV::Empty, s, more, f, g);
                stable_clause_chosen(cs, j + 1, value, env, o.1, more, f, g);
            }
        }
    }
}

/// More depth and more answers change nothing in a distinction of cases.
proof fn stable_case_walked(
    items: Seq<ExprV>,
    env: EnvV,
    s: WalkV,
    more: Seq<HostAnswerV>,
    f: nat,
    g: nat,
)
    requires
        f <= g,
    ensures
        settled(case_walked(items, env, s, f).0, more) ==> case_walked(items, env, extended(s, more), g) == (
            case_walked(items, env, s, f).0,
            extended(case_walked(items, env, s, f).1, more),
        ),
    decreases f, 10nat, 0nat, 0nat,
{
    if arguments(items) == 2 {
        match items[2] {
            ExprV::List(cs) => {
                let o = walked(items[1], env, s, f);
                stable_walked(items[1], env, s, more, f, g);
                if o.0 is Ok {
                    let c = clause_chosen(cs, 0, o.0->Ok_0[0], env, o.1, f);
                    stable_clause_chosen(cs, 0, o.0->Ok_0[0], env, o.1, more, f, g);
                    if c.0 is Ok {
                        stable_walked(c.0->Ok_0.0, c.0->Ok_0.1, c.1, more, f, g);
                    }
                    match empty_clause(cs, 0) {
                        Some(body) => {
                            stable_walked(body, env, o.1, more, f, g);
                        },
                        None => {},
                    }
                }
            },
            _ => {},
        }
    }
}

/// More depth and more answers change nothing in a space expression.
proof fn stable_space_walked(
    name: Seq<char>,
    items: Seq<ExprV>,
    env: EnvV,
    s: WalkV,
    more: Seq<HostAnswerV>,
    f: nat,
    g: nat,
)
    requires
        f <= g,
    ensures
        settled(space_walked(name, items, env, s, f).0, more) ==> space_walked(name, items, env, extended(s, more), g) == (
            space_walked(name, items, env, s, f).0,
            extended(space_walked(name, items, env, s, f).1, more),
        ),
    decreases f, 1nat, 0nat, 0nat,
{
    stable_walked(items[1], env, s, more, f, g);
}

/// More depth and more answers change nothing in an addition to a space.
proof fn stable_add_walked(
    items: Seq<ExprV>,
    env: EnvV,
    s: WalkV,
    more: Seq<HostAnswerV>,
    f: nat,
    g: nat,
)
    requires
        f <= g,
    ensures
        settled(add_walked(items, env, s, f).0, more) ==> add_walked(items, env, extended(s, more), g) == (
            add_walked(items, env, s, f).0,
            extended(add_walked(items, env, s, f).1, more),
        ),
    decreases f, 8nat, 0nat, 0nat,
{
    stable_space_walked("add-atom"@, items, env, s, more, f, g);
}

/// More depth and more answers change nothing in a removal from a space.
proof fn stable_remove_walked(
    items: Seq<ExprV>,
    env: EnvV,
    s: WalkV,
    more: Seq<HostAnswerV>,
    f: nat,
    g: nat,
)
    requires
        f <= g,
    ensures
        settled(remove_walked(items, env, s, f).0, more) ==> remove_walked(items, env, extended(s, more), g) == (
            remove_walked(items, env, s, f).0,
            extended(remove_walked(items, env, s, f).1, more),
        ),
    decreases f, 8nat, 0nat, 0nat,
{
    stable_space_walked("remove-atom"@, items, env, s, more, f, g);
}

/// More depth and more answers change nothing in an import.
proof fn stable_import_walked(
    items: Seq<ExprV>,
    env: EnvV,
    s: WalkV,
    more: Seq<HostAnswerV>,
    f: nat,
    g: nat,
)
    requires
        f <= g,
    ensures
        settled(import_walked(items, env, s, f).0, more) ==> import_walked(items, env, extended(s, more), g) == (
            import_walked(items, env, s, f).0,
            extended(import_walked(items, env, s, f).1, more),
        ),
    decreases f, 8nat, 0nat, 0nat,
{
    stable_space_walked("import!"@, items, env, s, more, f, g);
    let o = space_walked("import!"@, items, env, s, f);
    if o.0 is Ok {
        match items[2] {
            ExprV::Symbol(path) => {
                lemma_asked(HostV::Import(path, o.0->Ok_0, env), o.1, more);
            },
            ExprV::Str(path) => {
                lemma_asked(HostV::Import(path, o.0->Ok_0, env), o.1, more);
            },
            _ => {},
        }
    }
}

/// More depth and more answers change nothing in the body for matches.
proof fn stable_found_walked(
    found: Seq<FoundV>,
    i: nat,
    before: Seq<AtomV>,
    body: ExprV,
    env: EnvV,
    s: WalkV,
    more: Seq<HostAnswerV>,
    f: nat,
    g: nat,
)
    requires
        f <= g,
    ensures
        settled(found_walked(found, i, before, body, env, s, f).0, more) ==> found_walked(found, i, before, body, env, extended(s, more), g) == (
            found_walked(found, i, before, body, env, s, f).0,
            extended(found_walked(found, i, before, body, env, s, f).1, more),
        ),
    decreases f, 1nat, 0nat, found.len() - i,
{
    if i < found.len() {
        let o = walked(body, stacked(found[i as int].1, env), s, f);
        stable_walked(body, stacked(found[i as int].1, env), s, more, f, g);
        if o.0 is Ok {
            stable_found_walked(found, i + 1, before + o.0->Ok_0, body, env, o.1, more, f, g);
        }
    }
}

/// More depth and more answers change nothing in a match.
proof fn stable_match_walked(
    items: Seq<ExprV>,
    env: EnvV,
    s: WalkV,
    more: Seq<HostAnswerV>,
    f: nat,
    g: nat,
)
    requires
        f <= g,
    ensures
        settled(match_walked(items, env, s, f).0, more) ==> match_walked(items, env, extended(s, more), g) == (
            match_walked(items, env, s, f).0,
            extended(match_walked(items, env, s, f).1, more),
        ),
    decreases f, 8nat, 0nat, 0nat,
{
    if arguments(items) == 3 {
        let o = space_walked("match"@, items, env, s, f);
        stable_space_walked("match"@, items, env, s, more, f, g);
        if o.0 is Ok {
            stable_found_walked(
                found_in(expr_filled(items[2], env), o.1.t.space(home())),
                0,
                Seq::empty(),
                template(items[3], env),
                env,
                o.1,
                more,
                f,
                g,
            );
        }
    }
}

/// More depth and more answers change nothing in what is printed.
proof fn stable_printed_from(
    items: Seq<ExprV>,
    i: nat,
    before: Seq<Seq<char>>,
    env: EnvV,
    s: WalkV,
    more: Seq<HostAnswerV>,
    f: nat,
    g: nat,
)
    requires
        f <= g,
    ensures
        settled(printed_from(items, i, before, env, s, f).0, more) ==> printed_from(items, i, before, env, extended(s, more), g) == (
            printed_from(items, i, before, env, s, f).0,
            extended(printed_from(items, i, before, env, s, f).1, more),
        ),
    decreases f, 1nat, 0nat, items.len() - i,
{
    if i < items.len() {
        let o = first_or(
            walked(items[i as int], env, s, f),
            "println!: argument produced no results: "@ + expr_text(items[i as int]),
        );
        stable_walked(items[i as int], env, s, more, f, g);
        if o.0 is Ok {
            stable_printed_from(
                items,
                i + 1,
                before.push(printed(o.0->Ok_0)),
                env,
                o.1,
                more,
                f,
                g,
            );
        }
    }
}

/// More depth and more answers change nothing in printing.
proof fn stable_println_walked(
    items: Seq<ExprV>,
    env: EnvV,
    s: WalkV,
    more: Seq<HostAnswerV>,
    f: nat,
    g: nat,
)
    requires
        f <= g,
    ensures
        settled(println_walked(items, env, s, f).0, more) ==> println_walked(items, env, extended(s, more), g) == (
            println_walked(items, env, s, f).0,
            extended(println_walked(items, env, s, f).1, more),
        ),
    decreases f, 8nat, 0nat, 0nat,
{
    stable_printed_from(items, 1, Seq::empty(), env, s, more, f, g);
}

/// More depth and more answers change nothing in a name for a Python call.
proof fn stable_python_name(
    what: Seq<char>,
    x: ExprV,
    env: EnvV,
    s: WalkV,
    more: Seq<HostAnswerV>,
    f: nat,
    g: nat,
)
    requires
        f <= g,
    ensures
        settled(python_name(what, x, env, s, f).0, more) ==> python_name(what, x, env, extended(s, more), g) == (
            python_name(what, x, env, s, f).0,
            extended(python_name(what, x, env, s, f).1, more),
        ),
    decreases f, 1nat, 0nat, 0nat,
{
    stable_walked(x, env, s, more, f, g);
}

/// More depth and more answers change nothing in the arguments of a Python
/// call.
proof fn stable_python_args(
    items: Seq<ExprV>,
    i: nat,
    before: Seq<ExprV>,
    env: EnvV,
    s: WalkV,
    more: Seq<HostAnswerV>,
    f: nat,
    g: nat,
)
    requires
        f <= g,
    ensures
        settled(python_args(items, i, before, env, s, f).0, more) ==> python_args(items, i, before, env, extended(s, more), g) == (
            python_args(items, i, before, env, s, f).0,
            extended(python_args(items, i, before, env, s, f).1, more),
        ),
    decreases f, 1nat, 0nat, items.len() - i,
{
    if i < items.len() {
        let o = first_or(
            walked(items[i as int], env, s, f),
            "py-call: argument expression produced no results"@,
        );
        stable_walked(items[i as int], env, s, more, f, g);
        if o.0 is Ok {
            stable_python_args(
                items,
                i + 1,
                before.push(quoted_value(o.0->Ok_0)),
                env,
                o.1,
                more,
                f,
                g,
            );
        }
    }
}

/// More depth and more answers change nothing in a Python call.
proof fn stable_python_walked(
    items: Seq<ExprV>,
    env: EnvV,
    s: WalkV,
    more: Seq<HostAnswerV>,
    f: nat,
    g: nat,
)
    requires
        f <= g,
    ensures
        settled(python_walked(items, env, s, f).0, more) ==> python_walked(items, env, extended(s, more), g) == (
            python_walked(items, env, s, f).0,
            extended(python_walked(items, env, s, f).1, more),
        ),
    decreases f, 8nat, 0nat, 0nat,
{
    if arguments(items) >= 2 {
        let o = python_name("module"@, items[1], env, s, f);
        stable_python_name("module"@, items[1], env, s, more, f, g);
        if o.0 is Ok {
            let p = python_name("function"@, items[2], env, o.1, f);
            stable_python_name("function"@, items[2], env, o.1, more, f, g);
            if p.0 is Ok {
                let q = python_args(items, 3, Seq::empty(), env, p.1, f);
                stable_python_args(items, 3, Seq::empty(), env, p.1, more, f, g);
                if q.0 is Ok {
                    lemma_asked(
                        HostV::PyCall(python_call(o.0->Ok_0, p.0->Ok_0, q.0->Ok_0), env),
                        q.1,
                        more,
                    );
                }
            }
        }
    }
}

/// More depth and more answers change nothing in a check.
proof fn stable_check_walked(
    check: AtomV,
    v: AtomV,
    env: EnvV,
    s: WalkV,
    more: Seq<HostAnswerV>,
    f: nat,
    g: nat,
)
    requires
        f <= g,
    ensures
        settled(check_walked(check, v, env, s, f).0, more) ==> check_walked(check, v, env, extended(s, more), g) == (
            check_walked(check, v, env, s, f).0,
            extended(check_walked(check, v, env, s, f).1, more),
        ),
    decreases f, 8nat, 0nat, 0nat,
{
    let arg = ExprV::Symbol("$__fv"@);
    let inner = EnvV::Cons("$__fv"@, Box::new(v), Box::new(env));
    match check {
        AtomV::Sym(name) => {
            stable_walked(ExprV::List(seq![ExprV::Symbol(name), arg]), inner, s, more, f, g);
        },
        AtomV::Closure(params, body, e) => {
            stable_closure_walked(params, body, *e, seq![arg], inner, s, more, f, g);
        },
        _ => {},
    }
}

/// More depth and more answers change nothing in the checks of values.
proof fn stable_forall_from(
    vs: Seq<AtomV>,
    i: nat,
    check: AtomV,
    env: EnvV,
    s: WalkV,
    more: Seq<HostAnswerV>,
    f: nat,
    g: nat,
)
    requires
        f <= g,
    ensures
        settled(forall_from(vs, i, check, env, s, f).0, more) ==> forall_from(vs, i, check, env, extended(s, more), g) == (
            forall_from(vs, i, check, env, s, f).0,
            extended(forall_from(vs, i, check, env, s, f).1, more),
        ),
    decreases f, 9nat, 0nat, vs.len() - i,
{
    if i < vs.len() {
        let o = check_walked(check, vs[i as int], env, s, f);
        stable_check_walked(check, vs[i as int], env, s, more, f, g);
        stable_forall_from(vs, i + 1, check, env, o.1, more, f, g);
    }
}

/// More depth and more answers change nothing in a quantifier.
proof fn stable_forall_walked(
    items: Seq<ExprV>,
    env: EnvV,
    s: WalkV,
    more: Seq<HostAnswerV>,
    f: nat,
    g: nat,
)
    requires
        f <= g,
    ensures
        settled(forall_walked(items, env, s, f).0, more) ==> forall_walked(items, env, extended(s, more), g) == (
            forall_walked(items, env, s, f).0,
            extended(forall_walked(items, env, s, f).1, more),
        ),
    decreases f, 10nat, 0nat, 0nat,
{
    if arguments(items) == 2 {
        let o = constrained(items[1], env, s, f);
        stable_constrained(items[1], env, s, more, f, g);
        if o.0 is Ok {
            let c = first_or(
                walked(items[2], env, o.1, f),
                "forall: check produced no value"@,
            );
            stable_walked(items[2], env, o.1, more, f, g);
            if c.0 is Ok {
                stable_forall_from(raw_values(o.0->Ok_0), 0, c.0->Ok_0, env, c.1, more, f, g);
            }
        }
    }
}

/// More depth and more answers change nothing in the rest of a fold.
proof fn stable_folded_from(
    vs: Seq<AtomV>,
    i: nat,
    acc: AtomV,
    head: ExprV,
    env: EnvV,
    s: WalkV,
    more: Seq<HostAnswerV>,
    f: nat,
    g: nat,
)
    requires
        f <= g,
    ensures
        settled(folded_from(vs, i, acc, head, env, s, f).0, more) ==> folded_from(vs, i, acc, head, env, extended(s, more), g) == (
            folded_from(vs, i, acc, head, env, s, f).0,
            extended(folded_from(vs, i, acc, head, env, s, f).1, more),
        ),
    decreases f, 1nat, 0nat, vs.len() - i,
{
    if i < vs.len() {
        let x = ExprV::List(seq![head, to_expr(acc), to_expr(vs[i as int])]);
        let o = first_or(
            walked(x, env, s, f),
            "foldall: aggregate function produced no results"@,
        );
        stable_walked(x, env, s, more, f, g);
        if o.0 is Ok {
            stable_folded_from(vs, i + 1, o.0->Ok_0, head, env, o.1, more, f, g);
        }
    }
}

/// More depth and more answers change nothing in a fold.
proof fn stable_foldall_walked(
    items: Seq<ExprV>,
    env: EnvV,
    s: WalkV,
    more: Seq<HostAnswerV>,
    f: nat,
    g: nat,
)
    requires
        f <= g,
    ensures
        settled(foldall_walked(items, env, s, f).0, more) ==> foldall_walked(items, env, extended(s, more), g) == (
            foldall_walked(items, env, s, f).0,
            extended(foldall_walked(items, env, s, f).1, more),
        ),
    decreases f, 8nat, 0nat, 0nat,
{
    if arguments(items) == 3 {
        let o = walked_or_generated(items[2], env, s, f);
        stable_walked_or_generated(items[2], env, s, more, f, g);
        if o.0 is Ok {
            let a = first_or(
                walked(items[3], env, o.1, f),
                "foldall: init expression produced no results"@,
            );
            stable_walked(items[3], env, o.1, more, f, g);
            if a.0 is Ok {
                stable_folded_from(o.0->Ok_0, 0, a.0->Ok_0, items[1], env, a.1, more, f, g);
            }
        }
    }
}

/// More depth and more answers change nothing in the value of a function for
/// an element.
proof fn stable_mapped(
    func: AtomV,
    x: AtomV,
    env: EnvV,
    s: WalkV,
    more: Seq<HostAnswerV>,
    f: nat,
    g: nat,
)
    requires
        f <= g,
    ensures
        settled(mapped(func, x, env, s, f).0, more) ==> mapped(func, x, env, extended(s, more), g) == (
            mapped(func, x, env, s, f).0,
            extended(mapped(func, x, env, s, f).1, more),
        ),
    decreases f, 8nat, 0nat, 0nat,
{
    match func {
        AtomV::Sym(name) => {
            stable_walked(
                ExprV::List(seq![ExprV::Symbol(name), to_expr(x)]),
                env,
                s,
                more,
                f,
                g,
            );
        },
        AtomV::Closure(params, body, inner) => {
            stable_closure_walked(params, body, *inner, seq![to_expr(x)], env, s, more, f, g);
        },
        _ => {},
    }
}

/// More depth and more answers change nothing in the values of a function for
/// elements.
proof fn stable_mapped_from(
    xs: Seq<AtomV>,
    i: nat,
    before: Seq<AtomV>,
    func: AtomV,
    env: EnvV,
    s: WalkV,
    more: Seq<HostAnswerV>,
    f: nat,
    g: nat,
)
    requires
        f <= g,
    ensures
        settled(mapped_from(xs, i, before, func, env, s, f).0, more) ==> mapped_from(xs, i, before, func, env, extended(s, more), g) == (
            mapped_from(xs, i, before, func, env, s, f).0,
            extended(mapped_from(xs, i, before, func, env, s, f).1, more),
        ),
    decreases f, 9nat, 0nat, xs.len() - i,
{
    if i < xs.len() {
        let o = mapped(func, xs[i as int], env, s, f);
        stable_mapped(func, xs[i as int], env, s, more, f, g);
        if o.0 is Ok {
            stable_mapped_from(xs, i + 1, before.push(o.0->Ok_0), func, env, o.1, more, f, g);
        }
    }
}

/// More depth and more answers change nothing in a map.
proof fn stable_map_walked(
    items: Seq<ExprV>,
    env: EnvV,
    s: WalkV,
    more: Seq<HostAnswerV>,
    f: nat,
    g: nat,
)
    requires
        f <= g,
    ensures
        settled(map_walked(items, env, s, f).0, more) ==> map_walked(items, env, extended(s, more), g) == (
            map_walked(items, env, s, f).0,
            extended(map_walked(items, env, s, f).1, more),
        ),
    decreases f, 10nat, 0nat, 0nat,
{
    if arguments(items) == 2 {
        let o = first_or(
            walked(items[1], env, s, f),
            "map-atom: list expression produced no results"@,
        );
        stable_walked(items[1], env, s, more, f, g);
        if o.0 is Ok {
            let p = first_or(
                walked(items[2], env, o.1, f),
                "map-atom: func expression produced no results"@,
            );
            stable_walked(items[2], env, o.1, more, f, g);
            if p.0 is Ok {
                match o.0->Ok_0 {
                    AtomV::Expr(xs) => {
                        stable_mapped_from(
                            xs,
                            0,
                            Seq::empty(),
                            p.0->Ok_0,
                            env,
                            p.1,
                            more,
                            f,
                            g,
                        );
                    },
                    _ => {},
                }
            }
        }
    }
}

/// More depth and more answers change nothing in a list.
proof fn stable_list_walked(
    items: Seq<ExprV>,
    env: EnvV,
    s: WalkV,
    more: Seq<HostAnswerV>,
    f: nat,
    g: nat,
)
    requires
        f <= g,
    ensures
        settled(list_walked(items, env, s, f).0, more) ==> list_walked(items, env, extended(s, more), g) == (
            list_walked(items, env, s, f).0,
            extended(list_walked(items, env, s, f).1, more),
        ),
    decreases f, 20nat, 0nat, 0nat,
{
    if items.len() > 0 {
        match list_form(items) {
            WalkForm::If => {
                stable_if_walked(items, env, s, more, f, g);
            },
            WalkForm::Progn => {
                stable_progn_walked(items, env, s, more, f, g);
            },
            WalkForm::Let => {
                stable_let_walked(items, env, s, more, f, g);
            },
            WalkForm::LetStar => {
                stable_star_walked(items, env, s, more, f, g);
            },
            WalkForm::Call => {
                stable_call_form_walked(items, env, s, more, f, g);
            },
            WalkForm::Eval => {
                stable_eval_walked(items, env, s, more, f, g);
            },
            WalkForm::AddAtom => {
                stable_add_walked(items, env, s, more, f, g);
            },
            WalkForm::RemoveAtom => {
                stable_remove_walked(items, env, s, more, f, g);
            },
            WalkForm::Match => {
                stable_match_walked(items, env, s, more, f, g);
            },
            WalkForm::Import => {
                stable_import_walked(items, env, s, more, f, g);
            },
            WalkForm::Println => {
                stable_println_walked(items, env, s, more, f, g);
            },
            WalkForm::Superpose => {
                stable_superpose_walked(items, env, s, more, f, g);
            },
            WalkForm::Collapse => {
                stable_collapse_walked(items, env, s, more, f, g);
            },
            WalkForm::Chain => {
                stable_chain_walked(items, env, s, more, f, g);
            },
            WalkForm::Case => {
                stable_case_walked(items, env, s, more, f, g);
            },
            WalkForm::Foldall => {
                stable_foldall_walked(items, env, s, more, f, g);
            },
            WalkForm::MapAtom => {
                stable_map_walked(items, env, s, more, f, g);
            },
            WalkForm::Forall => {
                stable_forall_walked(items, env, s, more, f, g);
            },
            WalkForm::PyCall => {
                stable_python_walked(items, env, s, more, f, g);
            },
            WalkForm::Other => {
                stable_call_or_data(items, env, s, more, f, g);
            },
            WalkForm::Readln => {
                lemma_asked(HostV::Readln, s, more);
            },
            WalkForm::ImportRs => {
                lemma_asked(HostV::Plugin(items[1], env), s, more);
            },
            _ => {},
        }
    }
}

/// An evaluation that does not go too deep gives the same values, errors,
/// questions and state, whatever greater depth it is allowed.
pub proof fn more_depth_changes_nothing(x: ExprV, env: EnvV, s: WalkV, f: nat, g: nat)
    requires
        f <= g,
        !(walked(x, env, s, f).0 matches Err(e) && e is Deep),
    ensures
        walked(x, env, s, g) == walked(x, env, s, f),
{
    let none = Seq::<HostAnswerV>::empty();
    let out = walked(x, env, s, f).1;
    stable_walked(x, env, s, none, f, g);
    assert(s.answers + none =~= s.answers);
    assert(out.answers + none =~= out.answers);
}

/// An evaluation that ends without a question to the host ends the same way when
/// there are more answers, and leaves those alone.
pub proof fn more_answers_change_nothing(
    x: ExprV,
    env: EnvV,
    s: WalkV,
    more: Seq<HostAnswerV>,
    f: nat,
)
    requires
        !(walked(x, env, s, f).0 matches Err(e) && (e is Deep || e is Host)),
    ensures
        walked(x, env, extended(s, more), f) == (
            walked(x, env, s, f).0,
            extended(walked(x, env, s, f).1, more),
        ),
{
    stable_walked(x, env, s, more, f, f);
}

} // verus!
