//! The values of the forms where expressions are walked.
use crate::atom::AtomV;
use crate::atom::affirms;
use crate::compile::reify::to_expr;
use crate::env::EnvV;
use crate::eval::machine::budget::ResultV;
use crate::eval::machine::budget::raw_atoms;
use crate::eval::machine::vm::compiler::is_pair;
use crate::eval::shared::env::linked;
use crate::eval::walker::StopV;
use crate::eval::walker::WalkV;
use crate::eval::walker::constrain::constrained;
use crate::eval::walker::folds::all_true;
use crate::eval::walker::folds::folded_from;
use crate::eval::walker::folds::forall_from;
use crate::eval::walker::folds::check_walked;
use crate::eval::walker::folds::mapped;
use crate::eval::walker::folds::mapped_from;
use crate::eval::walker::folds::raw_values;
use crate::eval::walker::forms::arguments;
use crate::eval::walker::forms::chain_from;
use crate::eval::walker::forms::clause_chosen;
use crate::eval::walker::forms::progn_from;
use crate::eval::walker::forms::rewritten;
use crate::eval::walker::forms::spread;
use crate::eval::walker::forms::star_from;
use crate::eval::walker::generate::walked_or_generated;
use crate::eval::walker::gives_one;
use crate::eval::walker::lists::WalkForm;
use crate::eval::walker::lists::list_form;
use crate::eval::walker::lists::list_walked;
use crate::eval::walker::lists::walk_form;
use crate::eval::walker::matching::fit;
use crate::eval::walker::walked;
use crate::expr::ExprV;
use crate::laws::checking::all_count;
use crate::laws::checking::lemma_truth_symbols;
use crate::laws::folding::accumulated;
use crate::laws::forms::form;
use crate::laws::numbers::truth_atom;
use crate::laws::states::conditions_are_truth;
use crate::laws::states::counts_as_true;
use crate::text::is_var_name;
use vstd::prelude::*;

verus! {

/// The names of the forms.
pub proof fn form_names_are_bound()
    ensures
        walk_form("if"@) == WalkForm::If,
        walk_form("progn"@) == WalkForm::Progn,
        walk_form("let"@) == WalkForm::Let,
        walk_form("let*"@) == WalkForm::LetStar,
        walk_form("quote"@) == WalkForm::Quote,
        walk_form("call"@) == WalkForm::Call,
        walk_form("reduce"@) == WalkForm::Call,
        walk_form("eval"@) == WalkForm::Eval,
        walk_form("add-atom"@) == WalkForm::AddAtom,
        walk_form("remove-atom"@) == WalkForm::RemoveAtom,
        walk_form("match"@) == WalkForm::Match,
        walk_form("import!"@) == WalkForm::Import,
        walk_form("readln!"@) == WalkForm::Readln,
        walk_form("println!"@) == WalkForm::Println,
        walk_form("superpose"@) == WalkForm::Superpose,
        walk_form("collapse"@) == WalkForm::Collapse,
        walk_form("chain"@) == WalkForm::Chain,
        walk_form("case"@) == WalkForm::Case,
        walk_form("foldall"@) == WalkForm::Foldall,
        walk_form("map-atom"@) == WalkForm::MapAtom,
        walk_form("|->"@) == WalkForm::Lambda,
        walk_form("forall"@) == WalkForm::Forall,
        walk_form("empty"@) == WalkForm::Empty,
        walk_form("py-call"@) == WalkForm::PyCall,
        walk_form("import-rs!"@) == WalkForm::ImportRs,
{
    reveal_strlit("if");
    reveal_strlit("progn");
    reveal_strlit("let");
    reveal_strlit("let*");
    reveal_strlit("quote");
    reveal_strlit("call");
    reveal_strlit("reduce");
    reveal_strlit("eval");
    reveal_strlit("add-atom");
    reveal_strlit("remove-atom");
    reveal_strlit("match");
    reveal_strlit("import!");
    reveal_strlit("readln!");
    reveal_strlit("println!");
    reveal_strlit("superpose");
    reveal_strlit("collapse");
    reveal_strlit("chain");
    reveal_strlit("case");
    reveal_strlit("foldall");
    reveal_strlit("map-atom");
    reveal_strlit("|->");
    reveal_strlit("forall");
    reveal_strlit("empty");
    reveal_strlit("py-call");
    reveal_strlit("import-rs!");
    assert("if"@.len() == 2);
    assert("progn"@.len() == 5);
    assert("let"@.len() == 3);
    assert("let*"@.len() == 4);
    assert("quote"@.len() == 5);
    assert("call"@.len() == 4);
    assert("reduce"@.len() == 6);
    assert("eval"@.len() == 4);
    assert("add-atom"@.len() == 8);
    assert("remove-atom"@.len() == 11);
    assert("match"@.len() == 5);
    assert("import!"@.len() == 7);
    assert("readln!"@.len() == 7);
    assert("println!"@.len() == 8);
    assert("superpose"@.len() == 9);
    assert("collapse"@.len() == 8);
    assert("chain"@.len() == 5);
    assert("case"@.len() == 4);
    assert("foldall"@.len() == 7);
    assert("map-atom"@.len() == 8);
    assert("|->"@.len() == 3);
    assert("forall"@.len() == 6);
    assert("empty"@.len() == 5);
    assert("py-call"@.len() == 7);
    assert("import-rs!"@.len() == 10);
    assert("progn"@[0] == 'p');
    assert("quote"@[0] == 'q');
    assert("match"@[0] == 'm');
    assert("chain"@[0] == 'c');
    assert("empty"@[0] == 'e');
    assert("let"@[0] == 'l');
    assert("|->"@[0] == '|');
    assert("let*"@[0] == 'l');
    assert("call"@[0] == 'c');
    assert("eval"@[0] == 'e');
    assert("case"@[0] == 'c');
    assert("call"@[2] == 'l');
    assert("case"@[2] == 's');
    assert("reduce"@[0] == 'r');
    assert("forall"@[0] == 'f');
    assert("add-atom"@[0] == 'a');
    assert("println!"@[0] == 'p');
    assert("collapse"@[0] == 'c');
    assert("map-atom"@[0] == 'm');
    assert("import!"@[0] == 'i');
    assert("readln!"@[0] == 'r');
    assert("foldall"@[0] == 'f');
    assert("py-call"@[0] == 'p');
}

/// Whether an expression has values, and what state is left.
pub open spec fn walks(
    x: ExprV,
    env: EnvV,
    s: WalkV,
    f: nat,
    vs: Seq<AtomV>,
    s2: WalkV,
) -> bool {
    walked(x, env, s, f) == (Ok::<Seq<AtomV>, StopV>(vs), s2)
}

/// Whether expressions have values one after the other, each in the state that
/// the one before it left.
pub open spec fn all_walk(
    xs: Seq<ExprV>,
    env: EnvV,
    ss: Seq<WalkV>,
    f: nat,
    vss: Seq<Seq<AtomV>>,
) -> bool {
    &&& xs.len() == vss.len()
    &&& ss.len() == xs.len() + 1
    &&& forall|i: int| 0 <= i < xs.len() ==> walks(#[trigger] xs[i], env, ss[i], f, vss[i], ss[i + 1])
}

/// How a form is walked.
pub proof fn lemma_walked_form(name: Seq<char>, args: Seq<ExprV>, env: EnvV, s: WalkV, f: nat)
    ensures
        ({
            let items = seq![ExprV::Symbol(name)] + args;
            &&& walked(form(name, args), env, s, f + 1) == list_walked(items, env, s, f)
            &&& list_form(items) == walk_form(name)
            &&& arguments(items) == args.len()
            &&& items.skip(1) == args
        }),
{
    let items = seq![ExprV::Symbol(name)] + args;
    assert(items.skip(1) =~= args);
}

/// Whether an expression is no binding form, which would bind in what follows it.
pub open spec fn binds_nothing(x: ExprV) -> bool {
    x is List && x->List_0.len() > 0 ==> x->List_0[0] != ExprV::Symbol("let"@) && x->List_0[0]
        != ExprV::Symbol("let*"@) && x->List_0[0] != ExprV::Symbol("match"@)
}

proof fn lemma_progn_from(
    items: Seq<ExprV>,
    i: nat,
    last: Seq<AtomV>,
    env: EnvV,
    ss: Seq<WalkV>,
    f: nat,
    vss: Seq<Seq<AtomV>>,
)
    requires
        1 <= i < items.len(),
        all_walk(items.skip(1), env, ss, f, vss),
        forall|k: int| 1 <= k < items.len() - 1 ==> binds_nothing(#[trigger] items[k]),
    ensures
        progn_from(items, i, last, env, ss[i - 1], f) == (
            Ok::<Seq<AtomV>, StopV>(vss[vss.len() - 1]),
            ss[ss.len() - 1],
        ),
    decreases items.len() - i,
{
    let xs = items.skip(1);
    assert(xs[i - 1] == items[i as int]);
    assert(walks(xs[i - 1], env, ss[i - 1], f, vss[i - 1], ss[i as int]));
    assert(rewritten(items, i) is None) by {
        if i + 1 < items.len() {
            assert(binds_nothing(items[i as int]));
        }
    }
    if i + 1 < items.len() {
        lemma_progn_from(items, i + 1, vss[i - 1], env, ss, f, vss);
    } else {
        assert(progn_from(items, i + 1, vss[i - 1], env, ss[i as int], f) == (
            Ok::<Seq<AtomV>, StopV>(vss[i - 1]),
            ss[i as int],
        ));
    }
}

/// `progn` walks its forms in their order and has the values of the last one.
pub proof fn sequences_are_walked_in_order(
    xs: Seq<ExprV>,
    env: EnvV,
    ss: Seq<WalkV>,
    f: nat,
    vss: Seq<Seq<AtomV>>,
)
    requires
        xs.len() > 0,
        all_walk(xs, env, ss, f, vss),
        forall|k: int| 0 <= k < xs.len() - 1 ==> binds_nothing(#[trigger] xs[k]),
    ensures
        walks(
            form("progn"@, xs),
            env,
            ss[0],
            f + 1,
            vss[vss.len() - 1],
            ss[ss.len() - 1],
        ),
{
    form_names_are_bound();
    lemma_walked_form("progn"@, xs, env, ss[0], f);
    let items = seq![ExprV::Symbol("progn"@)] + xs;
    assert forall|k: int| 1 <= k < items.len() - 1 implies binds_nothing(#[trigger] items[k]) by {
        assert(items[k] == xs[k - 1]);
    }
    lemma_progn_from(items, 1, Seq::empty(), env, ss, f, vss);
}

proof fn lemma_spread(
    xs: Seq<ExprV>,
    i: nat,
    before: Seq<AtomV>,
    env: EnvV,
    ss: Seq<WalkV>,
    f: nat,
    vss: Seq<Seq<AtomV>>,
)
    requires
        i <= xs.len(),
        all_walk(xs, env, ss, f, vss),
    ensures
        spread(xs, i, before, env, ss[i as int], f) == (
            Ok::<Seq<AtomV>, StopV>(before + vss.skip(i as int).flatten()),
            ss[ss.len() - 1],
        ),
    decreases xs.len() - i,
{
    let rest = vss.skip(i as int);
    if i < xs.len() {
        assert(walks(xs[i as int], env, ss[i as int], f, vss[i as int], ss[i as int + 1]));
        lemma_spread(xs, i + 1, before + vss[i as int], env, ss, f, vss);
        assert(rest.drop_first() =~= vss.skip(i as int + 1));
        assert(rest.first() == vss[i as int]);
        assert(before + rest.flatten() =~= before + vss[i as int] + vss.skip(
            i as int + 1,
        ).flatten());
    } else {
        assert(rest.flatten() =~= Seq::<AtomV>::empty());
        assert(before + rest.flatten() =~= before);
    }
}

/// `superpose` has the values of all its expressions in their order, and
/// `collapse` makes one list of all values.
pub proof fn alternatives_are_walked_in_order(
    xs: Seq<ExprV>,
    env: EnvV,
    ss: Seq<WalkV>,
    f: nat,
    vss: Seq<Seq<AtomV>>,
)
    requires
        all_walk(xs, env, ss, f, vss),
    ensures
        walks(
            form("superpose"@, seq![ExprV::List(xs)]),
            env,
            ss[0],
            f + 1,
            vss.flatten(),
            ss[ss.len() - 1],
        ),
        walks(
            form("collapse"@, seq![form("superpose"@, seq![ExprV::List(xs)])]),
            env,
            ss[0],
            f + 2,
            seq![AtomV::Expr(vss.flatten())],
            ss[ss.len() - 1],
        ),
{
    form_names_are_bound();
    let l = seq![ExprV::List(xs)];
    lemma_walked_form("superpose"@, l, env, ss[0], f);
    lemma_spread(xs, 0, Seq::empty(), env, ss, f, vss);
    assert(vss.skip(0) =~= vss);
    assert(Seq::<AtomV>::empty() + vss.flatten() =~= vss.flatten());
    let x = form("superpose"@, l);
    lemma_walked_form("collapse"@, seq![x], env, ss[0], f + 1);
}

/// Whether the expressions of a chain have first values, each in the environment
/// that the variables before it make.
pub open spec fn chain_walks(
    args: Seq<ExprV>,
    firsts: Seq<AtomV>,
    es: Seq<EnvV>,
    ss: Seq<WalkV>,
    f: nat,
) -> bool {
    &&& args.len() == 2 * firsts.len() + 1
    &&& es.len() == firsts.len() + 1
    &&& ss.len() == firsts.len() + 1
    &&& forall|i: int|
        0 <= i < firsts.len() ==> {
            let name = args[2 * i + 1];
            &&& walks(args[2 * i], es[i], ss[i], f, seq![#[trigger] firsts[i]], ss[i + 1])
            &&& name is Symbol && is_var_name(name->Symbol_0)
            &&& es[i + 1] == EnvV::Cons(name->Symbol_0, Box::new(firsts[i]), Box::new(es[i]))
        }
}

proof fn lemma_chain_from(
    items: Seq<ExprV>,
    i: nat,
    firsts: Seq<AtomV>,
    es: Seq<EnvV>,
    ss: Seq<WalkV>,
    f: nat,
)
    requires
        items.len() > 0,
        i <= firsts.len(),
        chain_walks(items.skip(1), firsts, es, ss, f),
    ensures
        chain_from(items, i, es[i as int], ss[i as int], f) == walked(
            items[items.len() - 1],
            es[es.len() - 1],
            ss[ss.len() - 1],
            f,
        ),
    decreases firsts.len() - i,
{
    let args = items.skip(1);
    assert(arguments(items) / 2 == firsts.len());
    if i < firsts.len() {
        let n = i as int;
        assert(walks(args[2 * n], es[n], ss[n], f, seq![firsts[n]], ss[n + 1]));
        assert(args[2 * n] == items[2 * n + 1]);
        assert(args[2 * n + 1] == items[2 * n + 2]);
        lemma_chain_from(items, i + 1, firsts, es, ss, f);
    }
}

/// A `chain` is its last expression, in which each variable stands for the value
/// of the expression in front of it.
pub proof fn chains_are_walked_in_order(
    args: Seq<ExprV>,
    firsts: Seq<AtomV>,
    es: Seq<EnvV>,
    ss: Seq<WalkV>,
    f: nat,
)
    requires
        chain_walks(args, firsts, es, ss, f),
    ensures
        walked(form("chain"@, args), es[0], ss[0], f + 1) == walked(
            args[args.len() - 1],
            es[es.len() - 1],
            ss[ss.len() - 1],
            f,
        ),
{
    form_names_are_bound();
    lemma_walked_form("chain"@, args, es[0], ss[0], f);
    let items = seq![ExprV::Symbol("chain"@)] + args;
    lemma_chain_from(items, 0, firsts, es, ss, f);
}

/// Whether bindings have first values, and patterns that match them, each in the
/// environment that the ones before it make.
pub open spec fn bindings_walk(
    bs: Seq<ExprV>,
    firsts: Seq<AtomV>,
    es: Seq<EnvV>,
    ss: Seq<WalkV>,
    f: nat,
) -> bool {
    &&& bs.len() == firsts.len()
    &&& es.len() == firsts.len() + 1
    &&& ss.len() == firsts.len() + 1
    &&& forall|i: int|
        0 <= i < firsts.len() ==> {
            let b = bs[i];
            &&& b is List && b->List_0.len() == 2
            &&& walks(b->List_0[1], es[i], ss[i], f, seq![#[trigger] firsts[i]], ss[i + 1])
            &&& fit(b->List_0[0], firsts[i], EnvV::Empty, ss[i + 1], f).1 == ss[i + 1]
            &&& fit(b->List_0[0], firsts[i], EnvV::Empty, ss[i + 1], f).0 matches Ok(Some(m))
                && es[i + 1] == linked(m, es[i])
        }
}

proof fn lemma_star_from(
    bs: Seq<ExprV>,
    i: nat,
    body: ExprV,
    firsts: Seq<AtomV>,
    es: Seq<EnvV>,
    ss: Seq<WalkV>,
    f: nat,
)
    requires
        i <= bs.len(),
        bindings_walk(bs, firsts, es, ss, f),
    ensures
        star_from(bs, i, body, es[i as int], ss[i as int], f) == walked(
            body,
            es[es.len() - 1],
            ss[ss.len() - 1],
            f,
        ),
    decreases bs.len() - i,
{
    if i < bs.len() {
        let n = i as int;
        assert(walks(bs[n]->List_0[1], es[n], ss[n], f, seq![firsts[n]], ss[n + 1]));
        lemma_star_from(bs, i + 1, body, firsts, es, ss, f);
    }
}

/// `let*` is its body, with the variables of all patterns bound, where each value
/// already sees what is bound before it.
pub proof fn bindings_see_those_before(
    bs: Seq<ExprV>,
    body: ExprV,
    firsts: Seq<AtomV>,
    es: Seq<EnvV>,
    ss: Seq<WalkV>,
    f: nat,
)
    requires
        bindings_walk(bs, firsts, es, ss, f),
    ensures
        walked(form("let*"@, seq![ExprV::List(bs), body]), es[0], ss[0], f + 1) == walked(
            body,
            es[es.len() - 1],
            ss[ss.len() - 1],
            f,
        ),
{
    form_names_are_bound();
    lemma_walked_form("let*"@, seq![ExprV::List(bs), body], es[0], ss[0], f);
    lemma_star_from(bs, 0, body, firsts, es, ss, f);
}

/// Whether the first clause of a `case` that fits a value has a body and an
/// environment, and the matches leave the state alone.
pub open spec fn first_clause_fits(
    cs: Seq<ExprV>,
    a: AtomV,
    env: EnvV,
    s: WalkV,
    f: nat,
    j: int,
    e: EnvV,
) -> bool {
    &&& 0 <= j < cs.len()
    &&& forall|i: int|
        0 <= i < j ==> {
            let c = #[trigger] cs[i];
            &&& is_pair(c)
            &&& c->List_0[0] != ExprV::Symbol("$else"@)
            &&& c->List_0[0] == ExprV::Symbol("Empty"@) || fit(
                c->List_0[0],
                a,
                EnvV::Empty,
                s,
                f,
            ) == (Ok::<Option<EnvV>, StopV>(None), s)
        }
    &&& is_pair(cs[j])
    &&& cs[j]->List_0[0] != ExprV::Symbol("Empty"@)
    &&& if cs[j]->List_0[0] == ExprV::Symbol("$else"@) {
        e == env
    } else {
        let r = fit(cs[j]->List_0[0], a, EnvV::Empty, s, f);
        r.1 == s && (r.0 matches Ok(Some(m)) && e == linked(m, env))
    }
}

proof fn lemma_clause_chosen(
    cs: Seq<ExprV>,
    i: nat,
    a: AtomV,
    env: EnvV,
    s: WalkV,
    f: nat,
    j: int,
    e: EnvV,
)
    requires
        first_clause_fits(cs, a, env, s, f, j, e),
        i <= j,
    ensures
        clause_chosen(cs, i, a, env, s, f) == (
            Ok::<(ExprV, EnvV), StopV>((cs[j]->List_0[1], e)),
            s,
        ),
    decreases j - i,
{
    if i < j {
        assert(is_pair(cs[i as int]));
        lemma_clause_chosen(cs, i + 1, a, env, s, f, j, e);
    }
}

/// `case` is the body of the first clause that fits the first value.
pub proof fn cases_are_walked_in_order(
    x: ExprV,
    cs: Seq<ExprV>,
    env: EnvV,
    s: WalkV,
    f: nat,
    vs: Seq<AtomV>,
    s2: WalkV,
    j: int,
    e: EnvV,
)
    requires
        walks(x, env, s, f, vs, s2),
        vs.len() > 0,
        first_clause_fits(cs, vs[0], env, s2, f, j, e),
    ensures
        walked(form("case"@, seq![x, ExprV::List(cs)]), env, s, f + 1) == walked(
            cs[j]->List_0[1],
            e,
            s2,
            f,
        ),
{
    form_names_are_bound();
    lemma_walked_form("case"@, seq![x, ExprV::List(cs)], env, s, f);
    lemma_clause_chosen(cs, 0, vs[0], env, s2, f, j, e);
}

/// Whether a fold over walked calls has values.
pub open spec fn rounds_walk(
    head: ExprV,
    acc: AtomV,
    vs: Seq<AtomV>,
    g: spec_fn(AtomV, AtomV) -> AtomV,
    env: EnvV,
    s: WalkV,
    f: nat,
) -> bool {
    forall|k: nat|
        k < vs.len() ==> walks(
            ExprV::List(
                seq![head, to_expr(accumulated(acc, vs, g, k)), to_expr(vs[k as int])],
            ),
            env,
            s,
            f,
            seq![#[trigger] accumulated(acc, vs, g, k + 1)],
            s,
        )
}

proof fn lemma_folded_from(
    head: ExprV,
    acc: AtomV,
    vs: Seq<AtomV>,
    g: spec_fn(AtomV, AtomV) -> AtomV,
    env: EnvV,
    s: WalkV,
    f: nat,
    k: nat,
)
    requires
        rounds_walk(head, acc, vs, g, env, s, f),
        k <= vs.len(),
    ensures
        folded_from(vs, k, accumulated(acc, vs, g, k), head, env, s, f) == gives_one(
            s,
            accumulated(acc, vs, g, vs.len()),
        ),
    decreases vs.len() - k,
{
    if k < vs.len() {
        let next = accumulated(acc, vs, g, k + 1);
        assert(walks(
            ExprV::List(
                seq![head, to_expr(accumulated(acc, vs, g, k)), to_expr(vs[k as int])],
            ),
            env,
            s,
            f,
            seq![next],
            s,
        ));
        lemma_folded_from(head, acc, vs, g, env, s, f, k + 1);
    }
}

/// `(foldall f gen init)` takes all values in their order, and calls the function
/// with what there is so far first and the value second.
pub proof fn folds_are_walked_from_the_left(
    head: ExprV,
    gen: ExprV,
    init: ExprV,
    env: EnvV,
    s: WalkV,
    f: nat,
    vs: Seq<AtomV>,
    acc: AtomV,
    g: spec_fn(AtomV, AtomV) -> AtomV,
)
    requires
        walked_or_generated(gen, env, s, f) == (Ok::<Seq<AtomV>, StopV>(vs), s),
        walks(init, env, s, f, seq![acc], s),
        rounds_walk(head, acc, vs, g, env, s, f),
    ensures
        walks(
            form("foldall"@, seq![head, gen, init]),
            env,
            s,
            f + 1,
            seq![accumulated(acc, vs, g, vs.len())],
            s,
        ),
{
    form_names_are_bound();
    lemma_walked_form("foldall"@, seq![head, gen, init], env, s, f);
    assert(accumulated(acc, vs, g, 0) == acc);
    lemma_folded_from(head, acc, vs, g, env, s, f, 0);
}

/// Whether the images of elements are walked.
pub open spec fn images_walk(
    name: Seq<char>,
    xs: Seq<AtomV>,
    ys: Seq<AtomV>,
    env: EnvV,
    s: WalkV,
    f: nat,
) -> bool {
    &&& xs.len() == ys.len()
    &&& forall|i: int|
        0 <= i < xs.len() ==> walks(
            ExprV::List(seq![ExprV::Symbol(name), to_expr(#[trigger] xs[i])]),
            env,
            s,
            f,
            seq![ys[i]],
            s,
        )
}

proof fn lemma_mapped_from(
    name: Seq<char>,
    xs: Seq<AtomV>,
    ys: Seq<AtomV>,
    env: EnvV,
    s: WalkV,
    f: nat,
    i: nat,
)
    requires
        images_walk(name, xs, ys, env, s, f),
        i <= xs.len(),
    ensures
        mapped_from(xs, i, ys.take(i as int), AtomV::Sym(name), env, s, f) == gives_one(
            s,
            AtomV::Expr(ys),
        ),
    decreases xs.len() - i,
{
    if i < xs.len() {
        let x = xs[i as int];
        assert(walks(
            ExprV::List(seq![ExprV::Symbol(name), to_expr(x)]),
            env,
            s,
            f,
            seq![ys[i as int]],
            s,
        ));
        assert(mapped(AtomV::Sym(name), x, env, s, f) == (Ok::<AtomV, StopV>(ys[i as int]), s));
        assert(ys.take(i as int).push(ys[i as int]) =~= ys.take(i as int + 1));
        lemma_mapped_from(name, xs, ys, env, s, f, i + 1);
    } else {
        assert(ys.take(i as int) =~= ys);
    }
}

/// `(map-atom list f)` is the list of what the function gives for each element, in
/// the order of the elements.
pub proof fn lists_are_mapped_element_by_element(
    list: ExprV,
    func: ExprV,
    env: EnvV,
    s: WalkV,
    f: nat,
    name: Seq<char>,
    xs: Seq<AtomV>,
    ys: Seq<AtomV>,
)
    requires
        walks(list, env, s, f, seq![AtomV::Expr(xs)], s),
        walks(func, env, s, f, seq![AtomV::Sym(name)], s),
        images_walk(name, xs, ys, env, s, f),
    ensures
        walks(
            form("map-atom"@, seq![list, func]),
            env,
            s,
            f + 1,
            seq![AtomV::Expr(ys)],
            s,
        ),
{
    form_names_are_bound();
    lemma_walked_form("map-atom"@, seq![list, func], env, s, f);
    assert(ys.take(0) =~= Seq::<AtomV>::empty());
    lemma_mapped_from(name, xs, ys, env, s, f, 0);
}

/// Whether checks of values are walked.
pub open spec fn checks_walk(
    name: Seq<char>,
    vs: Seq<AtomV>,
    cs: Seq<AtomV>,
    env: EnvV,
    s: WalkV,
    f: nat,
) -> bool {
    &&& vs.len() == cs.len()
    &&& forall|i: int|
        0 <= i < vs.len() ==> walks(
            ExprV::List(seq![ExprV::Symbol(name), ExprV::Symbol("$__fv"@)]),
            EnvV::Cons("$__fv"@, Box::new(#[trigger] vs[i]), Box::new(env)),
            s,
            f,
            seq![cs[i]],
            s,
        )
}

proof fn lemma_forall_from(
    name: Seq<char>,
    vs: Seq<AtomV>,
    cs: Seq<AtomV>,
    env: EnvV,
    s: WalkV,
    f: nat,
    i: nat,
)
    requires
        checks_walk(name, vs, cs, env, s, f),
        i <= vs.len(),
    ensures
        forall_from(vs, i, AtomV::Sym(name), env, s, f) == gives_one(
            s,
            truth_atom(all_count(cs, i)),
        ),
    decreases vs.len() - i,
{
    lemma_truth_symbols();
    if i < vs.len() {
        let v = vs[i as int];
        let c = cs[i as int];
        assert(walks(
            ExprV::List(seq![ExprV::Symbol(name), ExprV::Symbol("$__fv"@)]),
            EnvV::Cons("$__fv"@, Box::new(v), Box::new(env)),
            s,
            f,
            seq![c],
            s,
        ));
        assert(check_walked(AtomV::Sym(name), v, env, s, f) == (
            Ok::<Seq<AtomV>, StopV>(seq![c]),
            s,
        ));
        conditions_are_truth(c);
        assert(all_true(seq![c]) == affirms(c)) by {
            assert(seq![c][0] == c);
        }
        if counts_as_true(c) {
            lemma_forall_from(name, vs, cs, env, s, f, i + 1);
            assert(all_count(cs, i) == all_count(cs, i + 1));
        } else {
            assert(!all_count(cs, i));
        }
    } else {
        assert(all_count(cs, i));
    }
}

/// `(forall gen check)` is true where the check of each value counts as true, and
/// false otherwise.
pub proof fn checks_are_walked(
    gen: ExprV,
    check: ExprV,
    env: EnvV,
    s: WalkV,
    f: nat,
    rs: ResultV,
    name: Seq<char>,
    cs: Seq<AtomV>,
)
    requires
        constrained(gen, env, s, f) == (Ok::<ResultV, StopV>(rs), s),
        walks(check, env, s, f, seq![AtomV::Sym(name)], s),
        checks_walk(name, raw_atoms(rs), cs, env, s, f),
    ensures
        walks(
            form("forall"@, seq![gen, check]),
            env,
            s,
            f + 1,
            seq![
                truth_atom(
                    forall|i: int| 0 <= i < cs.len() ==> counts_as_true(#[trigger] cs[i]),
                ),
            ],
            s,
        ),
{
    form_names_are_bound();
    lemma_walked_form("forall"@, seq![gen, check], env, s, f);
    lemma_forall_from(name, raw_atoms(rs), cs, env, s, f, 0);
    assert(raw_values(rs) =~= raw_atoms(rs));
    let all = forall|i: int| 0 <= i < cs.len() ==> counts_as_true(#[trigger] cs[i]);
    assert(all == all_count(cs, 0));
}

} // verus!
