//! Folds, on the values they end with.
use crate::atom::AtomV;
use crate::atom::symbol;
use crate::builtins::AnswerV;
use crate::builtins::arithmetic::with_arithmetic_builtins;
use crate::builtins::called;
use crate::compile::reify::to_expr;
use crate::env::EnvV;
use crate::eval::machine::budget::ResultV;
use crate::eval::machine::budget::plain_results;
use crate::eval::machine::budget::raw_atoms;
use crate::eval::machine::vm::bodies::first_value;
use crate::eval::machine::vm::bodies::waiting;
use crate::eval::machine::vm::compiler::ScopeV;
use crate::eval::machine::vm::compiler::all_compiled;
use crate::eval::machine::vm::compiler::compiled;
use crate::eval::machine::vm::compiler::form_of;
use crate::eval::machine::vm::iterate::alone;
use crate::eval::machine::vm::op::BlockV;
use crate::eval::machine::vm::op::OpcodeV;
use crate::eval::machine::vm::outcome::VmOutV;
use crate::eval::machine::vm::plain::popped;
use crate::eval::machine::vm::plain::pushed;
use crate::eval::machine::vm::plain::top;
use crate::eval::machine::vm::run::body_turn;
use crate::eval::machine::vm::state::VmV;
use crate::eval::machine::vm::state::WaitV;
use crate::eval::machine::vm::state::at_fresh;
use crate::eval::machine::vm::state::inherited;
use crate::eval::machine::vm::state::vm_start;
use crate::eval::shared::pattern::KnownV;
use crate::eval::shared::pattern::is_ground;
use crate::eval::shared::subst::substitution_of_ground;
use crate::expr::ExprV;
use crate::func::Builtin;
use crate::func::TableV;
use crate::laws::applying::answers;
use crate::laws::applying::applications_apply_heads_to_arguments;
use crate::laws::applying::are_single;
use crate::laws::applying::each_gives;
use crate::laws::applying::is_stacked;
use crate::laws::applying::lemma_arguments;
use crate::laws::applying::lemma_at_split;
use crate::laws::applying::lemma_behind;
use crate::laws::meaning::code_leaves;
use crate::laws::meaning::ends_with;
use crate::laws::meaning::gives;
use crate::laws::meaning::is_at;
use crate::laws::meaning::is_past;
use crate::laws::meaning::is_scope;
use crate::laws::meaning::leaves;
use crate::laws::meaning::lemma_at_op;
use crate::laws::meaning::lemma_ground_same;
use crate::laws::meaning::lemma_started;
use crate::laws::meaning::literals_mean_themselves;
use crate::laws::meaning::means;
use crate::laws::naming::arithmetic_names_are_bound;
use crate::laws::numbers::int_atom;
use crate::laws::numbers::integers_are_computed_exactly;
use crate::laws::running::gets;
use crate::laws::running::lemma_gets_join;
use crate::laws::running::lemma_gets_step;
use crate::laws::running::lemma_gets_sub;
use crate::laws::running::makes;
use crate::laws::running::takes;
use crate::numeric::NumV;
use crate::text::is_var_name;
use vstd::prelude::*;
use vstd::string::*;

verus! {

/// The call of a function on two values.
pub open spec fn call_on(head: ExprV, x: AtomV, y: AtomV) -> ExprV {
    ExprV::List(seq![head, to_expr(x), to_expr(y)])
}

/// The accumulators of a fold from the left: the first one, and after each
/// element what the function makes of the accumulator and the element.
pub open spec fn accumulated(
    acc: AtomV,
    items: Seq<AtomV>,
    g: spec_fn(AtomV, AtomV) -> AtomV,
    k: nat,
) -> AtomV
    decreases k,
{
    if k == 0 {
        acc
    } else {
        g(accumulated(acc, items, g, (k - 1) as nat), items[k - 1])
    }
}

/// Whether calls of a function on accumulator and element give what a function
/// of values says, at each step of a fold from the left.
pub open spec fn steps_give(
    head: ExprV,
    acc: AtomV,
    items: Seq<AtomV>,
    g: spec_fn(AtomV, AtomV) -> AtomV,
    t: TableV,
) -> bool {
    forall|k: nat|
        k < items.len() ==> {
            let next = #[trigger] accumulated(acc, items, g, k + 1);
            &&& means(
                call_on(head, accumulated(acc, items, g, k), items[k as int]),
                t,
                seq![next],
            )
            &&& is_ground(next)
        }
}

/// The turn of an instruction with several bodies that a machine is at.
pub proof fn lemma_at_turn(s: VmV, t: TableV)
    requires
        !(s.wait is Ready || s.wait is Iterate || s.wait is Drain),
        s.ip < s.code.len(),
    ensures
        makes(s, t) == body_turn(s, t, s.code[s.ip as int]),
{
    reveal(makes);
}

/// The rest of a fold.
proof fn lemma_fold_goes_on(
    s: VmV,
    t: TableV,
    head: ExprV,
    acc: AtomV,
    items: Seq<AtomV>,
    g: spec_fn(AtomV, AtomV) -> AtomV,
    k: nat,
)
    requires
        k <= items.len(),
        s.ip < s.code.len(),
        s.budget is None,
        s.known == Seq::<KnownV>::empty(),
        s.wait == WaitV::Foldl(head, accumulated(acc, items, g, k), items, k),
        steps_give(head, acc, items, g, t),
    ensures
        gets(
            s,
            t,
            pushed(s, plain_results(seq![accumulated(acc, items, g, items.len())])),
            t,
        ),
    decreases items.len() - k,
{
    let now = accumulated(acc, items, g, k);
    lemma_at_turn(s, t);
    let end = pushed(s, plain_results(seq![accumulated(acc, items, g, items.len())]));
    if k == items.len() {
        lemma_gets_step(s, t, end, t);
    } else {
        let next = accumulated(acc, items, g, k + 1);
        let call = call_on(head, now, items[k as int]);
        lemma_call_runs(call, t, next);
        let c = compiled(call, alone(), false)->Ok_0;
        let sub = vm_start(
            BlockV { code: c.0, free_vars: c.1 },
            Seq::empty(),
            Seq::empty(),
            None,
            EnvV::Empty,
        );
        let rs = choose|rs: ResultV| #[trigger]
            ends_with(sub, t, rs) && raw_atoms(rs) == seq![next];
        let s1 = waiting(s, WaitV::Foldl(head, now, items, k + 1));
        assert(inherited(c.1, s.free_vars, s.bindings, t.fresh).0 =~= Seq::<AtomV>::empty());
        assert(at_fresh(t, t.fresh) == t);
        assert(makes(s, t) == (VmOutV::Sub(sub, None), s1, t));
        lemma_first_ground(rs, next);
        let s2 = waiting(s1, WaitV::Foldl(head, next, items, k + 1));
        assert(takes(s1, t, rs, None) == (VmOutV::Next, s2, t)) by {
            reveal(takes);
        }
        lemma_gets_sub(s, t, sub, None, s1, t, rs, None, t, s2, t);
        lemma_fold_goes_on(s2, t, head, acc, items, g, k + 1);
        assert(pushed(s2, plain_results(seq![accumulated(acc, items, g, items.len())])) == end);
        lemma_gets_join(s, t, s2, t, end, t);
    }
}

/// A machine that runs a call alone ends with its value.
pub proof fn lemma_call_runs(call: ExprV, t: TableV, v: AtomV)
    requires
        means(call, t, seq![v]),
    ensures
        compiled(call, alone(), false) is Ok,
        compiled(call, alone(), false)->Ok_0.1 == Seq::<Seq<char>>::empty(),
        ({
            let c = compiled(call, alone(), false)->Ok_0;
            let sub = vm_start(
                BlockV { code: c.0, free_vars: c.1 },
                Seq::empty(),
                Seq::empty(),
                None,
                EnvV::Empty,
            );
            exists|rs: ResultV| #[trigger] ends_with(sub, t, rs) && raw_atoms(rs) == seq![v]
        }),
{
    let c = alone();
    assert(c.locals =~= Seq::<Seq<char>>::empty());
    assert(is_scope(c, call, Seq::empty(), false));
    let k = compiled(call, c, false)->Ok_0;
    let sub = vm_start(
        BlockV { code: k.0, free_vars: k.1 },
        Seq::empty(),
        Seq::empty(),
        None,
        EnvV::Empty,
    );
    assert(raw_atoms(sub.locals) =~= Seq::<AtomV>::empty());
    lemma_started(sub, k.0, Seq::empty(), t, seq![v]);
}

/// The first value of one result without variables.
pub proof fn lemma_first_ground(rs: ResultV, v: AtomV)
    requires
        raw_atoms(rs) == seq![v],
        is_ground(v),
    ensures
        first_value(rs) == Some(v),
        rs.len() == 1,
{
    assert(raw_atoms(rs).len() == 1);
    assert(raw_atoms(rs)[0] == rs[0].0);
    lemma_ground_same(v);
    substitution_of_ground(v, rs[0].1);
}

/// A fold of a list with a function goes from the left, with the accumulator as
/// first argument: `(foldl-atom (x1 .. xn) a f)` gives `f(..f(f(a, x1), x2).., xn)`.
pub proof fn folds_go_from_the_left(
    l: ExprV,
    a: ExprV,
    f: ExprV,
    names: Seq<Seq<char>>,
    vals: Seq<AtomV>,
    t: TableV,
    items: Seq<AtomV>,
    acc: AtomV,
    name: Seq<char>,
    g: spec_fn(AtomV, AtomV) -> AtomV,
)
    requires
        gives(l, names, vals, t, seq![AtomV::Expr(items)]),
        gives(a, names, vals, t, seq![acc]),
        gives(f, names, vals, t, seq![AtomV::Sym(name)]),
        is_ground(AtomV::Expr(items)),
        is_ground(acc),
        !is_var_name(name),
        steps_give(ExprV::Symbol(name), acc, items, g, t),
    ensures
        gives(
            ExprV::List(seq![ExprV::Symbol("foldl-atom"@), l, a, f]),
            names,
            vals,
            t,
            seq![accumulated(acc, items, g, items.len())],
        ),
{
    let parts = seq![ExprV::Symbol("foldl-atom"@), l, a, f];
    let e = ExprV::List(parts);
    let want = accumulated(acc, items, g, items.len());
    lemma_foldl_form(l, a, f);
    let xs = seq![AtomV::Expr(items), acc, AtomV::Sym(name)];
    let es = seq![l, a, f];
    assert(each_gives(es, names, vals, t, xs));
    assert forall|c: ScopeV, tail: bool|
        #![trigger compiled(e, c, tail)]
        is_scope(c, e, names, tail) implies {
        &&& compiled(e, c, tail) is Ok
        &&& compiled(e, c, tail)->Ok_0.1 == Seq::<Seq<char>>::empty()
        &&& code_leaves(compiled(e, c, tail)->Ok_0.0, vals, t, seq![want])
    } by {
        lemma_arguments(es, names, vals, t, xs, c);
        lemma_three_compiled(l, a, f, c, names, vals, t, xs);
        let args = all_compiled(es, c)->Ok_0;
        let op = seq![OpcodeV::Foldl];
        let code = args.0 + op;
        assert(compiled(e, c, tail)->Ok_0.0 =~= code);
        assert forall|s: VmV| #[trigger] is_at(s, code, vals) implies leaves(
            s,
            t,
            code.len(),
            seq![want],
        ) by {
            lemma_at_split(s, args.0, op, vals);
            let (s1, sets) = choose|s1: VmV, sets: Seq<ResultV>|
                #![trigger gets(s, t, s1, t), are_single(sets, xs)]
                gets(s, t, s1, t) && are_single(sets, xs) && is_stacked(s, args.0.len(), sets, s1);
            lemma_behind(s, args.0, op, vals, s1);
            lemma_at_op(s1, t, OpcodeV::Foldl, vals);
            assert(raw_atoms(sets[0]) == seq![xs[0]]);
            assert(raw_atoms(sets[1]) == seq![xs[1]]);
            assert(raw_atoms(sets[2]) == seq![xs[2]]);
            assert(top(s1, 0) == sets[2]);
            assert(top(s1, 1) == sets[1]);
            assert(top(s1, 2) == sets[0]);
            lemma_first_ground(sets[0], xs[0]);
            lemma_first_ground(sets[1], xs[1]);
            lemma_first_ground(sets[2], xs[2]);
            let p = popped(s1, 3);
            assert(p.stack =~= s.stack);
            let s2 = waiting(p, WaitV::Foldl(ExprV::Symbol(name), acc, items, 0));
            assert(makes(s1, t) == (VmOutV::Next, s2, t));
            lemma_gets_step(s1, t, s2, t);
            lemma_gets_join(s, t, s1, t, s2, t);
            lemma_fold_goes_on(s2, t, ExprV::Symbol(name), acc, items, g, 0);
            let s3 = pushed(s2, plain_results(seq![want]));
            lemma_gets_join(s, t, s2, t, s3, t);
            assert(raw_atoms(plain_results(seq![want])) =~= seq![want]);
            assert(is_past(s, code.len(), seq![want], s3));
        }
    }
}

/// A list that starts with `foldl-atom` and three more is a fold.
proof fn lemma_foldl_form(l: ExprV, a: ExprV, f: ExprV)
    ensures
        form_of(seq![ExprV::Symbol("foldl-atom"@), l, a, f]) is Foldl,
{
    reveal_strlit("foldl-atom");
    reveal_strlit("if");
    reveal_strlit("match");
    reveal_strlit("let");
    reveal_strlit("foldall");
    assert("foldl-atom"@.len() == 10 && "if"@.len() == 2 && "match"@.len() == 5 && "let"@.len()
        == 3 && "foldall"@.len() == 7);
}

/// The code of three expressions is that of each after the other.
pub proof fn lemma_three_compiled(
    x: ExprV,
    y: ExprV,
    z: ExprV,
    c: ScopeV,
    names: Seq<Seq<char>>,
    vals: Seq<AtomV>,
    t: TableV,
    xs: Seq<AtomV>,
)
    requires
        each_gives(seq![x, y, z], names, vals, t, xs),
        c.locals == names,
        c.free == Seq::<Seq<char>>::empty(),
    ensures
        compiled(x, c, false) is Ok && compiled(y, c, false) is Ok && compiled(z, c, false) is Ok,
        compiled(x, c, false)->Ok_0.1 == c.free,
        compiled(y, c, false)->Ok_0.1 == c.free,
        compiled(z, c, false)->Ok_0.1 == c.free,
        c.knowing(c.free) == c,
        all_compiled(seq![x, y, z], c)->Ok_0.0 == compiled(x, c, false)->Ok_0.0 + compiled(
            y,
            c,
            false,
        )->Ok_0.0 + compiled(z, c, false)->Ok_0.0,
{
    let es = seq![x, y, z];
    assert(gives(es[0], names, vals, t, seq![xs[0]]));
    assert(gives(es[1], names, vals, t, seq![xs[1]]));
    assert(gives(es[2], names, vals, t, seq![xs[2]]));
    assert(is_scope(c, x, names, false) && is_scope(c, y, names, false) && is_scope(
        c,
        z,
        names,
        false,
    ));
    assert(c.knowing(c.free) == c);
    assert(es.drop_last() =~= seq![x, y]);
    assert(seq![x, y].drop_last() =~= seq![x]);
    assert(seq![x].drop_last() =~= Seq::<ExprV>::empty());
    let kx = compiled(x, c, false)->Ok_0;
    let ky = compiled(y, c, false)->Ok_0;
    let none: Seq<ExprV> = Seq::empty();
    assert(all_compiled(none, c) == Ok::<(Seq<OpcodeV>, Seq<Seq<char>>), Seq<char>>(
        (Seq::empty(), c.free),
    ));
    assert(Seq::<OpcodeV>::empty() + kx.0 =~= kx.0);
    assert(all_compiled(seq![x], c) == Ok::<(Seq<OpcodeV>, Seq<Seq<char>>), Seq<char>>(
        (kx.0, c.free),
    ));
    assert(all_compiled(seq![x, y], c) == Ok::<(Seq<OpcodeV>, Seq<Seq<char>>), Seq<char>>(
        (kx.0 + ky.0, c.free),
    ));
}

/// Integers as atoms.
pub open spec fn int_atoms(xs: Seq<int>) -> Seq<AtomV> {
    Seq::new(xs.len(), |i: int| int_atom(xs[i]))
}

/// The sum of integers.
pub open spec fn total(xs: Seq<int>) -> int
    decreases xs.len(),
{
    if xs.len() == 0 {
        0
    } else {
        total(xs.drop_last()) + xs.last()
    }
}

/// What `-` makes of two atoms.
pub open spec fn minus_atoms() -> spec_fn(AtomV, AtomV) -> AtomV {
    |x: AtomV, y: AtomV| int_atom(x->Num_0->Int_0 - y->Num_0->Int_0)
}

/// The accumulators of a fold with `-`.
proof fn lemma_minus_accumulates(a: int, xs: Seq<int>, k: nat)
    requires
        k <= xs.len(),
    ensures
        accumulated(int_atom(a), int_atoms(xs), minus_atoms(), k) == int_atom(
            a - total(xs.take(k as int)),
        ),
    decreases k,
{
    if k > 0 {
        lemma_minus_accumulates(a, xs, (k - 1) as nat);
        assert(xs.take(k as int).drop_last() =~= xs.take(k - 1));
        assert(xs.take(k as int).last() == xs[k - 1]);
        assert(int_atoms(xs)[k - 1] == int_atom(xs[k - 1]));
    } else {
        assert(xs.take(0) =~= Seq::<int>::empty());
    }
}

/// A call of an operator is an application.
pub proof fn lemma_operator_form(x: ExprV, y: ExprV)
    ensures
        form_of(seq![ExprV::Symbol("-"@), x, y]) is Apply,
        form_of(seq![ExprV::Symbol("+"@), x, y]) is Apply,
        form_of(seq![ExprV::Symbol("*"@), x, y]) is Apply,
        form_of(seq![ExprV::Symbol("<"@), x, y]) is Apply,
        form_of(seq![ExprV::Symbol(">"@), x, y]) is Apply,
        form_of(seq![ExprV::Symbol("<="@), x, y]) is Apply,
        form_of(seq![ExprV::Symbol(">="@), x, y]) is Apply,
{
    reveal_strlit("-");
    reveal_strlit("+");
    reveal_strlit("*");
    reveal_strlit("<");
    reveal_strlit(">");
    reveal_strlit("<=");
    reveal_strlit(">=");
    reveal_strlit("if");
    reveal_strlit("case");
    reveal_strlit("let*");
    reveal_strlit("forall");
    reveal_strlit("|->");
    reveal_strlit("map-atom");
    reveal_strlit("filter-atom");
    reveal_strlit("within");
    reveal_strlit("once");
    reveal_strlit("progn");
    reveal_strlit("prog1");
    reveal_strlit("chain");
    reveal_strlit("add-atom");
    reveal_strlit("remove-atom");
    assert("-"@.len() == 1 && "+"@.len() == 1 && "*"@.len() == 1 && "<"@.len() == 1 && ">"@.len()
        == 1);
    assert("<="@.len() == 2 && ">="@.len() == 2 && "if"@.len() == 2);
    assert("<="@[0] == '<' && ">="@[0] == '>' && "if"@[0] == 'i');
    assert("case"@.len() == 4 && "let*"@.len() == 4 && "forall"@.len() == 6 && "|->"@.len() == 3);
    assert("map-atom"@.len() == 8 && "filter-atom"@.len() == 11 && "within"@.len() == 6);
    assert("once"@.len() == 4 && "progn"@.len() == 5 && "prog1"@.len() == 5 && "chain"@.len() == 5);
    assert("add-atom"@.len() == 8 && "remove-atom"@.len() == 11);
}

/// A call of a built-in function of two arguments has the values that the
/// function computes from the values of the arguments, in their order.
pub proof fn calls_of_two_are_computed(
    name: Seq<char>,
    b: Builtin,
    ex: ExprV,
    ey: ExprV,
    names: Seq<Seq<char>>,
    vals: Seq<AtomV>,
    t: TableV,
    x: AtomV,
    y: AtomV,
    vs: Seq<AtomV>,
)
    requires
        form_of(seq![ExprV::Symbol(name), ex, ey]) is Apply,
        !is_var_name(name),
        symbol(name) == AtomV::Sym(name),
        name != "member"@ && name != "is-member"@,
        t.natives.contains_pair((name, 2u8), b),
        gives(ex, names, vals, t, seq![x]),
        gives(ey, names, vals, t, seq![y]),
        called(b, name, seq![x, y], t) == (AnswerV::Values(vs), t),
    ensures
        gives(
            ExprV::List(seq![ExprV::Symbol(name), ex, ey]),
            names,
            vals,
            t,
            vs,
        ),
{
    let items = seq![ExprV::Symbol(name), ex, ey];
    literals_mean_themselves(NumV::Int(0), name, names, vals, t);
    assert(items.skip(1) =~= seq![ex, ey]);
    let xs = seq![x, y];
    assert(each_gives(items.skip(1), names, vals, t, xs));
    assert(answers(AtomV::Sym(name), xs, t, vs));
    applications_apply_heads_to_arguments(items, names, vals, t, AtomV::Sym(name), xs, vs);
}

/// The operators on numbers are no other names.
pub proof fn lemma_operator_names()
    ensures
        symbol("-"@) == AtomV::Sym("-"@) && !is_var_name("-"@) && "-"@ != "member"@ && "-"@
            != "is-member"@,
        symbol("+"@) == AtomV::Sym("+"@) && !is_var_name("+"@) && "+"@ != "member"@ && "+"@
            != "is-member"@,
        symbol("*"@) == AtomV::Sym("*"@) && !is_var_name("*"@) && "*"@ != "member"@ && "*"@
            != "is-member"@,
        symbol("<"@) == AtomV::Sym("<"@) && !is_var_name("<"@) && "<"@ != "member"@ && "<"@
            != "is-member"@,
        symbol(">"@) == AtomV::Sym(">"@) && !is_var_name(">"@) && ">"@ != "member"@ && ">"@
            != "is-member"@,
        symbol("<="@) == AtomV::Sym("<="@) && !is_var_name("<="@) && "<="@ != "member"@ && "<="@
            != "is-member"@,
        symbol(">="@) == AtomV::Sym(">="@) && !is_var_name(">="@) && ">="@ != "member"@ && ">="@
            != "is-member"@,
{
    reveal_strlit("-");
    reveal_strlit("+");
    reveal_strlit("*");
    reveal_strlit("<");
    reveal_strlit(">");
    reveal_strlit("<=");
    reveal_strlit(">=");
    reveal_strlit("member");
    reveal_strlit("is-member");
    reveal_strlit("True");
    reveal_strlit("False");
    assert("-"@.len() == 1 && "+"@.len() == 1 && "*"@.len() == 1 && "<"@.len() == 1 && ">"@.len()
        == 1);
    assert("<="@.len() == 2 && ">="@.len() == 2);
    assert("member"@.len() == 6 && "is-member"@.len() == 9 && "True"@.len() == 4 && "False"@.len()
        == 5);
    assert("-"@[0] == '-' && "+"@[0] == '+' && "*"@[0] == '*' && "<"@[0] == '<' && ">"@[0] == '>');
    assert("<="@[0] == '<' && ">="@[0] == '>');
}

/// `(foldl-atom (x1 .. xn) a -)` on integers gives `a - x1 - .. - xn`.
pub proof fn folding_with_minus_subtracts_all(
    l: ExprV,
    a: ExprV,
    names: Seq<Seq<char>>,
    vals: Seq<AtomV>,
    t0: TableV,
    xs: Seq<int>,
    n: int,
)
    requires
        gives(l, names, vals, with_arithmetic_builtins(t0), seq![AtomV::Expr(int_atoms(xs))]),
        gives(a, names, vals, with_arithmetic_builtins(t0), seq![int_atom(n)]),
    ensures
        gives(
            ExprV::List(seq![ExprV::Symbol("foldl-atom"@), l, a, ExprV::Symbol("-"@)]),
            names,
            vals,
            with_arithmetic_builtins(t0),
            seq![int_atom(n - total(xs))],
        ),
{
    let t = with_arithmetic_builtins(t0);
    let items = int_atoms(xs);
    let acc = int_atom(n);
    let g = minus_atoms();
    let f = ExprV::Symbol("-"@);
    lemma_operator_names();
    arithmetic_names_are_bound(t0);
    literals_mean_themselves(NumV::Int(0), "-"@, names, vals, t);
    assert forall|k: nat| k < items.len() implies ({
        let next = #[trigger] accumulated(acc, items, g, k + 1);
        &&& means(call_on(f, accumulated(acc, items, g, k), items[k as int]), t, seq![next])
        &&& is_ground(next)
    }) by {
        let x = n - total(xs.take(k as int));
        let y = xs[k as int];
        lemma_minus_accumulates(n, xs, k);
        lemma_minus_accumulates(n, xs, k + 1);
        assert(xs.take((k + 1) as int).drop_last() =~= xs.take(k as int));
        assert(xs.take((k + 1) as int).last() == y);
        let ex = ExprV::Number(NumV::Int(x));
        let ey = ExprV::Number(NumV::Int(y));
        lemma_operator_form(ex, ey);
        literals_mean_themselves(NumV::Int(x), "-"@, Seq::empty(), Seq::empty(), t);
        literals_mean_themselves(NumV::Int(y), "-"@, Seq::empty(), Seq::empty(), t);
        integers_are_computed_exactly(t0, x, y);
        calls_of_two_are_computed(
            "-"@,
            Builtin::Sub,
            ex,
            ey,
            Seq::empty(),
            Seq::empty(),
            t,
            int_atom(x),
            int_atom(y),
            seq![int_atom(x - y)],
        );
    }
    assert(steps_give(f, acc, items, g, t));
    assert(is_ground(AtomV::Expr(items))) by {
        assert forall|i: int| 0 <= i < items.len() implies is_ground(#[trigger] items[i]) by {}
    }
    folds_go_from_the_left(l, a, f, names, vals, t, items, acc, "-"@, g);
    lemma_minus_accumulates(n, xs, xs.len());
    assert(xs.take(xs.len() as int) =~= xs);
}

} // verus!
