//! The value of a fold over all values of an expression.
use crate::atom::AtomV;
use crate::env::EnvV;
use crate::eval::machine::budget::ResultV;
use crate::eval::machine::budget::plain_results;
use crate::eval::machine::budget::raw_atoms;
use crate::eval::machine::vm::bodies::waiting;
use crate::eval::machine::vm::compiler::ScopeV;
use crate::eval::machine::vm::compiler::compiled;
use crate::eval::machine::vm::iterate::alone;
use crate::eval::machine::vm::op::BlockV;
use crate::eval::machine::vm::op::OpcodeV;
use crate::eval::machine::vm::outcome::VmOutV;
use crate::eval::machine::vm::plain::popped;
use crate::eval::machine::vm::plain::pushed;
use crate::eval::machine::vm::plain::top;
use crate::eval::machine::vm::state::VmV;
use crate::eval::machine::vm::state::WaitV;
use crate::eval::machine::vm::state::at_fresh;
use crate::eval::machine::vm::state::inherited;
use crate::eval::machine::vm::state::vm_start;
use crate::eval::shared::pattern::KnownV;
use crate::eval::shared::pattern::all_ground;
use crate::eval::shared::pattern::is_ground;
use crate::expr::ExprV;
use crate::func::TableV;
use crate::laws::applying::lemma_at_split;
use crate::laws::applying::lemma_behind;
use crate::laws::branching::lemma_forms;
use crate::laws::branching::lemma_part_scope;
use crate::laws::folding::accumulated;
use crate::laws::folding::call_on;
use crate::laws::folding::lemma_at_turn;
use crate::laws::folding::lemma_first_ground;
use crate::laws::folding::steps_give;
use crate::laws::meaning::code_leaves;
use crate::laws::meaning::ends_with;
use crate::laws::meaning::gives;
use crate::laws::meaning::is_at;
use crate::laws::meaning::is_past;
use crate::laws::meaning::is_scope;
use crate::laws::meaning::leaves;
use crate::laws::meaning::lemma_at_op;
use crate::laws::meaning::lemma_ground_results;
use crate::laws::meaning::lemma_started;
use crate::laws::meaning::means;
use crate::laws::running::gets;
use crate::laws::running::lemma_gets_join;
use crate::laws::running::lemma_gets_step;
use crate::laws::running::lemma_gets_sub;
use crate::laws::running::makes;
use crate::laws::running::takes;
use crate::text::is_var_name;
use vstd::prelude::*;

verus! {

/// A machine that runs a call alone, in an environment, ends with its value.
proof fn lemma_call_runs_in(call: ExprV, t: TableV, v: AtomV, env: EnvV)
    requires
        means(call, t, seq![v]),
    ensures
        compiled(call, alone(), false) is Ok,
        compiled(call, alone(), false)->Ok_0.1 == Seq::<Seq<char>>::empty(),
        ({
            let c = compiled(call, alone(), false)->Ok_0;
            let sub = vm_start(
                BlockV { code: c.0, free_vars: c.1 },
                Seq::empty(),
                Seq::empty(),
                None,
                env,
            );
            exists|rs: ResultV| #[trigger] ends_with(sub, t, rs) && raw_atoms(rs) == seq![v]
        }),
{
    let c = alone();
    assert(c.locals =~= Seq::<Seq<char>>::empty());
    assert(is_scope(c, call, Seq::empty(), false));
    let k = compiled(call, c, false)->Ok_0;
    let sub = vm_start(
        BlockV { code: k.0, free_vars: k.1 },
        Seq::empty(),
        Seq::empty(),
        None,
        env,
    );
    assert(raw_atoms(sub.locals) =~= Seq::<AtomV>::empty());
    lemma_started(sub, k.0, Seq::empty(), t, seq![v]);
}

/// The rest of a fold over values.
proof fn lemma_foldall_goes_on(
    s: VmV,
    t: TableV,
    head: ExprV,
    env: EnvV,
    acc: AtomV,
    vs: Seq<AtomV>,
    g: spec_fn(AtomV, AtomV) -> AtomV,
    k: nat,
)
    requires
        k <= vs.len(),
        s.ip < s.code.len(),
        s.budget is None,
        s.known == Seq::<KnownV>::empty(),
        s.wait == WaitV::Foldall(head, env, accumulated(acc, vs, g, k), vs, k),
        steps_give(head, acc, vs, g, t),
    ensures
        gets(s, t, pushed(s, plain_results(seq![accumulated(acc, vs, g, vs.len())])), t),
    decreases vs.len() - k,
{
    let now = accumulated(acc, vs, g, k);
    lemma_at_turn(s, t);
    let end = pushed(s, plain_results(seq![accumulated(acc, vs, g, vs.len())]));
    if k == vs.len() {
        lemma_gets_step(s, t, end, t);
    } else {
        let next = accumulated(acc, vs, g, k + 1);
        let call = call_on(head, now, vs[k as int]);
        lemma_call_runs_in(call, t, next, env);
        let c = compiled(call, alone(), false)->Ok_0;
        let sub = vm_start(
            BlockV { code: c.0, free_vars: c.1 },
            Seq::empty(),
            Seq::empty(),
            None,
            env,
        );
        let rs = choose|rs: ResultV| #[trigger]
            ends_with(sub, t, rs) && raw_atoms(rs) == seq![next];
        let s1 = waiting(s, WaitV::Foldall(head, env, now, vs, k + 1));
        assert(inherited(c.1, s.free_vars, s.bindings, t.fresh).0 =~= Seq::<AtomV>::empty());
        assert(at_fresh(t, t.fresh) == t);
        assert(makes(s, t) == (VmOutV::Sub(sub, None), s1, t));
        lemma_first_ground(rs, next);
        let s2 = waiting(s1, WaitV::Foldall(head, env, next, vs, k + 1));
        assert(takes(s1, t, rs, None) == (VmOutV::Next, s2, t)) by {
            reveal(takes);
        }
        lemma_gets_sub(s, t, sub, None, s1, t, rs, None, t, s2, t);
        lemma_foldall_goes_on(s2, t, head, env, acc, vs, g, k + 1);
        assert(pushed(s2, plain_results(seq![accumulated(acc, vs, g, vs.len())])) == end);
        lemma_gets_join(s, t, s2, t, end, t);
    }
}

/// A fold over all values of an expression goes from the first value on, with the
/// accumulator as first argument: where `gen` has the values `v1 .. vn`,
/// `(foldall f gen a)` gives `f(..f(f(a, v1), v2).., vn)`.
pub proof fn all_values_are_folded_from_the_first(
    f: ExprV,
    gen: ExprV,
    a: ExprV,
    names: Seq<Seq<char>>,
    vals: Seq<AtomV>,
    t: TableV,
    vs: Seq<AtomV>,
    acc: AtomV,
    name: Seq<char>,
    g: spec_fn(AtomV, AtomV) -> AtomV,
)
    requires
        gives(gen, names, vals, t, vs),
        gives(a, names, vals, t, seq![acc]),
        gives(f, names, vals, t, seq![AtomV::Sym(name)]),
        all_ground(vs),
        is_ground(acc),
        !is_var_name(name),
        steps_give(ExprV::Symbol(name), acc, vs, g, t),
    ensures
        gives(
            ExprV::List(seq![ExprV::Symbol("foldall"@), f, gen, a]),
            names,
            vals,
            t,
            seq![accumulated(acc, vs, g, vs.len())],
        ),
{
    let parts = seq![ExprV::Symbol("foldall"@), f, gen, a];
    let e = ExprV::List(parts);
    let want = accumulated(acc, vs, g, vs.len());
    lemma_forms(f, gen, a);
    assert forall|c: ScopeV, tail: bool|
        #![trigger compiled(e, c, tail)]
        is_scope(c, e, names, tail) implies {
        &&& compiled(e, c, tail) is Ok
        &&& compiled(e, c, tail)->Ok_0.1 == Seq::<Seq<char>>::empty()
        &&& code_leaves(compiled(e, c, tail)->Ok_0.0, vals, t, seq![want])
    } by {
        lemma_part_scope(c, parts, 1, names, tail);
        lemma_part_scope(c, parts, 2, names, tail);
        lemma_part_scope(c, parts, 3, names, tail);
        let kg = compiled(gen, c, false)->Ok_0;
        let ka = compiled(a, c, false)->Ok_0;
        let kf = compiled(f, c, false)->Ok_0;
        let op = seq![OpcodeV::Foldall];
        let code = kg.0 + ka.0 + kf.0 + op;
        assert(compiled(e, c, tail)->Ok_0.0 == code);
        assert forall|s: VmV| #[trigger] is_at(s, code, vals) implies leaves(
            s,
            t,
            code.len(),
            seq![want],
        ) by {
            assert(code =~= kg.0 + (ka.0 + (kf.0 + op)));
            lemma_at_split(s, kg.0, ka.0 + (kf.0 + op), vals);
            assert(leaves(s, t, kg.0.len(), vs));
            let s1 = choose|s1: VmV| #[trigger]
                gets(s, t, s1, t) && is_past(s, kg.0.len(), vs, s1);
            lemma_behind(s, kg.0, ka.0 + (kf.0 + op), vals, s1);
            lemma_at_split(s1, ka.0, kf.0 + op, vals);
            assert(leaves(s1, t, ka.0.len(), seq![acc]));
            let s2 = choose|s2: VmV| #[trigger]
                gets(s1, t, s2, t) && is_past(s1, ka.0.len(), seq![acc], s2);
            lemma_behind(s1, ka.0, kf.0 + op, vals, s2);
            lemma_gets_join(s, t, s1, t, s2, t);
            lemma_at_split(s2, kf.0, op, vals);
            assert(leaves(s2, t, kf.0.len(), seq![AtomV::Sym(name)]));
            let s3 = choose|s3: VmV| #[trigger]
                gets(s2, t, s3, t) && is_past(s2, kf.0.len(), seq![AtomV::Sym(name)], s3);
            lemma_behind(s2, kf.0, op, vals, s3);
            lemma_gets_join(s, t, s2, t, s3, t);
            lemma_at_op(s3, t, OpcodeV::Foldall, vals);
            let rg = s1.stack.last();
            let ra = s2.stack.last();
            let rf = s3.stack.last();
            assert(top(s3, 0) == rf);
            assert(top(s3, 1) == ra);
            assert(top(s3, 2) == rg);
            lemma_first_ground(ra, acc);
            lemma_first_ground(rf, AtomV::Sym(name));
            lemma_ground_results(rg);
            let p = popped(s3, 3);
            assert(p.stack =~= s.stack);
            let h = ExprV::Symbol(name);
            let s4 = waiting(p, WaitV::Foldall(h, s3.env, acc, vs, 0));
            assert(makes(s3, t) == (VmOutV::Next, s4, t));
            lemma_gets_step(s3, t, s4, t);
            lemma_gets_join(s, t, s3, t, s4, t);
            lemma_foldall_goes_on(s4, t, h, s3.env, acc, vs, g, 0);
            let s5 = pushed(s4, plain_results(seq![want]));
            lemma_gets_join(s, t, s4, t, s5, t);
            assert(raw_atoms(plain_results(seq![want])) =~= seq![want]);
            assert(is_past(s, code.len(), seq![want], s5));
        }
    }
}

} // verus!
