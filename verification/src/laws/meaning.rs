//! The values of expressions without free variables, by their parts.
use crate::atom::AtomV;
use crate::atom::symbol;
use crate::env::EnvV;
use crate::eval::machine::budget::ResultV;
use crate::eval::machine::budget::plain_results;
use crate::eval::machine::budget::raw_atoms;
use crate::eval::machine::budget::result_atoms;
use crate::eval::machine::vm::compiler::ScopeV;
use crate::eval::machine::vm::compiler::compiled;
use crate::eval::machine::vm::frames::code_ended;
use crate::eval::machine::vm::frames::over_env;
use crate::eval::machine::vm::iterate::alone;
use crate::eval::machine::vm::op::BlockV;
use crate::eval::machine::vm::op::OpcodeV;
use crate::eval::machine::vm::outcome::VmOutV;
use crate::eval::machine::vm::plain::pushed;
use crate::eval::machine::vm::run::instruction;
use crate::eval::machine::vm::state::VmV;
use crate::eval::machine::vm::state::at_fresh;
use crate::eval::machine::vm::state::inherited;
use crate::eval::machine::vm::state::vm_start;
use crate::eval::shared::pattern::KnownV;
use crate::eval::shared::pattern::all_ground;
use crate::eval::shared::pattern::is_ground;
use crate::eval::shared::pattern::stands_in;
use crate::eval::shared::subst::substitution_of_ground;
use crate::expr::ExprV;
use crate::func::TableV;
use crate::laws::running::evaluates;
use crate::laws::running::finishes;
use crate::laws::running::gets;
use crate::laws::running::lemma_finishes_evaluates;
use crate::laws::running::lemma_gets_step;
use crate::laws::running::makes;
use crate::numeric::NumV;
use crate::text::is_var_name;
use crate::text::last_index;
use vstd::prelude::*;

verus! {

/// Whether a scope is one for an expression: its local variables have these
/// names, there are no free variables, and no call in it becomes a jump.
pub open spec fn is_scope(c: ScopeV, e: ExprV, names: Seq<Seq<char>>, tail: bool) -> bool {
    &&& c.locals == names
    &&& c.free == Seq::<Seq<char>>::empty()
    &&& tail ==> (c.fname is None || !stands_in(e, c.fname->Some_0))
}

/// Whether a machine is about to run code, with these values of its local
/// variables.
pub open spec fn is_at(s: VmV, code: Seq<OpcodeV>, vals: Seq<AtomV>) -> bool {
    &&& s.wait is Ready
    &&& s.known == Seq::<KnownV>::empty()
    &&& !s.cut
    &&& s.budget is None
    &&& s.ip + code.len() <= s.code.len()
    &&& s.code.subrange(s.ip as int, (s.ip + code.len()) as int) == code
    &&& raw_atoms(s.locals) == vals
}

/// Whether a machine has run code of a length that left values on the stack.
pub open spec fn is_past(s: VmV, n: nat, vs: Seq<AtomV>, s2: VmV) -> bool {
    &&& s2.stack.len() > 0
    &&& s2 == (VmV {
        ip: s.ip + n,
        stack: s.stack.push(s2.stack.last()),
        locals: s2.locals,
        env: s2.env,
        ..s
    })
    &&& raw_atoms(s2.stack.last()) == vs
    &&& raw_atoms(s2.locals) == raw_atoms(s.locals)
}

/// Whether a machine runs code that leaves values on the stack, and nothing else.
pub open spec fn leaves(s: VmV, t: TableV, n: nat, vs: Seq<AtomV>) -> bool {
    exists|s2: VmV| #[trigger] gets(s, t, s2, t) && is_past(s, n, vs, s2)
}

/// Whether code leaves values on the stack wherever it stands.
pub open spec fn code_leaves(
    code: Seq<OpcodeV>,
    vals: Seq<AtomV>,
    t: TableV,
    vs: Seq<AtomV>,
) -> bool {
    forall|s: VmV| #[trigger] is_at(s, code, vals) ==> leaves(s, t, code.len(), vs)
}

/// Whether an expression has these values, where its local variables have given
/// names and values.
pub open spec fn gives(
    e: ExprV,
    names: Seq<Seq<char>>,
    vals: Seq<AtomV>,
    t: TableV,
    vs: Seq<AtomV>,
) -> bool {
    forall|c: ScopeV, tail: bool|
        #![trigger compiled(e, c, tail)]
        is_scope(c, e, names, tail) ==> {
            &&& compiled(e, c, tail) is Ok
            &&& compiled(e, c, tail)->Ok_0.1 == Seq::<Seq<char>>::empty()
            &&& code_leaves(compiled(e, c, tail)->Ok_0.0, vals, t, vs)
        }
}

/// Whether an expression without local variables has these values.
pub open spec fn means(e: ExprV, t: TableV, vs: Seq<AtomV>) -> bool {
    gives(e, Seq::empty(), Seq::empty(), t, vs)
}

/// The instruction that a machine is at.
pub proof fn lemma_at_op(s: VmV, t: TableV, op: OpcodeV, vals: Seq<AtomV>)
    requires
        is_at(s, seq![op], vals),
    ensures
        makes(s, t) == instruction(s, t, op),
        s.ip < s.code.len(),
        s.code[s.ip as int] == op,
{
    reveal(makes);
    assert(s.code.subrange(s.ip as int, (s.ip + 1) as int)[0] == s.code[s.ip as int]);
    assert(seq![op][0] == op);
}

/// A machine at two pieces of code is at the first one, and behind it at the
/// second one.
pub proof fn lemma_at_parts(
    s: VmV,
    a: Seq<OpcodeV>,
    b: Seq<OpcodeV>,
    vals: Seq<AtomV>,
)
    requires
        is_at(s, a + b, vals),
    ensures
        is_at(s, a, vals),
        forall|vs: Seq<AtomV>, s2: VmV| #[trigger]
            is_past(s, a.len(), vs, s2) ==> is_at(s2, b, vals),
{
    let n = s.ip as int;
    let code = s.code.subrange(n, n + (a + b).len());
    assert(s.code.subrange(n, n + a.len()) =~= a) by {
        assert forall|i: int| 0 <= i < a.len() implies s.code[n + i] == #[trigger] a[i] by {
            assert(code[i] == (a + b)[i]);
        }
    }
    assert(s.code.subrange(n + a.len(), n + a.len() + b.len()) =~= b) by {
        assert forall|i: int| 0 <= i < b.len() implies s.code[n + a.len() + i]
            == #[trigger] b[i] by {
            assert(code[a.len() + i] == (a + b)[a.len() + i]);
        }
    }
}

/// An instruction that pushes values leaves them.
pub proof fn lemma_pushing(s: VmV, t: TableV, rs: ResultV)
    requires
        makes(s, t) == (VmOutV::Next, pushed(s, rs), t),
        s.wait is Ready,
        s.known == Seq::<KnownV>::empty(),
    ensures
        leaves(s, t, 1, raw_atoms(rs)),
{
    let s2 = pushed(s, rs);
    lemma_gets_step(s, t, s2, t);
    assert(is_past(s, 1, raw_atoms(rs), s2));
}

/// A constant.
pub proof fn lemma_const(a: AtomV, vals: Seq<AtomV>, t: TableV)
    ensures
        code_leaves(seq![OpcodeV::Const(a)], vals, t, seq![a]),
{
    assert forall|s: VmV| #[trigger] is_at(s, seq![OpcodeV::Const(a)], vals) implies leaves(
        s,
        t,
        1,
        seq![a],
    ) by {
        lemma_at_op(s, t, OpcodeV::Const(a), vals);
        lemma_pushing(s, t, plain_results(seq![a]));
        assert(raw_atoms(plain_results(seq![a])) =~= seq![a]);
    }
}

/// Numbers, strings and symbols that are no variables mean themselves.
pub proof fn literals_mean_themselves(
    x: NumV,
    s: Seq<char>,
    names: Seq<Seq<char>>,
    vals: Seq<AtomV>,
    t: TableV,
)
    ensures
        gives(ExprV::Number(x), names, vals, t, seq![AtomV::Num(x)]),
        gives(ExprV::Str(s), names, vals, t, seq![AtomV::Str(s)]),
        !is_var_name(s) ==> gives(ExprV::Symbol(s), names, vals, t, seq![symbol(s)]),
        gives(
            ExprV::List(Seq::empty()),
            names,
            vals,
            t,
            seq![AtomV::Expr(Seq::empty())],
        ),
{
    lemma_const(AtomV::Num(x), vals, t);
    lemma_const(AtomV::Str(s), vals, t);
    lemma_const(symbol(s), vals, t);
    lemma_const(AtomV::Expr(Seq::empty()), vals, t);
}

/// A local variable means its value.
pub proof fn variables_mean_their_values(
    names: Seq<Seq<char>>,
    vals: Seq<AtomV>,
    i: int,
    t: TableV,
)
    requires
        0 <= i < names.len(),
        names.len() == vals.len(),
        names.len() <= 256,
        is_var_name(names[i]),
        is_ground(vals[i]),
        forall|j: int| i < j < names.len() ==> #[trigger] names[j] != names[i],
    ensures
        gives(ExprV::Symbol(names[i]), names, vals, t, seq![vals[i]]),
{
    let e = ExprV::Symbol(names[i]);
    lemma_last_index(names, i);
    let op = OpcodeV::Load(i as u8);
    assert forall|s: VmV| #[trigger] is_at(s, seq![op], vals) implies leaves(
        s,
        t,
        1,
        seq![vals[i]],
    ) by {
        lemma_at_op(s, t, op, vals);
        assert(raw_atoms(s.locals)[i] == s.locals[i].0);
        let rs = seq![(vals[i], s.locals[i].1)];
        lemma_pushing(s, t, rs);
        assert(raw_atoms(rs) =~= seq![vals[i]]);
    }
    assert(code_leaves(seq![op], vals, t, seq![vals[i]]));
}

/// The last position of a name that does not come again.
proof fn lemma_last_index(names: Seq<Seq<char>>, i: int)
    requires
        0 <= i < names.len(),
        forall|j: int| i < j < names.len() ==> #[trigger] names[j] != names[i],
    ensures
        last_index(names, names[i]) == Some(i),
    decreases names.len(),
{
    if i < names.len() - 1 {
        assert(names.drop_last()[i] == names[i]);
        lemma_last_index(names.drop_last(), i);
    }
}

/// What an expression means is what its evaluation gives, in any environment.
pub proof fn meanings_are_evaluated(e: ExprV, t: TableV, vs: Seq<AtomV>, env: EnvV)
    requires
        means(e, t, vs),
        all_ground(vs),
    ensures
        evaluates(e, env, None, t, vs, t),
{
    let c = alone();
    assert(c.locals =~= Seq::<Seq<char>>::empty());
    assert(is_scope(c, e, Seq::empty(), false));
    let k = compiled(e, c, false)->Ok_0;
    let s = vm_start(
        BlockV { code: k.0, free_vars: k.1 },
        Seq::empty(),
        inherited(k.1, Seq::empty(), Seq::empty(), t.fresh).0,
        None,
        env,
    );
    assert(raw_atoms(s.locals) =~= Seq::<AtomV>::empty());
    lemma_started(s, k.0, Seq::empty(), t, vs);
    let rs = choose|rs: ResultV| #[trigger] ends_with(s, t, rs) && raw_atoms(rs) == vs;
    assert(at_fresh(t, t.fresh) == t);
    lemma_finishes_evaluates(e, env, None, t, s, t, rs, t);
    lemma_ground_results(rs);
}

/// Whether a machine ends with results.
pub open spec fn ends_with(s: VmV, t: TableV, rs: ResultV) -> bool {
    finishes(s, t, rs, None, t)
}

/// The values of results without variables.
pub proof fn lemma_ground_results(rs: ResultV)
    requires
        all_ground(raw_atoms(rs)),
    ensures
        result_atoms(rs) == raw_atoms(rs),
{
    assert forall|i: int| 0 <= i < rs.len() implies #[trigger] result_atoms(rs)[i]
        == raw_atoms(rs)[i] by {
        lemma_ground_same(raw_atoms(rs)[i]);
        substitution_of_ground(rs[i].0, rs[i].1);
    }
    assert(result_atoms(rs) =~= raw_atoms(rs));
}

/// The two ways to say that an atom has no variables.
pub proof fn lemma_ground_same(a: AtomV)
    ensures
        is_ground(a) == crate::eval::shared::subst::is_ground(a),
    decreases a,
{
    if let AtomV::Expr(items) = a {
        assert forall|i: int| 0 <= i < items.len() implies is_ground(#[trigger] items[i])
            == crate::eval::shared::subst::is_ground(items[i]) by {
            lemma_ground_same(items[i]);
        }
    }
}

/// A machine that starts on code ends with what the code leaves.
pub proof fn lemma_started(
    s: VmV,
    code: Seq<OpcodeV>,
    vals: Seq<AtomV>,
    t: TableV,
    vs: Seq<AtomV>,
)
    requires
        code_leaves(code, vals, t, vs),
        s.code == code,
        s.ip == 0,
        s.wait is Ready,
        s.known == Seq::<KnownV>::empty(),
        !s.cut,
        s.budget is None,
        s.frames.len() == 0,
        raw_atoms(s.locals) == vals,
    ensures
        exists|rs: ResultV| #[trigger] ends_with(s, t, rs) && raw_atoms(rs) == vs,
{
    assert(s.code.subrange(0, code.len() as int) =~= code);
    assert(is_at(s, code, vals));
    let s2 = choose|s2: VmV| #[trigger] gets(s, t, s2, t) && is_past(s, code.len(), vs, s2);
    reveal(makes);
    let rs = over_env(s2.stack.last(), s2.env);
    assert(makes(s2, t) == code_ended(s2, t));
    assert(ends_with(s, t, rs));
    assert(raw_atoms(rs) =~= raw_atoms(s2.stack.last()));
}

} // verus!
