//! The values of applications, from the values of head and arguments.
use crate::atom::AtomV;
use crate::builtins::AnswerV;
use crate::builtins::called;
use crate::env::EnvV;
use crate::eval::machine::budget::ResultV;
use crate::eval::machine::budget::combo_row;
use crate::eval::machine::budget::combo_rows;
use crate::eval::machine::budget::combos;
use crate::eval::machine::budget::raw_atoms;
use crate::eval::machine::vm::bodies::waiting;
use crate::eval::machine::vm::call::DispatchV;
use crate::eval::machine::vm::call::dispatched;
use crate::eval::machine::vm::call::in_env;
use crate::eval::machine::vm::calling::calls_turn;
use crate::eval::machine::vm::calling::calls_with;
use crate::eval::machine::vm::compiler::ScopeV;
use crate::eval::machine::vm::compiler::all_compiled;
use crate::eval::machine::vm::compiler::compiled;
use crate::eval::machine::vm::compiler::form_of;
use crate::eval::machine::vm::op::OpcodeV;
use crate::eval::machine::vm::outcome::VmOutV;
use crate::eval::machine::vm::plain::popped;
use crate::eval::machine::vm::plain::pushed;
use crate::eval::machine::vm::state::CallsV;
use crate::eval::machine::vm::state::VmV;
use crate::eval::machine::vm::state::WaitV;
use crate::eval::shared::pattern::stands_in;
use crate::eval::shared::pattern::stands_in_one;
use crate::expr::ExprV;
use crate::func::TableV;
use crate::laws::meaning::code_leaves;
use crate::laws::meaning::gives;
use crate::laws::meaning::is_at;
use crate::laws::meaning::is_past;
use crate::laws::meaning::is_scope;
use crate::laws::meaning::leaves;
use crate::laws::meaning::lemma_at_op;
use crate::laws::meaning::lemma_at_parts;
use crate::laws::running::gets;
use crate::laws::running::lemma_gets_here;
use crate::laws::running::lemma_gets_join;
use crate::laws::running::lemma_gets_step;
use crate::laws::running::makes;
use vstd::prelude::*;

verus! {

/// Whether each of some expressions has one value.
pub open spec fn each_gives(
    es: Seq<ExprV>,
    names: Seq<Seq<char>>,
    vals: Seq<AtomV>,
    t: TableV,
    xs: Seq<AtomV>,
) -> bool {
    &&& es.len() == xs.len()
    &&& forall|i: int| 0 <= i < es.len() ==> gives(#[trigger] es[i], names, vals, t, seq![xs[i]])
}

/// Whether results hold one value each.
pub open spec fn are_single(sets: Seq<ResultV>, xs: Seq<AtomV>) -> bool {
    &&& sets.len() == xs.len()
    &&& forall|i: int| 0 <= i < sets.len() ==> raw_atoms(#[trigger] sets[i]) == seq![xs[i]]
}

/// Whether a machine has run code that left several results on the stack.
pub open spec fn is_stacked(s: VmV, n: nat, sets: Seq<ResultV>, s2: VmV) -> bool {
    &&& s2 == (VmV {
        ip: s.ip + n,
        stack: s.stack + sets,
        locals: s2.locals,
        env: s2.env,
        ..s
    })
    &&& raw_atoms(s2.locals) == raw_atoms(s.locals)
}

/// Whether a machine runs code that leaves one value each on the stack.
pub open spec fn stacks(s: VmV, t: TableV, n: nat, xs: Seq<AtomV>) -> bool {
    exists|s2: VmV, sets: Seq<ResultV>|
        #![trigger gets(s, t, s2, t), are_single(sets, xs)]
        gets(s, t, s2, t) && are_single(sets, xs) && is_stacked(s, n, sets, s2)
}

/// Arguments one after the other.
pub proof fn lemma_arguments(
    es: Seq<ExprV>,
    names: Seq<Seq<char>>,
    vals: Seq<AtomV>,
    t: TableV,
    xs: Seq<AtomV>,
    c: ScopeV,
)
    requires
        each_gives(es, names, vals, t, xs),
        c.locals == names,
        c.free == Seq::<Seq<char>>::empty(),
    ensures
        all_compiled(es, c) is Ok,
        all_compiled(es, c)->Ok_0.1 == Seq::<Seq<char>>::empty(),
        forall|s: VmV| #[trigger]
            is_at(s, all_compiled(es, c)->Ok_0.0, vals) ==> stacks(
                s,
                t,
                all_compiled(es, c)->Ok_0.0.len(),
                xs,
            ),
    decreases es.len(),
{
    if es.len() == 0 {
        assert forall|s: VmV| #[trigger] is_at(
            s,
            all_compiled(es, c)->Ok_0.0,
            vals,
        ) implies stacks(s, t, 0, xs) by {
            lemma_gets_here(s, t);
            let none: Seq<ResultV> = Seq::empty();
            assert(are_single(none, xs));
            assert(s.stack + none =~= s.stack);
            assert(is_stacked(s, 0, none, s));
        }
    } else {
        let front = es.drop_last();
        let last = es.last();
        assert forall|i: int| 0 <= i < front.len() implies gives(
            #[trigger] front[i],
            names,
            vals,
            t,
            seq![xs.drop_last()[i]],
        ) by {
            assert(front[i] == es[i]);
        }
        lemma_arguments(front, names, vals, t, xs.drop_last(), c);
        let a = all_compiled(front, c)->Ok_0;
        assert(c.knowing(a.1) == c);
        assert(is_scope(c, last, names, false));
        assert(gives(es[es.len() - 1], names, vals, t, seq![xs[es.len() - 1]]));
        let b = compiled(last, c, false)->Ok_0;
        assert forall|s: VmV| #[trigger] is_at(
            s,
            all_compiled(es, c)->Ok_0.0,
            vals,
        ) implies stacks(s, t, all_compiled(es, c)->Ok_0.0.len(), xs) by {
            lemma_at_split(s, a.0, b.0, vals);
            assert(stacks(s, t, a.0.len(), xs.drop_last()));
            let (s1, sets) = choose|s1: VmV, sets: Seq<ResultV>|
                #![trigger gets(s, t, s1, t), are_single(sets, xs.drop_last())]
                gets(s, t, s1, t) && are_single(sets, xs.drop_last()) && is_stacked(
                    s,
                    a.0.len(),
                    sets,
                    s1,
                );
            lemma_behind(s, a.0, b.0, vals, s1);
            assert(leaves(s1, t, b.0.len(), seq![xs.last()]));
            let s2 = choose|s2: VmV| #[trigger]
                gets(s1, t, s2, t) && is_past(s1, b.0.len(), seq![xs.last()], s2);
            lemma_gets_join(s, t, s1, t, s2, t);
            let all = sets.push(s2.stack.last());
            assert(are_single(all, xs)) by {
                assert forall|i: int| 0 <= i < all.len() implies raw_atoms(#[trigger] all[i])
                    == seq![xs[i]] by {
                    if i < sets.len() {
                        assert(all[i] == sets[i]);
                        assert(xs.drop_last()[i] == xs[i]);
                    }
                }
            }
            assert(s.stack + all =~= (s.stack + sets).push(s2.stack.last()));
            assert(is_stacked(s, (a.0 + b.0).len(), all, s2));
        }
    }
}

/// A machine at two pieces of code is at the first one.
pub proof fn lemma_at_split(s: VmV, a: Seq<OpcodeV>, b: Seq<OpcodeV>, vals: Seq<AtomV>)
    requires
        is_at(s, a + b, vals),
    ensures
        is_at(s, a, vals),
{
    lemma_at_parts(s, a, b, vals);
}

/// A machine that moved behind the first of two pieces of code is at the second.
pub proof fn lemma_behind(
    s: VmV,
    a: Seq<OpcodeV>,
    b: Seq<OpcodeV>,
    vals: Seq<AtomV>,
    s1: VmV,
)
    requires
        is_at(s, a + b, vals),
        s1 == (VmV {
            ip: s.ip + a.len(),
            stack: s1.stack,
            locals: s1.locals,
            env: s1.env,
            ..s
        }),
        raw_atoms(s1.locals) == raw_atoms(s.locals),
    ensures
        is_at(s1, b, vals),
{
    let top: ResultV = Seq::empty();
    let s2 = VmV { stack: s.stack.push(top), ..s1 };
    lemma_at_parts(s, a, b, vals);
    assert(is_past(s, a.len(), raw_atoms(top), s2));
    assert(is_at(s2, b, vals));
}

/// One value each makes one combination.
pub proof fn lemma_one_combination(sets: Seq<ResultV>, xs: Seq<AtomV>)
    requires
        are_single(sets, xs),
    ensures
        combos(sets).len() == 1,
        combos(sets)[0].0 == xs,
    decreases sets.len(),
{
    if sets.len() > 0 {
        let before = sets.drop_last();
        assert forall|i: int| 0 <= i < before.len() implies raw_atoms(#[trigger] before[i])
            == seq![xs.drop_last()[i]] by {
            assert(before[i] == sets[i]);
        }
        lemma_one_combination(before, xs.drop_last());
        let cs = combos(before);
        let rs = sets.last();
        assert(raw_atoms(sets[sets.len() - 1]) == seq![xs[sets.len() - 1]]);
        assert(raw_atoms(rs).len() == 1);
        assert(raw_atoms(rs)[0] == rs[0].0);
        assert(cs.drop_last() =~= Seq::empty());
        assert(combo_rows(cs.drop_last(), rs) =~= Seq::empty());
        assert(combos(sets) =~= combo_row(cs.last(), rs));
        assert(xs.drop_last().push(xs.last()) =~= xs);
    } else {
        assert(xs =~= Seq::<AtomV>::empty());
    }
}

/// Whether applying a head to arguments gives these values, in any environment
/// and without other effects.
pub open spec fn answers(h: AtomV, xs: Seq<AtomV>, t: TableV, vs: Seq<AtomV>) -> bool {
    forall|env: EnvV|
        ({
            let d = #[trigger] dispatched(h, xs, xs.len() as u8, env, t, Seq::empty());
            &&& d.1 == t
            &&& match d.0 {
                DispatchV::Results(rs) => raw_atoms(rs) == vs,
                DispatchV::Native(b, name, args) => called(b, name, args, t) == (
                    AnswerV::Values(vs),
                    t,
                ),
                _ => false,
            }
        })
}

/// The turn of a call that a machine is at.
pub proof fn lemma_at_calls(s: VmV, t: TableV, c: CallsV)
    requires
        s.wait == WaitV::Calls(c),
        s.ip < s.code.len(),
    ensures
        makes(s, t) == calls_turn(s, t, c),
{
    reveal(makes);
}

/// A call of one combination.
proof fn lemma_call(s: VmV, t: TableV, vals: Seq<AtomV>, h: AtomV, xs: Seq<AtomV>, vs: Seq<AtomV>, base: Seq<ResultV>, sets: Seq<ResultV>, head: ResultV)
    requires
        is_at(s, seq![OpcodeV::Call(xs.len() as u8)], vals),
        xs.len() < 256,
        s.stack == (base + sets).push(head),
        are_single(sets, xs),
        raw_atoms(head) == seq![h],
        answers(h, xs, t, vs),
    ensures
        exists|s2: VmV| #[trigger]
            gets(s, t, s2, t) && s2 == (VmV {
                ip: s.ip + 1,
                stack: base.push(s2.stack.last()),
                ..s
            }) && s2.stack.len() > 0 && raw_atoms(s2.stack.last()) == vs,
{
    let n = xs.len() as u8;
    let len = s.stack.len() as int;
    lemma_at_op(s, t, OpcodeV::Call(n), vals);
    let all = seq![s.stack.last()] + s.stack.subrange(len - 1 - n, len - 1);
    assert(s.stack.subrange(len - 1 - n, len - 1) =~= sets);
    let hx = seq![h] + xs;
    assert(are_single(all, hx)) by {
        assert forall|i: int| 0 <= i < all.len() implies raw_atoms(#[trigger] all[i]) == seq![
            hx[i],
        ] by {
            if i > 0 {
                assert(all[i] == sets[i - 1]);
            }
        }
    }
    lemma_one_combination(all, hx);
    let c0 = CallsV {
        arity: n,
        combos: combos(all),
        next: 0,
        out: Seq::empty(),
        pending: Seq::empty(),
        memo: None,
    };
    let p = popped(s, n + 1);
    assert(p.stack =~= base);
    let s1 = waiting(p, WaitV::Calls(c0));
    lemma_gets_step(s, t, s1, t);
    lemma_at_calls(s1, t, c0);
    let env = combos(all)[0].1;
    assert(hx.skip(1) =~= xs);
    assert(hx[0] == h);
    let d = dispatched(h, xs, n, env, t, Seq::empty());
    let rs = match d.0 {
        DispatchV::Results(rs) => rs,
        _ => in_env(vs, env),
    };
    assert(raw_atoms(rs) =~= vs);
    let c1 = calls_with(c0, rs);
    let s2 = waiting(s1, WaitV::Calls(c1));
    assert(makes(s1, t) == (VmOutV::Next, s2, t));
    lemma_gets_step(s1, t, s2, t);
    lemma_gets_join(s, t, s1, t, s2, t);
    lemma_at_calls(s2, t, c1);
    assert(c1.out =~= rs);
    let s3 = pushed(s2, c1.out);
    lemma_gets_step(s2, t, s3, t);
    lemma_gets_join(s, t, s2, t, s3, t);
    assert(s3 =~= VmV { ip: s.ip + 1, stack: base.push(s3.stack.last()), ..s });
}

/// An application has the values that its head gives when it is applied to the
/// values of the arguments.
pub proof fn applications_apply_heads_to_arguments(
    items: Seq<ExprV>,
    names: Seq<Seq<char>>,
    vals: Seq<AtomV>,
    t: TableV,
    h: AtomV,
    xs: Seq<AtomV>,
    vs: Seq<AtomV>,
)
    requires
        0 < items.len() <= 256,
        form_of(items) is Apply,
        gives(items[0], names, vals, t, seq![h]),
        each_gives(items.skip(1), names, vals, t, xs),
        answers(h, xs, t, vs),
    ensures
        gives(ExprV::List(items), names, vals, t, vs),
{
    let e = ExprV::List(items);
    assert forall|c: ScopeV, tail: bool|
        #![trigger compiled(e, c, tail)]
        is_scope(c, e, names, tail) implies {
        &&& compiled(e, c, tail) is Ok
        &&& compiled(e, c, tail)->Ok_0.1 == Seq::<Seq<char>>::empty()
        &&& code_leaves(compiled(e, c, tail)->Ok_0.0, vals, t, vs)
    } by {
        let es = items.subrange(1, items.len() as int);
        assert(es =~= items.skip(1));
        lemma_arguments(es, names, vals, t, xs, c);
        let a = all_compiled(es, c)->Ok_0;
        assert(c.knowing(a.1) == c);
        if tail && c.fname is Some && items[0] == ExprV::Symbol(c.fname->Some_0) {
            assert(stands_in(items[0], c.fname->Some_0));
            assert(stands_in_one(items, c.fname->Some_0));
            assert(stands_in(e, c.fname->Some_0));
        }
        assert(is_scope(c, items[0], names, false));
        let b = compiled(items[0], c, false)->Ok_0;
        let op = seq![OpcodeV::Call(xs.len() as u8)];
        let code = a.0 + b.0 + op;
        assert(compiled(e, c, tail)->Ok_0.0 == code);
        assert forall|s: VmV| #[trigger] is_at(s, code, vals) implies leaves(
            s,
            t,
            code.len(),
            vs,
        ) by {
            assert(code =~= a.0 + (b.0 + op));
            lemma_at_split(s, a.0, b.0 + op, vals);
            let (s1, sets) = choose|s1: VmV, sets: Seq<ResultV>|
                #![trigger gets(s, t, s1, t), are_single(sets, xs)]
                gets(s, t, s1, t) && are_single(sets, xs) && is_stacked(s, a.0.len(), sets, s1);
            lemma_behind(s, a.0, b.0 + op, vals, s1);
            lemma_at_split(s1, b.0, op, vals);
            assert(leaves(s1, t, b.0.len(), seq![h]));
            let s2 = choose|s2: VmV| #[trigger]
                gets(s1, t, s2, t) && is_past(s1, b.0.len(), seq![h], s2);
            lemma_behind(s1, b.0, op, vals, s2);
            lemma_gets_join(s, t, s1, t, s2, t);
            lemma_call(s2, t, vals, h, xs, vs, s.stack, sets, s2.stack.last());
            let s3 = choose|s3: VmV| #[trigger]
                gets(s2, t, s3, t) && s3 == (VmV {
                    ip: s2.ip + 1,
                    stack: s.stack.push(s3.stack.last()),
                    ..s2
                }) && s3.stack.len() > 0 && raw_atoms(s3.stack.last()) == vs;
            lemma_gets_join(s, t, s2, t, s3, t);
            assert(is_past(s, code.len(), vs, s3));
        }
    }
}

} // verus!
