//! The values of alternatives, of what gathers them, and of what is left as it
//! is.
use crate::atom::AtomV;
use crate::compile::reify::to_atom;
use crate::eval::machine::budget::ResultV;
use crate::eval::machine::budget::plain_results;
use crate::eval::machine::budget::raw_atoms;
use crate::eval::machine::vm::compiler::ScopeV;
use crate::eval::machine::vm::compiler::all_compiled;
use crate::eval::machine::vm::compiler::compiled;
use crate::eval::machine::vm::compiler::form_of;
use crate::eval::machine::vm::op::OpcodeV;
use crate::eval::machine::vm::plain::all_joined;
use crate::eval::machine::vm::plain::going;
use crate::eval::machine::vm::plain::popped;
use crate::eval::machine::vm::plain::pushed;
use crate::eval::machine::vm::state::VmV;
use crate::eval::shared::pattern::all_ground;
use crate::expr::ExprV;
use crate::func::TableV;
use crate::laws::applying::is_stacked;
use crate::laws::applying::lemma_at_split;
use crate::laws::applying::lemma_behind;
use crate::laws::branching::lemma_forms;
use crate::laws::branching::lemma_part_scope;
use crate::laws::meaning::code_leaves;
use crate::laws::meaning::gives;
use crate::laws::meaning::is_at;
use crate::laws::meaning::is_past;
use crate::laws::meaning::is_scope;
use crate::laws::meaning::leaves;
use crate::laws::meaning::lemma_at_op;
use crate::laws::meaning::lemma_const;
use crate::laws::meaning::lemma_ground_results;
use crate::laws::meaning::lemma_pushing;
use crate::laws::running::gets;
use crate::laws::running::lemma_gets_here;
use crate::laws::running::lemma_gets_join;
use crate::laws::running::lemma_gets_step;
use crate::laws::running::makes;
use crate::laws::searching::all_values;
use vstd::prelude::*;
use vstd::string::*;

verus! {

/// Whether each of some expressions has its values.
pub open spec fn all_give(
    es: Seq<ExprV>,
    names: Seq<Seq<char>>,
    vals: Seq<AtomV>,
    t: TableV,
    vss: Seq<Seq<AtomV>>,
) -> bool {
    &&& es.len() == vss.len()
    &&& forall|i: int| 0 <= i < es.len() ==> gives(#[trigger] es[i], names, vals, t, vss[i])
}

/// Whether results hold their values.
pub open spec fn hold_values(sets: Seq<ResultV>, vss: Seq<Seq<AtomV>>) -> bool {
    &&& sets.len() == vss.len()
    &&& forall|i: int| 0 <= i < sets.len() ==> raw_atoms(#[trigger] sets[i]) == vss[i]
}

/// Whether a machine runs code that leaves results on the stack.
pub open spec fn stacks_all(s: VmV, t: TableV, n: nat, vss: Seq<Seq<AtomV>>) -> bool {
    exists|s2: VmV, sets: Seq<ResultV>|
        #![trigger gets(s, t, s2, t), hold_values(sets, vss)]
        gets(s, t, s2, t) && hold_values(sets, vss) && is_stacked(s, n, sets, s2)
}

/// Expressions one after the other.
pub proof fn lemma_sequence(
    es: Seq<ExprV>,
    names: Seq<Seq<char>>,
    vals: Seq<AtomV>,
    t: TableV,
    vss: Seq<Seq<AtomV>>,
    c: ScopeV,
)
    requires
        all_give(es, names, vals, t, vss),
        c.locals == names,
        c.free == Seq::<Seq<char>>::empty(),
    ensures
        all_compiled(es, c) is Ok,
        all_compiled(es, c)->Ok_0.1 == Seq::<Seq<char>>::empty(),
        forall|s: VmV| #[trigger]
            is_at(s, all_compiled(es, c)->Ok_0.0, vals) ==> stacks_all(
                s,
                t,
                all_compiled(es, c)->Ok_0.0.len(),
                vss,
            ),
    decreases es.len(),
{
    if es.len() == 0 {
        assert forall|s: VmV| #[trigger] is_at(
            s,
            all_compiled(es, c)->Ok_0.0,
            vals,
        ) implies stacks_all(s, t, 0, vss) by {
            lemma_gets_here(s, t);
            let none: Seq<ResultV> = Seq::empty();
            assert(hold_values(none, vss));
            assert(s.stack + none =~= s.stack);
            assert(is_stacked(s, 0, none, s));
        }
    } else {
        let front = es.drop_last();
        let last = es.last();
        assert forall|i: int| 0 <= i < front.len() implies gives(
            #[trigger] front[i],
            names,
            vals,
            t,
            vss.drop_last()[i],
        ) by {
            assert(front[i] == es[i]);
        }
        lemma_sequence(front, names, vals, t, vss.drop_last(), c);
        let a = all_compiled(front, c)->Ok_0;
        assert(c.knowing(a.1) == c);
        assert(is_scope(c, last, names, false));
        assert(gives(es[es.len() - 1], names, vals, t, vss[es.len() - 1]));
        let b = compiled(last, c, false)->Ok_0;
        assert forall|s: VmV| #[trigger] is_at(
            s,
            all_compiled(es, c)->Ok_0.0,
            vals,
        ) implies stacks_all(s, t, all_compiled(es, c)->Ok_0.0.len(), vss) by {
            lemma_at_split(s, a.0, b.0, vals);
            let (s1, sets) = choose|s1: VmV, sets: Seq<ResultV>|
                #![trigger gets(s, t, s1, t), hold_values(sets, vss.drop_last())]
                gets(s, t, s1, t) && hold_values(sets, vss.drop_last()) && is_stacked(
                    s,
                    a.0.len(),
                    sets,
                    s1,
                );
            lemma_behind(s, a.0, b.0, vals, s1);
            assert(leaves(s1, t, b.0.len(), vss.last()));
            let s2 = choose|s2: VmV| #[trigger]
                gets(s1, t, s2, t) && is_past(s1, b.0.len(), vss.last(), s2);
            lemma_gets_join(s, t, s1, t, s2, t);
            let all = sets.push(s2.stack.last());
            assert(hold_values(all, vss)) by {
                assert forall|i: int| 0 <= i < all.len() implies raw_atoms(#[trigger] all[i])
                    == vss[i] by {
                    if i < sets.len() {
                        assert(all[i] == sets[i]);
                        assert(vss.drop_last()[i] == vss[i]);
                    }
                }
            }
            assert(s.stack + all =~= (s.stack + sets).push(s2.stack.last()));
            assert(is_stacked(s, (a.0 + b.0).len(), all, s2));
        }
    }
}

/// The values of lists of values, from the last one.
pub proof fn lemma_all_values_last(s: Seq<Seq<AtomV>>)
    requires
        s.len() > 0,
    ensures
        all_values(s) == all_values(s.drop_last()) + s.last(),
    decreases s.len(),
{
    if s.len() == 1 {
        assert(s.skip(1) =~= Seq::<Seq<AtomV>>::empty());
        assert(s.drop_last() =~= Seq::<Seq<AtomV>>::empty());
        assert(all_values(s) =~= all_values(s.drop_last()) + s.last());
    } else {
        lemma_all_values_last(s.skip(1));
        assert(s.skip(1).drop_last() =~= s.drop_last().skip(1));
        assert(all_values(s) =~= all_values(s.drop_last()) + s.last());
    }
}

/// Results one after the other hold the values one after the other.
proof fn lemma_joined(sets: Seq<ResultV>, vss: Seq<Seq<AtomV>>)
    requires
        hold_values(sets, vss),
    ensures
        raw_atoms(all_joined(sets)) == all_values(vss),
    decreases sets.len(),
{
    if sets.len() > 0 {
        let f = sets.drop_last();
        assert forall|i: int| 0 <= i < f.len() implies raw_atoms(#[trigger] f[i])
            == vss.drop_last()[i] by {
            assert(f[i] == sets[i]);
        }
        lemma_joined(f, vss.drop_last());
        lemma_all_values_last(vss);
        assert(raw_atoms(sets[sets.len() - 1]) == vss[sets.len() - 1]);
        assert(raw_atoms(all_joined(sets)) =~= raw_atoms(all_joined(f)) + raw_atoms(sets.last()));
    } else {
        assert(raw_atoms(all_joined(sets)) =~= Seq::<AtomV>::empty());
    }
}

/// `(superpose (e1 .. en))` has the values of all its parts, in their order.
pub proof fn alternatives_come_in_order(
    es: Seq<ExprV>,
    names: Seq<Seq<char>>,
    vals: Seq<AtomV>,
    t: TableV,
    vss: Seq<Seq<AtomV>>,
)
    requires
        all_give(es, names, vals, t, vss),
        es.len() < 256,
    ensures
        gives(
            ExprV::List(seq![ExprV::Symbol("superpose"@), ExprV::List(es)]),
            names,
            vals,
            t,
            all_values(vss),
        ),
{
    let l = ExprV::List(es);
    let items = seq![ExprV::Symbol("superpose"@), l];
    let e = ExprV::List(items);
    let want = all_values(vss);
    lemma_forms(l, l, l);
    let n = es.len() as u8;
    assert forall|sc: ScopeV, tail: bool|
        #![trigger compiled(e, sc, tail)]
        is_scope(sc, e, names, tail) implies {
        &&& compiled(e, sc, tail) is Ok
        &&& compiled(e, sc, tail)->Ok_0.1 == Seq::<Seq<char>>::empty()
        &&& code_leaves(compiled(e, sc, tail)->Ok_0.0, vals, t, want)
    } by {
        lemma_sequence(es, names, vals, t, vss, sc);
        let a = all_compiled(es, sc)->Ok_0;
        let op = OpcodeV::Superpose(n);
        let code = a.0.push(op);
        assert(items[1] == l);
        assert(code =~= a.0 + seq![op]);
        assert forall|s: VmV| #[trigger] is_at(s, code, vals) implies leaves(
            s,
            t,
            code.len(),
            want,
        ) by {
            lemma_at_split(s, a.0, seq![op], vals);
            let (s1, sets) = choose|s1: VmV, sets: Seq<ResultV>|
                #![trigger gets(s, t, s1, t), hold_values(sets, vss)]
                gets(s, t, s1, t) && hold_values(sets, vss) && is_stacked(s, a.0.len(), sets, s1);
            lemma_behind(s, a.0, seq![op], vals, s1);
            lemma_at_op(s1, t, op, vals);
            assert(s1.stack.skip(s1.stack.len() - n) =~= sets);
            let q = popped(s1, n as int);
            assert(q.stack =~= s.stack);
            lemma_joined(sets, vss);
            let s2 = pushed(q, all_joined(sets));
            lemma_gets_step(s1, t, s2, t);
            lemma_gets_join(s, t, s1, t, s2, t);
            assert(is_past(s, code.len(), want, s2));
        }
    }
}

/// A form of one instruction behind one expression.
proof fn lemma_one_behind(
    x: ExprV,
    names: Seq<Seq<char>>,
    vals: Seq<AtomV>,
    t: TableV,
    vs: Seq<AtomV>,
    sc: ScopeV,
    op: OpcodeV,
    want: Seq<AtomV>,
)
    requires
        gives(x, names, vals, t, vs),
        is_scope(sc, x, names, false),
        forall|s: VmV|
            #![trigger is_at(s, seq![op], vals)]
            is_at(s, seq![op], vals) && s.stack.len() > 0 && raw_atoms(s.stack.last()) == vs
                ==> exists|rs: ResultV|
                makes(s, t) == #[trigger] going(pushed(popped(s, 1), rs), t) && raw_atoms(rs)
                    == want,
    ensures
        ({
            let a = compiled(x, sc, false)->Ok_0;
            code_leaves(a.0.push(op), vals, t, want)
        }),
{
    let a = compiled(x, sc, false)->Ok_0;
    let code = a.0.push(op);
    assert(code =~= a.0 + seq![op]);
    assert forall|s: VmV| #[trigger] is_at(s, code, vals) implies leaves(s, t, code.len(), want) by {
        lemma_at_split(s, a.0, seq![op], vals);
        assert(leaves(s, t, a.0.len(), vs));
        let s1 = choose|s1: VmV| #[trigger] gets(s, t, s1, t) && is_past(s, a.0.len(), vs, s1);
        lemma_behind(s, a.0, seq![op], vals, s1);
        let rs = choose|rs: ResultV|
            makes(s1, t) == #[trigger] going(pushed(popped(s1, 1), rs), t) && raw_atoms(rs)
                == want;
        let s2 = pushed(popped(s1, 1), rs);
        assert(popped(s1, 1).stack =~= s.stack);
        lemma_gets_step(s1, t, s2, t);
        lemma_gets_join(s, t, s1, t, s2, t);
        assert(is_past(s, code.len(), want, s2));
    }
}

/// `(collapse x)` has one value, the list of the values of `x` in their order.
pub proof fn collapse_gathers_all_values(
    x: ExprV,
    names: Seq<Seq<char>>,
    vals: Seq<AtomV>,
    t: TableV,
    vs: Seq<AtomV>,
)
    requires
        gives(x, names, vals, t, vs),
        all_ground(vs),
    ensures
        gives(
            ExprV::List(seq![ExprV::Symbol("collapse"@), x]),
            names,
            vals,
            t,
            seq![AtomV::Expr(vs)],
        ),
{
    let items = seq![ExprV::Symbol("collapse"@), x];
    let e = ExprV::List(items);
    let want = seq![AtomV::Expr(vs)];
    lemma_forms(x, x, x);
    assert forall|sc: ScopeV, tail: bool|
        #![trigger compiled(e, sc, tail)]
        is_scope(sc, e, names, tail) implies {
        &&& compiled(e, sc, tail) is Ok
        &&& compiled(e, sc, tail)->Ok_0.1 == Seq::<Seq<char>>::empty()
        &&& code_leaves(compiled(e, sc, tail)->Ok_0.0, vals, t, want)
    } by {
        lemma_part_scope(sc, items, 1, names, tail);
        let op = OpcodeV::Collapse;
        assert forall|s: VmV|
            #![trigger is_at(s, seq![op], vals)]
            is_at(s, seq![op], vals) && s.stack.len() > 0 && raw_atoms(s.stack.last())
                == vs implies exists|rs: ResultV|
            makes(s, t) == #[trigger] going(pushed(popped(s, 1), rs), t) && raw_atoms(rs)
                == want by {
            lemma_at_op(s, t, op, vals);
            let top = s.stack.last();
            lemma_ground_results(top);
            let rs = plain_results(seq![AtomV::Expr(vs)]);
            assert(raw_atoms(rs) =~= want);
            assert(makes(s, t) == going(pushed(popped(s, 1), rs), t));
        }
        lemma_one_behind(x, names, vals, t, vs, sc, op, want);
    }
}

/// `(superpose x)` of an expression whose value is a list has the elements of the
/// list as values.
pub proof fn lists_become_alternatives(
    x: ExprV,
    names: Seq<Seq<char>>,
    vals: Seq<AtomV>,
    t: TableV,
    items: Seq<AtomV>,
)
    requires
        !(x is List),
        gives(x, names, vals, t, seq![AtomV::Expr(items)]),
    ensures
        gives(ExprV::List(seq![ExprV::Symbol("superpose"@), x]), names, vals, t, items),
{
    let parts = seq![ExprV::Symbol("superpose"@), x];
    let e = ExprV::List(parts);
    let vs = seq![AtomV::Expr(items)];
    lemma_forms(x, x, x);
    assert forall|sc: ScopeV, tail: bool|
        #![trigger compiled(e, sc, tail)]
        is_scope(sc, e, names, tail) implies {
        &&& compiled(e, sc, tail) is Ok
        &&& compiled(e, sc, tail)->Ok_0.1 == Seq::<Seq<char>>::empty()
        &&& code_leaves(compiled(e, sc, tail)->Ok_0.0, vals, t, items)
    } by {
        lemma_part_scope(sc, parts, 1, names, tail);
        let op = OpcodeV::SuperposeUnpack;
        assert forall|s: VmV|
            #![trigger is_at(s, seq![op], vals)]
            is_at(s, seq![op], vals) && s.stack.len() > 0 && raw_atoms(s.stack.last())
                == vs implies exists|rs: ResultV|
            makes(s, t) == #[trigger] going(pushed(popped(s, 1), rs), t) && raw_atoms(rs)
                == items by {
            lemma_at_op(s, t, op, vals);
            let top = s.stack.last();
            assert(raw_atoms(top).len() == 1);
            assert(raw_atoms(top)[0] == top[0].0);
            let rs = plain_results(items);
            assert(raw_atoms(rs) =~= items);
            assert(makes(s, t) == going(pushed(popped(s, 1), rs), t));
        }
        lemma_one_behind(x, names, vals, t, vs, sc, op, items);
    }
}

/// `(quote x)` is what is written there, `(empty)` has no value, and `(call x)` and
/// `(reduce x)` have the values of `x`.
pub proof fn quoted_and_empty_forms(
    x: ExprV,
    names: Seq<Seq<char>>,
    vals: Seq<AtomV>,
    t: TableV,
    vs: Seq<AtomV>,
)
    ensures
        gives(
            ExprV::List(seq![ExprV::Symbol("quote"@), x]),
            names,
            vals,
            t,
            seq![to_atom(x)],
        ),
        gives(ExprV::List(seq![ExprV::Symbol("empty"@)]), names, vals, t, Seq::empty()),
        gives(x, names, vals, t, vs) ==> gives(
            ExprV::List(seq![ExprV::Symbol("call"@), x]),
            names,
            vals,
            t,
            vs,
        ),
        gives(x, names, vals, t, vs) ==> gives(
            ExprV::List(seq![ExprV::Symbol("reduce"@), x]),
            names,
            vals,
            t,
            vs,
        ),
{
    lemma_forms(x, x, x);
    lemma_const(to_atom(x), vals, t);
    let q = ExprV::List(seq![ExprV::Symbol("quote"@), x]);
    assert(gives(q, names, vals, t, seq![to_atom(x)]));
    let op = OpcodeV::ConstEmpty;
    let none: Seq<AtomV> = Seq::empty();
    assert forall|s: VmV| #[trigger] is_at(s, seq![op], vals) implies leaves(s, t, 1, none) by {
        lemma_at_op(s, t, op, vals);
        let rs: ResultV = Seq::empty();
        assert(raw_atoms(rs) =~= none);
        lemma_pushing(s, t, rs);
    }
    assert(code_leaves(seq![op], vals, t, none));
    if gives(x, names, vals, t, vs) {
        lemma_direct("call"@, x, names, vals, t, vs);
        lemma_direct("reduce"@, x, names, vals, t, vs);
    }
}

/// A form that stands for its argument.
proof fn lemma_direct(
    head: Seq<char>,
    x: ExprV,
    names: Seq<Seq<char>>,
    vals: Seq<AtomV>,
    t: TableV,
    vs: Seq<AtomV>,
)
    requires
        gives(x, names, vals, t, vs),
        form_of(seq![ExprV::Symbol(head), x]) is Direct,
    ensures
        gives(ExprV::List(seq![ExprV::Symbol(head), x]), names, vals, t, vs),
{
    let items = seq![ExprV::Symbol(head), x];
    let e = ExprV::List(items);
    assert forall|sc: ScopeV, tail: bool|
        #![trigger compiled(e, sc, tail)]
        is_scope(sc, e, names, tail) implies {
        &&& compiled(e, sc, tail) is Ok
        &&& compiled(e, sc, tail)->Ok_0.1 == Seq::<Seq<char>>::empty()
        &&& code_leaves(compiled(e, sc, tail)->Ok_0.0, vals, t, vs)
    } by {
        lemma_part_scope(sc, items, 1, names, tail);
        assert(compiled(e, sc, tail) == compiled(x, sc, tail));
    }
}

} // verus!
