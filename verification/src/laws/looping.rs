//! What the loops of built-in functions over lists come to.
use crate::atom::AtomV;
use crate::atom::symbol;
use crate::builtins::AnswerV;
use crate::builtins::CalleeV;
use crate::builtins::LoopKind;
use crate::builtins::LoopV;
use crate::builtins::called;
use crate::builtins::loops::LoopsOutV;
use crate::builtins::loops::fed;
use crate::builtins::loops::first_of;
use crate::builtins::loops::loops_stepped;
use crate::func::Builtin;
use crate::func::TableV;
use crate::laws::checking::lemma_truth_symbols;
use crate::laws::folding::accumulated;
use crate::laws::numbers::truth_atom;
use crate::laws::states::conditions_are_truth;
use crate::laws::states::counts_as_true;
use vstd::prelude::*;

verus! {

/// Whether quiet steps of a loop end with a value.
pub open spec fn ends_in(ls: Seq<LoopV>, t: TableV, n: nat, v: AtomV) -> bool
    decreases n,
{
    if n == 0 {
        loops_stepped(ls, t).0 == LoopsOutV::Done(v) && loops_stepped(ls, t).2 == t
    } else {
        let (o, next, t2) = loops_stepped(ls, t);
        o == LoopsOutV::Go(Seq::empty()) && t2 == t && ends_in(next, t, (n - 1) as nat, v)
    }
}

/// A loop of a kind that calls a built-in function for each element of a list.
pub open spec fn loop_over(
    kind: LoopKind,
    b: Builtin,
    name: Seq<char>,
    complaint: Seq<char>,
    items: Seq<AtomV>,
    next: nat,
    acc: AtomV,
    out: Seq<AtomV>,
) -> LoopV {
    LoopV { kind, callee: CalleeV::Native(b), name, complaint, items, next, acc, out }
}

/// Whether a built-in function has one value for each element of a list.
pub open spec fn answers_each(
    b: Builtin,
    name: Seq<char>,
    items: Seq<AtomV>,
    g: spec_fn(AtomV) -> AtomV,
    t: TableV,
) -> bool {
    forall|i: int|
        0 <= i < items.len() ==> called(b, name, seq![#[trigger] items[i]], t) == (
            AnswerV::Values(seq![g(items[i])]),
            t,
        )
}

/// A loop that folds ends with the elements combined from the left.
pub proof fn loops_fold_from_the_left(
    b: Builtin,
    name: Seq<char>,
    complaint: Seq<char>,
    items: Seq<AtomV>,
    acc: AtomV,
    g: spec_fn(AtomV, AtomV) -> AtomV,
    k: nat,
    t: TableV,
)
    requires
        k <= items.len(),
        forall|i: nat|
            i < items.len() ==> called(
                b,
                name,
                seq![accumulated(acc, items, g, i), items[i as int]],
                t,
            ) == (AnswerV::Values(seq![#[trigger] accumulated(acc, items, g, i + 1)]), t),
    ensures
        ends_in(
            seq![
                loop_over(
                    LoopKind::Fold,
                    b,
                    name,
                    complaint,
                    items,
                    k,
                    accumulated(acc, items, g, k),
                    Seq::empty(),
                ),
            ],
            t,
            (items.len() - k) as nat,
            accumulated(acc, items, g, items.len()),
        ),
    decreases items.len() - k,
{
    let here = accumulated(acc, items, g, k);
    let l = loop_over(LoopKind::Fold, b, name, complaint, items, k, here, Seq::empty());
    let ls = seq![l];
    assert(ls.last() == l);
    if k < items.len() {
        let next = accumulated(acc, items, g, k + 1);
        loops_fold_from_the_left(b, name, complaint, items, acc, g, k + 1, t);
        let m = loop_over(LoopKind::Fold, b, name, complaint, items, k + 1, next, Seq::empty());
        assert(called(b, name, seq![here, items[k as int]], t) == (
            AnswerV::Values(seq![next]),
            t,
        ));
        assert(fed(l, Some(next)) == Ok::<LoopV, Seq<char>>(m));
        assert(ls.drop_last().push(m) =~= seq![m]);
        assert(first_of(seq![next]) == Some(next));
        assert(loops_stepped(ls, t) == (LoopsOutV::Go(Seq::empty()), seq![m], t));
    }
}

/// A loop that collects ends with the list of the values for all elements.
pub proof fn loops_collect_all_values(
    b: Builtin,
    name: Seq<char>,
    complaint: Seq<char>,
    items: Seq<AtomV>,
    acc: AtomV,
    g: spec_fn(AtomV) -> AtomV,
    k: nat,
    t: TableV,
)
    requires
        k <= items.len(),
        answers_each(b, name, items, g, t),
    ensures
        ends_in(
            seq![
                loop_over(
                    LoopKind::Collect,
                    b,
                    name,
                    complaint,
                    items,
                    k,
                    acc,
                    items.map_values(g).take(k as int),
                ),
            ],
            t,
            (items.len() - k) as nat,
            AtomV::Expr(items.map_values(g)),
        ),
    decreases items.len() - k,
{
    let all = items.map_values(g);
    let l = loop_over(
        LoopKind::Collect,
        b,
        name,
        complaint,
        items,
        k,
        acc,
        all.take(k as int),
    );
    let ls = seq![l];
    assert(ls.last() == l);
    if k < items.len() {
        let v = g(items[k as int]);
        loops_collect_all_values(b, name, complaint, items, acc, g, k + 1, t);
        assert(all.take(k as int).push(v) =~= all.take(k as int + 1));
        let m = loop_over(
            LoopKind::Collect,
            b,
            name,
            complaint,
            items,
            k + 1,
            acc,
            all.take(k as int + 1),
        );
        assert(called(b, name, seq![items[k as int]], t) == (AnswerV::Values(seq![v]), t));
        assert(fed(l, Some(v)) == Ok::<LoopV, Seq<char>>(m));
        assert(ls.drop_last().push(m) =~= seq![m]);
        assert(first_of(seq![v]) == Some(v));
        assert(loops_stepped(ls, t) == (LoopsOutV::Go(Seq::empty()), seq![m], t));
    } else {
        assert(all.take(k as int) =~= all);
    }
}

/// Whether a loop of a kind keeps an element for which there is a value.
pub open spec fn keeps(kind: LoopKind, v: AtomV) -> bool {
    if kind == LoopKind::Filter {
        counts_as_true(v)
    } else {
        v == truth_atom(true)
    }
}

/// A loop that filters ends with the list of the elements for which the function
/// holds, in their order.
pub proof fn loops_keep_what_holds(
    kind: LoopKind,
    b: Builtin,
    name: Seq<char>,
    complaint: Seq<char>,
    items: Seq<AtomV>,
    acc: AtomV,
    g: spec_fn(AtomV) -> AtomV,
    k: nat,
    t: TableV,
)
    requires
        kind == LoopKind::Filter || kind == LoopKind::KeepTrue,
        k <= items.len(),
        answers_each(b, name, items, g, t),
    ensures
        ends_in(
            seq![
                loop_over(
                    kind,
                    b,
                    name,
                    complaint,
                    items,
                    k,
                    acc,
                    items.take(k as int).filter(|x: AtomV| keeps(kind, g(x))),
                ),
            ],
            t,
            (items.len() - k) as nat,
            AtomV::Expr(items.filter(|x: AtomV| keeps(kind, g(x)))),
        ),
    decreases items.len() - k,
{
    let p = |x: AtomV| keeps(kind, g(x));
    let out = items.take(k as int).filter(p);
    let l = loop_over(kind, b, name, complaint, items, k, acc, out);
    let ls = seq![l];
    assert(ls.last() == l);
    if k < items.len() {
        let x = items[k as int];
        let v = g(x);
        loops_keep_what_holds(kind, b, name, complaint, items, acc, g, k + 1, t);
        let more = items.take(k as int + 1);
        assert(more.drop_last() =~= items.take(k as int));
        assert(more.last() == x);
        let next = more.filter(p);
        assert(next == if p(x) {
            out.push(x)
        } else {
            out
        }) by {
            reveal(Seq::filter);
        }
        let m = loop_over(kind, b, name, complaint, items, k + 1, acc, next);
        assert(called(b, name, seq![x], t) == (AnswerV::Values(seq![v]), t));
        conditions_are_truth(v);
        lemma_truth_symbols();
        assert(symbol("True"@) == symbol("true"@)) by {
            reveal_strlit("True");
            reveal_strlit("true");
            reveal_strlit("False");
            assert("true"@[0] == 't' && "True"@[0] == 'T' && "true"@.len() == 4 && "False"@.len()
                == 5);
        }
        assert(fed(l, Some(v)) == Ok::<LoopV, Seq<char>>(m));
        assert(ls.drop_last().push(m) =~= seq![m]);
        assert(first_of(seq![v]) == Some(v));
        assert(loops_stepped(ls, t) == (LoopsOutV::Go(Seq::empty()), seq![m], t));
    } else {
        assert(items.take(k as int) =~= items);
    }
}

} // verus!
