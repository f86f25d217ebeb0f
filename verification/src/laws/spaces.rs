//! What the forms of the continuation machine do to spaces.
use crate::atom::AtomV;
use crate::atom::symbol;
use crate::env::EnvV;
use crate::eval::machine::apply::space_added;
use crate::eval::machine::apply::space_removed;
use crate::eval::machine::budget::ResultV;
use crate::eval::machine::budget::plain_results;
use crate::eval::machine::dispatch::expr_plan;
use crate::eval::machine::dispatch::then_frame;
use crate::eval::machine::frame::ContV;
use crate::eval::machine::resume::needs;
use crate::eval::machine::resume::resumed;
use crate::eval::machine::resumed::ResumedV;
use crate::eval::machine::step::CekOutV;
use crate::eval::machine::task::TaskV;
use crate::eval::machine::transition::MovedV;
use crate::eval::machine::transition::TransitionV;
use crate::eval::machine::transition::transitioned;
use crate::eval::machine::vm::plain::all_joined;
use crate::eval::shared::subst::atomized;
use crate::expr::ExprV;
use crate::func::TableV;
use crate::laws::checking::lemma_truth_symbols;
use crate::laws::continuing::cek;
use crate::laws::continuing::lemma_moves_join;
use crate::laws::continuing::lemma_moves_step;
use crate::laws::continuing::lemma_planned;
use crate::laws::continuing::lemma_resumed;
use crate::laws::continuing::moves;
use crate::laws::continuing::turns;
use crate::laws::continuing::yields;
use crate::laws::forms::core_names_are_bound;
use crate::laws::forms::form;
use crate::laws::forms::lemma_form;
use crate::laws::numbers::truth_atom;
use crate::space::lemma_without_first;
use crate::space::space_name;
use crate::space::with_atom;
use crate::space::without_atom;
use vstd::prelude::*;

verus! {

/// A form that changes a space once its expression has named the space.
proof fn lemma_changes(
    e: ExprV,
    env: EnvV,
    t: TableV,
    f: ContV,
    x: ExprV,
    a: AtomV,
    tr: TransitionV,
    out: ResultV,
    t2: TableV,
    room: nat,
    w: Seq<TaskV>,
    v: Seq<ResultV>,
)
    requires
        expr_plan(e, env, t) == then_frame(f, x, env),
        yields(x, env, t, plain_results(seq![a]), room),
        forall|have: nat| #[trigger] needs(f, have) == 1,
        resumed(f, seq![plain_results(seq![a])], t, Seq::empty()) == (
            ResumedV::Tasks(
                seq![TaskV::Apply(ContV::Gather(1)), TaskV::Transition(tr)],
            ),
            Seq::<Seq<char>>::empty(),
            t,
        ),
        transitioned(tr, t, None) == (MovedV::Value(out), None::<i64>, t2),
        out.len() <= 1_000_000,
        w.len() + v.len() + room + 2 <= 2_000_000,
    ensures
        moves(cek(w.push(TaskV::Eval(e, env)), v), t, cek(w, v.push(out)), t2),
{
    let one = plain_results(seq![a]);
    let s = cek(w.push(TaskV::Eval(e, env)), v);
    let ts = seq![TaskV::Apply(f), TaskV::Eval(x, env)];
    lemma_planned(w, v, e, env, t, ts);
    let w1 = w.push(TaskV::Apply(f));
    assert(w + ts =~= w1.push(TaskV::Eval(x, env)));
    assert(moves(cek(w1.push(TaskV::Eval(x, env)), v), t, cek(w1, v.push(one)), t));
    lemma_moves_join(s, t, cek(w + ts, v), t, cek(w1, v.push(one)), t);
    lemma_resumed(w, v, f, seq![one], t);
    assert(v + seq![one] =~= v.push(one));
    let g = ContV::Gather(1);
    let us = seq![TaskV::Apply(g), TaskV::Transition(tr)];
    let w2 = w.push(TaskV::Apply(g));
    let s1 = cek(w2.push(TaskV::Transition(tr)), v);
    assert(w + us =~= s1.work);
    lemma_moves_join(s, t, cek(w1, v.push(one)), t, s1, t);
    let s2 = cek(w2, v.push(out));
    assert(w2.push(TaskV::Transition(tr)).drop_last() =~= w2);
    assert(turns(s1, t) == (CekOutV::Next, Seq::<Seq<char>>::empty(), s2, t2)) by {
        reveal(turns);
    }
    lemma_moves_step(s1, t, s2, t2);
    lemma_moves_join(s, t, s1, t, s2, t2);
    let sets = seq![out];
    assert(sets.drop_last() =~= Seq::<ResultV>::empty());
    assert(all_joined(sets.drop_last()) =~= ResultV::empty());
    assert(all_joined(sets) =~= out);
    assert(v + sets =~= v.push(out));
    lemma_resumed(w, v, g, sets, t2);
    lemma_moves_join(s, t, s2, t2, cek(w, v.push(out)), t2);
}

/// `add-atom` puts an atom behind the others of a space, and answers `true`.
pub proof fn atoms_are_added_to_spaces(
    x: ExprV,
    y: ExprV,
    env: EnvV,
    t: TableV,
    a: AtomV,
    name: Seq<char>,
    room: nat,
    w: Seq<TaskV>,
    v: Seq<ResultV>,
)
    requires
        yields(x, env, t, plain_results(seq![a]), room),
        space_name(a) == Ok::<Seq<char>, Seq<char>>(name),
        w.len() + v.len() + room + 2 <= 2_000_000,
    ensures
        ({
            let t2 = with_atom(t, name, atomized(y, env));
            &&& moves(
                cek(w.push(TaskV::Eval(form("add-atom"@, seq![x, y]), env)), v),
                t,
                cek(w, v.push(plain_results(seq![truth_atom(true)]))),
                t2,
            )
            &&& t2.space(name) == t.space(name).push(atomized(y, env))
        }),
{
    core_names_are_bound();
    lemma_truth_symbols();
    let e = form("add-atom"@, seq![x, y]);
    lemma_form("add-atom"@, seq![x, y], env, t);
    let b = atomized(y, env);
    let one = plain_results(seq![a]);
    let tr = TransitionV::AddAtom(a, b);
    let f = ContV::SpaceAdd(y, env);
    let us = seq![TaskV::Apply(ContV::Gather(1)), TaskV::Transition(tr)];
    assert(space_added(one, y, env)->Tasks_0 =~= us);
    lemma_changes(
        e,
        env,
        t,
        f,
        x,
        a,
        tr,
        plain_results(seq![truth_atom(true)]),
        with_atom(t, name, b),
        room,
        w,
        v,
    );
    assert(with_atom(t, name, b).space(name) =~= t.space(name).push(b));
}

/// `remove-atom` takes the first copy of an atom out of a space and answers `true`
/// where the space holds it; where it does not, nothing changes and the answer is
/// the empty symbol.
pub proof fn atoms_are_removed_from_spaces(
    x: ExprV,
    y: ExprV,
    env: EnvV,
    t: TableV,
    a: AtomV,
    name: Seq<char>,
    room: nat,
    w: Seq<TaskV>,
    v: Seq<ResultV>,
)
    requires
        yields(x, env, t, plain_results(seq![a]), room),
        space_name(a) == Ok::<Seq<char>, Seq<char>>(name),
        w.len() + v.len() + room + 2 <= 2_000_000,
    ensures
        ({
            let b = atomized(y, env);
            let t2 = without_atom(t, name, b);
            let held = t.space(name).contains(b);
            &&& moves(
                cek(w.push(TaskV::Eval(form("remove-atom"@, seq![x, y]), env)), v),
                t,
                cek(
                    w,
                    v.push(
                        plain_results(
                            seq![
                                if held {
                                    truth_atom(true)
                                } else {
                                    AtomV::Sym(Seq::empty())
                                },
                            ],
                        ),
                    ),
                ),
                t2,
            )
            &&& !held ==> t2 == t
            &&& held ==> exists|i: int|
                0 <= i < t.space(name).len() && #[trigger] t.space(name)[i] == b && (forall|j: int|
                    0 <= j < i ==> t.space(name)[j] != b) && t2.space(name) == t.space(name).remove(
                    i,
                )
        }),
{
    core_names_are_bound();
    lemma_truth_symbols();
    let e = form("remove-atom"@, seq![x, y]);
    lemma_form("remove-atom"@, seq![x, y], env, t);
    let b = atomized(y, env);
    let xs = t.space(name);
    let held = xs.contains(b);
    let one = plain_results(seq![a]);
    let tr = TransitionV::RemAtom(a, b);
    let f = ContV::SpaceRemove(y, env);
    let us = seq![TaskV::Apply(ContV::Gather(1)), TaskV::Transition(tr)];
    assert(space_removed(one, y, env)->Tasks_0 =~= us);
    assert(symbol(""@) == AtomV::Sym(Seq::empty())) by {
        reveal_strlit("");
        reveal_strlit("True");
        reveal_strlit("False");
        assert(""@ =~= Seq::<char>::empty());
        assert("True"@.len() == 4 && "False"@.len() == 5);
    }
    let answer = if held {
        truth_atom(true)
    } else {
        AtomV::Sym(Seq::empty())
    };
    lemma_changes(
        e,
        env,
        t,
        f,
        x,
        a,
        tr,
        plain_results(seq![answer]),
        without_atom(t, name, b),
        room,
        w,
        v,
    );
    if held {
        lemma_first_copy(xs, b);
        let i = choose|i: int|
            0 <= i < xs.len() && #[trigger] xs[i] == b && forall|j: int|
                0 <= j < i ==> xs[j] != b;
        lemma_without_first(xs, b, i);
        assert(without_atom(t, name, b).space(name) =~= xs.remove(i));
    }
}

/// An element that a sequence holds has a first place in it.
proof fn lemma_first_copy(xs: Seq<AtomV>, b: AtomV)
    requires
        xs.contains(b),
    ensures
        exists|i: int|
            0 <= i < xs.len() && #[trigger] xs[i] == b && forall|j: int| 0 <= j < i ==> xs[j] != b,
    decreases xs.len(),
{
    let f = xs.drop_last();
    if f.contains(b) {
        lemma_first_copy(f, b);
        let i = choose|i: int|
            0 <= i < f.len() && #[trigger] f[i] == b && forall|j: int| 0 <= j < i ==> f[j] != b;
        assert(xs[i] == b);
        assert forall|j: int| 0 <= j < i implies xs[j] != b by {
            assert(f[j] == xs[j]);
        }
    } else {
        let k = choose|k: int| 0 <= k < xs.len() && xs[k] == b;
        if k < xs.len() - 1 {
            assert(f[k] == b);
        }
        assert(xs[xs.len() - 1] == b);
        assert forall|j: int| 0 <= j < xs.len() - 1 implies xs[j] != b by {
            assert(f[j] == xs[j]);
            assert(f.contains(f[j]));
        }
    }
}

} // verus!
