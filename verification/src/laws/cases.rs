//! The values of `case` forms.
use crate::atom::AtomV;
use crate::env::EnvV;
use crate::env::env_get;
use crate::eval::machine::budget::ResultV;
use crate::eval::machine::budget::raw_atoms;
use crate::eval::machine::vm::call::local_values;
use crate::eval::machine::vm::compiler::ScopeV;
use crate::eval::machine::vm::compiler::compiled;
use crate::eval::machine::vm::compiler::compiled_branches;
use crate::eval::machine::vm::compiler::is_pair;
use crate::eval::machine::vm::compiler::vars_of;
use crate::eval::machine::vm::compiler::with_body;
use crate::eval::machine::vm::iterate::FindV;
use crate::eval::machine::vm::iterate::case_turn;
use crate::eval::machine::vm::iterate::propagated;
use crate::eval::machine::vm::iterate::returned;
use crate::eval::machine::vm::iterate::select_branch;
use crate::eval::machine::vm::iterate::with_frame;
use crate::eval::machine::vm::op::OpcodeV;
use crate::eval::machine::vm::op::PatternBodyV;
use crate::eval::machine::vm::plain::popped;
use crate::eval::machine::vm::plain::top;
use crate::eval::machine::vm::state::KindV;
use crate::eval::machine::vm::state::VmV;
use crate::eval::machine::vm::state::at_fresh;
use crate::eval::machine::vm::state::inherited;
use crate::eval::shared::env::linked;
use crate::eval::shared::env::prepend_then_lookup;
use crate::eval::shared::pattern::KnownV;
use crate::eval::shared::pattern::MatchV;
use crate::eval::shared::pattern::all_ground;
use crate::eval::shared::pattern::is_ground;
use crate::eval::shared::pattern::is_plain;
use crate::eval::shared::pattern::match_one;
use crate::eval::shared::pattern::matching_is_substitution;
use crate::expr::ExprV;
use crate::func::TableV;
use crate::laws::applying::lemma_at_split;
use crate::laws::applying::lemma_behind;
use crate::laws::branching::is_back;
use crate::laws::branching::is_returned;
use crate::laws::branching::lemma_at_frame;
use crate::laws::branching::lemma_forms;
use crate::laws::branching::lemma_frame_body;
use crate::laws::branching::lemma_part_scope;
use crate::laws::branching::lemma_propagated;
use crate::laws::branching::values_in;
use crate::laws::meaning::code_leaves;
use crate::laws::meaning::gives;
use crate::laws::meaning::is_at;
use crate::laws::meaning::is_past;
use crate::laws::meaning::is_scope;
use crate::laws::meaning::leaves;
use crate::laws::meaning::lemma_at_op;
use crate::laws::running::gets;
use crate::laws::running::lemma_gets_join;
use crate::laws::running::lemma_gets_step;
use crate::laws::searching::all_values;
use crate::laws::searching::compiles;
use crate::laws::searching::lemma_vars_stand;
use crate::text::first_index;
use crate::text::united;
use vstd::prelude::*;

verus! {

/// Whether a clause of a `case` is for a value: its pattern is the name `$else`, or
/// matches the value.
pub open spec fn is_for(c: ExprV, a: AtomV) -> bool {
    let p = c->List_0[0];
    p != ExprV::Symbol("Empty"@) && (p == ExprV::Symbol("$else"@) || match_one(
        p,
        a,
        EnvV::Empty,
        Seq::empty(),
    ) is Yes)
}

/// Whether a clause is the first one of a `case` for a value.
pub open spec fn is_first_for(cs: Seq<ExprV>, j: int, a: AtomV) -> bool {
    &&& 0 <= j < cs.len()
    &&& is_for(cs[j], a)
    &&& forall|i: int| 0 <= i < j ==> !is_for(#[trigger] cs[i], a)
}

/// Whether clauses of a `case` are pairs of a plain pattern and a body that
/// compiles.
pub open spec fn are_clauses(cs: Seq<ExprV>, names: Seq<Seq<char>>) -> bool {
    forall|j: int|
        0 <= j < cs.len() ==> {
            let c = #[trigger] cs[j];
            &&& is_pair(c)
            &&& is_plain(c->List_0[0])
            &&& compiles(c->List_0[1], names + vars_of(c->List_0[0]))
        }
}

/// Whether the body of a clause has values for a value.
pub open spec fn clause_body_gives(
    c: ExprV,
    a: AtomV,
    names: Seq<Seq<char>>,
    vals: Seq<AtomV>,
    t: TableV,
    vs: Seq<AtomV>,
) -> bool {
    let p = c->List_0[0];
    let inner = names + vars_of(p);
    if p == ExprV::Symbol("$else"@) {
        forall|z: AtomV| #[trigger] gives(c->List_0[1], inner, vals.push(z), t, vs)
    } else {
        match_one(p, a, EnvV::Empty, Seq::empty()) matches MatchV::Yes(m) && gives(
            c->List_0[1],
            inner,
            vals + values_in(p, m),
            t,
            vs,
        )
    }
}

/// Whether a compiled clause has values for a value.
spec fn branch_leaves(
    b: PatternBodyV,
    a: AtomV,
    vals: Seq<AtomV>,
    t: TableV,
    vs: Seq<AtomV>,
) -> bool {
    if b.pattern == ExprV::Symbol("$else"@) {
        forall|z: AtomV| #[trigger] code_leaves(b.body.code, vals.push(z), t, vs)
    } else {
        match_one(b.pattern, a, EnvV::Empty, Seq::empty()) matches MatchV::Yes(m) && code_leaves(
            b.body.code,
            vals + values_in(b.pattern, m),
            t,
            vs,
        )
    }
}

proof fn lemma_else_vars()
    ensures
        vars_of(ExprV::Symbol("$else"@)) == seq!["$else"@],
        ExprV::Symbol("$else"@) != ExprV::Symbol("Empty"@),
{
    reveal_strlit("$else");
    reveal_strlit("Empty");
    assert("$else"@[0] == '$' && "Empty"@[0] == 'E');
    let none: Seq<Seq<char>> = Seq::empty();
    assert(first_index(none, "$else"@) is None);
    assert(none.push("$else"@) =~= seq!["$else"@]);
}

/// The compiled clauses.
proof fn lemma_clauses_compiled(
    cs: Seq<ExprV>,
    c: ScopeV,
    names: Seq<Seq<char>>,
    tail: bool,
)
    requires
        are_clauses(cs, names),
        c.locals == names,
        c.free == Seq::<Seq<char>>::empty(),
    ensures
        ({
            let r = compiled_branches(cs, c, tail);
            &&& r is Ok
            &&& r->Ok_0.0.len() == cs.len()
            &&& r->Ok_0.1 == Seq::<Seq<char>>::empty()
            &&& forall|j: int|
                0 <= j < cs.len() ==> {
                    let b = #[trigger] r->Ok_0.0[j];
                    let p = cs[j]->List_0[0];
                    let k = compiled(cs[j]->List_0[1], c.inside(vars_of(p)).nameless(), tail);
                    &&& b.pattern == p
                    &&& b.pattern_vars == vars_of(p)
                    &&& k is Ok
                    &&& b.body.code == k->Ok_0.0
                    &&& b.body.free_vars == Seq::<Seq<char>>::empty()
                }
        }),
    decreases cs.len(),
{
    if cs.len() > 0 {
        let f = cs.drop_last();
        assert forall|j: int| 0 <= j < f.len() implies ({
            let c = #[trigger] f[j];
            &&& is_pair(c)
            &&& is_plain(c->List_0[0])
            &&& compiles(c->List_0[1], names + vars_of(c->List_0[0]))
        }) by {
            assert(f[j] == cs[j]);
        }
        lemma_clauses_compiled(f, c, names, tail);
        let before = compiled_branches(f, c, tail)->Ok_0;
        let n = cs.len() - 1;
        let b = cs[n];
        assert(is_pair(b));
        let p = b->List_0[0];
        assert(c.knowing(before.1) == c);
        let inner = c.inside(vars_of(p)).nameless();
        assert(is_scope(inner, b->List_0[1], names + vars_of(p), tail));
        let body = compiled(b->List_0[1], inner, tail)->Ok_0;
        assert(united(before.1, body.1) == Seq::<Seq<char>>::empty());
        let r = compiled_branches(cs, c, tail)->Ok_0;
        assert(r.0 == before.0.push(with_body(p, body)));
        assert forall|j: int| 0 <= j < cs.len() implies ({
            let b = #[trigger] r.0[j];
            let p = cs[j]->List_0[0];
            let k = compiled(cs[j]->List_0[1], c.inside(vars_of(p)).nameless(), tail);
            &&& b.pattern == p
            &&& b.pattern_vars == vars_of(p)
            &&& k is Ok
            &&& b.body.code == k->Ok_0.0
            &&& b.body.free_vars == Seq::<Seq<char>>::empty()
        }) by {
            if j < n {
                assert(r.0[j] == before.0[j]);
                assert(f[j] == cs[j]);
            }
        }
    }
}

proof fn lemma_selected(
    bs: Seq<PatternBodyV>,
    cs: Seq<ExprV>,
    i: nat,
    j: int,
    a: AtomV,
    env: EnvV,
)
    requires
        bs.len() == cs.len(),
        forall|k: int|
            0 <= k < cs.len() ==> (#[trigger] bs[k]).pattern == cs[k]->List_0[0] && is_plain(
                bs[k].pattern,
            ),
        is_ground(a),
        is_first_for(cs, j, a),
        i <= j,
    ensures
        select_branch(bs, i, a, env, Seq::empty()) == FindV::Found(
            j as nat,
            if bs[j].pattern == ExprV::Symbol("$else"@) {
                env
            } else {
                linked(match_one(bs[j].pattern, a, EnvV::Empty, Seq::empty())->Yes_0, env)
            },
        ),
    decreases j - i,
{
    let p = bs[i as int].pattern;
    assert(p == cs[i as int]->List_0[0]);
    assert(bs[j].pattern == cs[j]->List_0[0]);
    matching_is_substitution(p, a, EnvV::Empty, Seq::empty());
    if i < j {
        assert(!is_for(cs[i as int], a));
        lemma_selected(bs, cs, i + 1, j, a, env);
    }
}

/// The rest of a `case`.
proof fn lemma_case_goes_on(
    s: VmV,
    t: TableV,
    values: ResultV,
    bs: Seq<PatternBodyV>,
    cs: Seq<ExprV>,
    vals: Seq<AtomV>,
    vss: Seq<Seq<AtomV>>,
    js: Seq<int>,
    k: nat,
    done: Seq<AtomV>,
)
    requires
        s.wait is Iterate,
        s.known == Seq::<KnownV>::empty(),
        !s.cut,
        s.budget is None,
        s.frames.len() > 0,
        s.frames.last().kind == KindV::Case(values, bs),
        s.frames.last().next == k,
        s.frames.last().locals_to_pop == 0,
        0 < values.len(),
        k <= values.len(),
        raw_atoms(s.frames.last().out) == done,
        raw_atoms(s.locals) == vals,
        all_ground(vals),
        all_ground(raw_atoms(values)),
        bs.len() == cs.len(),
        forall|k: int|
            0 <= k < cs.len() ==> (#[trigger] bs[k]).pattern == cs[k]->List_0[0] && is_plain(
                bs[k].pattern,
            ) && bs[k].pattern_vars == vars_of(bs[k].pattern) && bs[k].body.free_vars == Seq::<
                Seq<char>,
            >::empty(),
        vss.len() == values.len(),
        js.len() == values.len(),
        forall|k: int|
            0 <= k < values.len() ==> is_first_for(cs, #[trigger] js[k], raw_atoms(values)[k])
                && branch_leaves(bs[js[k]], raw_atoms(values)[k], vals, t, vss[k]),
    ensures
        exists|s2: VmV| #[trigger]
            gets(s, t, s2, t) && is_returned(s, done + all_values(vss.skip(k as int)), s2),
    decreases values.len() - k,
{
    lemma_at_frame(s, t);
    let f = s.frames.last();
    let want = done + all_values(vss.skip(k as int));
    if k == values.len() {
        let s2 = returned(s, f.out);
        lemma_gets_step(s, t, s2, t);
        assert(vss.skip(k as int) =~= Seq::<Seq<AtomV>>::empty());
        assert(want =~= done);
        assert(is_returned(s, want, s2));
    } else {
        let (a, e) = values[k as int];
        let j = js[k as int];
        assert(raw_atoms(values)[k as int] == a);
        assert(is_first_for(cs, j, a));
        lemma_selected(bs, cs, 0, j, a, e);
        let p = bs[j];
        lemma_else_vars();
        let other = p.pattern == ExprV::Symbol("$else"@);
        let m = match_one(p.pattern, a, EnvV::Empty, Seq::empty())->Yes_0;
        let env = if other {
            e
        } else {
            linked(m, e)
        };
        lemma_propagated(s.locals, env);
        let more = local_values(p.pattern_vars, env);
        let outer = propagated(s.locals, env);
        let inner = outer + more;
        let vars = vars_of(p.pattern);
        if !other {
            matching_is_substitution(p.pattern, a, EnvV::Empty, Seq::empty());
            lemma_vars_stand(p.pattern);
            assert forall|i: int| 0 <= i < vars.len() implies #[trigger] raw_atoms(more)[i]
                == values_in(p.pattern, m)[i] by {
                assert(vars.contains(vars[i]));
                prepend_then_lookup(m, e, vars[i]);
                assert(env_get(m, vars[i]) is Some);
            }
            assert(raw_atoms(more) =~= values_in(p.pattern, m));
        } else {
            assert(more.len() == 1);
            assert(raw_atoms(more) =~= seq![more[0].0]);
            assert(code_leaves(p.body.code, vals.push(more[0].0), t, vss[k as int]));
            assert(vals.push(more[0].0) =~= vals + raw_atoms(more));
        }
        assert(raw_atoms(inner) =~= raw_atoms(outer) + raw_atoms(more));
        assert(raw_atoms(inner) =~= vals + raw_atoms(more));
        let step = case_turn(s, t, values, bs);
        let s1 = step.1;
        assert(at_fresh(t, t.fresh) == t);
        assert(inherited(p.body.free_vars, s.free_vars, s.bindings, t.fresh).1 == t.fresh);
        assert(step.0 is Next && step.2 == t);
        lemma_gets_step(s, t, s1, t);
        assert(raw_atoms(inner).len() == inner.len());
        lemma_frame_body(s1, t, p.body.code, vals + raw_atoms(more), vss[k as int]);
        let s2 = choose|s2: VmV| #[trigger] gets(s1, t, s2, t) && is_back(s1, vss[k as int], s2);
        lemma_gets_join(s, t, s1, t, s2, t);
        assert(raw_atoms(s2.locals) =~= vals);
        lemma_case_goes_on(s2, t, values, bs, cs, vals, vss, js, k + 1, done + vss[k as int]);
        let rest = all_values(vss.skip(k as int + 1));
        let s3 = choose|s3: VmV| #[trigger]
            gets(s2, t, s3, t) && is_returned(s2, done + vss[k as int] + rest, s3);
        lemma_gets_join(s, t, s2, t, s3, t);
        assert(s2.frames.drop_last() =~= s.frames.drop_last());
        assert(vss.skip(k as int)[0] == vss[k as int]);
        assert(vss.skip(k as int).skip(1) =~= vss.skip(k as int + 1));
        assert(done + vss[k as int] + rest =~= want);
        assert(is_returned(s, want, s3));
    }
}

/// `(case v clauses)` has, for each value of `v` in turn, the values of the body of
/// the first clause for it, with the variables of its pattern bound to what they
/// stand for.
pub proof fn first_clauses_give_their_values(
    v: ExprV,
    cs: Seq<ExprV>,
    names: Seq<Seq<char>>,
    vals: Seq<AtomV>,
    t: TableV,
    vs: Seq<AtomV>,
    js: Seq<int>,
    vss: Seq<Seq<AtomV>>,
)
    requires
        gives(v, names, vals, t, vs),
        vs.len() > 0,
        all_ground(vals),
        all_ground(vs),
        are_clauses(cs, names),
        js.len() == vs.len(),
        vss.len() == vs.len(),
        forall|k: int|
            0 <= k < vs.len() ==> is_first_for(cs, #[trigger] js[k], vs[k]) && clause_body_gives(
                cs[js[k]],
                vs[k],
                names,
                vals,
                t,
                vss[k],
            ),
    ensures
        gives(
            ExprV::List(seq![ExprV::Symbol("case"@), v, ExprV::List(cs)]),
            names,
            vals,
            t,
            all_values(vss),
        ),
{
    let items = seq![ExprV::Symbol("case"@), v, ExprV::List(cs)];
    let e = ExprV::List(items);
    let want = all_values(vss);
    lemma_forms(v, ExprV::List(cs), v);
    lemma_else_vars();
    assert forall|sc: ScopeV, tail: bool|
        #![trigger compiled(e, sc, tail)]
        is_scope(sc, e, names, tail) implies {
        &&& compiled(e, sc, tail) is Ok
        &&& compiled(e, sc, tail)->Ok_0.1 == Seq::<Seq<char>>::empty()
        &&& code_leaves(compiled(e, sc, tail)->Ok_0.0, vals, t, want)
    } by {
        lemma_part_scope(sc, items, 1, names, tail);
        let a = compiled(v, sc, false)->Ok_0;
        lemma_clauses_compiled(cs, sc, names, tail);
        let bs = compiled_branches(cs, sc, tail)->Ok_0.0;
        let op = OpcodeV::Case(bs);
        let code = a.0.push(op);
        assert(code =~= a.0 + seq![op]);
        assert(compiled(e, sc, tail)->Ok_0.0 == code);
        assert forall|k: int| 0 <= k < cs.len() implies (#[trigger] bs[k]).pattern
            == cs[k]->List_0[0] && is_plain(bs[k].pattern) && bs[k].pattern_vars == vars_of(
            bs[k].pattern,
        ) && bs[k].body.free_vars == Seq::<Seq<char>>::empty() by {
            assert(is_pair(cs[k]));
        }
        assert forall|k: int| 0 <= k < vs.len() implies is_first_for(
            cs,
            #[trigger] js[k],
            vs[k],
        ) && branch_leaves(bs[js[k]], vs[k], vals, t, vss[k]) by {
            let j = js[k];
            let b = bs[j];
            let p = cs[j]->List_0[0];
            assert(is_pair(cs[j]));
            let inner = sc.inside(vars_of(p)).nameless();
            let body = cs[j]->List_0[1];
            assert(is_scope(inner, body, names + vars_of(p), tail));
            assert(b.body.code == compiled(body, inner, tail)->Ok_0.0);
            assert(clause_body_gives(cs[j], vs[k], names, vals, t, vss[k]));
            if p == ExprV::Symbol("$else"@) {
                assert forall|z: AtomV| #[trigger]
                    code_leaves(b.body.code, vals.push(z), t, vss[k]) by {
                    assert(gives(body, names + vars_of(p), vals.push(z), t, vss[k]));
                }
            }
        }
        assert forall|s: VmV| #[trigger] is_at(s, code, vals) implies leaves(
            s,
            t,
            code.len(),
            want,
        ) by {
            lemma_at_split(s, a.0, seq![op], vals);
            assert(leaves(s, t, a.0.len(), vs));
            let s1 = choose|s1: VmV| #[trigger] gets(s, t, s1, t) && is_past(s, a.0.len(), vs, s1);
            lemma_behind(s, a.0, seq![op], vals, s1);
            lemma_at_op(s1, t, op, vals);
            let values = s1.stack.last();
            assert(raw_atoms(values).len() == values.len());
            let q = popped(s1, 1);
            assert(q.stack =~= s.stack);
            let none: ResultV = Seq::empty();
            let s2 = with_frame(q, KindV::Case(values, bs), none);
            assert(top(s1, 0) == values);
            lemma_gets_step(s1, t, s2, t);
            lemma_gets_join(s, t, s1, t, s2, t);
            let done: Seq<AtomV> = Seq::empty();
            assert(raw_atoms(none) =~= done);
            lemma_case_goes_on(s2, t, values, bs, cs, vals, vss, js, 0, done);
            assert(vss.skip(0) =~= vss);
            assert(done + want =~= want);
            let s3 = choose|s3: VmV| #[trigger] gets(s2, t, s3, t) && is_returned(s2, want, s3);
            lemma_gets_join(s, t, s2, t, s3, t);
            assert(s2.frames.drop_last() =~= s.frames);
            assert(is_past(s, code.len(), want, s3));
        }
    }
}

} // verus!
