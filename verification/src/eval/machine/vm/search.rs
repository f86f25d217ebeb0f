//! Instructions of the bytecode machine that run a body for each match.
use crate::atom::Atom;
use crate::atom::AtomV;
use crate::atom::atoms;
use crate::atom::copy_atoms;
use crate::atom::group_atoms;
use crate::atom::symbol;
use crate::env::Binding;
use crate::env::Env;
use crate::env::EnvV;
use crate::env::first_bound;
use crate::env::pairs;
use crate::env::stacked;
use crate::eval::machine::budget::ResultSet;
use crate::eval::machine::budget::ResultV;
use crate::eval::machine::budget::copy_results;
use crate::eval::machine::budget::group_results;
use crate::eval::machine::budget::results;
use crate::eval::machine::vm::bodies::launched;
use crate::eval::machine::vm::bodies::waiting;
use crate::eval::machine::vm::bodies::wait_for;
use crate::eval::machine::vm::call::find_locals;
use crate::eval::machine::vm::call::local_values;
use crate::eval::machine::vm::iterate::join_results;
use crate::eval::machine::vm::op::Block;
use crate::eval::machine::vm::op::BlockV;
use crate::eval::machine::vm::op::Opcode;
use crate::eval::machine::vm::op::OpcodeV;
use crate::eval::machine::vm::op::PatternBody;
use crate::eval::machine::vm::op::PatternBodyV;
use crate::eval::machine::vm::op::ops;
use crate::eval::machine::vm::outcome::StepV;
use crate::eval::machine::vm::outcome::VmOut;
use crate::eval::machine::vm::outcome::VmOutV;
use crate::eval::machine::vm::plain::agrees;
use crate::eval::machine::vm::plain::bind_locals;
use crate::eval::machine::vm::plain::failing;
use crate::eval::machine::vm::plain::failure;
use crate::eval::machine::vm::plain::going;
use crate::eval::machine::vm::plain::pop;
use crate::eval::machine::vm::plain::popped;
use crate::eval::machine::vm::plain::push;
use crate::eval::machine::vm::plain::pushed;
use crate::eval::machine::vm::plain::top;
use crate::eval::machine::vm::plain::with_locals;
use crate::eval::machine::vm::state::UnifyRest;
use crate::eval::machine::vm::state::UnifyRestV;
use crate::eval::machine::vm::state::VMState;
use crate::eval::machine::vm::state::VmV;
use crate::eval::machine::vm::state::Wait;
use crate::eval::machine::vm::state::WaitV;
use crate::eval::machine::vm::state::at_fresh;
use crate::eval::machine::vm::state::inherit;
use crate::eval::machine::vm::state::inherited;
use crate::eval::machine::vm::state::start_values;
use crate::eval::machine::vm::state::vm_start;
use crate::eval::shared::env::bind_all;
use crate::eval::shared::env::linked;
use crate::eval::shared::env::prepend_chain;
use crate::eval::shared::pattern::KnownV;
use crate::eval::shared::pattern::MatchV;
use crate::eval::shared::pattern::Matching;
use crate::eval::shared::pattern::PatternValue;
use crate::eval::shared::pattern::known_values;
use crate::eval::shared::pattern::match_one;
use crate::eval::shared::pattern::try_match_one;
use crate::expr::Expr;
use crate::expr::ExprV;
use crate::func::FnTable;
use crate::func::TableV;
use crate::space::FoundV;
use crate::space::MatchResult;
use crate::space::collect_match_results;
use crate::space::found_values;
use crate::space::matches_in;
use crate::text::chars_of;
use crate::text::first_index;
use crate::text::first_position;
use crate::text::same;
use crate::text::texts;
use std::sync::Arc;
use vstd::prelude::*;
use vstd::string::*;

verus! {

/// The value of a pattern variable after a match in a space: what the match
/// binds it to, else the local variable of that name.
pub open spec fn found_value(
    b: Seq<Binding>,
    name: Seq<char>,
    names: Seq<Seq<char>>,
    locals: ResultV,
) -> AtomV {
    match first_bound(b, name) {
        Some(v) => v,
        None => match first_index(names, name) {
            Some(k) => if k < locals.len() {
                locals[k].0
            } else {
                symbol("()"@)
            },
            None => symbol("()"@),
        },
    }
}

/// The local variables and the environment of the body for a match in a space.
pub open spec fn start_for(
    b: Seq<Binding>,
    vars: Seq<Seq<char>>,
    names: Seq<Seq<char>>,
    locals: ResultV,
    env: EnvV,
) -> (ResultV, EnvV) {
    (
        locals + Seq::new(
            vars.len(),
            |i: int| (found_value(b, vars[i], names, locals), EnvV::Empty),
        ),
        stacked(b, env),
    )
}

/// The starts of the bodies for matches in a space.
pub open spec fn starts_for(
    found: Seq<FoundV>,
    vars: Seq<Seq<char>>,
    names: Seq<Seq<char>>,
    locals: ResultV,
    env: EnvV,
) -> Seq<(ResultV, EnvV)> {
    Seq::new(found.len(), |i: int| start_for(found[i].1, vars, names, locals, env))
}

/// Find what a list of bindings binds a name to.
fn find_binding(list: &Vec<(String, Arc<Atom>)>, name: &str) -> (r: Option<Atom>)
    ensures
        (match r {
            Some(a) => first_bound(pairs(list@), name@) == Some(a@),
            None => first_bound(pairs(list@), name@) is None,
        }),
{
    let ghost b = pairs(list@);
    let mut i: usize = 0;
    assert(b.skip(0) =~= b);
    while i < list.len()
        invariant
            i <= list@.len(),
            b == pairs(list@),
            first_bound(b.skip(i as int), name@) == first_bound(b, name@),
        decreases list@.len() - i,
    {
        assert(b.skip(i as int)[0] == b[i as int]);
        assert(b.skip(i as int).skip(1) =~= b.skip(i + 1));
        if same(list[i].0.as_str(), name) {
            return Some((*list[i].1).clone());
        }
        i += 1;
    }
    assert(b.skip(list@.len() as int) =~= Seq::<Binding>::empty());
    None
}

/// Find the local variables and the environment of the body for a match.
fn make_start(
    list: &Vec<(String, Arc<Atom>)>,
    vars: &Vec<String>,
    names: &Vec<String>,
    locals: &ResultSet,
    env: &Env,
) -> (r: (ResultSet, Env))
    ensures
        (results(r.0@), r.1@) == start_for(
            pairs(list@),
            texts(vars@),
            texts(names@),
            results(locals@),
            env@,
        ),
{
    broadcast use group_results;

    let ghost b = pairs(list@);
    let ghost ls = results(locals@);
    let ghost want = Seq::new(
        vars@.len(),
        |i: int| (found_value(b, texts(vars@)[i], texts(names@), ls), EnvV::Empty),
    );
    let mut more: ResultSet = Vec::new();
    let mut i: usize = 0;
    assert(results(more@) =~= want.take(0));
    while i < vars.len()
        invariant
            i <= vars@.len(),
            b == pairs(list@),
            ls == results(locals@),
            want == Seq::new(
                vars@.len(),
                |i: int| (found_value(b, texts(vars@)[i], texts(names@), ls), EnvV::Empty),
            ),
            results(more@) == want.take(i as int),
        decreases vars@.len() - i,
    {
        assert(ls.len() == locals@.len());
        let value: Atom = match find_binding(list, vars[i].as_str()) {
            Some(a) => a,
            None => match first_position(names, vars[i].as_str()) {
                Some(k) => {
                    if k < locals.len() {
                        locals[k].0.clone()
                    } else {
                        Atom::sym("()")
                    }
                },
                None => Atom::sym("()"),
            },
        };
        more.push((value, Env::new()));
        assert(want.take(i + 1) =~= want.take(i as int).push(want[i as int]));
        i += 1;
    }
    assert(want.take(vars@.len() as int) =~= want);
    let all = join_results(copy_results(locals), more);
    assert(results(all@) =~= start_for(b, texts(vars@), texts(names@), ls, env@).0);
    (all, bind_all(env, list))
}

/// Find the starts of the bodies for matches.
fn make_starts(
    found: &Vec<MatchResult>,
    vars: &Vec<String>,
    names: &Vec<String>,
    locals: &ResultSet,
    env: &Env,
) -> (r: Vec<(ResultSet, Env)>)
    ensures
        start_values(r@) == starts_for(
            found_values(found@),
            texts(vars@),
            texts(names@),
            results(locals@),
            env@,
        ),
{
    let ghost want = starts_for(
        found_values(found@),
        texts(vars@),
        texts(names@),
        results(locals@),
        env@,
    );
    let mut out: Vec<(ResultSet, Env)> = Vec::new();
    let mut i: usize = 0;
    assert(start_values(out@) =~= want.take(0));
    while i < found.len()
        invariant
            i <= found@.len(),
            want == starts_for(
                found_values(found@),
                texts(vars@),
                texts(names@),
                results(locals@),
                env@,
            ),
            start_values(out@) == want.take(i as int),
        decreases found@.len() - i,
    {
        let ghost before = out@;
        let x = make_start(&found[i].bindings, vars, names, locals, env);
        out.push(x);
        assert(start_values(out@) =~= start_values(before).push((results(x.0@), x.1@)));
        assert(want.take(i + 1) =~= want.take(i as int).push(want[i as int]));
        i += 1;
    }
    assert(want.take(found@.len() as int) =~= want);
    out
}

/// The environment in which a space is searched: the local variables alone.
pub open spec fn search_env(names: Seq<Seq<char>>, locals: ResultV) -> EnvV
    decreases names.len(),
{
    if names.len() == 0 {
        EnvV::Empty
    } else {
        let before = search_env(names.drop_last(), locals);
        if names.len() <= locals.len() {
            EnvV::Cons(
                names.last(),
                Box::new(locals[names.len() - 1].0),
                Box::new(before),
            )
        } else {
            before
        }
    }
}

/// Make the environment in which a space is searched.
fn make_search_env(names: &Vec<String>, locals: &ResultSet) -> (r: Env)
    ensures
        r@ == search_env(texts(names@), results(locals@)),
{
    let ghost ns = texts(names@);
    let ghost ls = results(locals@);
    let mut out: Env = Env::new();
    let mut i: usize = 0;
    assert(ns.take(0) =~= Seq::<Seq<char>>::empty());
    while i < names.len()
        invariant
            i <= names@.len(),
            ns == texts(names@),
            ls == results(locals@),
            out@ == search_env(ns.take(i as int), ls),
        decreases names@.len() - i,
    {
        assert(ns.take(i + 1).drop_last() =~= ns.take(i as int));
        assert(ls.len() == locals@.len());
        if i < locals.len() {
            out = out.extend(names[i].as_str(), locals[i].0.clone());
        }
        i += 1;
    }
    assert(ns.take(names@.len() as int) =~= ns);
    out
}

/// Starting to search a space. A search that is not possible finds nothing.
pub open spec fn match_started(s: VmV, t: TableV, p: PatternBodyV, names: Seq<Seq<char>>) -> StepV {
    if s.stack.len() == 0 {
        failing(s, t, "VM stack underflow on Match space"@)
    } else {
        let env = search_env(names, s.locals);
        let found = if top(s, 0).len() == 0 {
            Seq::empty()
        } else {
            match matches_in(t, top(s, 0)[0].0, p.pattern, env) {
                Ok(f) => f,
                Err(_) => Seq::empty(),
            }
        };
        if found.len() == 0 {
            going(
                waiting(
                    popped(s, 1),
                    WaitV::Match(Seq::empty(), Seq::empty(), s.budget, Seq::empty()),
                ),
                t,
            )
        } else {
            let values = inherited(p.body.free_vars, s.free_vars, s.bindings, t.fresh);
            going(
                waiting(
                    popped(s, 1),
                    WaitV::Match(
                        starts_for(found, p.pattern_vars, names, s.locals, env),
                        values.0,
                        s.budget,
                        Seq::empty(),
                    ),
                ),
                at_fresh(t, values.1),
            )
        }
    }
}

/// Start to search a space.
pub fn start_match(st: &mut VMState, table: &mut FnTable, p: &PatternBody, names: &Vec<String>) -> (r:
    VmOut)
    ensures
        agrees(
            (r@, final(st)@, final(table)@),
            match_started(old(st)@, old(table)@, p@, texts(names@)),
        ),
{
    let env = make_search_env(names, &st.locals);
    match pop(st) {
        None => failure("VM stack underflow on Match space"),
        Some(rs) => {
            assert(results(rs@).len() == rs@.len());
            let found: Vec<MatchResult> = if rs.len() == 0 {
                Vec::new()
            } else {
                match collect_match_results(table, &rs[0].0, &p.pattern, &env) {
                    Ok(f) => f,
                    Err(_) => Vec::new(),
                }
            };
            assert(found_values(found@).len() == found@.len());
            let ghost fs = found_values(found@);
            assert(found@.len() == 0 ==> fs =~= Seq::<FoundV>::empty());
            let out: ResultSet = Vec::new();
            assert(results(out@) =~= Seq::empty());
            let budget: Option<i64> = st.budget;
            if found.len() == 0 {
                let none: Vec<(ResultSet, Env)> = Vec::new();
                let nothing: Vec<Atom> = Vec::new();
                assert(start_values(none@) =~= Seq::empty());
                assert(atoms(nothing@) =~= Seq::<AtomV>::empty());
                wait_for(st, Wait::Match(none, nothing, budget, out));
                return VmOut::Next;
            }
            let bindings = inherit(&p.body.free_vars, &st.free_vars, &st.bindings, table);
            let starts = make_starts(&found, &p.pattern_vars, names, &st.locals, &env);
            wait_for(st, Wait::Match(starts, bindings, budget, out));
            VmOut::Next
        },
    }
}

/// What is left of matches after the first one was taken: the last one takes
/// its place.
pub open spec fn after_first(s: Seq<(ResultV, EnvV)>) -> Seq<(ResultV, EnvV)> {
    s.update(0, s.last()).drop_last()
}

/// The next turn of a search.
pub open spec fn match_turn(
    s: VmV,
    t: TableV,
    body: BlockV,
    left: Seq<(ResultV, EnvV)>,
    values: Seq<AtomV>,
    budget: Option<i64>,
    out: ResultV,
) -> StepV {
    if left.len() > 0 && !s.cut {
        (
            VmOutV::Sub(vm_start(body, left[0].0, values, budget, left[0].1), None),
            waiting(s, WaitV::Match(after_first(left), values, budget, out)),
            t,
        )
    } else {
        going(pushed(s, out), t)
    }
}

/// Take the next turn of a search.
pub fn next_match_body(
    st: &mut VMState,
    table: &FnTable,
    body: &Block,
    left: Vec<(ResultSet, Env)>,
    values: Vec<Atom>,
    budget: Option<i64>,
    out: ResultSet,
) -> (r: VmOut)
    requires
        old(st).ip < usize::MAX,
    ensures
        (r@, final(st)@, table@) == match_turn(
            old(st)@,
            table@,
            body@,
            start_values(left@),
            atoms(values@),
            budget,
            results(out@),
        ),
{
    broadcast use group_atoms;

    assert(start_values(left@).len() == left@.len());
    if left.len() > 0 && !st.cut_executed {
        let mut left = left;
        let ghost before = left@;
        let first = left.swap_remove(0);
        assert(start_values(left@) =~= after_first(start_values(before)));
        assert(start_values(before)[0] == (results(first.0@), first.1@));
        let copy = copy_atoms(&values, 0);
        assert(values@.skip(0) =~= values@);
        let sub = VMState::start(body.clone(), first.0, copy, budget, first.1);
        wait_for(st, Wait::Match(left, values, budget, out));
        VmOut::Sub(sub, None)
    } else {
        push(st, out);
        VmOut::Next
    }
}

/// Whether an atom names a space.
pub open spec fn names_space(a: AtomV) -> bool {
    a is Sym && a->Sym_0.len() > 0 && a->Sym_0[0] == '&'
}

/// Starting to unify: a search in a space, or a match of values.
pub open spec fn unify_started(
    s: VmV,
    t: TableV,
    pattern_b: ExprV,
    vars: Seq<Seq<char>>,
    names: Seq<Seq<char>>,
    free: Seq<Seq<char>>,
) -> StepV {
    if s.stack.len() == 0 {
        failing(s, t, "VM stack underflow on Unify B"@)
    } else if s.stack.len() == 1 {
        failing(s, t, "VM stack underflow on Unify A"@)
    } else {
        let env = with_locals(names, s.locals, s.env);
        let values = inherited(free, s.free_vars, s.bindings, t.fresh);
        let after = at_fresh(t, values.1);
        let a = top(s, 1);
        if a.len() > 0 && names_space(a[0].0) {
            match matches_in(t, a[0].0, pattern_b, env) {
                Err(m) => failing(s, after, m),
                Ok(found) => going(
                    waiting(
                        popped(s, 2),
                        WaitV::Unify(
                            UnifyRestV::Space(
                                starts_for(found, vars, Seq::empty(), s.locals, env),
                            ),
                            env,
                            values.0,
                            false,
                            found.len() == 0,
                            Seq::empty(),
                        ),
                    ),
                    after,
                ),
            }
        } else {
            going(
                waiting(
                    popped(s, 2),
                    WaitV::Unify(
                        UnifyRestV::Values(top(s, 0), a.len() > 0),
                        env,
                        values.0,
                        false,
                        false,
                        Seq::empty(),
                    ),
                ),
                after,
            )
        }
    }
}

/// Test whether an atom names a space.
fn is_space_name(a: &Atom) -> (r: bool)
    ensures
        r == names_space(a@),
{
    match a {
        Atom::Sym(s) => {
            let v = chars_of(s.as_str());
            v.len() > 0 && v[0] == '&'
        },
        _ => false,
    }
}

/// Start to unify.
pub fn start_unify(
    st: &mut VMState,
    table: &mut FnTable,
    pattern_b: &Expr,
    vars: &Vec<String>,
    names: &Vec<String>,
    free: &Vec<String>,
) -> (r: VmOut)
    ensures
        agrees(
            (r@, final(st)@, final(table)@),
            unify_started(
                old(st)@,
                old(table)@,
                pattern_b@,
                texts(vars@),
                texts(names@),
                texts(free@),
            ),
        ),
{
    let ghost s0 = st@;
    let env = bind_locals(names, &st.locals, &st.env);
    match pop(st) {
        None => failure("VM stack underflow on Unify B"),
        Some(b_rs) => match pop(st) {
            None => failure("VM stack underflow on Unify A"),
            Some(a_rs) => {
                assert(st@ =~= popped(s0, 2));
                let ghost t0 = table@;
                let values = inherit(free, &st.free_vars, &st.bindings, table);
                assert(results(a_rs@).len() == a_rs@.len());
                let out: ResultSet = Vec::new();
                assert(results(out@) =~= Seq::empty());
                if a_rs.len() > 0 && is_space_name(&a_rs[0].0) {
                    match collect_match_results(table, &a_rs[0].0, pattern_b, &env) {
                        Err(m) => VmOut::Fail(m),
                        Ok(found) => {
                            assert(found_values(found@).len() == found@.len());
                            let none: Vec<String> = Vec::new();
                            assert(texts(none@) =~= Seq::<Seq<char>>::empty());
                            let starts = make_starts(&found, vars, &none, &st.locals, &env);
                            let empty: bool = found.len() == 0;
                            wait_for(
                                st,
                                Wait::Unify(
                                    UnifyRest::Space(starts),
                                    env,
                                    values,
                                    false,
                                    empty,
                                    out,
                                ),
                            );
                            VmOut::Next
                        },
                    }
                } else {
                    let some: bool = a_rs.len() > 0;
                    wait_for(
                        st,
                        Wait::Unify(UnifyRest::Values(b_rs, some), env, values, false, false, out),
                    );
                    VmOut::Next
                }
            },
        },
    }
}

/// The outcome of looking for the next value that unifies.
pub enum UnifiedV {
    /// None is left.
    Nothing,
    /// The value at a position matches.
    Found(nat, EnvV),
    /// A value is missing.
    Ask(ExprV, EnvV),
}

/// The next value that matches a pattern in an environment.
pub open spec fn next_unified(
    values: ResultV,
    i: nat,
    p: ExprV,
    env: EnvV,
    known: Seq<KnownV>,
) -> UnifiedV
    decreases values.len() - i,
{
    if i >= values.len() {
        UnifiedV::Nothing
    } else {
        match match_one(p, values[i as int].0, linked(values[i as int].1, env), known) {
            MatchV::Yes(e) => UnifiedV::Found(i, e),
            MatchV::No => next_unified(values, i + 1, p, env, known),
            MatchV::Ask(x, e) => UnifiedV::Ask(x, e),
        }
    }
}

/// The outcome of looking for the next value that unifies.
enum Unified {
    /// None is left.
    Nothing,
    /// The value at a position matches.
    Found(usize, Env),
    /// The value of this expression in this environment is needed first.
    Ask(Expr, Env),
}

/// The value of an outcome.
spec fn unified_value(u: Unified) -> UnifiedV {
    match u {
        Unified::Nothing => UnifiedV::Nothing,
        Unified::Found(i, e) => UnifiedV::Found(i as nat, e@),
        Unified::Ask(x, e) => UnifiedV::Ask(x@, e@),
    }
}

/// Look for the next value that matches a pattern in an environment.
fn find_unified(values: &ResultSet, pattern: &Expr, env: &Env, known: &Vec<PatternValue>) -> (r:
    Unified)
    ensures
        unified_value(r) == next_unified(
            results(values@),
            0,
            pattern@,
            env@,
            known_values(known@),
        ),
        r matches Unified::Found(i, _) ==> i < values@.len(),
{
    let ghost vs = results(values@);
    let ghost kn = known_values(known@);
    let mut i: usize = 0;
    while i < values.len()
        invariant
            i <= values@.len(),
            vs == results(values@),
            kn == known_values(known@),
            next_unified(vs, i as nat, pattern@, env@, kn) == next_unified(
                vs,
                0,
                pattern@,
                env@,
                kn,
            ),
        decreases values@.len() - i,
    {
        assert(vs[i as int] == (values@[i as int].0@, values@[i as int].1@));
        let base = prepend_chain(values[i].1.clone(), env);
        match try_match_one(pattern, &values[i].0, &base, known) {
            Matching::Yes(e) => {
                return Unified::Found(i, e);
            },
            Matching::No => {},
            Matching::Ask(x, e) => {
                return Unified::Ask(x, e);
            },
        }
        i += 1;
    }
    Unified::Nothing
}

/// The values after a position.
fn values_after(values: &ResultSet, i: usize) -> (r: ResultSet)
    requires
        i < values@.len(),
    ensures
        results(r@) == results(values@).skip(i + 1),
{
    broadcast use group_results;

    let ghost want = results(values@).skip(i + 1);
    let mut out: ResultSet = Vec::new();
    let len: usize = values.len();
    assert(i < len);
    let mut k: usize = i + 1;
    assert(results(out@) =~= want.take(0));
    while k < values.len()
        invariant
            i < k <= values@.len(),
            want == results(values@).skip(i + 1),
            results(out@) == want.take(k - i - 1),
        decreases values@.len() - k,
    {
        out.push((values[k].0.clone(), values[k].1.clone()));
        assert(want.take(k - i) =~= want.take(k - i - 1).push(want[k - i - 1]));
        k += 1;
    }
    assert(want.take(values@.len() - i - 1) =~= want);
    out
}

/// The next turn of a unification.
pub open spec fn unify_turn(
    s: VmV,
    t: TableV,
    pattern_a: ExprV,
    yes: Seq<OpcodeV>,
    no: Seq<OpcodeV>,
    vars: Seq<Seq<char>>,
    free: Seq<Seq<char>>,
    rest: UnifyRestV,
    env: EnvV,
    values: Seq<AtomV>,
    any: bool,
    other: bool,
    out: ResultV,
) -> StepV {
    let yes_block = BlockV { code: yes, free_vars: free };
    let no_block = BlockV { code: no, free_vars: free };
    if s.cut {
        going(pushed(s, out), t)
    } else {
        match rest {
            UnifyRestV::Nothing => going(pushed(s, out), t),
            UnifyRestV::Space(left) => if left.len() > 0 {
                (
                    VmOutV::Sub(vm_start(yes_block, left[0].0, values, s.budget, left[0].1), None),
                    waiting(
                        s,
                        WaitV::Unify(
                            UnifyRestV::Space(left.skip(1)),
                            env,
                            values,
                            true,
                            other,
                            out,
                        ),
                    ),
                    t,
                )
            } else if other {
                (
                    VmOutV::Sub(vm_start(no_block, s.locals, values, s.budget, env), None),
                    waiting(s, WaitV::Unify(rest, env, values, any, false, out)),
                    t,
                )
            } else {
                going(pushed(s, out), t)
            },
            UnifyRestV::Values(vals, some) => {
                let found = if some {
                    next_unified(vals, 0, pattern_a, env, s.known)
                } else {
                    UnifiedV::Nothing
                };
                match found {
                    UnifiedV::Ask(x, e) => (VmOutV::Ask(x, e), s, t),
                    UnifiedV::Found(i, e) => (
                        VmOutV::Sub(
                            vm_start(
                                yes_block,
                                s.locals + local_values(vars, e),
                                values,
                                s.budget,
                                e,
                            ),
                            None,
                        ),
                        waiting(
                            s,
                            WaitV::Unify(
                                UnifyRestV::Values(vals.skip(i as int + 1), some),
                                env,
                                values,
                                true,
                                other,
                                out,
                            ),
                        ),
                        t,
                    ),
                    UnifiedV::Nothing => if any {
                        going(pushed(s, out), t)
                    } else {
                        launched(
                            s,
                            t,
                            WaitV::Unify(
                                UnifyRestV::Values(Seq::empty(), some),
                                env,
                                values,
                                true,
                                other,
                                out,
                            ),
                            no_block,
                            s.locals,
                            env,
                            None,
                        )
                    },
                }
            },
        }
    }
}

/// A unification that is under way.
pub struct Unifying {
    /// What is left.
    pub rest: UnifyRest,
    /// The environment.
    pub env: Env,
    /// The values of the free variables.
    pub values: Vec<Atom>,
    /// Whether there was a match.
    pub any: bool,
    /// Whether the other branch is due.
    pub other: bool,
    /// The results so far.
    pub out: ResultSet,
}

impl Unifying {
    /// What the machine waits for during the unification.
    pub open spec fn wait(self) -> WaitV {
        WaitV::Unify(
            self.rest@,
            self.env@,
            atoms(self.values@),
            self.any,
            self.other,
            results(self.out@),
        )
    }
}

/// Wait for the next turn of a unification.
fn wait_unify(st: &mut VMState, u: Unifying)
    ensures
        final(st)@ == waiting(old(st)@, u.wait()),
{
    wait_for(st, Wait::Unify(u.rest, u.env, u.values, u.any, u.other, u.out));
}

/// Take the next turn of a unification.
pub fn next_unify_body(
    st: &mut VMState,
    table: &mut FnTable,
    pattern_a: &Expr,
    yes: &Arc<Vec<Opcode>>,
    no: &Arc<Vec<Opcode>>,
    vars: &Vec<String>,
    free: &Arc<Vec<String>>,
    u: Unifying,
) -> (r: VmOut)
    requires
        old(st).ip < usize::MAX,
    ensures
        (r@, final(st)@, final(table)@) == unify_turn(
            (VmV { wait: u.wait(), ..old(st)@ }),
            old(table)@,
            pattern_a@,
            ops(yes@),
            ops(no@),
            texts(vars@),
            texts(free@),
            u.rest@,
            u.env@,
            atoms(u.values@),
            u.any,
            u.other,
            results(u.out@),
        ),
{
    broadcast use {group_atoms, group_results};

    let mut u = u;
    if st.cut_executed {
        push(st, u.out);
        return VmOut::Next;
    }
    let yes_block = Block { code: yes.clone(), free_vars: free.clone() };
    let no_block = Block { code: no.clone(), free_vars: free.clone() };
    assert(yes_block@ == BlockV { code: ops(yes@), free_vars: texts(free@) });
    assert(no_block@ == BlockV { code: ops(no@), free_vars: texts(free@) });
    let copy = copy_atoms(&u.values, 0);
    assert(u.values@.skip(0) =~= u.values@);
    match u.rest {
        UnifyRest::Nothing => {
            push(st, u.out);
            VmOut::Next
        },
        UnifyRest::Space(left) => {
            let mut left = left;
            assert(start_values(left@).len() == left@.len());
            if left.len() > 0 {
                let ghost before = left@;
                let first = left.remove(0);
                assert(start_values(left@) =~= start_values(before).skip(1));
                assert(start_values(before)[0] == (results(first.0@), first.1@));
                let sub = VMState::start(yes_block, first.0, copy, st.budget, first.1);
                u.rest = UnifyRest::Space(left);
                u.any = true;
                wait_unify(st, u);
                VmOut::Sub(sub, None)
            } else if u.other {
                let locals = copy_results(&st.locals);
                let sub = VMState::start(no_block, locals, copy, st.budget, u.env.clone());
                u.rest = UnifyRest::Space(left);
                u.other = false;
                wait_unify(st, u);
                VmOut::Sub(sub, None)
            } else {
                push(st, u.out);
                VmOut::Next
            }
        },
        UnifyRest::Values(vals, some) => {
            let found: Unified = if some {
                find_unified(&vals, pattern_a, &u.env, &st.known)
            } else {
                Unified::Nothing
            };
            match found {
                Unified::Ask(x, e) => {
                    st.wait = Wait::Unify(
                        UnifyRest::Values(vals, some),
                        u.env,
                        u.values,
                        u.any,
                        u.other,
                        u.out,
                    );
                    VmOut::Ask(x, e)
                },
                Unified::Found(i, e) => {
                    let more = find_locals(vars, &e);
                    let locals = join_results(copy_results(&st.locals), more);
                    let sub = VMState::start(yes_block, locals, copy, st.budget, e);
                    let rest = values_after(&vals, i);
                    u.rest = UnifyRest::Values(rest, some);
                    u.any = true;
                    wait_unify(st, u);
                    VmOut::Sub(sub, None)
                },
                Unified::Nothing => {
                    if u.any {
                        push(st, u.out);
                        return VmOut::Next;
                    }
                    let locals = copy_results(&st.locals);
                    let bindings = inherit(free, &st.free_vars, &st.bindings, table);
                    let sub = VMState::start(no_block, locals, bindings, st.budget, u.env.clone());
                    let none: ResultSet = Vec::new();
                    assert(results(none@) =~= Seq::empty());
                    u.rest = UnifyRest::Values(none, some);
                    u.any = true;
                    wait_unify(st, u);
                    VmOut::Sub(sub, None)
                },
            }
        },
    }
}

} // verus!
