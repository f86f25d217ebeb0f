//! Application of functions to evaluated arguments.
use crate::atom::Atom;
use crate::atom::AtomV;
use crate::atom::atoms;
use crate::atom::copy_atoms;
use crate::builtins::types::atom_lists;
use crate::env::Env;
use crate::env::EnvV;
use crate::eval::forms::query::ClauseMatch;
use crate::eval::forms::query::ClauseMatchV;
use crate::eval::forms::query::clause_match;
use crate::eval::forms::query::match_clause;
use crate::eval::machine::apply::any_empty;
use crate::eval::machine::apply::option_values;
use crate::eval::machine::apply::put_in_front;
use crate::eval::machine::apply::some_empty;
use crate::eval::machine::apply::take_options;
use crate::eval::machine::apply::under_env;
use crate::eval::machine::budget::ComboV;
use crate::eval::machine::budget::ResultSet;
use crate::eval::machine::budget::ResultV;
use crate::eval::machine::budget::atom_cost;
use crate::eval::machine::budget::calculate_cost;
use crate::eval::machine::budget::capped;
use crate::eval::machine::budget::combo_values;
use crate::eval::machine::budget::combos;
use crate::eval::machine::budget::copy_results;
use crate::eval::machine::budget::plain;
use crate::eval::machine::budget::plain_results;
use crate::eval::machine::budget::raw_atoms;
use crate::eval::machine::budget::raw_atoms_of;
use crate::eval::machine::budget::result_sets;
use crate::eval::machine::budget::results;
use crate::eval::machine::budget::threaded_combinations;
use crate::eval::machine::frame::ContV;
use crate::eval::machine::frame::Frame;
use crate::eval::machine::frame::slot_value;
use crate::eval::machine::frame::slot_values;
use crate::eval::machine::product::cartesian_product;
use crate::eval::machine::product::products;
use crate::eval::machine::resumed::NativeCalls;
use crate::eval::machine::resumed::NativesV;
use crate::eval::machine::resumed::Resumed;
use crate::eval::machine::resumed::ResumedV;
use crate::eval::machine::resumed::frame_then;
use crate::eval::machine::resumed::lemma_targets_push;
use crate::eval::machine::resumed::nothing;
use crate::eval::machine::resumed::resume_fail;
use crate::eval::machine::resumed::resume_frame;
use crate::eval::machine::resumed::resume_nothing;
use crate::eval::machine::task::Task;
use crate::eval::machine::task::TaskV;
use crate::eval::machine::task::lemma_tasks_push;
use crate::eval::machine::task::tasks;
use crate::eval::machine::transition::Transition;
use crate::eval::machine::transition::TransitionV;
use crate::eval::machine::vm::iterate::join_results;
use crate::eval::machine::vm::state::MemoKey;
use crate::eval::machine::vm::state::MemoKeyV;
use crate::eval::machine::vm::state::memo_key;
use crate::eval::machine::vm::state::target_values;
use crate::eval::shared::pattern::KnownV;
use crate::eval::shared::pattern::PatternValue;
use crate::eval::shared::pattern::known_values;
use crate::compile::reify::expr_to_atom;
use crate::compile::reify::to_atom;
use crate::expr::Expr;
use crate::expr::ExprV;
use crate::func::Builtin;
use crate::func::Clause;
use crate::func::ClauseV;
use crate::func::FnTable;
use crate::func::TableV;
use crate::func::clauses;
use crate::func::remembered;
use std::sync::Arc;
use vstd::prelude::*;
use vstd::string::*;

verus! {

/// A clause that matched: its body, the environment of the body, and the cost
/// of the substitution.
pub type MatchedV = (ExprV, EnvV, i64);

/// The values of clauses that matched.
pub open spec fn matched_values(s: Seq<(Expr, Env, i64)>) -> Seq<MatchedV> {
    Seq::new(s.len(), |i: int| (s[i].0@, s[i].1@, s[i].2))
}

/// Adding a clause that matched adds its value.
proof fn lemma_matched_push(s: Seq<(Expr, Env, i64)>, x: (Expr, Env, i64))
    ensures
        matched_values(s.push(x)) == matched_values(s).push((x.0@, x.1@, x.2)),
{
    assert(matched_values(s.push(x)) =~= matched_values(s).push((x.0@, x.1@, x.2)));
}

/// The clauses that match a combination of arguments, or a missing value.
pub open spec fn clause_bodies(cs: Seq<ClauseV>, c: ComboV, known: Seq<KnownV>) -> Result<
    Seq<MatchedV>,
    (ExprV, EnvV),
>
    decreases cs.len(),
{
    if cs.len() == 0 {
        Ok(Seq::empty())
    } else {
        match clause_bodies(cs.drop_last(), c, known) {
            Err(q) => Err(q),
            Ok(bs) => match clause_match(cs.last().patterns, c.0, c.1, known) {
                ClauseMatchV::Ask(x, e) => Err((x, e)),
                ClauseMatchV::No => Ok(bs),
                ClauseMatchV::Yes(e, cost) => Ok(bs.push((cs.last().body, e, cost))),
            },
        }
    }
}

/// The clauses that match combinations of arguments, or a missing value.
pub open spec fn call_bodies(cs: Seq<ClauseV>, combos: Seq<ComboV>, known: Seq<KnownV>) -> Result<
    Seq<MatchedV>,
    (ExprV, EnvV),
>
    decreases combos.len(),
{
    if combos.len() == 0 {
        Ok(Seq::empty())
    } else {
        match call_bodies(cs, combos.drop_last(), known) {
            Err(q) => Err(q),
            Ok(bs) => match clause_bodies(cs, combos.last(), known) {
                Err(q) => Err(q),
                Ok(more) => Ok(bs + more),
            },
        }
    }
}

/// A missing value for an initial part of the clauses is missing for all.
proof fn lemma_clauses_stop(cs: Seq<ClauseV>, c: ComboV, known: Seq<KnownV>, n: int)
    requires
        0 <= n <= cs.len(),
        clause_bodies(cs.take(n), c, known) is Err,
    ensures
        clause_bodies(cs, c, known) == clause_bodies(cs.take(n), c, known),
    decreases cs.len() - n,
{
    if n == cs.len() {
        assert(cs.take(n) =~= cs);
    } else {
        assert(cs.take(n + 1).drop_last() =~= cs.take(n));
        lemma_clauses_stop(cs, c, known, n + 1);
    }
}

/// A missing value for an initial part of the combinations is missing for all.
proof fn lemma_combos_stop(cs: Seq<ClauseV>, combos: Seq<ComboV>, known: Seq<KnownV>, n: int)
    requires
        0 <= n <= combos.len(),
        call_bodies(cs, combos.take(n), known) is Err,
    ensures
        call_bodies(cs, combos, known) == call_bodies(cs, combos.take(n), known),
    decreases combos.len() - n,
{
    if n == combos.len() {
        assert(combos.take(n) =~= combos);
    } else {
        assert(combos.take(n + 1).drop_last() =~= combos.take(n));
        lemma_combos_stop(cs, combos, known, n + 1);
    }
}

/// The clauses that match, or a missing value.
pub type Found = Result<Vec<(Expr, Env, i64)>, (Expr, Env)>;

/// The value of the clauses that match, or of a missing value.
pub open spec fn found_value(f: Found) -> Result<Seq<MatchedV>, (ExprV, EnvV)> {
    match f {
        Ok(v) => Ok(matched_values(v@)),
        Err(q) => Err((q.0@, q.1@)),
    }
}

/// Find the clauses that match a combination of arguments.
fn find_clauses(cs: &Vec<Clause>, args: &Vec<Atom>, base: &Env, known: &Vec<PatternValue>) -> (r:
    Found)
    ensures
        found_value(r) == clause_bodies(
            clauses(cs@),
            (atoms(args@), base@),
            known_values(known@),
        ),
        r matches Ok(v) ==> forall|i: int| 0 <= i < v@.len() ==> (#[trigger] v@[i]).2 >= 0,
{
    let ghost cv = clauses(cs@);
    let ghost kn = known_values(known@);
    let ghost c: ComboV = (atoms(args@), base@);
    let mut out: Vec<(Expr, Env, i64)> = Vec::new();
    let mut i: usize = 0;
    assert(cv.take(0) =~= Seq::<ClauseV>::empty());
    assert(matched_values(out@) =~= Seq::<MatchedV>::empty());
    while i < cs.len()
        invariant
            i <= cs@.len(),
            cv == clauses(cs@),
            kn == known_values(known@),
            c == (atoms(args@), base@),
            clause_bodies(cv.take(i as int), c, kn) == Ok::<Seq<MatchedV>, (ExprV, EnvV)>(
                matched_values(out@),
            ),
            forall|k: int| 0 <= k < out@.len() ==> (#[trigger] out@[k]).2 >= 0,
        decreases cs@.len() - i,
    {
        assert(cv.take(i + 1).drop_last() =~= cv.take(i as int));
        assert(cv[i as int] == cs@[i as int]@);
        match match_clause(&cs[i].patterns, args, base, known) {
            ClauseMatch::Ask(x, e) => {
                proof {
                    lemma_clauses_stop(cv, c, kn, i + 1);
                }
                return Err((x, e));
            },
            ClauseMatch::No => {},
            ClauseMatch::Yes(e, cost) => {
                let ghost before = out@;
                let x = (cs[i].body.clone(), e, cost);
                out.push(x);
                proof {
                    lemma_matched_push(before, x);
                }
            },
        }
        i += 1;
    }
    assert(cv.take(cs@.len() as int) =~= cv);
    Ok(out)
}

/// Find the clauses that match combinations of arguments.
pub fn find_bodies(cs: &Vec<Clause>, cb: &Vec<(Vec<Atom>, Env)>, known: &Vec<PatternValue>) -> (r: Found)
    ensures
        found_value(r) == call_bodies(clauses(cs@), combo_values(cb@), known_values(known@)),
        r matches Ok(v) ==> forall|i: int| 0 <= i < v@.len() ==> (#[trigger] v@[i]).2 >= 0,
{
    let ghost cv = clauses(cs@);
    let ghost kn = known_values(known@);
    let ghost all = combo_values(cb@);
    let mut out: Vec<(Expr, Env, i64)> = Vec::new();
    let mut i: usize = 0;
    assert(all.take(0) =~= Seq::<ComboV>::empty());
    assert(matched_values(out@) =~= Seq::<MatchedV>::empty());
    while i < cb.len()
        invariant
            i <= cb@.len(),
            cv == clauses(cs@),
            kn == known_values(known@),
            all == combo_values(cb@),
            call_bodies(cv, all.take(i as int), kn) == Ok::<Seq<MatchedV>, (ExprV, EnvV)>(
                matched_values(out@),
            ),
            forall|k: int| 0 <= k < out@.len() ==> (#[trigger] out@[k]).2 >= 0,
        decreases cb@.len() - i,
    {
        assert(all.take(i + 1).drop_last() =~= all.take(i as int));
        assert(all[i as int] == (atoms(cb@[i as int].0@), cb@[i as int].1@));
        match find_clauses(cs, &cb[i].0, &cb[i].1, known) {
            Err(q) => {
                proof {
                    lemma_combos_stop(cv, all, kn, i + 1);
                }
                return Err(q);
            },
            Ok(mut more) => {
                let ghost x = out@;
                let ghost y = more@;
                out.append(&mut more);
                assert(matched_values(out@) =~= matched_values(x) + matched_values(y));
                assert forall|k: int| 0 <= k < out@.len() implies (#[trigger] out@[k]).2 >= 0 by {
                    if k < x.len() {
                        assert(out@[k] == x[k]);
                    } else {
                        assert(out@[k] == y[k - x.len()]);
                    }
                }
            },
        }
        i += 1;
    }
    assert(all.take(cb@.len() as int) =~= all);
    Ok(out)
}

/// The bodies that matched with their environments.
pub open spec fn without_costs(bs: Seq<MatchedV>) -> Seq<(ExprV, EnvV)> {
    Seq::new(bs.len(), |i: int| (bs[i].0, bs[i].1))
}

/// Take the bodies that matched with their environments.
pub fn drop_costs(bs: &Vec<(Expr, Env, i64)>) -> (r: Vec<(Expr, Env)>)
    ensures
        target_values(r@) == without_costs(matched_values(bs@)),
{
    let ghost want = without_costs(matched_values(bs@));
    let mut out: Vec<(Expr, Env)> = Vec::new();
    let mut i: usize = 0;
    assert(target_values(out@) =~= want.take(0));
    while i < bs.len()
        invariant
            i <= bs@.len(),
            want == without_costs(matched_values(bs@)),
            target_values(out@) == want.take(i as int),
        decreases bs@.len() - i,
    {
        let ghost before = out@;
        let x = (bs[i].0.clone(), bs[i].1.clone());
        out.push(x);
        proof {
            lemma_targets_push(before, x);
        }
        assert(want.take(i + 1) =~= want.take(i as int).push(want[i as int]));
        i += 1;
    }
    assert(want.take(bs@.len() as int) =~= want);
    out
}

/// Remembering atoms under a key.
pub open spec fn storing(t: TableV, key: Option<MemoKeyV>, out: ResultV) -> TableV {
    match key {
        Some(k) => TableV { memo: t.memo.push((k.0, k.1, raw_atoms(out))), ..t },
        None => t,
    }
}

/// Remember atoms under a key.
pub fn store(table: &mut FnTable, key: &Option<MemoKey>, out: &ResultSet)
    ensures
        final(table)@ == storing(old(table)@, memo_key(*key), results(out@)),
{
    match key {
        Some(k) => {
            let args = copy_atoms(&k.args, 0);
            assert(k.args@.skip(0) =~= k.args@);
            table.memo_set(k.name.as_str(), args, raw_atoms_of(out));
        },
        None => {},
    }
}

/// Running the next of several bodies, or their results.
pub open spec fn bodies_next(
    bs: Seq<(ExprV, EnvV)>,
    i: nat,
    out: ResultV,
    key: Option<MemoKeyV>,
    keep: bool,
    t: TableV,
) -> (ResumedV, TableV) {
    if i < bs.len() {
        (
            frame_then(
                ContV::Bodies(bs, i + 1, out, key, keep),
                TaskV::Run(bs[i as int].0, bs[i as int].1),
            ),
            t,
        )
    } else if keep {
        (ResumedV::Value(out), storing(t, key, out))
    } else {
        (ResumedV::Value(plain_results(raw_atoms(out))), storing(t, key, out))
    }
}

/// Run the next of several bodies, or take their results.
pub fn next_body(
    bs: Arc<Vec<(Expr, Env)>>,
    i: usize,
    out: ResultSet,
    key: Option<MemoKey>,
    keep: bool,
    table: &mut FnTable,
) -> (r: Resumed)
    ensures
        (r@, final(table)@) == bodies_next(
            target_values(bs@),
            i as nat,
            results(out@),
            memo_key(key),
            keep,
            old(table)@,
        ),
{
    let len: usize = bs.len();
    assert(target_values(bs@).len() == len);
    if i < len {
        let x = bs[i].0.clone();
        let e = bs[i].1.clone();
        resume_frame(Frame::Bodies(bs, i + 1, out, key, keep), Task::Run(x, e))
    } else {
        store(table, &key, &out);
        if keep {
            Resumed::Value(out)
        } else {
            Resumed::Value(plain(raw_atoms_of(&out)))
        }
    }
}

/// Taking the results of a body and running the next one.
pub open spec fn bodies_resumed(
    r: ResultV,
    bs: Seq<(ExprV, EnvV)>,
    i: nat,
    out: ResultV,
    key: Option<MemoKeyV>,
    keep: bool,
    t: TableV,
) -> (ResumedV, TableV) {
    let more = if keep && 0 < i <= bs.len() {
        under_env(r, bs[i - 1].1)
    } else {
        r
    };
    bodies_next(bs, i, out + more, key, keep, t)
}

/// Take the results of a body and run the next one.
pub fn resume_bodies(
    rs: ResultSet,
    bs: Arc<Vec<(Expr, Env)>>,
    i: usize,
    out: ResultSet,
    key: Option<MemoKey>,
    keep: bool,
    table: &mut FnTable,
) -> (r: Resumed)
    ensures
        (r@, final(table)@) == bodies_resumed(
            results(rs@),
            target_values(bs@),
            i as nat,
            results(out@),
            memo_key(key),
            keep,
            old(table)@,
        ),
{
    assert(target_values(bs@).len() == bs@.len());
    let more: ResultSet = if keep && 0 < i && i <= bs.len() {
        put_in_front(&rs, &bs[i - 1].1)
    } else {
        rs
    };
    let all = join_results(out, more);
    next_body(bs, i, all, key, keep, table)
}

/// The key under which the results of a call are remembered.
pub open spec fn call_key(name: Seq<char>, arity: u8, cb: Seq<ComboV>, t: TableV) -> Option<
    MemoKeyV,
> {
    if t.pure_fns.contains((name, arity)) && cb.len() == 1 {
        Some((name, cb[0].0))
    } else {
        None
    }
}

/// What a call is remembered to give.
pub open spec fn recalled(key: Option<MemoKeyV>, t: TableV) -> Option<Seq<AtomV>> {
    match key {
        Some(k) => remembered(t.memo, k.0, k.1),
        None => None,
    }
}

/// Find the key under which the results of a call are remembered.
pub fn find_key(name: &str, arity: u8, cb: &Vec<(Vec<Atom>, Env)>, table: &FnTable) -> (r: Option<
    MemoKey,
>)
    ensures
        memo_key(r) == call_key(name@, arity, combo_values(cb@), table@),
{
    assert(combo_values(cb@).len() == cb@.len());
    if table.is_pure_fn(name, arity) && cb.len() == 1 {
        assert(combo_values(cb@)[0] == (atoms(cb@[0].0@), cb@[0].1@));
        let args = copy_atoms(&cb[0].0, 0);
        assert(cb@[0].0@.skip(0) =~= cb@[0].0@);
        Some(MemoKey { name: name.to_owned(), args })
    } else {
        None
    }
}

/// Recall what a call gives.
pub fn recall(key: &Option<MemoKey>, table: &FnTable) -> (r: Option<Vec<Atom>>)
    ensures
        (match r {
            Some(v) => recalled(memo_key(*key), table@) == Some(atoms(v@)),
            None => recalled(memo_key(*key), table@) is None,
        }),
{
    match key {
        Some(k) => table.memo_get(k.name.as_str(), &k.args),
        None => None,
    }
}

/// The cost of entering a body: of the substitution and of the body.
pub open spec fn entry_cost(b: MatchedV) -> u64 {
    (b.2 + capped(atom_cost(to_atom(b.0)) as int)) as u64
}

/// The tasks for the bodies of a call, the first body last.
pub open spec fn body_tasks(bs: Seq<MatchedV>) -> Seq<TaskV>
    decreases bs.len(),
{
    if bs.len() == 0 {
        Seq::empty()
    } else {
        body_tasks(bs.skip(1)) + seq![
            TaskV::Apply(ContV::MergeEnv(bs[0].1)),
            TaskV::Eval(bs[0].0, bs[0].1),
            TaskV::Transition(TransitionV::Query(entry_cost(bs[0]))),
        ]
    }
}

/// The tasks for the bodies of a call.
pub open spec fn sequential_tasks(bs: Seq<MatchedV>, key: Option<MemoKeyV>) -> Seq<TaskV> {
    (match key {
        Some(k) => seq![TaskV::Apply(ContV::MemoStore(k))],
        None => Seq::empty(),
    }) + seq![TaskV::Apply(ContV::Gather(bs.len()))] + body_tasks(bs)
}

/// Make the tasks for the bodies of a call.
fn make_body_tasks(bs: &Vec<(Expr, Env, i64)>, key: Option<MemoKey>) -> (r: Vec<Task>)
    requires
        forall|i: int| 0 <= i < bs@.len() ==> (#[trigger] bs@[i]).2 >= 0,
    ensures
        tasks(r@) == sequential_tasks(matched_values(bs@), memo_key(key)),
{
    broadcast use lemma_tasks_push;

    let ghost all = matched_values(bs@);
    let ghost mk = memo_key(key);
    let ghost front = (match mk {
        Some(k) => seq![TaskV::Apply(ContV::MemoStore(k))],
        None => Seq::empty(),
    }) + seq![TaskV::Apply(ContV::Gather(bs@.len()))];
    let mut v: Vec<Task> = Vec::new();
    assert(tasks(v@) =~= Seq::<TaskV>::empty());
    match key {
        Some(k) => {
            v.push(Task::Apply(Frame::MemoStore(k)));
        },
        None => {},
    }
    v.push(Task::Apply(Frame::Gather(bs.len())));
    assert(tasks(v@) =~= front);
    let mut k: usize = bs.len();
    assert(all.skip(k as int) =~= Seq::<MatchedV>::empty());
    assert(tasks(v@) =~= front + body_tasks(all.skip(k as int)));
    while k > 0
        invariant
            k <= bs@.len(),
            all == matched_values(bs@),
            forall|i: int| 0 <= i < bs@.len() ==> (#[trigger] bs@[i]).2 >= 0,
            tasks(v@) == front + body_tasks(all.skip(k as int)),
        decreases k,
    {
        k = k - 1;
        let ghost rest = all.skip(k as int);
        assert(rest.skip(1) =~= all.skip(k + 1));
        assert(rest[0] == (bs@[k as int].0@, bs@[k as int].1@, bs@[k as int].2));
        let ghost before = tasks(v@);
        v.push(Task::Apply(Frame::MergeEnv(bs[k].1.clone())));
        v.push(Task::Eval(bs[k].0.clone(), bs[k].1.clone()));
        let body_atom = expr_to_atom(&bs[k].0);
        let body_cost: i64 = match calculate_cost(&body_atom) {
            Some(c) => c,
            None => 0,
        };
        let cost: u64 = bs[k].2 as u64 + body_cost as u64;
        v.push(Task::Transition(Transition::Query(cost)));
        assert(cost == entry_cost(rest[0]));
        assert(tasks(v@) =~= before + seq![
            TaskV::Apply(ContV::MergeEnv(rest[0].1)),
            TaskV::Eval(rest[0].0, rest[0].1),
            TaskV::Transition(TransitionV::Query(entry_cost(rest[0]))),
        ]);
        assert(tasks(v@) =~= front + body_tasks(rest));
    }
    assert(all.skip(0) =~= all);
    assert(tasks(v@) =~= sequential_tasks(all, mk));
    v
}

/// Calling a user-defined function with evaluated arguments.
///
/// A pure call with one combination is looked up first. Bodies of functions
/// that do not change anything run on their own; otherwise each body pays for
/// its entry and is evaluated in turn.
pub open spec fn user_called(
    name: Seq<char>,
    cs: Seq<ClauseV>,
    arity: nat,
    sets: Seq<ResultV>,
    t: TableV,
    known: Seq<KnownV>,
) -> (ResumedV, TableV) {
    let cb = combos(sets);
    let key = call_key(name, arity as u8, cb, t);
    if cb.len() == 0 {
        (nothing(), t)
    } else {
        match recalled(key, t) {
            Some(vs) => (ResumedV::Value(plain_results(vs)), t),
            None => match call_bodies(cs, cb, known) {
                Err(q) => (ResumedV::Ask(q.0, q.1), t),
                Ok(bs) => if bs.len() == 0 {
                    (nothing(), t)
                } else if bs.len() > 1 && (t.pure_fns.contains((name, arity as u8))
                    || t.readers.contains((name, arity as u8))) {
                    bodies_next(without_costs(bs), 0, Seq::empty(), key, true, t)
                } else {
                    (ResumedV::Tasks(sequential_tasks(bs, key)), t)
                },
            },
        }
    }
}

/// Call a user-defined function with evaluated arguments.
fn call_user(
    name: &str,
    cs: &Vec<Clause>,
    arity: usize,
    sets: &Vec<ResultSet>,
    table: &mut FnTable,
    known: &Vec<PatternValue>,
) -> (r: Resumed)
    ensures
        (r@, final(table)@) == user_called(
            name@,
            clauses(cs@),
            arity as nat,
            result_sets(sets@),
            old(table)@,
            known_values(known@),
        ),
{
    let cb = threaded_combinations(sets);
    assert(combo_values(cb@).len() == cb@.len());
    if cb.len() == 0 {
        return resume_nothing();
    }
    let n: u8 = arity as u8;
    let key = find_key(name, n, &cb, table);
    match recall(&key, table) {
        Some(vs) => Resumed::Value(plain(vs)),
        None => match find_bodies(cs, &cb, known) {
            Err(q) => Resumed::Ask(q.0, q.1),
            Ok(bs) => {
                assert(matched_values(bs@).len() == bs@.len());
                if bs.len() == 0 {
                    resume_nothing()
                } else if bs.len() > 1 && table.is_parallelizable(name, n) {
                    let list = Arc::new(drop_costs(&bs));
                    let none: ResultSet = Vec::new();
                    assert(results(none@) =~= ResultV::empty());
                    next_body(list, 0, none, key, true, table)
                } else {
                    Resumed::Tasks(make_body_tasks(&bs, key))
                }
            },
        },
    }
}

/// Calls of a built-in function for all combinations of values.
pub open spec fn native_calls(
    b: Builtin,
    name: Seq<char>,
    options: Seq<Seq<AtomV>>,
    lenient: bool,
) -> ResumedV {
    ResumedV::Natives(
        NativesV {
            builtin: b,
            name,
            combos: products(options),
            next: 0,
            out: Seq::empty(),
            lenient,
            error: None,
        },
    )
}

/// Begin calls of a built-in function for all combinations of values.
pub fn begin_natives(b: Builtin, name: &str, options: &Vec<Vec<Atom>>, lenient: bool) -> (r: Resumed)
    ensures
        r@ == native_calls(b, name@, atom_lists(options@), lenient),
{
    let none: Vec<Atom> = Vec::new();
    let c = NativeCalls {
        builtin: b,
        name: name.to_owned(),
        combos: cartesian_product(options),
        next: 0,
        out: none,
        lenient,
        error: None,
    };
    assert(atoms(c.out@) =~= Seq::<AtomV>::empty());
    Resumed::Natives(c)
}

/// How many argument slots are not filled yet.
pub open spec fn open_slots(s: Seq<Option<ResultV>>) -> nat
    decreases s.len(),
{
    if s.len() == 0 {
        0
    } else {
        open_slots(s.drop_last()) + if s.last() is None {
            1nat
        } else {
            0nat
        }
    }
}

/// Argument slots with the open ones filled in order.
pub open spec fn filled_slots(s: Seq<Option<ResultV>>, eager: Seq<ResultV>) -> Seq<ResultV>
    decreases s.len(),
{
    if s.len() == 0 {
        Seq::empty()
    } else {
        let before = filled_slots(s.drop_last(), eager);
        match s.last() {
            Some(r) => before.push(r),
            None => before.push(eager[open_slots(s.drop_last()) as int]),
        }
    }
}

/// No more slots are open in an initial part than in the whole.
proof fn lemma_open_slots(s: Seq<Option<ResultV>>, n: int)
    requires
        0 <= n <= s.len(),
    ensures
        open_slots(s.take(n)) <= open_slots(s),
        open_slots(s) <= s.len(),
        n < s.len() && s[n] is None ==> open_slots(s.take(n)) < open_slots(s),
    decreases s.len(), s.len() - n,
{
    if n == s.len() {
        assert(s.take(n) =~= s);
        if n > 0 {
            assert(s.drop_last() =~= s.take(n - 1));
            lemma_open_slots(s.drop_last(), n - 1);
        }
    } else {
        assert(s.take(n + 1).drop_last() =~= s.take(n));
        lemma_open_slots(s, n + 1);
    }
}

/// Count the argument slots that are not filled yet.
pub fn count_open(slots: &Vec<Option<ResultSet>>) -> (r: usize)
    ensures
        r == open_slots(slot_values(slots@)),
{
    let ghost all = slot_values(slots@);
    let mut n: usize = 0;
    let mut i: usize = 0;
    assert(all.take(0) =~= Seq::<Option<ResultV>>::empty());
    while i < slots.len()
        invariant
            i <= slots@.len(),
            all == slot_values(slots@),
            n == open_slots(all.take(i as int)),
            n <= i,
        decreases slots@.len() - i,
    {
        assert(all.take(i + 1).drop_last() =~= all.take(i as int));
        assert(all[i as int] == slot_value(slots@[i as int]));
        if slots[i].is_none() {
            n += 1;
        }
        i += 1;
    }
    assert(all.take(slots@.len() as int) =~= all);
    n
}

/// Fill the open argument slots in order.
pub fn fill_slots(slots: &Vec<Option<ResultSet>>, eager: &Vec<ResultSet>) -> (r: Vec<ResultSet>)
    requires
        eager@.len() == open_slots(slot_values(slots@)),
    ensures
        result_sets(r@) == filled_slots(slot_values(slots@), result_sets(eager@)),
{
    let ghost all = slot_values(slots@);
    let ghost ev = result_sets(eager@);
    let mut out: Vec<ResultSet> = Vec::new();
    let mut n: usize = 0;
    let mut i: usize = 0;
    assert(all.take(0) =~= Seq::<Option<ResultV>>::empty());
    assert(result_sets(out@) =~= Seq::<ResultV>::empty());
    while i < slots.len()
        invariant
            i <= slots@.len(),
            all == slot_values(slots@),
            ev == result_sets(eager@),
            eager@.len() == open_slots(all),
            n == open_slots(all.take(i as int)),
            n <= i,
            result_sets(out@) == filled_slots(all.take(i as int), ev),
        decreases slots@.len() - i,
    {
        assert(all.take(i + 1).drop_last() =~= all.take(i as int));
        assert(all[i as int] == slot_value(slots@[i as int]));
        let ghost before = out@;
        match &slots[i] {
            Some(rs) => {
                let x = copy_results(rs);
                out.push(x);
                assert(result_sets(out@) =~= result_sets(before).push(results(x@)));
            },
            None => {
                proof {
                    lemma_open_slots(all, i as int);
                }
                let x = copy_results(&eager[n]);
                out.push(x);
                assert(ev[n as int] == results(eager@[n as int]@));
                assert(result_sets(out@) =~= result_sets(before).push(results(x@)));
                n += 1;
            },
        }
        i += 1;
    }
    assert(all.take(slots@.len() as int) =~= all);
    out
}

/// Resuming a function application with all its arguments.
pub open spec fn call_resumed(
    head: crate::eval::machine::task::HeadV,
    arity: nat,
    sets: Seq<ResultV>,
    t: TableV,
    known: Seq<KnownV>,
) -> (ResumedV, TableV) {
    match head {
        crate::eval::machine::task::HeadV::Native(b, name) => (
            if some_empty(option_values(sets)) {
                ResumedV::Fail("argument produced no results"@)
            } else {
                native_calls(b, name, option_values(sets), true)
            },
            t,
        ),
        crate::eval::machine::task::HeadV::User(name, cs) => user_called(
            name,
            cs,
            arity,
            sets,
            t,
            known,
        ),
    }
}

/// Resume a function application with all its arguments.
pub fn resume_call(
    head: &crate::eval::machine::task::Head,
    arity: usize,
    sets: &Vec<ResultSet>,
    table: &mut FnTable,
    known: &Vec<PatternValue>,
) -> (r: Resumed)
    ensures
        (r@, final(table)@) == call_resumed(
            head@,
            arity as nat,
            result_sets(sets@),
            old(table)@,
            known_values(known@),
        ),
{
    match head {
        crate::eval::machine::task::Head::Native(b, name) => {
            let options = take_options(sets);
            if any_empty(&options) {
                resume_fail("argument produced no results")
            } else {
                begin_natives(*b, name.as_str(), &options, true)
            }
        },
        crate::eval::machine::task::Head::User(name, cs) => {
            call_user(name.as_str(), cs, arity, sets, table, known)
        },
    }
}

} // verus!
