//! Application of computed heads to evaluated arguments.
use crate::atom::Atom;
use crate::atom::atom_same;
use crate::atom::AtomV;
use crate::atom::atoms;
use crate::atom::copy_atoms;
use crate::atom::group_atoms;
use crate::atom::symbol;
use crate::builtins::types::atom_lists;
use crate::compile::reify::atom_to_expr;
use crate::compile::reify::to_expr;
use crate::compile::reify::to_exprs;
use crate::env::Env;
use crate::env::EnvV;
use crate::eval::forms::query::lookup_user_clauses;
use crate::eval::machine::apply::any_empty;
use crate::eval::machine::apply::as_lists;
use crate::eval::machine::apply::make_lists;
use crate::eval::machine::apply::option_values;
use crate::eval::machine::apply::some_empty;
use crate::eval::machine::apply::take_options;
use crate::eval::machine::budget::ResultSet;
use crate::eval::machine::budget::ResultV;
use crate::eval::machine::budget::combos;
use crate::eval::machine::budget::plain;
use crate::eval::machine::budget::plain_results;
use crate::eval::machine::budget::raw_atoms;
use crate::eval::machine::budget::raw_atoms_of;
use crate::eval::machine::budget::result_sets;
use crate::eval::machine::budget::results;
use crate::eval::machine::budget::threaded_combinations;
use crate::eval::machine::calls::begin_natives;
use crate::eval::machine::calls::bodies_next;
use crate::eval::machine::calls::call_bodies;
use crate::eval::machine::calls::call_key;
use crate::eval::machine::calls::drop_costs;
use crate::eval::machine::calls::find_bodies;
use crate::eval::machine::calls::find_key;
use crate::eval::machine::calls::matched_values;
use crate::eval::machine::calls::native_calls;
use crate::eval::machine::calls::next_body;
use crate::eval::machine::calls::recall;
use crate::eval::machine::calls::recalled;
use crate::eval::machine::calls::without_costs;
use crate::eval::machine::product::cartesian_product;
use crate::eval::machine::product::products;
use crate::eval::machine::resumed::Resumed;
use crate::eval::machine::resumed::ResumedV;
use crate::eval::machine::resumed::lemma_targets_push;
use crate::eval::machine::resumed::nothing;
use crate::eval::machine::resumed::one;
use crate::eval::machine::resumed::resume_nothing;
use crate::eval::machine::resumed::resume_one;
use crate::eval::machine::vm::state::target_values;
use crate::eval::shared::pattern::KnownV;
use crate::eval::shared::pattern::PatternValue;
use crate::eval::shared::pattern::known_values;
use crate::expr::Expr;
use crate::expr::ExprV;
use crate::expr::copy_exprs;
use crate::expr::exprs;
use crate::expr::group_exprs;
use crate::func::Clause;
use crate::func::ClauseV;
use crate::func::FnTable;
use crate::func::TableV;
use crate::func::clauses;
use std::sync::Arc;
use vstd::prelude::*;
use vstd::string::*;

verus! {

/// Values in one sequence.
pub open spec fn flat(options: Seq<Seq<AtomV>>) -> Seq<AtomV>
    decreases options.len(),
{
    if options.len() == 0 {
        Seq::empty()
    } else {
        flat(options.drop_last()) + options.last()
    }
}

/// Put values in one sequence.
fn flatten(options: &Vec<Vec<Atom>>) -> (r: Vec<Atom>)
    ensures
        atoms(r@) == flat(atom_lists(options@)),
{
    let ghost all = atom_lists(options@);
    let mut out: Vec<Atom> = Vec::new();
    let mut i: usize = 0;
    assert(all.take(0) =~= Seq::<Seq<AtomV>>::empty());
    assert(atoms(out@) =~= Seq::<AtomV>::empty());
    while i < options.len()
        invariant
            i <= options@.len(),
            all == atom_lists(options@),
            atoms(out@) == flat(all.take(i as int)),
        decreases options@.len() - i,
    {
        assert(all.take(i + 1).drop_last() =~= all.take(i as int));
        let ghost x = out@;
        let mut more = copy_atoms(&options[i], 0);
        assert(options@[i as int]@.skip(0) =~= options@[i as int]@);
        out.append(&mut more);
        assert(atoms(out@) =~= atoms(x) + all[i as int]);
        i += 1;
    }
    assert(all.take(options@.len() as int) =~= all);
    out
}

/// The value of a call that lacks arguments.
pub open spec fn partial_of(name: Seq<char>, args: Seq<AtomV>) -> AtomV {
    AtomV::Expr(seq![symbol("partial"@), AtomV::Sym(name), AtomV::Expr(args)])
}

/// What a partial call lacks: the function and the arguments given before.
pub open spec fn partial_parts(a: AtomV) -> Option<(Seq<char>, Seq<AtomV>)> {
    match a {
        AtomV::Expr(items) => if items.len() == 3 && items[0] == symbol("partial"@) {
            match (items[1], items[2]) {
                (AtomV::Sym(name), AtomV::Expr(old_args)) => Some((name, old_args)),
                _ => None,
            }
        } else {
            None
        },
        _ => None,
    }
}

/// The calls that complete a partial call.
pub open spec fn completed_calls(
    name: Seq<char>,
    given: Seq<AtomV>,
    cs: Seq<Seq<AtomV>>,
) -> Seq<(ExprV, EnvV)> {
    Seq::new(
        cs.len(),
        |i: int|
            (
                ExprV::List(seq![to_expr(AtomV::Sym(name))] + to_exprs(given + cs[i])),
                EnvV::Empty,
            ),
    )
}

/// Make an expression of an atom.
fn make_expr(a: &Atom) -> (r: Expr)
    ensures
        r@ == to_expr(a@),
{
    match atom_to_expr(a) {
        Ok(e) => e,
        Err(m) => Expr::Symbol(m),
    }
}

/// Make the call that completes a partial call.
fn complete_call(name: &Atom, given: &Vec<Atom>, more: &Vec<Atom>) -> (r: Expr)
    ensures
        r@ == ExprV::List(seq![to_expr(name@)] + to_exprs(atoms(given@) + atoms(more@))),
{
    broadcast use group_exprs;

    let ghost args = atoms(given@) + atoms(more@);
    let ghost want = seq![to_expr(name@)] + to_exprs(args);
    let mut v: Vec<Expr> = Vec::new();
    v.push(make_expr(name));
    assert(exprs(v@) =~= want.take(1));
    let mut i: usize = 0;
    while i < given.len()
        invariant
            i <= given@.len(),
            args == atoms(given@) + atoms(more@),
            want == seq![to_expr(name@)] + to_exprs(args),
            exprs(v@) == want.take(1 + i),
        decreases given@.len() - i,
    {
        assert(args[i as int] == given@[i as int]@);
        v.push(make_expr(&given[i]));
        assert(want[1 + i] == to_expr(args[i as int]));
        assert(want.take(1 + i + 1) =~= want.take(1 + i).push(want[1 + i]));
        i += 1;
    }
    let ghost g = given@.len() as int;
    let mut j: usize = 0;
    while j < more.len()
        invariant
            j <= more@.len(),
            g == given@.len(),
            args == atoms(given@) + atoms(more@),
            want == seq![to_expr(name@)] + to_exprs(args),
            exprs(v@) == want.take(1 + g + j),
        decreases more@.len() - j,
    {
        assert(args[g + j] == more@[j as int]@);
        v.push(make_expr(&more[j]));
        assert(want[1 + g + j] == to_expr(args[g + j]));
        assert(want.take(1 + g + j + 1) =~= want.take(1 + g + j).push(want[1 + g + j]));
        j += 1;
    }
    assert(want.take(1 + g + more@.len()) =~= want);
    Expr::List(Arc::new(v))
}

/// Make the calls that complete a partial call.
fn complete_calls(name: &Atom, given: &Vec<Atom>, cs: &Vec<Vec<Atom>>) -> (r: Vec<(Expr, Env)>)
    requires
        name@ is Sym,
    ensures
        target_values(r@) == completed_calls(name@->Sym_0, atoms(given@), atom_lists(cs@)),
{
    let ghost want = completed_calls(name@->Sym_0, atoms(given@), atom_lists(cs@));
    let mut out: Vec<(Expr, Env)> = Vec::new();
    let mut i: usize = 0;
    assert(target_values(out@) =~= want.take(0));
    while i < cs.len()
        invariant
            i <= cs@.len(),
            name@ is Sym,
            want == completed_calls(name@->Sym_0, atoms(given@), atom_lists(cs@)),
            target_values(out@) == want.take(i as int),
        decreases cs@.len() - i,
    {
        let ghost before = out@;
        let x = (complete_call(name, given, &cs[i]), Env::new());
        out.push(x);
        proof {
            lemma_targets_push(before, x);
        }
        assert(want.take(i + 1) =~= want.take(i as int).push(want[i as int]));
        i += 1;
    }
    assert(want.take(cs@.len() as int) =~= want);
    out
}

/// What applying a head comes to, if it can be applied.
pub type HeadOutV = (Option<ResumedV>, TableV);

/// Applying a user-defined function that is named by a value.
pub open spec fn named_called(
    name: Seq<char>,
    cs: Seq<ClauseV>,
    args: Seq<ResultV>,
    t: TableV,
    known: Seq<KnownV>,
) -> HeadOutV {
    let cb = combos(args);
    let key = call_key(name, args.len() as u8, cb, t);
    match recalled(key, t) {
        Some(vs) => (Some(ResumedV::Value(plain_results(vs))), t),
        None => match call_bodies(cs, cb, known) {
            Err(q) => (Some(ResumedV::Ask(q.0, q.1)), t),
            Ok(bs) => if bs.len() == 0 {
                (None, t)
            } else {
                let (r, t2) = bodies_next(without_costs(bs), 0, Seq::empty(), key, false, t);
                (Some(r), t2)
            },
        },
    }
}

/// Apply a user-defined function that is named by a value.
fn call_named(
    name: &str,
    cs: &Vec<Clause>,
    args: &Vec<ResultSet>,
    table: &mut FnTable,
    known: &Vec<PatternValue>,
) -> (r: Option<Resumed>)
    ensures
        (optional_resumed(r), final(table)@) == named_called(
            name@,
            clauses(cs@),
            result_sets(args@),
            old(table)@,
            known_values(known@),
        ),
{
    assert(result_sets(args@).len() == args@.len());
    let cb = threaded_combinations(args);
    let n: u8 = args.len() as u8;
    let key = find_key(name, n, &cb, table);
    match recall(&key, table) {
        Some(vs) => Some(Resumed::Value(plain(vs))),
        None => match find_bodies(cs, &cb, known) {
            Err(q) => Some(Resumed::Ask(q.0, q.1)),
            Ok(bs) => {
                assert(matched_values(bs@).len() == bs@.len());
                if bs.len() == 0 {
                    return None;
                }
                let list = Arc::new(drop_costs(&bs));
                let none: ResultSet = Vec::new();
                assert(results(none@) =~= ResultV::empty());
                Some(next_body(list, 0, none, key, false, table))
            },
        },
    }
}

/// The value of what applying a head comes to.
pub open spec fn optional_resumed(o: Option<Resumed>) -> Option<ResumedV> {
    match o {
        Some(r) => Some(r@),
        None => None,
    }
}

/// Applying a name.
pub open spec fn name_applied(
    name: Seq<char>,
    args: Seq<ResultV>,
    t: TableV,
    known: Seq<KnownV>,
) -> HeadOutV {
    let options = option_values(args);
    let n = args.len() as u8;
    if some_empty(options) {
        (Some(nothing()), t)
    } else if t.natives.contains_key((name, n)) {
        (Some(native_calls(t.natives[(name, n)], name, options, false)), t)
    } else {
        let user = match t.clauses_of(name, n) {
            Some(cs) => named_called(name, cs, args, t, known),
            None => (None, t),
        };
        match user {
            (Some(r), t2) => (Some(r), t2),
            (None, _) => if t.takes_more(name, args.len() as int) {
                (Some(one(partial_of(name, flat(options)))), t)
            } else {
                (None, t)
            },
        }
    }
}

/// Make the value of a call that lacks arguments.
fn make_partial(name: &String, args: Vec<Atom>) -> (r: Atom)
    ensures
        r@ == partial_of(name@, atoms(args@)),
{
    let mut v: Vec<Atom> = Vec::new();
    v.push(Atom::sym("partial"));
    v.push(Atom::Sym(name.clone()));
    v.push(Atom::expr(args));
    assert(atoms(v@) =~= seq![
        symbol("partial"@),
        AtomV::Sym(name@),
        AtomV::Expr(atoms(args@)),
    ]);
    Atom::expr(v)
}

/// Apply a name.
fn apply_name(
    name: &String,
    args: &Vec<ResultSet>,
    table: &mut FnTable,
    known: &Vec<PatternValue>,
) -> (r: Option<Resumed>)
    ensures
        (optional_resumed(r), final(table)@) == name_applied(
            name@,
            result_sets(args@),
            old(table)@,
            known_values(known@),
        ),
{
    assert(result_sets(args@).len() == args@.len());
    let options = take_options(args);
    if any_empty(&options) {
        return Some(resume_nothing());
    }
    let n: u8 = args.len() as u8;
    match table.get(name.as_str(), n) {
        Some(b) => {
            return Some(begin_natives(b, name.as_str(), &options, false));
        },
        None => {},
    }
    match lookup_user_clauses(name.as_str(), n, table) {
        Some(cs) => {
            match call_named(name.as_str(), &cs, args, table, known) {
                Some(r) => {
                    return Some(r);
                },
                None => {},
            }
        },
        None => {},
    }
    if table.has_higher_arity(name.as_str(), args.len()) {
        return Some(resume_one(make_partial(name, flatten(&options))));
    }
    None
}

/// Applying a partial call.
pub open spec fn partial_applied(
    name: Seq<char>,
    given: Seq<AtomV>,
    args: Seq<ResultV>,
    t: TableV,
) -> HeadOutV {
    let options = option_values(args);
    if some_empty(options) {
        (Some(nothing()), t)
    } else {
        let (r, t2) = bodies_next(
            completed_calls(name, given, products(options)),
            0,
            Seq::empty(),
            None,
            false,
            t,
        );
        (Some(r), t2)
    }
}

/// Apply a partial call.
fn apply_partial(name: &Atom, given: &Vec<Atom>, args: &Vec<ResultSet>, table: &mut FnTable) -> (r:
    Option<Resumed>)
    requires
        name@ is Sym,
    ensures
        (optional_resumed(r), final(table)@) == partial_applied(
            name@->Sym_0,
            atoms(given@),
            result_sets(args@),
            old(table)@,
        ),
{
    let options = take_options(args);
    if any_empty(&options) {
        return Some(resume_nothing());
    }
    let cs = cartesian_product(&options);
    let calls = Arc::new(complete_calls(name, given, &cs));
    let none: ResultSet = Vec::new();
    assert(results(none@) =~= ResultV::empty());
    Some(next_body(calls, 0, none, None, false, table))
}

/// Applying a closure.
pub open spec fn closure_applied(
    params: Seq<ExprV>,
    body: ExprV,
    args: Seq<ResultV>,
    t: TableV,
    known: Seq<KnownV>,
) -> HeadOutV {
    match call_bodies(seq![(ClauseV { patterns: params, body })], combos(args), known) {
        Err(q) => (Some(ResumedV::Ask(q.0, q.1)), t),
        Ok(bs) => if bs.len() == 0 {
            (None, t)
        } else {
            let (r, t2) = bodies_next(without_costs(bs), 0, Seq::empty(), None, false, t);
            (Some(r), t2)
        },
    }
}

/// Apply a closure.
fn apply_closure(
    params: &Vec<Expr>,
    body: &Expr,
    args: &Vec<ResultSet>,
    table: &mut FnTable,
    known: &Vec<PatternValue>,
) -> (r: Option<Resumed>)
    ensures
        (optional_resumed(r), final(table)@) == closure_applied(
            exprs(params@),
            body@,
            result_sets(args@),
            old(table)@,
            known_values(known@),
        ),
{
    let patterns = copy_exprs(params, 0);
    assert(params@.skip(0) =~= params@);
    let c = Clause { patterns, body: body.clone() };
    let mut cs: Vec<Clause> = Vec::new();
    cs.push(c);
    assert(clauses(cs@) =~= seq![(ClauseV { patterns: exprs(params@), body: body@ })]);
    let cb = threaded_combinations(args);
    match find_bodies(&cs, &cb, known) {
        Err(q) => Some(Resumed::Ask(q.0, q.1)),
        Ok(bs) => {
            assert(matched_values(bs@).len() == bs@.len());
            if bs.len() == 0 {
                return None;
            }
            let list = Arc::new(drop_costs(&bs));
            let none: ResultSet = Vec::new();
            assert(results(none@) =~= ResultV::empty());
            Some(next_body(list, 0, none, None, false, table))
        },
    }
}

/// Applying a value.
pub open spec fn value_applied(
    head: AtomV,
    args: Seq<ResultV>,
    t: TableV,
    known: Seq<KnownV>,
) -> HeadOutV {
    match head {
        AtomV::Sym(name) => name_applied(name, args, t, known),
        AtomV::Expr(_) => match partial_parts(head) {
            Some((name, given)) => partial_applied(name, given, args, t),
            None => (None, t),
        },
        AtomV::Closure(params, body, _) => closure_applied(params, body, args, t, known),
        _ => (None, t),
    }
}

/// Apply a value.
fn apply_value(
    head: &Atom,
    args: &Vec<ResultSet>,
    table: &mut FnTable,
    known: &Vec<PatternValue>,
) -> (r: Option<Resumed>)
    ensures
        (optional_resumed(r), final(table)@) == value_applied(
            head@,
            result_sets(args@),
            old(table)@,
            known_values(known@),
        ),
{
    broadcast use group_atoms;

    match head {
        Atom::Sym(name) => apply_name(name, args, table, known),
        Atom::Expr(items) => {
            assert(head@ == AtomV::Expr(atoms(items@)));
            assert(atoms(items@).len() == items@.len());
            if items.len() == 3 {
                assert(atoms(items@)[0] == items@[0]@ && atoms(items@)[1] == items@[1]@
                    && atoms(items@)[2] == items@[2]@);
                let mark = Atom::sym("partial");
                if atom_same(&items[0], &mark) {
                    match (&items[1], &items[2]) {
                        (Atom::Sym(n), Atom::Expr(given)) => {
                            assert(items@[1]@ == AtomV::Sym(n@));
                            assert(items@[2]@ == AtomV::Expr(atoms(given@)));
                            assert(partial_parts(head@) == Some((n@, atoms(given@))));
                            return apply_partial(&items[1], given, args, table);
                        },
                        _ => {},
                    }
                }
            }
            None
        },
        Atom::Closure(c) => apply_closure(&c.params, &c.body, args, table, known),
        _ => None,
    }
}

/// Applying the first of several heads that can be applied; the head and the
/// arguments are data when there is none.
pub open spec fn heads_applied(
    heads: ResultV,
    i: nat,
    args: Seq<ResultV>,
    t: TableV,
    known: Seq<KnownV>,
) -> (ResumedV, TableV)
    decreases heads.len() - i,
{
    if i >= heads.len() {
        let options = option_values(args);
        (
            if some_empty(options) {
                nothing()
            } else {
                ResumedV::Value(
                    plain_results(
                        as_lists(products(seq![raw_atoms(heads)] + options), Seq::empty()),
                    ),
                )
            },
            t,
        )
    } else {
        match value_applied(heads[i as int].0, args, t, known) {
            (Some(r), t2) => (r, t2),
            (None, _) => heads_applied(heads, i + 1, args, t, known),
        }
    }
}

/// A head that cannot be applied changes nothing.
proof fn lemma_unapplied(head: AtomV, args: Seq<ResultV>, t: TableV, known: Seq<KnownV>)
    requires
        value_applied(head, args, t, known).0 is None,
    ensures
        value_applied(head, args, t, known).1 == t,
{
}

/// Apply the first of several heads that can be applied.
pub fn apply_heads(
    heads: &ResultSet,
    args: &Vec<ResultSet>,
    table: &mut FnTable,
    known: &Vec<PatternValue>,
) -> (r: Resumed)
    ensures
        (r@, final(table)@) == heads_applied(
            results(heads@),
            0,
            result_sets(args@),
            old(table)@,
            known_values(known@),
        ),
{
    let ghost hv = results(heads@);
    let ghost av = result_sets(args@);
    let ghost kn = known_values(known@);
    let ghost t = table@;
    let mut i: usize = 0;
    assert(hv.len() == heads@.len());
    while i < heads.len()
        invariant
            i <= heads@.len(),
            hv == results(heads@),
            hv.len() == heads@.len(),
            av == result_sets(args@),
            kn == known_values(known@),
            table@ == t,
            t == old(table)@,
            heads_applied(hv, i as nat, av, t, kn) == heads_applied(hv, 0, av, t, kn),
        decreases heads@.len() - i,
    {
        assert(hv[i as int].0 == heads@[i as int].0@);
        match apply_value(&heads[i].0, args, table, known) {
            Some(r) => {
                return r;
            },
            None => {
                proof {
                    lemma_unapplied(hv[i as int].0, av, t, kn);
                }
            },
        }
        i += 1;
    }
    let mut options = take_options(args);
    if any_empty(&options) {
        return resume_nothing();
    }
    let first = raw_atoms_of(heads);
    let mut all: Vec<Vec<Atom>> = Vec::new();
    all.push(first);
    let ghost ov = options@;
    all.append(&mut options);
    assert(atom_lists(all@) =~= seq![raw_atoms(hv)] + atom_lists(ov));
    let cs = cartesian_product(&all);
    let none: Vec<Atom> = Vec::new();
    assert(atoms(none@) =~= Seq::<AtomV>::empty());
    Resumed::Value(plain(make_lists(&cs, &none)))
}

} // verus!
