//! Cost and budget accounting for evaluation.
use crate::atom::Atom;
use crate::atom::AtomV;
use crate::atom::atoms;
use crate::atom::group_atoms;
use crate::env::Env;
use crate::env::EnvV;
use crate::eval::shared::env::linked;
use crate::eval::shared::pattern::prepend_env;
use crate::eval::shared::subst::subst_atom;
use crate::eval::shared::subst::substituted;
use crate::expr::Expr;
use crate::expr::ExprV;
use crate::expr::exprs;
use crate::expr::group_exprs;
use vstd::prelude::*;

verus! {

/// A result set produced by machine evaluation.
///
/// Each result carries the produced atom together with the environment
/// associated with that result.
pub type ResultSet = Vec<(Atom, Env)>;

/// The value of a result set.
pub type ResultV = Seq<(AtomV, EnvV)>;

/// The value of a sequence of results.
pub open spec fn results(s: Seq<(Atom, Env)>) -> ResultV {
    Seq::new(s.len(), |i: int| (s[i].0@, s[i].1@))
}

/// The values of a sequence of result sets.
pub open spec fn result_sets(s: Seq<ResultSet>) -> Seq<ResultV> {
    Seq::new(s.len(), |i: int| results(s[i]@))
}

/// Adding a result adds its value.
pub broadcast proof fn lemma_results_push(s: Seq<(Atom, Env)>, x: (Atom, Env))
    ensures
        #[trigger] results(s.push(x)) == results(s).push((x.0@, x.1@)),
{
    assert(results(s.push(x)) =~= results(s).push((x.0@, x.1@)));
}

/// Adding a result set adds its value.
pub broadcast proof fn lemma_result_sets_push(s: Seq<ResultSet>, x: ResultSet)
    ensures
        #[trigger] result_sets(s.push(x)) == result_sets(s).push(results(x@)),
{
    assert(result_sets(s.push(x)) =~= result_sets(s).push(results(x@)));
}

/// The facts on the values of results.
pub broadcast group group_results {
    lemma_results_push,
    lemma_result_sets_push,
}

/// Atoms as results without bindings.
pub open spec fn plain_results(s: Seq<AtomV>) -> ResultV {
    Seq::new(s.len(), |i: int| (s[i], EnvV::Empty))
}

/// The atoms of results, each with the bindings of its result applied.
pub open spec fn result_atoms(r: ResultV) -> Seq<AtomV> {
    Seq::new(r.len(), |i: int| substituted(r[i].0, r[i].1))
}

/// The atoms of results as they stand.
pub open spec fn raw_atoms(r: ResultV) -> Seq<AtomV> {
    Seq::new(r.len(), |i: int| r[i].0)
}

/// Wrap plain atoms as a result set with empty environments.
pub fn plain(list: Vec<Atom>) -> (r: ResultSet)
    ensures
        results(r@) == plain_results(atoms(list@)),
{
    broadcast use {group_atoms, group_results};

    let mut out: ResultSet = Vec::new();
    let mut i: usize = 0;
    let ghost want = plain_results(atoms(list@));
    while i < list.len()
        invariant
            i <= list@.len(),
            want == plain_results(atoms(list@)),
            results(out@) == want.take(i as int),
        decreases list@.len() - i,
    {
        out.push((list[i].clone(), Env::new()));
        assert(want.take(i + 1) =~= want.take(i as int).push(want[i as int]));
        i += 1;
    }
    assert(want.take(list@.len() as int) =~= want);
    out
}

/// Wrap one atom as a result set without bindings.
pub fn single(atom: Atom) -> (r: ResultSet)
    ensures
        results(r@) == plain_results(seq![atom@]),
{
    broadcast use {group_atoms, group_results};

    let mut out: ResultSet = Vec::new();
    out.push((atom, Env::new()));
    assert(results(out@) =~= plain_results(seq![atom@]));
    out
}

/// Extract the result atoms from a result set in evaluation order.
pub fn atoms_of(rs: &ResultSet) -> (r: Vec<Atom>)
    ensures
        atoms(r@) == result_atoms(results(rs@)),
{
    broadcast use {group_atoms, group_results};

    let mut out: Vec<Atom> = Vec::new();
    let mut i: usize = 0;
    let ghost want = result_atoms(results(rs@));
    while i < rs.len()
        invariant
            i <= rs@.len(),
            want == result_atoms(results(rs@)),
            atoms(out@) == want.take(i as int),
        decreases rs@.len() - i,
    {
        out.push(subst_atom(&rs[i].0, &rs[i].1));
        assert(want.take(i + 1) =~= want.take(i as int).push(want[i as int]));
        i += 1;
    }
    assert(want.take(rs@.len() as int) =~= want);
    out
}

/// Extract the atoms of a result set as they stand.
pub fn raw_atoms_of(rs: &ResultSet) -> (r: Vec<Atom>)
    ensures
        atoms(r@) == raw_atoms(results(rs@)),
{
    broadcast use {group_atoms, group_results};

    let mut out: Vec<Atom> = Vec::new();
    let mut i: usize = 0;
    let ghost want = raw_atoms(results(rs@));
    while i < rs.len()
        invariant
            i <= rs@.len(),
            want == raw_atoms(results(rs@)),
            atoms(out@) == want.take(i as int),
        decreases rs@.len() - i,
    {
        out.push(rs[i].0.clone());
        assert(want.take(i + 1) =~= want.take(i as int).push(want[i as int]));
        i += 1;
    }
    assert(want.take(rs@.len() as int) =~= want);
    out
}

/// Copy a result set.
pub fn copy_results(rs: &ResultSet) -> (r: ResultSet)
    ensures
        r@ == rs@,
{
    let mut out: ResultSet = Vec::new();
    let mut i: usize = 0;
    while i < rs.len()
        invariant
            i <= rs@.len(),
            out@ == rs@.take(i as int),
        decreases rs@.len() - i,
    {
        out.push((rs[i].0.clone(), rs[i].1.clone()));
        assert(rs@.take(i + 1) =~= rs@.take(i as int).push(rs@[i as int]));
        i += 1;
    }
    assert(rs@.take(rs@.len() as int) =~= rs@);
    out
}

/// A cost that does not exceed what `i64` can hold.
pub open spec fn capped(n: int) -> i64 {
    if n <= i64::MAX {
        n as i64
    } else {
        i64::MAX
    }
}

/// The cost of an atom: one for a leaf, one more than its length for an
/// expression, five for a closure or a host object.
pub open spec fn atom_cost(a: AtomV) -> nat {
    match a {
        AtomV::Expr(items) => items.len() + 1,
        AtomV::Closure(_, _, _) => 5,
        AtomV::Gnd(_, _) => 5,
        _ => 1,
    }
}

/// The cost of an expression: one for a leaf, and for a list two for each
/// element besides the cost of the elements.
pub open spec fn expr_cost(e: ExprV) -> nat
    decreases e,
{
    match e {
        ExprV::List(items) => 2 * items.len() + exprs_cost(items),
        _ => 1,
    }
}

/// The cost of expressions together.
pub open spec fn exprs_cost(s: Seq<ExprV>) -> nat
    decreases s,
{
    if s.len() == 0 {
        0
    } else {
        exprs_cost(s.drop_last()) + expr_cost(s.last())
    }
}

/// Add two costs, stopping at the largest `i64`.
pub fn add_costs(a: i64, b: i64) -> (r: i64)
    requires
        a >= 0,
        b >= 0,
    ensures
        r == capped(a + b),
{
    if a <= i64::MAX - b {
        a + b
    } else {
        i64::MAX
    }
}

/// A length as a cost, stopping at the largest `i64`.
fn length_cost(n: usize) -> (r: i64)
    ensures
        r == capped(n as int),
{
    if n as u128 <= i64::MAX as u128 {
        n as i64
    } else {
        i64::MAX
    }
}

/// Calculate the structural cost of an atom, charging for immediate children
/// only.
pub fn calculate_cost(atom: &Atom) -> (r: Option<i64>)
    ensures
        r == Some(capped(atom_cost(atom@) as int)),
{
    broadcast use group_atoms;

    match atom {
        Atom::Expr(items) => Some(add_costs(length_cost(items.len()), 1)),
        Atom::Closure(_) => Some(5),
        Atom::Gnd(_) => Some(5),
        _ => Some(1),
    }
}

/// Calculate the structural cost of an expression.
pub fn calculate_expr_cost(expr: &Expr) -> (r: i64)
    ensures
        r == capped(expr_cost(expr@) as int),
    decreases expr,
{
    broadcast use group_exprs;

    match expr {
        Expr::List(items) => {
            let n: i64 = length_cost(items.len());
            let base: i64 = add_costs(n, n);
            let mut sum: i64 = 0;
            let mut i: usize = 0;
            let ghost es = exprs(items@);
            assert(es.take(0) =~= Seq::<ExprV>::empty());
            while i < items.len()
                invariant
                    i <= items@.len(),
                    *expr == Expr::List(*items),
                    es == exprs(items@),
                    sum == capped(exprs_cost(es.take(i as int)) as int),
                    sum >= 0,
                decreases items@.len() - i,
            {
                assert(decreases_to!(expr => expr->List_0@[i as int]));
                let c: i64 = calculate_expr_cost(&items[i]);
                sum = add_costs(sum, c);
                assert(es.take(i + 1).drop_last() =~= es.take(i as int));
                i += 1;
            }
            assert(es.take(items@.len() as int) =~= es);
            add_costs(base, sum)
        },
        _ => 1,
    }
}

/// Every expression but the empty list costs something.
pub proof fn cost_is_positive(e: ExprV)
    requires
        e != ExprV::List(Seq::empty()),
    ensures
        expr_cost(e) > 0,
{
    if let ExprV::List(items) = e {
        assert(items.len() == 0 ==> items =~= Seq::<ExprV>::empty());
    }
}

/// A list costs more than each of its elements.
pub proof fn cost_is_monotone(items: Seq<ExprV>, i: int)
    requires
        0 <= i < items.len(),
    ensures
        expr_cost(ExprV::List(items)) > expr_cost(items[i]),
{
    lemma_element_cost(items, i);
}

/// Expressions together cost at least as much as each of them.
proof fn lemma_element_cost(s: Seq<ExprV>, i: int)
    requires
        0 <= i < s.len(),
    ensures
        exprs_cost(s) >= expr_cost(s[i]),
    decreases s.len(),
{
    if i < s.len() - 1 {
        assert(s.drop_last()[i] == s[i]);
        lemma_element_cost(s.drop_last(), i);
    }
}

/// A choice of one result from each set: the atoms, and the environments put
/// in front of one another, the last set's first.
pub type ComboV = (Seq<AtomV>, EnvV);

/// One choice extended by each result of a set.
pub open spec fn combo_row(c: ComboV, rs: ResultV) -> Seq<ComboV> {
    Seq::new(rs.len(), |j: int| (c.0.push(rs[j].0), linked(rs[j].1, c.1)))
}

/// Choices extended by each result of a set.
pub open spec fn combo_rows(cs: Seq<ComboV>, rs: ResultV) -> Seq<ComboV>
    decreases cs.len(),
{
    if cs.len() == 0 {
        Seq::empty()
    } else {
        combo_rows(cs.drop_last(), rs) + combo_row(cs.last(), rs)
    }
}

/// All choices of one result from each set, in order: the last set varies
/// fastest.
pub open spec fn combos(sets: Seq<ResultV>) -> Seq<ComboV>
    decreases sets.len(),
{
    if sets.len() == 0 {
        seq![(Seq::empty(), EnvV::Empty)]
    } else {
        combo_rows(combos(sets.drop_last()), sets.last())
    }
}

/// The values of choices.
pub open spec fn combo_values(s: Seq<(Vec<Atom>, Env)>) -> Seq<ComboV> {
    Seq::new(s.len(), |i: int| (atoms(s[i].0@), s[i].1@))
}

/// The number of choices is the product of the numbers of results.
pub open spec fn product(sets: Seq<ResultV>) -> nat
    decreases sets.len(),
{
    if sets.len() == 0 {
        1
    } else {
        product(sets.drop_last()) * sets.last().len()
    }
}

/// Extending choices multiplies their number.
proof fn lemma_combo_rows_len(cs: Seq<ComboV>, rs: ResultV)
    ensures
        combo_rows(cs, rs).len() == cs.len() * rs.len(),
    decreases cs.len(),
{
    if cs.len() > 0 {
        lemma_combo_rows_len(cs.drop_last(), rs);
        assert((cs.len() - 1) * rs.len() + rs.len() == cs.len() * rs.len()) by (nonlinear_arith)
            requires
                cs.len() > 0,
        ;
    } else {
        assert(0 * rs.len() == 0) by (nonlinear_arith);
    }
}

/// There are as many choices as the product of the sizes of the result sets.
pub proof fn combos_count(sets: Seq<ResultV>)
    ensures
        combos(sets).len() == product(sets),
    decreases sets.len(),
{
    if sets.len() > 0 {
        combos_count(sets.drop_last());
        lemma_combo_rows_len(combos(sets.drop_last()), sets.last());
    }
}

/// Every choice has one atom for each set.
pub proof fn combos_width(sets: Seq<ResultV>, k: int)
    requires
        0 <= k < combos(sets).len(),
    ensures
        combos(sets)[k].0.len() == sets.len(),
    decreases sets.len(),
{
    if sets.len() > 0 {
        let inner = combos(sets.drop_last());
        assert forall|j: int| 0 <= j < inner.len() implies (#[trigger] inner[j]).0.len()
            == sets.len() - 1 by {
            combos_width(sets.drop_last(), j);
        }
        lemma_rows_width(inner, sets.last(), (sets.len() - 1) as nat, k);
    }
}

/// Extending choices makes each one atom longer.
proof fn lemma_rows_width(cs: Seq<ComboV>, rs: ResultV, n: nat, k: int)
    requires
        forall|j: int| 0 <= j < cs.len() ==> (#[trigger] cs[j]).0.len() == n,
        0 <= k < combo_rows(cs, rs).len(),
    ensures
        combo_rows(cs, rs)[k].0.len() == n + 1,
    decreases cs.len(),
{
    if cs.len() > 0 {
        let before = combo_rows(cs.drop_last(), rs);
        if k < before.len() {
            assert forall|j: int| 0 <= j < cs.drop_last().len() implies (
            #[trigger] cs.drop_last()[j]).0.len() == n by {
                assert(cs.drop_last()[j] == cs[j]);
            }
            lemma_rows_width(cs.drop_last(), rs, n, k);
        } else {
            assert(cs[cs.len() - 1].0.len() == n);
        }
    }
}

/// Copy a list of atoms and add one.
fn with_atom(list: &Vec<Atom>, a: &Atom) -> (r: Vec<Atom>)
    ensures
        atoms(r@) == atoms(list@).push(a@),
{
    broadcast use group_atoms;

    let mut r = crate::atom::copy_atoms(list, 0);
    assert(list@.skip(0) =~= list@);
    r.push(a.clone());
    r
}

/// Threaded cartesian product of result sets, preserving environments.
///
/// Bindings found in one argument are visible in the following ones.
pub fn threaded_combinations(sets: &Vec<ResultSet>) -> (r: Vec<(Vec<Atom>, Env)>)
    ensures
        combo_values(r@) == combos(result_sets(sets@)),
{
    broadcast use group_results;

    let ghost all = result_sets(sets@);
    let mut out: Vec<(Vec<Atom>, Env)> = Vec::new();
    out.push((Vec::new(), Env::new()));
    assert(all.take(0) =~= Seq::<ResultV>::empty());
    assert(atoms(Seq::<Atom>::empty()) =~= Seq::<AtomV>::empty());
    assert(combo_values(out@) =~= combos(all.take(0)));
    let mut k: usize = 0;
    while k < sets.len()
        invariant
            k <= sets@.len(),
            all == result_sets(sets@),
            combo_values(out@) == combos(all.take(k as int)),
        decreases sets@.len() - k,
    {
        let rs = &sets[k];
        let ghost rv = results(rs@);
        let ghost inner = combo_values(out@);
        let mut next: Vec<(Vec<Atom>, Env)> = Vec::new();
        let mut i: usize = 0;
        assert(inner.take(0) =~= Seq::<ComboV>::empty());
        assert(combo_values(next@) =~= combo_rows(inner.take(0), rv));
        while i < out.len()
            invariant
                i <= out@.len(),
                inner == combo_values(out@),
                rv == results(rs@),
                combo_values(next@) == combo_rows(inner.take(i as int), rv),
            decreases out@.len() - i,
        {
            let ghost base = combo_values(next@);
            let ghost row = combo_row(inner[i as int], rv);
            let mut j: usize = 0;
            assert(base + row.take(0) =~= base);
            while j < rs.len()
                invariant
                    j <= rs@.len(),
                    i < out@.len(),
                    inner == combo_values(out@),
                    rv == results(rs@),
                    row == combo_row(inner[i as int], rv),
                    combo_values(next@) == base + row.take(j as int),
                decreases rs@.len() - j,
            {
                let list = with_atom(&out[i].0, &rs[j].0);
                let merged = prepend_env(rs[j].1.clone(), &out[i].1);
                let ghost was = next@;
                next.push((list, merged));
                assert(row[j as int] == (atoms(list@), merged@));
                assert(combo_values(next@) =~= combo_values(was).push((atoms(list@), merged@)));
                assert(base + row.take(j + 1) =~= (base + row.take(j as int)).push(row[j as int]));
                j += 1;
            }
            assert(row.take(rs@.len() as int) =~= row);
            assert(inner.take(i + 1).drop_last() =~= inner.take(i as int));
            assert(combo_rows(inner.take(i + 1), rv) =~= base + row);
            i += 1;
        }
        assert(inner.take(out@.len() as int) =~= inner);
        assert(all.take(k + 1).drop_last() =~= all.take(k as int));
        out = next;
        k += 1;
    }
    assert(all.take(sets@.len() as int) =~= all);
    out
}

} // verus!
