//! The order in which values of several expressions are combined.
use crate::atom::AtomV;
use crate::eval::machine::budget::ComboV;
use crate::eval::machine::budget::ResultV;
use crate::eval::machine::budget::combo_rows;
use crate::eval::machine::budget::combos;
use crate::eval::machine::product::product_rows;
use crate::eval::machine::product::products;
use vstd::prelude::*;

verus! {

proof fn lemma_product_rows(cs: Seq<Seq<AtomV>>, vs: Seq<AtomV>, i: int, j: int)
    requires
        0 <= i < cs.len(),
        0 <= j < vs.len(),
    ensures
        product_rows(cs, vs).len() == cs.len() * vs.len(),
        0 <= i * vs.len() + j < cs.len() * vs.len(),
        product_rows(cs, vs)[i * vs.len() + j] == cs[i].push(vs[j]),
    decreases cs.len(),
{
    let n = vs.len() as int;
    let m = cs.len() as int;
    assert(i * n + j < m * n && 0 <= i * n) by (nonlinear_arith)
        requires
            0 <= i < m,
            0 <= j < n,
    ;
    lemma_product_rows_len(cs.drop_last(), vs);
    lemma_product_rows_len(cs, vs);
    assert((m - 1) * n + n == m * n) by (nonlinear_arith);
    if i < m - 1 {
        lemma_product_rows(cs.drop_last(), vs, i, j);
        assert(i * n + j < (m - 1) * n) by (nonlinear_arith)
            requires
                0 <= i < m - 1,
                0 <= j < n,
        ;
    }
}

proof fn lemma_product_rows_len(cs: Seq<Seq<AtomV>>, vs: Seq<AtomV>)
    ensures
        product_rows(cs, vs).len() == cs.len() * vs.len(),
    decreases cs.len(),
{
    let n = vs.len() as int;
    let m = cs.len() as int;
    if m > 0 {
        lemma_product_rows_len(cs.drop_last(), vs);
        assert((m - 1) * n + n == m * n) by (nonlinear_arith);
    } else {
        assert(0 * n == 0) by (nonlinear_arith);
    }
}

/// The combinations of values come in the order of their first values, then of
/// their second ones, and so on: the values of the last expression change with
/// each combination.
pub proof fn combinations_vary_the_last_value_first(
    options: Seq<Seq<AtomV>>,
    vs: Seq<AtomV>,
    i: int,
    j: int,
)
    requires
        0 <= i < products(options).len(),
        0 <= j < vs.len(),
    ensures
        products(options.push(vs)).len() == products(options).len() * vs.len(),
        0 <= i * vs.len() + j < products(options.push(vs)).len(),
        products(options.push(vs))[i * vs.len() + j] == products(options)[i].push(vs[j]),
{
    assert(options.push(vs).drop_last() =~= options);
    lemma_product_rows(products(options), vs, i, j);
}

proof fn lemma_combo_rows_len(cs: Seq<ComboV>, rs: ResultV)
    ensures
        combo_rows(cs, rs).len() == cs.len() * rs.len(),
    decreases cs.len(),
{
    let n = rs.len() as int;
    let m = cs.len() as int;
    if m > 0 {
        lemma_combo_rows_len(cs.drop_last(), rs);
        assert((m - 1) * n + n == m * n) by (nonlinear_arith);
    } else {
        assert(0 * n == 0) by (nonlinear_arith);
    }
}

proof fn lemma_combo_rows(cs: Seq<ComboV>, rs: ResultV, i: int, j: int)
    requires
        0 <= i < cs.len(),
        0 <= j < rs.len(),
    ensures
        0 <= i * rs.len() + j < combo_rows(cs, rs).len(),
        combo_rows(cs, rs)[i * rs.len() + j].0 == cs[i].0.push(rs[j].0),
    decreases cs.len(),
{
    let n = rs.len() as int;
    let m = cs.len() as int;
    assert(i * n + j < m * n && 0 <= i * n) by (nonlinear_arith)
        requires
            0 <= i < m,
            0 <= j < n,
    ;
    lemma_combo_rows_len(cs.drop_last(), rs);
    lemma_combo_rows_len(cs, rs);
    assert((m - 1) * n + n == m * n) by (nonlinear_arith);
    if i < m - 1 {
        lemma_combo_rows(cs.drop_last(), rs, i, j);
        assert(i * n + j < (m - 1) * n) by (nonlinear_arith)
            requires
                0 <= i < m - 1,
                0 <= j < n,
        ;
    }
}

/// So do the combinations of results.
pub proof fn choices_vary_the_last_result_first(
    sets: Seq<ResultV>,
    rs: ResultV,
    i: int,
    j: int,
)
    requires
        0 <= i < combos(sets).len(),
        0 <= j < rs.len(),
    ensures
        0 <= i * rs.len() + j < combos(sets.push(rs)).len(),
        combos(sets.push(rs))[i * rs.len() + j].0 == combos(sets)[i].0.push(rs[j].0),
{
    assert(sets.push(rs).drop_last() =~= sets);
    lemma_combo_rows(combos(sets), rs, i, j);
}

} // verus!
