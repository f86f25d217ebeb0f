//! Cartesian products of value lists.
use crate::atom::Atom;
use crate::atom::AtomV;
use crate::atom::atoms;
use crate::atom::copy_atoms;
use crate::atom::group_atoms;
use crate::builtins::types::atom_lists;
use vstd::prelude::*;

verus! {

/// A choice extended by each of some values.
pub open spec fn product_row(c: Seq<AtomV>, vs: Seq<AtomV>) -> Seq<Seq<AtomV>> {
    Seq::new(vs.len(), |i: int| c.push(vs[i]))
}

/// Choices extended by each of some values.
pub open spec fn product_rows(cs: Seq<Seq<AtomV>>, vs: Seq<AtomV>) -> Seq<Seq<AtomV>>
    decreases cs.len(),
{
    if cs.len() == 0 {
        Seq::empty()
    } else {
        product_rows(cs.drop_last(), vs) + product_row(cs.last(), vs)
    }
}

/// All choices of one value from each list, the last list changing fastest.
pub open spec fn products(options: Seq<Seq<AtomV>>) -> Seq<Seq<AtomV>>
    decreases options.len(),
{
    if options.len() == 0 {
        seq![Seq::empty()]
    } else {
        product_rows(products(options.drop_last()), options.last())
    }
}

/// Whether a choice takes one value from each list.
pub open spec fn is_choice(c: Seq<AtomV>, options: Seq<Seq<AtomV>>) -> bool {
    c.len() == options.len() && forall|i: int|
        0 <= i < c.len() ==> options[i].contains(#[trigger] c[i])
}

/// Rows hold extensions of choices.
proof fn lemma_rows_hold(cs: Seq<Seq<AtomV>>, vs: Seq<AtomV>, k: int)
    requires
        0 <= k < product_rows(cs, vs).len(),
    ensures
        exists|i: int, j: int|
            0 <= i < cs.len() && 0 <= j < vs.len() && product_rows(cs, vs)[k] == #[trigger] cs[i].push(
                #[trigger] vs[j],
            ),
    decreases cs.len(),
{
    let before = product_rows(cs.drop_last(), vs);
    if k < before.len() {
        lemma_rows_hold(cs.drop_last(), vs, k);
        let (i, j) = choose|i: int, j: int|
            0 <= i < cs.drop_last().len() && 0 <= j < vs.len() && before[k]
                == #[trigger] cs.drop_last()[i].push(#[trigger] vs[j]);
        assert(cs[i].push(vs[j]) == product_rows(cs, vs)[k]);
    } else {
        let j = k - before.len();
        assert(product_row(cs.last(), vs)[j] == cs.last().push(vs[j]));
        assert(cs[cs.len() - 1].push(vs[j]) == product_rows(cs, vs)[k]);
    }
}

/// The product of lists holds choices only.
pub proof fn products_are_choices(options: Seq<Seq<AtomV>>, k: int)
    requires
        0 <= k < products(options).len(),
    ensures
        is_choice(products(options)[k], options),
    decreases options.len(),
{
    if options.len() > 0 {
        let inner = products(options.drop_last());
        lemma_rows_hold(inner, options.last(), k);
        let (i, j) = choose|i: int, j: int|
            0 <= i < inner.len() && 0 <= j < options.last().len() && products(options)[k]
                == #[trigger] inner[i].push(#[trigger] options.last()[j]);
        products_are_choices(options.drop_last(), i);
        let c = products(options)[k];
        assert forall|m: int| 0 <= m < c.len() implies options[m].contains(#[trigger] c[m]) by {
            if m < inner[i].len() {
                assert(c[m] == inner[i][m]);
                assert(options.drop_last()[m] == options[m]);
            } else {
                assert(c[m] == options.last()[j]);
            }
        }
    }
}

/// An extension of a choice stands in the rows.
proof fn lemma_row_found(cs: Seq<Seq<AtomV>>, vs: Seq<AtomV>, i: int, j: int)
    requires
        0 <= i < cs.len(),
        0 <= j < vs.len(),
    ensures
        product_rows(cs, vs).contains(cs[i].push(vs[j])),
    decreases cs.len(),
{
    let before = product_rows(cs.drop_last(), vs);
    let row = product_row(cs.last(), vs);
    if i == cs.len() - 1 {
        assert((before + row)[before.len() + j] == cs[i].push(vs[j]));
    } else {
        lemma_row_found(cs.drop_last(), vs, i, j);
        let k = choose|k: int| 0 <= k < before.len() && before[k] == cs[i].push(vs[j]);
        assert((before + row)[k] == cs[i].push(vs[j]));
    }
}

/// Every choice is in the product of the lists.
pub proof fn products_hold_choices(options: Seq<Seq<AtomV>>, c: Seq<AtomV>)
    requires
        is_choice(c, options),
    ensures
        products(options).contains(c),
    decreases options.len(),
{
    if options.len() == 0 {
        assert(c =~= Seq::empty());
        assert(products(options)[0] == c);
    } else {
        let inner = products(options.drop_last());
        let d = c.drop_last();
        assert forall|m: int| 0 <= m < d.len() implies options.drop_last()[m].contains(
            #[trigger] d[m],
        ) by {
            assert(c[m] == d[m]);
        }
        products_hold_choices(options.drop_last(), d);
        let i = choose|i: int| 0 <= i < inner.len() && inner[i] == d;
        assert(options[c.len() - 1].contains(c[c.len() - 1]));
        let j = choose|j: int|
            0 <= j < options.last().len() && options.last()[j] == c[c.len() - 1];
        lemma_row_found(inner, options.last(), i, j);
        assert(inner[i].push(options.last()[j]) =~= c);
    }
}

/// Build the cartesian product of a list of value lists.
pub fn cartesian_product(options: &Vec<Vec<Atom>>) -> (r: Vec<Vec<Atom>>)
    ensures
        atom_lists(r@) == products(atom_lists(options@)),
{
    broadcast use group_atoms;

    let ghost all = atom_lists(options@);
    let mut out: Vec<Vec<Atom>> = Vec::new();
    out.push(Vec::new());
    assert(all.take(0) =~= Seq::<Seq<AtomV>>::empty());
    assert(atoms(Seq::<Atom>::empty()) =~= Seq::<AtomV>::empty());
    assert(atom_lists(out@) =~= products(all.take(0)));
    let mut k: usize = 0;
    while k < options.len()
        invariant
            k <= options@.len(),
            all == atom_lists(options@),
            atom_lists(out@) == products(all.take(k as int)),
        decreases options@.len() - k,
    {
        let vs = &options[k];
        let ghost vv = atoms(vs@);
        let ghost inner = atom_lists(out@);
        let mut next: Vec<Vec<Atom>> = Vec::new();
        let mut i: usize = 0;
        assert(inner.take(0) =~= Seq::<Seq<AtomV>>::empty());
        assert(atom_lists(next@) =~= product_rows(inner.take(0), vv));
        while i < out.len()
            invariant
                i <= out@.len(),
                inner == atom_lists(out@),
                vv == atoms(vs@),
                atom_lists(next@) == product_rows(inner.take(i as int), vv),
            decreases out@.len() - i,
        {
            let ghost base = atom_lists(next@);
            let ghost row = product_row(inner[i as int], vv);
            let mut j: usize = 0;
            assert(base + row.take(0) =~= base);
            while j < vs.len()
                invariant
                    j <= vs@.len(),
                    i < out@.len(),
                    inner == atom_lists(out@),
                    vv == atoms(vs@),
                    row == product_row(inner[i as int], vv),
                    atom_lists(next@) == base + row.take(j as int),
                decreases vs@.len() - j,
            {
                let mut list = copy_atoms(&out[i], 0);
                assert(out@[i as int]@.skip(0) =~= out@[i as int]@);
                list.push(vs[j].clone());
                assert(row[j as int] == atoms(list@));
                let ghost was = next@;
                next.push(list);
                assert(atom_lists(next@) =~= atom_lists(was).push(atoms(list@)));
                assert(base + row.take(j + 1) =~= (base + row.take(j as int)).push(row[j as int]));
                j += 1;
            }
            assert(row.take(vs@.len() as int) =~= row);
            assert(inner.take(i + 1).drop_last() =~= inner.take(i as int));
            assert(product_rows(inner.take(i + 1), vv) =~= base + row);
            i += 1;
        }
        assert(inner.take(out@.len() as int) =~= inner);
        assert(all.take(k + 1).drop_last() =~= all.take(k as int));
        out = next;
        k += 1;
    }
    assert(all.take(options@.len() as int) =~= all);
    out
}

} // verus!
