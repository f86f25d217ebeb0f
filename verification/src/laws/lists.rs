//! What the functions on lists compute.
use crate::atom::AtomV;
use crate::atom::sexpr;
use crate::atom::symbol;
use crate::builtins::AnswerV;
use crate::builtins::arithmetic::PairingV;
use crate::builtins::arithmetic::alpha;
use crate::builtins::arithmetic::alpha_all;
use crate::builtins::arithmetic::alpha_is_reflexive;
use crate::builtins::arithmetic::alpha_same;
use crate::builtins::boolean::with_boolean_builtins;
use crate::builtins::collections::alpha_contains;
use crate::builtins::collections::alpha_unique;
use crate::builtins::collections::char_atoms;
use crate::builtins::collections::excluded;
use crate::builtins::collections::in_text_order;
use crate::builtins::collections::named_answer;
use crate::builtins::collections::sort_orders_without_duplicates;
use crate::builtins::collections::sorting_is_a_permutation;
use crate::builtins::collections::sorting_orders;
use crate::builtins::collections::text_sorted;
use crate::builtins::collections::unique;
use crate::builtins::collections::unique_has_no_duplicates;
use crate::builtins::collections::with_collection_builtins;
use crate::eval::shared::pattern::all_ground;
use crate::eval::shared::pattern::is_ground;
use crate::expr::Expr;
use crate::func::TableV;
use crate::laws::naming::comparison_names_are_bound;
use crate::laws::naming::list_names_are_bound;
use crate::laws::numbers::int_atom;
use crate::laws::numbers::truth_atom;
use crate::laws::numbers::truth_values_are_symbols;
use crate::text::text_before;
use vstd::prelude::*;
use vstd::string::*;

verus! {

/// The answer with one value.
pub open spec fn answer_of(a: AtomV) -> AnswerV {
    AnswerV::Values(seq![a])
}

/// Called by name on lists, the functions that count, join and pick give the
/// number of elements, the one list followed by the other, and the element at a
/// position; a position outside the list is refused.
pub proof fn lists_are_counted_joined_and_picked(
    t: TableV,
    x: Seq<AtomV>,
    y: Seq<AtomV>,
    i: int,
)
    ensures
        ({
            let u = with_collection_builtins(t);
            let l = AtomV::Expr(x);
            let m = AtomV::Expr(y);
            let n = int_atom(i);
            &&& named_answer(u, "size-atom"@, seq![l]) == answer_of(int_atom(x.len() as int))
            &&& named_answer(u, "length"@, seq![l]) == answer_of(int_atom(x.len() as int))
            &&& named_answer(u, "append"@, seq![l, m]) == answer_of(AtomV::Expr(x + y))
            &&& named_answer(u, "union-atom"@, seq![l, m]) == answer_of(AtomV::Expr(x + y))
            &&& named_answer(u, "concat"@, seq![l, m]) == answer_of(AtomV::Expr(x + y))
            &&& 0 <= i < x.len() <= usize::MAX ==> named_answer(u, "index-atom"@, seq![l, n])
                == answer_of(x[i])
            &&& i < 0 || i >= x.len() ==> named_answer(u, "index-atom"@, seq![l, n]) is Fail
            &&& x.len() > 0 ==> {
                &&& named_answer(u, "first"@, seq![l]) == answer_of(x[0])
                &&& named_answer(u, "first-from-pair"@, seq![l]) == answer_of(x[0])
                &&& named_answer(u, "last"@, seq![l]) == answer_of(x[x.len() - 1])
            }
            &&& x.len() > 1 ==> {
                &&& named_answer(u, "second"@, seq![l]) == answer_of(x[1])
                &&& named_answer(u, "second-from-pair"@, seq![l]) == answer_of(x[1])
            }
            &&& x.len() == 0 ==> {
                &&& named_answer(u, "first"@, seq![l]) is Fail
                &&& named_answer(u, "first-from-pair"@, seq![l]) is Fail
                &&& named_answer(u, "last"@, seq![l]) is Fail
            }
            &&& x.len() < 2 ==> {
                &&& named_answer(u, "second"@, seq![l]) is Fail
                &&& named_answer(u, "second-from-pair"@, seq![l]) is Fail
            }
        }),
{
    list_names_are_bound(t);
}

/// Called by name on an atom that is no list, the functions on lists take it for
/// the list of that one element, and those that take a list apart refuse it.
pub proof fn other_atoms_count_as_lists_of_one(t: TableV, a: AtomV, b: AtomV)
    requires
        !(a is Expr),
    ensures
        ({
            let u = with_collection_builtins(t);
            &&& named_answer(u, "size-atom"@, seq![a]) == answer_of(int_atom(1))
            &&& named_answer(u, "length"@, seq![a]) == answer_of(int_atom(1))
            &&& named_answer(u, "append"@, seq![a, b]) == named_answer(
                u,
                "append"@,
                seq![AtomV::Expr(seq![a]), b],
            )
            &&& named_answer(u, "append"@, seq![b, a]) == named_answer(
                u,
                "append"@,
                seq![b, AtomV::Expr(seq![a])],
            )
            &&& named_answer(u, "cons-atom"@, seq![b, a]) == answer_of(AtomV::Expr(seq![b, a]))
            &&& named_answer(u, "car"@, seq![a]) is Fail
            &&& named_answer(u, "cdr"@, seq![a]) is Fail
            &&& named_answer(u, "decons"@, seq![a]) is Fail
            &&& named_answer(u, "reverse"@, seq![a]) is Fail
            &&& named_answer(u, "last"@, seq![a]) is Fail
            &&& named_answer(u, "car-atom"@, seq![a]) == AnswerV::Values(Seq::empty())
            &&& named_answer(u, "cdr-atom"@, seq![a]) == AnswerV::Values(Seq::empty())
            &&& named_answer(u, "unique-atom"@, seq![a]) == answer_of(a)
            &&& named_answer(u, "alpha-unique-atom"@, seq![a]) == answer_of(a)
        }),
{
    list_names_are_bound(t);
    assert(seq![b] + seq![a] =~= seq![b, a]);
}

/// Called by name, `is-member` tells whether an atom is an element, and
/// `exclude-item` keeps the other elements, all of them and in their order.
pub proof fn members_are_found_and_excluded(t: TableV, a: AtomV, x: Seq<AtomV>)
    ensures
        ({
            let u = with_collection_builtins(t);
            let l = AtomV::Expr(x);
            &&& named_answer(u, "is-member"@, seq![a, l]) == answer_of(truth_atom(x.contains(a)))
            &&& named_answer(u, "exclude-item"@, seq![a, l]) == answer_of(
                AtomV::Expr(x.filter(|b: AtomV| b != a)),
            )
        }),
{
    list_names_are_bound(t);
    truth_values_are_symbols(true);
    truth_values_are_symbols(false);
    lemma_excluded(x, a);
}

/// Excluding an atom keeps the elements that differ from it.
proof fn lemma_excluded(s: Seq<AtomV>, a: AtomV)
    ensures
        excluded(s, a) == s.filter(|b: AtomV| b != a),
    decreases s.len(),
{
    reveal(Seq::filter);
    if s.len() > 0 {
        lemma_excluded(s.drop_last(), a);
    }
}

/// Called by name, `id` gives back its argument.
pub proof fn id_changes_nothing(t: TableV, a: AtomV)
    ensures
        named_answer(with_collection_builtins(t), "id"@, seq![a]) == answer_of(a),
{
    list_names_are_bound(t);
}

/// The place where an element first stands.
pub open spec fn first_place(s: Seq<AtomV>, k: int, a: AtomV) -> bool {
    0 <= k < s.len() && s[k] == a && forall|i: int| 0 <= i < k ==> #[trigger] s[i] != a
}

/// The elements that are kept once stand in the order of their first places.
proof fn lemma_unique_order(s: Seq<AtomV>)
    ensures
        forall|i: int, j: int, p: int, q: int|
            0 <= i < j < unique(s).len() && #[trigger] first_place(s, p, unique(s)[i])
                && #[trigger] first_place(s, q, unique(s)[j]) ==> p < q,
    decreases s.len(),
{
    if s.len() > 0 {
        let f = s.drop_last();
        lemma_unique_order(f);
        unique_has_no_duplicates(f);
        let u = unique(f);
        let all = unique(s);
        assert forall|i: int, j: int, p: int, q: int|
            0 <= i < j < all.len() && #[trigger] first_place(s, p, all[i])
                && #[trigger] first_place(s, q, all[j]) implies p < q by {
            assert(all[i] == u[i]);
            assert(u.contains(all[i]));
            assert(f.contains(all[i]));
            let pi = choose|pi: int| 0 <= pi < f.len() && f[pi] == all[i];
            assert(s[pi] == all[i]);
            assert(p <= pi);
            assert(first_place(f, p, all[i])) by {
                assert forall|k: int| 0 <= k < p implies #[trigger] f[k] != all[i] by {
                    assert(f[k] == s[k]);
                }
            }
            if j < u.len() {
                assert(all[j] == u[j]);
                assert(u.contains(all[j]));
                assert(f.contains(all[j]));
                let pj = choose|pj: int| 0 <= pj < f.len() && f[pj] == all[j];
                assert(s[pj] == all[j]);
                assert(q <= pj);
                assert(first_place(f, q, all[j])) by {
                    assert forall|k: int| 0 <= k < q implies #[trigger] f[k] != all[j] by {
                        assert(f[k] == s[k]);
                    }
                }
                assert(first_place(f, p, u[i]) && first_place(f, q, u[j]));
            } else {
                assert(all[j] == s.last());
                assert(!u.contains(s.last()));
                assert(!f.contains(s.last()));
                if q < f.len() {
                    assert(f[q] == s[q]);
                }
            }
        }
    }
}

/// Called by name, `unique-atom` and `list_to_set` keep each element once, in the
/// order of their first places.
pub proof fn elements_are_kept_once(t: TableV, x: Seq<AtomV>)
    ensures
        ({
            let u = with_collection_builtins(t);
            let r = unique(x);
            &&& named_answer(u, "unique-atom"@, seq![AtomV::Expr(x)]) == answer_of(AtomV::Expr(r))
            &&& named_answer(u, "list_to_set"@, seq![AtomV::Expr(x)]) == answer_of(AtomV::Expr(r))
            &&& r.no_duplicates()
            &&& forall|a: AtomV| r.contains(a) <==> x.contains(a)
            &&& forall|i: int, j: int, p: int, q: int|
                0 <= i < j < r.len() && #[trigger] first_place(x, p, r[i])
                    && #[trigger] first_place(x, q, r[j]) ==> p < q
        }),
{
    list_names_are_bound(t);
    unique_has_no_duplicates(x);
    lemma_unique_order(x);
}

/// Elements that are kept once up to names of variables: no two of them are the
/// same up to names, and each element is the same up to names as one of them.
proof fn lemma_alpha_unique(s: Seq<AtomV>)
    ensures
        forall|i: int, j: int|
            0 <= i < j < alpha_unique(s).len() ==> !alpha_same(
                #[trigger] alpha_unique(s)[j],
                #[trigger] alpha_unique(s)[i],
            ),
        forall|k: int|
            0 <= k < s.len() ==> alpha_contains(alpha_unique(s), #[trigger] s[k]),
        forall|i: int|
            0 <= i < alpha_unique(s).len() ==> s.contains(#[trigger] alpha_unique(s)[i]),
    decreases s.len(),
{
    if s.len() > 0 {
        let f = s.drop_last();
        lemma_alpha_unique(f);
        let b = alpha_unique(f);
        let all = alpha_unique(s);
        assert forall|k: int| 0 <= k < s.len() implies alpha_contains(all, #[trigger] s[k]) by {
            if k < f.len() {
                assert(f[k] == s[k]);
                let i = choose|i: int| 0 <= i < b.len() && alpha_same(s[k], #[trigger] b[i]);
                assert(all[i] == b[i]);
            } else if !alpha_contains(b, s.last()) {
                alpha_is_reflexive(s.last());
                assert(all[b.len() as int] == s.last());
            }
        }
        assert forall|i: int, j: int| 0 <= i < j < all.len() implies !alpha_same(
            #[trigger] all[j],
            #[trigger] all[i],
        ) by {
            assert(all[i] == b[i]);
            if j < b.len() {
                assert(all[j] == b[j]);
            }
        }
        assert forall|i: int| 0 <= i < all.len() implies s.contains(#[trigger] all[i]) by {
            if i < b.len() {
                assert(all[i] == b[i]);
                assert(f.contains(b[i]));
                let k = choose|k: int| 0 <= k < f.len() && f[k] == b[i];
                assert(s[k] == b[i]);
            } else {
                assert(s[s.len() - 1] == all[i]);
            }
        }
    }
}

/// Called by name, `alpha-unique-atom` keeps elements of the list of which no two
/// are the same up to names of variables, and one for each element.
pub proof fn elements_are_kept_once_up_to_names(t: TableV, x: Seq<AtomV>)
    ensures
        ({
            let u = with_collection_builtins(t);
            let r = alpha_unique(x);
            &&& named_answer(u, "alpha-unique-atom"@, seq![AtomV::Expr(x)]) == answer_of(
                AtomV::Expr(r),
            )
            &&& forall|i: int, j: int|
                0 <= i < j < r.len() ==> !alpha_same(#[trigger] r[j], #[trigger] r[i])
            &&& forall|k: int| 0 <= k < x.len() ==> alpha_contains(r, #[trigger] x[k])
            &&& forall|i: int| 0 <= i < r.len() ==> x.contains(#[trigger] r[i])
        }),
{
    list_names_are_bound(t);
    lemma_alpha_unique(x);
}

/// Called by name, `msort` and `sort-atom` give the elements of a list in the
/// order of how they are written, and `sort` gives each of them once.
pub proof fn lists_are_sorted(t: TableV, x: Seq<AtomV>)
    ensures
        ({
            let u = with_collection_builtins(t);
            let a = named_answer(u, "msort"@, seq![AtomV::Expr(x)]);
            let b = named_answer(u, "sort-atom"@, seq![AtomV::Expr(x)]);
            let c = named_answer(u, "sort"@, seq![AtomV::Expr(x)]);
            exists|r: Seq<AtomV>, s: Seq<AtomV>|
                {
                    &&& a == #[trigger] answer_of(AtomV::Expr(r))
                    &&& b == a
                    &&& c == #[trigger] answer_of(AtomV::Expr(s))
                    &&& r.to_multiset() == x.to_multiset()
                    &&& in_text_order(r)
                    &&& in_text_order(s)
                    &&& s.no_duplicates()
                    &&& forall|y: AtomV| s.contains(y) <==> x.contains(y)
                }
        }),
{
    list_names_are_bound(t);
    let r = text_sorted(x);
    let s = unique(r);
    sorting_is_a_permutation(x);
    sorting_orders(x);
    sort_orders_without_duplicates(x);
    let u = with_collection_builtins(t);
    assert(named_answer(u, "msort"@, seq![AtomV::Expr(x)]) == answer_of(AtomV::Expr(r)));
    assert(named_answer(u, "sort"@, seq![AtomV::Expr(x)]) == answer_of(AtomV::Expr(s)));
}

/// Texts are ordered by their first different characters; a text comes before
/// those that it is the start of.
pub proof fn texts_are_ordered_by_first_difference(a: Seq<char>, b: Seq<char>, k: int)
    requires
        0 <= k <= a.len(),
        k <= b.len(),
        a.take(k) == b.take(k),
    ensures
        k < a.len() && k < b.len() && a[k] != b[k] ==> text_before(a, b) == (a[k] < b[k]),
        k == a.len() && k < b.len() ==> text_before(a, b) && !text_before(b, a),
        k == a.len() && k == b.len() ==> !text_before(a, b),
    decreases k,
{
    if k > 0 {
        assert(a.take(k)[0] == a[0] && b.take(k)[0] == b[0]);
        assert(a.drop_first().take(k - 1) =~= b.drop_first().take(k - 1)) by {
            assert forall|i: int| 0 <= i < k - 1 implies a.drop_first()[i]
                == #[trigger] b.drop_first()[i] by {
                assert(a.take(k)[i + 1] == a[i + 1]);
                assert(b.take(k)[i + 1] == b[i + 1]);
            }
        }
        texts_are_ordered_by_first_difference(a.drop_first(), b.drop_first(), k - 1);
    }
}

/// Called by name, `atom_concat` gives the symbol whose name is what its
/// arguments look like one after the other, and so does `concat` for what are
/// not two lists; `atom_chars` gives one symbol for each character.
pub proof fn texts_are_joined_and_split(t: TableV, a: AtomV, b: AtomV)
    ensures
        ({
            let u = with_collection_builtins(t);
            &&& named_answer(u, "atom_concat"@, seq![a, b]) == answer_of(
                symbol(sexpr(a) + sexpr(b)),
            )
            &&& !(a is Expr && b is Expr) ==> named_answer(u, "concat"@, seq![a, b]) == answer_of(
                symbol(sexpr(a) + sexpr(b)),
            )
            &&& named_answer(u, "atom_chars"@, seq![a]) is Values
            &&& ({
                let r = named_answer(u, "atom_chars"@, seq![a])->Values_0;
                &&& r.len() == 1
                &&& r[0] is Expr
                &&& r[0]->Expr_0.len() == sexpr(a).len()
                &&& forall|i: int|
                    0 <= i < sexpr(a).len() ==> (#[trigger] r[0]->Expr_0[i]) == AtomV::Sym(
                        seq![sexpr(a)[i]],
                    )
            })
        }),
{
    list_names_are_bound(t);
    reveal_strlit("True");
    reveal_strlit("False");
    assert("True"@.len() == 4 && "False"@.len() == 5);
    let r = named_answer(with_collection_builtins(t), "atom_chars"@, seq![a])->Values_0;
    assert(r.len() == 1 && r[0] == AtomV::Expr(char_atoms(sexpr(a))));
    assert forall|i: int| 0 <= i < sexpr(a).len() implies (#[trigger] r[0]->Expr_0[i])
        == AtomV::Sym(seq![sexpr(a)[i]]) by {
        assert(seq![sexpr(a)[i]].len() == 1);
        assert(seq![sexpr(a)[i]] != "True"@ && seq![sexpr(a)[i]] != "False"@);
    }
}

/// Called by name, `==`, `=`, `=?` and `same` tell whether two atoms are equal,
/// `!=` whether they differ, and `=alpha` whether they are equal up to names of
/// variables: it says so of two atoms without variables exactly where they are
/// equal.
pub proof fn atoms_are_compared(t: TableV, a: AtomV, b: AtomV)
    ensures
        ({
            let u = with_boolean_builtins(t);
            let args = seq![a, b];
            &&& named_answer(u, "=="@, args) == answer_of(truth_atom(a == b))
            &&& named_answer(u, "="@, args) == answer_of(truth_atom(a == b))
            &&& named_answer(u, "=?"@, args) == answer_of(truth_atom(a == b))
            &&& named_answer(u, "same"@, args) == answer_of(truth_atom(a == b))
            &&& named_answer(u, "!="@, args) == answer_of(truth_atom(a != b))
            &&& named_answer(u, "=alpha"@, args) == answer_of(truth_atom(alpha_same(a, b)))
            &&& is_ground(a) ==> alpha_same(a, b) == (a == b)
        }),
{
    comparison_names_are_bound(t);
    truth_values_are_symbols(true);
    truth_values_are_symbols(false);
    if is_ground(a) {
        lemma_ground_alpha(a, b, Seq::empty());
    }
}

/// Of atoms without variables, only equal ones are equal up to names.
proof fn lemma_ground_alpha(a: AtomV, b: AtomV, m: PairingV)
    requires
        is_ground(a),
    ensures
        alpha(a, b, m) == (if a == b {
            Some(m)
        } else {
            None
        }),
    decreases a, 1int,
{
    match (a, b) {
        (AtomV::Expr(xs), AtomV::Expr(ys)) => {
            if xs.len() == ys.len() {
                lemma_ground_alpha_all(xs, ys, m);
            }
        },
        _ => {},
    }
}

/// Of lists without variables, only equal ones are equal up to names.
proof fn lemma_ground_alpha_all(xs: Seq<AtomV>, ys: Seq<AtomV>, m: PairingV)
    requires
        xs.len() == ys.len(),
        all_ground(xs),
    ensures
        alpha_all(xs, ys, m) == (if xs == ys {
            Some(m)
        } else {
            None
        }),
    decreases xs, 0int,
{
    if xs.len() > 0 {
        assert(is_ground(xs[xs.len() - 1]));
        assert forall|i: int| 0 <= i < xs.drop_last().len() implies is_ground(
            #[trigger] xs.drop_last()[i],
        ) by {
            assert(xs.drop_last()[i] == xs[i]);
        }
        lemma_ground_alpha_all(xs.drop_last(), ys.drop_last(), m);
        lemma_ground_alpha(xs.last(), ys.last(), m);
        assert(xs =~= xs.drop_last().push(xs.last()));
        assert(ys =~= ys.drop_last().push(ys.last()));
    } else {
        assert(xs =~= ys);
    }
}

} // verus!
