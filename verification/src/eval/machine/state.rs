//! Unification of atoms.
//!
//! A substitution is a list of bindings in the order in which they were made.
//! A variable is bound at most once, and what it is bound to may mention
//! variables that are bound elsewhere in the list. The map of what each bound
//! variable stands for once all bindings are applied is [`solved`].
use crate::atom::Atom;
use crate::atom::AtomV;
use crate::atom::atom_same;
use crate::atom::atoms;
use crate::atom::canonical_name;
use crate::atom::group_atoms;
use crate::atom::symbol;
use crate::text::is_var;
use crate::text::is_var_name;
use vstd::prelude::*;
use vstd::string::*;

verus! {

/// A substitution: variables and what they are bound to.
pub type SubstV = Seq<(Seq<char>, AtomV)>;

/// The value of a substitution.
pub open spec fn subst_values(s: Seq<(String, Atom)>) -> SubstV {
    Seq::new(s.len(), |i: int| (s[i].0@, s[i].1@))
}

/// Whether an atom is a variable.
pub open spec fn is_variable(a: AtomV) -> bool {
    a is Sym && is_var_name(a->Sym_0)
}

/// What is at the end of a chain of bindings from variable to variable.
pub open spec fn resolved(s: SubstV, a: AtomV) -> AtomV
    decreases s.len(),
{
    if s.len() == 0 {
        a
    } else {
        let r = resolved(s.drop_last(), a);
        if is_variable(r) && r->Sym_0 == s.last().0 {
            s.last().1
        } else {
            r
        }
    }
}

/// An atom with variables replaced, all at once.
pub open spec fn applied(a: AtomV, m: Map<Seq<char>, AtomV>) -> AtomV
    decreases a,
{
    match a {
        AtomV::Sym(n) => if is_var_name(n) && m.contains_key(n) {
            m[n]
        } else {
            a
        },
        AtomV::Expr(items) => AtomV::Expr(all_applied(items, m)),
        _ => a,
    }
}

/// Atoms with variables replaced, all at once.
pub open spec fn all_applied(items: Seq<AtomV>, m: Map<Seq<char>, AtomV>) -> Seq<AtomV>
    decreases items,
{
    Seq::new(
        items.len(),
        |i: int|
            if 0 <= i < items.len() {
                applied(items[i], m)
            } else {
                arbitrary()
            },
    )
}

/// The map that replaces one variable.
pub open spec fn only(x: Seq<char>, t: AtomV) -> Map<Seq<char>, AtomV> {
    Map::empty().insert(x, t)
}

/// A map with one more variable replaced, also in what is there.
pub open spec fn extended(m: Map<Seq<char>, AtomV>, x: Seq<char>, t: AtomV) -> Map<
    Seq<char>,
    AtomV,
> {
    m.map_values(|v: AtomV| applied(v, only(x, t))).insert(x, t)
}

/// What each bound variable stands for.
pub open spec fn solved(s: SubstV) -> Map<Seq<char>, AtomV>
    decreases s.len(),
{
    if s.len() == 0 {
        Map::empty()
    } else {
        let m = solved(s.drop_last());
        extended(m, s.last().0, applied(s.last().1, m))
    }
}

/// Whether a name occurs as a symbol in an atom.
pub open spec fn occurs(x: Seq<char>, a: AtomV) -> bool
    decreases a,
{
    match a {
        AtomV::Sym(n) => n == x,
        AtomV::Expr(items) => exists|i: int| 0 <= i < items.len() && occurs(x, #[trigger] items[i]),
        _ => false,
    }
}

/// Whether a substitution is in order: each variable was free when it was
/// bound, it was bound to the end of a chain, and it does not occur in what it
/// stands for.
pub open spec fn well_formed(s: SubstV) -> bool
    decreases s.len(),
{
    s.len() == 0 || {
        let before = s.drop_last();
        let (x, t) = s.last();
        &&& well_formed(before)
        &&& is_var_name(x)
        &&& !solved(before).contains_key(x)
        &&& !occurs(x, applied(t, solved(before)))
        &&& resolved(before, t) == t
    }
}

/// The size of an atom.
pub open spec fn atom_size(a: AtomV) -> nat
    decreases a,
{
    match a {
        AtomV::Expr(items) => 1 + atoms_size(items),
        _ => 1,
    }
}

/// The size of atoms together.
pub open spec fn atoms_size(s: Seq<AtomV>) -> nat
    decreases s,
{
    if s.len() == 0 {
        0
    } else {
        atoms_size(s.drop_last()) + atom_size(s.last())
    }
}

/// Each atom is at most as large as all of them.
proof fn lemma_atoms_size(s: Seq<AtomV>, i: int)
    requires
        0 <= i < s.len(),
    ensures
        atom_size(s[i]) <= atoms_size(s),
    decreases s.len(),
{
    if i < s.len() - 1 {
        lemma_atoms_size(s.drop_last(), i);
    }
}

/// Replacing in an element gives the element of the replaced list.
proof fn lemma_applied_items(items: Seq<AtomV>, m: Map<Seq<char>, AtomV>, i: int)
    requires
        0 <= i < items.len(),
    ensures
        applied(AtomV::Expr(items), m) is Expr,
        applied(AtomV::Expr(items), m)->Expr_0.len() == items.len(),
        applied(AtomV::Expr(items), m)->Expr_0[i] == applied(items[i], m),
        atom_size(applied(items[i], m)) < atom_size(applied(AtomV::Expr(items), m)),
{
    lemma_atoms_size(all_applied(items, m), i);
}

/// Replacing variables and then one more is replacing by the extended map.
proof fn lemma_extended(a: AtomV, m: Map<Seq<char>, AtomV>, x: Seq<char>, t: AtomV)
    requires
        !m.contains_key(x),
        is_var_name(x),
    ensures
        applied(applied(a, m), only(x, t)) == applied(a, extended(m, x, t)),
    decreases a,
{
    if let AtomV::Expr(items) = a {
        assert forall|i: int| 0 <= i < items.len() implies applied(
            applied(#[trigger] items[i], m),
            only(x, t),
        ) == applied(items[i], extended(m, x, t)) by {
            lemma_extended(items[i], m, x, t);
        }
        assert(all_applied(all_applied(items, m), only(x, t)) =~= all_applied(
            items,
            extended(m, x, t),
        ));
    }
}

/// Replacing variables that do not occur changes nothing.
proof fn lemma_applied_absent(a: AtomV, m: Map<Seq<char>, AtomV>)
    requires
        forall|x: Seq<char>| m.contains_key(x) ==> !(#[trigger] occurs(x, a)),
    ensures
        applied(a, m) == a,
    decreases a,
{
    match a {
        AtomV::Sym(n) => {
            if m.contains_key(n) {
                assert(occurs(n, a));
            }
        },
        AtomV::Expr(items) => {
            assert forall|i: int| 0 <= i < items.len() implies applied(#[trigger] items[i], m)
                == items[i] by {
                assert forall|x: Seq<char>| m.contains_key(x) implies !(#[trigger] occurs(
                    x,
                    items[i],
                )) by {
                    assert(!occurs(x, a));
                    assert(a->Expr_0[i] == items[i]);
                }
                lemma_applied_absent(items[i], m);
            }
            assert(all_applied(items, m) =~= items);
        },
        _ => {},
    }
}

/// What occurs after a variable is replaced.
proof fn lemma_occurs_after(y: Seq<char>, a: AtomV, x: Seq<char>, t: AtomV)
    requires
        is_var_name(x),
        occurs(y, applied(a, only(x, t))),
    ensures
        (y != x && occurs(y, a)) || occurs(y, t),
    decreases a,
{
    match a {
        AtomV::Sym(n) => {},
        AtomV::Expr(items) => {
            let out = all_applied(items, only(x, t));
            let i = choose|i: int| 0 <= i < out.len() && occurs(y, #[trigger] out[i]);
            assert(out[i] == applied(items[i], only(x, t)));
            lemma_occurs_after(y, items[i], x, t);
            if y != x && occurs(y, items[i]) {
                assert(a->Expr_0[i] == items[i]);
                assert(occurs(y, a));
            }
        },
        _ => {},
    }
}

/// What occurs after variables are replaced occurs in what they stand for, or
/// was there and is not replaced.
proof fn lemma_occurs_applied(y: Seq<char>, a: AtomV, m: Map<Seq<char>, AtomV>)
    requires
        occurs(y, applied(a, m)),
    ensures
        (occurs(y, a) && !(m.contains_key(y) && is_var_name(y))) || exists|x: Seq<char>|
            m.contains_key(x) && occurs(y, #[trigger] m[x]),
    decreases a,
{
    match a {
        AtomV::Sym(n) => {},
        AtomV::Expr(items) => {
            let out = all_applied(items, m);
            let i = choose|i: int| 0 <= i < out.len() && occurs(y, #[trigger] out[i]);
            assert(out[i] == applied(items[i], m));
            lemma_occurs_applied(y, items[i], m);
            if occurs(y, items[i]) {
                assert(a->Expr_0[i] == items[i]);
                assert(occurs(y, a));
            }
        },
        _ => {},
    }
}

/// The variables of a substitution that is in order are replaced, and occur
/// nowhere in what variables stand for.
proof fn lemma_solved(s: SubstV)
    requires
        well_formed(s),
    ensures
        forall|i: int| 0 <= i < s.len() ==> solved(s).contains_key((#[trigger] s[i]).0),
        forall|x: Seq<char>| #[trigger] solved(s).contains_key(x) ==> is_var_name(x),
        forall|x: Seq<char>, y: Seq<char>|
            solved(s).contains_key(x) && solved(s).contains_key(y) ==> !(#[trigger] occurs(
                y,
                solved(s)[x],
            )),
    decreases s.len(),
{
    if s.len() > 0 {
        let before = s.drop_last();
        let (x, t) = s.last();
        lemma_solved(before);
        let m = solved(before);
        let full = applied(t, m);
        let out = solved(s);
        assert forall|i: int| 0 <= i < s.len() implies out.contains_key((#[trigger] s[i]).0) by {
            if i < s.len() - 1 {
                assert(before[i] == s[i]);
                assert(m.contains_key(before[i].0));
            }
        }
        assert forall|u: Seq<char>, y: Seq<char>|
            out.contains_key(u) && out.contains_key(y) implies !(#[trigger] occurs(y, out[u])) by {
            if occurs(y, full) && m.contains_key(y) {
                lemma_occurs_applied(y, t, m);
                let z = choose|z: Seq<char>| m.contains_key(z) && occurs(y, #[trigger] m[z]);
                assert(m.contains_key(z) && occurs(y, m[z]));
                assert(!occurs(y, m[z]));
            }
            if u != x && occurs(y, out[u]) {
                assert(out[u] == applied(m[u], only(x, full)));
                lemma_occurs_after(y, m[u], x, full);
                if y != x {
                    assert(m.contains_key(y));
                    assert(!occurs(y, m[u]));
                }
            }
        }
    }
}

/// Following a chain does not change what an atom stands for, and ends at
/// something unbound.
proof fn lemma_resolved(s: SubstV, a: AtomV)
    requires
        well_formed(s),
    ensures
        applied(resolved(s, a), solved(s)) == applied(a, solved(s)),
        is_variable(resolved(s, a)) ==> !solved(s).contains_key(resolved(s, a)->Sym_0),
    decreases s.len(),
{
    if s.len() > 0 {
        let before = s.drop_last();
        let (x, t) = s.last();
        let m = solved(before);
        let full = applied(t, m);
        let r = resolved(before, a);
        lemma_resolved(before, a);
        lemma_resolved(before, t);
        lemma_extended(r, m, x, full);
        lemma_extended(a, m, x, full);
        lemma_extended(t, m, x, full);
        if is_variable(r) && r->Sym_0 == x {
            assert forall|y: Seq<char>| only(x, full).contains_key(y) implies !(#[trigger] occurs(
                y,
                full,
            )) by {
                assert(y == x);
            }
            lemma_applied_absent(full, only(x, full));
            if is_variable(t) && t->Sym_0 == x {
                assert(full == t);
                assert(occurs(x, full));
            }
        }
    }
}

/// An unbound atom is the end of its chain.
proof fn lemma_resolved_free(s: SubstV, a: AtomV)
    requires
        well_formed(s),
        is_variable(a) ==> !solved(s).contains_key(a->Sym_0),
    ensures
        resolved(s, a) == a,
    decreases s.len(),
{
    if s.len() > 0 {
        lemma_resolved_free(s.drop_last(), a);
    }
}

/// Follow variable bindings until a non-variable target is reached.
fn deref(atom: &Atom, subst: &Vec<(String, Atom)>) -> (r: Atom)
    ensures
        r@ == resolved(subst_values(subst@), atom@),
{
    let ghost s = subst_values(subst@);
    let mut current: Atom = atom.clone();
    let mut i: usize = 0;
    while i < subst.len()
        invariant
            i <= subst@.len(),
            s == subst_values(subst@),
            current@ == resolved(s.take(i as int), atom@),
        decreases subst@.len() - i,
    {
        assert(s.take(i + 1).drop_last() =~= s.take(i as int));
        let here: bool = match &current {
            Atom::Sym(n) => is_var(n.as_str()) && *n == subst[i].0,
            _ => false,
        };
        if here {
            current = subst[i].1.clone();
        }
        i += 1;
    }
    assert(s.take(subst@.len() as int) =~= s);
    current
}

/// Return `true` when binding `var` to `atom` would introduce a cycle.
fn occurs_check(var: &str, atom: &Atom, subst: &Vec<(String, Atom)>) -> (r: bool)
    requires
        well_formed(subst_values(subst@)),
        is_var_name(var@),
    ensures
        r == occurs(var@, applied(atom@, solved(subst_values(subst@)))),
    decreases atom_size(applied(atom@, solved(subst_values(subst@)))),
{
    broadcast use group_atoms;

    let ghost s = subst_values(subst@);
    let ghost m = solved(s);
    let target = deref(atom, subst);
    proof {
        lemma_resolved(s, atom@);
    }
    match &target {
        Atom::Sym(n) => is_var(n.as_str()) && crate::text::same(n.as_str(), var),
        Atom::Expr(items) => {
            let ghost out = all_applied(atoms(items@), m);
            let mut i: usize = 0;
            while i < items.len()
                invariant
                    i <= items@.len(),
                    well_formed(s),
                    s == subst_values(subst@),
                    m == solved(s),
                    is_var_name(var@),
                    applied(atom@, m) == AtomV::Expr(out),
                    out == all_applied(atoms(items@), m),
                    forall|j: int| 0 <= j < i ==> !occurs(var@, #[trigger] out[j]),
                decreases items@.len() - i,
            {
                proof {
                    lemma_applied_items(atoms(items@), m, i as int);
                }
                if occurs_check(var, &items[i], subst) {
                    assert(AtomV::Expr(out)->Expr_0[i as int] == out[i as int]);
                    assert(occurs(var@, out[i as int]));
                    return true;
                }
                i += 1;
            }
            assert(!occurs(var@, AtomV::Expr(out)));
            false
        },
        _ => false,
    }
}

/// Whether a list is a definition `(= head body)`.
pub open spec fn is_equation(items: Seq<AtomV>) -> bool {
    items.len() == 3 && items[0] == symbol("="@)
}

/// Unification of two atoms that are no variables' bindings: what it leaves of
/// the substitution, `Some(None)` when the atoms do not unify, and `None` when
/// they are nested deeper than `depth`.
///
/// A pattern that is a definition stands for its head.
pub open spec fn unified(depth: nat, term: AtomV, pattern: AtomV, s: SubstV) -> Option<
    Option<SubstV>,
>
    decreases depth, 0nat,
{
    if depth == 0 {
        None
    } else {
        let a = resolved(s, term);
        let b = resolved(s, pattern);
        if is_variable(a) && a == b {
            Some(Some(s))
        } else if is_variable(a) {
            if occurs(a->Sym_0, applied(b, solved(s))) {
                Some(None)
            } else {
                Some(Some(s.push((a->Sym_0, b))))
            }
        } else if is_variable(b) {
            if occurs(b->Sym_0, applied(a, solved(s))) {
                Some(None)
            } else {
                Some(Some(s.push((b->Sym_0, a))))
            }
        } else {
            match (a, b) {
                (AtomV::Sym(x), AtomV::Sym(y)) => Some(
                    if x == y {
                        Some(s)
                    } else {
                        None
                    },
                ),
                (AtomV::Num(x), AtomV::Num(y)) => Some(
                    if x == y {
                        Some(s)
                    } else {
                        None
                    },
                ),
                (AtomV::Expr(xs), AtomV::Expr(ys)) => if is_equation(ys) {
                    unified((depth - 1) as nat, a, ys[1], s)
                } else if xs.len() != ys.len() {
                    Some(None)
                } else {
                    all_unified((depth - 1) as nat, xs, ys, s)
                },
                _ => Some(None),
            }
        }
    }
}

/// Unification of atoms from left to right.
pub open spec fn all_unified(depth: nat, xs: Seq<AtomV>, ys: Seq<AtomV>, s: SubstV) -> Option<
    Option<SubstV>,
>
    decreases depth, xs.len(),
{
    if xs.len() == 0 {
        Some(Some(s))
    } else {
        match all_unified(depth, xs.drop_last(), ys.drop_last(), s) {
            Some(Some(t)) => unified(depth, xs.last(), ys.last(), t),
            other => other,
        }
    }
}

/// Whether unification ends with a result.
pub open spec fn settles(term: AtomV, pattern: AtomV, s: SubstV, r: Option<SubstV>) -> bool {
    exists|depth: nat| #[trigger] unified(depth, term, pattern, s) == Some(r)
}

/// A result stays when more depth is allowed.
proof fn lemma_deeper(depth: nat, more: nat, term: AtomV, pattern: AtomV, s: SubstV)
    requires
        depth <= more,
        unified(depth, term, pattern, s) is Some,
    ensures
        unified(more, term, pattern, s) == unified(depth, term, pattern, s),
    decreases depth, 0nat,
{
    let a = resolved(s, term);
    let b = resolved(s, pattern);
    if !is_variable(a) && !is_variable(b) {
        match (a, b) {
            (AtomV::Expr(xs), AtomV::Expr(ys)) => {
                if is_equation(ys) {
                    lemma_deeper((depth - 1) as nat, (more - 1) as nat, a, ys[1], s);
                } else if xs.len() == ys.len() {
                    lemma_all_deeper((depth - 1) as nat, (more - 1) as nat, xs, ys, s);
                }
            },
            _ => {},
        }
    }
}

/// A result stays when more depth is allowed.
proof fn lemma_all_deeper(depth: nat, more: nat, xs: Seq<AtomV>, ys: Seq<AtomV>, s: SubstV)
    requires
        depth <= more,
        all_unified(depth, xs, ys, s) is Some,
    ensures
        all_unified(more, xs, ys, s) == all_unified(depth, xs, ys, s),
    decreases depth, xs.len(),
{
    if xs.len() > 0 {
        lemma_all_deeper(depth, more, xs.drop_last(), ys.drop_last(), s);
        if let Some(Some(t)) = all_unified(depth, xs.drop_last(), ys.drop_last(), s) {
            lemma_deeper(depth, more, xs.last(), ys.last(), t);
        }
    }
}

/// Unification has one result.
pub proof fn unification_is_determined(
    term: AtomV,
    pattern: AtomV,
    s: SubstV,
    r1: Option<SubstV>,
    r2: Option<SubstV>,
)
    requires
        settles(term, pattern, s, r1),
        settles(term, pattern, s, r2),
    ensures
        r1 == r2,
{
    let d1 = choose|d: nat| #[trigger] unified(d, term, pattern, s) == Some(r1);
    let d2 = choose|d: nat| #[trigger] unified(d, term, pattern, s) == Some(r2);
    if d1 <= d2 {
        lemma_deeper(d1, d2, term, pattern, s);
    } else {
        lemma_deeper(d2, d1, term, pattern, s);
    }
}

/// Once a prefix fails, so does the whole.
proof fn lemma_unified_stops(depth: nat, xs: Seq<AtomV>, ys: Seq<AtomV>, s: SubstV, n: int)
    requires
        0 <= n <= xs.len(),
        xs.len() == ys.len(),
        all_unified(depth, xs.take(n), ys.take(n), s) == Some(None::<SubstV>),
    ensures
        all_unified(depth, xs, ys, s) == Some(None::<SubstV>),
    decreases xs.len() - n,
{
    if n == xs.len() {
        assert(xs.take(n) =~= xs);
        assert(ys.take(n) =~= ys);
    } else {
        assert(xs.take(n + 1).drop_last() =~= xs.take(n));
        assert(ys.take(n + 1).drop_last() =~= ys.take(n));
        lemma_unified_stops(depth, xs, ys, s, n + 1);
    }
}

/// Whether the names that occur in an atom are among given ones.
pub open spec fn within(a: AtomV, vars: Set<Seq<char>>) -> bool {
    forall|x: Seq<char>| #[trigger] occurs(x, a) ==> vars.contains(x)
}

/// Whether the names of a substitution are among given ones: those that are bound,
/// and those that occur in what they are bound to.
pub open spec fn all_within(s: SubstV, vars: Set<Seq<char>>) -> bool {
    forall|i: int|
        0 <= i < s.len() ==> vars.contains((#[trigger] s[i]).0) && within(s[i].1, vars)
}

/// The end of a chain mentions nothing new.
proof fn lemma_resolved_within(s: SubstV, a: AtomV, vars: Set<Seq<char>>)
    requires
        within(a, vars),
        all_within(s, vars),
    ensures
        within(resolved(s, a), vars),
    decreases s.len(),
{
    if s.len() > 0 {
        let before = s.drop_last();
        assert forall|i: int| 0 <= i < before.len() implies vars.contains((#[trigger] before[i]).0)
            && within(before[i].1, vars) by {
            assert(s[i] == before[i]);
        }
        lemma_resolved_within(before, a, vars);
        assert(within(s[s.len() - 1].1, vars));
    }
}

/// The elements of an expression mention nothing new.
proof fn lemma_items_within(items: Seq<AtomV>, vars: Set<Seq<char>>, i: int)
    requires
        0 <= i < items.len(),
        within(AtomV::Expr(items), vars),
    ensures
        within(items[i], vars),
{
    assert forall|x: Seq<char>| #[trigger] occurs(x, items[i]) implies vars.contains(x) by {
        assert(AtomV::Expr(items)->Expr_0[i] == items[i]);
        assert(occurs(x, AtomV::Expr(items)));
    }
}

/// A substitution has no more bindings than there are variables.
proof fn lemma_binding_count(s: SubstV, vars: Set<Seq<char>>)
    requires
        well_formed(s),
        vars.finite(),
        forall|i: int| 0 <= i < s.len() ==> vars.contains((#[trigger] s[i]).0),
    ensures
        s.len() <= vars.len(),
    decreases s.len(),
{
    if s.len() > 0 {
        let before = s.drop_last();
        let x = s.last().0;
        lemma_solved(before);
        assert(vars.contains(s[s.len() - 1].0));
        assert forall|i: int| 0 <= i < before.len() implies vars.remove(x).contains(
            (#[trigger] before[i]).0,
        ) by {
            assert(s[i] == before[i]);
            assert(solved(before).contains_key(before[i].0));
        }
        lemma_binding_count(before, vars.remove(x));
    }
}

/// The names that occur in an atom.
pub open spec fn names_in(a: AtomV) -> Set<Seq<char>>
    decreases a,
{
    match a {
        AtomV::Sym(n) => Set::empty().insert(n),
        AtomV::Expr(items) => names_in_all(items),
        _ => Set::empty(),
    }
}

/// The names that occur in atoms.
pub open spec fn names_in_all(s: Seq<AtomV>) -> Set<Seq<char>>
    decreases s,
{
    if s.len() == 0 {
        Set::empty()
    } else {
        names_in_all(s.drop_last()).union(names_in(s.last()))
    }
}

/// The names that occur in an atom are finitely many.
proof fn lemma_names(a: AtomV)
    ensures
        names_in(a).finite(),
        within(a, names_in(a)),
    decreases a,
{
    match a {
        AtomV::Expr(items) => {
            lemma_names_all(items);
            assert forall|x: Seq<char>| #[trigger] occurs(x, a) implies names_in(a).contains(x) by {
                let i = choose|i: int| 0 <= i < items.len() && occurs(x, #[trigger] items[i]);
                assert(within(items[i], names_in_all(items)));
            }
        },
        _ => {},
    }
}

/// The names that occur in atoms are finitely many.
proof fn lemma_names_all(s: Seq<AtomV>)
    ensures
        names_in_all(s).finite(),
        forall|i: int| 0 <= i < s.len() ==> within(#[trigger] s[i], names_in_all(s)),
    decreases s,
{
    if s.len() > 0 {
        lemma_names_all(s.drop_last());
        lemma_names(s.last());
        assert forall|i: int| 0 <= i < s.len() implies within(
            #[trigger] s[i],
            names_in_all(s),
        ) by {
            if i < s.len() - 1 {
                assert(s.drop_last()[i] == s[i]);
                assert(within(s[i], names_in_all(s.drop_last())));
            }
        }
    }
}

/// Binding a free variable keeps a substitution in order.
proof fn lemma_bind(s: SubstV, x: Seq<char>, t: AtomV)
    requires
        well_formed(s),
        is_var_name(x),
        !solved(s).contains_key(x),
        !occurs(x, applied(t, solved(s))),
        is_variable(t) ==> !solved(s).contains_key(t->Sym_0),
    ensures
        well_formed(s.push((x, t))),
{
    lemma_resolved_free(s, t);
    assert(s.push((x, t)).drop_last() =~= s);
}

/// Whether a substitution is another with more bindings.
pub open spec fn extends(s: SubstV, t: SubstV) -> bool {
    s.len() <= t.len() && t.take(s.len() as int) == s
}

/// What a result is for the caller.
spec fn outcome(r: bool, s: SubstV) -> Option<SubstV> {
    if r {
        Some(s)
    } else {
        None
    }
}

/// Add a binding.
fn add_binding(subst: &mut Vec<(String, Atom)>, name: &str, value: &Atom)
    ensures
        subst_values(final(subst)@) == subst_values(old(subst)@).push((name@, value@)),
{
    let ghost before = subst_values(subst@);
    subst.push((name.to_owned(), value.clone()));
    assert(subst_values(subst@) =~= before.push((name@, value@)));
}

/// Unify two atoms using an existing substitution.
#[verifier::rlimit(40)]
fn unify_with_subst(
    term: &Atom,
    pattern: &Atom,
    subst: &mut Vec<(String, Atom)>,
    Ghost(vars): Ghost<Set<Seq<char>>>,
) -> (r: bool)
    requires
        well_formed(subst_values(old(subst)@)),
        vars.finite(),
        within(term@, vars),
        within(pattern@, vars),
        all_within(subst_values(old(subst)@), vars),
    ensures
        well_formed(subst_values(final(subst)@)),
        all_within(subst_values(final(subst)@), vars),
        extends(subst_values(old(subst)@), subst_values(final(subst)@)),
        settles(
            term@,
            pattern@,
            subst_values(old(subst)@),
            outcome(r, subst_values(final(subst)@)),
        ),
    decreases
        vars.len() - subst_values(old(subst)@).len(),
        atom_size(applied(term@, solved(subst_values(old(subst)@)))) + atom_size(
            applied(pattern@, solved(subst_values(old(subst)@))),
        ),
{
    broadcast use group_atoms;

    let ghost s = subst_values(subst@);
    let ghost m = solved(s);
    let left = deref(term, subst);
    let right = deref(pattern, subst);
    proof {
        lemma_resolved(s, term@);
        lemma_resolved(s, pattern@);
        lemma_resolved_within(s, term@, vars);
        lemma_resolved_within(s, pattern@, vars);
        assert(s.take(s.len() as int) =~= s);
    }
    let left_var: bool = match &left {
        Atom::Sym(n) => is_var(n.as_str()),
        _ => false,
    };
    let right_var: bool = match &right {
        Atom::Sym(n) => is_var(n.as_str()),
        _ => false,
    };
    if left_var && atom_same(&left, &right) {
        assert(unified(1, term@, pattern@, s) == Some(Some(s)));
        return true;
    }
    if left_var {
        match &left {
            Atom::Sym(n) => {
                if occurs_check(n.as_str(), &right, subst) {
                    assert(unified(1, term@, pattern@, s) == Some(None::<SubstV>));
                    return false;
                }
                proof {
                    lemma_bind(s, n@, right@);
                    assert(occurs(n@, left@));
                }
                add_binding(subst, n.as_str(), &right);
                assert(unified(1, term@, pattern@, s) == Some(Some(s.push((n@, right@)))));
                assert(subst_values(subst@).take(s.len() as int) =~= s);
                return true;
            },
            _ => {},
        }
    }
    if right_var {
        match &right {
            Atom::Sym(n) => {
                if occurs_check(n.as_str(), &left, subst) {
                    assert(unified(1, term@, pattern@, s) == Some(None::<SubstV>));
                    return false;
                }
                proof {
                    lemma_bind(s, n@, left@);
                    assert(occurs(n@, right@));
                }
                add_binding(subst, n.as_str(), &left);
                assert(unified(1, term@, pattern@, s) == Some(Some(s.push((n@, left@)))));
                assert(subst_values(subst@).take(s.len() as int) =~= s);
                return true;
            },
            _ => {},
        }
    }
    match (&left, &right) {
        (Atom::Sym(x), Atom::Sym(y)) => {
            let r: bool = *x == *y;
            assert(unified(1, term@, pattern@, s) == Some(outcome(r, s)));
            r
        },
        (Atom::Num(x), Atom::Num(y)) => {
            let r: bool = x.same(y);
            assert(unified(1, term@, pattern@, s) == Some(outcome(r, s)));
            r
        },
        (Atom::Expr(xs), Atom::Expr(ys)) => {
            let ghost xv = atoms(xs@);
            let ghost yv = atoms(ys@);
            let marker = Atom::sym("=");
            if ys.len() == 3 && atom_same(&ys[0], &marker) {
                proof {
                    lemma_applied_items(yv, m, 1);
                    lemma_items_within(yv, vars, 1);
                    assert(is_equation(yv));
                }
                let r = unify_with_subst(&left, &ys[1], subst, Ghost(vars));
                proof {
                    let d = choose|d: nat| #[trigger]
                        unified(d, left@, yv[1], s) == Some(outcome(r, subst_values(subst@)));
                    assert(unified(d + 1, term@, pattern@, s) == unified(d, left@, yv[1], s));
                }
                return r;
            }
            assert(!is_equation(yv));
            if xs.len() != ys.len() {
                assert(unified(1, term@, pattern@, s) == Some(None::<SubstV>));
                return false;
            }
            let ghost mut depth: nat = 0;
            let mut i: usize = 0;
            assert(xv.take(0) =~= Seq::<AtomV>::empty());
            assert(all_unified(0, xv.take(0), yv.take(0), s) == Some(Some(s)));
            while i < xs.len()
                invariant
                    i <= xs@.len(),
                    xs@.len() == ys@.len(),
                    s == subst_values(old(subst)@),
                    m == solved(s),
                    xv == atoms(xs@),
                    yv == atoms(ys@),
                    resolved(s, term@) == AtomV::Expr(xv),
                    resolved(s, pattern@) == AtomV::Expr(yv),
                    applied(AtomV::Expr(xv), m) == applied(term@, m),
                    applied(AtomV::Expr(yv), m) == applied(pattern@, m),
                    !is_equation(yv),
                    vars.finite(),
                    within(AtomV::Expr(xv), vars),
                    within(AtomV::Expr(yv), vars),
                    well_formed(subst_values(subst@)),
                    all_within(subst_values(subst@), vars),
                    extends(s, subst_values(subst@)),
                    all_unified(depth, xv.take(i as int), yv.take(i as int), s) == Some(
                        Some(subst_values(subst@)),
                    ),
                decreases xs@.len() - i,
            {
                let ghost cur = subst_values(subst@);
                proof {
                    lemma_items_within(xv, vars, i as int);
                    lemma_items_within(yv, vars, i as int);
                    lemma_applied_items(xv, m, i as int);
                    lemma_applied_items(yv, m, i as int);
                    lemma_binding_count(cur, vars);
                    if cur.len() == s.len() {
                        assert(cur =~= s);
                    }
                    assert(xv.take(i + 1).drop_last() =~= xv.take(i as int));
                    assert(yv.take(i + 1).drop_last() =~= yv.take(i as int));
                }
                let r = unify_with_subst(&xs[i], &ys[i], subst, Ghost(vars));
                proof {
                    let now = subst_values(subst@);
                    let d = choose|d: nat| #[trigger]
                        unified(d, xv[i as int], yv[i as int], cur) == Some(outcome(r, now));
                    let top: nat = if d > depth {
                        d
                    } else {
                        depth
                    };
                    lemma_deeper(d, top, xv[i as int], yv[i as int], cur);
                    lemma_all_deeper(depth, top, xv.take(i as int), yv.take(i as int), s);
                    depth = top;
                    assert(all_unified(depth, xv.take(i + 1), yv.take(i + 1), s) == Some(
                        outcome(r, now),
                    ));
                    assert(now.take(s.len() as int) =~= now.take(cur.len() as int).take(
                        s.len() as int,
                    ));
                }
                if !r {
                    proof {
                        lemma_unified_stops(depth, xv, yv, s, i + 1);
                        assert(unified(depth + 1, term@, pattern@, s) == Some(None::<SubstV>));
                    }
                    return false;
                }
                i += 1;
            }
            proof {
                assert(xv.take(i as int) =~= xv);
                assert(yv.take(i as int) =~= yv);
                assert(unified(depth + 1, term@, pattern@, s) == Some(
                    Some(subst_values(subst@)),
                ));
            }
            true
        },
        _ => {
            assert(unified(1, term@, pattern@, s) == Some(None::<SubstV>));
            false
        },
    }
}

/// The value of an optional substitution.
pub open spec fn subst_value(r: Option<Vec<(String, Atom)>>) -> Option<SubstV> {
    match r {
        Some(v) => Some(subst_values(v@)),
        None => None,
    }
}

/// Unify two atoms and return the produced substitution on success.
pub fn unify(term: &Atom, pattern: &Atom) -> (r: Option<Vec<(String, Atom)>>)
    ensures
        settles(term@, pattern@, Seq::empty(), subst_value(r)),
        r matches Some(v) ==> well_formed(subst_values(v@)) && all_within(
            subst_values(v@),
            names_in(term@).union(names_in(pattern@)),
        ),
{
    let mut subst: Vec<(String, Atom)> = Vec::new();
    let ghost vars = names_in(term@).union(names_in(pattern@));
    proof {
        lemma_names(term@);
        lemma_names(pattern@);
        assert(subst_values(subst@) =~= Seq::empty());
    }
    if unify_with_subst(term, pattern, &mut subst, Ghost(vars)) {
        Some(subst)
    } else {
        None
    }
}

/// Whether an atom holds a definition `(= head body)`.
pub open spec fn has_equation(a: AtomV) -> bool
    decreases a,
{
    match a {
        AtomV::Expr(items) => is_equation(items) || exists|i: int|
            0 <= i < items.len() && has_equation(#[trigger] items[i]),
        _ => false,
    }
}

/// Definitions stay when variables are replaced.
proof fn lemma_equation_stays(a: AtomV, m: Map<Seq<char>, AtomV>)
    requires
        has_equation(a),
    ensures
        has_equation(applied(a, m)),
    decreases a,
{
    reveal_strlit("=");
    reveal_strlit("true");
    reveal_strlit("false");
    if let AtomV::Expr(items) = a {
        let out = all_applied(items, m);
        if is_equation(items) {
            assert(!is_var_name(canonical_name("="@)));
            assert(out[0] == applied(items[0], m));
            assert(is_equation(out));
        } else {
            let i = choose|i: int| 0 <= i < items.len() && has_equation(#[trigger] items[i]);
            lemma_equation_stays(items[i], m);
            assert(out[i] == applied(items[i], m));
            assert(AtomV::Expr(out)->Expr_0[i] == out[i]);
        }
    }
}

/// Whether an atom is a pattern in which a definition stands for itself or for
/// its head.
pub open spec fn alike(a: AtomV, pattern: AtomV) -> bool
    decreases pattern,
{
    a == pattern || match pattern {
        AtomV::Expr(ys) => {
            ||| is_equation(ys) && alike(a, ys[1])
            ||| a is Expr && a->Expr_0.len() == ys.len() && forall|i: int|
                0 <= i < ys.len() ==> alike(a->Expr_0[i], #[trigger] ys[i])
        },
        _ => false,
    }
}

/// A definition stays one when variables are replaced.
proof fn lemma_head_stays(ys: Seq<AtomV>, m: Map<Seq<char>, AtomV>)
    requires
        is_equation(ys),
    ensures
        is_equation(all_applied(ys, m)),
        all_applied(ys, m)[1] == applied(ys[1], m),
{
    reveal_strlit("=");
    reveal_strlit("true");
    reveal_strlit("false");
    assert(!is_var_name(canonical_name("="@)));
    assert(all_applied(ys, m)[0] == applied(ys[0], m));
}

/// Replacing variables keeps an atom and a pattern alike.
proof fn lemma_alike_stays(a: AtomV, pattern: AtomV, m: Map<Seq<char>, AtomV>)
    requires
        alike(a, pattern),
    ensures
        alike(applied(a, m), applied(pattern, m)),
    decreases pattern,
{
    if a != pattern {
        if let AtomV::Expr(ys) = pattern {
            let out = all_applied(ys, m);
            if is_equation(ys) && alike(a, ys[1]) {
                lemma_head_stays(ys, m);
                lemma_alike_stays(a, ys[1], m);
            } else {
                let xs = a->Expr_0;
                assert forall|i: int| 0 <= i < out.len() implies alike(
                    all_applied(xs, m)[i],
                    #[trigger] out[i],
                ) by {
                    assert(alike(xs[i], ys[i]));
                    lemma_alike_stays(xs[i], ys[i], m);
                }
                assert(applied(a, m) == AtomV::Expr(all_applied(xs, m)));
            }
        }
    }
}

/// An atom that is alike a pattern without definitions is that pattern.
pub proof fn alike_without_definitions(a: AtomV, pattern: AtomV)
    requires
        alike(a, pattern),
        !has_equation(pattern),
    ensures
        a == pattern,
    decreases pattern,
{
    if a != pattern {
        if let AtomV::Expr(ys) = pattern {
            assert forall|i: int| 0 <= i < ys.len() implies a->Expr_0[i] == #[trigger] ys[i] by {
                assert(pattern->Expr_0[i] == ys[i]);
                alike_without_definitions(a->Expr_0[i], ys[i]);
            }
            assert(a->Expr_0 =~= ys);
        }
    }
}

/// Whether unification takes a definition in the pattern for its head.
pub open spec fn takes_heads(depth: nat, term: AtomV, pattern: AtomV, s: SubstV) -> bool
    decreases depth, 0nat,
{
    let a = resolved(s, term);
    let b = resolved(s, pattern);
    depth > 0 && !is_variable(a) && !is_variable(b) && a is Expr && b is Expr && (is_equation(
        b->Expr_0,
    ) || (a->Expr_0.len() == b->Expr_0.len() && some_takes_heads(
        (depth - 1) as nat,
        a->Expr_0,
        b->Expr_0,
        s,
    )))
}

/// Whether unification from left to right takes a definition for its head.
pub open spec fn some_takes_heads(depth: nat, xs: Seq<AtomV>, ys: Seq<AtomV>, s: SubstV) -> bool
    decreases depth, xs.len(),
{
    xs.len() > 0 && (some_takes_heads(depth, xs.drop_last(), ys.drop_last(), s) || (
    all_unified(depth, xs.drop_last(), ys.drop_last(), s) matches Some(Some(t)) && takes_heads(
        depth,
        xs.last(),
        ys.last(),
        t,
    )))
}

/// More bindings are replacements after the others.
proof fn lemma_more_bindings(s: SubstV, t: SubstV, a: AtomV, b: AtomV)
    requires
        well_formed(t),
        extends(s, t),
    ensures
        well_formed(s),
        applied(a, solved(s)) == applied(b, solved(s)) ==> applied(a, solved(t)) == applied(
            b,
            solved(t),
        ),
        has_equation(applied(a, solved(s))) ==> has_equation(applied(a, solved(t))),
        alike(applied(a, solved(s)), applied(b, solved(s))) ==> alike(
            applied(a, solved(t)),
            applied(b, solved(t)),
        ),
    decreases t.len(),
{
    if s.len() == t.len() {
        assert(t.take(s.len() as int) =~= t);
    } else {
        let before = t.drop_last();
        assert(before.take(s.len() as int) =~= t.take(s.len() as int));
        lemma_more_bindings(s, before, a, b);
        let (x, u) = t.last();
        let m = solved(before);
        lemma_extended(a, m, x, applied(u, m));
        lemma_extended(b, m, x, applied(u, m));
        if has_equation(applied(a, m)) {
            lemma_equation_stays(applied(a, m), only(x, applied(u, m)));
        }
        if alike(applied(a, m), applied(b, m)) {
            lemma_alike_stays(applied(a, m), applied(b, m), only(x, applied(u, m)));
        }
    }
}

/// Extending twice is extending.
proof fn lemma_extends_chain(s: SubstV, t: SubstV, u: SubstV)
    requires
        extends(s, t),
        extends(t, u),
    ensures
        extends(s, u),
{
    assert(u.take(s.len() as int) =~= u.take(t.len() as int).take(s.len() as int));
}

/// What a variable is bound to is what it stands for.
proof fn lemma_bound(s: SubstV, x: Seq<char>, t: AtomV)
    requires
        well_formed(s.push((x, t))),
    ensures
        applied(AtomV::Sym(x), solved(s.push((x, t)))) == applied(t, solved(s.push((x, t)))),
{
    let all = s.push((x, t));
    assert(all.drop_last() =~= s);
    let m = solved(s);
    let full = applied(t, m);
    lemma_extended(t, m, x, full);
    assert forall|y: Seq<char>| only(x, full).contains_key(y) implies !(#[trigger] occurs(
        y,
        full,
    )) by {
        assert(y == x);
    }
    lemma_applied_absent(full, only(x, full));
}

/// Under the substitution that unification leaves, the two atoms stand for the
/// same, unless a definition in the pattern was taken for its head; and in any
/// case they are alike, with definitions standing for themselves or their heads.
/// A definition can be taken for its head only where the pattern comes to hold
/// one.
pub proof fn unification_solves(depth: nat, term: AtomV, pattern: AtomV, s: SubstV, out: SubstV)
    requires
        well_formed(s),
        unified(depth, term, pattern, s) == Some(Some(out)),
    ensures
        well_formed(out),
        extends(s, out),
        alike(applied(term, solved(out)), applied(pattern, solved(out))),
        !takes_heads(depth, term, pattern, s) ==> applied(term, solved(out)) == applied(
            pattern,
            solved(out),
        ),
        takes_heads(depth, term, pattern, s) ==> has_equation(applied(pattern, solved(out))),
    decreases depth, 0nat,
{
    let a = resolved(s, term);
    let b = resolved(s, pattern);
    lemma_resolved(s, term);
    lemma_resolved(s, pattern);
    assert(s.take(s.len() as int) =~= s);
    if is_variable(a) && a == b {
    } else if is_variable(a) {
        lemma_bind(s, a->Sym_0, b);
        assert(out.take(s.len() as int) =~= s);
        lemma_bound(s, a->Sym_0, b);
        lemma_more_bindings(s, out, a, term);
        lemma_more_bindings(s, out, b, pattern);
    } else if is_variable(b) {
        lemma_bind(s, b->Sym_0, a);
        assert(out.take(s.len() as int) =~= s);
        lemma_bound(s, b->Sym_0, a);
        lemma_more_bindings(s, out, a, term);
        lemma_more_bindings(s, out, b, pattern);
    } else {
        match (a, b) {
            (AtomV::Expr(xs), AtomV::Expr(ys)) => {
                let d = (depth - 1) as nat;
                let m = solved(out);
                if is_equation(ys) {
                    unification_solves(d, a, ys[1], s, out);
                    lemma_more_bindings(s, out, a, term);
                    lemma_more_bindings(s, out, b, pattern);
                    lemma_equation_stays(b, m);
                    lemma_head_stays(ys, m);
                    assert(alike(applied(a, m), AtomV::Expr(all_applied(ys, m))));
                } else {
                    lemma_all_solve(d, xs, ys, s, out);
                    lemma_more_bindings(s, out, a, term);
                    lemma_more_bindings(s, out, b, pattern);
                    let p = all_applied(ys, m);
                    let q = all_applied(xs, m);
                    assert(applied(b, m) == AtomV::Expr(p));
                    assert(applied(a, m) == AtomV::Expr(q));
                    assert forall|i: int| 0 <= i < p.len() implies alike(q[i], #[trigger] p[i]) by {
                        assert(alike(applied(xs[i], m), applied(ys[i], m)));
                    }
                    if takes_heads(depth, term, pattern, s) {
                        let i = choose|i: int|
                            0 <= i < ys.len() && has_equation(applied(#[trigger] ys[i], m));
                        assert(p[i] == applied(ys[i], m));
                        assert(AtomV::Expr(p)->Expr_0[i] == p[i]);
                    } else {
                        assert(q =~= p);
                    }
                }
            },
            _ => {},
        }
    }
}

/// The same for lists of atoms.
proof fn lemma_all_solve(depth: nat, xs: Seq<AtomV>, ys: Seq<AtomV>, s: SubstV, out: SubstV)
    requires
        well_formed(s),
        xs.len() == ys.len(),
        all_unified(depth, xs, ys, s) == Some(Some(out)),
    ensures
        well_formed(out),
        extends(s, out),
        forall|i: int|
            0 <= i < xs.len() ==> alike(
                applied(#[trigger] xs[i], solved(out)),
                applied(ys[i], solved(out)),
            ),
        !some_takes_heads(depth, xs, ys, s) ==> (forall|i: int|
            0 <= i < xs.len() ==> applied(#[trigger] xs[i], solved(out)) == applied(
                ys[i],
                solved(out),
            )),
        some_takes_heads(depth, xs, ys, s) ==> exists|i: int|
            0 <= i < ys.len() && has_equation(applied(#[trigger] ys[i], solved(out))),
    decreases depth, xs.len(),
{
    assert(s.take(s.len() as int) =~= s);
    if xs.len() > 0 {
        let xb = xs.drop_last();
        let yb = ys.drop_last();
        let n = xs.len() - 1;
        let mid = all_unified(depth, xb, yb, s)->Some_0->Some_0;
        lemma_all_solve(depth, xb, yb, s, mid);
        unification_solves(depth, xs.last(), ys.last(), mid, out);
        lemma_extends_chain(s, mid, out);
        assert(xs[n] == xs.last() && ys[n] == ys.last());
        assert forall|i: int| 0 <= i < xs.len() implies alike(
            applied(#[trigger] xs[i], solved(out)),
            applied(ys[i], solved(out)),
        ) by {
            if i < n {
                assert(xb[i] == xs[i] && yb[i] == ys[i]);
                lemma_more_bindings(mid, out, xs[i], ys[i]);
            }
        }
        if some_takes_heads(depth, xb, yb, s) {
            let i = choose|i: int|
                0 <= i < yb.len() && has_equation(applied(#[trigger] yb[i], solved(mid)));
            assert(ys[i] == yb[i]);
            lemma_more_bindings(mid, out, ys[i], ys[i]);
        } else if takes_heads(depth, xs.last(), ys.last(), mid) {
            assert(has_equation(applied(ys[n], solved(out))));
        } else {
            assert forall|i: int| 0 <= i < xs.len() implies applied(#[trigger] xs[i], solved(out))
                == applied(ys[i], solved(out)) by {
                if i < n {
                    assert(xb[i] == xs[i] && yb[i] == ys[i]);
                    assert(applied(xb[i], solved(mid)) == applied(yb[i], solved(mid)));
                    lemma_more_bindings(mid, out, xs[i], ys[i]);
                }
            }
        }
    }
}

/// Unification binds variables of the two atoms, and to what is made of names of
/// the two atoms, as far as the substitution it starts from does.
pub proof fn unification_binds_own_names(
    depth: nat,
    term: AtomV,
    pattern: AtomV,
    s: SubstV,
    out: SubstV,
    vars: Set<Seq<char>>,
)
    requires
        well_formed(s),
        unified(depth, term, pattern, s) == Some(Some(out)),
        within(term, vars),
        within(pattern, vars),
        all_within(s, vars),
    ensures
        all_within(out, vars),
        forall|i: int| 0 <= i < out.len() ==> is_var_name((#[trigger] out[i]).0),
    decreases depth, 0nat,
{
    unification_solves(depth, term, pattern, s, out);
    lemma_bound_variables(out);
    let a = resolved(s, term);
    let b = resolved(s, pattern);
    lemma_resolved_within(s, term, vars);
    lemma_resolved_within(s, pattern, vars);
    if is_variable(a) && a == b {
    } else if is_variable(a) {
        assert(occurs(a->Sym_0, a));
    } else if is_variable(b) {
        assert(occurs(b->Sym_0, b));
    } else {
        match (a, b) {
            (AtomV::Expr(xs), AtomV::Expr(ys)) => {
                let d = (depth - 1) as nat;
                if is_equation(ys) {
                    lemma_items_within(ys, vars, 1);
                    unification_binds_own_names(d, a, ys[1], s, out, vars);
                } else {
                    assert forall|i: int| 0 <= i < xs.len() implies within(
                        #[trigger] xs[i],
                        vars,
                    ) by {
                        lemma_items_within(xs, vars, i);
                    }
                    assert forall|i: int| 0 <= i < ys.len() implies within(
                        #[trigger] ys[i],
                        vars,
                    ) by {
                        lemma_items_within(ys, vars, i);
                    }
                    lemma_all_bind_own_names(d, xs, ys, s, out, vars);
                }
            },
            _ => {},
        }
    }
}

/// The same for lists of atoms.
proof fn lemma_all_bind_own_names(
    depth: nat,
    xs: Seq<AtomV>,
    ys: Seq<AtomV>,
    s: SubstV,
    out: SubstV,
    vars: Set<Seq<char>>,
)
    requires
        well_formed(s),
        xs.len() == ys.len(),
        all_unified(depth, xs, ys, s) == Some(Some(out)),
        forall|i: int| 0 <= i < xs.len() ==> within(#[trigger] xs[i], vars),
        forall|i: int| 0 <= i < ys.len() ==> within(#[trigger] ys[i], vars),
        all_within(s, vars),
    ensures
        all_within(out, vars),
    decreases depth, xs.len(),
{
    if xs.len() > 0 {
        let xb = xs.drop_last();
        let yb = ys.drop_last();
        let mid = all_unified(depth, xb, yb, s)->Some_0->Some_0;
        assert forall|i: int| 0 <= i < xb.len() implies within(#[trigger] xb[i], vars) by {
            assert(xb[i] == xs[i]);
        }
        assert forall|i: int| 0 <= i < yb.len() implies within(#[trigger] yb[i], vars) by {
            assert(yb[i] == ys[i]);
        }
        lemma_all_bind_own_names(depth, xb, yb, s, mid, vars);
        lemma_all_solve(depth, xb, yb, s, mid);
        assert(within(xs[xs.len() - 1], vars) && within(ys[ys.len() - 1], vars));
        unification_binds_own_names(depth, xs.last(), ys.last(), mid, out, vars);
    }
}

/// What a substitution in order binds are variables.
proof fn lemma_bound_variables(s: SubstV)
    requires
        well_formed(s),
    ensures
        forall|i: int| 0 <= i < s.len() ==> is_var_name((#[trigger] s[i]).0),
    decreases s.len(),
{
    if s.len() > 0 {
        lemma_bound_variables(s.drop_last());
        assert forall|i: int| 0 <= i < s.len() implies is_var_name((#[trigger] s[i]).0) by {
            if i < s.len() - 1 {
                assert(s.drop_last()[i] == s[i]);
            }
        }
    }
}

} // verus!
