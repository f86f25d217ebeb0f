//! Spaces: ordered collections of atoms.
//!
//! A space is named by a symbol such as `&self`. A definition
//! `(= (name patterns...) body)` added to a space also becomes a clause of the
//! function, and removing it takes the clause away again.
use crate::atom::Atom;
use crate::atom::AtomV;
use crate::atom::atom_same;
use crate::atom::atoms;
use crate::atom::exprs_same;
use crate::atom::group_atoms;
use crate::atom::sexpr;
use crate::compile::compile_definition;
use crate::compile::definitions::Definition;
use crate::compile::named_definition;
use crate::compile::reify::atom_to_expr;
use crate::compile::reify::expr_to_atom;
use crate::compile::reify::to_atom;
use crate::compile::reify::to_expr;
use crate::env::Binding;
use crate::env::Env;
use crate::env::EnvV;
use crate::env::bindings;
use crate::env::first_bound;
use crate::env::pairs;
use crate::eval::shared::subst::expr_followed;
use crate::eval::shared::subst::follow_expr_vars;
use crate::expr::Expr;
use crate::expr::ExprV;
use crate::expr::expr_same;
use crate::expr::exprs;
use crate::expr::group_exprs;
use crate::func::Clause;
use crate::func::ClauseV;
use crate::func::FnTable;
use crate::func::TableV;
use crate::func::clauses;
use crate::func::copy_clauses;
use crate::text::is_var;
use crate::text::is_var_name;
use crate::text::joined;
use crate::text::same;
use std::sync::Arc;
use vstd::prelude::*;
use vstd::string::*;

verus! {

/// The name of the space that an atom refers to.
pub open spec fn space_name(space_ref: AtomV) -> Result<Seq<char>, Seq<char>> {
    match space_ref {
        AtomV::Sym(s) => Ok(s),
        other => Err("expected space, got "@ + sexpr(other)),
    }
}

/// Take the name of the space that an atom refers to.
pub fn resolve_space(space_ref: &Atom) -> (r: Result<String, String>)
    ensures
        (match r {
            Ok(n) => space_name(space_ref@) == Ok::<Seq<char>, Seq<char>>(n@),
            Err(e) => space_name(space_ref@) == Err::<Seq<char>, Seq<char>>(e@),
        }),
{
    match space_ref {
        Atom::Sym(s) => Ok(s.clone()),
        other => {
            let t = other.to_sexpr_string();
            Err(joined("expected space, got ", t.as_str()))
        },
    }
}

/// The number of arguments of a definition, as functions are keyed by it.
pub open spec fn definition_arity(d: Definition) -> u8 {
    d.1.len() as u8
}

/// The table after an atom was added to a space.
pub open spec fn with_atom(t: TableV, name: Seq<char>, a: AtomV) -> TableV {
    let added = t.with_space(name, t.space(name).push(a));
    match named_definition(to_expr(a)) {
        Ok(d) => added.with_clause(
            d.0,
            definition_arity(d),
            ClauseV { patterns: d.1, body: d.2 },
        ),
        Err(_) => added,
    }
}

/// Add an atom to a space.
pub fn add_atom(table: &mut FnTable, space_ref: &Atom, atom: &Atom) -> (r: Result<(), String>)
    ensures
        (match space_name(space_ref@) {
            Ok(n) => r is Ok && final(table)@ == with_atom(old(table)@, n, atom@),
            Err(e) => r is Err && r->Err_0@ == e && final(table)@ == old(table)@,
        }),
{
    broadcast use {group_atoms, group_exprs};

    let name = match resolve_space(space_ref) {
        Ok(n) => n,
        Err(e) => {
            return Err(e);
        },
    };
    let mut list = table.space_atoms(name.as_str());
    list.push(atom.clone());
    table.set_space(name.as_str(), list);
    match atom_to_expr(atom) {
        Ok(e) => match compile_definition(&e) {
            Ok((fname, clause)) => {
                let arity: u8 = clause.patterns.len() as u8;
                assert(exprs(clause.patterns@).len() == clause.patterns@.len());
                table.cache_fn(fname.as_str(), arity, clause);
            },
            Err(_) => {},
        },
        Err(_) => {},
    }
    Ok(())
}

/// Several atoms added one after the other.
pub open spec fn with_atoms(t: TableV, name: Seq<char>, list: Seq<AtomV>) -> TableV
    decreases list.len(),
{
    if list.len() == 0 {
        t
    } else {
        with_atom(with_atoms(t, name, list.drop_last()), name, list.last())
    }
}

/// Add several atoms to a space.
pub fn add_atoms_bulk(table: &mut FnTable, space_ref: &Atom, list: &Vec<Atom>) -> (r: Result<
    (),
    String,
>)
    ensures
        (match space_name(space_ref@) {
            Ok(n) => r is Ok && final(table)@ == with_atoms(old(table)@, n, atoms(list@)),
            Err(e) => (r matches Err(m) ==> m@ == e) && final(table)@ == old(table)@,
        }),
        r is Err == (space_name(space_ref@) is Err && list@.len() > 0),
{
    broadcast use group_atoms;

    let mut i: usize = 0;
    let ghost xs = atoms(list@);
    assert(xs.take(0) =~= Seq::<AtomV>::empty());
    while i < list.len()
        invariant
            i <= list@.len(),
            xs == atoms(list@),
            space_name(space_ref@) matches Ok(n) ==> table@ == with_atoms(
                old(table)@,
                n,
                xs.take(i as int),
            ),
            space_name(space_ref@) is Err ==> i == 0 && table@ == old(table)@,
        decreases list@.len() - i,
    {
        match add_atom(table, space_ref, &list[i]) {
            Ok(_) => {},
            Err(e) => {
                return Err(e);
            },
        }
        assert(xs.take(i + 1).drop_last() =~= xs.take(i as int));
        i += 1;
    }
    assert(xs.take(list@.len() as int) =~= xs);
    Ok(())
}

/// A sequence without the first occurrence of an element.
pub open spec fn without_first<T>(s: Seq<T>, x: T) -> Seq<T>
    decreases s.len(),
{
    if s.len() == 0 {
        s
    } else if s[0] == x {
        s.drop_first()
    } else {
        seq![s[0]] + without_first(s.drop_first(), x)
    }
}

/// Before the first occurrence, nothing changes.
pub proof fn lemma_without_first<T>(s: Seq<T>, x: T, n: int)
    requires
        0 <= n < s.len(),
        s[n] == x,
        forall|i: int| 0 <= i < n ==> s[i] != x,
    ensures
        without_first(s, x) == s.remove(n),
        s.contains(x),
    decreases n,
{
    if n == 0 {
        assert(s.remove(0) =~= s.drop_first());
    } else {
        lemma_without_first(s.drop_first(), x, n - 1);
        assert(s.remove(n) =~= seq![s[0]] + s.drop_first().remove(n - 1));
    }
}

/// Where an element does not occur, nothing changes.
proof fn lemma_without_absent<T>(s: Seq<T>, x: T)
    requires
        forall|i: int| 0 <= i < s.len() ==> s[i] != x,
    ensures
        without_first(s, x) == s,
    decreases s.len(),
{
    if s.len() > 0 {
        lemma_without_absent(s.drop_first(), x);
        assert(seq![s[0]] + s.drop_first() =~= s);
    }
}

/// The table after the first occurrence of an atom was taken out of a space.
pub open spec fn without_atom(t: TableV, name: Seq<char>, a: AtomV) -> TableV {
    if !t.space(name).contains(a) {
        t
    } else {
        let gone = t.with_space(name, without_first(t.space(name), a));
        match named_definition(to_expr(a)) {
            Ok(d) => match gone.clauses_of(d.0, definition_arity(d)) {
                Some(cs) => gone.with_clauses(
                    d.0,
                    definition_arity(d),
                    without_first(cs, ClauseV { patterns: d.1, body: d.2 }),
                ),
                None => gone,
            },
            Err(_) => gone,
        }
    }
}

/// Take a clause out of a list of clauses.
fn drop_clause(list: &Vec<Clause>, clause: &Clause) -> (r: Vec<Clause>)
    ensures
        clauses(r@) == without_first(clauses(list@), clause@),
{
    let mut out = copy_clauses(list);
    let ghost cs = clauses(list@);
    assert(clauses(out@).len() == out@.len() && cs.len() == list@.len());
    let mut i: usize = 0;
    while i < out.len()
        invariant
            i <= out@.len(),
            cs == clauses(list@),
            clauses(out@) == cs,
            out@.len() == cs.len(),
            forall|j: int| 0 <= j < i ==> cs[j] != clause@,
        decreases out@.len() - i,
    {
        assert(cs[i as int] == out@[i as int]@);
        if exprs_same(&out[i].patterns, &clause.patterns) && expr_same(&out[i].body, &clause.body) {
            proof {
                lemma_without_first(cs, clause@, i as int);
            }
            let ghost before = out@;
            let gone = out.remove(i);
            assert(clauses(out@) =~= clauses(before).remove(i as int));
            return out;
        }
        i += 1;
    }
    proof {
        lemma_without_absent(cs, clause@);
    }
    out
}

/// Remove an atom from a space; the answer says whether it was there.
pub fn remove_atom(table: &mut FnTable, space_ref: &Atom, atom: &Atom) -> (r: Result<bool, String>)
    ensures
        (match space_name(space_ref@) {
            Ok(n) => r is Ok && r->Ok_0 == old(table)@.space(n).contains(atom@) && final(table)@
                == without_atom(old(table)@, n, atom@),
            Err(e) => r is Err && r->Err_0@ == e && final(table)@ == old(table)@,
        }),
{
    broadcast use {group_atoms, group_exprs};

    let name = match resolve_space(space_ref) {
        Ok(n) => n,
        Err(e) => {
            return Err(e);
        },
    };
    let mut list = table.space_atoms(name.as_str());
    let ghost xs = atoms(list@);
    let mut i: usize = 0;
    while i < list.len()
        invariant
            i <= list@.len(),
            xs == atoms(list@),
            xs == old(table)@.space(name@),
            space_name(space_ref@) == Ok::<Seq<char>, Seq<char>>(name@),
            table@ == old(table)@,
            forall|j: int| 0 <= j < i ==> xs[j] != atom@,
        decreases list@.len() - i,
    {
        if atom_same(&list[i], atom) {
            proof {
                lemma_without_first(xs, atom@, i as int);
            }
            let gone = list.remove(i);
            assert(atoms(list@) =~= xs.remove(i as int));
            table.set_space(name.as_str(), list);
            match atom_to_expr(atom) {
                Ok(e) => match compile_definition(&e) {
                    Ok((fname, clause)) => {
                        let arity: u8 = clause.patterns.len() as u8;
                        assert(exprs(clause.patterns@).len() == clause.patterns@.len());
                        let rest = match table.clauses_of(fname.as_str(), arity) {
                            Some(cs) => Some(drop_clause(cs, &clause)),
                            None => None,
                        };
                        match rest {
                            Some(cs) => {
                                table.set_clauses(fname.as_str(), arity, cs);
                            },
                            None => {},
                        }
                    },
                    Err(_) => {},
                },
                Err(_) => {},
            }
            return Ok(true);
        }
        i += 1;
    }
    proof {
        if xs.contains(atom@) {
            let k = choose|k: int| 0 <= k < xs.len() && xs[k] == atom@;
            assert(xs[k] != atom@);
        }
    }
    Ok(false)
}

/// Matching a pattern against an atom of a space: variables of the pattern bind
/// to what stands in their place, and have the same value wherever they occur.
pub open spec fn space_match(p: ExprV, a: AtomV, b: Seq<Binding>) -> Option<Seq<Binding>>
    decreases p,
{
    match p {
        ExprV::Symbol(s) => if is_var_name(s) {
            match first_bound(b, s) {
                Some(v) => if v == a {
                    Some(b)
                } else {
                    None
                },
                None => Some(b.push((s, a))),
            }
        } else if to_atom(p) == a {
            Some(b)
        } else {
            None
        },
        ExprV::List(items) => match a {
            AtomV::Expr(elements) => if items.len() == elements.len() {
                space_match_all(items, elements, b)
            } else {
                None
            },
            _ => None,
        },
        _ => if to_atom(p) == a {
            Some(b)
        } else {
            None
        },
    }
}

/// Matching patterns against atoms from left to right.
pub open spec fn space_match_all(ps: Seq<ExprV>, xs: Seq<AtomV>, b: Seq<Binding>) -> Option<
    Seq<Binding>,
>
    decreases ps,
{
    if ps.len() == 0 {
        Some(b)
    } else {
        match space_match_all(ps.drop_last(), xs.drop_last(), b) {
            Some(c) => space_match(ps.last(), xs.last(), c),
            None => None,
        }
    }
}

/// Once a prefix fails, so does the whole.
proof fn lemma_space_match_stops(ps: Seq<ExprV>, xs: Seq<AtomV>, b: Seq<Binding>, n: int)
    requires
        0 <= n <= ps.len(),
        ps.len() == xs.len(),
        space_match_all(ps.take(n), xs.take(n), b) is None,
    ensures
        space_match_all(ps, xs, b) is None,
    decreases ps.len() - n,
{
    if n == ps.len() {
        assert(ps.take(n) =~= ps);
        assert(xs.take(n) =~= xs);
    } else {
        assert(ps.take(n + 1).drop_last() =~= ps.take(n));
        assert(xs.take(n + 1).drop_last() =~= xs.take(n));
        lemma_space_match_stops(ps, xs, b, n + 1);
    }
}

/// The first value of a name among bindings.
fn find_bound(list: &Vec<(String, Arc<Atom>)>, name: &str) -> (r: Option<Atom>)
    ensures
        (match r {
            Some(a) => first_bound(pairs(list@), name@) == Some(a@),
            None => first_bound(pairs(list@), name@) is None,
        }),
{
    let ghost b = pairs(list@);
    let mut i: usize = 0;
    assert(b.skip(0) =~= b);
    while i < list.len()
        invariant
            i <= list@.len(),
            b == pairs(list@),
            first_bound(b.skip(i as int), name@) == first_bound(b, name@),
        decreases list@.len() - i,
    {
        assert(b.skip(i as int).drop_first() =~= b.skip(i + 1));
        assert(b.skip(i as int)[0] == b[i as int]);
        if same(list[i].0.as_str(), name) {
            return Some((*list[i].1).clone());
        }
        i += 1;
    }
    None
}

/// Match a pattern against an atom of a space, adding to the bindings.
pub fn match_atom(pattern: &Expr, atom: &Atom, out: &mut Vec<(String, Arc<Atom>)>) -> (r: bool)
    ensures
        (match space_match(pattern@, atom@, pairs(old(out)@)) {
            Some(b) => r && pairs(final(out)@) == b,
            None => !r,
        }),
    decreases pattern,
{
    broadcast use {group_atoms, group_exprs};

    match pattern {
        Expr::Symbol(s) => {
            if is_var(s.as_str()) {
                match find_bound(out, s.as_str()) {
                    Some(v) => atom_same(&v, atom),
                    None => {
                        let ghost before = out@;
                        out.push((s.clone(), Arc::new(atom.clone())));
                        assert(pairs(out@) =~= pairs(before).push((s@, atom@)));
                        true
                    },
                }
            } else {
                let a = expr_to_atom(pattern);
                atom_same(&a, atom)
            }
        },
        Expr::List(items) => match atom {
            Atom::Expr(elements) => {
                if items.len() != elements.len() {
                    return false;
                }
                let ghost ps = exprs(items@);
                let ghost xs = atoms(elements@);
                let ghost b0 = pairs(out@);
                let mut i: usize = 0;
                assert(ps.take(0) =~= Seq::<ExprV>::empty());
                while i < items.len()
                    invariant
                        i <= items@.len(),
                        items@.len() == elements@.len(),
                        *pattern == Expr::List(*items),
                        *atom == Atom::Expr(*elements),
                        ps == exprs(items@),
                        xs == atoms(elements@),
                        b0 == pairs(old(out)@),
                        space_match_all(ps.take(i as int), xs.take(i as int), b0) == Some(
                            pairs(out@),
                        ),
                    decreases items@.len() - i,
                {
                    assert(decreases_to!(pattern => pattern->List_0@[i as int]));
                    assert(ps.take(i + 1).drop_last() =~= ps.take(i as int));
                    assert(xs.take(i + 1).drop_last() =~= xs.take(i as int));
                    if !match_atom(&items[i], &elements[i], out) {
                        proof {
                            lemma_space_match_stops(ps, xs, b0, i + 1);
                        }
                        return false;
                    }
                    i += 1;
                }
                assert(ps.take(i as int) =~= ps);
                assert(xs.take(i as int) =~= xs);
                true
            },
            _ => false,
        },
        _ => {
            let a = expr_to_atom(pattern);
            atom_same(&a, atom)
        },
    }
}

/// One match in a space: the atom and the bindings of the pattern's variables.
pub struct MatchResult {
    /// The atom that matched.
    pub atom: Atom,
    /// The bindings, in the order of first occurrence.
    pub bindings: Vec<(String, Arc<Atom>)>,
}

/// The value of a match.
pub type FoundV = (AtomV, Seq<Binding>);

/// The values of matches.
pub open spec fn found_values(s: Seq<MatchResult>) -> Seq<FoundV> {
    Seq::new(s.len(), |i: int| (s[i].atom@, pairs(s[i].bindings@)))
}

/// The matches of a pattern among atoms, in their order.
pub open spec fn found_in(p: ExprV, xs: Seq<AtomV>) -> Seq<FoundV>
    decreases xs.len(),
{
    if xs.len() == 0 {
        Seq::empty()
    } else {
        let before = found_in(p, xs.drop_last());
        match space_match(p, xs.last(), Seq::empty()) {
            Some(b) => before.push((xs.last(), b)),
            None => before,
        }
    }
}

/// Match a pattern against every atom of a list.
pub fn match_atoms(pattern: &Expr, list: &Vec<Atom>) -> (r: Vec<MatchResult>)
    ensures
        found_values(r@) == found_in(pattern@, atoms(list@)),
{
    broadcast use group_atoms;

    let mut out: Vec<MatchResult> = Vec::new();
    let ghost xs = atoms(list@);
    let mut i: usize = 0;
    assert(found_values(out@) =~= found_in(pattern@, xs.take(0)));
    while i < list.len()
        invariant
            i <= list@.len(),
            xs == atoms(list@),
            found_values(out@) == found_in(pattern@, xs.take(i as int)),
        decreases list@.len() - i,
    {
        let mut found: Vec<(String, Arc<Atom>)> = Vec::new();
        assert(pairs(found@) =~= Seq::<Binding>::empty());
        assert(xs.take(i + 1).drop_last() =~= xs.take(i as int));
        if match_atom(pattern, &list[i], &mut found) {
            let ghost before = out@;
            out.push(MatchResult { atom: list[i].clone(), bindings: found });
            assert(found_values(out@) =~= found_values(before).push((xs[i as int], pairs(found@))));
        }
        i += 1;
    }
    assert(xs.take(list@.len() as int) =~= xs);
    out
}

/// The matches of a pattern in a space, with the pattern's bound variables
/// replaced first.
pub open spec fn matches_in(t: TableV, space_ref: AtomV, p: ExprV, env: EnvV) -> Result<
    Seq<FoundV>,
    Seq<char>,
> {
    match space_name(space_ref) {
        Ok(n) => Ok(found_in(expr_followed(p, env), t.space(n))),
        Err(e) => Err(e),
    }
}

/// Collect the matches of a pattern in a space.
pub fn collect_match_results(
    table: &FnTable,
    space_ref: &Atom,
    pattern: &Expr,
    env: &Env,
) -> (r: Result<Vec<MatchResult>, String>)
    ensures
        (match r {
            Ok(v) => matches_in(table@, space_ref@, pattern@, env@) == Ok::<
                Seq<FoundV>,
                Seq<char>,
            >(found_values(v@)),
            Err(e) => matches_in(table@, space_ref@, pattern@, env@) == Err::<
                Seq<FoundV>,
                Seq<char>,
            >(e@),
        }),
{
    match resolve_space(space_ref) {
        Ok(n) => {
            let p = follow_expr_vars(pattern, env);
            let list = table.space_atoms(n.as_str());
            Ok(match_atoms(&p, &list))
        },
        Err(e) => Err(e),
    }
}

/// Adding an atom that is no definition to a space and removing it again when
/// it was not there before leaves the space as it was.
pub proof fn add_then_remove(t: TableV, name: Seq<char>, a: AtomV)
    requires
        !t.space(name).contains(a),
        named_definition(to_expr(a)) is Err,
    ensures
        without_atom(with_atom(t, name, a), name, a).space(name) == t.space(name),
{
    let xs = t.space(name).push(a);
    assert(with_atom(t, name, a).space(name) =~= xs);
    lemma_without_first(xs, a, xs.len() - 1);
    assert(xs.remove(xs.len() - 1) =~= t.space(name));
}

/// A pattern that matches an atom finds it once it is added, behind what it
/// found before; a pattern that does not match finds what it found before.
pub proof fn added_is_found(t: TableV, name: Seq<char>, a: AtomV, p: ExprV)
    ensures
        found_in(p, with_atom(t, name, a).space(name)) == (match space_match(
            p,
            a,
            Seq::empty(),
        ) {
            Some(b) => found_in(p, t.space(name)).push((a, b)),
            None => found_in(p, t.space(name)),
        }),
{
    let xs = t.space(name).push(a);
    assert(with_atom(t, name, a).space(name) =~= xs);
    assert(xs.drop_last() =~= t.space(name));
}

/// Adding an atom to a space, or removing one, leaves the other spaces alone.
pub proof fn other_spaces_are_kept(t: TableV, name: Seq<char>, a: AtomV, other: Seq<char>)
    requires
        name != other,
    ensures
        with_atom(t, name, a).space(other) == t.space(other),
        without_atom(t, name, a).space(other) == t.space(other),
{
}

/// A sequence that does not hold an element is itself when it is pushed and
/// taken out again.
proof fn lemma_without_pushed<T>(s: Seq<T>, x: T)
    requires
        !s.contains(x),
    ensures
        without_first(s.push(x), x) == s,
{
    let xs = s.push(x);
    assert forall|i: int| 0 <= i < s.len() implies xs[i] != x by {
        assert(s.contains(s[i]));
    }
    lemma_without_first(xs, x, s.len() as int);
    assert(xs.remove(s.len() as int) =~= s);
}

/// Adding a definition and removing it again leaves the space and the clauses of
/// its function as they were, when neither held it before.
pub proof fn define_then_remove(t: TableV, name: Seq<char>, a: AtomV, d: Definition)
    requires
        named_definition(to_expr(a)) == Ok::<Definition, Seq<char>>(d),
        !t.space(name).contains(a),
        t.clauses_of(d.0, definition_arity(d)) matches Some(cs) ==> !cs.contains(
            ClauseV { patterns: d.1, body: d.2 },
        ),
    ensures
        ({
            let after = without_atom(with_atom(t, name, a), name, a);
            &&& after.space(name) == t.space(name)
            &&& after.clauses_of(d.0, definition_arity(d)) == Some(
                match t.clauses_of(d.0, definition_arity(d)) {
                    Some(cs) => cs,
                    None => Seq::empty(),
                },
            )
        }),
{
    let c = ClauseV { patterns: d.1, body: d.2 };
    let added = with_atom(t, name, a);
    let cs = match t.clauses_of(d.0, definition_arity(d)) {
        Some(cs) => cs,
        None => Seq::empty(),
    };
    assert(added.space(name) == t.space(name).push(a));
    assert(added.space(name).last() == a);
    assert(added.space(name).contains(a));
    lemma_without_pushed(t.space(name), a);
    lemma_without_pushed(cs, c);
}

} // verus!
