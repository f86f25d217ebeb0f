//! Fresh variable names.
//!
//! The unbound variables of a clause body are renamed to fresh runtime
//! variables before it runs, so that they do not meet variables of the caller.
use crate::atom::Atom;
use crate::atom::AtomV;
use crate::atom::atoms;
use crate::atom::group_atoms;
use crate::expr::Expr;
use crate::expr::ExprV;
use crate::expr::exprs;
use crate::expr::group_exprs;
use crate::expr::list2;
use crate::expr::list3;
use crate::expr::list4;
use crate::func::next_id;
use crate::text::chars_of;
use crate::text::is_var;
use crate::text::is_var_name;
use crate::text::joined3;
use crate::text::lemma_digits_are_digits;
use crate::text::lemma_nat_digits_injective;
use crate::text::nat_digits;
use crate::text::optional_text;
use crate::text::same;
use crate::text::text_between;
use crate::text::u64_text;
use rustc_hash::FxBuildHasher;
use rustc_hash::FxHashMap;
use rustc_hash::FxHashSet;
use std::sync::Arc;
use vstd::prelude::*;
use vstd::string::*;

verus! {

/// The hasher of `rustc_hash`'s maps and sets.
#[verifier::external_type_specification]
#[verifier::external_body]
pub struct ExFxBuildHasher(rustc_hash::FxBuildHasher);

/// What a map from names to names holds.
pub uninterp spec fn map_contents(m: FxHashMap<String, String>) -> Map<Seq<char>, Seq<char>>;

/// What a set of names holds.
pub uninterp spec fn set_contents(s: FxHashSet<String>) -> Set<Seq<char>>;

/// The map without entries.
pub open spec fn no_entries() -> Map<Seq<char>, Seq<char>> {
    Map::empty()
}

/// Make a map.
///
/// Calls `FxHashMap::default`; the map holds nothing.
#[verifier::external_body]
fn map_new() -> (r: FxHashMap<String, String>)
    ensures
        map_contents(r) == no_entries(),
{
    FxHashMap::default()
}

/// Copy a map.
///
/// Calls `FxHashMap::clone`; the copy holds what the map holds.
#[verifier::external_body]
fn map_copy(m: &FxHashMap<String, String>) -> (r: FxHashMap<String, String>)
    ensures
        map_contents(r) == map_contents(*m),
{
    m.clone()
}

/// What a map gives a key.
pub open spec fn map_value(m: Map<Seq<char>, Seq<char>>, key: Seq<char>) -> Option<Seq<char>> {
    if m.contains_key(key) {
        Some(m[key])
    } else {
        None
    }
}

/// Look up a name in a map.
///
/// Calls `FxHashMap::get`; a key is found exactly when the map holds it, with
/// the value it has there.
#[verifier::external_body]
fn map_get(m: &FxHashMap<String, String>, key: &str) -> (r: Option<String>)
    ensures
        optional_text(r) == map_value(map_contents(*m), key@),
{
    m.get(key).cloned()
}

/// Put a name into a map.
///
/// Calls `FxHashMap::insert`; the key has the value afterwards, and the other
/// keys are as before.
#[verifier::external_body]
fn map_put(m: &mut FxHashMap<String, String>, key: String, value: String)
    ensures
        map_contents(*final(m)) == map_contents(*old(m)).insert(key@, value@),
{
    m.insert(key, value);
}

/// Make a set.
///
/// Calls `FxHashSet::default`; the set holds nothing.
#[verifier::external_body]
fn set_new() -> (r: FxHashSet<String>)
    ensures
        set_contents(r) == Set::<Seq<char>>::empty(),
{
    FxHashSet::default()
}

/// Put a name into a set.
///
/// Calls `FxHashSet::insert`; the set holds the name afterwards, and otherwise
/// what it held before.
#[verifier::external_body]
fn set_put(s: &mut FxHashSet<String>, key: String)
    ensures
        set_contents(*final(s)) == set_contents(*old(s)).insert(key@),
{
    s.insert(key);
}

/// Look for a name in a set.
///
/// Calls `FxHashSet::contains`; the name is found exactly when the set holds
/// it.
#[verifier::external_body]
fn set_has(s: &FxHashSet<String>, key: &str) -> (r: bool)
    ensures
        r == set_contents(*s).contains(key@),
{
    s.contains(key)
}

/// A name without its leading `$`.
pub open spec fn hint_of(name: Seq<char>) -> Seq<char> {
    if is_var_name(name) {
        name.skip(1)
    } else {
        name
    }
}

/// The fresh name with a number.
pub open spec fn fresh_name(name: Seq<char>, id: u64) -> Seq<char> {
    "$__fresh_"@ + hint_of(name) + "_"@ + nat_digits(id as nat)
}

/// Make the fresh name with a number.
pub fn make_fresh_name(name: &str, id: u64) -> (r: String)
    ensures
        r@ == fresh_name(name@, id),
{
    let digits = u64_text(id);
    if is_var(name) {
        let v = chars_of(name);
        let hint = text_between(&v, 1, v.len());
        assert(hint@ =~= name@.skip(1));
        let mut out: String = joined3("$__fresh_", hint.as_str(), "_");
        out.append(digits.as_str());
        out
    } else {
        let mut out: String = joined3("$__fresh_", name, "_");
        out.append(digits.as_str());
        out
    }
}

/// Whether a name is a generated one: it starts with `$__fresh`.
pub open spec fn is_generated(s: Seq<char>) -> bool {
    s.len() >= 8 && s.take(8) == "$__fresh"@
}

/// Whether a name is a generated one.
pub fn is_generated_var_name(name: &str) -> (r: bool)
    ensures
        r == is_generated(name@),
{
    let v = chars_of(name);
    if v.len() < 8 {
        return false;
    }
    let start = text_between(&v, 0, 8);
    assert(start@ =~= name@.take(8));
    same(start.as_str(), "$__fresh")
}

/// Fresh names are generated names.
pub proof fn fresh_is_generated(name: Seq<char>, id: u64)
    ensures
        is_generated(fresh_name(name, id)),
        is_var_name(fresh_name(name, id)),
{
    reveal_strlit("$__fresh_");
    reveal_strlit("$__fresh");
    assert(fresh_name(name, id).take(8) =~= "$__fresh"@);
}

/// Fresh names with different numbers are different, whatever they are made
/// from.
pub proof fn fresh_names_differ(x: Seq<char>, y: Seq<char>, i: u64, j: u64)
    requires
        i != j,
    ensures
        fresh_name(x, i) != fresh_name(y, j),
{
    reveal_strlit("_");
    let a = nat_digits(i as nat);
    let b = nat_digits(j as nat);
    let p = "$__fresh_"@ + hint_of(x) + "_"@;
    let q = "$__fresh_"@ + hint_of(y) + "_"@;
    lemma_digits_are_digits(i as nat);
    lemma_digits_are_digits(j as nat);
    if fresh_name(x, i) == fresh_name(y, j) {
        let n = fresh_name(x, i);
        assert(n == p + a);
        assert(n == q + b);
        assert(n.len() == p.len() + a.len());
        assert(n.len() == q.len() + b.len());
        assert(n[p.len() - 1] == '_');
        assert(n[q.len() - 1] == '_');
        if a.len() < b.len() {
            let k = p.len() - 1 - q.len();
            assert(p.len() + a.len() == q.len() + b.len());
            assert(0 <= k < b.len());
            assert((q + b)[q.len() + k] == b[k]);
            assert('0' <= b[k] <= '9');
            assert(false);
        } else if b.len() < a.len() {
            let k = q.len() - 1 - p.len();
            assert(p.len() + a.len() == q.len() + b.len());
            assert(0 <= k < a.len());
            assert((p + a)[p.len() + k] == a[k]);
            assert('0' <= a[k] <= '9');
            assert(false);
        } else {
            assert(a =~= n.skip(p.len() as int));
            assert(b =~= n.skip(q.len() as int));
            lemma_nat_digits_injective(i as nat, j as nat);
        }
    }
}

/// Whether an atom holds a generated name.
pub open spec fn has_fresh(a: AtomV) -> bool
    decreases a,
{
    match a {
        AtomV::Sym(s) => is_generated(s),
        AtomV::Expr(items) => exists|i: int| 0 <= i < items.len() && has_fresh(#[trigger] items[i]),
        _ => false,
    }
}

/// Whether an atom holds a generated name.
pub fn contains_fresh_vars(atom: &Atom) -> (r: bool)
    ensures
        r == has_fresh(atom@),
    decreases atom,
{
    broadcast use group_atoms;

    match atom {
        Atom::Sym(s) => is_generated_var_name(s.as_str()),
        Atom::Expr(items) => {
            let ghost av = atoms(items@);
            let mut i: usize = 0;
            while i < items.len()
                invariant
                    i <= items@.len(),
                    *atom == Atom::Expr(*items),
                    av == atoms(items@),
                    forall|j: int| 0 <= j < i ==> !has_fresh(#[trigger] av[j]),
                decreases items@.len() - i,
            {
                assert(decreases_to!(atom => atom->Expr_0@[i as int]));
                if contains_fresh_vars(&items[i]) {
                    assert(atom@->Expr_0[i as int] == av[i as int]);
                    return true;
                }
                i += 1;
            }
            false
        },
        _ => false,
    }
}

/// The variables of a pattern.
pub open spec fn pattern_vars(e: ExprV) -> Set<Seq<char>>
    decreases e,
{
    match e {
        ExprV::Symbol(s) => if is_var_name(s) {
            Set::empty().insert(s)
        } else {
            Set::empty()
        },
        ExprV::List(items) => all_pattern_vars(items),
        _ => Set::empty(),
    }
}

/// The variables of patterns.
pub open spec fn all_pattern_vars(s: Seq<ExprV>) -> Set<Seq<char>>
    decreases s,
{
    if s.len() == 0 {
        Set::empty()
    } else {
        all_pattern_vars(s.drop_last()).union(pattern_vars(s.last()))
    }
}

/// Collect the variables of a pattern.
fn collect_pattern_vars(expr: &Expr, set: &mut FxHashSet<String>)
    ensures
        set_contents(*final(set)) == set_contents(*old(set)).union(pattern_vars(expr@)),
    decreases expr,
{
    broadcast use group_exprs;

    let ghost before = set_contents(*set);
    match expr {
        Expr::Symbol(s) => {
            if is_var(s.as_str()) {
                set_put(set, s.clone());
            }
            assert(set_contents(*set) =~= before.union(pattern_vars(expr@)));
        },
        Expr::List(items) => {
            let ghost es = exprs(items@);
            let mut i: usize = 0;
            assert(set_contents(*set) =~= before.union(all_pattern_vars(es.take(0))));
            while i < items.len()
                invariant
                    i <= items@.len(),
                    *expr == Expr::List(*items),
                    es == exprs(items@),
                    before == set_contents(*old(set)),
                    set_contents(*set) == before.union(all_pattern_vars(es.take(i as int))),
                decreases items@.len() - i,
            {
                assert(decreases_to!(expr => expr->List_0@[i as int]));
                collect_pattern_vars(&items[i], set);
                assert(es.take(i + 1).drop_last() =~= es.take(i as int));
                assert(set_contents(*set) =~= before.union(all_pattern_vars(es.take(i + 1))));
                i += 1;
            }
            assert(es.take(items@.len() as int) =~= es);
        },
        _ => {
            assert(set_contents(*set) =~= before.union(pattern_vars(expr@)));
        },
    }
}

/// Names given to names.
pub type NamesV = Map<Seq<char>, Seq<char>>;

/// The names given to free variables so far, and the next number.
pub type FreeV = (NamesV, u64);

/// The name that a free variable gets.
pub open spec fn freshened_name(
    s: Seq<char>,
    bound: Set<Seq<char>>,
    locals: NamesV,
    st: FreeV,
) -> (Seq<char>, FreeV) {
    if locals.contains_key(s) {
        (locals[s], st)
    } else if bound.contains(s) {
        (s, st)
    } else if st.0.contains_key(s) {
        (st.0[s], st)
    } else {
        let fresh = fresh_name(s, st.1);
        (fresh, (st.0.insert(s, fresh), next_id(st.1)))
    }
}

/// A pattern with its variables renamed as local ones, the local names, and
/// the names of free variables.
pub open spec fn bound_pattern(e: ExprV, locals: NamesV, st: FreeV) -> (ExprV, NamesV, FreeV)
    decreases e,
{
    match e {
        ExprV::Symbol(s) => if is_var_name(s) {
            if locals.contains_key(s) {
                (ExprV::Symbol(locals[s]), locals, st)
            } else {
                let fresh = fresh_name(s, st.1);
                (
                    ExprV::Symbol(fresh),
                    locals.insert(s, fresh),
                    (st.0, next_id(st.1)),
                )
            }
        } else {
            (e, locals, st)
        },
        ExprV::List(items) => {
            let r = bound_patterns(items, locals, st);
            (ExprV::List(r.0), r.1, r.2)
        },
        _ => (e, locals, st),
    }
}

/// Patterns with their variables renamed, from left to right.
pub open spec fn bound_patterns(s: Seq<ExprV>, locals: NamesV, st: FreeV) -> (
    Seq<ExprV>,
    NamesV,
    FreeV,
)
    decreases s,
{
    if s.len() == 0 {
        (Seq::empty(), locals, st)
    } else {
        let before = bound_patterns(s.drop_last(), locals, st);
        let last = bound_pattern(s.last(), before.1, before.2);
        (before.0.push(last.0), last.1, last.2)
    }
}

/// Whether a list is a form with a head and a number of items.
pub open spec fn is_form(items: Seq<ExprV>, head: Seq<char>, n: nat) -> bool {
    items.len() == n && items[0] == ExprV::Symbol(head)
}

/// Whether a list is quoted data.
pub open spec fn is_quote(items: Seq<ExprV>) -> bool {
    items.len() > 0 && items[0] == ExprV::Symbol("quote"@)
}

/// An expression with its unbound variables renamed. The variables that
/// `let`, `let*` and `|->` bind are renamed in their scope.
pub open spec fn freshened(
    e: ExprV,
    bound: Set<Seq<char>>,
    locals: NamesV,
    st: FreeV,
) -> (ExprV, FreeV)
    decreases e, 0nat,
{
    match e {
        ExprV::Symbol(s) => if is_var_name(s) {
            let r = freshened_name(s, bound, locals, st);
            (ExprV::Symbol(r.0), r.1)
        } else {
            (e, st)
        },
        ExprV::List(items) => if is_quote(items) {
            (e, st)
        } else if is_form(items, "let"@, 4) {
            let value = freshened(items[2], bound, locals, st);
            let pattern = bound_pattern(items[1], locals, value.1);
            let body = freshened(items[3], bound, pattern.1, pattern.2);
            (ExprV::List(seq![items[0], pattern.0, value.0, body.0]), body.1)
        } else if is_form(items, "let*"@, 3) && items[1] is List {
            let bs = freshened_bindings(items[1]->List_0, bound, locals, st);
            let body = freshened(items[2], bound, bs.1, bs.2);
            (ExprV::List(seq![items[0], ExprV::List(bs.0), body.0]), body.1)
        } else if is_form(items, "|->"@, 3) {
            let params = bound_pattern(items[1], locals, st);
            let body = freshened(items[2], bound, params.1, params.2);
            (ExprV::List(seq![items[0], params.0, body.0]), body.1)
        } else {
            let r = all_freshened(items, bound, locals, st);
            (ExprV::List(r.0), r.1)
        },
        _ => (e, st),
    }
}

/// Expressions with their unbound variables renamed, from left to right.
pub open spec fn all_freshened(
    s: Seq<ExprV>,
    bound: Set<Seq<char>>,
    locals: NamesV,
    st: FreeV,
) -> (Seq<ExprV>, FreeV)
    decreases s, 0nat,
{
    if s.len() == 0 {
        (Seq::empty(), st)
    } else {
        let before = all_freshened(s.drop_last(), bound, locals, st);
        let last = freshened(s.last(), bound, locals, before.1);
        (before.0.push(last.0), last.1)
    }
}

/// The bindings of a `let*` renamed, from left to right.
pub open spec fn freshened_bindings(
    s: Seq<ExprV>,
    bound: Set<Seq<char>>,
    locals: NamesV,
    st: FreeV,
) -> (Seq<ExprV>, NamesV, FreeV)
    decreases s, 0nat,
{
    if s.len() == 0 {
        (Seq::empty(), locals, st)
    } else {
        let before = freshened_bindings(s.drop_last(), bound, locals, st);
        let b = s.last();
        if b is List && b->List_0.len() == 2 {
            let value = freshened(b->List_0[1], bound, before.1, before.2);
            let pattern = bound_pattern(b->List_0[0], before.1, value.1);
            (before.0.push(ExprV::List(seq![pattern.0, value.0])), pattern.1, pattern.2)
        } else {
            let r = freshened(b, bound, before.1, before.2);
            (before.0.push(r.0), before.1, r.1)
        }
    }
}

/// Rename the variables of a pattern as local ones.
fn bind_pattern_vars(
    expr: &Expr,
    locals: &mut FxHashMap<String, String>,
    free: &mut FxHashMap<String, String>,
    next: &mut u64,
) -> (r: Expr)
    ensures
        (r@, map_contents(*final(locals)), (map_contents(*final(free)), *final(next)))
            == bound_pattern(
            expr@,
            map_contents(*old(locals)),
            (map_contents(*old(free)), *old(next)),
        ),
    decreases expr,
{
    broadcast use group_exprs;

    match expr {
        Expr::Symbol(s) => {
            if is_var(s.as_str()) {
                match map_get(locals, s.as_str()) {
                    Some(n) => Expr::Symbol(n),
                    None => {
                        let fresh = make_fresh_name(s.as_str(), *next);
                        *next = following(*next);
                        map_put(locals, s.clone(), fresh.clone());
                        Expr::Symbol(fresh)
                    },
                }
            } else {
                expr.clone()
            }
        },
        Expr::List(items) => {
            let ghost es = exprs(items@);
            let ghost l0 = map_contents(*locals);
            let ghost s0 = (map_contents(*free), *next);
            let mut out: Vec<Expr> = Vec::new();
            let mut i: usize = 0;
            assert(exprs(out@) =~= bound_patterns(es.take(0), l0, s0).0);
            while i < items.len()
                invariant
                    i <= items@.len(),
                    *expr == Expr::List(*items),
                    es == exprs(items@),
                    l0 == map_contents(*old(locals)),
                    s0 == (map_contents(*old(free)), *old(next)),
                    (exprs(out@), map_contents(*locals), (map_contents(*free), *next))
                        == bound_patterns(es.take(i as int), l0, s0),
                decreases items@.len() - i,
            {
                assert(decreases_to!(expr => expr->List_0@[i as int]));
                let e = bind_pattern_vars(&items[i], locals, free, next);
                out.push(e);
                assert(es.take(i + 1).drop_last() =~= es.take(i as int));
                i += 1;
            }
            assert(es.take(items@.len() as int) =~= es);
            Expr::List(Arc::new(out))
        },
        _ => expr.clone(),
    }
}

/// The number after a number.
fn following(n: u64) -> (r: u64)
    ensures
        r == next_id(n),
{
    if n == u64::MAX {
        0
    } else {
        n + 1
    }
}

/// Find the name that a free variable gets.
fn freshen_symbol(
    symbol: &str,
    bound_vars: &FxHashSet<String>,
    locals: &FxHashMap<String, String>,
    free: &mut FxHashMap<String, String>,
    next: &mut u64,
) -> (r: String)
    ensures
        (r@, (map_contents(*final(free)), *final(next))) == freshened_name(
            symbol@,
            set_contents(*bound_vars),
            map_contents(*locals),
            (map_contents(*old(free)), *old(next)),
        ),
{
    match map_get(locals, symbol) {
        Some(n) => {
            return n;
        },
        None => {},
    }
    if set_has(bound_vars, symbol) {
        return symbol.to_owned();
    }
    match map_get(free, symbol) {
        Some(n) => n,
        None => {
            let fresh = make_fresh_name(symbol, *next);
            *next = following(*next);
            map_put(free, symbol.to_owned(), fresh.clone());
            fresh
        },
    }
}

/// Whether the first item of a list is a symbol with a name.
fn head_is(items: &Vec<Expr>, name: &str) -> (r: bool)
    ensures
        r == (items@.len() > 0 && exprs(items@)[0] == ExprV::Symbol(name@)),
{
    broadcast use group_exprs;

    if items.len() == 0 {
        return false;
    }
    match &items[0] {
        Expr::Symbol(s) => same(s.as_str(), name),
        _ => false,
    }
}

/// Rename the unbound variables of the items of a list.
fn freshen_list(
    expr: &Expr,
    items: &Vec<Expr>,
    bound_vars: &FxHashSet<String>,
    locals: &FxHashMap<String, String>,
    free: &mut FxHashMap<String, String>,
    next: &mut u64,
) -> (r: Expr)
    requires
        expr matches Expr::List(v) && *v == *items,
    ensures
        (r@, (map_contents(*final(free)), *final(next))) == freshened(
            expr@,
            set_contents(*bound_vars),
            map_contents(*locals),
            (map_contents(*old(free)), *old(next)),
        ),
    decreases expr, 0nat,
{
    broadcast use group_exprs;

    let ghost es = exprs(items@);
    assert(expr@ == ExprV::List(es));
    assert(es.len() == items@.len());
    if head_is(items, "quote") {
        return expr.clone();
    }
    if items.len() == 4 && head_is(items, "let") {
        assert(decreases_to!(expr => expr->List_0@[2]));
        assert(decreases_to!(expr => expr->List_0@[3]));
        let value = freshen_expr(&items[2], bound_vars, locals, free, next);
        let mut body_locals = map_copy(locals);
        let pattern = bind_pattern_vars(&items[1], &mut body_locals, free, next);
        let body = freshen_expr(&items[3], bound_vars, &body_locals, free, next);
        return list4(items[0].clone(), pattern, value, body);
    }
    if items.len() == 3 && head_is(items, "let*") {
        match &items[1] {
            Expr::List(bindings) => {
                assert(es[1]->List_0 == exprs(bindings@));
                assert(decreases_to!(expr => expr->List_0@[1]));
                assert(decreases_to!(expr => expr->List_0@[2]));
                let mut body_locals = map_copy(locals);
                let bs = freshen_bindings(
                    &items[1],
                    bindings,
                    bound_vars,
                    &mut body_locals,
                    free,
                    next,
                );
                let body = freshen_expr(&items[2], bound_vars, &body_locals, free, next);
                return list3(items[0].clone(), Expr::List(Arc::new(bs)), body);
            },
            _ => {},
        }
    }
    if items.len() == 3 && head_is(items, "|->") {
        assert(decreases_to!(expr => expr->List_0@[2]));
        proof {
            reveal_strlit("let*");
            reveal_strlit("|->");
            assert("let*"@.len() == 4 && "|->"@.len() == 3);
        }
        let mut body_locals = map_copy(locals);
        let params = bind_pattern_vars(&items[1], &mut body_locals, free, next);
        let body = freshen_expr(&items[2], bound_vars, &body_locals, free, next);
        return list3(items[0].clone(), params, body);
    }
    let ghost s0 = (map_contents(*free), *next);
    let ghost b0 = set_contents(*bound_vars);
    let ghost l0 = map_contents(*locals);
    let mut out: Vec<Expr> = Vec::new();
    let mut i: usize = 0;
    assert(exprs(out@) =~= all_freshened(es.take(0), b0, l0, s0).0);
    while i < items.len()
        invariant
            i <= items@.len(),
            expr matches Expr::List(v) && *v == *items,
            es == exprs(items@),
            b0 == set_contents(*bound_vars),
            l0 == map_contents(*locals),
            s0 == (map_contents(*old(free)), *old(next)),
            (exprs(out@), (map_contents(*free), *next)) == all_freshened(
                es.take(i as int),
                b0,
                l0,
                s0,
            ),
        decreases items@.len() - i,
    {
        assert(decreases_to!(expr => expr->List_0@[i as int]));
        let e = freshen_expr(&items[i], bound_vars, locals, free, next);
        out.push(e);
        assert(es.take(i + 1).drop_last() =~= es.take(i as int));
        i += 1;
    }
    assert(es.take(items@.len() as int) =~= es);
    Expr::List(Arc::new(out))
}

/// Rename the variables in the bindings of a `let*`.
fn freshen_bindings(
    expr: &Expr,
    bindings: &Vec<Expr>,
    bound_vars: &FxHashSet<String>,
    locals: &mut FxHashMap<String, String>,
    free: &mut FxHashMap<String, String>,
    next: &mut u64,
) -> (r: Vec<Expr>)
    requires
        expr matches Expr::List(v) && *v == *bindings,
    ensures
        (exprs(r@), map_contents(*final(locals)), (map_contents(*final(free)), *final(next)))
            == freshened_bindings(
            exprs(bindings@),
            set_contents(*bound_vars),
            map_contents(*old(locals)),
            (map_contents(*old(free)), *old(next)),
        ),
    decreases expr, 0nat,
{
    broadcast use group_exprs;

    let ghost es = exprs(bindings@);
    let ghost s0 = (map_contents(*free), *next);
    let ghost b0 = set_contents(*bound_vars);
    let ghost l0 = map_contents(*locals);
    let mut out: Vec<Expr> = Vec::new();
    let mut i: usize = 0;
    assert(exprs(out@) =~= freshened_bindings(es.take(0), b0, l0, s0).0);
    while i < bindings.len()
        invariant
            i <= bindings@.len(),
            expr matches Expr::List(v) && *v == *bindings,
            es == exprs(bindings@),
            b0 == set_contents(*bound_vars),
            l0 == map_contents(*old(locals)),
            s0 == (map_contents(*old(free)), *old(next)),
            (exprs(out@), map_contents(*locals), (map_contents(*free), *next))
                == freshened_bindings(es.take(i as int), b0, l0, s0),
        decreases bindings@.len() - i,
    {
        assert(decreases_to!(expr => expr->List_0@[i as int]));
        assert(es.take(i + 1).drop_last() =~= es.take(i as int));
        assert(es.take(i + 1).last() == bindings@[i as int]@);
        let is_pair: bool = match &bindings[i] {
            Expr::List(pair) => pair.len() == 2,
            _ => false,
        };
        if is_pair {
            match &bindings[i] {
                Expr::List(pair) => {
                    let ghost b = bindings@[i as int];
                    assert(decreases_to!(b => b->List_0@[1]));
                    assert(decreases_to!(expr => b));
                    let value = freshen_expr(&pair[1], bound_vars, locals, free, next);
                    let pattern = bind_pattern_vars(&pair[0], locals, free, next);
                    out.push(list2(pattern, value));
                },
                _ => {},
            }
        } else {
            let e = freshen_expr(&bindings[i], bound_vars, locals, free, next);
            out.push(e);
        }
        i += 1;
    }
    assert(es.take(bindings@.len() as int) =~= es);
    out
}

/// Rename the unbound variables of an expression.
fn freshen_expr(
    expr: &Expr,
    bound_vars: &FxHashSet<String>,
    locals: &FxHashMap<String, String>,
    free: &mut FxHashMap<String, String>,
    next: &mut u64,
) -> (r: Expr)
    ensures
        (r@, (map_contents(*final(free)), *final(next))) == freshened(
            expr@,
            set_contents(*bound_vars),
            map_contents(*locals),
            (map_contents(*old(free)), *old(next)),
        ),
    decreases expr, 1nat,
{
    match expr {
        Expr::Symbol(s) => {
            if is_var(s.as_str()) {
                Expr::Symbol(freshen_symbol(s.as_str(), bound_vars, locals, free, next))
            } else {
                expr.clone()
            }
        },
        Expr::List(items) => freshen_list(expr, items, bound_vars, locals, free, next),
        _ => expr.clone(),
    }
}

/// Whether an expression holds a variable.
pub open spec fn has_vars(e: ExprV) -> bool
    decreases e,
{
    match e {
        ExprV::Symbol(s) => is_var_name(s),
        ExprV::List(items) => exists|i: int| 0 <= i < items.len() && has_vars(#[trigger] items[i]),
        _ => false,
    }
}

/// Whether an expression holds a variable.
pub fn has_variables(expr: &Expr) -> (r: bool)
    ensures
        r == has_vars(expr@),
    decreases expr,
{
    broadcast use group_exprs;

    match expr {
        Expr::Symbol(s) => is_var(s.as_str()),
        Expr::List(items) => {
            let ghost es = exprs(items@);
            let mut i: usize = 0;
            while i < items.len()
                invariant
                    i <= items@.len(),
                    *expr == Expr::List(*items),
                    es == exprs(items@),
                    forall|j: int| 0 <= j < i ==> !has_vars(#[trigger] es[j]),
                decreases items@.len() - i,
            {
                assert(decreases_to!(expr => expr->List_0@[i as int]));
                if has_variables(&items[i]) {
                    assert(expr@->List_0[i as int] == es[i as int]);
                    return true;
                }
                i += 1;
            }
            false
        },
        _ => false,
    }
}

/// An expression with the variables renamed that patterns do not bind, and the
/// next number.
pub open spec fn renamed_apart(e: ExprV, ps: Seq<ExprV>, next: u64) -> (ExprV, u64) {
    if has_vars(e) {
        let r = freshened(e, all_pattern_vars(ps), Map::empty(), (Map::empty(), next));
        (r.0, r.1.1)
    } else {
        (e, next)
    }
}

/// Rename unbound variables in an expression to fresh runtime variables.
///
/// Bound variables are identified from `patterns` (the function parameters).
/// Local binders in a few core forms (`let`, `let*`, `|->`) are handled so
/// shadowing remains correct.
pub fn rename_apart_unbound_vars(expr: &Expr, patterns: &Vec<Expr>, next: &mut u64) -> (r: Expr)
    ensures
        (r@, *final(next)) == renamed_apart(expr@, exprs(patterns@), *old(next)),
{
    broadcast use group_exprs;

    if !has_variables(expr) {
        return expr.clone();
    }
    let mut bound_vars = set_new();
    let ghost ps = exprs(patterns@);
    let mut i: usize = 0;
    assert(ps.take(0) =~= Seq::<ExprV>::empty());
    while i < patterns.len()
        invariant
            i <= patterns@.len(),
            ps == exprs(patterns@),
            set_contents(bound_vars) == all_pattern_vars(ps.take(i as int)),
        decreases patterns@.len() - i,
    {
        collect_pattern_vars(&patterns[i], &mut bound_vars);
        assert(ps.take(i + 1).drop_last() =~= ps.take(i as int));
        i += 1;
    }
    assert(ps.take(patterns@.len() as int) =~= ps);
    let mut free = map_new();
    let locals = map_new();
    freshen_expr(expr, &bound_vars, &locals, &mut free, next)
}

/// Whether every variable outside of quoted data is bound or generated.
pub open spec fn is_apart(e: ExprV, bound: Set<Seq<char>>) -> bool
    decreases e,
{
    match e {
        ExprV::Symbol(s) => is_var_name(s) ==> bound.contains(s) || is_generated(s),
        ExprV::List(items) => is_quote(items) || forall|i: int|
            0 <= i < items.len() ==> is_apart(#[trigger] items[i], bound),
        _ => true,
    }
}

/// Whether every name given is a generated one.
pub open spec fn all_generated(m: NamesV) -> bool {
    forall|x: Seq<char>| #[trigger] m.contains_key(x) ==> is_generated(m[x])
}

/// Renamed patterns hold generated variables only.
proof fn lemma_bound_pattern_apart(
    e: ExprV,
    bound: Set<Seq<char>>,
    locals: NamesV,
    st: FreeV,
)
    requires
        all_generated(locals),
        all_generated(st.0),
    ensures
        is_apart(bound_pattern(e, locals, st).0, bound),
        all_generated(bound_pattern(e, locals, st).1),
        all_generated(bound_pattern(e, locals, st).2.0),
    decreases e,
{
    match e {
        ExprV::Symbol(s) => {
            fresh_is_generated(s, st.1);
        },
        ExprV::List(items) => {
            lemma_bound_patterns_apart(items, bound, locals, st);
            let r = bound_patterns(items, locals, st);
            assert forall|i: int| 0 <= i < r.0.len() implies is_apart(#[trigger] r.0[i], bound) by {
                assert(is_apart(r.0[i], bound));
            }
        },
        _ => {},
    }
}

/// Renamed patterns hold generated variables only.
proof fn lemma_bound_patterns_apart(
    s: Seq<ExprV>,
    bound: Set<Seq<char>>,
    locals: NamesV,
    st: FreeV,
)
    requires
        all_generated(locals),
        all_generated(st.0),
    ensures
        forall|i: int|
            0 <= i < bound_patterns(s, locals, st).0.len() ==> is_apart(
                #[trigger] bound_patterns(s, locals, st).0[i],
                bound,
            ),
        all_generated(bound_patterns(s, locals, st).1),
        all_generated(bound_patterns(s, locals, st).2.0),
    decreases s,
{
    if s.len() > 0 {
        let before = bound_patterns(s.drop_last(), locals, st);
        lemma_bound_patterns_apart(s.drop_last(), bound, locals, st);
        lemma_bound_pattern_apart(s.last(), bound, before.1, before.2);
    }
}

/// Renamed expressions hold bound and generated variables only.
proof fn lemma_freshened_apart(e: ExprV, bound: Set<Seq<char>>, locals: NamesV, st: FreeV)
    requires
        all_generated(locals),
        all_generated(st.0),
    ensures
        is_apart(freshened(e, bound, locals, st).0, bound),
        all_generated(freshened(e, bound, locals, st).1.0),
    decreases e,
{
    match e {
        ExprV::Symbol(s) => {
            fresh_is_generated(s, st.1);
        },
        ExprV::List(items) => {
            if is_quote(items) {
            } else if is_form(items, "let"@, 4) {
                let value = freshened(items[2], bound, locals, st);
                lemma_freshened_apart(items[2], bound, locals, st);
                let pattern = bound_pattern(items[1], locals, value.1);
                lemma_bound_pattern_apart(items[1], bound, locals, value.1);
                lemma_freshened_apart(items[3], bound, pattern.1, pattern.2);
                lemma_head_apart("let"@, bound);
            } else if is_form(items, "let*"@, 3) && items[1] is List {
                let bs = freshened_bindings(items[1]->List_0, bound, locals, st);
                lemma_bindings_apart(items[1]->List_0, bound, locals, st);
                lemma_freshened_apart(items[2], bound, bs.1, bs.2);
                lemma_head_apart("let*"@, bound);
                assert(is_apart(ExprV::List(bs.0), bound)) by {
                    assert forall|i: int| 0 <= i < bs.0.len() implies is_apart(
                        #[trigger] bs.0[i],
                        bound,
                    ) by {
                        assert(is_apart(bs.0[i], bound));
                    }
                }
            } else if is_form(items, "|->"@, 3) {
                let params = bound_pattern(items[1], locals, st);
                lemma_bound_pattern_apart(items[1], bound, locals, st);
                lemma_freshened_apart(items[2], bound, params.1, params.2);
                lemma_head_apart("|->"@, bound);
            } else {
                lemma_all_freshened_apart(items, bound, locals, st);
                let r = all_freshened(items, bound, locals, st);
                assert forall|i: int| 0 <= i < r.0.len() implies is_apart(
                    #[trigger] r.0[i],
                    bound,
                ) by {
                    assert(is_apart(r.0[i], bound));
                }
            }
        },
        _ => {},
    }
}

/// The heads of the binding forms are no variables.
proof fn lemma_head_apart(s: Seq<char>, bound: Set<Seq<char>>)
    requires
        s == "let"@ || s == "let*"@ || s == "|->"@,
    ensures
        is_apart(ExprV::Symbol(s), bound),
{
    reveal_strlit("let");
    reveal_strlit("let*");
    reveal_strlit("|->");
}

/// Renamed expressions hold bound and generated variables only.
proof fn lemma_all_freshened_apart(
    s: Seq<ExprV>,
    bound: Set<Seq<char>>,
    locals: NamesV,
    st: FreeV,
)
    requires
        all_generated(locals),
        all_generated(st.0),
    ensures
        forall|i: int|
            0 <= i < all_freshened(s, bound, locals, st).0.len() ==> is_apart(
                #[trigger] all_freshened(s, bound, locals, st).0[i],
                bound,
            ),
        all_generated(all_freshened(s, bound, locals, st).1.0),
    decreases s,
{
    if s.len() > 0 {
        let before = all_freshened(s.drop_last(), bound, locals, st);
        lemma_all_freshened_apart(s.drop_last(), bound, locals, st);
        lemma_freshened_apart(s.last(), bound, locals, before.1);
    }
}

/// Renamed bindings hold bound and generated variables only.
proof fn lemma_bindings_apart(s: Seq<ExprV>, bound: Set<Seq<char>>, locals: NamesV, st: FreeV)
    requires
        all_generated(locals),
        all_generated(st.0),
    ensures
        forall|i: int|
            0 <= i < freshened_bindings(s, bound, locals, st).0.len() ==> is_apart(
                #[trigger] freshened_bindings(s, bound, locals, st).0[i],
                bound,
            ),
        all_generated(freshened_bindings(s, bound, locals, st).1),
        all_generated(freshened_bindings(s, bound, locals, st).2.0),
    decreases s,
{
    if s.len() > 0 {
        let before = freshened_bindings(s.drop_last(), bound, locals, st);
        lemma_bindings_apart(s.drop_last(), bound, locals, st);
        let b = s.last();
        if b is List && b->List_0.len() == 2 {
            let value = freshened(b->List_0[1], bound, before.1, before.2);
            lemma_freshened_apart(b->List_0[1], bound, before.1, before.2);
            lemma_bound_pattern_apart(b->List_0[0], bound, before.1, value.1);
        } else {
            lemma_freshened_apart(b, bound, before.1, before.2);
        }
    }
}

/// After renaming, every variable outside of quoted data is one that the
/// patterns bind or a generated one.
pub proof fn renaming_sets_apart(e: ExprV, ps: Seq<ExprV>, next: u64)
    requires
        has_vars(e),
    ensures
        is_apart(renamed_apart(e, ps, next).0, all_pattern_vars(ps)),
{
    lemma_freshened_apart(e, all_pattern_vars(ps), Map::empty(), (Map::empty(), next));
}

/// Whether names keep what they stand for.
pub open spec fn kept(before: NamesV, after: NamesV) -> bool {
    forall|n: Seq<char>|
        before.contains_key(n) ==> #[trigger] after.contains_key(n) && after[n] == before[n]
}

/// Renaming a pattern keeps the names of free variables.
proof fn lemma_pattern_keeps(e: ExprV, locals: NamesV, st: FreeV)
    ensures
        bound_pattern(e, locals, st).2.0 == st.0,
    decreases e, 0nat,
{
    match e {
        ExprV::List(items) => {
            lemma_patterns_keep(items, locals, st);
        },
        _ => {},
    }
}

/// Renaming patterns keeps the names of free variables.
proof fn lemma_patterns_keep(s: Seq<ExprV>, locals: NamesV, st: FreeV)
    ensures
        bound_patterns(s, locals, st).2.0 == st.0,
    decreases s, 0nat,
{
    if s.len() > 0 {
        let before = bound_patterns(s.drop_last(), locals, st);
        lemma_patterns_keep(s.drop_last(), locals, st);
        lemma_pattern_keeps(s.last(), before.1, before.2);
    }
}

/// Once an unbound variable has a new name, it has the same one in all that
/// follows, also behind a form that binds a variable of its name.
pub proof fn renaming_is_consistent(
    e: ExprV,
    bound: Set<Seq<char>>,
    locals: NamesV,
    st: FreeV,
)
    ensures
        kept(st.0, freshened(e, bound, locals, st).1.0),
    decreases e, 0nat,
{
    match e {
        ExprV::List(items) => {
            if is_quote(items) {
            } else if is_form(items, "let"@, 4) {
                let value = freshened(items[2], bound, locals, st);
                renaming_is_consistent(items[2], bound, locals, st);
                let pattern = bound_pattern(items[1], locals, value.1);
                lemma_pattern_keeps(items[1], locals, value.1);
                renaming_is_consistent(items[3], bound, pattern.1, pattern.2);
            } else if is_form(items, "let*"@, 3) && items[1] is List {
                let bs = freshened_bindings(items[1]->List_0, bound, locals, st);
                lemma_bindings_consistent(items[1]->List_0, bound, locals, st);
                renaming_is_consistent(items[2], bound, bs.1, bs.2);
            } else if is_form(items, "|->"@, 3) {
                let params = bound_pattern(items[1], locals, st);
                lemma_pattern_keeps(items[1], locals, st);
                renaming_is_consistent(items[2], bound, params.1, params.2);
            } else {
                lemma_all_consistent(items, bound, locals, st);
            }
        },
        _ => {},
    }
}

/// Renaming expressions keeps the names of free variables.
proof fn lemma_all_consistent(
    s: Seq<ExprV>,
    bound: Set<Seq<char>>,
    locals: NamesV,
    st: FreeV,
)
    ensures
        kept(st.0, all_freshened(s, bound, locals, st).1.0),
    decreases s, 0nat,
{
    if s.len() > 0 {
        let before = all_freshened(s.drop_last(), bound, locals, st);
        lemma_all_consistent(s.drop_last(), bound, locals, st);
        renaming_is_consistent(s.last(), bound, locals, before.1);
    }
}

/// Renaming the bindings of a `let*` keeps the names of free variables.
proof fn lemma_bindings_consistent(
    s: Seq<ExprV>,
    bound: Set<Seq<char>>,
    locals: NamesV,
    st: FreeV,
)
    ensures
        kept(st.0, freshened_bindings(s, bound, locals, st).2.0),
    decreases s, 0nat,
{
    if s.len() > 0 {
        let before = freshened_bindings(s.drop_last(), bound, locals, st);
        lemma_bindings_consistent(s.drop_last(), bound, locals, st);
        let b = s.last();
        if b is List && b->List_0.len() == 2 {
            let value = freshened(b->List_0[1], bound, before.1, before.2);
            renaming_is_consistent(b->List_0[1], bound, before.1, before.2);
            lemma_pattern_keeps(b->List_0[0], before.1, value.1);
            let pattern = bound_pattern(b->List_0[0], before.1, value.1);
            assert(freshened_bindings(s, bound, locals, st).2 == pattern.2);
            assert(kept(st.0, value.1.0));
        } else {
            renaming_is_consistent(b, bound, before.1, before.2);
        }
    }
}

} // verus!
