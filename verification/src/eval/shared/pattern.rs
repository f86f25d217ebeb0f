//! Helpers for pattern matching.
//!
//! A list pattern that meets a free variable is code: the variable is bound to
//! the first value of that code. Matching does not run code itself. It takes
//! the values of such patterns from the caller, and where one is missing it
//! asks for it.
use crate::atom::Atom;
use crate::atom::AtomV;
use crate::atom::atom_same;
use crate::atom::atoms;
use crate::atom::copy_atoms;
use crate::atom::env_same;
use crate::atom::group_atoms;
use crate::atom::symbol;
use crate::env::Env;
use crate::env::EnvV;
use crate::env::bindings;
use crate::env::env_get;
use crate::eval::shared::env::bind;
use crate::eval::shared::env::linked;
use crate::eval::shared::env::lookup;
use crate::eval::shared::env::prepend_chain;
use crate::eval::shared::subst::all_atomized;
use crate::eval::shared::subst::atomized;
use crate::expr::Expr;
use crate::expr::ExprV;
use crate::expr::expr_same;
use crate::expr::exprs;
use crate::expr::group_exprs;
use crate::text::is_var;
use crate::text::is_var_name;
use crate::text::same;
use std::sync::Arc;
use vstd::prelude::*;
use vstd::string::*;

verus! {

/// The value of a list pattern that was run as code in an environment.
pub struct PatternValue {
    /// The pattern.
    pub expr: Expr,
    /// The environment it was run in.
    pub env: Env,
    /// Its first value; nothing when it had none or failed.
    pub value: Option<Atom>,
}

/// A pattern's value as a mathematical value.
pub type KnownV = (ExprV, EnvV, Option<AtomV>);

/// The value of an optional atom.
pub open spec fn optional_atom(o: Option<Atom>) -> Option<AtomV> {
    match o {
        Some(a) => Some(a@),
        None => None,
    }
}

/// The values of a list of pattern values.
pub open spec fn known_values(s: Seq<PatternValue>) -> Seq<KnownV> {
    Seq::new(s.len(), |i: int| (s[i].expr@, s[i].env@, optional_atom(s[i].value)))
}

/// What is known of a pattern in an environment: the first entry for it.
pub open spec fn known_value(known: Seq<KnownV>, e: ExprV, env: EnvV) -> Option<Option<AtomV>>
    decreases known.len(),
{
    if known.len() == 0 {
        None
    } else if known[0].0 == e && known[0].1 == env {
        Some(known[0].2)
    } else {
        known_value(known.drop_first(), e, env)
    }
}

/// The outcome of a match.
pub enum Matching {
    /// The pattern does not match.
    No,
    /// The pattern matches and leaves this environment.
    Yes(Env),
    /// The value of this expression in this environment is needed first.
    Ask(Expr, Env),
}

/// The outcome of a match as a mathematical value.
pub enum MatchV {
    /// No match.
    No,
    /// A match.
    Yes(EnvV),
    /// A value is missing.
    Ask(ExprV, EnvV),
}

impl View for Matching {
    type V = MatchV;

    open spec fn view(&self) -> MatchV {
        match self {
            Matching::No => MatchV::No,
            Matching::Yes(e) => MatchV::Yes(e@),
            Matching::Ask(x, e) => MatchV::Ask(x@, e@),
        }
    }
}

/// Binding a name that is free, or comparing with the value it has.
pub open spec fn bound_to(env: EnvV, name: Seq<char>, value: AtomV) -> MatchV {
    match env_get(env, name) {
        Some(b) => if b == value {
            MatchV::Yes(env)
        } else {
            MatchV::No
        },
        None => MatchV::Yes(EnvV::Cons(name, Box::new(value), Box::new(env))),
    }
}

/// Matching a literal against an atom: the same value, or a free variable that
/// is bound to it.
pub open spec fn literal_match(value: AtomV, a: AtomV, env: EnvV) -> MatchV {
    if a == value {
        MatchV::Yes(env)
    } else {
        match a {
            AtomV::Sym(name) => if is_var_name(name) {
                bound_to(env, name, value)
            } else {
                MatchV::No
            },
            _ => MatchV::No,
        }
    }
}

/// Whether a list pattern is `(cons head tail)`.
pub open spec fn is_cons_pattern(items: Seq<ExprV>) -> bool {
    items.len() == 3 && items[0] == ExprV::Symbol("cons"@)
}

/// Matching one pattern against one atom.
pub open spec fn match_one(p: ExprV, a: AtomV, env: EnvV, known: Seq<KnownV>) -> MatchV
    decreases p,
{
    match p {
        ExprV::Symbol(s) => if is_var_name(s) {
            bound_to(env, s, a)
        } else {
            literal_match(symbol(s), a, env)
        },
        ExprV::Number(n) => literal_match(AtomV::Num(n), a, env),
        ExprV::Str(s) => literal_match(AtomV::Str(s), a, env),
        ExprV::List(items) => if is_cons_pattern(items) {
            match a {
                AtomV::Expr(elements) => if elements.len() > 0 {
                    match match_one(items[1], elements[0], env, known) {
                        MatchV::Yes(e) => match_one(
                            items[2],
                            AtomV::Expr(elements.skip(1)),
                            e,
                            known,
                        ),
                        other => other,
                    }
                } else {
                    MatchV::No
                },
                _ => MatchV::No,
            }
        } else {
            match a {
                AtomV::Expr(elements) => if items.len() == elements.len() {
                    match_all(items, elements, env, known)
                } else {
                    MatchV::No
                },
                AtomV::Sym(name) => if is_var_name(name) {
                    match known_value(known, p, env) {
                        Some(Some(v)) => MatchV::Yes(
                            EnvV::Cons(name, Box::new(v), Box::new(env)),
                        ),
                        Some(None) => MatchV::No,
                        None => MatchV::Ask(p, env),
                    }
                } else {
                    MatchV::No
                },
                _ => MatchV::No,
            }
        },
    }
}

/// Matching patterns against atoms from left to right, each in the environment
/// that the ones before it left.
pub open spec fn match_all(
    ps: Seq<ExprV>,
    xs: Seq<AtomV>,
    env: EnvV,
    known: Seq<KnownV>,
) -> MatchV
    decreases ps,
{
    if ps.len() == 0 {
        MatchV::Yes(env)
    } else {
        match match_all(ps.drop_last(), xs.drop_last(), env, known) {
            MatchV::Yes(e) => match_one(ps.last(), xs.last(), e, known),
            other => other,
        }
    }
}

/// Once a prefix of the patterns fails or asks, so does the whole.
pub proof fn lemma_match_all_stops(
    ps: Seq<ExprV>,
    xs: Seq<AtomV>,
    env: EnvV,
    known: Seq<KnownV>,
    n: int,
)
    requires
        0 <= n <= ps.len(),
        ps.len() == xs.len(),
        !(match_all(ps.take(n), xs.take(n), env, known) is Yes),
    ensures
        match_all(ps, xs, env, known) == match_all(ps.take(n), xs.take(n), env, known),
    decreases ps.len() - n,
{
    if n == ps.len() {
        assert(ps.take(n) =~= ps);
        assert(xs.take(n) =~= xs);
    } else {
        assert(ps.take(n + 1).drop_last() =~= ps.take(n));
        assert(xs.take(n + 1).drop_last() =~= xs.take(n));
        lemma_match_all_stops(ps, xs, env, known, n + 1);
    }
}

/// Whether an atom holds no variable.
pub open spec fn is_ground(a: AtomV) -> bool
    decreases a,
{
    match a {
        AtomV::Sym(s) => !is_var_name(s),
        AtomV::Expr(items) => all_ground(items),
        _ => true,
    }
}

/// Whether no atom of a list holds a variable.
pub open spec fn all_ground(s: Seq<AtomV>) -> bool
    decreases s,
{
    forall|i: int| 0 <= i < s.len() ==> is_ground(#[trigger] s[i])
}

/// Whether a pattern takes no list apart with `(cons head tail)`.
pub open spec fn is_plain(p: ExprV) -> bool
    decreases p,
{
    match p {
        ExprV::List(items) => !is_cons_pattern(items) && all_plain(items),
        _ => true,
    }
}

/// Whether no pattern of a list takes a list apart with `(cons head tail)`.
pub open spec fn all_plain(s: Seq<ExprV>) -> bool
    decreases s,
{
    forall|i: int| 0 <= i < s.len() ==> is_plain(#[trigger] s[i])
}

/// Whether a name stands in a pattern.
pub open spec fn stands_in(p: ExprV, name: Seq<char>) -> bool
    decreases p,
{
    match p {
        ExprV::Symbol(s) => s == name,
        ExprV::List(items) => stands_in_one(items, name),
        _ => false,
    }
}

/// Whether a name stands in one of some patterns.
pub open spec fn stands_in_one(s: Seq<ExprV>, name: Seq<char>) -> bool
    decreases s,
{
    exists|i: int| 0 <= i < s.len() && stands_in(#[trigger] s[i], name)
}

/// Whether an environment keeps all values of another.
pub open spec fn keeps_values(e: EnvV, env: EnvV) -> bool {
    forall|n: Seq<char>|
        env_get(env, n) is Some ==> #[trigger] env_get(e, n) == env_get(env, n)
}

/// What a name is bound to after one more binding.
proof fn lemma_get_bound(env: EnvV, name: Seq<char>, value: AtomV)
    ensures
        forall|n: Seq<char>| #[trigger]
            env_get(EnvV::Cons(name, Box::new(value), Box::new(env)), n) == (if n == name {
                Some(value)
            } else {
                env_get(env, n)
            }),
{
    let more = EnvV::Cons(name, Box::new(value), Box::new(env));
    assert(bindings(more).skip(1) =~= bindings(env));
    assert(bindings(more)[0] == (name, value));
}

/// A pattern whose variables have values means the same in an environment that
/// keeps all values.
proof fn lemma_same_instance(p: ExprV, env: EnvV, e: EnvV)
    requires
        keeps_values(e, env),
        forall|n: Seq<char>|
            is_var_name(n) && #[trigger] stands_in(p, n) ==> env_get(env, n) is Some,
    ensures
        atomized(p, e) == atomized(p, env),
    decreases p,
{
    match p {
        ExprV::Symbol(s) => {
            assert(stands_in(p, s));
        },
        ExprV::List(items) => {
            assert forall|i: int| 0 <= i < items.len() implies #[trigger] all_atomized(items, e)[i]
                == all_atomized(items, env)[i] by {
                assert forall|n: Seq<char>| is_var_name(n) && #[trigger] stands_in(
                    items[i],
                    n,
                ) implies env_get(env, n) is Some by {
                    assert(stands_in(p, n));
                }
                lemma_same_instance(items[i], env, e);
            }
            assert(all_atomized(items, e) =~= all_atomized(items, env));
        },
        _ => {},
    }
}

/// Whether an environment is what is left of a successful match: it keeps all
/// values, and binds names of the pattern only, all its variables among them.
pub open spec fn binds_pattern(p: ExprV, env: EnvV, e: EnvV) -> bool {
    &&& keeps_values(e, env)
    &&& forall|n: Seq<char>|
        #![trigger env_get(e, n)]
        #![trigger stands_in(p, n)]
        (is_var_name(n) && stands_in(p, n) ==> env_get(e, n) is Some) && (!(is_var_name(n)
            && stands_in(p, n)) ==> env_get(e, n) == env_get(env, n))
}

/// A match of a plain pattern with an atom without variables asks for nothing.
/// Where it succeeds, the pattern with its variables replaced is the atom, and
/// the environment binds the variables of the pattern and nothing else.
pub proof fn matching_is_substitution(p: ExprV, a: AtomV, env: EnvV, known: Seq<KnownV>)
    requires
        is_plain(p),
        is_ground(a),
    ensures
        !(match_one(p, a, env, known) is Ask),
        match_one(p, a, env, known) matches MatchV::Yes(e) ==> atomized(p, e) == a
            && binds_pattern(p, env, e),
    decreases p, 0int,
{
    match p {
        ExprV::Symbol(s) => {
            lemma_get_bound(env, s, a);
        },
        ExprV::List(items) => {
            match a {
                AtomV::Expr(elements) => if items.len() == elements.len() {
                    lemma_all_match(items, elements, env, known, items.len() as int);
                    assert(items.take(items.len() as int) =~= items);
                    assert(elements.take(items.len() as int) =~= elements);
                    match match_all(items, elements, env, known) {
                        MatchV::Yes(e) => {
                            assert(all_atomized(items, e) =~= elements);
                        },
                        _ => {},
                    }
                },
                _ => {},
            }
        },
        _ => {},
    }
}

/// Matching the first patterns of a list.
proof fn lemma_all_match(
    ps: Seq<ExprV>,
    xs: Seq<AtomV>,
    env: EnvV,
    known: Seq<KnownV>,
    n: int,
)
    requires
        all_plain(ps),
        all_ground(xs),
        ps.len() == xs.len(),
        0 <= n <= ps.len(),
    ensures
        !(match_all(ps.take(n), xs.take(n), env, known) is Ask),
        match_all(ps.take(n), xs.take(n), env, known) matches MatchV::Yes(e) ==> (forall|i: int|
            0 <= i < n ==> atomized(#[trigger] ps[i], e) == xs[i]) && binds_pattern(
            ExprV::List(ps.take(n)),
            env,
            e,
        ),
    decreases ps, n,
{
    if n > 0 {
        lemma_all_match(ps, xs, env, known, n - 1);
        assert(ps.take(n).drop_last() =~= ps.take(n - 1));
        assert(xs.take(n).drop_last() =~= xs.take(n - 1));
        assert(ps.take(n).last() == ps[n - 1] && xs.take(n).last() == xs[n - 1]);
        match match_all(ps.take(n - 1), xs.take(n - 1), env, known) {
            MatchV::Yes(e1) => {
                matching_is_substitution(ps[n - 1], xs[n - 1], e1, known);
                match match_one(ps[n - 1], xs[n - 1], e1, known) {
                    MatchV::Yes(e) => {
                        assert forall|i: int| 0 <= i < n implies atomized(#[trigger] ps[i], e)
                            == xs[i] by {
                            if i < n - 1 {
                                assert forall|m: Seq<char>| is_var_name(m) && #[trigger] stands_in(
                                    ps[i],
                                    m,
                                ) implies env_get(e1, m) is Some by {
                                    assert(ps.take(n - 1)[i] == ps[i]);
                                    assert(stands_in(ExprV::List(ps.take(n - 1)), m));
                                }
                                lemma_same_instance(ps[i], e1, e);
                            }
                        }
                        lemma_bound_step(ps, env, e1, e, n);
                    },
                    _ => {},
                }
            },
            _ => {},
        }
    } else {
        assert(ps.take(0) =~= Seq::<ExprV>::empty());
    }
}

/// Binding the variables of one more pattern.
proof fn lemma_bound_step(ps: Seq<ExprV>, env: EnvV, e1: EnvV, e: EnvV, n: int)
    requires
        0 < n <= ps.len(),
        binds_pattern(ExprV::List(ps.take(n - 1)), env, e1),
        binds_pattern(ps[n - 1], e1, e),
    ensures
        binds_pattern(ExprV::List(ps.take(n)), env, e),
{
    let before = ExprV::List(ps.take(n - 1));
    let all = ExprV::List(ps.take(n));
    assert forall|m: Seq<char>| #[trigger] stands_in(all, m) == (stands_in(before, m) || stands_in(
        ps[n - 1],
        m,
    )) by {
        if stands_in(all, m) {
            let i = choose|i: int| 0 <= i < n && stands_in(#[trigger] ps.take(n)[i], m);
            if i < n - 1 {
                assert(ps.take(n - 1)[i] == ps.take(n)[i]);
            }
        }
        if stands_in(before, m) {
            let i = choose|i: int| 0 <= i < n - 1 && stands_in(#[trigger] ps.take(n - 1)[i], m);
            assert(ps.take(n)[i] == ps.take(n - 1)[i]);
        }
        assert(ps.take(n)[n - 1] == ps[n - 1]);
    }
    assert forall|m: Seq<char>| env_get(env, m) is Some implies #[trigger] env_get(e, m)
        == env_get(env, m) by {
        assert(env_get(e1, m) == env_get(env, m));
    }
    assert forall|m: Seq<char>|
        #![trigger env_get(e, m)]
        (is_var_name(m) && stands_in(all, m) ==> env_get(e, m) is Some) && (!(is_var_name(m)
            && stands_in(all, m)) ==> env_get(e, m) == env_get(env, m)) by {
        assert(env_get(e1, m) is Some ==> env_get(e, m) == env_get(e1, m));
        assert(stands_in(all, m) == (stands_in(before, m) || stands_in(ps[n - 1], m)));
    }
}

/// A plain pattern that becomes an atom without variables in some environment
/// that keeps all values matches that atom; the match binds no more than that
/// environment. So a failed match means that no such environment exists.
pub proof fn matching_is_complete(p: ExprV, a: AtomV, env: EnvV, known: Seq<KnownV>, e: EnvV)
    requires
        is_plain(p),
        is_ground(a),
        keeps_values(e, env),
        atomized(p, e) == a,
    ensures
        match_one(p, a, env, known) matches MatchV::Yes(m) && keeps_values(e, m),
    decreases p, 0int,
{
    match p {
        ExprV::Symbol(s) => {
            lemma_get_bound(env, s, a);
            if is_var_name(s) {
                lemma_variable_symbol(s);
                assert(env_get(e, s) is Some);
            }
        },
        ExprV::List(items) => {
            let elements = a->Expr_0;
            assert(elements == all_atomized(items, e));
            lemma_all_complete(items, elements, env, known, e, items.len() as int);
            assert(items.take(items.len() as int) =~= items);
            assert(elements.take(items.len() as int) =~= elements);
        },
        _ => {},
    }
}

/// The symbol of a variable is the variable.
proof fn lemma_variable_symbol(s: Seq<char>)
    requires
        is_var_name(s),
    ensures
        symbol(s) == AtomV::Sym(s),
{
    reveal_strlit("True");
    reveal_strlit("False");
    assert("True"@[0] == 'T' && "False"@[0] == 'F');
}

/// The first patterns of a list that become atoms without variables match them.
proof fn lemma_all_complete(
    ps: Seq<ExprV>,
    xs: Seq<AtomV>,
    env: EnvV,
    known: Seq<KnownV>,
    e: EnvV,
    n: int,
)
    requires
        all_plain(ps),
        all_ground(xs),
        keeps_values(e, env),
        xs == all_atomized(ps, e),
        0 <= n <= ps.len(),
    ensures
        match_all(ps.take(n), xs.take(n), env, known) matches MatchV::Yes(m) && keeps_values(e, m),
    decreases ps, n,
{
    if n > 0 {
        lemma_all_complete(ps, xs, env, known, e, n - 1);
        assert(ps.take(n).drop_last() =~= ps.take(n - 1));
        assert(xs.take(n).drop_last() =~= xs.take(n - 1));
        assert(ps.take(n).last() == ps[n - 1] && xs.take(n).last() == xs[n - 1]);
        match match_all(ps.take(n - 1), xs.take(n - 1), env, known) {
            MatchV::Yes(m) => {
                matching_is_complete(ps[n - 1], xs[n - 1], m, known, e);
            },
            _ => {},
        }
    }
}

/// Find the value of a pattern in an environment among the known ones.
pub fn find_known(known: &Vec<PatternValue>, expr: &Expr, env: &Env) -> (r: Option<Option<Atom>>)
    ensures
        (match r {
            Some(o) => known_value(known_values(known@), expr@, env@) == Some(optional_atom(o)),
            None => known_value(known_values(known@), expr@, env@) is None,
        }),
{
    let mut i: usize = 0;
    assert(known_values(known@).skip(0) =~= known_values(known@));
    while i < known.len()
        invariant
            i <= known@.len(),
            known_value(known_values(known@).skip(i as int), expr@, env@) == known_value(
                known_values(known@),
                expr@,
                env@,
            ),
        decreases known@.len() - i,
    {
        assert(known_values(known@).skip(i as int).drop_first() =~= known_values(known@).skip(
            i + 1,
        ));
        if expr_same(&known[i].expr, expr) && env_same(&known[i].env, env) {
            return Some(
                match &known[i].value {
                    Some(a) => Some(a.clone()),
                    None => None,
                },
            );
        }
        i += 1;
    }
    None
}

/// Bind a free name, or compare with the value it has.
fn bind_or_compare(env: &Env, name: &str, value: &Atom) -> (r: Matching)
    ensures
        r@ == bound_to(env@, name@, value@),
{
    match lookup(env, name) {
        Some(b) => if atom_same(&b, value) {
            Matching::Yes(env.clone())
        } else {
            Matching::No
        },
        None => Matching::Yes(bind(env, name, value.clone())),
    }
}

/// Match a literal against an atom.
fn match_literal(value: &Atom, atom: &Atom, env: &Env) -> (r: Matching)
    ensures
        r@ == literal_match(value@, atom@, env@),
{
    if atom_same(atom, value) {
        return Matching::Yes(env.clone());
    }
    match atom {
        Atom::Sym(name) => if is_var(name.as_str()) {
            bind_or_compare(env, name.as_str(), value)
        } else {
            Matching::No
        },
        _ => Matching::No,
    }
}

/// Match a single pattern against a single atom.
///
/// Variables bind on first occurrence and compare structurally on later
/// occurrences. Lists match expression atoms structurally, with special support
/// for `(cons head tail)` destructuring against non-empty expression atoms.
pub fn try_match_one(
    pattern: &Expr,
    atom: &Atom,
    env: &Env,
    known: &Vec<PatternValue>,
) -> (r: Matching)
    ensures
        r@ == match_one(pattern@, atom@, env@, known_values(known@)),
    decreases pattern,
{
    broadcast use {group_exprs, group_atoms};

    match pattern {
        Expr::Symbol(s) => {
            if is_var(s.as_str()) {
                bind_or_compare(env, s.as_str(), atom)
            } else {
                match_literal(&Atom::sym(s.as_str()), atom, env)
            }
        },
        Expr::Number(n) => match_literal(&Atom::Num(n.clone()), atom, env),
        Expr::Str(s) => match_literal(&Atom::Str(s.clone()), atom, env),
        Expr::List(items) => {
            let is_cons = items.len() == 3 && (match &items[0] {
                Expr::Symbol(head) => same(head.as_str(), "cons"),
                _ => false,
            });
            assert(is_cons == is_cons_pattern(exprs(items@)));
            if is_cons {
                match atom {
                    Atom::Expr(elements) => {
                        if elements.len() > 0 {
                            assert(decreases_to!(pattern => pattern->List_0@[1]));
                            assert(decreases_to!(pattern => pattern->List_0@[2]));
                            match try_match_one(&items[1], &elements[0], env, known) {
                                Matching::Yes(e) => {
                                    let tail = Atom::Expr(Arc::new(copy_atoms(elements, 1)));
                                    assert(atoms(elements@.skip(1)) =~= atoms(elements@).skip(1));
                                    try_match_one(&items[2], &tail, &e, known)
                                },
                                other => other,
                            }
                        } else {
                            Matching::No
                        }
                    },
                    _ => Matching::No,
                }
            } else {
                match atom {
                    Atom::Expr(elements) => {
                        if items.len() != elements.len() {
                            return Matching::No;
                        }
                        let ghost ps = exprs(items@);
                        let ghost xs = atoms(elements@);
                        let ghost kn = known_values(known@);
                        let mut current: Env = env.clone();
                        let mut i: usize = 0;
                        assert(ps.take(0) =~= Seq::<ExprV>::empty());
                        while i < items.len()
                            invariant
                                i <= items@.len(),
                                items@.len() == elements@.len(),
                                *pattern == Expr::List(*items),
                                *atom == Atom::Expr(*elements),
                                ps == exprs(items@),
                                xs == atoms(elements@),
                                kn == known_values(known@),
                                !is_cons_pattern(ps),
                                match_all(ps.take(i as int), xs.take(i as int), env@, kn)
                                    == MatchV::Yes(current@),
                            decreases items@.len() - i,
                        {
                            assert(decreases_to!(pattern => pattern->List_0@[i as int]));
                            assert(ps.take(i + 1).drop_last() =~= ps.take(i as int));
                            assert(xs.take(i + 1).drop_last() =~= xs.take(i as int));
                            match try_match_one(&items[i], &elements[i], &current, known) {
                                Matching::Yes(e) => {
                                    current = e;
                                },
                                other => {
                                    proof {
                                        lemma_match_all_stops(ps, xs, env@, kn, i + 1);
                                    }
                                    return other;
                                },
                            }
                            i += 1;
                        }
                        assert(ps.take(i as int) =~= ps);
                        assert(xs.take(i as int) =~= xs);
                        Matching::Yes(current)
                    },
                    Atom::Sym(name) => {
                        if is_var(name.as_str()) {
                            match find_known(known, pattern, env) {
                                Some(Some(v)) => Matching::Yes(bind(env, name.as_str(), v)),
                                Some(None) => Matching::No,
                                None => Matching::Ask(pattern.clone(), env.clone()),
                            }
                        } else {
                            Matching::No
                        }
                    },
                    _ => Matching::No,
                }
            }
        },
    }
}

/// Matching a clause's patterns against arguments: the bindings come in front
/// of the given environment.
pub open spec fn match_patterns(
    ps: Seq<ExprV>,
    xs: Seq<AtomV>,
    env: EnvV,
    known: Seq<KnownV>,
) -> MatchV {
    if ps.len() != xs.len() {
        MatchV::No
    } else {
        match match_all(ps, xs, EnvV::Empty, known) {
            MatchV::Yes(e) => MatchV::Yes(linked(e, env)),
            other => other,
        }
    }
}

/// Match argument patterns against atoms from left to right, starting without
/// bindings.
pub fn match_each(patterns: &Vec<Expr>, args: &Vec<Atom>, known: &Vec<PatternValue>) -> (r:
    Matching)
    requires
        patterns@.len() == args@.len(),
    ensures
        r@ == match_all(exprs(patterns@), atoms(args@), EnvV::Empty, known_values(known@)),
{
    broadcast use {group_exprs, group_atoms};

    let ghost ps = exprs(patterns@);
    let ghost xs = atoms(args@);
    let ghost kn = known_values(known@);
    let mut current: Env = Env::new();
    let mut i: usize = 0;
    while i < patterns.len()
        invariant
            i <= patterns@.len(),
            patterns@.len() == args@.len(),
            ps == exprs(patterns@),
            xs == atoms(args@),
            kn == known_values(known@),
            match_all(ps.take(i as int), xs.take(i as int), EnvV::Empty, kn) == MatchV::Yes(
                current@,
            ),
        decreases patterns@.len() - i,
    {
        assert(ps.take(i + 1).drop_last() =~= ps.take(i as int));
        assert(xs.take(i + 1).drop_last() =~= xs.take(i as int));
        match try_match_one(&patterns[i], &args[i], &current, known) {
            Matching::Yes(e) => {
                current = e;
            },
            other => {
                proof {
                    lemma_match_all_stops(ps, xs, EnvV::Empty, kn, i + 1);
                }
                return other;
            },
        }
        i += 1;
    }
    assert(ps.take(i as int) =~= ps);
    assert(xs.take(i as int) =~= xs);
    Matching::Yes(current)
}

/// Match a clause's argument patterns against evaluated argument atoms.
///
/// Returns the extended environment when every pattern matches its
/// corresponding argument.
pub fn try_match_clause(
    patterns: &Vec<Expr>,
    args: &Vec<Atom>,
    env: &Env,
    known: &Vec<PatternValue>,
) -> (r: Matching)
    ensures
        r@ == match_patterns(exprs(patterns@), atoms(args@), env@, known_values(known@)),
{
    broadcast use {group_exprs, group_atoms};

    if patterns.len() != args.len() {
        return Matching::No;
    }
    match match_each(patterns, args, known) {
        Matching::Yes(e) => Matching::Yes(prepend_env(e, env)),
        other => other,
    }
}

/// Prepend one environment chain onto another environment.
///
/// The bindings of `match_env` stay in front of `base`, in their order.
pub fn prepend_env(match_env: Env, base: &Env) -> (r: Env)
    ensures
        r@ == linked(match_env@, base@),
{
    prepend_chain(match_env, base)
}

} // verus!
