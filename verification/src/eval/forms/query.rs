//! Helpers for query-style evaluation.
//!
//! This module contains the logic used for user-function application: clause
//! lookup, clause matching, and the cost of the bindings a match makes.
use crate::atom::Atom;
use crate::atom::AtomV;
use crate::atom::atoms;
use crate::atom::canonical_name;
use crate::atom::group_atoms;
use crate::compile::reify::atom_to_expr;
use crate::compile::reify::is_plain;
use crate::compile::reify::to_expr;
use crate::compile::reify::to_exprs;
use crate::env::Env;
use crate::env::EnvNode;
use crate::env::EnvV;
use crate::eval::machine::budget::add_costs;
use crate::eval::machine::budget::atom_cost;
use crate::eval::machine::budget::calculate_cost;
use crate::eval::machine::budget::capped;
use crate::eval::shared::env::linked;
use crate::eval::shared::pattern::KnownV;
use crate::eval::shared::pattern::MatchV;
use crate::eval::shared::pattern::Matching;
use crate::eval::shared::pattern::PatternValue;
use crate::eval::shared::pattern::known_values;
use crate::eval::shared::pattern::match_all;
use crate::eval::shared::pattern::match_each;
use crate::eval::shared::pattern::prepend_env;
use crate::eval::shared::pattern::stands_in;
use crate::eval::shared::pattern::stands_in_one;
use crate::expr::Expr;
use crate::expr::ExprV;
use crate::expr::exprs;
use crate::expr::group_exprs;
use crate::func::Clause;
use crate::func::ClauseV;
use crate::func::FnTable;
use crate::func::TableV;
use crate::func::clauses;
use crate::func::copy_clauses;
use crate::space::with_atom;
use crate::text::is_var;
use crate::text::is_var_name;
use crate::text::lower_text;
use crate::text::nat_digits;
use crate::text::push_char;
use crate::text::same;
use crate::text::texts;
use crate::text::to_lower;
use crate::text::usize_text;
use vstd::prelude::*;
use vstd::string::*;

verus! {

/// The cost of the values that an environment binds.
pub open spec fn env_cost(e: EnvV) -> nat
    decreases e,
{
    match e {
        EnvV::Empty => 0,
        EnvV::Cons(_, value, next) => atom_cost(*value) + env_cost(*next),
        EnvV::Link(prefix, base) => env_cost(*prefix) + env_cost(*base),
    }
}

/// Compute the total structural cost of the bindings in an environment, up to
/// the largest `i64`.
pub fn env_binding_cost(env: &Env) -> (r: i64)
    ensures
        r == capped(env_cost(env@) as int),
        r >= 0,
    decreases env,
{
    match &*env.0 {
        EnvNode::Empty => 0,
        EnvNode::Cons { name, value, next } => {
            let c: i64 = match calculate_cost(value) {
                Some(c) => c,
                None => 0,
            };
            let rest: i64 = env_binding_cost(next);
            add_costs(c, rest)
        },
        EnvNode::Link { prefix, base } => {
            let x: i64 = env_binding_cost(prefix);
            let y: i64 = env_binding_cost(base);
            add_costs(x, y)
        },
    }
}

/// The outcome of matching a clause.
pub enum ClauseMatch {
    /// The clause does not match.
    No,
    /// The clause matches: the environment of its body, and the cost of the
    /// bindings.
    Yes(Env, i64),
    /// The value of this expression in this environment is needed first.
    Ask(Expr, Env),
}

/// The outcome of matching a clause, as a value.
pub enum ClauseMatchV {
    /// No match.
    No,
    /// A match.
    Yes(EnvV, i64),
    /// A value is missing.
    Ask(ExprV, EnvV),
}

impl View for ClauseMatch {
    type V = ClauseMatchV;

    open spec fn view(&self) -> ClauseMatchV {
        match self {
            ClauseMatch::No => ClauseMatchV::No,
            ClauseMatch::Yes(e, c) => ClauseMatchV::Yes(e@, *c),
            ClauseMatch::Ask(x, e) => ClauseMatchV::Ask(x@, e@),
        }
    }
}

/// Matching the patterns of a clause against arguments.
pub open spec fn clause_match(
    ps: Seq<ExprV>,
    xs: Seq<AtomV>,
    base: EnvV,
    known: Seq<KnownV>,
) -> ClauseMatchV {
    if ps.len() != xs.len() {
        ClauseMatchV::No
    } else {
        match match_all(ps, xs, EnvV::Empty, known) {
            MatchV::Yes(e) => ClauseMatchV::Yes(linked(e, base), capped(env_cost(e) as int)),
            MatchV::No => ClauseMatchV::No,
            MatchV::Ask(x, e) => ClauseMatchV::Ask(x, e),
        }
    }
}

/// Match one clause against one argument combination.
///
/// On success, this returns the environment produced by the match together with
/// the structural cost of the produced substitution.
pub fn match_clause(
    patterns: &Vec<Expr>,
    args: &Vec<Atom>,
    base_env: &Env,
    known: &Vec<PatternValue>,
) -> (r: ClauseMatch)
    ensures
        r@ == clause_match(
            exprs(patterns@),
            atoms(args@),
            base_env@,
            known_values(known@),
        ),
{
    broadcast use {group_exprs, group_atoms};

    if patterns.len() != args.len() {
        return ClauseMatch::No;
    }
    match match_each(patterns, args, known) {
        Matching::Yes(e) => {
            let cost: i64 = env_binding_cost(&e);
            ClauseMatch::Yes(prepend_env(e, base_env), cost)
        },
        Matching::No => ClauseMatch::No,
        Matching::Ask(x, e) => ClauseMatch::Ask(x, e),
    }
}

/// Look up cached user-function clauses by name and arity.
pub fn lookup_user_clauses(name: &str, arity: u8, funcs: &FnTable) -> (r: Option<Vec<Clause>>)
    ensures
        (match r {
            Some(cs) => funcs@.clauses_of(name@, arity) == Some(clauses(cs@)),
            None => funcs@.clauses_of(name@, arity) is None,
        }),
{
    match funcs.clauses_of(name, arity) {
        Some(cs) => Some(copy_clauses(cs)),
        None => None,
    }
}

/// The clause of a function that an atom `(= (name patterns...) body)` states.
pub open spec fn clause_in(a: AtomV, name: Seq<char>, arity: u8) -> Option<ClauseV> {
    if a is Expr && a->Expr_0.len() == 3 && a->Expr_0[0] == AtomV::Sym("="@) && a->Expr_0[1] is Expr
        && a->Expr_0[1]->Expr_0.len() == arity + 1 && a->Expr_0[1]->Expr_0[0] == AtomV::Sym(name)
        && canonical_name(name) == name {
        Some(
            ClauseV {
                patterns: to_exprs(a->Expr_0[1]->Expr_0.skip(1)),
                body: to_expr(a->Expr_0[2]),
            },
        )
    } else {
        None
    }
}

/// The clauses of a function that atoms state, in order.
pub open spec fn clauses_in(s: Seq<AtomV>, name: Seq<char>, arity: u8) -> Seq<ClauseV>
    decreases s.len(),
{
    if s.len() == 0 {
        Seq::empty()
    } else {
        let before = clauses_in(s.drop_last(), name, arity);
        match clause_in(s.last(), name, arity) {
            Some(c) => before.push(c),
            None => before,
        }
    }
}

/// Convert atoms into expressions, from a position on.
fn exprs_from(list: &Vec<Atom>, from: usize) -> (r: Vec<Expr>)
    requires
        from <= list@.len(),
    ensures
        exprs(r@) == to_exprs(atoms(list@).skip(from as int)),
{
    broadcast use {group_exprs, group_atoms};

    let mut out: Vec<Expr> = Vec::new();
    let ghost want = to_exprs(atoms(list@).skip(from as int));
    let mut i: usize = from;
    assert(exprs(out@) =~= want.take(0));
    while i < list.len()
        invariant
            from <= i <= list@.len(),
            want == to_exprs(atoms(list@).skip(from as int)),
            exprs(out@) == want.take(i - from),
        decreases list@.len() - i,
    {
        match atom_to_expr(&list[i]) {
            Ok(e) => {
                out.push(e);
            },
            Err(_) => {},
        }
        assert(want.take(i - from + 1) =~= want.take(i - from).push(want[i - from]));
        i += 1;
    }
    assert(want.take(list@.len() - from) =~= want);
    out
}

/// Take the clause of a function that an atom states.
fn clause_of_atom(a: &Atom, name: &str, arity: u8) -> (r: Option<Clause>)
    ensures
        (match r {
            Some(c) => clause_in(a@, name@, arity) == Some(c@),
            None => clause_in(a@, name@, arity) is None,
        }),
{
    broadcast use group_atoms;

    if same(name, "True") || same(name, "False") {
        proof {
            reveal_strlit("True");
            reveal_strlit("False");
            reveal_strlit("true");
            reveal_strlit("false");
            assert("True"@[0] == 'T' && "true"@[0] == 't');
            assert("False"@[0] == 'F' && "false"@[0] == 'f');
        }
        return None;
    }
    match a {
        Atom::Expr(items) => {
            assert(atoms(items@).len() == items@.len());
            if items.len() != 3 {
                return None;
            }
            let starts = match &items[0] {
                Atom::Sym(s) => same(s.as_str(), "="),
                _ => false,
            };
            if !starts {
                return None;
            }
            match &items[1] {
                Atom::Expr(head) => {
                    assert(a@->Expr_0[1] == items@[1]@);
                    assert(atoms(head@).len() == head@.len());
                    if head.len() != arity as usize + 1 {
                        return None;
                    }
                    let named = match &head[0] {
                        Atom::Sym(s) => same(s.as_str(), name),
                        _ => false,
                    };
                    if !named {
                        return None;
                    }
                    let patterns = exprs_from(head, 1);
                    match atom_to_expr(&items[2]) {
                        Ok(body) => Some(Clause { patterns, body }),
                        Err(_) => None,
                    }
                },
                _ => None,
            }
        },
        _ => None,
    }
}

/// Look up user-function clauses among the atoms of a space.
///
/// Looks for `(= (name ...) body)` atoms and takes patterns and body out of
/// them.
pub fn lookup_user_clauses_via_space(name: &str, arity: u8, funcs: &FnTable) -> (r: Option<
    Vec<Clause>,
>)
    ensures
        (match r {
            Some(cs) => clauses(cs@) == clauses_in(funcs@.space("&self"@), name@, arity) && cs@.len()
                > 0,
            None => clauses_in(funcs@.space("&self"@), name@, arity).len() == 0,
        }),
{
    broadcast use group_atoms;

    let list = funcs.space_atoms("&self");
    let ghost s = atoms(list@);
    let mut out: Vec<Clause> = Vec::new();
    let mut i: usize = 0;
    assert(clauses(out@) =~= clauses_in(s.take(0), name@, arity));
    while i < list.len()
        invariant
            i <= list@.len(),
            s == atoms(list@),
            clauses(out@) == clauses_in(s.take(i as int), name@, arity),
        decreases list@.len() - i,
    {
        assert(s.take(i + 1).drop_last() =~= s.take(i as int));
        assert(s.take(i + 1).last() == list@[i as int]@);
        match clause_of_atom(&list[i], name, arity) {
            Some(c) => {
                let ghost before = clauses(out@);
                out.push(c);
                assert(clauses(out@) =~= before.push(c@));
            },
            None => {},
        }
        i += 1;
    }
    assert(s.take(list@.len() as int) =~= s);
    assert(clauses(out@).len() == out@.len());
    if out.len() == 0 {
        None
    } else {
        Some(out)
    }
}

/// Whether both ways of looking up the clauses of a function agree.
pub open spec fn lookups_agree(t: TableV, name: Seq<char>, arity: u8) -> bool {
    clauses_in(t.space("&self"@), name, arity) == (match t.clauses_of(name, arity) {
        Some(cs) => cs,
        None => Seq::empty(),
    })
}

/// Adding an atom to the program's own space keeps the two ways of looking up
/// clauses in agreement.
///
/// The atom holds no closure and no host object, and if it is a definition, its
/// head has no more arguments than functions are keyed by.
pub proof fn lookups_agree_after_add(t: TableV, a: AtomV, name: Seq<char>, arity: u8)
    requires
        lookups_agree(t, name, arity),
        is_plain(a),
        !is_var_name(name),
        canonical_name(name) == name,
        a is Expr && a->Expr_0.len() == 3 && a->Expr_0[1] is Expr ==> a->Expr_0[1]->Expr_0.len()
            <= 256,
    ensures
        lookups_agree(with_atom(t, "&self"@, a), name, arity),
{
    let s = t.space("&self"@);
    let after = with_atom(t, "&self"@, a);
    assert(after.space("&self"@) =~= s.push(a));
    assert(s.push(a).drop_last() =~= s);
    let e = to_expr(a);
    if let AtomV::Expr(items) = a {
        if items.len() == 3 {
            let ei = to_exprs(items);
            assert(ei.len() == 3);
            assert(ei[0] == to_expr(items[0]));
            assert(ei[1] == to_expr(items[1]));
            assert(ei[2] == to_expr(items[2]));
            assert(is_plain(a->Expr_0[0]));
            assert(is_plain(a->Expr_0[1]));
            if let AtomV::Expr(head) = items[1] {
                let eh = to_exprs(head);
                assert(eh.len() == head.len());
                if head.len() > 0 {
                    assert(eh[0] == to_expr(head[0]));
                    assert(is_plain(items[1]->Expr_0[0]));
                    assert(eh.skip(1) =~= to_exprs(head.skip(1)));
                }
            }
        }
    }
}

/// The text of an expression with variables numbered by first occurrence and
/// boolean names in lower case, and the variables met so far.
pub open spec fn canon(e: ExprV, names: Seq<Seq<char>>) -> (Seq<char>, Seq<Seq<char>>)
    decreases e,
{
    match e {
        ExprV::Symbol(s) => if is_var_name(s) {
            if names.contains(s) {
                (seq!['$'] + nat_digits(names.index_of_first(s)->Some_0 as nat), names)
            } else {
                (seq!['$'] + nat_digits(names.len()), names.push(s))
            }
        } else if lower_text(s) == "true"@ || lower_text(s) == "false"@ {
            (lower_text(s), names)
        } else {
            (s, names)
        },
        ExprV::Str(s) => (seq!['"'] + s + seq!['"'], names),
        ExprV::Number(n) => (n.text(), names),
        ExprV::List(items) => {
            let inner = canon_all(items, names);
            (seq!['('] + inner.0 + seq![')'], inner.1)
        },
    }
}

/// The texts of expressions with one space between each two of them.
pub open spec fn canon_all(items: Seq<ExprV>, names: Seq<Seq<char>>) -> (
    Seq<char>,
    Seq<Seq<char>>,
)
    decreases items,
{
    if items.len() == 0 {
        (Seq::empty(), names)
    } else {
        let before = canon_all(items.drop_last(), names);
        let last = canon(items.last(), before.1);
        (
            if items.len() == 1 {
                last.0
            } else {
                before.0 + seq![' '] + last.0
            },
            last.1,
        )
    }
}

/// The texts of patterns, each followed by a space.
pub open spec fn canon_patterns(ps: Seq<ExprV>, names: Seq<Seq<char>>) -> (
    Seq<char>,
    Seq<Seq<char>>,
)
    decreases ps.len(),
{
    if ps.len() == 0 {
        (Seq::empty(), names)
    } else {
        let before = canon_patterns(ps.drop_last(), names);
        let last = canon(ps.last(), before.1);
        (before.0 + last.0 + seq![' '], last.1)
    }
}

/// The text of a clause that does not depend on how its variables are named.
pub open spec fn canon_text(c: ClauseV) -> Seq<char> {
    let ps = canon_patterns(c.patterns, Seq::empty());
    ps.0 + "=> "@ + canon(c.body, ps.1).0
}

/// Append the text of an expression with its variables numbered.
fn canon_expr(e: &Expr, names: &mut Vec<String>, out: &mut String)
    ensures
        final(out)@ == old(out)@ + canon(e@, texts(old(names)@)).0,
        texts(final(names)@) == canon(e@, texts(old(names)@)).1,
    decreases e,
{
    broadcast use group_exprs;

    match e {
        Expr::Symbol(s) => {
            if is_var(s.as_str()) {
                let ghost ns = texts(names@);
                let mut i: usize = 0;
                while i < names.len() && !same(names[i].as_str(), s.as_str())
                    invariant
                        i <= names@.len(),
                        ns == texts(names@),
                        forall|j: int| 0 <= j < i ==> #[trigger] ns[j] != s@,
                    decreases names@.len() - i,
                {
                    assert(ns[i as int] == names@[i as int]@);
                    i += 1;
                }
                push_char(out, '$');
                let digits = usize_text(i);
                out.append(digits.as_str());
                if i == names.len() {
                    assert(!ns.contains(s@));
                    names.push(s.clone());
                    assert(texts(names@) =~= ns.push(s@));
                } else {
                    proof {
                        assert(ns[i as int] == s@);
                        assert(ns.contains(s@));
                        ns.index_of_first_ensures(s@);
                        let k = ns.index_of_first(s@)->Some_0;
                        assert(k == i);
                    }
                }
                assert(out@ =~= old(out)@ + canon(e@, ns).0);
            } else {
                let low = to_lower(s.as_str());
                if same(low.as_str(), "true") || same(low.as_str(), "false") {
                    out.append(low.as_str());
                } else {
                    out.append(s.as_str());
                }
            }
        },
        Expr::Str(s) => {
            push_char(out, '"');
            out.append(s.as_str());
            push_char(out, '"');
            assert(out@ =~= old(out)@ + (seq!['"'] + s@ + seq!['"']));
        },
        Expr::Number(n) => {
            let t = n.to_text();
            out.append(t.as_str());
        },
        Expr::List(items) => {
            let ghost ns = texts(names@);
            let ghost es = exprs(items@);
            push_char(out, '(');
            let mut i: usize = 0;
            assert(es.take(0) =~= Seq::<ExprV>::empty());
            assert(out@ =~= old(out)@ + seq!['('] + canon_all(es.take(0), ns).0);
            while i < items.len()
                invariant
                    i <= items@.len(),
                    *e == Expr::List(*items),
                    es == exprs(items@),
                    out@ == old(out)@ + seq!['('] + canon_all(es.take(i as int), ns).0,
                    texts(names@) == canon_all(es.take(i as int), ns).1,
                decreases items@.len() - i,
            {
                if i > 0 {
                    push_char(out, ' ');
                }
                assert(decreases_to!(e => e->List_0@[i as int]));
                canon_expr(&items[i], names, out);
                assert(es.take(i + 1).drop_last() =~= es.take(i as int));
                assert(out@ =~= old(out)@ + seq!['('] + canon_all(es.take(i + 1), ns).0);
                i += 1;
            }
            assert(es.take(items@.len() as int) =~= es);
            push_char(out, ')');
            assert(out@ =~= old(out)@ + canon(e@, ns).0);
        },
    }
}

/// Canonicalize a clause to a text that does not depend on how its variables
/// are named: they are renamed to `$0`, `$1`, ... by first occurrence across
/// patterns and then body.
pub fn canon_clause(clause: &Clause) -> (r: String)
    ensures
        r@ == canon_text(clause@),
{
    broadcast use group_exprs;

    let mut names: Vec<String> = Vec::new();
    let mut out: String = String::new();
    let ghost ps = clause@.patterns;
    let mut i: usize = 0;
    assert(texts(names@) =~= Seq::<Seq<char>>::empty());
    assert(out@ =~= canon_patterns(ps.take(0), Seq::empty()).0);
    while i < clause.patterns.len()
        invariant
            i <= clause.patterns@.len(),
            ps == clause@.patterns,
            ps == exprs(clause.patterns@),
            out@ == canon_patterns(ps.take(i as int), Seq::empty()).0,
            texts(names@) == canon_patterns(ps.take(i as int), Seq::empty()).1,
        decreases clause.patterns@.len() - i,
    {
        canon_expr(&clause.patterns[i], &mut names, &mut out);
        push_char(&mut out, ' ');
        assert(ps.take(i + 1).drop_last() =~= ps.take(i as int));
        assert(out@ =~= canon_patterns(ps.take(i + 1), Seq::empty()).0);
        i += 1;
    }
    assert(ps.take(ps.len() as int) =~= ps);
    out.append("=> ");
    canon_expr(&clause.body, &mut names, &mut out);
    out
}

/// An expression with its variables renamed.
pub open spec fn renamed(e: ExprV, f: spec_fn(Seq<char>) -> Seq<char>) -> ExprV
    decreases e,
{
    match e {
        ExprV::Symbol(s) => if is_var_name(s) {
            ExprV::Symbol(f(s))
        } else {
            e
        },
        ExprV::List(items) => ExprV::List(all_renamed(items, f)),
        _ => e,
    }
}

/// Expressions with their variables renamed.
pub open spec fn all_renamed(s: Seq<ExprV>, f: spec_fn(Seq<char>) -> Seq<char>) -> Seq<ExprV>
    decreases s,
{
    Seq::new(
        s.len(),
        |i: int|
            if 0 <= i < s.len() {
                renamed(s[i], f)
            } else {
                arbitrary()
            },
    )
}

/// Names renamed.
pub open spec fn mapped(names: Seq<Seq<char>>, f: spec_fn(Seq<char>) -> Seq<char>) -> Seq<
    Seq<char>,
> {
    Seq::new(names.len(), |i: int| f(names[i]))
}

/// The variables of a clause.
pub open spec fn clause_variables(c: ClauseV) -> Set<Seq<char>> {
    Set::new(
        |x: Seq<char>|
            is_var_name(x) && (stands_in_one(c.patterns, x) || stands_in(c.body, x)),
    )
}

/// Whether a renaming takes given variables to variables, different ones to
/// different ones.
pub open spec fn is_renaming(f: spec_fn(Seq<char>) -> Seq<char>, vars: Set<Seq<char>>) -> bool {
    &&& forall|x: Seq<char>| vars.contains(x) ==> is_var_name(#[trigger] f(x))
    &&& forall|x: Seq<char>, y: Seq<char>|
        vars.contains(x) && vars.contains(y) && #[trigger] f(x) == #[trigger] f(y) ==> x == y
}

/// Whether the variables of an expression are among the given ones.
spec fn is_covered(e: ExprV, vars: Set<Seq<char>>) -> bool {
    forall|x: Seq<char>| is_var_name(x) && #[trigger] stands_in(e, x) ==> vars.contains(x)
}

/// Whether the variables of expressions are among the given ones.
spec fn are_covered(s: Seq<ExprV>, vars: Set<Seq<char>>) -> bool {
    forall|i: int| 0 <= i < s.len() ==> is_covered(#[trigger] s[i], vars)
}

/// Whether all names of a list are among the given ones.
spec fn are_given(names: Seq<Seq<char>>, vars: Set<Seq<char>>) -> bool {
    forall|i: int| 0 <= i < names.len() ==> vars.contains(#[trigger] names[i])
}

/// Renaming does not change the numbered text.
proof fn lemma_canon_renamed(
    e: ExprV,
    names: Seq<Seq<char>>,
    f: spec_fn(Seq<char>) -> Seq<char>,
    vars: Set<Seq<char>>,
)
    requires
        is_renaming(f, vars),
        is_covered(e, vars),
        are_given(names, vars),
    ensures
        canon(renamed(e, f), mapped(names, f)).0 == canon(e, names).0,
        canon(renamed(e, f), mapped(names, f)).1 == mapped(canon(e, names).1, f),
        are_given(canon(e, names).1, vars),
    decreases e,
{
    match e {
        ExprV::Symbol(s) => {
            if is_var_name(s) {
                let ms = mapped(names, f);
                assert(stands_in(e, s));
                if names.contains(s) {
                    names.index_of_first_ensures(s);
                    let k = names.index_of_first(s)->Some_0;
                    assert(ms[k] == f(s));
                    assert(ms.contains(f(s)));
                    ms.index_of_first_ensures(f(s));
                    let j = ms.index_of_first(f(s))->Some_0;
                    assert(ms[j] == f(names[j]));
                    if j < k {
                        assert(names[j] == s);
                    }
                    if k < j {
                        assert(ms[k] == f(s));
                    }
                    assert(j == k);
                } else {
                    if ms.contains(f(s)) {
                        let j = choose|j: int| 0 <= j < ms.len() && ms[j] == f(s);
                        assert(f(names[j]) == f(s));
                        assert(names[j] == s);
                    }
                    assert(ms.push(f(s)) =~= mapped(names.push(s), f));
                }
            }
        },
        ExprV::List(items) => {
            assert forall|i: int| 0 <= i < items.len() implies is_covered(
                #[trigger] items[i],
                vars,
            ) by {
                assert forall|x: Seq<char>| is_var_name(x) && #[trigger] stands_in(
                    items[i],
                    x,
                ) implies vars.contains(x) by {
                    assert(stands_in(e, x));
                }
            }
            lemma_canon_all_renamed(items, names, f, vars);
        },
        _ => {},
    }
}

/// Renaming does not change the numbered texts.
proof fn lemma_canon_all_renamed(
    items: Seq<ExprV>,
    names: Seq<Seq<char>>,
    f: spec_fn(Seq<char>) -> Seq<char>,
    vars: Set<Seq<char>>,
)
    requires
        is_renaming(f, vars),
        are_covered(items, vars),
        are_given(names, vars),
    ensures
        canon_all(all_renamed(items, f), mapped(names, f)).0 == canon_all(items, names).0,
        canon_all(all_renamed(items, f), mapped(names, f)).1 == mapped(
            canon_all(items, names).1,
            f,
        ),
        are_given(canon_all(items, names).1, vars),
    decreases items,
{
    if items.len() > 0 {
        assert(all_renamed(items, f).drop_last() =~= all_renamed(items.drop_last(), f));
        assert(are_covered(items.drop_last(), vars)) by {
            assert forall|i: int| 0 <= i < items.drop_last().len() implies is_covered(
                #[trigger] items.drop_last()[i],
                vars,
            ) by {
                assert(items.drop_last()[i] == items[i]);
            }
        }
        lemma_canon_all_renamed(items.drop_last(), names, f, vars);
        assert(items.last() == items[items.len() - 1]);
        lemma_canon_renamed(items.last(), canon_all(items.drop_last(), names).1, f, vars);
    }
}

/// Renaming does not change the numbered texts of patterns.
proof fn lemma_canon_patterns_renamed(
    ps: Seq<ExprV>,
    names: Seq<Seq<char>>,
    f: spec_fn(Seq<char>) -> Seq<char>,
    vars: Set<Seq<char>>,
)
    requires
        is_renaming(f, vars),
        are_covered(ps, vars),
        are_given(names, vars),
    ensures
        canon_patterns(all_renamed(ps, f), mapped(names, f)).0 == canon_patterns(ps, names).0,
        canon_patterns(all_renamed(ps, f), mapped(names, f)).1 == mapped(
            canon_patterns(ps, names).1,
            f,
        ),
        are_given(canon_patterns(ps, names).1, vars),
    decreases ps.len(),
{
    if ps.len() > 0 {
        assert(all_renamed(ps, f).drop_last() =~= all_renamed(ps.drop_last(), f));
        assert(are_covered(ps.drop_last(), vars)) by {
            assert forall|i: int| 0 <= i < ps.drop_last().len() implies is_covered(
                #[trigger] ps.drop_last()[i],
                vars,
            ) by {
                assert(ps.drop_last()[i] == ps[i]);
            }
        }
        lemma_canon_patterns_renamed(ps.drop_last(), names, f, vars);
        assert(ps.last() == ps[ps.len() - 1]);
        lemma_canon_renamed(ps.last(), canon_patterns(ps.drop_last(), names).1, f, vars);
    }
}

/// The canonical text of a clause does not depend on how its variables are
/// named: a renaming that keeps the variables of the clause apart changes
/// nothing.
pub proof fn canon_ignores_names(c: ClauseV, f: spec_fn(Seq<char>) -> Seq<char>)
    requires
        is_renaming(f, clause_variables(c)),
    ensures
        canon_text(ClauseV { patterns: all_renamed(c.patterns, f), body: renamed(c.body, f) })
            == canon_text(c),
{
    let vars = clause_variables(c);
    assert forall|i: int| 0 <= i < c.patterns.len() implies is_covered(
        #[trigger] c.patterns[i],
        vars,
    ) by {
        assert forall|x: Seq<char>| is_var_name(x) && #[trigger] stands_in(
            c.patterns[i],
            x,
        ) implies vars.contains(x) by {
            assert(stands_in_one(c.patterns, x));
        }
    }
    assert(mapped(Seq::empty(), f) =~= Seq::<Seq<char>>::empty());
    lemma_canon_patterns_renamed(c.patterns, Seq::empty(), f, vars);
    lemma_canon_renamed(c.body, canon_patterns(c.patterns, Seq::empty()).1, f, vars);
}

/// Whether names are those given before, followed by the other variables of an
/// expression, each once if those given before were.
pub open spec fn adds_variables(e: ExprV, a: Seq<Seq<char>>, b: Seq<Seq<char>>) -> bool {
    &&& a.is_prefix_of(b)
    &&& a.no_duplicates() ==> b.no_duplicates()
    &&& forall|x: Seq<char>| #[trigger]
        b.contains(x) <==> a.contains(x) || (is_var_name(x) && stands_in(e, x))
}

/// The variables of an expression are numbered by their first occurrence: the
/// names that were numbered before keep their numbers, and each other variable
/// gets the next number where it is met first.
pub proof fn variables_are_numbered_in_order(e: ExprV, names: Seq<Seq<char>>)
    ensures
        adds_variables(e, names, canon(e, names).1),
        e matches ExprV::Symbol(s) ==> is_var_name(s) ==> ({
            let after = canon(e, names).1;
            after.contains(s) && canon(e, names).0 == seq!['$'] + nat_digits(
                after.index_of_first(s)->Some_0 as nat,
            )
        }),
    decreases e,
{
    match e {
        ExprV::Symbol(s) => {
            let after = canon(e, names).1;
            if is_var_name(s) {
                if names.contains(s) {
                    names.index_of_first_ensures(s);
                } else {
                    let n = names.len() as int;
                    assert(after == names.push(s));
                    assert(after[n] == s);
                    after.index_of_first_ensures(s);
                    let k = after.index_of_first(s)->Some_0;
                    if k < n {
                        assert(names[k] == s);
                    }
                    assert(k == n);
                    assert forall|x: Seq<char>| names.contains(x) implies #[trigger] after.contains(
                        x,
                    ) by {
                        let j = choose|j: int| 0 <= j < names.len() && names[j] == x;
                        assert(after[j] == x);
                    }
                    assert forall|x: Seq<char>| #[trigger]
                        after.contains(x) implies names.contains(x) || x == s by {
                        let j = choose|j: int| 0 <= j < after.len() && after[j] == x;
                        if j < n {
                            assert(names[j] == x);
                        }
                    }
                }
            }
        },
        ExprV::List(items) => {
            lemma_numbered_in_order(items, names);
        },
        _ => {},
    }
}

/// The variables of expressions are numbered in order.
proof fn lemma_numbered_in_order(items: Seq<ExprV>, names: Seq<Seq<char>>)
    ensures
        adds_variables(ExprV::List(items), names, canon_all(items, names).1),
    decreases items,
{
    if items.len() > 0 {
        let front = items.drop_last();
        let mid = canon_all(front, names).1;
        let after = canon_all(items, names).1;
        lemma_numbered_in_order(front, names);
        variables_are_numbered_in_order(items.last(), mid);
        assert forall|x: Seq<char>| #[trigger]
            stands_in(ExprV::List(items), x) == (stands_in(ExprV::List(front), x) || stands_in(
                items.last(),
                x,
            )) by {
            if stands_in(ExprV::List(items), x) {
                let i = choose|i: int| 0 <= i < items.len() && stands_in(#[trigger] items[i], x);
                if i < front.len() {
                    assert(front[i] == items[i]);
                }
            }
            if stands_in(ExprV::List(front), x) {
                let i = choose|i: int| 0 <= i < front.len() && stands_in(#[trigger] front[i], x);
                assert(items[i] == front[i]);
            }
            assert(items[items.len() - 1] == items.last());
        }
        assert forall|x: Seq<char>| #[trigger]
            after.contains(x) <==> names.contains(x) || (is_var_name(x) && stands_in(
                ExprV::List(items),
                x,
            )) by {
            assert(mid.contains(x) <==> names.contains(x) || (is_var_name(x) && stands_in(
                ExprV::List(front),
                x,
            )));
        }
    }
}

} // verus!
