//! Matching of patterns by a tree walk.
use crate::atom::Atom;
use crate::atom::AtomV;
use crate::atom::atom_same;
use crate::atom::atoms;
use crate::atom::group_atoms;
use crate::atom::symbol;
use crate::env::Env;
use crate::env::EnvV;
use crate::env::env_get;
use crate::eval::machine::vm::call::match_clauses;
use crate::eval::shared::env::bind;
use crate::eval::shared::env::linked;
use crate::eval::shared::env::prepend_chain;
use crate::eval::shared::pattern::match_each;
use crate::eval::shared::pattern::try_match_clause;
use crate::eval::shared::pattern::try_match_one;
use crate::eval::walker::Stop;
use crate::eval::walker::StopV;
use crate::eval::walker::WalkV;
use crate::eval::walker::Walker;
use crate::eval::walker::walked;
use crate::expr::Expr;
use crate::expr::ExprV;
use crate::expr::exprs;
use crate::expr::group_exprs;
use crate::func::Clause;
use crate::func::ClauseV;
use crate::func::clauses;
use crate::text::is_var;
use crate::text::is_var_name;
use vstd::prelude::*;
use vstd::string::*;

verus! {

/// The environment of a match, if there is one, or why evaluation stops, and
/// the state that is left.
pub type FitV = (Result<Option<EnvV>, StopV>, WalkV);

/// The value of the environment of a match, or of why evaluation stops.
pub open spec fn fit_value(r: Result<Option<Env>, Stop>) -> Result<Option<EnvV>, StopV> {
    match r {
        Ok(Some(e)) => Ok(Some(e@)),
        Ok(None) => Ok(None),
        Err(e) => Err(e@),
    }
}

/// Binding a variable in front of an environment.
pub open spec fn bound(name: Seq<char>, a: AtomV, env: EnvV) -> Option<EnvV> {
    Some(EnvV::Cons(name, Box::new(a), Box::new(env)))
}

/// Matching a literal: the same value, or a free variable that is bound to it.
pub open spec fn literal_fit(value: AtomV, a: AtomV, env: EnvV) -> Option<EnvV> {
    if a == value {
        Some(env)
    } else {
        match a {
            AtomV::Sym(v) => if is_var_name(v) {
                bound(v, value, env)
            } else {
                None
            },
            _ => None,
        }
    }
}

/// The number of parts of an expression.
pub open spec fn weight(e: ExprV) -> nat
    decreases e,
{
    match e {
        ExprV::List(items) => 1 + weights(items),
        _ => 1,
    }
}

/// The number of parts of expressions.
pub open spec fn weights(s: Seq<ExprV>) -> nat
    decreases s,
{
    if s.len() == 0 {
        0
    } else {
        weight(s.last()) + weights(s.drop_last())
    }
}

/// An expression has no more parts than those it is among.
pub proof fn lemma_weights(s: Seq<ExprV>, i: int)
    requires
        0 <= i < s.len(),
    ensures
        weight(s[i]) <= weights(s),
    decreases s.len(),
{
    if i < s.len() - 1 {
        lemma_weights(s.drop_last(), i);
    }
}

/// Matching a pattern against an atom.
///
/// A list that meets a free variable is run as code, and the variable is bound
/// to its first value.
pub open spec fn fit(p: ExprV, a: AtomV, env: EnvV, s: WalkV, f: nat) -> FitV
    decreases f, 1nat, weight(p), 0nat,
{
    match p {
        ExprV::Symbol(name) => if is_var_name(name) {
            match env_get(env, name) {
                Some(b) => if b != a {
                    (Ok(None), s)
                } else {
                    (Ok(bound(name, a, env)), s)
                },
                None => (Ok(bound(name, a, env)), s),
            }
        } else {
            (Ok(literal_fit(symbol(name), a, env)), s)
        },
        ExprV::Number(n) => (Ok(literal_fit(AtomV::Num(n), a, env)), s),
        ExprV::Str(t) => (Ok(literal_fit(AtomV::Str(t), a, env)), s),
        ExprV::List(items) => match a {
            AtomV::Expr(elements) => if items.len() != elements.len() {
                (Ok(None), s)
            } else {
                all_fit(items, elements, 0, env, s, f)
            },
            AtomV::Sym(v) => if is_var_name(v) {
                let (r, s2) = walked(p, env, s, f);
                match r {
                    Ok(vs) => if vs.len() > 0 {
                        (Ok(bound(v, vs[0], env)), s2)
                    } else {
                        (Ok(None), s2)
                    },
                    Err(StopV::Error(_)) => (Ok(None), s2),
                    Err(e) => (Err(e), s2),
                }
            } else {
                (Ok(None), s)
            },
            _ => (Ok(None), s),
        },
    }
}

/// Matching patterns against atoms from a position on, each in the environment
/// that the ones before it left.
pub open spec fn all_fit(
    ps: Seq<ExprV>,
    xs: Seq<AtomV>,
    i: nat,
    env: EnvV,
    s: WalkV,
    f: nat,
) -> FitV
    decreases f, 1nat, weights(ps), ps.len() - i,
{
    if i >= ps.len() || i >= xs.len() {
        (Ok(Some(env)), s)
    } else {
        proof {
            lemma_weights(ps, i as int);
        }
        let (r, s2) = fit(ps[i as int], xs[i as int], env, s, f);
        match r {
            Ok(Some(e)) => all_fit(ps, xs, i + 1, e, s2, f),
            other => (other, s2),
        }
    }
}

/// Matching the patterns of a clause, in front of an environment.
pub open spec fn clause_fit(ps: Seq<ExprV>, xs: Seq<AtomV>, base: EnvV, s: WalkV, f: nat) -> FitV
    decreases f, 2nat, 0nat, 0nat,
{
    if ps.len() != xs.len() {
        (Ok(None), s)
    } else {
        let (r, s2) = all_fit(ps, xs, 0, EnvV::Empty, s, f);
        match r {
            Ok(Some(e)) => (Ok(Some(linked(e, base))), s2),
            other => (other, s2),
        }
    }
}

/// A clause that fits: its environment and its body.
pub type FittingV = (EnvV, ExprV);

/// The values of clauses that fit.
pub open spec fn fitting_values(v: Seq<(Env, Expr)>) -> Seq<FittingV> {
    Seq::new(v.len(), |i: int| (v[i].0@, v[i].1@))
}

/// The clauses that fit, from a position on, behind those found before.
pub open spec fn clauses_fit(
    cs: Seq<ClauseV>,
    i: nat,
    xs: Seq<AtomV>,
    base: EnvV,
    before: Seq<FittingV>,
    s: WalkV,
    f: nat,
) -> (Result<Seq<FittingV>, StopV>, WalkV)
    decreases f, 3nat, 0nat, cs.len() - i,
{
    if i >= cs.len() {
        (Ok(before), s)
    } else {
        let (r, s2) = clause_fit(cs[i as int].patterns, xs, base, s, f);
        match r {
            Err(e) => (Err(e), s2),
            Ok(None) => clauses_fit(cs, i + 1, xs, base, before, s2, f),
            Ok(Some(e)) => clauses_fit(
                cs,
                i + 1,
                xs,
                base,
                before.push((e, cs[i as int].body)),
                s2,
                f,
            ),
        }
    }
}

/// Match a literal.
fn fit_literal(value: &Atom, a: &Atom, env: &Env) -> (r: Option<Env>)
    ensures
        fit_value(Ok(r)) == Ok::<Option<EnvV>, StopV>(literal_fit(value@, a@, env@)),
{
    if atom_same(a, value) {
        return Some(env.clone());
    }
    match a {
        Atom::Sym(v) => {
            if is_var(v.as_str()) {
                Some(bind(env, v.as_str(), value.clone()))
            } else {
                None
            }
        },
        _ => None,
    }
}

impl Walker {
    /// Match a single pattern against a single atom.
    pub fn try_match_one(&mut self, p: &Expr, a: &Atom, env: &Env, f: u64) -> (r: Result<
        Option<Env>,
        Stop,
    >)
        ensures
            (fit_value(r), final(self)@) == fit(p@, a@, env@, old(self)@, f as nat),
        decreases f, 1nat, weight(p@), 0nat,
    {
        broadcast use {group_exprs, group_atoms};

        match p {
            Expr::Symbol(name) => {
                if is_var(name.as_str()) {
                    match env.get(name.as_str()) {
                        Some(b) => {
                            if !atom_same(&b, a) {
                                return Ok(None);
                            }
                        },
                        None => {},
                    }
                    Ok(Some(bind(env, name.as_str(), a.clone())))
                } else {
                    let v = Atom::sym(name.as_str());
                    Ok(fit_literal(&v, a, env))
                }
            },
            Expr::Number(n) => {
                let v = Atom::Num(n.clone());
                Ok(fit_literal(&v, a, env))
            },
            Expr::Str(t) => {
                let v = Atom::Str(t.clone());
                Ok(fit_literal(&v, a, env))
            },
            Expr::List(items) => match a {
                Atom::Expr(elements) => {
                    assert(a@ == AtomV::Expr(atoms(elements@)));
                    assert(p@ == ExprV::List(exprs(items@)));
                    assert(exprs(items@).len() == items@.len());
                    assert(atoms(elements@).len() == elements@.len());
                    if items.len() != elements.len() {
                        return Ok(None);
                    }
                    self.match_each(items, elements, env, f)
                },
                Atom::Sym(v) => {
                    if is_var(v.as_str()) {
                        match self.eval(p, env, f) {
                            Ok(vs) => {
                                assert(atoms(vs@).len() == vs@.len());
                                if vs.len() > 0 {
                                    Ok(Some(bind(env, v.as_str(), vs[0].clone())))
                                } else {
                                    Ok(None)
                                }
                            },
                            Err(Stop::Error(_)) => Ok(None),
                            Err(e) => Err(e),
                        }
                    } else {
                        Ok(None)
                    }
                },
                _ => Ok(None),
            },
        }
    }

    /// Match patterns against atoms in order.
    pub fn match_each(&mut self, ps: &Vec<Expr>, xs: &Vec<Atom>, env: &Env, f: u64) -> (r: Result<
        Option<Env>,
        Stop,
    >)
        ensures
            (fit_value(r), final(self)@) == all_fit(
                exprs(ps@),
                atoms(xs@),
                0,
                env@,
                old(self)@,
                f as nat,
            ),
        decreases f, 1nat, weights(exprs(ps@)), ps@.len(),
    {
        broadcast use {group_exprs, group_atoms};

        let ghost pv = exprs(ps@);
        let ghost xv = atoms(xs@);
        let ghost want = all_fit(pv, xv, 0, env@, self@, f as nat);
        let mut current = env.clone();
        let mut i: usize = 0;
        assert(pv.len() == ps@.len() && xv.len() == xs@.len());
        while i < ps.len() && i < xs.len()
            invariant
                i <= ps@.len(),
                pv == exprs(ps@),
                xv == atoms(xs@),
                pv.len() == ps@.len(),
                xv.len() == xs@.len(),
                want == all_fit(pv, xv, 0, env@, old(self)@, f as nat),
                want == all_fit(pv, xv, i as nat, current@, self@, f as nat),
            decreases ps@.len() - i,
        {
            assert(pv[i as int] == ps@[i as int]@);
            assert(xv[i as int] == xs@[i as int]@);
            proof {
                lemma_weights(pv, i as int);
            }
            match self.try_match_one(&ps[i], &xs[i], &current, f) {
                Ok(Some(e)) => {
                    current = e;
                },
                Ok(None) => {
                    return Ok(None);
                },
                Err(e) => {
                    return Err(e);
                },
            }
            i += 1;
        }
        Ok(Some(current))
    }

    /// Try to match argument atoms against a clause's patterns.
    pub fn try_match_clause(&mut self, ps: &Vec<Expr>, xs: &Vec<Atom>, base: &Env, f: u64) -> (r:
        Result<Option<Env>, Stop>)
        ensures
            (fit_value(r), final(self)@) == clause_fit(
                exprs(ps@),
                atoms(xs@),
                base@,
                old(self)@,
                f as nat,
            ),
        decreases f, 2nat, 0nat, 0nat,
    {
        broadcast use {group_exprs, group_atoms};

        if ps.len() != xs.len() {
            return Ok(None);
        }
        match self.match_each(ps, xs, &Env::new(), f) {
            Ok(Some(e)) => Ok(Some(prepend_chain(e, base))),
            Ok(None) => Ok(None),
            Err(e) => Err(e),
        }
    }

    /// Try every clause against arguments.
    pub fn match_clauses(&mut self, cs: &Vec<Clause>, xs: &Vec<Atom>, base: &Env, f: u64) -> (r:
        Result<Vec<(Env, Expr)>, Stop>)
        ensures
            (match r {
                Ok(v) => (Ok::<Seq<FittingV>, StopV>(fitting_values(v@)), final(self)@),
                Err(e) => (Err::<Seq<FittingV>, StopV>(e@), final(self)@),
            }) == clauses_fit(
                clauses(cs@),
                0,
                atoms(xs@),
                base@,
                Seq::empty(),
                old(self)@,
                f as nat,
            ),
        decreases f, 3nat, 0nat, cs@.len(),
    {
        let ghost cv = clauses(cs@);
        let ghost want = clauses_fit(
            cv,
            0,
            atoms(xs@),
            base@,
            Seq::empty(),
            self@,
            f as nat,
        );
        let mut out: Vec<(Env, Expr)> = Vec::new();
        let mut i: usize = 0;
        assert(fitting_values(out@) =~= Seq::<FittingV>::empty());
        while i < cs.len()
            invariant
                i <= cs@.len(),
                cv == clauses(cs@),
                want == clauses_fit(
                    cv,
                    0,
                    atoms(xs@),
                    base@,
                    Seq::empty(),
                    old(self)@,
                    f as nat,
                ),
                want == clauses_fit(
                    cv,
                    i as nat,
                    atoms(xs@),
                    base@,
                    fitting_values(out@),
                    self@,
                    f as nat,
                ),
            decreases cs@.len() - i,
        {
            assert(cv[i as int] == cs@[i as int]@);
            match self.try_match_clause(&cs[i].patterns, xs, base, f) {
                Err(e) => {
                    return Err(e);
                },
                Ok(None) => {},
                Ok(Some(e)) => {
                    let ghost before = out@;
                    let x = (e, cs[i].body.clone());
                    out.push(x);
                    assert(fitting_values(out@) =~= fitting_values(before).push((x.0@, x.1@)));
                },
            }
            i += 1;
        }
        Ok(out)
    }
}

} // verus!
