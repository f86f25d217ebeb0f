//! Evaluation that keeps the bindings of matches.
use crate::atom::Atom;
use crate::atom::AtomV;
use crate::atom::atoms;
use crate::atom::group_atoms;
use crate::builtins::loops::first_of;
use crate::env::Env;
use crate::env::EnvV;
use crate::env::env_get;
use crate::eval::forms::query::lookup_user_clauses;
use crate::eval::machine::budget::ComboV;
use crate::eval::machine::budget::ResultSet;
use crate::eval::machine::budget::ResultV;
use crate::eval::machine::budget::combo_values;
use crate::eval::machine::budget::combos;
use crate::eval::machine::budget::group_results;
use crate::eval::machine::budget::plain;
use crate::eval::machine::budget::plain_results;
use crate::eval::machine::budget::result_sets;
use crate::eval::machine::budget::results;
use crate::eval::machine::budget::single;
use crate::eval::machine::budget::threaded_combinations;
use crate::eval::machine::vm::iterate::join_results;
use crate::eval::shared::env::linked;
use crate::eval::shared::env::prepend_chain;
use crate::eval::shared::pattern::optional_atom;
use crate::eval::walker::OutV;
use crate::eval::walker::Stop;
use crate::eval::walker::StopV;
use crate::eval::walker::WalkV;
use crate::eval::walker::Walked;
use crate::eval::walker::Walker;
use crate::eval::walker::matching::FittingV;
use crate::eval::walker::matching::clauses_fit;
use crate::eval::walker::matching::fitting_values;
use crate::eval::walker::named_value;
use crate::eval::walker::value_of_name;
use crate::eval::walker::walked;
use crate::eval::walker::walked_value;
use crate::expr::Expr;
use crate::expr::ExprV;
use crate::expr::copy_exprs;
use crate::expr::exprs;
use crate::expr::group_exprs;
use crate::func::Clause;
use crate::func::ClauseV;
use crate::func::clauses;
use crate::text::is_var;
use crate::text::is_var_name;
use vstd::prelude::*;
use vstd::string::*;

verus! {

/// Values with bindings, or why evaluation stops, and the state that is left.
pub type BoundOutV = (Result<ResultV, StopV>, WalkV);

/// The value of values with bindings, or of why evaluation stops.
pub open spec fn bound_value(r: Result<ResultSet, Stop>) -> Result<ResultV, StopV> {
    match r {
        Ok(v) => Ok(results(v@)),
        Err(e) => Err(e@),
    }
}

/// The values with bindings of arguments from a position on, behind those
/// before.
pub open spec fn constrained_args(
    items: Seq<ExprV>,
    i: nat,
    before: Seq<ResultV>,
    env: EnvV,
    s: WalkV,
    f: nat,
) -> (Result<Seq<ResultV>, StopV>, WalkV)
    decreases f, 1nat, 0nat, items.len() - i,
{
    if i >= items.len() {
        (Ok(before), s)
    } else {
        let (r, s2) = constrained(items[i as int], env, s, f);
        match r {
            Err(e) => (Err(e), s2),
            Ok(rs) => constrained_args(items, i + 1, before.push(rs), env, s2, f),
        }
    }
}

/// Results with the bindings of a match and of the arguments behind their own.
pub open spec fn accumulated(rs: ResultV, clause: EnvV, args: EnvV) -> ResultV {
    Seq::new(rs.len(), |i: int| (rs[i].0, linked(rs[i].1, linked(clause, args))))
}

/// The results of bodies from a position on, behind those before.
pub open spec fn constrained_bodies(
    bs: Seq<FittingV>,
    i: nat,
    before: ResultV,
    args: EnvV,
    env: EnvV,
    s: WalkV,
    f: nat,
) -> BoundOutV
    decreases f, 1nat, 0nat, bs.len() - i,
{
    if i >= bs.len() {
        (Ok(before), s)
    } else {
        let (m, body) = bs[i as int];
        let (r, s2) = constrained(body, linked(m, env), s, f);
        match r {
            Err(e) => (Err(e), s2),
            Ok(rs) => constrained_bodies(
                bs,
                i + 1,
                before + accumulated(rs, m, args),
                args,
                env,
                s2,
                f,
            ),
        }
    }
}

/// The results of the clauses that fit combinations from a position on, behind
/// those before. New bindings start from nothing.
pub open spec fn constrained_calls(
    cs: Seq<ClauseV>,
    cb: Seq<ComboV>,
    i: nat,
    before: ResultV,
    env: EnvV,
    s: WalkV,
    f: nat,
) -> BoundOutV
    decreases f, 4nat, 0nat, cb.len() - i,
{
    if i >= cb.len() {
        (Ok(before), s)
    } else {
        let (m, s2) = clauses_fit(cs, 0, cb[i as int].0, EnvV::Empty, Seq::empty(), s, f);
        match m {
            Err(e) => (Err(e), s2),
            Ok(bs) => {
                let (r, s3) = constrained_bodies(bs, 0, before, cb[i as int].1, env, s2, f);
                match r {
                    Err(e) => (Err(e), s3),
                    Ok(rs) => constrained_calls(cs, cb, i + 1, rs, env, s3, f),
                }
            },
        }
    }
}

/// The results of clauses for the arguments of a call.
pub open spec fn constrained_function(
    cs: Seq<ClauseV>,
    items: Seq<ExprV>,
    inner: EnvV,
    env: EnvV,
    s: WalkV,
    f: nat,
) -> BoundOutV
    decreases f, 5nat, 0nat, 0nat,
{
    let (r, s2) = constrained_args(items, 1, Seq::empty(), env, s, f);
    match r {
        Err(e) => (Err(e), s2),
        Ok(streams) => constrained_calls(cs, combos(streams), 0, Seq::empty(), inner, s2, f),
    }
}

/// The clauses that bindings are kept for in a call, and the environment of
/// their bodies: those of a user-defined function, or a closure.
pub open spec fn constrained_target(items: Seq<ExprV>, env: EnvV, s: WalkV, f: nat) -> (
    Result<Option<(Seq<ClauseV>, EnvV)>, StopV>,
    WalkV,
)
    decreases f, 6nat, 0nat, 0nat,
{
    if items.len() == 0 {
        (Ok(None), s)
    } else {
        match items[0] {
            ExprV::Symbol(name) => if is_var_name(name) {
                (Ok(closure_target(env_get(env, name))), s)
            } else {
                let arity = (items.len() - 1) as u8;
                (
                    Ok(
                        if s.t.natives.contains_key((name, arity)) {
                            None
                        } else {
                            match s.t.clauses_of(name, arity) {
                                Some(cs) => Some((cs, env)),
                                None => None,
                            }
                        },
                    ),
                    s,
                )
            },
            _ => {
                let (r, s2) = walked(items[0], env, s, f);
                match r {
                    Err(e) => (Err(e), s2),
                    Ok(vs) => (Ok(closure_target(first_of(vs))), s2),
                }
            },
        }
    }
}

/// A closure as a clause with the environment of its body.
pub open spec fn closure_target(a: Option<AtomV>) -> Option<(Seq<ClauseV>, EnvV)> {
    match a {
        Some(AtomV::Closure(params, body, inner)) => Some(
            (seq![ClauseV { patterns: params, body }], *inner),
        ),
        _ => None,
    }
}

/// Results without bindings.
pub open spec fn unbound(out: OutV) -> BoundOutV {
    match out.0 {
        Err(e) => (Err(e), out.1),
        Ok(vs) => (Ok(plain_results(vs)), out.1),
    }
}

/// The values of an expression with the bindings of the matches they rest on.
///
/// Calls keep the bindings of their clauses; anything else, and a call for
/// which no clause gives a value, is evaluated without.
pub open spec fn constrained(x: ExprV, env: EnvV, s: WalkV, fuel: nat) -> BoundOutV
    decreases fuel, 0nat, 0nat, 0nat,
{
    if fuel == 0 {
        (Err(StopV::Deep), s)
    } else {
        let f = (fuel - 1) as nat;
        match x {
            ExprV::Symbol(name) => if is_var_name(name) {
                (Ok(plain_results(seq![named_value(name, env)])), s)
            } else {
                unbound(walked(x, env, s, f))
            },
            ExprV::List(items) => {
                let (t, s2) = constrained_target(items, env, s, f);
                match t {
                    Err(e) => (Err(e), s2),
                    Ok(None) => unbound(walked(x, env, s2, f)),
                    Ok(Some((cs, inner))) => {
                        let (r, s3) = constrained_function(cs, items, inner, env, s2, f);
                        match r {
                            Err(e) => (Err(e), s3),
                            Ok(rs) => if rs.len() > 0 {
                                (Ok(rs), s3)
                            } else {
                                unbound(walked(x, env, s3, f))
                            },
                        }
                    },
                }
            },
            _ => unbound(walked(x, env, s, f)),
        }
    }
}

/// Put the bindings of a match and of the arguments behind those of results.
fn accumulate(rs: &ResultSet, clause: &Env, args: &Env) -> (r: ResultSet)
    ensures
        results(r@) == accumulated(results(rs@), clause@, args@),
{
    broadcast use group_results;

    let ghost want = accumulated(results(rs@), clause@, args@);
    let base = prepend_chain(clause.clone(), args);
    let mut out: ResultSet = Vec::new();
    let mut i: usize = 0;
    assert(results(out@) =~= want.take(0));
    while i < rs.len()
        invariant
            i <= rs@.len(),
            base@ == linked(clause@, args@),
            want == accumulated(results(rs@), clause@, args@),
            results(out@) == want.take(i as int),
        decreases rs@.len() - i,
    {
        out.push((rs[i].0.clone(), prepend_chain(rs[i].1.clone(), &base)));
        assert(want.take(i + 1) =~= want.take(i as int).push(want[i as int]));
        i += 1;
    }
    assert(want.take(rs@.len() as int) =~= want);
    out
}

/// Leave bindings out.
fn unbind(r: Walked) -> (o: Result<ResultSet, Stop>)
    ensures
        forall|s: WalkV| (bound_value(o), s) == #[trigger] unbound((walked_value(r), s)),
{
    match r {
        Err(e) => Err(e),
        Ok(v) => Ok(plain(v)),
    }
}

/// The clauses that bindings are kept for, and the environment of their bodies.
type Target = Option<(Vec<Clause>, Env)>;

/// The value of the clauses that bindings are kept for.
spec fn target_value(t: Target) -> Option<(Seq<ClauseV>, EnvV)> {
    match t {
        Some(p) => Some((clauses(p.0@), p.1@)),
        None => None,
    }
}

/// Take a closure as a clause.
fn take_closure(a: Option<Atom>) -> (r: Target)
    ensures
        target_value(r) == closure_target(optional_atom(a)),
{
    match a {
        Some(Atom::Closure(c)) => {
            let patterns = copy_exprs(&c.params, 0);
            assert(c.params@.skip(0) =~= c.params@);
            let clause = Clause { patterns, body: c.body.clone() };
            let mut cs: Vec<Clause> = Vec::new();
            cs.push(clause);
            assert(clauses(cs@) =~= seq![
                ClauseV { patterns: exprs(c.params@), body: c.body@ },
            ]);
            Some((cs, c.env.clone()))
        },
        _ => None,
    }
}

impl Walker {
    /// Evaluate arguments with their bindings.
    fn constrain_args(&mut self, items: &Vec<Expr>, env: &Env, f: u64) -> (r: Result<
        Vec<ResultSet>,
        Stop,
    >)
        requires
            items@.len() > 0,
        ensures
            (match r {
                Ok(v) => (Ok::<Seq<ResultV>, StopV>(result_sets(v@)), final(self)@),
                Err(e) => (Err::<Seq<ResultV>, StopV>(e@), final(self)@),
            }) == constrained_args(
                exprs(items@),
                1,
                Seq::empty(),
                env@,
                old(self)@,
                f as nat,
            ),
        decreases f, 1nat, 0nat, items@.len(),
    {
        broadcast use {group_exprs, group_results};

        let ghost xs = exprs(items@);
        let ghost want = constrained_args(xs, 1, Seq::empty(), env@, self@, f as nat);
        let mut out: Vec<ResultSet> = Vec::new();
        let mut i: usize = 1;
        assert(xs.len() == items@.len());
        assert(result_sets(out@) =~= Seq::<ResultV>::empty());
        while i < items.len()
            invariant
                1 <= i <= items@.len(),
                xs == exprs(items@),
                xs.len() == items@.len(),
                want == constrained_args(xs, 1, Seq::empty(), env@, old(self)@, f as nat),
                want == constrained_args(
                    xs,
                    i as nat,
                    result_sets(out@),
                    env@,
                    self@,
                    f as nat,
                ),
            decreases items@.len() - i,
        {
            assert(xs[i as int] == items@[i as int]@);
            match self.eval_constrained(&items[i], env, f) {
                Err(e) => {
                    return Err(e);
                },
                Ok(rs) => {
                    let ghost before = out@;
                    out.push(rs);
                    assert(result_sets(out@) =~= result_sets(before).push(results(rs@)));
                },
            }
            i += 1;
        }
        Ok(out)
    }

    /// Evaluate bodies with their bindings, behind results.
    fn constrain_bodies(
        &mut self,
        bs: &Vec<(Env, Expr)>,
        before: ResultSet,
        args: &Env,
        env: &Env,
        f: u64,
    ) -> (r: Result<ResultSet, Stop>)
        ensures
            (bound_value(r), final(self)@) == constrained_bodies(
                fitting_values(bs@),
                0,
                results(before@),
                args@,
                env@,
                old(self)@,
                f as nat,
            ),
        decreases f, 1nat, 0nat, bs@.len() + 1,
    {
        let ghost bv = fitting_values(bs@);
        let ghost want = constrained_bodies(
            bv,
            0,
            results(before@),
            args@,
            env@,
            self@,
            f as nat,
        );
        let mut out = before;
        let mut i: usize = 0;
        while i < bs.len()
            invariant
                i <= bs@.len(),
                bv == fitting_values(bs@),
                want == constrained_bodies(
                    bv,
                    0,
                    results(before@),
                    args@,
                    env@,
                    old(self)@,
                    f as nat,
                ),
                want == constrained_bodies(
                    bv,
                    i as nat,
                    results(out@),
                    args@,
                    env@,
                    self@,
                    f as nat,
                ),
            decreases bs@.len() - i,
        {
            assert(bv[i as int] == (bs@[i as int].0@, bs@[i as int].1@));
            let inner = prepend_chain(bs[i].0.clone(), env);
            match self.eval_constrained(&bs[i].1, &inner, f) {
                Err(e) => {
                    return Err(e);
                },
                Ok(rs) => {
                    let more = accumulate(&rs, &bs[i].0, args);
                    out = join_results(out, more);
                },
            }
            i += 1;
        }
        Ok(out)
    }

    /// Evaluate the clauses that fit combinations, with their bindings.
    fn constrain_calls(
        &mut self,
        cs: &Vec<Clause>,
        cb: &Vec<(Vec<Atom>, Env)>,
        env: &Env,
        f: u64,
    ) -> (r: Result<ResultSet, Stop>)
        ensures
            (bound_value(r), final(self)@) == constrained_calls(
                clauses(cs@),
                combo_values(cb@),
                0,
                Seq::empty(),
                env@,
                old(self)@,
                f as nat,
            ),
        decreases f, 4nat, 0nat, cb@.len(),
    {
        let ghost cv = clauses(cs@);
        let ghost bv = combo_values(cb@);
        let ghost want = constrained_calls(cv, bv, 0, Seq::empty(), env@, self@, f as nat);
        let mut out: ResultSet = Vec::new();
        let mut i: usize = 0;
        assert(results(out@) =~= ResultV::empty());
        while i < cb.len()
            invariant
                i <= cb@.len(),
                cv == clauses(cs@),
                bv == combo_values(cb@),
                want == constrained_calls(
                    cv,
                    bv,
                    0,
                    Seq::empty(),
                    env@,
                    old(self)@,
                    f as nat,
                ),
                want == constrained_calls(
                    cv,
                    bv,
                    i as nat,
                    results(out@),
                    env@,
                    self@,
                    f as nat,
                ),
            decreases cb@.len() - i,
        {
            assert(bv[i as int] == (atoms(cb@[i as int].0@), cb@[i as int].1@));
            match self.match_clauses(cs, &cb[i].0, &Env::new(), f) {
                Err(e) => {
                    return Err(e);
                },
                Ok(bs) => match self.constrain_bodies(&bs, out, &cb[i].1, env, f) {
                    Err(e) => {
                        return Err(e);
                    },
                    Ok(rs) => {
                        out = rs;
                    },
                },
            }
            i += 1;
        }
        Ok(out)
    }

    /// Evaluate clauses for the arguments of a call, with their bindings.
    fn constrain_function(
        &mut self,
        cs: &Vec<Clause>,
        items: &Vec<Expr>,
        inner: &Env,
        env: &Env,
        f: u64,
    ) -> (r: Result<ResultSet, Stop>)
        requires
            items@.len() > 0,
        ensures
            (bound_value(r), final(self)@) == constrained_function(
                clauses(cs@),
                exprs(items@),
                inner@,
                env@,
                old(self)@,
                f as nat,
            ),
        decreases f, 5nat, 0nat, 0nat,
    {
        match self.constrain_args(items, env, f) {
            Err(e) => Err(e),
            Ok(streams) => {
                let cb = threaded_combinations(&streams);
                self.constrain_calls(cs, &cb, inner, f)
            },
        }
    }

    /// Find the clauses that bindings are kept for in a call.
    fn find_target(&mut self, items: &Vec<Expr>, env: &Env, f: u64) -> (r: Result<Target, Stop>)
        ensures
            (match r {
                Ok(t) => (
                    Ok::<Option<(Seq<ClauseV>, EnvV)>, StopV>(target_value(t)),
                    final(self)@,
                ),
                Err(e) => (Err::<Option<(Seq<ClauseV>, EnvV)>, StopV>(e@), final(self)@),
            }) == constrained_target(exprs(items@), env@, old(self)@, f as nat),
            r matches Ok(Some(_)) ==> items@.len() > 0,
        decreases f, 6nat, 0nat, 0nat,
    {
        broadcast use {group_exprs, group_atoms};

        let ghost xs = exprs(items@);
        assert(xs.len() == items@.len());
        if items.len() == 0 {
            return Ok(None);
        }
        assert(xs[0] == items@[0]@);
        match &items[0] {
            Expr::Symbol(name) => {
                if is_var(name.as_str()) {
                    return Ok(take_closure(env.get(name.as_str())));
                }
                let arity: u8 = (items.len() - 1) as u8;
                match self.table.get(name.as_str(), arity) {
                    Some(_) => Ok(None),
                    None => match lookup_user_clauses(name.as_str(), arity, &self.table) {
                        Some(cs) => Ok(Some((cs, env.clone()))),
                        None => Ok(None),
                    },
                }
            },
            _ => match self.eval(&items[0], env, f) {
                Err(e) => Err(e),
                Ok(vs) => {
                    assert(atoms(vs@).len() == vs@.len());
                    let first: Option<Atom> = if vs.len() > 0 {
                        Some(vs[0].clone())
                    } else {
                        None
                    };
                    assert(optional_atom(first) == first_of(atoms(vs@)));
                    Ok(take_closure(first))
                },
            },
        }
    }

    /// Evaluate an expression to values with the bindings they rest on.
    pub fn eval_constrained(&mut self, x: &Expr, env: &Env, fuel: u64) -> (r: Result<
        ResultSet,
        Stop,
    >)
        ensures
            (bound_value(r), final(self)@) == constrained(x@, env@, old(self)@, fuel as nat),
        decreases fuel, 0nat, 0nat, 0nat,
    {
        broadcast use group_exprs;

        if fuel == 0 {
            return Err(Stop::Deep);
        }
        let f: u64 = fuel - 1;
        match x {
            Expr::Symbol(name) => {
                if is_var(name.as_str()) {
                    return Ok(single(value_of_name(name.as_str(), env)));
                }
            },
            Expr::List(items) => match self.find_target(items, env, f) {
                Err(e) => {
                    return Err(e);
                },
                Ok(None) => {},
                Ok(Some((cs, inner))) => match self.constrain_function(&cs, items, &inner, env, f) {
                    Err(e) => {
                        return Err(e);
                    },
                    Ok(rs) => {
                        assert(results(rs@).len() == rs@.len());
                        if rs.len() > 0 {
                            return Ok(rs);
                        }
                    },
                },
            },
            _ => {},
        }
        let v = self.eval(x, env, f);
        let ghost s = self@;
        let o = unbind(v);
        assert((bound_value(o), s) == unbound((walked_value(v), s)));
        o
    }
}

} // verus!
