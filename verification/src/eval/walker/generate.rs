//! Values of a call whose arguments are free variables.
use crate::atom::Atom;
use crate::atom::AtomV;
use crate::atom::atoms;
use crate::atom::group_atoms;
use crate::atom::sexpr;
use crate::atom::symbol;
use crate::builtins::types::atom_lists;
use crate::env::Env;
use crate::env::EnvV;
use crate::env::env_get;
use crate::eval::forms::query::lookup_user_clauses;
use crate::eval::machine::product::cartesian_product;
use crate::eval::machine::product::products;
use crate::eval::shared::env::bind;
use crate::eval::shared::pattern::optional_atom;
use crate::eval::walker::OutV;
use crate::eval::walker::Stop;
use crate::eval::walker::StopV;
use crate::eval::walker::WalkV;
use crate::eval::walker::Walked;
use crate::eval::walker::Walker;
use crate::eval::walker::calls::native_walked;
use crate::eval::walker::counted;
use crate::eval::walker::fail_counted;
use crate::eval::walker::failed;
use crate::eval::walker::first_or;
use crate::eval::walker::give_none;
use crate::eval::walker::gives;
use crate::eval::walker::join_atoms;
use crate::eval::walker::matching::clause_fit;
use crate::eval::walker::walked;
use crate::eval::walker::walked_value;
use crate::expr::Expr;
use crate::expr::ExprV;
use crate::expr::copy_exprs;
use crate::expr::expr_text;
use crate::expr::exprs;
use crate::expr::group_exprs;
use crate::func::Builtin;
use crate::func::Clause;
use crate::func::ClauseV;
use crate::func::clauses;
use crate::text::is_var;
use crate::text::is_var_name;
use crate::text::joined3;
use crate::text::joined;
use vstd::prelude::*;
use vstd::string::*;

verus! {

/// Whether an argument is a variable without a value.
pub open spec fn is_free(x: ExprV, env: EnvV) -> bool {
    x is Symbol && is_var_name(x->Symbol_0) && env_get(env, x->Symbol_0) is None
}

/// Test whether an argument is a variable without a value.
fn test_free(x: &Expr, env: &Env) -> (r: bool)
    ensures
        r == is_free(x@, env@),
{
    match x {
        Expr::Symbol(s) => {
            if is_var(s.as_str()) {
                match env.get(s.as_str()) {
                    Some(_) => false,
                    None => true,
                }
            } else {
                false
            }
        },
        _ => false,
    }
}

/// The environment of a closure with the parameters that have arguments from a
/// position on: an argument that is free, fails or has no value binds nothing.
pub open spec fn params_bound(
    params: Seq<ExprV>,
    args: Seq<ExprV>,
    i: nat,
    inner: EnvV,
    env: EnvV,
    s: WalkV,
    f: nat,
) -> (Result<EnvV, StopV>, WalkV)
    decreases f, 1nat, 0nat, params.len() - i,
{
    if i >= params.len() || i >= args.len() {
        (Ok(inner), s)
    } else if is_free(args[i as int], env) {
        params_bound(params, args, i + 1, inner, env, s, f)
    } else {
        let (r, s2) = walked(args[i as int], env, s, f);
        match r {
            Ok(vs) => params_bound(
                params,
                args,
                i + 1,
                if vs.len() > 0 && params[i as int] is Symbol {
                    EnvV::Cons(
                        params[i as int]->Symbol_0,
                        Box::new(vs[0]),
                        Box::new(inner),
                    )
                } else {
                    inner
                },
                env,
                s2,
                f,
            ),
            Err(StopV::Error(_)) => params_bound(params, args, i + 1, inner, env, s2, f),
            Err(e) => (Err(e), s2),
        }
    }
}

/// The values of an expression, or those that are generated where it fails.
pub open spec fn walked_or_generated(x: ExprV, env: EnvV, s: WalkV, f: nat) -> OutV
    decreases f, 1nat, 0nat, 0nat,
{
    let (r, s2) = walked(x, env, s, f);
    match r {
        Err(StopV::Error(_)) => generated(x, env, s2, f),
        other => (other, s2),
    }
}

/// The values of arguments of a built-in function from a position on, behind
/// those before; there is nothing to call when an argument has no value.
pub open spec fn options_generated(
    items: Seq<ExprV>,
    i: nat,
    before: Seq<Seq<AtomV>>,
    env: EnvV,
    s: WalkV,
    f: nat,
) -> (Result<Option<Seq<Seq<AtomV>>>, StopV>, WalkV)
    decreases f, 2nat, 0nat, items.len() - i,
{
    if i >= items.len() {
        (Ok(Some(before)), s)
    } else {
        let (r, s2) = walked_or_generated(items[i as int], env, s, f);
        match r {
            Err(e) => (Err(e), s2),
            Ok(vs) => if vs.len() == 0 {
                (Ok(None), s2)
            } else {
                options_generated(items, i + 1, before.push(vs), env, s2, f)
            },
        }
    }
}

/// The values of a built-in function for combinations from a position on, behind
/// those before; errors are skipped.
pub open spec fn natives_generated(
    b: Builtin,
    name: Seq<char>,
    cs: Seq<Seq<AtomV>>,
    i: nat,
    before: Seq<AtomV>,
    s: WalkV,
    f: nat,
) -> OutV
    decreases f, 3nat, 0nat, cs.len() - i,
{
    if i >= cs.len() {
        gives(s, before)
    } else {
        let (r, s2) = native_walked(b, name, cs[i as int], s, f);
        match r {
            Ok(vs) => natives_generated(b, name, cs, i + 1, before + vs, s2, f),
            Err(StopV::Error(_)) => natives_generated(b, name, cs, i + 1, before, s2, f),
            Err(e) => (Err(e), s2),
        }
    }
}

/// The literal that a pattern offers for a free variable.
pub open spec fn offered(p: ExprV) -> Option<AtomV> {
    match p {
        ExprV::Number(n) => Some(AtomV::Num(n)),
        ExprV::Symbol(t) => if is_var_name(t) {
            None
        } else {
            Some(symbol(t))
        },
        _ => None,
    }
}

/// Find the literal that a pattern offers for a free variable.
fn find_offered(p: &Expr) -> (r: Option<Atom>)
    ensures
        optional_atom(r) == offered(p@),
{
    match p {
        Expr::Number(n) => Some(Atom::Num(n.clone())),
        Expr::Symbol(t) => {
            if is_var(t.as_str()) {
                None
            } else {
                Some(Atom::sym(t.as_str()))
            }
        },
        _ => None,
    }
}

/// Arguments for a clause from a position on, behind those before, and whether
/// one was free: a free variable takes the literal of the clause's pattern.
pub open spec fn concrete_args(
    items: Seq<ExprV>,
    patterns: Seq<ExprV>,
    i: nat,
    before: Seq<AtomV>,
    free: bool,
    env: EnvV,
    s: WalkV,
    f: nat,
) -> (Result<Option<(Seq<AtomV>, bool)>, StopV>, WalkV)
    decreases f, 1nat, 0nat, items.len() - i,
{
    if i + 1 >= items.len() || i >= patterns.len() {
        (Ok(Some((before, free))), s)
    } else {
        let x = items[i as int + 1];
        if is_free(x, env) {
            match offered(patterns[i as int]) {
                Some(a) => concrete_args(
                    items,
                    patterns,
                    i + 1,
                    before.push(a),
                    true,
                    env,
                    s,
                    f,
                ),
                None => (Ok(None), s),
            }
        } else {
            let (r, s2) = walked(x, env, s, f);
            match r {
                Err(e) => (Err(e), s2),
                Ok(vs) => if vs.len() == 0 {
                    (Ok(None), s2)
                } else {
                    concrete_args(
                        items,
                        patterns,
                        i + 1,
                        before.push(vs[0]),
                        free,
                        env,
                        s2,
                        f,
                    )
                },
            }
        }
    }
}

/// The values of a clause for free variables.
pub open spec fn clause_generated(
    c: ClauseV,
    items: Seq<ExprV>,
    env: EnvV,
    s: WalkV,
    f: nat,
) -> OutV
    decreases f, 3nat, 0nat, 0nat,
{
    if c.patterns.len() != items.len() - 1 {
        gives(s, Seq::empty())
    } else {
        let (r, s2) = concrete_args(items, c.patterns, 0, Seq::empty(), false, env, s, f);
        match r {
            Err(e) => (Err(e), s2),
            Ok(None) => gives(s2, Seq::empty()),
            Ok(Some(p)) => if !p.1 {
                gives(s2, Seq::empty())
            } else {
                let (m, s3) = clause_fit(c.patterns, p.0, env, s2, f);
                match m {
                    Err(e) => (Err(e), s3),
                    Ok(None) => gives(s3, Seq::empty()),
                    Ok(Some(e)) => walked(c.body, e, s3, f),
                }
            },
        }
    }
}

/// The values of clauses for free variables from a position on, behind those
/// before.
pub open spec fn clauses_generated(
    cs: Seq<ClauseV>,
    i: nat,
    items: Seq<ExprV>,
    before: Seq<AtomV>,
    env: EnvV,
    s: WalkV,
    f: nat,
) -> OutV
    decreases f, 4nat, 0nat, cs.len() - i,
{
    if i >= cs.len() {
        gives(s, before)
    } else {
        let (r, s2) = clause_generated(cs[i as int], items, env, s, f);
        match r {
            Err(e) => (Err(e), s2),
            Ok(vs) => clauses_generated(cs, i + 1, items, before + vs, env, s2, f),
        }
    }
}

/// The values of a call whose head is known.
pub open spec fn head_generated(op: AtomV, items: Seq<ExprV>, env: EnvV, s: WalkV, f: nat) -> OutV
    decreases f, 5nat, 0nat, 0nat,
{
    let arity = (items.len() - 1) as nat;
    match op {
        AtomV::Closure(params, body, inner) => {
            let (r, s2) = params_bound(params, items.skip(1), 0, *inner, env, s, f);
            match r {
                Err(e) => (Err(e), s2),
                Ok(e) => walked_or_generated(body, e, s2, f),
            }
        },
        AtomV::Sym(name) => if s.t.natives.contains_key((name, arity as u8)) {
            let (r, s2) = options_generated(items.skip(1), 0, Seq::empty(), env, s, f);
            match r {
                Err(e) => (Err(e), s2),
                Ok(None) => gives(s2, Seq::empty()),
                Ok(Some(options)) => natives_generated(
                    s.t.natives[(name, arity as u8)],
                    name,
                    products(options),
                    0,
                    Seq::empty(),
                    s2,
                    f,
                ),
            }
        } else {
            match s.t.clauses_of(name, arity as u8) {
                None => failed(
                    s,
                    counted(
                        "generator: unknown function "@ + name + " with "@,
                        arity,
                        " args"@,
                    ),
                ),
                Some(cs) => {
                    let (r, s2) = clauses_generated(cs, 0, items, Seq::empty(), env, s, f);
                    match r {
                        Err(e) => (Err(e), s2),
                        Ok(vs) => if vs.len() == 0 {
                            failed(
                                s2,
                                "generator: "@ + name
                                    + ": no clauses with literal patterns for free variables"@,
                            )
                        } else {
                            gives(s2, vs)
                        },
                    }
                },
            }
        },
        _ => failed(s, "generator: expected function name, got "@ + sexpr(op)),
    }
}

/// The values of a call with free variables: those of its clauses for the
/// literals in their patterns, and those of its parts in combination.
pub open spec fn generated(x: ExprV, env: EnvV, s: WalkV, fuel: nat) -> OutV
    decreases fuel, 0nat, 0nat, 0nat,
{
    if fuel == 0 {
        (Err(StopV::Deep), s)
    } else {
        let f = (fuel - 1) as nat;
        if x is List && x->List_0.len() > 0 {
            let items = x->List_0;
            let (r, s2) = first_or(
                walked(items[0], env, s, f),
                "generator: operator produced no results"@,
            );
            match r {
                Err(e) => (Err(e), s2),
                Ok(op) => head_generated(op, items, env, s2, f),
            }
        } else {
            failed(s, "generator: expected a function call, got "@ + expr_text(x))
        }
    }
}

impl Walker {
    /// Bind the parameters of a closure that have arguments.
    fn bind_params(
        &mut self,
        params: &Vec<Expr>,
        args: &Vec<Expr>,
        inner: &Env,
        env: &Env,
        f: u64,
    ) -> (r: Result<Env, Stop>)
        ensures
            (match r {
                Ok(e) => (Ok::<EnvV, StopV>(e@), final(self)@),
                Err(e) => (Err::<EnvV, StopV>(e@), final(self)@),
            }) == params_bound(
                exprs(params@),
                exprs(args@),
                0,
                inner@,
                env@,
                old(self)@,
                f as nat,
            ),
        decreases f, 1nat, 0nat, params@.len(),
    {
        broadcast use {group_exprs, group_atoms};

        let ghost pv = exprs(params@);
        let ghost av = exprs(args@);
        let ghost want = params_bound(pv, av, 0, inner@, env@, self@, f as nat);
        let mut out = inner.clone();
        let mut i: usize = 0;
        assert(pv.len() == params@.len() && av.len() == args@.len());
        while i < params.len() && i < args.len()
            invariant
                i <= params@.len(),
                pv == exprs(params@),
                av == exprs(args@),
                pv.len() == params@.len(),
                av.len() == args@.len(),
                want == params_bound(pv, av, 0, inner@, env@, old(self)@, f as nat),
                want == params_bound(pv, av, i as nat, out@, env@, self@, f as nat),
            decreases params@.len() - i,
        {
            assert(pv[i as int] == params@[i as int]@);
            assert(av[i as int] == args@[i as int]@);
            if !test_free(&args[i], env) {
                match self.eval(&args[i], env, f) {
                    Ok(vs) => {
                        assert(atoms(vs@).len() == vs@.len());
                        if vs.len() > 0 {
                            match &params[i] {
                                Expr::Symbol(name) => {
                                    out = bind(&out, name.as_str(), vs[0].clone());
                                },
                                _ => {},
                            }
                        }
                    },
                    Err(Stop::Error(_)) => {},
                    Err(e) => {
                        return Err(e);
                    },
                }
            }
            i += 1;
        }
        Ok(out)
    }

    /// Evaluate an expression, or generate values where it fails.
    pub fn eval_or_generate(&mut self, x: &Expr, env: &Env, f: u64) -> (r: Walked)
        ensures
            (walked_value(r), final(self)@) == walked_or_generated(
                x@,
                env@,
                old(self)@,
                f as nat,
            ),
        decreases f, 1nat, 0nat, 0nat,
    {
        match self.eval(x, env, f) {
            Ok(vs) => Ok(vs),
            Err(Stop::Error(_)) => self.generate_free_var_values(x, env, f),
            Err(e) => Err(e),
        }
    }

    /// Generate the values of the arguments of a built-in function.
    fn generate_options(&mut self, args: &Vec<Expr>, env: &Env, f: u64) -> (r: Result<
        Option<Vec<Vec<Atom>>>,
        Stop,
    >)
        ensures
            (match r {
                Ok(Some(v)) => (
                    Ok::<Option<Seq<Seq<AtomV>>>, StopV>(Some(atom_lists(v@))),
                    final(self)@,
                ),
                Ok(None) => (Ok::<Option<Seq<Seq<AtomV>>>, StopV>(None), final(self)@),
                Err(e) => (Err::<Option<Seq<Seq<AtomV>>>, StopV>(e@), final(self)@),
            }) == options_generated(
                exprs(args@),
                0,
                Seq::empty(),
                env@,
                old(self)@,
                f as nat,
            ),
        decreases f, 2nat, 0nat, args@.len(),
    {
        broadcast use group_exprs;

        let ghost xs = exprs(args@);
        let ghost want = options_generated(xs, 0, Seq::empty(), env@, self@, f as nat);
        let mut out: Vec<Vec<Atom>> = Vec::new();
        let mut i: usize = 0;
        assert(xs.len() == args@.len());
        assert(atom_lists(out@) =~= Seq::<Seq<AtomV>>::empty());
        while i < args.len()
            invariant
                i <= args@.len(),
                xs == exprs(args@),
                xs.len() == args@.len(),
                want == options_generated(xs, 0, Seq::empty(), env@, old(self)@, f as nat),
                want == options_generated(
                    xs,
                    i as nat,
                    atom_lists(out@),
                    env@,
                    self@,
                    f as nat,
                ),
            decreases args@.len() - i,
        {
            assert(xs[i as int] == args@[i as int]@);
            match self.eval_or_generate(&args[i], env, f) {
                Err(e) => {
                    return Err(e);
                },
                Ok(vs) => {
                    assert(atoms(vs@).len() == vs@.len());
                    if vs.len() == 0 {
                        return Ok(None);
                    }
                    let ghost before = out@;
                    out.push(vs);
                    assert(atom_lists(out@) =~= atom_lists(before).push(atoms(vs@)));
                },
            }
            i += 1;
        }
        Ok(Some(out))
    }

    /// Call a built-in function for combinations, skipping errors.
    fn generate_natives(&mut self, b: Builtin, name: &str, cs: &Vec<Vec<Atom>>, f: u64) -> (r: Walked)
        ensures
            (walked_value(r), final(self)@) == natives_generated(
                b,
                name@,
                atom_lists(cs@),
                0,
                Seq::empty(),
                old(self)@,
                f as nat,
            ),
        decreases f, 3nat, 0nat, cs@.len(),
    {
        let ghost cv = atom_lists(cs@);
        let ghost want = natives_generated(b, name@, cv, 0, Seq::empty(), self@, f as nat);
        let mut out: Vec<Atom> = Vec::new();
        let mut i: usize = 0;
        assert(atoms(out@) =~= Seq::<AtomV>::empty());
        while i < cs.len()
            invariant
                i <= cs@.len(),
                cv == atom_lists(cs@),
                want == natives_generated(
                    b,
                    name@,
                    cv,
                    0,
                    Seq::empty(),
                    old(self)@,
                    f as nat,
                ),
                want == natives_generated(
                    b,
                    name@,
                    cv,
                    i as nat,
                    atoms(out@),
                    self@,
                    f as nat,
                ),
            decreases cs@.len() - i,
        {
            assert(cv[i as int] == atoms(cs@[i as int]@));
            match self.call_native(b, name, &cs[i], f) {
                Ok(vs) => {
                    out = join_atoms(out, vs);
                },
                Err(Stop::Error(_)) => {},
                Err(e) => {
                    return Err(e);
                },
            }
            i += 1;
        }
        Ok(out)
    }

    /// Find arguments for a clause.
    fn find_concrete(&mut self, items: &Vec<Expr>, patterns: &Vec<Expr>, env: &Env, f: u64) -> (r:
        Result<Option<(Vec<Atom>, bool)>, Stop>)
        ensures
            (match r {
                Ok(Some(p)) => (
                    Ok::<Option<(Seq<AtomV>, bool)>, StopV>(Some((atoms(p.0@), p.1))),
                    final(self)@,
                ),
                Ok(None) => (Ok::<Option<(Seq<AtomV>, bool)>, StopV>(None), final(self)@),
                Err(e) => (Err::<Option<(Seq<AtomV>, bool)>, StopV>(e@), final(self)@),
            }) == concrete_args(
                exprs(items@),
                exprs(patterns@),
                0,
                Seq::empty(),
                false,
                env@,
                old(self)@,
                f as nat,
            ),
        decreases f, 1nat, 0nat, items@.len(),
    {
        broadcast use {group_exprs, group_atoms};

        let ghost xs = exprs(items@);
        let ghost pv = exprs(patterns@);
        let ghost want = concrete_args(
            xs,
            pv,
            0,
            Seq::empty(),
            false,
            env@,
            self@,
            f as nat,
        );
        let mut out: Vec<Atom> = Vec::new();
        let mut free: bool = false;
        let mut i: usize = 0;
        let n: usize = items.len();
        let k: usize = patterns.len();
        assert(xs.len() == n && pv.len() == k);
        assert(atoms(out@) =~= Seq::<AtomV>::empty());
        while i < k && i < n && i + 1 < n
            invariant
                i <= k,
                i <= n,
                n == items@.len(),
                k == patterns@.len(),
                xs == exprs(items@),
                pv == exprs(patterns@),
                xs.len() == n,
                pv.len() == k,
                want == concrete_args(
                    xs,
                    pv,
                    0,
                    Seq::empty(),
                    false,
                    env@,
                    old(self)@,
                    f as nat,
                ),
                want == concrete_args(
                    xs,
                    pv,
                    i as nat,
                    atoms(out@),
                    free,
                    env@,
                    self@,
                    f as nat,
                ),
            decreases n - i,
        {
            assert(xs[i + 1] == items@[i + 1]@);
            assert(pv[i as int] == patterns@[i as int]@);
            let ghost before = out@;
            if test_free(&items[i + 1], env) {
                match find_offered(&patterns[i]) {
                    Some(a) => {
                        out.push(a);
                        assert(atoms(out@) =~= atoms(before).push(a@));
                        free = true;
                    },
                    None => {
                        return Ok(None);
                    },
                }
            } else {
                match self.eval(&items[i + 1], env, f) {
                    Err(e) => {
                        return Err(e);
                    },
                    Ok(vs) => {
                        assert(atoms(vs@).len() == vs@.len());
                        if vs.len() == 0 {
                            return Ok(None);
                        }
                        let a = vs[0].clone();
                        out.push(a);
                        assert(atoms(out@) =~= atoms(before).push(a@));
                    },
                }
            }
            i += 1;
        }
        Ok(Some((out, free)))
    }

    /// Generate the values of a clause for free variables.
    fn generate_clause(&mut self, c: &Clause, items: &Vec<Expr>, env: &Env, f: u64) -> (r: Walked)
        requires
            items@.len() > 0,
        ensures
            (walked_value(r), final(self)@) == clause_generated(
                c@,
                exprs(items@),
                env@,
                old(self)@,
                f as nat,
            ),
        decreases f, 3nat, 0nat, 0nat,
    {
        broadcast use group_exprs;

        assert(exprs(items@).len() == items@.len());
        assert(exprs(c.patterns@).len() == c.patterns@.len());
        if c.patterns.len() != items.len() - 1 {
            return give_none();
        }
        match self.find_concrete(items, &c.patterns, env, f) {
            Err(e) => Err(e),
            Ok(None) => give_none(),
            Ok(Some((args, free))) => {
                if !free {
                    return give_none();
                }
                match self.try_match_clause(&c.patterns, &args, env, f) {
                    Err(e) => Err(e),
                    Ok(None) => give_none(),
                    Ok(Some(e)) => self.eval(&c.body, &e, f),
                }
            },
        }
    }

    /// Generate the values of clauses for free variables.
    fn generate_clauses(&mut self, cs: &Vec<Clause>, items: &Vec<Expr>, env: &Env, f: u64) -> (r:
        Walked)
        requires
            items@.len() > 0,
        ensures
            (walked_value(r), final(self)@) == clauses_generated(
                clauses(cs@),
                0,
                exprs(items@),
                Seq::empty(),
                env@,
                old(self)@,
                f as nat,
            ),
        decreases f, 4nat, 0nat, cs@.len(),
    {
        let ghost cv = clauses(cs@);
        let ghost xs = exprs(items@);
        let ghost want = clauses_generated(cv, 0, xs, Seq::empty(), env@, self@, f as nat);
        let mut out: Vec<Atom> = Vec::new();
        let mut i: usize = 0;
        assert(atoms(out@) =~= Seq::<AtomV>::empty());
        while i < cs.len()
            invariant
                i <= cs@.len(),
                items@.len() > 0,
                cv == clauses(cs@),
                xs == exprs(items@),
                want == clauses_generated(cv, 0, xs, Seq::empty(), env@, old(self)@, f as nat),
                want == clauses_generated(
                    cv,
                    i as nat,
                    xs,
                    atoms(out@),
                    env@,
                    self@,
                    f as nat,
                ),
            decreases cs@.len() - i,
        {
            assert(cv[i as int] == cs@[i as int]@);
            match self.generate_clause(&cs[i], items, env, f) {
                Err(e) => {
                    return Err(e);
                },
                Ok(vs) => {
                    out = join_atoms(out, vs);
                },
            }
            i += 1;
        }
        Ok(out)
    }

    /// Generate the values of a call whose head is known.
    fn generate_head(&mut self, op: &Atom, items: &Vec<Expr>, env: &Env, f: u64) -> (r: Walked)
        requires
            items@.len() > 0,
        ensures
            (walked_value(r), final(self)@) == head_generated(
                op@,
                exprs(items@),
                env@,
                old(self)@,
                f as nat,
            ),
        decreases f, 5nat, 0nat, 0nat,
    {
        broadcast use {group_exprs, group_atoms};

        let ghost xs = exprs(items@);
        assert(xs.len() == items@.len());
        let n: usize = items.len() - 1;
        let arity: u8 = n as u8;
        match op {
            Atom::Closure(c) => {
                let args = copy_exprs(items, 1);
                assert(exprs(args@) =~= xs.skip(1));
                match self.bind_params(&c.params, &args, &c.env, env, f) {
                    Err(e) => Err(e),
                    Ok(e) => self.eval_or_generate(&c.body, &e, f),
                }
            },
            Atom::Sym(name) => {
                match self.table.get(name.as_str(), arity) {
                    Some(b) => {
                        let args = copy_exprs(items, 1);
                        assert(exprs(args@) =~= xs.skip(1));
                        return match self.generate_options(&args, env, f) {
                            Err(e) => Err(e),
                            Ok(None) => give_none(),
                            Ok(Some(options)) => {
                                let cs = cartesian_product(&options);
                                self.generate_natives(b, name.as_str(), &cs, f)
                            },
                        };
                    },
                    None => {},
                }
                match lookup_user_clauses(name.as_str(), arity, &self.table) {
                    None => {
                        let front = joined3(
                            "generator: unknown function ",
                            name.as_str(),
                            " with ",
                        );
                        fail_counted(front.as_str(), n, " args")
                    },
                    Some(cs) => match self.generate_clauses(&cs, items, env, f) {
                        Err(e) => Err(e),
                        Ok(vs) => {
                            assert(atoms(vs@).len() == vs@.len());
                            if vs.len() == 0 {
                                return Err(
                                    Stop::Error(
                                        joined3(
                                            "generator: ",
                                            name.as_str(),
                                            ": no clauses with literal patterns for free variables",
                                        ),
                                    ),
                                );
                            }
                            Ok(vs)
                        },
                    },
                }
            },
            _ => {
                let t = op.to_sexpr_string();
                Err(Stop::Error(joined("generator: expected function name, got ", t.as_str())))
            },
        }
    }

    /// Generate the values of a call with free variables.
    pub fn generate_free_var_values(&mut self, x: &Expr, env: &Env, fuel: u64) -> (r: Walked)
        ensures
            (walked_value(r), final(self)@) == generated(x@, env@, old(self)@, fuel as nat),
        decreases fuel, 0nat, 0nat, 0nat,
    {
        broadcast use group_exprs;

        if fuel == 0 {
            return Err(Stop::Deep);
        }
        let f: u64 = fuel - 1;
        match x {
            Expr::List(items) => {
                assert(exprs(items@).len() == items@.len());
                if items.len() > 0 {
                    assert(exprs(items@)[0] == items@[0]@);
                    return match self.eval_first(
                        &items[0],
                        env,
                        f,
                        "generator: operator produced no results",
                    ) {
                        Err(e) => Err(e),
                        Ok(op) => self.generate_head(&op, items, env, f),
                    };
                }
            },
            _ => {},
        }
        let t = x.to_text();
        Err(Stop::Error(joined("generator: expected a function call, got ", t.as_str())))
    }
}

} // verus!
