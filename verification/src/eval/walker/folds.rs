//! Forms of the tree-walking evaluator that apply functions to values.
use crate::atom::Atom;
use crate::atom::AtomV;
use crate::atom::atoms;
use crate::atom::group_atoms;
use crate::atom::sexpr;
use crate::atom::symbol;
use crate::atom::affirms;
use crate::compile::reify::atom_to_expr;
use crate::compile::reify::to_expr;
use crate::env::Env;
use crate::env::EnvV;
use crate::eval::machine::budget::ResultSet;
use crate::eval::machine::budget::ResultV;
use crate::eval::machine::budget::results;
use crate::eval::shared::env::bind;
use crate::eval::walker::OneV;
use crate::eval::walker::OutV;
use crate::eval::walker::Stop;
use crate::eval::walker::WalkV;
use crate::eval::walker::Walked;
use crate::eval::walker::Walker;
use crate::eval::walker::calls::closure_walked;
use crate::eval::walker::constrain::constrained;
use crate::eval::walker::counted;
use crate::eval::walker::fail_counted;
use crate::eval::walker::failed;
use crate::eval::walker::first_or;
use crate::eval::walker::forms::arguments;
use crate::eval::walker::generate::walked_or_generated;
use crate::eval::walker::give_one;
use crate::eval::walker::gives_one;
use crate::eval::walker::one_walked;
use crate::eval::walker::take_first_or;
use crate::eval::walker::walked;
use crate::eval::walker::walked_value;
use crate::expr::Expr;
use crate::expr::ExprV;
use crate::expr::exprs;
use crate::expr::group_exprs;
use crate::expr::list2;
use crate::expr::list3;
use crate::text::joined3;
use crate::text::joined;
use std::sync::Arc;
use vstd::prelude::*;
use vstd::string::*;

verus! {

/// Whether all values are true, and there is one.
pub open spec fn all_true(vs: Seq<AtomV>) -> bool {
    vs.len() > 0 && forall|i: int| 0 <= i < vs.len() ==> affirms(#[trigger] vs[i])
}

/// The values of a check for one value.
pub open spec fn check_walked(check: AtomV, v: AtomV, env: EnvV, s: WalkV, f: nat) -> OutV
    decreases f, 8nat, 0nat, 0nat,
{
    let arg = ExprV::Symbol("$__fv"@);
    let inner = EnvV::Cons("$__fv"@, Box::new(v), Box::new(env));
    match check {
        AtomV::Sym(name) => walked(ExprV::List(seq![ExprV::Symbol(name), arg]), inner, s, f),
        AtomV::Closure(params, body, e) => closure_walked(
            params,
            body,
            *e,
            seq![arg],
            inner,
            s,
            f,
        ),
        other => failed(s, "forall: check must be a function or closure, got "@ + sexpr(other)),
    }
}

/// Whether a check holds of values from a position on.
pub open spec fn forall_from(
    vs: Seq<AtomV>,
    i: nat,
    check: AtomV,
    env: EnvV,
    s: WalkV,
    f: nat,
) -> OutV
    decreases f, 9nat, 0nat, vs.len() - i,
{
    if i >= vs.len() {
        gives_one(s, symbol("true"@))
    } else {
        let (r, s2) = check_walked(check, vs[i as int], env, s, f);
        match r {
            Err(e) => (Err(e), s2),
            Ok(ws) => if all_true(ws) {
                forall_from(vs, i + 1, check, env, s2, f)
            } else {
                gives_one(s2, symbol("false"@))
            },
        }
    }
}

/// The value of `(forall gen check)`.
pub open spec fn forall_walked(items: Seq<ExprV>, env: EnvV, s: WalkV, f: nat) -> OutV
    decreases f, 10nat, 0nat, 0nat,
{
    let n = arguments(items);
    if n != 2 {
        failed(s, counted("forall: expected 2 args, got "@, n, ""@))
    } else {
        let (r, s2) = constrained(items[1], env, s, f);
        match r {
            Err(e) => (Err(e), s2),
            Ok(rs) => {
                let (c, s3) = first_or(
                    walked(items[2], env, s2, f),
                    "forall: check produced no value"@,
                );
                match c {
                    Err(e) => (Err(e), s3),
                    Ok(check) => forall_from(raw_values(rs), 0, check, env, s3, f),
                }
            },
        }
    }
}

/// The values of results without their bindings.
pub open spec fn raw_values(rs: ResultV) -> Seq<AtomV> {
    Seq::new(rs.len(), |i: int| rs[i].0)
}

/// A value with values from a position on folded into it by a function.
pub open spec fn folded_from(
    vs: Seq<AtomV>,
    i: nat,
    acc: AtomV,
    head: ExprV,
    env: EnvV,
    s: WalkV,
    f: nat,
) -> OutV
    decreases f, 1nat, 0nat, vs.len() - i,
{
    if i >= vs.len() {
        gives_one(s, acc)
    } else {
        let (r, s2) = first_or(
            walked(ExprV::List(seq![head, to_expr(acc), to_expr(vs[i as int])]), env, s, f),
            "foldall: aggregate function produced no results"@,
        );
        match r {
            Err(e) => (Err(e), s2),
            Ok(a) => folded_from(vs, i + 1, a, head, env, s2, f),
        }
    }
}

/// The value of `(foldall agg gen init)`.
pub open spec fn foldall_walked(items: Seq<ExprV>, env: EnvV, s: WalkV, f: nat) -> OutV
    decreases f, 8nat, 0nat, 0nat,
{
    let n = arguments(items);
    if n != 3 {
        failed(s, counted("foldall: expected (agg-func gen-expr init), got "@, n, " args"@))
    } else {
        let (r, s2) = walked_or_generated(items[2], env, s, f);
        match r {
            Err(e) => (Err(e), s2),
            Ok(vs) => {
                let (a, s3) = first_or(
                    walked(items[3], env, s2, f),
                    "foldall: init expression produced no results"@,
                );
                match a {
                    Err(e) => (Err(e), s3),
                    Ok(init) => folded_from(vs, 0, init, items[1], env, s3, f),
                }
            },
        }
    }
}

/// The value of a function for an element: what is no function makes a list with
/// it.
pub open spec fn mapped(func: AtomV, x: AtomV, env: EnvV, s: WalkV, f: nat) -> OneV
    decreases f, 8nat, 0nat, 0nat,
{
    match func {
        AtomV::Sym(name) => first_or(
            walked(ExprV::List(seq![ExprV::Symbol(name), to_expr(x)]), env, s, f),
            "map-atom: "@ + name + " returned no result for "@ + sexpr(x),
        ),
        AtomV::Closure(params, body, inner) => first_or(
            closure_walked(params, body, *inner, seq![to_expr(x)], env, s, f),
            "map-atom: closure returned no result for "@ + sexpr(x),
        ),
        other => (Ok(AtomV::Expr(seq![other, x])), s),
    }
}

/// The list of the values of a function for elements from a position on, behind
/// those before.
pub open spec fn mapped_from(
    xs: Seq<AtomV>,
    i: nat,
    before: Seq<AtomV>,
    func: AtomV,
    env: EnvV,
    s: WalkV,
    f: nat,
) -> OutV
    decreases f, 9nat, 0nat, xs.len() - i,
{
    if i >= xs.len() {
        gives_one(s, AtomV::Expr(before))
    } else {
        let (r, s2) = mapped(func, xs[i as int], env, s, f);
        match r {
            Err(e) => (Err(e), s2),
            Ok(a) => mapped_from(xs, i + 1, before.push(a), func, env, s2, f),
        }
    }
}

/// The value of `(map-atom list func)`.
pub open spec fn map_walked(items: Seq<ExprV>, env: EnvV, s: WalkV, f: nat) -> OutV
    decreases f, 10nat, 0nat, 0nat,
{
    let n = arguments(items);
    if n != 2 {
        failed(s, counted("map-atom: expected (list func), got "@, n, " args"@))
    } else {
        let (l, s2) = first_or(
            walked(items[1], env, s, f),
            "map-atom: list expression produced no results"@,
        );
        match l {
            Err(e) => (Err(e), s2),
            Ok(list) => {
                let (g, s3) = first_or(
                    walked(items[2], env, s2, f),
                    "map-atom: func expression produced no results"@,
                );
                match g {
                    Err(e) => (Err(e), s3),
                    Ok(func) => match list {
                        AtomV::Expr(xs) => mapped_from(xs, 0, Seq::empty(), func, env, s3, f),
                        other => failed(
                            s3,
                            "map-atom: expected a list (Expr), got "@ + sexpr(other),
                        ),
                    },
                }
            },
        }
    }
}

/// Test whether all values are true, and there is one.
fn test_all(vs: &Vec<Atom>) -> (r: bool)
    ensures
        r == all_true(atoms(vs@)),
{
    broadcast use group_atoms;

    let ghost vv = atoms(vs@);
    assert(vv.len() == vs@.len());
    let mut i: usize = 0;
    while i < vs.len()
        invariant
            i <= vs@.len(),
            vv == atoms(vs@),
            vv.len() == vs@.len(),
            forall|k: int| 0 <= k < i ==> affirms(#[trigger] vv[k]),
        decreases vs@.len() - i,
    {
        assert(vv[i as int] == vs@[i as int]@);
        if !vs[i].affirms() {
            return false;
        }
        i += 1;
    }
    vs.len() > 0
}

/// Take the values of results without their bindings.
fn take_raw(rs: &ResultSet) -> (r: Vec<Atom>)
    ensures
        atoms(r@) == raw_values(results(rs@)),
{
    let ghost want = raw_values(results(rs@));
    let mut out: Vec<Atom> = Vec::new();
    let mut i: usize = 0;
    assert(atoms(out@) =~= want.take(0));
    while i < rs.len()
        invariant
            i <= rs@.len(),
            want == raw_values(results(rs@)),
            atoms(out@) == want.take(i as int),
        decreases rs@.len() - i,
    {
        let ghost before = out@;
        let a = rs[i].0.clone();
        out.push(a);
        assert(atoms(out@) =~= atoms(before).push(a@));
        assert(want.take(i + 1) =~= want.take(i as int).push(want[i as int]));
        i += 1;
    }
    assert(want.take(rs@.len() as int) =~= want);
    out
}

/// Make a list of one expression.
fn one_expr(x: Expr) -> (r: Vec<Expr>)
    ensures
        exprs(r@) == seq![x@],
        r@.len() == 1,
{
    let mut v: Vec<Expr> = Vec::new();
    v.push(x);
    assert(exprs(v@) =~= seq![x@]);
    v
}

/// Take an atom as code.
pub fn as_code(a: &Atom) -> (r: Expr)
    ensures
        r@ == to_expr(a@),
{
    match atom_to_expr(a) {
        Ok(x) => x,
        Err(_) => {
            assert(false);
            Expr::Symbol(String::new())
        },
    }
}

impl Walker {
    /// Evaluate a check for one value.
    fn eval_check(&mut self, check: &Atom, v: Atom, env: &Env, f: u64) -> (r: Walked)
        ensures
            (walked_value(r), final(self)@) == check_walked(
                check@,
                v@,
                env@,
                old(self)@,
                f as nat,
            ),
        decreases f, 8nat, 0nat, 0nat,
    {
        let inner = bind(env, "$__fv", v);
        let arg = Expr::Symbol("$__fv".to_owned());
        match check {
            Atom::Sym(name) => {
                let x = list2(Expr::Symbol(name.clone()), arg);
                self.eval(&x, &inner, f)
            },
            Atom::Closure(c) => {
                let args = one_expr(arg);
                self.apply_closure(&c.params, &c.body, &c.env, &args, &inner, f)
            },
            other => {
                let t = other.to_sexpr_string();
                Err(
                    Stop::Error(
                        joined("forall: check must be a function or closure, got ", t.as_str()),
                    ),
                )
            },
        }
    }

    /// Evaluate `(forall gen check)`: whether the check holds of every value.
    pub fn eval_forall(&mut self, items: &Vec<Expr>, env: &Env, f: u64) -> (r: Walked)
        requires
            items@.len() > 0,
        ensures
            (walked_value(r), final(self)@) == forall_walked(
                exprs(items@),
                env@,
                old(self)@,
                f as nat,
            ),
        decreases f, 10nat, 0nat, 0nat,
    {
        broadcast use {group_exprs, group_atoms};

        let ghost xs = exprs(items@);
        assert(xs.len() == items@.len());
        let n: usize = items.len() - 1;
        if n != 2 {
            return fail_counted("forall: expected 2 args, got ", n, "");
        }
        assert(xs[1] == items@[1]@ && xs[2] == items@[2]@);
        let vs = match self.eval_constrained(&items[1], env, f) {
            Err(e) => {
                return Err(e);
            },
            Ok(rs) => take_raw(&rs),
        };
        let check = match self.eval_first(&items[2], env, f, "forall: check produced no value") {
            Err(e) => {
                return Err(e);
            },
            Ok(c) => c,
        };
        let ghost vv = atoms(vs@);
        let ghost want = forall_from(vv, 0, check@, env@, self@, f as nat);
        assert(vv.len() == vs@.len());
        let mut i: usize = 0;
        while i < vs.len()
            invariant
                i <= vs@.len(),
                vv == atoms(vs@),
                vv.len() == vs@.len(),
                xs == exprs(items@),
                want == forall_walked(xs, env@, old(self)@, f as nat),
                want == forall_from(vv, i as nat, check@, env@, self@, f as nat),
            decreases vs@.len() - i,
        {
            assert(vv[i as int] == vs@[i as int]@);
            match self.eval_check(&check, vs[i].clone(), env, f) {
                Err(e) => {
                    return Err(e);
                },
                Ok(ws) => {
                    if !test_all(&ws) {
                        return give_one(Atom::sym("false"));
                    }
                },
            }
            i += 1;
        }
        give_one(Atom::sym("true"))
    }

    /// Evaluate `(foldall agg gen init)`: fold the values of a generator.
    pub fn eval_foldall(&mut self, items: &Vec<Expr>, env: &Env, f: u64) -> (r: Walked)
        requires
            items@.len() > 0,
        ensures
            (walked_value(r), final(self)@) == foldall_walked(
                exprs(items@),
                env@,
                old(self)@,
                f as nat,
            ),
        decreases f, 8nat, 0nat, 0nat,
    {
        broadcast use {group_exprs, group_atoms};

        let ghost xs = exprs(items@);
        assert(xs.len() == items@.len());
        let n: usize = items.len() - 1;
        if n != 3 {
            return fail_counted("foldall: expected (agg-func gen-expr init), got ", n, " args");
        }
        assert(xs[1] == items@[1]@ && xs[2] == items@[2]@ && xs[3] == items@[3]@);
        let vs = match self.eval_or_generate(&items[2], env, f) {
            Err(e) => {
                return Err(e);
            },
            Ok(vs) => vs,
        };
        let init = match self.eval_first(
            &items[3],
            env,
            f,
            "foldall: init expression produced no results",
        ) {
            Err(e) => {
                return Err(e);
            },
            Ok(a) => a,
        };
        let ghost vv = atoms(vs@);
        let ghost want = folded_from(vv, 0, init@, xs[1], env@, self@, f as nat);
        assert(vv.len() == vs@.len());
        let mut acc = init;
        let mut i: usize = 0;
        while i < vs.len()
            invariant
                i <= vs@.len(),
                vv == atoms(vs@),
                vv.len() == vs@.len(),
                items@.len() == 4,
                xs.len() == 4,
                xs[1] == items@[1]@,
                xs == exprs(items@),
                want == foldall_walked(xs, env@, old(self)@, f as nat),
                want == folded_from(vv, i as nat, acc@, xs[1], env@, self@, f as nat),
            decreases vs@.len() - i,
        {
            assert(vv[i as int] == vs@[i as int]@);
            let x = list3(items[1].clone(), as_code(&acc), as_code(&vs[i]));
            match self.eval_first(
                &x,
                env,
                f,
                "foldall: aggregate function produced no results",
            ) {
                Err(e) => {
                    return Err(e);
                },
                Ok(a) => {
                    acc = a;
                },
            }
            i += 1;
        }
        give_one(acc)
    }

    /// Apply a function to an element.
    fn map_one(&mut self, func: &Atom, x: &Atom, env: &Env, f: u64) -> (r: Result<Atom, Stop>)
        ensures
            (one_walked(r), final(self)@) == mapped(func@, x@, env@, old(self)@, f as nat),
        decreases f, 8nat, 0nat, 0nat,
    {
        match func {
            Atom::Sym(name) => {
                let c = list2(Expr::Symbol(name.clone()), as_code(x));
                let front = joined3("map-atom: ", name.as_str(), " returned no result for ");
                let t = x.to_sexpr_string();
                let m = joined(front.as_str(), t.as_str());
                self.eval_first(&c, env, f, m.as_str())
            },
            Atom::Closure(c) => {
                let args = one_expr(as_code(x));
                let t = x.to_sexpr_string();
                let m = joined("map-atom: closure returned no result for ", t.as_str());
                let v = self.apply_closure(&c.params, &c.body, &c.env, &args, env, f);
                let ghost s = self@;
                let a = take_first_or(v, m.as_str());
                assert((one_walked(a), s) == first_or((walked_value(v), s), m@));
                a
            },
            other => {
                let mut v: Vec<Atom> = Vec::new();
                v.push(other.clone());
                v.push(x.clone());
                assert(atoms(v@) =~= seq![other@, x@]);
                Ok(Atom::expr(v))
            },
        }
    }

    /// Evaluate `(map-atom list func)`: the list of the values of a function.
    pub fn eval_map_atom(&mut self, items: &Vec<Expr>, env: &Env, f: u64) -> (r: Walked)
        requires
            items@.len() > 0,
        ensures
            (walked_value(r), final(self)@) == map_walked(
                exprs(items@),
                env@,
                old(self)@,
                f as nat,
            ),
        decreases f, 10nat, 0nat, 0nat,
    {
        broadcast use {group_exprs, group_atoms};

        let ghost xs = exprs(items@);
        assert(xs.len() == items@.len());
        let n: usize = items.len() - 1;
        if n != 2 {
            return fail_counted("map-atom: expected (list func), got ", n, " args");
        }
        assert(xs[1] == items@[1]@ && xs[2] == items@[2]@);
        let list = match self.eval_first(
            &items[1],
            env,
            f,
            "map-atom: list expression produced no results",
        ) {
            Err(e) => {
                return Err(e);
            },
            Ok(a) => a,
        };
        let func = match self.eval_first(
            &items[2],
            env,
            f,
            "map-atom: func expression produced no results",
        ) {
            Err(e) => {
                return Err(e);
            },
            Ok(a) => a,
        };
        match &list {
            Atom::Expr(vs) => {
                let ghost vv = atoms(vs@);
                let ghost want = mapped_from(
                    vv,
                    0,
                    Seq::empty(),
                    func@,
                    env@,
                    self@,
                    f as nat,
                );
                assert(vv.len() == vs@.len());
                let mut out: Vec<Atom> = Vec::new();
                let mut i: usize = 0;
                assert(atoms(out@) =~= Seq::<AtomV>::empty());
                while i < vs.len()
                    invariant
                        i <= vs@.len(),
                        vv == atoms(vs@),
                        vv.len() == vs@.len(),
                        xs == exprs(items@),
                        want == map_walked(xs, env@, old(self)@, f as nat),
                        want == mapped_from(
                            vv,
                            i as nat,
                            atoms(out@),
                            func@,
                            env@,
                            self@,
                            f as nat,
                        ),
                    decreases vs@.len() - i,
                {
                    assert(vv[i as int] == vs@[i as int]@);
                    match self.map_one(&func, &vs[i], env, f) {
                        Err(e) => {
                            return Err(e);
                        },
                        Ok(a) => {
                            let ghost before = out@;
                            out.push(a);
                            assert(atoms(out@) =~= atoms(before).push(a@));
                        },
                    }
                    i += 1;
                }
                give_one(Atom::expr(out))
            },
            other => {
                let t = other.to_sexpr_string();
                Err(Stop::Error(joined("map-atom: expected a list (Expr), got ", t.as_str())))
            },
        }
    }
}

} // verus!
