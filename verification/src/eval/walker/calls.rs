//! Calls in a tree walk.
use crate::atom::Atom;
use crate::atom::AtomV;
use crate::atom::atoms;
use crate::atom::group_atoms;
use crate::atom::sexpr;
use crate::builtins::Answer;
use crate::builtins::AnswerV;
use crate::builtins::ListLoop;
use crate::builtins::LoopV;
use crate::builtins::call_builtin;
use crate::builtins::called;
use crate::builtins::loops::LoopsOut;
use crate::builtins::loops::LoopsOutV;
use crate::builtins::loops::feed_loops;
use crate::builtins::loops::first_of;
use crate::builtins::loops::loops;
use crate::builtins::loops::loops_fed;
use crate::builtins::loops::loops_stepped;
use crate::builtins::loops::step_loops;
use crate::env::Env;
use crate::env::EnvV;
use crate::eval::forms::query::lookup_user_clauses;
use crate::eval::machine::vm::outcome::HostCall;
use crate::eval::machine::vm::outcome::HostV;
use crate::eval::shared::pattern::optional_atom;
use crate::eval::walker::OutV;
use crate::eval::walker::Stop;
use crate::eval::walker::StopV;
use crate::eval::walker::WalkV;
use crate::eval::walker::Walked;
use crate::eval::walker::Walker;
use crate::eval::walker::asked;
use crate::eval::walker::counted;
use crate::eval::walker::fail;
use crate::eval::walker::fail_counted;
use crate::eval::walker::failed;
use crate::eval::walker::first_or;
use crate::eval::walker::give_one;
use crate::eval::walker::gives;
use crate::eval::walker::gives_one;
use crate::eval::walker::join_atoms;
use crate::eval::walker::lists::data_walked;
use crate::eval::walker::matching::FittingV;
use crate::eval::walker::matching::clause_fit;
use crate::eval::walker::matching::clauses_fit;
use crate::eval::walker::matching::fitting_values;
use crate::eval::walker::walked;
use crate::eval::walker::walked_value;
use crate::eval::walker::with_line;
use crate::eval::walker::with_table;
use crate::expr::Expr;
use crate::expr::ExprV;
use crate::expr::copy_exprs;
use crate::expr::expr_text;
use crate::expr::exprs;
use crate::expr::group_exprs;
use crate::func::Builtin;
use crate::func::TableV;
use crate::text::is_var;
use crate::text::is_var_name;
use crate::text::joined3;
use crate::text::joined;
use crate::text::texts;
use crate::text::usize_text;
use vstd::prelude::*;
use vstd::string::*;

verus! {

/// The first values of arguments from a position on, behind those before: an
/// argument without a value is refused.
pub open spec fn args_walked(
    items: Seq<ExprV>,
    i: nat,
    name: Seq<char>,
    before: Seq<AtomV>,
    env: EnvV,
    s: WalkV,
    f: nat,
) -> OutV
    decreases f, 1nat, 0nat, items.len() - i,
{
    if i >= items.len() {
        (Ok(before), s)
    } else {
        let (r, s2) = walked(items[i as int], env, s, f);
        match r {
            Err(e) => (Err(e), s2),
            Ok(vs) => if vs.len() == 0 {
                (
                    Err(
                        StopV::Error(
                            counted(name + ": argument "@, i, " produced no results"@),
                        ),
                    ),
                    s2,
                )
            } else {
                args_walked(items, i + 1, name, before.push(vs[0]), env, s2, f)
            },
        }
    }
}

/// The first values of arguments from a position on, behind those before.
pub open spec fn firsts_walked(
    items: Seq<ExprV>,
    i: nat,
    before: Seq<AtomV>,
    env: EnvV,
    s: WalkV,
    f: nat,
) -> OutV
    decreases f, 1nat, 0nat, items.len() - i,
{
    if i >= items.len() {
        gives(s, before)
    } else {
        let (r, s2) = first_or(
            walked(items[i as int], env, s, f),
            counted("closure: argument "@, i + 1, " produced no results"@),
        );
        match r {
            Err(e) => (Err(e), s2),
            Ok(a) => firsts_walked(items, i + 1, before.push(a), env, s2, f),
        }
    }
}

/// Texts with a separator between them.
pub open spec fn separated(parts: Seq<Seq<char>>, sep: Seq<char>) -> Seq<char>
    decreases parts.len(),
{
    if parts.len() == 0 {
        Seq::empty()
    } else if parts.len() == 1 {
        parts[0]
    } else {
        separated(parts.drop_last(), sep) + sep + parts.last()
    }
}

/// Put texts together with a separator between them.
pub fn separate(parts: &Vec<String>, sep: &str) -> (r: String)
    ensures
        r@ == separated(texts(parts@), sep@),
{
    let ghost all = texts(parts@);
    let mut out: String = String::new();
    let mut i: usize = 0;
    assert(all.take(0) =~= Seq::<Seq<char>>::empty());
    assert(out@ =~= Seq::<char>::empty());
    while i < parts.len()
        invariant
            i <= parts@.len(),
            all == texts(parts@),
            out@ == separated(all.take(i as int), sep@),
        decreases parts@.len() - i,
    {
        assert(all.take(i + 1).drop_last() =~= all.take(i as int));
        assert(all[i as int] == parts@[i as int]@);
        if i > 0 {
            out.append(sep);
        }
        out.append(parts[i].as_str());
        assert(i == 0 ==> out@ =~= all[0]);
        i += 1;
    }
    assert(all.take(parts@.len() as int) =~= all);
    out
}

/// The texts of atoms.
pub open spec fn atom_texts(s: Seq<AtomV>) -> Seq<Seq<char>> {
    Seq::new(s.len(), |i: int| sexpr(s[i]))
}

/// Write atoms.
pub fn write_atoms(list: &Vec<Atom>) -> (r: Vec<String>)
    ensures
        texts(r@) == atom_texts(atoms(list@)),
{
    broadcast use group_atoms;

    let ghost want = atom_texts(atoms(list@));
    let mut out: Vec<String> = Vec::new();
    let mut i: usize = 0;
    assert(texts(out@) =~= want.take(0));
    while i < list.len()
        invariant
            i <= list@.len(),
            want == atom_texts(atoms(list@)),
            texts(out@) == want.take(i as int),
        decreases list@.len() - i,
    {
        assert(atoms(list@)[i as int] == list@[i as int]@);
        assert(atoms(list@).len() == list@.len());
        let ghost before = out@;
        let t = list[i].to_sexpr_string();
        out.push(t);
        assert(texts(out@) =~= texts(before).push(t@));
        assert(want.take(i + 1) =~= want.take(i as int).push(want[i as int]));
        i += 1;
    }
    assert(atoms(list@).len() == list@.len());
    assert(want.take(list@.len() as int) =~= want);
    out
}

/// The texts of expressions.
pub open spec fn pattern_texts(s: Seq<ExprV>) -> Seq<Seq<char>> {
    Seq::new(s.len(), |i: int| expr_text(s[i]))
}

/// Write expressions.
fn write_patterns(list: &Vec<Expr>) -> (r: Vec<String>)
    ensures
        texts(r@) == pattern_texts(exprs(list@)),
{
    broadcast use group_exprs;

    let ghost want = pattern_texts(exprs(list@));
    let mut out: Vec<String> = Vec::new();
    let mut i: usize = 0;
    assert(texts(out@) =~= want.take(0));
    while i < list.len()
        invariant
            i <= list@.len(),
            want == pattern_texts(exprs(list@)),
            texts(out@) == want.take(i as int),
        decreases list@.len() - i,
    {
        assert(exprs(list@)[i as int] == list@[i as int]@);
        assert(exprs(list@).len() == list@.len());
        let ghost before = out@;
        let t = list[i].to_text();
        out.push(t);
        assert(texts(out@) =~= texts(before).push(t@));
        assert(want.take(i + 1) =~= want.take(i as int).push(want[i as int]));
        i += 1;
    }
    assert(exprs(list@).len() == list@.len());
    assert(want.take(list@.len() as int) =~= want);
    out
}

/// The complaint about a closure whose parameters do not match.
pub open spec fn unfit_text(params: Seq<ExprV>, args: Seq<AtomV>) -> Seq<char> {
    "closure: params do not match args: ("@ + separated(pattern_texts(params), " "@) + ") vs ["@
        + separated(atom_texts(args), ", "@) + "]"@
}

/// Applying a closure to arguments.
pub open spec fn closure_walked(
    params: Seq<ExprV>,
    body: ExprV,
    inner: EnvV,
    args: Seq<ExprV>,
    env: EnvV,
    s: WalkV,
    f: nat,
) -> OutV
    decreases f, 5nat, 0nat, 0nat,
{
    let (r, s2) = firsts_walked(args, 0, Seq::empty(), env, s, f);
    match r {
        Err(e) => (Err(e), s2),
        Ok(vs) => {
            let (m, s3) = clause_fit(params, vs, inner, s2, f);
            match m {
                Err(e) => (Err(e), s3),
                Ok(Some(e)) => walked(body, e, s3, f),
                Ok(None) => failed(s3, unfit_text(params, vs)),
            }
        },
    }
}

/// The value of loops that compute the value of a built-in function.
pub open spec fn loops_walked(ls: Seq<LoopV>, s: WalkV, fuel: nat) -> OutV
    decreases fuel, 0nat, 0nat, 0nat,
{
    if fuel == 0 {
        (Err(StopV::Deep), s)
    } else {
        let f = (fuel - 1) as nat;
        let (o, rest, after) = loops_stepped(ls, s.t);
        let s2 = with_table(s, after);
        match o {
            LoopsOutV::Done(v) => gives_one(s2, v),
            LoopsOutV::Go(lines) => loops_walked(
                rest,
                WalkV { lines: s2.lines + lines, ..s2 },
                f,
            ),
            LoopsOutV::Fail(m) => failed(s2, m),
            LoopsOutV::Host(b, n, xs) => loops_answered(
                rest,
                asked(HostV::Native(b, n, xs), s2),
                f,
            ),
            LoopsOutV::Run(e) => loops_answered(rest, walked(e, EnvV::Empty, s2, f), f),
        }
    }
}

/// Loops go on with the value of a function that they call.
pub open spec fn loops_answered(ls: Seq<LoopV>, out: OutV, f: nat) -> OutV
    decreases f, 1nat, 0nat, 0nat,
{
    match out.0 {
        Err(e) => (Err(e), out.1),
        Ok(vs) => match loops_fed(ls, first_of(vs)) {
            Err(m) => failed(out.1, m),
            Ok(next) => loops_walked(next, out.1, f),
        },
    }
}

/// The values of a built-in function.
pub open spec fn native_walked(
    b: Builtin,
    name: Seq<char>,
    args: Seq<AtomV>,
    s: WalkV,
    f: nat,
) -> OutV
    decreases f, 2nat, 0nat, 0nat,
{
    let (answer, after) = called(b, name, args, s.t);
    let s2 = with_table(s, after);
    match answer {
        AnswerV::Values(vs) => gives(s2, vs),
        AnswerV::Fail(m) => failed(s2, m),
        AnswerV::Report(line, a) => gives_one(with_line(s2, line), a),
        AnswerV::Host(b2, n2, xs) => asked(HostV::Native(b2, n2, xs), s2),
        AnswerV::Loop(l) => loops_walked(seq![l], s2, f),
    }
}

/// The values of bodies from a position on, behind those before.
pub open spec fn bodies_walked(
    bs: Seq<FittingV>,
    i: nat,
    before: Seq<AtomV>,
    s: WalkV,
    f: nat,
) -> OutV
    decreases f, 1nat, 0nat, bs.len() - i,
{
    if i >= bs.len() {
        gives(s, before)
    } else {
        let (r, s2) = walked(bs[i as int].1, bs[i as int].0, s, f);
        match r {
            Err(e) => (Err(e), s2),
            Ok(vs) => bodies_walked(bs, i + 1, before + vs, s2, f),
        }
    }
}

/// Whether a name has a function with a number of arguments.
pub open spec fn is_function(t: TableV, name: Seq<char>, arity: u8) -> bool {
    t.natives.contains_key((name, arity)) || t.clauses_of(name, arity) is Some
}

/// Calling a function with the first value of each argument.
pub open spec fn function_walked(
    name: Seq<char>,
    items: Seq<ExprV>,
    env: EnvV,
    s: WalkV,
    f: nat,
) -> OutV
    decreases f, 6nat, 0nat, 0nat,
{
    let arity = (items.len() - 1) as u8;
    let (r, s2) = args_walked(items, 1, name, Seq::empty(), env, s, f);
    match r {
        Err(e) => (Err(e), s2),
        Ok(args) => if s.t.natives.contains_key((name, arity)) {
            native_walked(s.t.natives[(name, arity)], name, args, s2, f)
        } else {
            match s.t.clauses_of(name, arity) {
                None => failed(s2, "unknown function"@),
                Some(cs) => {
                    let (m, s3) = clauses_fit(cs, 0, args, env, Seq::empty(), s2, f);
                    match m {
                        Err(e) => (Err(e), s3),
                        Ok(bs) => if bs.len() > 0 {
                            bodies_walked(bs, 0, Seq::empty(), s3, f)
                        } else {
                            failed(
                                s3,
                                name + ": no matching clause for args ["@ + separated(
                                    atom_texts(args),
                                    ", "@,
                                ) + "]"@,
                            )
                        },
                    }
                },
            }
        },
    }
}

/// A list as a call, or as data.
///
/// A name calls its function. Any other head is evaluated first: the name of a
/// function is called, a closure is applied, and anything else heads a list of
/// data.
pub open spec fn call_or_data(items: Seq<ExprV>, env: EnvV, s: WalkV, f: nat) -> OutV
    decreases f, 7nat, 0nat, 0nat,
{
    let arity = (items.len() - 1) as u8;
    if items[0] is Symbol && !is_var_name(items[0]->Symbol_0) {
        let name = items[0]->Symbol_0;
        if is_function(s.t, name, arity) {
            function_walked(name, items, env, s, f)
        } else {
            data_walked(items, 0, Seq::empty(), env, s, f)
        }
    } else {
        let (r, s2) = first_or(
            walked(items[0], env, s, f),
            "expression produced no results in data list"@,
        );
        match r {
            Err(e) => (Err(e), s2),
            Ok(op) => match op {
                AtomV::Sym(name) => if is_function(s2.t, name, arity) {
                    function_walked(name, items, env, s2, f)
                } else {
                    data_walked(items, 1, seq![op], env, s2, f)
                },
                AtomV::Closure(params, body, inner) => closure_walked(
                    params,
                    body,
                    *inner,
                    items.skip(1),
                    env,
                    s2,
                    f,
                ),
                _ => data_walked(items, 1, seq![op], env, s2, f),
            },
        }
    }
}

impl Walker {
    /// Evaluate the arguments of a call.
    pub fn eval_args(&mut self, items: &Vec<Expr>, name: &str, env: &Env, f: u64) -> (r: Walked)
        requires
            items@.len() > 0,
        ensures
            (walked_value(r), final(self)@) == args_walked(
                exprs(items@),
                1,
                name@,
                Seq::empty(),
                env@,
                old(self)@,
                f as nat,
            ),
        decreases f, 1nat, 0nat, items@.len(),
    {
        broadcast use {group_exprs, group_atoms};

        let ghost xs = exprs(items@);
        let ghost want = args_walked(xs, 1, name@, Seq::empty(), env@, self@, f as nat);
        let mut out: Vec<Atom> = Vec::new();
        let mut i: usize = 1;
        assert(xs.len() == items@.len());
        assert(atoms(out@) =~= Seq::<AtomV>::empty());
        while i < items.len()
            invariant
                1 <= i <= items@.len(),
                xs == exprs(items@),
                xs.len() == items@.len(),
                want == args_walked(xs, 1, name@, Seq::empty(), env@, old(self)@, f as nat),
                want == args_walked(
                    xs,
                    i as nat,
                    name@,
                    atoms(out@),
                    env@,
                    self@,
                    f as nat,
                ),
            decreases items@.len() - i,
        {
            assert(xs[i as int] == items@[i as int]@);
            match self.eval(&items[i], env, f) {
                Err(e) => {
                    return Err(e);
                },
                Ok(vs) => {
                    assert(atoms(vs@).len() == vs@.len());
                    if vs.len() == 0 {
                        let front = joined(name, ": argument ");
                        return fail_counted(front.as_str(), i, " produced no results");
                    }
                    let ghost before = out@;
                    let a = vs[0].clone();
                    out.push(a);
                    assert(atoms(out@) =~= atoms(before).push(a@));
                },
            }
            i += 1;
        }
        Ok(out)
    }

    /// Evaluate arguments to their first values.
    pub fn eval_firsts(&mut self, items: &Vec<Expr>, env: &Env, f: u64) -> (r: Walked)
        requires
            items@.len() < usize::MAX,
        ensures
            (walked_value(r), final(self)@) == firsts_walked(
                exprs(items@),
                0,
                Seq::empty(),
                env@,
                old(self)@,
                f as nat,
            ),
        decreases f, 1nat, 0nat, items@.len() + 1,
    {
        broadcast use group_exprs;

        let ghost xs = exprs(items@);
        let ghost want = firsts_walked(xs, 0, Seq::empty(), env@, self@, f as nat);
        let mut out: Vec<Atom> = Vec::new();
        let mut i: usize = 0;
        assert(xs.len() == items@.len());
        assert(atoms(out@) =~= Seq::<AtomV>::empty());
        while i < items.len()
            invariant
                i <= items@.len(),
                items@.len() < usize::MAX,
                xs == exprs(items@),
                xs.len() == items@.len(),
                want == firsts_walked(xs, 0, Seq::empty(), env@, old(self)@, f as nat),
                want == firsts_walked(xs, i as nat, atoms(out@), env@, self@, f as nat),
            decreases items@.len() - i,
        {
            assert(xs[i as int] == items@[i as int]@);
            let d = usize_text(i + 1);
            let m = joined3("closure: argument ", d.as_str(), " produced no results");
            match self.eval_first(&items[i], env, f, m.as_str()) {
                Err(e) => {
                    return Err(e);
                },
                Ok(a) => {
                    let ghost before = out@;
                    out.push(a);
                    assert(atoms(out@) =~= atoms(before).push(a@));
                },
            }
            i += 1;
        }
        Ok(out)
    }

    /// Apply a closure to a list of argument expressions.
    pub fn apply_closure(
        &mut self,
        params: &Vec<Expr>,
        body: &Expr,
        inner: &Env,
        args: &Vec<Expr>,
        env: &Env,
        f: u64,
    ) -> (r: Walked)
        requires
            args@.len() < usize::MAX,
        ensures
            (walked_value(r), final(self)@) == closure_walked(
                exprs(params@),
                body@,
                inner@,
                exprs(args@),
                env@,
                old(self)@,
                f as nat,
            ),
        decreases f, 5nat, 0nat, 0nat,
    {
        match self.eval_firsts(args, env, f) {
            Err(e) => Err(e),
            Ok(vs) => match self.try_match_clause(params, &vs, inner, f) {
                Err(e) => Err(e),
                Ok(Some(e)) => self.eval(body, &e, f),
                Ok(None) => {
                    let ps = write_patterns(params);
                    let p = separate(&ps, " ");
                    let ws = write_atoms(&vs);
                    let w = separate(&ws, ", ");
                    let mut m: String = joined3(
                        "closure: params do not match args: (",
                        p.as_str(),
                        ") vs [",
                    );
                    m.append(w.as_str());
                    m.append("]");
                    Err(Stop::Error(m))
                },
            },
        }
    }

    /// Run loops that compute the value of a built-in function.
    pub fn run_loops(&mut self, ls: Vec<ListLoop>, fuel: u64) -> (r: Walked)
        ensures
            (walked_value(r), final(self)@) == loops_walked(
                loops(ls@),
                old(self)@,
                fuel as nat,
            ),
        decreases fuel, 0nat, 0nat, 0nat,
    {
        if fuel == 0 {
            return Err(Stop::Deep);
        }
        let f: u64 = fuel - 1;
        let ghost s = self@;
        let mut ls = ls;
        let out = step_loops(&mut ls, &mut self.table);
        assert(self@ =~= with_table(s, self.table@));
        match out {
            LoopsOut::Done(v) => give_one(v),
            LoopsOut::Go(lines) => {
                let ghost s2 = self@;
                let ghost l = self.lines@;
                let ghost more = lines@;
                let mut lines = lines;
                self.lines.append(&mut lines);
                assert(texts(self.lines@) =~= texts(l) + texts(more));
                assert(self@ =~= (WalkV { lines: s2.lines + texts(more), ..s2 }));
                self.run_loops(ls, f)
            },
            LoopsOut::Fail(m) => Err(Stop::Error(m)),
            LoopsOut::Host(b, n, xs) => {
                let out = self.ask(HostCall::Native(b, n, xs));
                self.answer_loops(ls, out, f)
            },
            LoopsOut::Run(e) => {
                let out = self.eval(&e, &Env::new(), f);
                self.answer_loops(ls, out, f)
            },
        }
    }

    /// Go on with loops after a function that they call.
    fn answer_loops(&mut self, ls: Vec<ListLoop>, out: Walked, f: u64) -> (r: Walked)
        ensures
            (walked_value(r), final(self)@) == loops_answered(
                loops(ls@),
                (walked_value(out), old(self)@),
                f as nat,
            ),
        decreases f, 1nat, 0nat, 0nat,
    {
        match out {
            Err(e) => Err(e),
            Ok(vs) => {
                assert(atoms(vs@).len() == vs@.len());
                let first: Option<Atom> = if vs.len() > 0 {
                    Some(vs[0].clone())
                } else {
                    None
                };
                assert(optional_atom(first) == first_of(atoms(vs@)));
                let mut ls = ls;
                match feed_loops(&mut ls, first) {
                    Err(m) => Err(Stop::Error(m)),
                    Ok(()) => self.run_loops(ls, f),
                }
            },
        }
    }

    /// Call a built-in function.
    pub fn call_native(&mut self, b: Builtin, name: &str, args: &Vec<Atom>, f: u64) -> (r: Walked)
        ensures
            (walked_value(r), final(self)@) == native_walked(
                b,
                name@,
                atoms(args@),
                old(self)@,
                f as nat,
            ),
        decreases f, 2nat, 0nat, 0nat,
    {
        let ghost s = self@;
        let answer = call_builtin(b, name, args, &mut self.table);
        assert(self@ =~= with_table(s, self.table@));
        match answer {
            Answer::Values(vs) => Ok(vs),
            Answer::Fail(m) => Err(Stop::Error(m)),
            Answer::Report(line, a) => {
                self.say(line);
                give_one(a)
            },
            Answer::Host(b2, n2, xs) => self.ask(HostCall::Native(b2, n2, xs)),
            Answer::Loop(l) => {
                let mut ls: Vec<ListLoop> = Vec::new();
                ls.push(l);
                assert(loops(ls@) =~= seq![l@]);
                self.run_loops(ls, f)
            },
        }
    }

    /// Evaluate bodies in their environments, behind values.
    pub fn eval_bodies(&mut self, bs: &Vec<(Env, Expr)>, before: Vec<Atom>, f: u64) -> (r: Walked)
        ensures
            (walked_value(r), final(self)@) == bodies_walked(
                fitting_values(bs@),
                0,
                atoms(before@),
                old(self)@,
                f as nat,
            ),
        decreases f, 1nat, 0nat, bs@.len() + 1,
    {
        let ghost bv = fitting_values(bs@);
        let ghost want = bodies_walked(bv, 0, atoms(before@), self@, f as nat);
        let mut out = before;
        let mut i: usize = 0;
        while i < bs.len()
            invariant
                i <= bs@.len(),
                bv == fitting_values(bs@),
                want == bodies_walked(bv, 0, atoms(before@), old(self)@, f as nat),
                want == bodies_walked(bv, i as nat, atoms(out@), self@, f as nat),
            decreases bs@.len() - i,
        {
            assert(bv[i as int] == (bs@[i as int].0@, bs@[i as int].1@));
            match self.eval(&bs[i].1, &bs[i].0, f) {
                Err(e) => {
                    return Err(e);
                },
                Ok(vs) => {
                    out = join_atoms(out, vs);
                },
            }
            i += 1;
        }
        Ok(out)
    }

    /// Call a function with the first value of each argument.
    pub fn call_function(&mut self, name: &str, items: &Vec<Expr>, env: &Env, f: u64) -> (r: Walked)
        requires
            items@.len() > 0,
        ensures
            (walked_value(r), final(self)@) == function_walked(
                name@,
                exprs(items@),
                env@,
                old(self)@,
                f as nat,
            ),
        decreases f, 6nat, 0nat, 0nat,
    {
        broadcast use group_exprs;

        assert(exprs(items@).len() == items@.len());
        let arity: u8 = (items.len() - 1) as u8;
        let native = self.table.get(name, arity);
        let user = lookup_user_clauses(name, arity, &self.table);
        let args = match self.eval_args(items, name, env, f) {
            Err(e) => {
                return Err(e);
            },
            Ok(v) => v,
        };
        match native {
            Some(b) => {
                return self.call_native(b, name, &args, f);
            },
            None => {},
        }
        match user {
            None => fail("unknown function"),
            Some(list) => match self.match_clauses(&list, &args, env, f) {
                Err(e) => Err(e),
                Ok(bs) => {
                    assert(fitting_values(bs@).len() == bs@.len());
                    if bs.len() > 0 {
                        let none: Vec<Atom> = Vec::new();
                        assert(atoms(none@) =~= Seq::<AtomV>::empty());
                        return self.eval_bodies(&bs, none, f);
                    }
                    let ws = write_atoms(&args);
                    let w = separate(&ws, ", ");
                    let mut m: String = joined3(name, ": no matching clause for args [", w.as_str());
                    m.append("]");
                    Err(Stop::Error(m))
                },
            },
        }
    }

    /// Test whether a name has a function with a number of arguments.
    fn has_function(&self, name: &str, arity: u8) -> (r: bool)
        ensures
            r == is_function(self@.t, name@, arity),
    {
        match self.table.get(name, arity) {
            Some(_) => true,
            None => match lookup_user_clauses(name, arity, &self.table) {
                Some(_) => true,
                None => false,
            },
        }
    }

    /// Evaluate the rest of a list of data whose head is known.
    fn eval_data_list_with_head(&mut self, head: Atom, items: &Vec<Expr>, env: &Env, f: u64) -> (r:
        Walked)
        requires
            items@.len() > 0,
        ensures
            (walked_value(r), final(self)@) == data_walked(
                exprs(items@),
                1,
                seq![head@],
                env@,
                old(self)@,
                f as nat,
            ),
        decreases f, 3nat, 0nat, 0nat,
    {
        let mut v: Vec<Atom> = Vec::new();
        v.push(head);
        assert(atoms(v@) =~= seq![head@]);
        self.eval_data_list(items, 1, v, env, f)
    }

    /// Try to interpret a list as a function call.
    pub fn try_call_or_data(&mut self, items: &Vec<Expr>, env: &Env, f: u64) -> (r: Walked)
        requires
            items@.len() > 0,
        ensures
            (walked_value(r), final(self)@) == call_or_data(
                exprs(items@),
                env@,
                old(self)@,
                f as nat,
            ),
        decreases f, 7nat, 0nat, 0nat,
    {
        broadcast use {group_exprs, group_atoms};

        let ghost xs = exprs(items@);
        assert(xs.len() == items@.len());
        assert(xs[0] == items@[0]@);
        let arity: u8 = (items.len() - 1) as u8;
        match &items[0] {
            Expr::Symbol(s) => {
                if !is_var(s.as_str()) {
                    if self.has_function(s.as_str(), arity) {
                        return self.call_function(s.as_str(), items, env, f);
                    }
                    let none: Vec<Atom> = Vec::new();
                    assert(atoms(none@) =~= Seq::<AtomV>::empty());
                    return self.eval_data_list(items, 0, none, env, f);
                }
            },
            _ => {},
        }
        let op = match self.eval_first(
            &items[0],
            env,
            f,
            "expression produced no results in data list",
        ) {
            Err(e) => {
                return Err(e);
            },
            Ok(a) => a,
        };
        match &op {
            Atom::Sym(name) => {
                if self.has_function(name.as_str(), arity) {
                    return self.call_function(name.as_str(), items, env, f);
                }
            },
            Atom::Closure(c) => {
                let args = copy_exprs(items, 1);
                assert(exprs(args@) =~= xs.skip(1));
                return self.apply_closure(&c.params, &c.body, &c.env, &args, env, f);
            },
            _ => {},
        }
        self.eval_data_list_with_head(op, items, env, f)
    }
}

} // verus!
