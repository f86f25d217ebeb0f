//! Calls into Python.
//!
//! This module decides what a call is made of: names to look up, code to
//! evaluate, values to hand over. The host carries the plan out.
use crate::atom::Atom;
use crate::atom::AtomV;
use crate::atom::atoms;
use crate::atom::group_atoms;
use crate::atom::sexpr;
use crate::atom::symbol;
use crate::env::Env;
use crate::env::EnvV;
use crate::env::env_get;
use crate::expr::Expr;
use crate::expr::ExprV;
use crate::expr::copy_exprs;
use crate::expr::exprs;
use crate::expr::group_exprs;
use crate::numeric::NumV;
use crate::numeric::Numeric;
use crate::text::chars_of;
use crate::text::is_var;
use crate::text::is_var_name;
use crate::text::joined3;
use crate::text::joined;
use crate::text::same;
use crate::text::text_between;
use crate::text::texts;
use vstd::prelude::*;
use vstd::string::*;

verus! {

/// A value in the shape in which it is handed over.
pub enum PyData {
    /// A string.
    Text(String),
    /// An integer.
    Int(i64),
    /// A number with a fraction, by its digits.
    Real(String),
    /// A list.
    List(Vec<PyData>),
    /// An object of the host, by its key, and how it is shown.
    Object(u64, String),
}

/// The value of a value to hand over.
pub enum PyDataV {
    /// A string.
    Text(Seq<char>),
    /// An integer.
    Int(i64),
    /// A number with a fraction.
    Real(Seq<char>),
    /// A list.
    List(Seq<PyDataV>),
    /// An object of the host.
    Object(u64, Seq<char>),
}

/// The value of a value to hand over.
pub open spec fn data_view(d: PyData) -> PyDataV
    decreases d,
{
    match d {
        PyData::Text(s) => PyDataV::Text(s@),
        PyData::Int(i) => PyDataV::Int(i),
        PyData::Real(s) => PyDataV::Real(s@),
        PyData::List(v) => PyDataV::List(data_views(v@)),
        PyData::Object(k, s) => PyDataV::Object(k, s@),
    }
}

/// The values of values to hand over.
pub open spec fn data_views(s: Seq<PyData>) -> Seq<PyDataV>
    decreases s,
{
    Seq::new(
        s.len(),
        |i: int|
            if 0 <= i < s.len() {
                data_view(s[i])
            } else {
                arbitrary()
            },
    )
}

impl View for PyData {
    type V = PyDataV;

    open spec fn view(&self) -> PyDataV {
        data_view(*self)
    }
}

/// How a number is handed over: an integer that does not fit goes as text.
pub open spec fn number_data(n: NumV) -> PyDataV {
    match n {
        NumV::Int(i) => if i64::MIN <= i <= i64::MAX {
            PyDataV::Int(i as i64)
        } else {
            PyDataV::Text(n.text())
        },
        NumV::Dec(_, _) => PyDataV::Real(n.text()),
    }
}

/// How an atom is handed over.
pub open spec fn atom_data(a: AtomV) -> PyDataV
    decreases a,
{
    match a {
        AtomV::Sym(s) => PyDataV::Text(s),
        AtomV::Str(s) => PyDataV::Text(s),
        AtomV::Num(n) => number_data(n),
        AtomV::Expr(items) => PyDataV::List(atoms_data(items)),
        AtomV::Closure(_, _, _) => PyDataV::Text(sexpr(a)),
        AtomV::Gnd(k, s) => PyDataV::Object(k, s),
    }
}

/// How atoms are handed over.
pub open spec fn atoms_data(s: Seq<AtomV>) -> Seq<PyDataV>
    decreases s,
{
    Seq::new(
        s.len(),
        |i: int|
            if 0 <= i < s.len() {
                atom_data(s[i])
            } else {
                arbitrary()
            },
    )
}

/// Hand a number over.
pub fn number_to_py(n: &Numeric) -> (r: PyData)
    ensures
        r@ == number_data(n@),
{
    match n {
        Numeric::Int(i) => {
            match i.to_i128() {
                Some(v) => {
                    if i64::MIN as i128 <= v && v <= i64::MAX as i128 {
                        return PyData::Int(v as i64);
                    }
                },
                None => {},
            }
            PyData::Text(n.to_text())
        },
        Numeric::Dec(_) => PyData::Real(n.to_text()),
    }
}

/// Hand an atom over.
pub fn atom_to_py(atom: &Atom) -> (r: PyData)
    ensures
        r@ == atom_data(atom@),
    decreases atom,
{
    broadcast use group_atoms;

    match atom {
        Atom::Sym(s) => PyData::Text(s.clone()),
        Atom::Str(s) => PyData::Text(s.clone()),
        Atom::Num(n) => number_to_py(n),
        Atom::Expr(items) => {
            let ghost iv = atoms(items@);
            let ghost want = atoms_data(iv);
            let mut out: Vec<PyData> = Vec::new();
            let mut i: usize = 0;
            assert(data_views(out@) =~= want.take(0));
            while i < items.len()
                invariant
                    i <= items@.len(),
                    iv == atoms(items@),
                    want == atoms_data(iv),
                    data_views(out@) == want.take(i as int),
                    decreases_to!(atom => items),
                decreases items@.len() - i,
            {
                assert(iv.len() == items@.len());
                assert(iv[i as int] == items@[i as int]@);
                assert(decreases_to!(items@ => items@[i as int]));
                let ghost before = out@;
                let d = atom_to_py(&items[i]);
                out.push(d);
                assert(data_views(out@) =~= data_views(before).push(d@));
                assert(want[i as int] == atom_data(iv[i as int]));
                assert(want.take(i + 1) =~= want.take(i as int).push(want[i as int]));
                i += 1;
            }
            assert(want.take(items@.len() as int) =~= want);
            PyData::List(out)
        },
        Atom::Closure(_) => PyData::Text(atom.to_sexpr_string()),
        Atom::Gnd(g) => PyData::Object(g.key, g.text.clone()),
    }
}

/// What a call is made of.
pub enum PyPlan {
    /// A value to hand over.
    Data(PyData),
    /// A dotted name to look up, by its parts.
    Name(Vec<String>),
    /// The empty tuple.
    EmptyTuple,
    /// Code to evaluate.
    Code(String),
    /// A call: what is called, and the expressions whose values are handed
    /// over.
    Call(Box<PyPlan>, Vec<Expr>),
    /// Something else stands where code is expected.
    NoCode(Expr),
    /// An error.
    Fail(String),
}

/// The value of what a call is made of.
pub enum PyPlanV {
    /// A value to hand over.
    Data(PyDataV),
    /// A dotted name to look up.
    Name(Seq<Seq<char>>),
    /// The empty tuple.
    EmptyTuple,
    /// Code to evaluate.
    Code(Seq<char>),
    /// A call.
    Call(Box<PyPlanV>, Seq<ExprV>),
    /// Something else stands where code is expected.
    NoCode(ExprV),
    /// An error.
    Fail(Seq<char>),
}

/// The value of what a call is made of.
pub open spec fn plan_view(p: PyPlan) -> PyPlanV
    decreases p,
{
    match p {
        PyPlan::Data(d) => PyPlanV::Data(d@),
        PyPlan::Name(v) => PyPlanV::Name(texts(v@)),
        PyPlan::EmptyTuple => PyPlanV::EmptyTuple,
        PyPlan::Code(s) => PyPlanV::Code(s@),
        PyPlan::Call(f, args) => PyPlanV::Call(Box::new(plan_view(*f)), exprs(args@)),
        PyPlan::NoCode(x) => PyPlanV::NoCode(x@),
        PyPlan::Fail(m) => PyPlanV::Fail(m@),
    }
}

impl View for PyPlan {
    type V = PyPlanV;

    open spec fn view(&self) -> PyPlanV {
        plan_view(*self)
    }
}

/// The parts of a dotted name from a position on: the part that is read, and
/// the parts before it.
pub open spec fn parts_from(
    s: Seq<char>,
    pos: int,
    part: Seq<char>,
    before: Seq<Seq<char>>,
) -> Seq<Seq<char>>
    decreases s.len() - pos,
{
    if pos < 0 || pos >= s.len() {
        before.push(part)
    } else if s[pos] == '.' {
        parts_from(s, pos + 1, Seq::empty(), before.push(part))
    } else {
        parts_from(s, pos + 1, part.push(s[pos]), before)
    }
}

/// The parts of a dotted name.
pub open spec fn name_parts(s: Seq<char>) -> Seq<Seq<char>> {
    parts_from(s, 0, Seq::empty(), Seq::empty())
}

/// Split a dotted name.
pub fn split_name(s: &str) -> (r: Vec<String>)
    ensures
        texts(r@) == name_parts(s@),
{
    let v = chars_of(s);
    let n: usize = v.len();
    let mut out: Vec<String> = Vec::new();
    let mut from: usize = 0;
    let mut i: usize = 0;
    assert(texts(out@) =~= Seq::<Seq<char>>::empty());
    assert(v@.subrange(0, 0) =~= Seq::<char>::empty());
    while i < n
        invariant
            n == v@.len(),
            from <= i <= n,
            v@ == s@,
            parts_from(s@, i as int, v@.subrange(from as int, i as int), texts(out@))
                == name_parts(s@),
        decreases n - i,
    {
        if v[i] == '.' {
            let ghost before = out@;
            let part = text_between(&v, from, i);
            out.push(part);
            assert(texts(out@) =~= texts(before).push(part@));
            from = i + 1;
            assert(v@.subrange(i + 1, i + 1) =~= Seq::<char>::empty());
        } else {
            assert(v@.subrange(from as int, i + 1) =~= v@.subrange(from as int, i as int).push(
                v@[i as int],
            ));
        }
        i = i + 1;
    }
    let ghost before = out@;
    let part = text_between(&v, from, n);
    out.push(part);
    assert(texts(out@) =~= texts(before).push(part@));
    out
}

/// What an expression comes to in a call.
///
/// A variable stands for its value, a name for what it is bound to, and a list
/// for a call; `py-call` and `py-eval` may be nested.
pub open spec fn planned(x: ExprV, env: EnvV) -> PyPlanV
    decreases x, 0nat,
{
    match x {
        ExprV::Symbol(name) => if is_var_name(name) {
            match env_get(env, name) {
                Some(a) => PyPlanV::Data(atom_data(a)),
                None => PyPlanV::Fail("py-call: undefined variable '"@ + name + "'"@),
            }
        } else {
            PyPlanV::Name(name_parts(name))
        },
        ExprV::Str(s) => PyPlanV::Data(PyDataV::Text(s)),
        ExprV::Number(n) => PyPlanV::Data(number_data(n)),
        ExprV::List(items) => list_planned(items, 0, env),
    }
}

/// What a list comes to in a call, from one of its items on.
pub open spec fn list_planned(items: Seq<ExprV>, from: nat, env: EnvV) -> PyPlanV
    decreases items, items.len() - from,
{
    let n = items.len() - from;
    if n <= 0 {
        PyPlanV::EmptyTuple
    } else {
        let head = items[from as int];
        if head == ExprV::Symbol("py-call"@) {
            if n < 2 {
                PyPlanV::Fail("py-call: nested py-call needs an argument"@)
            } else if n == 2 {
                planned(items[from as int + 1], env)
            } else {
                list_planned(items, from + 1, env)
            }
        } else if head == ExprV::Symbol("py-eval"@) {
            if n < 2 {
                PyPlanV::Fail("py-call: nested py-eval needs an argument"@)
            } else {
                match items[from as int + 1] {
                    ExprV::Str(s) => PyPlanV::Code(s),
                    other => PyPlanV::NoCode(other),
                }
            }
        } else {
            let f = match head {
                ExprV::Str(name) => PyPlanV::Name(name_parts(name)),
                _ => planned(head, env),
            };
            match f {
                PyPlanV::Fail(m) => PyPlanV::Fail(m),
                PyPlanV::NoCode(y) => PyPlanV::NoCode(y),
                _ => PyPlanV::Call(Box::new(f), items.skip(from as int + 1)),
            }
        }
    }
}

/// Plan an expression in a call.
pub fn expr_to_py(x: &Expr, env: &Env) -> (r: PyPlan)
    ensures
        r@ == planned(x@, env@),
    decreases x, 0nat,
{
    broadcast use group_exprs;

    match x {
        Expr::Symbol(name) => {
            if is_var(name.as_str()) {
                match env.get(name.as_str()) {
                    Some(a) => PyPlan::Data(atom_to_py(&a)),
                    None => PyPlan::Fail(
                        joined3("py-call: undefined variable '", name.as_str(), "'"),
                    ),
                }
            } else {
                PyPlan::Name(split_name(name.as_str()))
            }
        },
        Expr::Str(s) => PyPlan::Data(PyData::Text(s.clone())),
        Expr::Number(n) => PyPlan::Data(number_to_py(n)),
        Expr::List(items) => {
            assert(decreases_to!(x => items));
            list_to_py(items, 0, env)
        },
    }
}

/// Plan a list in a call, from one of its items on.
fn list_to_py(items: &Vec<Expr>, from: usize, env: &Env) -> (r: PyPlan)
    requires
        from <= items@.len(),
    ensures
        r@ == list_planned(exprs(items@), from as nat, env@),
    decreases items, items@.len() - from,
{
    broadcast use group_exprs;

    let ghost iv = exprs(items@);
    assert(iv.len() == items@.len());
    let len: usize = items.len();
    let n: usize = len - from;
    if n == 0 {
        return PyPlan::EmptyTuple;
    }
    assert(iv[from as int] == items@[from as int]@);
    assert(decreases_to!(items@ => items@[from as int]));
    let is_call: bool = match &items[from] {
        Expr::Symbol(s) => same(s.as_str(), "py-call"),
        _ => false,
    };
    let is_eval: bool = match &items[from] {
        Expr::Symbol(s) => same(s.as_str(), "py-eval"),
        _ => false,
    };
    if is_call {
        if n < 2 {
            return PyPlan::Fail("py-call: nested py-call needs an argument".to_owned());
        }
        if n == 2 {
            assert(iv[from + 1] == items@[from + 1]@);
            assert(decreases_to!(items@ => items@[from + 1]));
            return expr_to_py(&items[from + 1], env);
        }
        return list_to_py(items, from + 1, env);
    }
    if is_eval {
        if n < 2 {
            return PyPlan::Fail("py-call: nested py-eval needs an argument".to_owned());
        }
        assert(iv[from + 1] == items@[from + 1]@);
        return match &items[from + 1] {
            Expr::Str(s) => PyPlan::Code(s.clone()),
            other => PyPlan::NoCode(other.clone()),
        };
    }
    let f: PyPlan = match &items[from] {
        Expr::Str(name) => PyPlan::Name(split_name(name.as_str())),
        head => expr_to_py(head, env),
    };
    match f {
        PyPlan::Fail(m) => PyPlan::Fail(m),
        PyPlan::NoCode(y) => PyPlan::NoCode(y),
        f => {
            let args = copy_exprs(items, from + 1);
            assert(exprs(args@) =~= iv.skip(from as int + 1));
            PyPlan::Call(Box::new(f), args)
        },
    }
}

/// The value that is handed over for an argument.
pub open spec fn argument(rs: Seq<AtomV>) -> AtomV {
    if rs.len() > 0 {
        rs[0]
    } else {
        symbol("()"@)
    }
}

/// Take the value that is handed over for an argument.
pub fn take_argument(values: &Vec<Atom>) -> (r: Atom)
    ensures
        r@ == argument(atoms(values@)),
{
    assert(atoms(values@).len() == values@.len());
    if values.len() > 0 {
        values[0].clone()
    } else {
        Atom::sym("()")
    }
}

/// Say that the evaluation of an argument failed.
pub fn refuse_argument(m: &str) -> (r: String)
    ensures
        r@ == "py-call: failed to evaluate arg: "@ + m@,
{
    joined("py-call: failed to evaluate arg: ", m)
}

} // verus!
