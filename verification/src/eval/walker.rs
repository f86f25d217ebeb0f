//! Tree-walking evaluation.
//!
//! An expression is evaluated by walking over it: its parts are evaluated in
//! turn, and their values are combined. Evaluation is bounded in depth. What
//! only a host can do is answered from a list; evaluation stops where the list
//! ends and says what is needed next, so that it can be repeated with one more
//! answer.
pub mod calls;
pub mod constrain;
pub mod folds;
pub mod forms;
pub mod generate;
pub mod hosted;
pub mod lists;
pub mod matching;
pub mod queries;
pub mod stable;
use crate::atom::Atom;
use crate::atom::AtomV;
use crate::atom::atoms;
use crate::atom::copy_atoms;
use crate::atom::symbol;
use crate::env::Env;
use crate::env::EnvV;
use crate::env::env_get;
use crate::eval::machine::vm::outcome::HostCall;
use crate::eval::machine::vm::outcome::HostV;
use crate::eval::walker::lists::list_walked;
use crate::expr::Expr;
use crate::expr::ExprV;
use crate::func::FnTable;
use crate::func::TableV;
use crate::text::is_var;
use crate::text::is_var_name;
use crate::text::joined3;
use crate::text::nat_digits;
use crate::text::texts;
use crate::text::usize_text;
use vstd::prelude::*;
use vstd::string::*;

verus! {

/// An answer of the host: values, or an error.
pub enum HostAnswer {
    /// Values.
    Values(Vec<Atom>),
    /// An error.
    Error(String),
}

/// The value of an answer of the host.
pub enum HostAnswerV {
    /// Values.
    Values(Seq<AtomV>),
    /// An error.
    Error(Seq<char>),
}

impl View for HostAnswer {
    type V = HostAnswerV;

    open spec fn view(&self) -> HostAnswerV {
        match self {
            HostAnswer::Values(vs) => HostAnswerV::Values(atoms(vs@)),
            HostAnswer::Error(m) => HostAnswerV::Error(m@),
        }
    }
}

/// The values of answers of the host.
pub open spec fn answer_values(s: Seq<HostAnswer>) -> Seq<HostAnswerV> {
    Seq::new(s.len(), |i: int| s[i]@)
}

/// Why evaluation stops.
pub enum Stop {
    /// An error.
    Error(String),
    /// The host does something first.
    Host(HostCall),
    /// Evaluation goes too deep.
    Deep,
}

/// The value of why evaluation stops.
pub enum StopV {
    /// An error.
    Error(Seq<char>),
    /// The host does something first.
    Host(HostV),
    /// Evaluation goes too deep.
    Deep,
}

impl View for Stop {
    type V = StopV;

    open spec fn view(&self) -> StopV {
        match self {
            Stop::Error(m) => StopV::Error(m@),
            Stop::Host(h) => StopV::Host(h@),
            Stop::Deep => StopV::Deep,
        }
    }
}

/// The state of evaluation.
pub struct Walker {
    /// The functions and spaces.
    pub table: FnTable,
    /// The answers of the host.
    pub answers: Vec<HostAnswer>,
    /// The position of the next answer.
    pub next: usize,
    /// The lines that are printed.
    pub lines: Vec<String>,
}

/// The value of the state of evaluation.
#[verifier::ext_equal]
pub struct WalkV {
    /// The functions and spaces.
    pub t: TableV,
    /// The answers of the host.
    pub answers: Seq<HostAnswerV>,
    /// The position of the next answer.
    pub next: nat,
    /// The lines that are printed.
    pub lines: Seq<Seq<char>>,
}

impl View for Walker {
    type V = WalkV;

    open spec fn view(&self) -> WalkV {
        WalkV {
            t: self.table@,
            answers: answer_values(self.answers@),
            next: self.next as nat,
            lines: texts(self.lines@),
        }
    }
}

/// Values, or why evaluation stops.
pub type Walked = Result<Vec<Atom>, Stop>;

/// The value of values, or of why evaluation stops.
pub open spec fn walked_value(r: Walked) -> Result<Seq<AtomV>, StopV> {
    match r {
        Ok(v) => Ok(atoms(v@)),
        Err(e) => Err(e@),
    }
}

/// Values, or why evaluation stops, and the state that is left.
pub type OutV = (Result<Seq<AtomV>, StopV>, WalkV);

/// One value, or why evaluation stops, and the state that is left.
pub type OneV = (Result<AtomV, StopV>, WalkV);

/// The value of one value, or of why evaluation stops.
pub open spec fn one_walked(r: Result<Atom, Stop>) -> Result<AtomV, StopV> {
    match r {
        Ok(a) => Ok(a@),
        Err(e) => Err(e@),
    }
}

/// Evaluation fails.
pub open spec fn failed(s: WalkV, m: Seq<char>) -> OutV {
    (Err(StopV::Error(m)), s)
}

/// Evaluation gives values.
pub open spec fn gives(s: WalkV, vs: Seq<AtomV>) -> OutV {
    (Ok(vs), s)
}

/// Evaluation gives one value.
pub open spec fn gives_one(s: WalkV, a: AtomV) -> OutV {
    (Ok(seq![a]), s)
}

/// The first value, with a complaint when there is none.
pub open spec fn first_or(out: OutV, m: Seq<char>) -> OneV {
    match out.0 {
        Err(e) => (Err(e), out.1),
        Ok(vs) => if vs.len() > 0 {
            (Ok(vs[0]), out.1)
        } else {
            (Err(StopV::Error(m)), out.1)
        },
    }
}

/// Fail.
pub fn fail(m: &str) -> (r: Walked)
    ensures
        walked_value(r) == Err::<Seq<AtomV>, StopV>(StopV::Error(m@)),
{
    Err(Stop::Error(m.to_owned()))
}

/// Give one value.
pub fn give_one(a: Atom) -> (r: Walked)
    ensures
        walked_value(r) == Ok::<Seq<AtomV>, StopV>(seq![a@]),
{
    let mut v: Vec<Atom> = Vec::new();
    v.push(a);
    assert(atoms(v@) =~= seq![a@]);
    Ok(v)
}

/// Give no value.
pub fn give_none() -> (r: Walked)
    ensures
        walked_value(r) == Ok::<Seq<AtomV>, StopV>(Seq::empty()),
{
    let v: Vec<Atom> = Vec::new();
    assert(atoms(v@) =~= Seq::<AtomV>::empty());
    Ok(v)
}

/// Take the first value, with a complaint when there is none.
pub fn take_first_or(r: Walked, m: &str) -> (a: Result<Atom, Stop>)
    ensures
        forall|s: WalkV|
            (one_walked(a), s) == #[trigger] first_or((walked_value(r), s), m@),
{
    match r {
        Err(e) => Err(e),
        Ok(v) => {
            assert(atoms(v@).len() == v@.len());
            if v.len() > 0 {
                Ok(v[0].clone())
            } else {
                Err(Stop::Error(m.to_owned()))
            }
        },
    }
}

/// A complaint with a number in it.
pub open spec fn counted(front: Seq<char>, n: nat, end: Seq<char>) -> Seq<char> {
    front + nat_digits(n) + end
}

/// Complain with a number.
pub fn fail_counted(front: &str, n: usize, end: &str) -> (r: Walked)
    ensures
        walked_value(r) == Err::<Seq<AtomV>, StopV>(StopV::Error(counted(front@, n as nat, end@))),
{
    let d = usize_text(n);
    Err(Stop::Error(joined3(front, d.as_str(), end)))
}

/// Put values behind others.
pub fn join_atoms(a: Vec<Atom>, b: Vec<Atom>) -> (r: Vec<Atom>)
    ensures
        atoms(r@) == atoms(a@) + atoms(b@),
{
    let ghost x = a@;
    let ghost y = b@;
    let mut a = a;
    let mut b = b;
    a.append(&mut b);
    assert(atoms(a@) =~= atoms(x) + atoms(y));
    a
}

/// What the host answers, or what is needed from it.
pub open spec fn asked(h: HostV, s: WalkV) -> OutV {
    if s.next < s.answers.len() {
        let s2 = WalkV { next: s.next + 1, ..s };
        match s.answers[s.next as int] {
            HostAnswerV::Values(vs) => gives(s2, vs),
            HostAnswerV::Error(m) => failed(s2, m),
        }
    } else {
        (Err(StopV::Host(h)), s)
    }
}

/// The state with a line.
pub open spec fn with_line(s: WalkV, line: Seq<char>) -> WalkV {
    WalkV { lines: s.lines.push(line), ..s }
}

/// The state with another table.
pub open spec fn with_table(s: WalkV, t: TableV) -> WalkV {
    WalkV { t, ..s }
}

impl Walker {
    /// A state of evaluation with answers of the host.
    pub fn new(table: FnTable, answers: Vec<HostAnswer>) -> (r: Walker)
        ensures
            r@ == (WalkV {
                t: table@,
                answers: answer_values(answers@),
                next: 0,
                lines: Seq::empty(),
            }),
    {
        let r = Walker { table, answers, next: 0, lines: Vec::new() };
        assert(texts(r.lines@) =~= Seq::<Seq<char>>::empty());
        r
    }

    /// Ask the host.
    pub fn ask(&mut self, h: HostCall) -> (r: Walked)
        ensures
            (walked_value(r), final(self)@) == asked(h@, old(self)@),
    {
        let n: usize = self.answers.len();
        assert(self@.answers.len() == n);
        if self.next < n {
            let i: usize = self.next;
            assert(self@.answers[i as int] == self.answers@[i as int]@);
            self.next = i + 1;
            match &self.answers[i] {
                HostAnswer::Values(vs) => {
                    let v = copy_atoms(vs, 0);
                    assert(vs@.skip(0) =~= vs@);
                    Ok(v)
                },
                HostAnswer::Error(m) => Err(Stop::Error(m.clone())),
            }
        } else {
            Err(Stop::Host(h))
        }
    }

    /// Print a line.
    pub fn say(&mut self, line: String)
        ensures
            final(self)@ == with_line(old(self)@, line@),
    {
        let ghost s = self@;
        let ghost l = self.lines@;
        self.lines.push(line);
        assert(texts(self.lines@) =~= texts(l).push(line@));
        assert(self@ =~= with_line(s, line@));
    }
}

/// The values of an expression in an environment: evaluation stops below a
/// depth.
///
/// Numbers, strings and plain names stand for themselves, variables for their
/// values, and lists for forms, calls or data.
pub open spec fn walked(x: ExprV, env: EnvV, s: WalkV, fuel: nat) -> OutV
    decreases fuel, 0nat, 0nat, 0nat,
{
    if fuel == 0 {
        (Err(StopV::Deep), s)
    } else {
        match x {
            ExprV::Number(n) => gives_one(s, AtomV::Num(n)),
            ExprV::Str(t) => gives_one(s, AtomV::Str(t)),
            ExprV::Symbol(name) => gives_one(s, named_value(name, env)),
            ExprV::List(items) => list_walked(items, env, s, (fuel - 1) as nat),
        }
    }
}

/// The value of a name: that of a bound variable, or the name itself.
pub open spec fn named_value(name: Seq<char>, env: EnvV) -> AtomV {
    if is_var_name(name) && env_get(env, name) is Some {
        env_get(env, name)->Some_0
    } else {
        symbol(name)
    }
}

/// Find the value of a name.
pub fn value_of_name(name: &str, env: &Env) -> (r: Atom)
    ensures
        r@ == named_value(name@, env@),
{
    if is_var(name) {
        match env.get(name) {
            Some(a) => a,
            None => Atom::sym(name),
        }
    } else {
        Atom::sym(name)
    }
}

impl Walker {
    /// Evaluate an expression, returning its (possibly no) values.
    pub fn eval(&mut self, x: &Expr, env: &Env, fuel: u64) -> (r: Walked)
        ensures
            (walked_value(r), final(self)@) == walked(x@, env@, old(self)@, fuel as nat),
        decreases fuel, 0nat, 0nat, 0nat,
    {
        if fuel == 0 {
            return Err(Stop::Deep);
        }
        match x {
            Expr::Number(n) => give_one(Atom::Num(n.clone())),
            Expr::Str(t) => give_one(Atom::Str(t.clone())),
            Expr::Symbol(name) => give_one(value_of_name(name.as_str(), env)),
            Expr::List(items) => self.eval_list(items, env, fuel - 1),
        }
    }

    /// Evaluate an expression to its first value, with a complaint when there
    /// is none.
    pub fn eval_first(&mut self, x: &Expr, env: &Env, fuel: u64, m: &str) -> (r: Result<Atom, Stop>)
        ensures
            (one_walked(r), final(self)@) == first_or(
                walked(x@, env@, old(self)@, fuel as nat),
                m@,
            ),
        decreases fuel, 1nat, 0nat, 0nat,
    {
        let v = self.eval(x, env, fuel);
        let ghost s = self@;
        let a = take_first_or(v, m);
        assert((one_walked(a), s) == first_or((walked_value(v), s), m@));
        a
    }
}

} // verus!
