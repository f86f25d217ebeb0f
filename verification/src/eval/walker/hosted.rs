//! Forms of the tree-walking evaluator that the host carries out.
use crate::atom::Atom;
use crate::atom::AtomV;
use crate::atom::sexpr;
use crate::compile::reify::to_expr;
use crate::env::Env;
use crate::env::EnvV;
use crate::eval::machine::vm::outcome::HostCall;
use crate::eval::machine::vm::outcome::HostV;
use crate::eval::walker::OutV;
use crate::eval::walker::Stop;
use crate::eval::walker::StopV;
use crate::eval::walker::WalkV;
use crate::eval::walker::Walked;
use crate::eval::walker::Walker;
use crate::eval::walker::asked;
use crate::eval::walker::counted;
use crate::eval::walker::fail;
use crate::eval::walker::fail_counted;
use crate::eval::walker::failed;
use crate::eval::walker::first_or;
use crate::eval::walker::folds::as_code;
use crate::eval::walker::forms::arguments;
use crate::eval::walker::walked;
use crate::eval::walker::walked_value;
use crate::expr::Expr;
use crate::expr::ExprV;
use crate::expr::exprs;
use crate::expr::group_exprs;
use crate::expr::list2;
use crate::text::chars_of;
use crate::text::joined3;
use crate::text::joined;
use crate::text::same;
use crate::text::text_between;
use std::sync::Arc;
use vstd::prelude::*;
use vstd::string::*;

verus! {

/// A text without quotation marks in front.
pub open spec fn unquoted_front(s: Seq<char>) -> Seq<char>
    decreases s.len(),
{
    if s.len() > 0 && s[0] == '"' {
        unquoted_front(s.skip(1))
    } else {
        s
    }
}

/// A text without quotation marks behind.
pub open spec fn unquoted_back(s: Seq<char>) -> Seq<char>
    decreases s.len(),
{
    if s.len() > 0 && s.last() == '"' {
        unquoted_back(s.drop_last())
    } else {
        s
    }
}

/// A text without the quotation marks around it.
pub open spec fn unquoted(s: Seq<char>) -> Seq<char> {
    unquoted_back(unquoted_front(s))
}

/// Strip the quotation marks around a text.
fn strip_quotes(s: &str) -> (r: String)
    ensures
        r@ == unquoted(s@),
{
    let v = chars_of(s);
    let mut from: usize = 0;
    assert(s@.skip(0) =~= s@);
    while from < v.len() && v[from] == '"'
        invariant
            from <= v@.len(),
            v@ == s@,
            unquoted_front(s@.skip(from as int)) == unquoted_front(s@),
        decreases v@.len() - from,
    {
        assert(s@.skip(from as int).skip(1) =~= s@.skip(from + 1));
        from += 1;
    }
    let ghost front = s@.skip(from as int);
    assert(unquoted_front(s@) == front);
    let mut to: usize = v.len();
    assert(s@.subrange(from as int, to as int) =~= front);
    while to > from && v[to - 1] == '"'
        invariant
            from <= to <= v@.len(),
            v@ == s@,
            unquoted_back(s@.subrange(from as int, to as int)) == unquoted_back(front),
        decreases to - from,
    {
        assert(s@.subrange(from as int, to as int).last() == '"');
        assert(s@.subrange(from as int, to as int).drop_last() =~= s@.subrange(
            from as int,
            to - 1,
        ));
        to -= 1;
    }
    assert(to > from ==> s@.subrange(from as int, to as int).last() == s@[to - 1]);
    text_between(&v, from, to)
}

/// The name that an expression gives for a part of a Python call.
pub open spec fn python_name(
    what: Seq<char>,
    x: ExprV,
    env: EnvV,
    s: WalkV,
    f: nat,
) -> (Result<Seq<char>, StopV>, WalkV)
    decreases f, 1nat, 0nat, 0nat,
{
    let (r, s2) = first_or(
        walked(x, env, s, f),
        "py-call: "@ + what + " expression produced no results"@,
    );
    match r {
        Err(e) => (Err(e), s2),
        Ok(AtomV::Sym(n)) => (Ok(unquoted(n)), s2),
        Ok(AtomV::Str(n)) => (Ok(unquoted(n)), s2),
        Ok(a) => (
            Err(StopV::Error("py-call: "@ + what + " must be a symbol, got "@ + sexpr(a))),
            s2,
        ),
    }
}

/// A value as an expression that stands for it.
pub open spec fn quoted_value(a: AtomV) -> ExprV {
    ExprV::List(seq![ExprV::Symbol("quote"@), to_expr(a)])
}

/// The values of the arguments of a Python call from a position on, behind those
/// before.
pub open spec fn python_args(
    items: Seq<ExprV>,
    i: nat,
    before: Seq<ExprV>,
    env: EnvV,
    s: WalkV,
    f: nat,
) -> (Result<Seq<ExprV>, StopV>, WalkV)
    decreases f, 1nat, 0nat, items.len() - i,
{
    if i >= items.len() {
        (Ok(before), s)
    } else {
        let (r, s2) = first_or(
            walked(items[i as int], env, s, f),
            "py-call: argument expression produced no results"@,
        );
        match r {
            Err(e) => (Err(e), s2),
            Ok(a) => python_args(items, i + 1, before.push(quoted_value(a)), env, s2, f),
        }
    }
}

/// The call of a function of a Python module that the host makes.
pub open spec fn python_call(module: Seq<char>, name: Seq<char>, args: Seq<ExprV>) -> ExprV {
    ExprV::List(seq![ExprV::Symbol(module + "."@ + name)] + args)
}

/// The values of `(py-call module func args...)`.
pub open spec fn python_walked(items: Seq<ExprV>, env: EnvV, s: WalkV, f: nat) -> OutV
    decreases f, 8nat, 0nat, 0nat,
{
    let n = arguments(items);
    if n < 2 {
        failed(s, counted("py-call: expected at least (module func), got "@, n, " args"@))
    } else {
        let (m, s2) = python_name("module"@, items[1], env, s, f);
        match m {
            Err(e) => (Err(e), s2),
            Ok(module) => {
                let (p, s3) = python_name("function"@, items[2], env, s2, f);
                match p {
                    Err(e) => (Err(e), s3),
                    Ok(name) => {
                        let (a, s4) = python_args(items, 3, Seq::empty(), env, s3, f);
                        match a {
                            Err(e) => (Err(e), s4),
                            Ok(args) => asked(
                                HostV::PyCall(python_call(module, name, args), env),
                                s4,
                            ),
                        }
                    },
                }
            },
        }
    }
}

/// The values of `(import-rs! name)`.
pub open spec fn plugin_walked(items: Seq<ExprV>, env: EnvV, s: WalkV) -> OutV {
    let n = arguments(items);
    if n != 1 {
        failed(s, counted("import-rs!: expected 1 arg (library name), got "@, n, ""@))
    } else {
        match items[1] {
            ExprV::Symbol(name) => if name.len() == 0 {
                failed(s, "import-rs!: library name cannot be empty"@)
            } else {
                asked(HostV::Plugin(items[1], env), s)
            },
            _ => failed(s, "import-rs!: argument must be a symbol (library name)"@),
        }
    }
}

/// The value of a text, or of why evaluation stops.
pub open spec fn text_walked(r: Result<String, Stop>) -> Result<Seq<char>, StopV> {
    match r {
        Ok(t) => Ok(t@),
        Err(e) => Err(e@),
    }
}

/// The value of expressions, or of why evaluation stops.
pub open spec fn exprs_walked(r: Result<Vec<Expr>, Stop>) -> Result<Seq<ExprV>, StopV> {
    match r {
        Ok(v) => Ok(exprs(v@)),
        Err(e) => Err(e@),
    }
}

impl Walker {
    /// Evaluate an expression for the name of a part of a Python call.
    fn eval_python_name(&mut self, what: &str, x: &Expr, env: &Env, f: u64) -> (r: Result<
        String,
        Stop,
    >)
        ensures
            (text_walked(r), final(self)@) == python_name(
                what@,
                x@,
                env@,
                old(self)@,
                f as nat,
            ),
        decreases f, 2nat, 0nat, 0nat,
    {
        let m = joined3("py-call: ", what, " expression produced no results");
        match self.eval_first(x, env, f, m.as_str()) {
            Err(e) => Err(e),
            Ok(Atom::Sym(n)) => Ok(strip_quotes(n.as_str())),
            Ok(Atom::Str(n)) => Ok(strip_quotes(n.as_str())),
            Ok(a) => {
                let front = joined3("py-call: ", what, " must be a symbol, got ");
                let t = a.to_sexpr_string();
                Err(Stop::Error(joined(front.as_str(), t.as_str())))
            },
        }
    }

    /// Evaluate the arguments of a Python call.
    fn eval_python_args(&mut self, items: &Vec<Expr>, env: &Env, f: u64) -> (r: Result<
        Vec<Expr>,
        Stop,
    >)
        requires
            items@.len() >= 3,
        ensures
            (exprs_walked(r), final(self)@) == python_args(
                exprs(items@),
                3,
                Seq::empty(),
                env@,
                old(self)@,
                f as nat,
            ),
        decreases f, 2nat, 0nat, items@.len(),
    {
        broadcast use group_exprs;

        let ghost xs = exprs(items@);
        let ghost want = python_args(xs, 3, Seq::empty(), env@, self@, f as nat);
        let mut out: Vec<Expr> = Vec::new();
        let mut i: usize = 3;
        assert(xs.len() == items@.len());
        assert(exprs(out@) =~= Seq::<ExprV>::empty());
        while i < items.len()
            invariant
                3 <= i <= items@.len(),
                xs == exprs(items@),
                xs.len() == items@.len(),
                want == python_args(xs, 3, Seq::empty(), env@, old(self)@, f as nat),
                want == python_args(xs, i as nat, exprs(out@), env@, self@, f as nat),
            decreases items@.len() - i,
        {
            assert(xs[i as int] == items@[i as int]@);
            match self.eval_first(
                &items[i],
                env,
                f,
                "py-call: argument expression produced no results",
            ) {
                Err(e) => {
                    return Err(e);
                },
                Ok(a) => {
                    let ghost before = out@;
                    let x = list2(Expr::Symbol("quote".to_owned()), as_code(&a));
                    out.push(x);
                    assert(exprs(out@) =~= exprs(before).push(x@));
                },
            }
            i += 1;
        }
        Ok(out)
    }

    /// Evaluate `(py-call module func args...)`: the host makes the call.
    pub fn eval_py_call(&mut self, items: &Vec<Expr>, env: &Env, f: u64) -> (r: Walked)
        requires
            items@.len() > 0,
        ensures
            (walked_value(r), final(self)@) == python_walked(
                exprs(items@),
                env@,
                old(self)@,
                f as nat,
            ),
        decreases f, 8nat, 0nat, 0nat,
    {
        broadcast use group_exprs;

        let ghost xs = exprs(items@);
        assert(xs.len() == items@.len());
        let n: usize = items.len() - 1;
        if n < 2 {
            return fail_counted("py-call: expected at least (module func), got ", n, " args");
        }
        assert(xs[1] == items@[1]@ && xs[2] == items@[2]@);
        let module = match self.eval_python_name("module", &items[1], env, f) {
            Err(e) => {
                return Err(e);
            },
            Ok(t) => t,
        };
        let name = match self.eval_python_name("function", &items[2], env, f) {
            Err(e) => {
                return Err(e);
            },
            Ok(t) => t,
        };
        let mut args = match self.eval_python_args(items, env, f) {
            Err(e) => {
                return Err(e);
            },
            Ok(v) => v,
        };
        let ghost av = args@;
        let head = Expr::Symbol(joined3(module.as_str(), ".", name.as_str()));
        let mut all: Vec<Expr> = Vec::new();
        all.push(head);
        all.append(&mut args);
        assert(exprs(all@) =~= seq![head@] + exprs(av));
        self.ask(HostCall::PyCall(Expr::List(Arc::new(all)), env.clone()))
    }

    /// Evaluate `(import-rs! name)`: the host loads the plugin.
    pub fn eval_import_rs(&mut self, items: &Vec<Expr>, env: &Env) -> (r: Walked)
        requires
            items@.len() > 0,
        ensures
            (walked_value(r), final(self)@) == plugin_walked(exprs(items@), env@, old(self)@),
    {
        broadcast use group_exprs;

        let ghost xs = exprs(items@);
        assert(xs.len() == items@.len());
        let n: usize = items.len() - 1;
        if n != 1 {
            return fail_counted("import-rs!: expected 1 arg (library name), got ", n, "");
        }
        assert(xs[1] == items@[1]@);
        match &items[1] {
            Expr::Symbol(name) => {
                proof {
                    reveal_strlit("");
                }
                if same(name.as_str(), "") {
                    return fail("import-rs!: library name cannot be empty");
                }
                assert(name@.len() != 0) by {
                    assert(name@.len() == 0 ==> name@ =~= ""@);
                }
                self.ask(HostCall::Plugin(items[1].clone(), env.clone()))
            },
            _ => fail("import-rs!: argument must be a symbol (library name)"),
        }
    }
}

} // verus!
