//! Syntax dispatch for machine evaluation.
use crate::atom::Atom;
use crate::atom::AtomV;
use crate::atom::ClosureData;
use crate::atom::atoms;
use crate::atom::symbol;
use crate::compile::reify::atom_to_expr;
use crate::compile::reify::to_expr;
use crate::env::Env;
use crate::env::EnvV;
use crate::env::env_get;
use crate::eval::forms::control::let_star_binding;
use crate::eval::forms::control::let_star_bindings;
use crate::eval::forms::control::star_binding;
use crate::eval::forms::control::star_bindings;
use crate::eval::forms::query::lookup_user_clauses;
use crate::eval::machine::budget::ResultSet;
use crate::eval::machine::budget::ResultV;
use crate::eval::machine::budget::plain_results;
use crate::eval::machine::budget::results;
use crate::eval::machine::budget::single;
use crate::eval::machine::frame::ContV;
use crate::eval::machine::frame::Frame;
use crate::eval::machine::frame::slot_values;
use crate::eval::machine::task::Head;
use crate::eval::machine::task::HeadV;
use crate::eval::machine::task::Task;
use crate::eval::machine::task::TaskV;
use crate::eval::machine::task::lemma_tasks_push;
use crate::eval::machine::task::tasks;
use crate::eval::machine::transition::Transition;
use crate::eval::machine::transition::TransitionV;
use crate::eval::machine::vm::outcome::HostCall;
use crate::eval::machine::vm::outcome::HostV;
use crate::eval::shared::closure::lazy_mask;
use crate::eval::shared::closure::lazy_user_arg_mask;
use crate::eval::shared::env::lookup;
use crate::eval::shared::subst::atomized;
use crate::eval::shared::subst::subst_and_atomize;
use crate::expr::Expr;
use crate::expr::ExprV;
use crate::expr::copy_exprs;
use crate::expr::expr_text;
use crate::expr::exprs;
use crate::expr::group_exprs;
use crate::func::Clause;
use crate::func::ClauseV;
use crate::func::FnTable;
use crate::func::TableV;
use crate::func::clauses;
use crate::text::is_var;
use crate::text::is_var_name;
use crate::text::joined;
use crate::text::joined3;
use crate::text::nat_digits;
use crate::text::same;
use crate::text::usize_text;
use std::sync::Arc;
use vstd::prelude::*;
use vstd::string::*;

verus! {

/// What evaluating an expression comes to.
pub enum Plan {
    /// A direct result.
    Value(ResultSet),
    /// Work to do; the last task comes first.
    Tasks(Vec<Task>),
    /// Giving up other alternatives.
    Cut,
    /// The host computes the values.
    Host(HostCall),
    /// An error.
    Fail(String),
}

/// The value of what evaluating an expression comes to.
pub enum PlanV {
    /// A direct result.
    Value(ResultV),
    /// Work to do.
    Tasks(Seq<TaskV>),
    /// Giving up other alternatives.
    Cut,
    /// The host computes the values.
    Host(HostV),
    /// An error.
    Fail(Seq<char>),
}

impl View for Plan {
    type V = PlanV;

    open spec fn view(&self) -> PlanV {
        match self {
            Plan::Value(rs) => PlanV::Value(results(rs@)),
            Plan::Tasks(v) => PlanV::Tasks(tasks(v@)),
            Plan::Cut => PlanV::Cut,
            Plan::Host(h) => PlanV::Host(h@),
            Plan::Fail(m) => PlanV::Fail(m@),
        }
    }
}

/// The core forms of the language.
#[derive(Clone, Copy, PartialEq, Eq, Structural)]
pub enum Core {
    /// Give up other alternatives.
    Cut,
    /// Data.
    Quote,
    /// Evaluate an argument.
    Reduce,
    /// Evaluate the value of a variable.
    Eval,
    /// An anonymous function.
    Lambda,
    /// No value.
    Empty,
    /// Load a program file.
    Import,
    /// Load a plugin.
    ImportRs,
    /// Print.
    Println,
    /// Read a line.
    Readln,
    /// Fold the values of a generator.
    Foldall,
    /// Check all values of a generator.
    Forall,
    /// Fold a list.
    Foldl,
    /// A conditional.
    If,
    /// Branches by shape.
    Case,
    /// Put all values into a list headed by `within`.
    Within,
    /// Put all values into a list.
    Collapse,
    /// Keep the first value.
    Once,
    /// Values from a list.
    Superpose,
    /// Bind the variables of a pattern.
    Let,
    /// Bind the variables of patterns in sequence.
    LetStar,
    /// Bind variables in sequence.
    Chain,
    /// Evaluate in sequence, keep the last result.
    Progn,
    /// Evaluate in sequence, keep the first result.
    Prog1,
    /// Search a space.
    Match,
    /// Rewrite matches.
    Transform,
    /// Hold a mutex.
    WithMutex,
    /// Undo on failure.
    Transaction,
    /// Add an atom.
    AddAtom,
    /// Remove an atom.
    RemoveAtom,
    /// No core form.
    Other,
}

/// The core form that a head names.
pub open spec fn core_of(s: Seq<char>) -> Core {
    if s == "cut"@ {
        Core::Cut
    } else if s == "quote"@ {
        Core::Quote
    } else if s == "call"@ || s == "reduce"@ {
        Core::Reduce
    } else if s == "eval"@ {
        Core::Eval
    } else if s == "|->"@ {
        Core::Lambda
    } else if s == "empty"@ {
        Core::Empty
    } else if s == "import!"@ {
        Core::Import
    } else if s == "import-rs!"@ {
        Core::ImportRs
    } else if s == "println!"@ {
        Core::Println
    } else if s == "readln!"@ {
        Core::Readln
    } else if s == "foldall"@ {
        Core::Foldall
    } else if s == "forall"@ {
        Core::Forall
    } else if s == "foldl-atom"@ {
        Core::Foldl
    } else if s == "if"@ {
        Core::If
    } else if s == "case"@ {
        Core::Case
    } else if s == "within"@ {
        Core::Within
    } else if s == "collapse"@ {
        Core::Collapse
    } else if s == "once"@ {
        Core::Once
    } else if s == "superpose"@ {
        Core::Superpose
    } else if s == "let"@ {
        Core::Let
    } else if s == "let*"@ {
        Core::LetStar
    } else if s == "chain"@ {
        Core::Chain
    } else if s == "progn"@ {
        Core::Progn
    } else if s == "prog1"@ {
        Core::Prog1
    } else if s == "match"@ {
        Core::Match
    } else if s == "transform"@ {
        Core::Transform
    } else if s == "with_mutex"@ {
        Core::WithMutex
    } else if s == "transaction"@ {
        Core::Transaction
    } else if s == "add-atom"@ {
        Core::AddAtom
    } else if s == "remove-atom"@ {
        Core::RemoveAtom
    } else {
        Core::Other
    }
}

/// Find the core form that a head names.
fn find_core(s: &str) -> (r: Core)
    ensures
        r == core_of(s@),
{
    if same(s, "cut") {
        Core::Cut
    } else if same(s, "quote") {
        Core::Quote
    } else if same(s, "call") || same(s, "reduce") {
        Core::Reduce
    } else if same(s, "eval") {
        Core::Eval
    } else if same(s, "|->") {
        Core::Lambda
    } else if same(s, "empty") {
        Core::Empty
    } else if same(s, "import!") {
        Core::Import
    } else if same(s, "import-rs!") {
        Core::ImportRs
    } else if same(s, "println!") {
        Core::Println
    } else if same(s, "readln!") {
        Core::Readln
    } else if same(s, "foldall") {
        Core::Foldall
    } else if same(s, "forall") {
        Core::Forall
    } else if same(s, "foldl-atom") {
        Core::Foldl
    } else if same(s, "if") {
        Core::If
    } else if same(s, "case") {
        Core::Case
    } else if same(s, "within") {
        Core::Within
    } else if same(s, "collapse") {
        Core::Collapse
    } else if same(s, "once") {
        Core::Once
    } else if same(s, "superpose") {
        Core::Superpose
    } else if same(s, "let") {
        Core::Let
    } else if same(s, "let*") {
        Core::LetStar
    } else if same(s, "chain") {
        Core::Chain
    } else if same(s, "progn") {
        Core::Progn
    } else if same(s, "prog1") {
        Core::Prog1
    } else if same(s, "match") {
        Core::Match
    } else if same(s, "transform") {
        Core::Transform
    } else if same(s, "with_mutex") {
        Core::WithMutex
    } else if same(s, "transaction") {
        Core::Transaction
    } else if same(s, "add-atom") {
        Core::AddAtom
    } else if same(s, "remove-atom") {
        Core::RemoveAtom
    } else {
        Core::Other
    }
}

/// The complaint about a number of arguments.
pub open spec fn miscounted(front: Seq<char>, n: nat, end: Seq<char>) -> PlanV {
    PlanV::Fail(front + nat_digits(n) + end)
}

/// Complain about a number of arguments.
fn miscount(front: &str, n: usize, end: &str) -> (r: Plan)
    ensures
        r@ == miscounted(front@, n as nat, end@),
{
    let d = usize_text(n);
    Plan::Fail(joined3(front, d.as_str(), end))
}

/// One value.
pub open spec fn one_value(a: AtomV) -> PlanV {
    PlanV::Value(plain_results(seq![a]))
}

/// No value.
pub open spec fn no_value() -> PlanV {
    PlanV::Value(Seq::empty())
}

/// Plan no value.
pub fn plan_nothing() -> (r: Plan)
    ensures
        r@ == no_value(),
{
    let rs: ResultSet = Vec::new();
    assert(results(rs@) =~= ResultV::empty());
    Plan::Value(rs)
}

/// The tasks that evaluate expressions in their order.
pub open spec fn evals(xs: Seq<ExprV>, env: EnvV) -> Seq<TaskV> {
    Seq::new(xs.len(), |i: int| TaskV::Eval(xs[xs.len() - 1 - i], env))
}

/// Add the tasks that evaluate expressions in their order.
pub fn push_evals(work: &mut Vec<Task>, items: &Vec<Expr>, from: usize, env: &Env)
    requires
        from <= items@.len(),
    ensures
        tasks(final(work)@) == tasks(old(work)@) + evals(exprs(items@).skip(from as int), env@),
{
    broadcast use {group_exprs, lemma_tasks_push};

    let ghost xs = exprs(items@).skip(from as int);
    let ghost want = evals(xs, env@);
    let ghost before = tasks(work@);
    let mut k: usize = items.len();
    assert(xs.len() == items@.len() - from);
    assert(before + want.take(0) =~= before);
    while k > from
        invariant
            from <= k <= items@.len(),
            xs == exprs(items@).skip(from as int),
            xs.len() == items@.len() - from,
            want == evals(xs, env@),
            tasks(work@) == before + want.take(items@.len() - k),
        decreases k,
    {
        k = k - 1;
        let ghost i = items@.len() - k - 1;
        assert(want[i] == TaskV::Eval(items@[k as int]@, env@));
        work.push(Task::Eval(items[k].clone(), env.clone()));
        assert(before + want.take(i + 1) =~= (before + want.take(i)).push(want[i]));
    }
    assert(want.take(xs.len() as int) =~= want);
}

/// A frame that waits for one expression.
pub open spec fn then_frame(f: ContV, x: ExprV, env: EnvV) -> PlanV {
    PlanV::Tasks(seq![TaskV::Apply(f), TaskV::Eval(x, env)])
}

/// Let a frame wait for one expression.
fn plan_frame(f: Frame, x: &Expr, env: &Env) -> (r: Plan)
    ensures
        r@ == then_frame(f@, x@, env@),
{
    let mut v: Vec<Task> = Vec::new();
    v.push(Task::Apply(f));
    v.push(Task::Eval(x.clone(), env.clone()));
    assert(tasks(v@) =~= seq![TaskV::Apply(f@), TaskV::Eval(x@, env@)]);
    Plan::Tasks(v)
}

/// A frame that waits for expressions in their order.
pub open spec fn over_frame(f: ContV, xs: Seq<ExprV>, env: EnvV) -> PlanV {
    PlanV::Tasks(seq![TaskV::Apply(f)] + evals(xs, env))
}

/// Let a frame wait for expressions in their order.
fn plan_over(f: Frame, items: &Vec<Expr>, from: usize, env: &Env) -> (r: Plan)
    requires
        from <= items@.len(),
    ensures
        r@ == over_frame(f@, exprs(items@).skip(from as int), env@),
{
    let mut v: Vec<Task> = Vec::new();
    v.push(Task::Apply(f));
    assert(tasks(v@) =~= seq![TaskV::Apply(f@)]);
    push_evals(&mut v, items, from, env);
    Plan::Tasks(v)
}

/// One task.
pub open spec fn one_task(t: TaskV) -> PlanV {
    PlanV::Tasks(seq![t])
}

/// Plan one task.
fn plan_task(t: Task) -> (r: Plan)
    ensures
        r@ == one_task(t@),
{
    let mut v: Vec<Task> = Vec::new();
    v.push(t);
    assert(tasks(v@) =~= seq![t@]);
    Plan::Tasks(v)
}

/// Evaluating the value of a variable, or an argument as it stands.
pub open spec fn eval_plan(x: ExprV, env: EnvV) -> PlanV {
    if x is Symbol && is_var_name(x->Symbol_0) {
        match env_get(env, x->Symbol_0) {
            None => PlanV::Fail("eval: unbound variable "@ + x->Symbol_0),
            Some(a) => if a is Closure && a->Closure_0.len() == 0 {
                one_task(TaskV::Eval(a->Closure_1, *a->Closure_2))
            } else {
                one_task(TaskV::Eval(to_expr(a), env))
            },
        }
    } else {
        one_task(TaskV::Eval(x, env))
    }
}

/// Plan an `eval`.
fn plan_eval(x: &Expr, env: &Env) -> (r: Plan)
    ensures
        r@ == eval_plan(x@, env@),
{
    match x {
        Expr::Symbol(s) => {
            if is_var(s.as_str()) {
                return match lookup(env, s.as_str()) {
                    None => Plan::Fail(joined("eval: unbound variable ", s.as_str())),
                    Some(a) => {
                        match &a {
                            Atom::Closure(c) => {
                                assert(exprs(c.params@).len() == c.params@.len());
                                if c.params.len() == 0 {
                                    return plan_task(Task::Eval(c.body.clone(), c.env.clone()));
                                }
                            },
                            _ => {},
                        }
                        match atom_to_expr(&a) {
                            Ok(e) => plan_task(Task::Eval(e, env.clone())),
                            Err(m) => Plan::Fail(m),
                        }
                    },
                };
            }
        },
        _ => {},
    }
    plan_task(Task::Eval(x.clone(), env.clone()))
}

/// The parameters of an anonymous function.
pub open spec fn lambda_params(x: ExprV) -> Seq<ExprV> {
    match x {
        ExprV::List(ps) => ps,
        other => seq![other],
    }
}

/// Take the parameters of an anonymous function.
pub fn take_params(x: &Expr) -> (r: Arc<Vec<Expr>>)
    ensures
        exprs(r@) == lambda_params(x@),
{
    match x {
        Expr::List(ps) => ps.clone(),
        other => {
            let mut v: Vec<Expr> = Vec::new();
            v.push(other.clone());
            assert(exprs(v@) =~= seq![other@]);
            Arc::new(v)
        },
    }
}

/// Values from a list of expressions, or from the value of one.
pub open spec fn superpose_plan(x: ExprV, env: EnvV) -> PlanV {
    match x {
        ExprV::List(xs) => if xs.len() == 0 {
            no_value()
        } else {
            over_frame(ContV::Gather(xs.len()), xs, env)
        },
        _ => then_frame(ContV::SuperposeUnpack, x, env),
    }
}

/// Plan a `superpose`.
fn plan_superpose(x: &Expr, env: &Env) -> (r: Plan)
    ensures
        r@ == superpose_plan(x@, env@),
{
    match x {
        Expr::List(xs) => {
            assert(exprs(xs@).len() == xs@.len());
            if xs.len() == 0 {
                plan_nothing()
            } else {
                assert(exprs(xs@).skip(0) =~= exprs(xs@));
                plan_over(Frame::Gather(xs.len()), xs, 0, env)
            }
        },
        _ => plan_frame(Frame::SuperposeUnpack, x, env),
    }
}

/// Binding the variables of patterns in sequence.
pub open spec fn let_star_plan(args: Seq<ExprV>, env: EnvV) -> PlanV {
    match star_bindings(args) {
        Err(m) => PlanV::Fail(m),
        Ok(bs) => if bs.len() == 0 {
            one_task(TaskV::Eval(args[1], env))
        } else {
            match star_binding(bs, 0) {
                Err(m) => PlanV::Fail(m),
                Ok(p) => then_frame(ContV::LetStarBind(bs, 0, args[1], env), p.1, env),
            }
        },
    }
}

/// Plan a `let*`.
fn plan_let_star(items: &Vec<Expr>, env: &Env) -> (r: Plan)
    requires
        items@.len() > 0,
    ensures
        r@ == let_star_plan(exprs(items@).skip(1), env@),
{
    broadcast use group_exprs;

    let args = copy_exprs(items, 1);
    assert(exprs(args@) =~= exprs(items@).skip(1));
    match let_star_bindings(&args) {
        Err(m) => Plan::Fail(m),
        Ok(bs) => {
            assert(exprs(bs@).len() == bs@.len());
            assert(args@.len() == 2);
            assert(exprs(args@)[1] == args@[1]@);
            if bs.len() == 0 {
                plan_task(Task::Eval(args[1].clone(), env.clone()))
            } else {
                match let_star_binding(&bs, 0) {
                    Err(m) => Plan::Fail(m),
                    Ok((_, x)) => {
                        let f = Frame::LetStarBind(bs.clone(), 0, args[1].clone(), env.clone());
                        plan_frame(f, x, env)
                    },
                }
            }
        },
    }
}

/// What a core form comes to.
pub open spec fn core_plan(c: Core, items: Seq<ExprV>, env: EnvV) -> PlanV {
    let head = items[0]->Symbol_0;
    let args = items.skip(1);
    let n = args.len();
    let none = Seq::<char>::empty();
    match c {
        Core::Cut => PlanV::Cut,
        Core::Quote => if n != 1 {
            miscounted("quote: expected 1 arg, got "@, n, none)
        } else {
            one_value(atomized(args[0], env))
        },
        Core::Reduce => if n != 1 {
            miscounted(head + ": expected 1 arg, got "@, n, none)
        } else {
            one_task(TaskV::Eval(args[0], env))
        },
        Core::Eval => if n != 1 {
            miscounted("eval: expected 1 arg, got "@, n, none)
        } else {
            eval_plan(args[0], env)
        },
        Core::Lambda => if n != 2 {
            miscounted("|->: expected (params body), got "@, n, " args"@)
        } else {
            one_value(AtomV::Closure(lambda_params(args[0]), args[1], Box::new(env)))
        },
        Core::Empty => no_value(),
        Core::Import => if n != 2 {
            miscounted("import!: expected 2 args, got "@, n, none)
        } else {
            match args[1] {
                ExprV::Symbol(path) => then_frame(ContV::ImportFile(path, env), args[0], env),
                _ => PlanV::Fail("import!: path must be a symbol"@),
            }
        },
        Core::ImportRs => PlanV::Host(HostV::Plugin(ExprV::List(items), env)),
        Core::Println => if n != 1 {
            miscounted("println!: expected 1 arg, got "@, n, none)
        } else {
            then_frame(ContV::Println, args[0], env)
        },
        Core::Readln => PlanV::Host(HostV::Readln),
        Core::Foldall => if n != 3 {
            miscounted("foldall: expected (agg-func gen-expr init), got "@, n, " args"@)
        } else {
            PlanV::Tasks(
                seq![
                    TaskV::Apply(ContV::FoldallInit(args[0], env)),
                    TaskV::Run(args[2], env),
                    TaskV::Run(args[1], env),
                ],
            )
        },
        Core::Forall => if n != 2 {
            miscounted("forall: expected 2 args, got "@, n, none)
        } else {
            PlanV::Tasks(
                seq![
                    TaskV::Apply(ContV::ForallInit(env)),
                    TaskV::Run(args[1], env),
                    TaskV::Run(args[0], env),
                ],
            )
        },
        Core::Foldl => if n != 3 {
            miscounted("foldl-atom: expected 3 args, got "@, n, none)
        } else {
            over_frame(ContV::FoldlInit, args, env)
        },
        Core::If => if n < 2 || n > 3 {
            miscounted("if: expected 2 or 3 args, got "@, n, none)
        } else {
            PlanV::Tasks(
                seq![
                    TaskV::Apply(
                        ContV::IfBranch(
                            args[1],
                            if n == 3 {
                                Some(args[2])
                            } else {
                                None
                            },
                            env,
                        ),
                    ),
                    TaskV::Run(args[0], env),
                ],
            )
        },
        Core::Case => if n != 2 {
            miscounted("case: expected 2 args, got "@, n, none)
        } else {
            match args[1] {
                ExprV::List(cs) => then_frame(ContV::CaseSelect(cs, env), args[0], env),
                other => PlanV::Fail("case: expected clause list, got "@ + expr_text(other)),
            }
        },
        Core::Within => if n != 1 {
            miscounted("within: expected 1 arg, got "@, n, none)
        } else {
            then_frame(ContV::WithinWrap, args[0], env)
        },
        Core::Collapse => if n != 1 {
            miscounted("collapse: expected 1 arg, got "@, n, none)
        } else {
            then_frame(ContV::CollapseGather, args[0], env)
        },
        Core::Once => if n != 1 {
            miscounted("once: expected 1 arg, got "@, n, none)
        } else {
            then_frame(ContV::OnceCut, args[0], env)
        },
        Core::Superpose => if n != 1 {
            miscounted("superpose: expected 1 arg, got "@, n, none)
        } else {
            superpose_plan(args[0], env)
        },
        Core::Let => if n != 3 {
            miscounted("let: expected 3 args, got "@, n, none)
        } else {
            then_frame(ContV::LetMatch(args[0], args[2], env), args[1], env)
        },
        Core::LetStar => let_star_plan(args, env),
        Core::Chain => if n < 3 || n % 2 == 0 {
            miscounted("chain: expected odd number of args >= 3, got "@, n, none)
        } else {
            then_frame(ContV::ChainBind(args, 0, env), args[0], env)
        },
        Core::Progn => if n < 1 {
            PlanV::Fail("progn: expected at least one form"@)
        } else {
            over_frame(ContV::Progn(n), args, env)
        },
        Core::Prog1 => if n < 1 {
            PlanV::Fail("prog1: expected at least one form"@)
        } else {
            over_frame(ContV::Prog1(n), args, env)
        },
        Core::Match => if n != 3 {
            miscounted("match: expected 3 args, got "@, n, none)
        } else {
            then_frame(ContV::SpaceMatch(args[1], args[2], env), args[0], env)
        },
        Core::Transform => if n != 2 {
            miscounted("transform: expected 2 args, got "@, n, none)
        } else {
            one_task(
                TaskV::Transition(
                    TransitionV::Transform(atomized(args[0], env), atomized(args[1], env)),
                ),
            )
        },
        Core::WithMutex => if n != 2 {
            miscounted("with_mutex: expected 2 args, got "@, n, none)
        } else {
            then_frame(ContV::MutexEnter(args[1], env), args[0], env)
        },
        Core::Transaction => if n != 1 {
            miscounted("transaction: expected 1 arg, got "@, n, none)
        } else {
            one_task(TaskV::Transition(TransitionV::Transaction(args[0], env)))
        },
        Core::AddAtom => if n != 2 {
            miscounted("add-atom: expected 2 args, got "@, n, none)
        } else {
            then_frame(ContV::SpaceAdd(args[1], env), args[0], env)
        },
        Core::RemoveAtom => if n != 2 {
            miscounted("remove-atom: expected 2 args, got "@, n, none)
        } else {
            then_frame(ContV::SpaceRemove(args[1], env), args[0], env)
        },
        Core::Other => PlanV::Fail("no core form"@),
    }
}

/// Plan a core form that fixes how values are computed.
#[verifier::rlimit(40)]
fn plan_simple(c: Core, head: &str, items: &Vec<Expr>, env: &Env) -> (r: Plan)
    requires
        items@.len() > 0,
        exprs(items@)[0] == ExprV::Symbol(head@),
        c == Core::Cut || c == Core::Quote || c == Core::Reduce || c == Core::Eval || c
            == Core::Lambda || c == Core::Empty || c == Core::Import || c == Core::ImportRs || c
            == Core::Println || c == Core::Readln || c == Core::Within || c == Core::Collapse || c
            == Core::Once || c == Core::Superpose || c == Core::LetStar,
    ensures
        r@ == core_plan(c, exprs(items@), env@),
{
    broadcast use group_exprs;

    let ghost xs = exprs(items@);
    let ghost args = xs.skip(1);
    let n: usize = items.len() - 1;
    proof {
        reveal_strlit("");
    }
    assert(""@ =~= Seq::<char>::empty());
    assert(args.len() == n);
    assert(forall|i: int| 0 <= i < n ==> args[i] == #[trigger] items@[i + 1]@);
    match c {
        Core::Cut => Plan::Cut,
        Core::Quote => {
            if n != 1 {
                return miscount("quote: expected 1 arg, got ", n, "");
            }
            assert(args[0] == items@[1]@);
            Plan::Value(single(subst_and_atomize(&items[1], env)))
        },
        Core::Reduce => {
            if n != 1 {
                let front = joined(head, ": expected 1 arg, got ");
                return miscount(front.as_str(), n, "");
            }
            assert(args[0] == items@[1]@);
            plan_task(Task::Eval(items[1].clone(), env.clone()))
        },
        Core::Eval => {
            if n != 1 {
                return miscount("eval: expected 1 arg, got ", n, "");
            }
            assert(args[0] == items@[1]@);
            plan_eval(&items[1], env)
        },
        Core::Lambda => {
            if n != 2 {
                return miscount("|->: expected (params body), got ", n, " args");
            }
            assert(args[0] == items@[1]@ && args[1] == items@[2]@);
            let a = Atom::Closure(
                Arc::new(
                    ClosureData {
                        params: take_params(&items[1]),
                        body: items[2].clone(),
                        env: env.clone(),
                    },
                ),
            );
            assert(a@ == AtomV::Closure(lambda_params(args[0]), args[1], Box::new(env@)));
            Plan::Value(single(a))
        },
        Core::Empty => plan_nothing(),
        Core::Import => {
            if n != 2 {
                return miscount("import!: expected 2 args, got ", n, "");
            }
            assert(args[0] == items@[1]@ && args[1] == items@[2]@);
            match &items[2] {
                Expr::Symbol(path) => plan_frame(
                    Frame::ImportFile(path.clone(), env.clone()),
                    &items[1],
                    env,
                ),
                _ => Plan::Fail("import!: path must be a symbol".to_owned()),
            }
        },
        Core::ImportRs => {
            let all = copy_exprs(items, 0);
            assert(items@.skip(0) =~= items@);
            Plan::Host(HostCall::Plugin(Expr::List(Arc::new(all)), env.clone()))
        },
        Core::Println => {
            if n != 1 {
                return miscount("println!: expected 1 arg, got ", n, "");
            }
            assert(args[0] == items@[1]@);
            plan_frame(Frame::Println, &items[1], env)
        },
        Core::Readln => Plan::Host(HostCall::Readln),
        Core::Within => {
            if n != 1 {
                return miscount("within: expected 1 arg, got ", n, "");
            }
            assert(args[0] == items@[1]@);
            plan_frame(Frame::WithinWrap, &items[1], env)
        },
        Core::Collapse => {
            if n != 1 {
                return miscount("collapse: expected 1 arg, got ", n, "");
            }
            assert(args[0] == items@[1]@);
            plan_frame(Frame::CollapseGather, &items[1], env)
        },
        Core::Once => {
            if n != 1 {
                return miscount("once: expected 1 arg, got ", n, "");
            }
            assert(args[0] == items@[1]@);
            plan_frame(Frame::OnceCut, &items[1], env)
        },
        Core::Superpose => {
            if n != 1 {
                return miscount("superpose: expected 1 arg, got ", n, "");
            }
            assert(args[0] == items@[1]@);
            plan_superpose(&items[1], env)
        },
        Core::LetStar => plan_let_star(items, env),
        _ => Plan::Cut,
    }
}

/// Plan a core form.
#[verifier::rlimit(40)]
fn plan_core(c: Core, head: &str, items: &Vec<Expr>, env: &Env) -> (r: Plan)
    requires
        items@.len() > 0,
        exprs(items@)[0] == ExprV::Symbol(head@),
        c != Core::Other,
    ensures
        r@ == core_plan(c, exprs(items@), env@),
{
    broadcast use group_exprs;

    let ghost xs = exprs(items@);
    let ghost args = xs.skip(1);
    let n: usize = items.len() - 1;
    proof {
        reveal_strlit("");
    }
    assert(""@ =~= Seq::<char>::empty());
    assert(args.len() == n);
    match c {
        Core::Foldall => {
            if n != 3 {
                return miscount("foldall: expected (agg-func gen-expr init), got ", n, " args");
            }
            assert(args[0] == items@[1]@ && args[1] == items@[2]@ && args[2] == items@[3]@);
            let mut v: Vec<Task> = Vec::new();
            v.push(Task::Apply(Frame::FoldallInit(items[1].clone(), env.clone())));
            v.push(Task::Run(items[3].clone(), env.clone()));
            v.push(Task::Run(items[2].clone(), env.clone()));
            assert(tasks(v@) =~= core_plan(c, xs, env@)->Tasks_0);
            Plan::Tasks(v)
        },
        Core::Forall => {
            if n != 2 {
                return miscount("forall: expected 2 args, got ", n, "");
            }
            assert(args[0] == items@[1]@ && args[1] == items@[2]@);
            let mut v: Vec<Task> = Vec::new();
            v.push(Task::Apply(Frame::ForallInit(env.clone())));
            v.push(Task::Run(items[2].clone(), env.clone()));
            v.push(Task::Run(items[1].clone(), env.clone()));
            assert(tasks(v@) =~= core_plan(c, xs, env@)->Tasks_0);
            Plan::Tasks(v)
        },
        Core::Foldl => {
            if n != 3 {
                return miscount("foldl-atom: expected 3 args, got ", n, "");
            }
            plan_over(Frame::FoldlInit, items, 1, env)
        },
        Core::If => {
            if n < 2 || n > 3 {
                return miscount("if: expected 2 or 3 args, got ", n, "");
            }
            assert(args[0] == items@[1]@ && args[1] == items@[2]@);
            assert(n == 3 ==> args[2] == items@[3]@);
            let other: Option<Expr> = if n == 3 {
                Some(items[3].clone())
            } else {
                None
            };
            let mut v: Vec<Task> = Vec::new();
            v.push(Task::Apply(Frame::IfBranch(items[2].clone(), other, env.clone())));
            v.push(Task::Run(items[1].clone(), env.clone()));
            assert(tasks(v@) =~= core_plan(c, xs, env@)->Tasks_0);
            Plan::Tasks(v)
        },
        Core::Case => {
            if n != 2 {
                return miscount("case: expected 2 args, got ", n, "");
            }
            assert(args[0] == items@[1]@ && args[1] == items@[2]@);
            match &items[2] {
                Expr::List(cs) => plan_frame(
                    Frame::CaseSelect(cs.clone(), env.clone()),
                    &items[1],
                    env,
                ),
                other => {
                    let t = other.to_text();
                    Plan::Fail(joined("case: expected clause list, got ", t.as_str()))
                },
            }
        },
        Core::Let => {
            if n != 3 {
                return miscount("let: expected 3 args, got ", n, "");
            }
            assert(args[0] == items@[1]@ && args[1] == items@[2]@ && args[2] == items@[3]@);
            let f = Frame::LetMatch(items[1].clone(), items[3].clone(), env.clone());
            plan_frame(f, &items[2], env)
        },
        Core::Chain => {
            if n < 3 || n % 2 == 0 {
                return miscount("chain: expected odd number of args >= 3, got ", n, "");
            }
            assert(args[0] == items@[1]@);
            let list = copy_exprs(items, 1);
            assert(exprs(list@) =~= args);
            plan_frame(Frame::ChainBind(Arc::new(list), 0, env.clone()), &items[1], env)
        },
        Core::Progn => {
            if n < 1 {
                return Plan::Fail("progn: expected at least one form".to_owned());
            }
            plan_over(Frame::Progn(n), items, 1, env)
        },
        Core::Prog1 => {
            if n < 1 {
                return Plan::Fail("prog1: expected at least one form".to_owned());
            }
            plan_over(Frame::Prog1(n), items, 1, env)
        },
        Core::Match => {
            if n != 3 {
                return miscount("match: expected 3 args, got ", n, "");
            }
            assert(args[0] == items@[1]@ && args[1] == items@[2]@ && args[2] == items@[3]@);
            let f = Frame::SpaceMatch(items[2].clone(), items[3].clone(), env.clone());
            plan_frame(f, &items[1], env)
        },
        Core::Transform => {
            if n != 2 {
                return miscount("transform: expected 2 args, got ", n, "");
            }
            assert(args[0] == items@[1]@ && args[1] == items@[2]@);
            let p = subst_and_atomize(&items[1], env);
            let q = subst_and_atomize(&items[2], env);
            plan_task(Task::Transition(Transition::Transform(p, q)))
        },
        Core::WithMutex => {
            if n != 2 {
                return miscount("with_mutex: expected 2 args, got ", n, "");
            }
            assert(args[0] == items@[1]@ && args[1] == items@[2]@);
            plan_frame(Frame::MutexEnter(items[2].clone(), env.clone()), &items[1], env)
        },
        Core::Transaction => {
            if n != 1 {
                return miscount("transaction: expected 1 arg, got ", n, "");
            }
            assert(args[0] == items@[1]@);
            plan_task(Task::Transition(Transition::Transaction(items[1].clone(), env.clone())))
        },
        Core::AddAtom => {
            if n != 2 {
                return miscount("add-atom: expected 2 args, got ", n, "");
            }
            assert(args[0] == items@[1]@ && args[1] == items@[2]@);
            plan_frame(Frame::SpaceAdd(items[2].clone(), env.clone()), &items[1], env)
        },
        Core::RemoveAtom => {
            if n != 2 {
                return miscount("remove-atom: expected 2 args, got ", n, "");
            }
            assert(args[0] == items@[1]@ && args[1] == items@[2]@);
            plan_frame(Frame::SpaceRemove(items[2].clone(), env.clone()), &items[1], env)
        },
        _ => plan_simple(c, head, items, env),
    }
}

/// An argument that is passed without being evaluated: a function without
/// parameters.
pub open spec fn delayed(x: ExprV, env: EnvV) -> AtomV {
    AtomV::Closure(Seq::empty(), x, Box::new(env))
}

/// Pass an argument without evaluating it.
pub fn delayed_user_call_arg(x: &Expr, env: &Env) -> (r: Atom)
    ensures
        r@ == delayed(x@, env@),
{
    let none: Vec<Expr> = Vec::new();
    assert(exprs(none@) =~= Seq::<ExprV>::empty());
    Atom::Closure(
        Arc::new(ClosureData { params: Arc::new(none), body: x.clone(), env: env.clone() }),
    )
}

/// An argument that is data already: a definition or a quotation.
pub open spec fn data_arg(x: ExprV, env: EnvV) -> Option<AtomV> {
    if x is List && ((x->List_0.len() == 3 && x->List_0[0] == ExprV::Symbol("="@)) || (
    x->List_0.len() == 2 && x->List_0[0] == ExprV::Symbol("quote"@))) {
        Some(atomized(x, env))
    } else {
        None
    }
}

/// Take an argument that is data already.
pub fn definition_arg_atom(x: &Expr, env: &Env) -> (r: Option<Atom>)
    ensures
        crate::eval::shared::pattern::optional_atom(r) == data_arg(x@, env@),
{
    broadcast use group_exprs;

    match x {
        Expr::List(items) => {
            assert(exprs(items@).len() == items@.len());
            let n: usize = items.len();
            if n == 3 || n == 2 {
                assert(exprs(items@)[0] == items@[0]@);
                match &items[0] {
                    Expr::Symbol(s) => {
                        if (n == 3 && same(s.as_str(), "=")) || (n == 2 && same(
                            s.as_str(),
                            "quote",
                        )) {
                            return Some(subst_and_atomize(x, env));
                        }
                    },
                    _ => {},
                }
            }
            None
        },
        _ => None,
    }
}

/// The slot of an argument: filled when it is passed without being evaluated.
pub open spec fn arg_slot(x: ExprV, i: int, mask: Seq<bool>, env: EnvV) -> Option<ResultV> {
    if i < mask.len() && mask[i] {
        Some(plain_results(seq![delayed(x, env)]))
    } else {
        match data_arg(x, env) {
            Some(a) => Some(plain_results(seq![a])),
            None => None,
        }
    }
}

/// The slots of arguments.
pub open spec fn arg_slots(args: Seq<ExprV>, mask: Seq<bool>, env: EnvV) -> Seq<Option<ResultV>> {
    Seq::new(args.len(), |i: int| arg_slot(args[i], i, mask, env))
}

/// The arguments whose slots are not filled.
pub open spec fn unfilled(args: Seq<ExprV>, slots: Seq<Option<ResultV>>) -> Seq<ExprV>
    decreases args.len(),
{
    if args.len() == 0 {
        Seq::empty()
    } else {
        let before = unfilled(args.drop_last(), slots);
        if slots[args.len() - 1] is None {
            before.push(args.last())
        } else {
            before
        }
    }
}

/// Calling a user-defined function.
pub open spec fn user_plan(
    name: Seq<char>,
    cs: Seq<ClauseV>,
    args: Seq<ExprV>,
    env: EnvV,
) -> PlanV {
    let slots = arg_slots(args, lazy_mask(cs), env);
    over_frame(
        ContV::Call(HeadV::User(name, cs), args.len(), Some(slots)),
        unfilled(args, slots),
        env,
    )
}

/// Plan a call of a user-defined function.
fn plan_user(name: &str, cs: Vec<Clause>, items: &Vec<Expr>, env: &Env) -> (r: Plan)
    requires
        items@.len() > 0,
    ensures
        r@ == user_plan(name@, clauses(cs@), exprs(items@).skip(1), env@),
{
    broadcast use group_exprs;

    let ghost args = exprs(items@).skip(1);
    let mask = lazy_user_arg_mask(&cs);
    let ghost want = arg_slots(args, mask@, env@);
    let mut slots: Vec<Option<ResultSet>> = Vec::new();
    let mut eager: Vec<Expr> = Vec::new();
    let mut i: usize = 1;
    assert(slot_values(slots@) =~= want.take(0));
    assert(args.take(0) =~= Seq::<ExprV>::empty());
    assert(exprs(eager@) =~= Seq::<ExprV>::empty());
    while i < items.len()
        invariant
            1 <= i <= items@.len(),
            args == exprs(items@).skip(1),
            want == arg_slots(args, mask@, env@),
            slot_values(slots@) == want.take(i - 1),
            exprs(eager@) == unfilled(args.take(i - 1), want),
        decreases items@.len() - i,
    {
        let k: usize = i - 1;
        let ghost before = slots@;
        assert(args[k as int] == items@[i as int]@);
        assert(args.take(i as int).drop_last() =~= args.take(k as int));
        if k < mask.len() && mask[k] {
            slots.push(Some(single(delayed_user_call_arg(&items[i], env))));
        } else {
            match definition_arg_atom(&items[i], env) {
                Some(a) => {
                    slots.push(Some(single(a)));
                },
                None => {
                    slots.push(None);
                    eager.push(items[i].clone());
                },
            }
        }
        assert(slot_values(slots@) =~= slot_values(before).push(
            crate::eval::machine::frame::slot_value(slots@.last()),
        ));
        assert(want.take(i as int) =~= want.take(k as int).push(want[k as int]));
        i += 1;
    }
    assert(want.take(args.len() as int) =~= want);
    assert(args.take(args.len() as int) =~= args);
    let n: usize = items.len() - 1;
    assert(exprs(eager@).skip(0) =~= exprs(eager@));
    plan_over(
        Frame::Call { head: Head::User(name.to_owned(), cs), arity: n, prebound: Some(slots) },
        &eager,
        0,
        env,
    )
}

/// Applying what the head comes to, once the arguments are there.
pub open spec fn head_plan(items: Seq<ExprV>, env: EnvV) -> PlanV {
    PlanV::Tasks(
        seq![
            TaskV::Apply(ContV::ApplyHead((items.len() - 1) as nat)),
            TaskV::Eval(items[0], env),
        ] + evals(items.skip(1), env),
    )
}

/// Plan to apply what the head comes to.
fn plan_head(items: &Vec<Expr>, env: &Env) -> (r: Plan)
    requires
        items@.len() > 0,
    ensures
        r@ == head_plan(exprs(items@), env@),
{
    broadcast use group_exprs;

    let mut v: Vec<Task> = Vec::new();
    v.push(Task::Apply(Frame::ApplyHead(items.len() - 1)));
    v.push(Task::Eval(items[0].clone(), env.clone()));
    assert(tasks(v@) =~= seq![
        TaskV::Apply(ContV::ApplyHead((items@.len() - 1) as nat)),
        TaskV::Eval(exprs(items@)[0], env@),
    ]);
    push_evals(&mut v, items, 1, env);
    Plan::Tasks(v)
}

/// What an application comes to.
pub open spec fn application_plan(items: Seq<ExprV>, env: EnvV, t: TableV) -> PlanV {
    let args = items.skip(1);
    let n = args.len();
    match items[0] {
        ExprV::Symbol(name) => if t.natives.contains_key((name, n as u8)) {
            over_frame(
                ContV::Call(HeadV::Native(t.natives[(name, n as u8)], name), n, None),
                args,
                env,
            )
        } else {
            match t.clauses_of(name, n as u8) {
                Some(cs) => user_plan(name, cs, args, env),
                None => if t.takes_more(name, n as int) {
                    head_plan(items, env)
                } else if is_var_name(name) && env_get(env, name) is Some && env_get(
                    env,
                    name,
                )->Some_0 is Closure {
                    let c = env_get(env, name)->Some_0;
                    over_frame(
                        ContV::Call(
                            HeadV::User(
                                name,
                                seq![ClauseV { patterns: c->Closure_0, body: c->Closure_1 }],
                            ),
                            n,
                            None,
                        ),
                        args,
                        env,
                    )
                } else {
                    over_frame(ContV::DataList(items.len()), items, env)
                },
            }
        },
        _ => head_plan(items, env),
    }
}

/// Plan an application.
fn plan_application(items: &Vec<Expr>, env: &Env, table: &FnTable) -> (r: Plan)
    requires
        items@.len() > 0,
    ensures
        r@ == application_plan(exprs(items@), env@, table@),
{
    broadcast use group_exprs;

    let ghost xs = exprs(items@);
    let n: usize = items.len() - 1;
    assert(xs[0] == items@[0]@);
    match &items[0] {
        Expr::Symbol(name) => {
            let arity: u8 = n as u8;
            match table.get(name.as_str(), arity) {
                Some(b) => {
                    return plan_over(
                        Frame::Call {
                            head: Head::Native(b, name.clone()),
                            arity: n,
                            prebound: None,
                        },
                        items,
                        1,
                        env,
                    );
                },
                None => {},
            }
            match lookup_user_clauses(name.as_str(), arity, table) {
                Some(cs) => {
                    return plan_user(name.as_str(), cs, items, env);
                },
                None => {},
            }
            if table.has_higher_arity(name.as_str(), n) {
                return plan_head(items, env);
            }
            if is_var(name.as_str()) {
                match lookup(env, name.as_str()) {
                    Some(a) => match &a {
                        Atom::Closure(c) => {
                            let ps = copy_exprs(&c.params, 0);
                            assert(c.params@.skip(0) =~= c.params@);
                            let mut cs: Vec<Clause> = Vec::new();
                            cs.push(Clause { patterns: ps, body: c.body.clone() });
                            assert(clauses(cs@) =~= seq![
                                ClauseV { patterns: a@->Closure_0, body: a@->Closure_1 },
                            ]);
                            return plan_over(
                                Frame::Call {
                                    head: Head::User(name.clone(), cs),
                                    arity: n,
                                    prebound: None,
                                },
                                items,
                                1,
                                env,
                            );
                        },
                        _ => {},
                    },
                    None => {},
                }
            }
            assert(xs.skip(0) =~= xs);
            plan_over(Frame::DataList(items.len()), items, 0, env)
        },
        _ => plan_head(items, env),
    }
}

/// What evaluating an expression in an environment comes to.
pub open spec fn expr_plan(x: ExprV, env: EnvV, t: TableV) -> PlanV {
    match x {
        ExprV::Number(n) => one_value(AtomV::Num(n)),
        ExprV::Symbol(s) => one_value(
            if is_var_name(s) {
                match env_get(env, s) {
                    Some(a) => a,
                    None => symbol(s),
                }
            } else {
                symbol(s)
            },
        ),
        ExprV::Str(s) => one_value(AtomV::Str(s)),
        ExprV::List(items) => if items.len() == 0 {
            one_value(AtomV::Expr(Seq::empty()))
        } else if items[0] is Symbol && core_of(items[0]->Symbol_0) != Core::Other {
            core_plan(core_of(items[0]->Symbol_0), items, env)
        } else {
            application_plan(items, env, t)
        },
    }
}

/// Dispatch a single expression into machine work or a direct result.
pub fn dispatch_expr(expr: &Expr, env: &Env, table: &FnTable) -> (r: Plan)
    ensures
        r@ == expr_plan(expr@, env@, table@),
{
    broadcast use group_exprs;

    match expr {
        Expr::Number(n) => Plan::Value(single(Atom::Num(n.clone()))),
        Expr::Symbol(s) => {
            if is_var(s.as_str()) {
                match lookup(env, s.as_str()) {
                    Some(a) => {
                        return Plan::Value(single(a));
                    },
                    None => {},
                }
            }
            Plan::Value(single(Atom::sym(s.as_str())))
        },
        Expr::Str(s) => Plan::Value(single(Atom::str_val(s.as_str()))),
        Expr::List(items) => {
            assert(exprs(items@).len() == items@.len());
            if items.len() == 0 {
                let none: Vec<Atom> = Vec::new();
                assert(atoms(none@) =~= Seq::<AtomV>::empty());
                return Plan::Value(single(Atom::expr(none)));
            }
            assert(exprs(items@)[0] == items@[0]@);
            match &items[0] {
                Expr::Symbol(head) => {
                    let c = find_core(head.as_str());
                    if c != Core::Other {
                        return plan_core(c, head.as_str(), items, env);
                    }
                },
                _ => {},
            }
            plan_application(items, env, table)
        },
    }
}

} // verus!
