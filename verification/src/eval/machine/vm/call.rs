//! Application of a head to arguments in the bytecode machine.
use crate::atom::Atom;
use crate::atom::AtomV;
use crate::atom::atom_same;
use crate::atom::atoms;
use crate::atom::copy_atoms;
use crate::atom::group_atoms;
use crate::atom::symbol;
use crate::builtins::boolean::bool_atom;
use crate::builtins::boolean::truth;
use crate::builtins::collections::items_of;
use crate::builtins::collections::list_items;
use crate::env::Env;
use crate::env::EnvV;
use crate::env::env_get;
use crate::eval::forms::query::ClauseMatch;
use crate::eval::forms::query::ClauseMatchV;
use crate::eval::forms::query::clause_match;
use crate::eval::forms::query::match_clause;
use crate::eval::machine::budget::ResultSet;
use crate::eval::machine::budget::ResultV;
use crate::eval::machine::budget::calculate_expr_cost;
use crate::eval::machine::budget::capped;
use crate::eval::machine::budget::expr_cost;
use crate::eval::machine::budget::group_results;
use crate::eval::machine::budget::results;
use crate::eval::machine::state::SubstV;
use crate::eval::machine::state::settles;
use crate::eval::machine::state::subst_value;
use crate::eval::machine::state::subst_values;
use crate::eval::machine::state::unification_is_determined;
use crate::eval::machine::state::unify;
use crate::eval::machine::vm::compiler::VMCompiler;
use crate::eval::machine::vm::compiler::all_noted;
use crate::eval::machine::vm::compiler::compiled;
use crate::eval::machine::vm::op::Block;
use crate::eval::machine::vm::op::BlockV;
use crate::eval::machine::vm::op::Opcode;
use crate::eval::machine::vm::op::OpcodeV;
use crate::eval::machine::vm::op::group_ops;
use crate::eval::machine::vm::op::ops;
use crate::eval::machine::vm::state::MemoKey;
use crate::eval::machine::vm::state::MemoKeyV;
use crate::eval::machine::vm::state::PendingCall;
use crate::eval::machine::vm::state::PendingV;
use crate::eval::machine::vm::state::memo_key;
use crate::eval::machine::vm::state::pendings;
use crate::eval::shared::env::bind;
use crate::eval::shared::env::lookup;
use crate::eval::shared::fresh::rename_apart_unbound_vars;
use crate::eval::shared::fresh::renamed_apart;
use crate::eval::shared::pattern::KnownV;
use crate::eval::shared::pattern::PatternValue;
use crate::eval::shared::pattern::known_values;
use crate::eval::shared::subst::subst_atom;
use crate::eval::shared::subst::substituted;
use crate::expr::Expr;
use crate::expr::ExprV;
use crate::expr::exprs;
use crate::expr::group_exprs;
use crate::func::Builtin;
use crate::func::Clause;
use crate::func::ClauseV;
use crate::func::FnTable;
use crate::func::TableV;
use crate::func::clauses;
use crate::func::copy_clauses;
use crate::func::next_id;
use crate::func::remembered;
use crate::text::is_var;
use crate::text::is_var_name;
use crate::text::joined;
use crate::text::nat_digits;
use crate::text::same;
use crate::text::texts;
use crate::text::u64_text;
use std::sync::Arc;
use vstd::prelude::*;
use vstd::string::*;

verus! {

/// What applying a head to arguments comes to.
pub enum Dispatch {
    /// These results.
    Results(ResultSet),
    /// A call of a built-in function.
    Native(Builtin, String, Vec<Atom>),
    /// Calls of a user-defined function, and the key under which their results
    /// are remembered.
    Pending(Vec<PendingCall>, Option<MemoKey>),
    /// The value of this expression in this environment is needed first.
    Ask(Expr, Env),
    /// An error.
    Fail(String),
}

/// The value of what applying a head to arguments comes to.
pub enum DispatchV {
    /// These results.
    Results(ResultV),
    /// A call of a built-in function.
    Native(Builtin, Seq<char>, Seq<AtomV>),
    /// Calls of a user-defined function.
    Pending(Seq<PendingV>, Option<MemoKeyV>),
    /// A value is missing.
    Ask(ExprV, EnvV),
    /// An error.
    Fail(Seq<char>),
}

impl View for Dispatch {
    type V = DispatchV;

    open spec fn view(&self) -> DispatchV {
        match self {
            Dispatch::Results(rs) => DispatchV::Results(results(rs@)),
            Dispatch::Native(b, n, args) => DispatchV::Native(*b, n@, atoms(args@)),
            Dispatch::Pending(p, m) => DispatchV::Pending(pendings(p@), memo_key(*m)),
            Dispatch::Ask(x, e) => DispatchV::Ask(x@, e@),
            Dispatch::Fail(m) => DispatchV::Fail(m@),
        }
    }
}

/// The substitution that unifies two atoms, if there is one.
pub open spec fn unifier(a: AtomV, b: AtomV) -> Option<SubstV> {
    choose|r: Option<SubstV>| settles(a, b, Seq::empty(), r)
}

/// An environment with the bindings of a substitution in front, the last one
/// first.
pub open spec fn bound_env(env: EnvV, s: SubstV) -> EnvV
    decreases s.len(),
{
    if s.len() == 0 {
        env
    } else {
        EnvV::Cons(
            s.last().0,
            Box::new(s.last().1),
            Box::new(bound_env(env, s.drop_last())),
        )
    }
}

/// Bind the variables of a substitution.
fn bind_subst(env: &Env, s: &Vec<(String, Atom)>) -> (r: Env)
    ensures
        r@ == bound_env(env@, subst_values(s@)),
{
    let ghost sv = subst_values(s@);
    let mut out: Env = env.clone();
    let mut i: usize = 0;
    assert(sv.take(0) =~= Seq::empty());
    while i < s.len()
        invariant
            i <= s@.len(),
            sv == subst_values(s@),
            out@ == bound_env(env@, sv.take(i as int)),
        decreases s@.len() - i,
    {
        assert(sv.take(i + 1).drop_last() =~= sv.take(i as int));
        out = bind(&out, s[i].0.as_str(), s[i].1.clone());
        i += 1;
    }
    assert(sv.take(s@.len() as int) =~= sv);
    out
}

/// The results of looking for an atom in a list: one for each element that is
/// equal to it or unifies with it.
pub open spec fn members(x: AtomV, items: Seq<AtomV>, env: EnvV) -> ResultV
    decreases items.len(),
{
    if items.len() == 0 {
        Seq::empty()
    } else {
        let before = members(x, items.drop_last(), env);
        if x == items.last() {
            before.push((truth(true), env))
        } else {
            match unifier(x, items.last()) {
                Some(s) => before.push((truth(true), bound_env(env, s))),
                None => before,
            }
        }
    }
}

/// Look for an atom in a list.
fn find_members(x: &Atom, items: &Vec<Atom>, env: &Env) -> (r: ResultSet)
    ensures
        results(r@) == members(x@, atoms(items@), env@),
{
    broadcast use {group_atoms, group_results};

    let ghost xs = atoms(items@);
    let mut out: ResultSet = Vec::new();
    let mut i: usize = 0;
    assert(results(out@) =~= members(x@, xs.take(0), env@));
    while i < items.len()
        invariant
            i <= items@.len(),
            xs == atoms(items@),
            results(out@) == members(x@, xs.take(i as int), env@),
        decreases items@.len() - i,
    {
        assert(xs.take(i + 1).drop_last() =~= xs.take(i as int));
        if atom_same(x, &items[i]) {
            out.push((bool_atom(true), env.clone()));
        } else {
            let found = unify(x, &items[i]);
            proof {
                let r1 = subst_value(found);
                let r2 = unifier(x@, xs[i as int]);
                unification_is_determined(x@, xs[i as int], Seq::empty(), r1, r2);
            }
            match found {
                Some(s) => {
                    out.push((bool_atom(true), bind_subst(env, &s)));
                },
                None => {},
            }
        }
        i += 1;
    }
    assert(xs.take(items@.len() as int) =~= xs);
    out
}

/// Whether a list of arguments ends in an unbound variable in place of a list.
pub open spec fn open_list(args: Seq<AtomV>, env: EnvV) -> bool {
    args[1] is Sym && is_var_name(args[1]->Sym_0) && env_get(env, args[1]->Sym_0) is None
}

/// The name of a list's unknown rest.
pub open spec fn rest_name(id: u64) -> Seq<char> {
    "$__fresh_tail_"@ + nat_digits(id as nat)
}

/// The result of looking for an atom in an unknown list: the list starts with
/// the atom.
pub open spec fn assumed_member(args: Seq<AtomV>, env: EnvV, id: u64) -> ResultV {
    seq![
        (
            truth(true),
            EnvV::Cons(
                args[1]->Sym_0,
                Box::new(AtomV::Expr(seq![args[0], symbol(rest_name(id))])),
                Box::new(env),
            ),
        ),
    ]
}

/// The value of a local variable in an environment.
pub open spec fn local_value(name: Seq<char>, env: EnvV) -> (AtomV, EnvV) {
    (
        match env_get(env, name) {
            Some(a) => a,
            None => symbol("()"@),
        },
        EnvV::Empty,
    )
}

/// The values of local variables in an environment.
pub open spec fn local_values(names: Seq<Seq<char>>, env: EnvV) -> ResultV {
    Seq::new(names.len(), |i: int| local_value(names[i], env))
}

/// Look up the values of local variables.
pub fn find_locals(names: &Vec<String>, env: &Env) -> (r: ResultSet)
    ensures
        results(r@) == local_values(texts(names@), env@),
{
    broadcast use group_results;

    let ghost want = local_values(texts(names@), env@);
    let mut out: ResultSet = Vec::new();
    let mut i: usize = 0;
    assert(results(out@) =~= want.take(0));
    while i < names.len()
        invariant
            i <= names@.len(),
            want == local_values(texts(names@), env@),
            results(out@) == want.take(i as int),
        decreases names@.len() - i,
    {
        let a = match lookup(env, names[i].as_str()) {
            Some(a) => a,
            None => Atom::sym("()"),
        };
        out.push((a, Env::new()));
        assert(want.take(i + 1) =~= want.take(i as int).push(want[i as int]));
        i += 1;
    }
    assert(want.take(names@.len() as int) =~= want);
    out
}

/// Whether an instruction has side effects of its own.
pub open spec fn is_effect(op: OpcodeV) -> bool {
    match op {
        OpcodeV::AddAtom(_, _) => true,
        OpcodeV::RemAtom(_, _) => true,
        OpcodeV::PythonImport(_) => true,
        OpcodeV::ImportDynamic => true,
        OpcodeV::Println => true,
        OpcodeV::Readln => true,
        OpcodeV::PyCall(_) => true,
        OpcodeV::PyEval(_) => true,
        OpcodeV::ImportFile(_) => true,
        OpcodeV::MapAtomLambda(_, _) => true,
        OpcodeV::FilterAtomLambda(_, _) => true,
        OpcodeV::MapAtomPatternLambda(_) => true,
        OpcodeV::FilterAtomPatternLambda(_) => true,
        _ => false,
    }
}

/// Whether code has side effects of its own.
pub open spec fn has_effect(code: Seq<OpcodeV>) -> bool {
    exists|i: int| 0 <= i < code.len() && is_effect(#[trigger] code[i])
}

/// Scan body code for instructions with side effects.
pub fn body_has_side_effect(code: &Vec<Opcode>) -> (r: bool)
    ensures
        r == has_effect(ops(code@)),
{
    broadcast use group_ops;

    let ghost cv = ops(code@);
    let mut i: usize = 0;
    while i < code.len()
        invariant
            i <= code@.len(),
            cv == ops(code@),
            forall|j: int| 0 <= j < i ==> !is_effect(#[trigger] cv[j]),
        decreases code@.len() - i,
    {
        let hit: bool = match &code[i] {
            Opcode::AddAtom { .. } => true,
            Opcode::RemAtom { .. } => true,
            Opcode::PythonImport(_) => true,
            Opcode::ImportDynamic => true,
            Opcode::Println => true,
            Opcode::Readln => true,
            Opcode::PyCall(_) => true,
            Opcode::PyEval(_) => true,
            Opcode::ImportFile(_) => true,
            Opcode::MapAtomLambda { .. } => true,
            Opcode::FilterAtomLambda { .. } => true,
            Opcode::MapAtomPatternLambda(_) => true,
            Opcode::FilterAtomPatternLambda(_) => true,
            _ => false,
        };
        if hit {
            assert(is_effect(cv[i as int]));
            return true;
        }
        i += 1;
    }
    false
}

/// The compiled body of a clause.
pub open spec fn clause_code(c: ClauseV, name: Seq<char>) -> Result<BlockV, Seq<char>> {
    match compiled(c.body, VMCompiler::initial(c.patterns, Some(name)), true) {
        Ok(x) => Ok(BlockV { code: x.0, free_vars: x.1 }),
        Err(m) => Err(m),
    }
}

/// The compiled bodies of clauses.
pub open spec fn clause_codes(cs: Seq<ClauseV>, name: Seq<char>) -> Result<
    Seq<BlockV>,
    Seq<char>,
>
    decreases cs.len(),
{
    if cs.len() == 0 {
        Ok(Seq::empty())
    } else {
        match clause_codes(cs.drop_last(), name) {
            Ok(before) => match clause_code(cs.last(), name) {
                Ok(b) => Ok(before.push(b)),
                Err(m) => Err(m),
            },
            Err(m) => Err(m),
        }
    }
}

/// Once a clause is wrong, all are.
proof fn lemma_codes_stop(cs: Seq<ClauseV>, name: Seq<char>, n: int)
    requires
        0 <= n <= cs.len(),
        clause_codes(cs.take(n), name) is Err,
    ensures
        clause_codes(cs, name) == clause_codes(cs.take(n), name),
    decreases cs.len() - n,
{
    if n == cs.len() {
        assert(cs.take(n) =~= cs);
    } else {
        assert(cs.take(n + 1).drop_last() =~= cs.take(n));
        lemma_codes_stop(cs, name, n + 1);
    }
}

/// The values of blocks.
pub open spec fn blocks(s: Seq<Block>) -> Seq<BlockV> {
    Seq::new(s.len(), |i: int| s[i]@)
}

/// Compile the body of a clause.
fn compile_clause(c: &Clause, name: &str) -> (r: Result<Block, String>)
    ensures
        (match r {
            Ok(b) => clause_code(c@, name@) == Ok::<BlockV, Seq<char>>(b@),
            Err(m) => clause_code(c@, name@) == Err::<BlockV, Seq<char>>(m@),
        }),
{
    let mut comp = VMCompiler::new(&c.patterns, Some(name.to_owned()));
    let mut code: Vec<Opcode> = Vec::new();
    assert(ops(code@) =~= Seq::<OpcodeV>::empty());
    match comp.compile(&c.body, &mut code, true) {
        Ok(_) => {
            let ghost x = compiled(c.body@, VMCompiler::initial(c@.patterns, Some(name@)), true);
            assert(Seq::<OpcodeV>::empty() + x->Ok_0.0 =~= x->Ok_0.0);
            let b = Block { code: Arc::new(code), free_vars: Arc::new(comp.free_vars) };
            assert(b@ == BlockV { code: x->Ok_0.0, free_vars: x->Ok_0.1 });
            Ok(b)
        },
        Err(m) => Err(m),
    }
}

/// Compile the bodies of clauses.
pub fn compile_clauses(cs: &Vec<Clause>, name: &str) -> (r: Result<Vec<Block>, String>)
    ensures
        (match r {
            Ok(b) => clause_codes(clauses(cs@), name@) == Ok::<Seq<BlockV>, Seq<char>>(blocks(b@)),
            Err(m) => clause_codes(clauses(cs@), name@) == Err::<Seq<BlockV>, Seq<char>>(m@),
        }),
{
    let ghost cv = clauses(cs@);
    let mut out: Vec<Block> = Vec::new();
    let mut i: usize = 0;
    assert(cv.take(0) =~= Seq::<ClauseV>::empty());
    assert(blocks(out@) =~= Seq::<BlockV>::empty());
    while i < cs.len()
        invariant
            i <= cs@.len(),
            cv == clauses(cs@),
            clause_codes(cv.take(i as int), name@) == Ok::<Seq<BlockV>, Seq<char>>(blocks(out@)),
        decreases cs@.len() - i,
    {
        assert(cv.take(i + 1).drop_last() =~= cv.take(i as int));
        match compile_clause(&cs[i], name) {
            Ok(b) => {
                let ghost before = blocks(out@);
                out.push(b);
                assert(blocks(out@) =~= before.push(b@));
            },
            Err(m) => {
                proof {
                    lemma_codes_stop(cv, name@, i + 1);
                }
                return Err(m);
            },
        }
        i += 1;
    }
    assert(cv.take(cs@.len() as int) =~= cv);
    Ok(out)
}

/// Pending calls, or the value that is missing.
pub type PendingsV = Result<Seq<PendingV>, (ExprV, EnvV)>;

/// The call of a clause that matches.
pub open spec fn clause_call(c: ClauseV, b: BlockV, e: EnvV, cost: i64) -> PendingV {
    PendingV {
        block: b,
        env: e,
        locals: local_values(all_noted(c.patterns, Seq::empty()), e),
        cost: (cost + capped(expr_cost(c.body) as int)) as u64,
        pure_body: !has_effect(b.code),
    }
}

/// The calls of the clauses that match.
pub open spec fn clause_calls(
    cs: Seq<ClauseV>,
    bs: Seq<BlockV>,
    args: Seq<AtomV>,
    env: EnvV,
    known: Seq<KnownV>,
) -> PendingsV
    decreases cs.len(),
{
    if cs.len() == 0 {
        Ok(Seq::empty())
    } else {
        match clause_calls(cs.drop_last(), bs, args, env, known) {
            Ok(before) => match clause_match(cs.last().patterns, args, env, known) {
                ClauseMatchV::Yes(e, cost) => Ok(
                    before.push(clause_call(cs.last(), bs[cs.len() - 1], e, cost)),
                ),
                ClauseMatchV::No => Ok(before),
                ClauseMatchV::Ask(x, e) => Err((x, e)),
            },
            Err(q) => Err(q),
        }
    }
}

/// Once a value is missing, it is missing for all.
proof fn lemma_calls_stop(
    cs: Seq<ClauseV>,
    bs: Seq<BlockV>,
    args: Seq<AtomV>,
    env: EnvV,
    known: Seq<KnownV>,
    n: int,
)
    requires
        0 <= n <= cs.len(),
        clause_calls(cs.take(n), bs, args, env, known) is Err,
    ensures
        clause_calls(cs, bs, args, env, known) == clause_calls(cs.take(n), bs, args, env, known),
    decreases cs.len() - n,
{
    if n == cs.len() {
        assert(cs.take(n) =~= cs);
    } else {
        assert(cs.take(n + 1).drop_last() =~= cs.take(n));
        lemma_calls_stop(cs, bs, args, env, known, n + 1);
    }
}

/// Make the call of a clause that matches.
fn make_call(c: &Clause, b: &Block, e: Env, cost: i64) -> (r: PendingCall)
    requires
        cost >= 0,
    ensures
        r@ == clause_call(c@, b@, e@, cost),
{
    let body_cost: i64 = calculate_expr_cost(&c.body);
    let total: u64 = cost as u64 + body_cost as u64;
    let comp = VMCompiler::new(&c.patterns, None);
    let locals = find_locals(&comp.locals, &e);
    let pure_body = !body_has_side_effect(&b.code);
    PendingCall { block: b.clone(), env: e, locals: Arc::new(locals), cost: total, pure_body }
}

/// The outcome of matching clauses.
pub enum ClauseCalls {
    /// The calls of the clauses that match.
    Calls(Vec<PendingCall>),
    /// The value of this expression in this environment is needed first.
    Ask(Expr, Env),
}

/// Match clauses against arguments.
pub fn match_clauses(
    cs: &Vec<Clause>,
    bs: &Vec<Block>,
    args: &Vec<Atom>,
    env: &Env,
    known: &Vec<PatternValue>,
) -> (r: ClauseCalls)
    requires
        cs@.len() == bs@.len(),
    ensures
        (match r {
            ClauseCalls::Calls(v) => clause_calls(
                clauses(cs@),
                blocks(bs@),
                atoms(args@),
                env@,
                known_values(known@),
            ) == Ok::<Seq<PendingV>, (ExprV, EnvV)>(pendings(v@)),
            ClauseCalls::Ask(x, e) => clause_calls(
                clauses(cs@),
                blocks(bs@),
                atoms(args@),
                env@,
                known_values(known@),
            ) == Err::<Seq<PendingV>, (ExprV, EnvV)>((x@, e@)),
        }),
{
    let ghost cv = clauses(cs@);
    let ghost bv = blocks(bs@);
    let ghost av = atoms(args@);
    let ghost kn = known_values(known@);
    let mut out: Vec<PendingCall> = Vec::new();
    let mut i: usize = 0;
    assert(cv.take(0) =~= Seq::<ClauseV>::empty());
    assert(pendings(out@) =~= Seq::<PendingV>::empty());
    while i < cs.len()
        invariant
            i <= cs@.len(),
            cs@.len() == bs@.len(),
            cv == clauses(cs@),
            bv == blocks(bs@),
            av == atoms(args@),
            kn == known_values(known@),
            clause_calls(cv.take(i as int), bv, av, env@, kn) == Ok::<
                Seq<PendingV>,
                (ExprV, EnvV),
            >(pendings(out@)),
        decreases cs@.len() - i,
    {
        assert(cv.take(i + 1).drop_last() =~= cv.take(i as int));
        assert(cv.take(i + 1).last() == cs@[i as int]@);
        match match_clause(&cs[i].patterns, args, env, known) {
            ClauseMatch::Yes(e, cost) => {
                let ghost before = pendings(out@);
                proof {
                    assert(cost >= 0);
                }
                let p = make_call(&cs[i], &bs[i], e, cost);
                out.push(p);
                assert(pendings(out@) =~= before.push(p@));
            },
            ClauseMatch::No => {},
            ClauseMatch::Ask(x, e) => {
                proof {
                    lemma_calls_stop(cv, bv, av, env@, kn, i + 1);
                }
                return ClauseCalls::Ask(x, e);
            },
        }
        i += 1;
    }
    assert(cv.take(cs@.len() as int) =~= cv);
    ClauseCalls::Calls(out)
}

/// Atoms with the bindings of an environment applied.
pub open spec fn all_filled(s: Seq<AtomV>, env: EnvV) -> Seq<AtomV> {
    Seq::new(s.len(), |i: int| substituted(s[i], env))
}

/// An application that stays as it is: a list of head and arguments.
pub open spec fn as_data(head: AtomV, args: Seq<AtomV>, env: EnvV) -> DispatchV {
    DispatchV::Results(seq![(AtomV::Expr(all_filled(seq![head] + args, env)), env)])
}

/// Put head and arguments into a list.
fn make_data(head: Atom, args: &Vec<Atom>, env: &Env) -> (r: Dispatch)
    ensures
        r@ == as_data(head@, atoms(args@), env@),
{
    broadcast use {group_atoms, group_results};

    let ghost want = all_filled(seq![head@] + atoms(args@), env@);
    let mut v: Vec<Atom> = Vec::new();
    v.push(subst_atom(&head, env));
    let mut i: usize = 0;
    assert(atoms(v@) =~= want.take(1));
    while i < args.len()
        invariant
            i <= args@.len(),
            want == all_filled(seq![head@] + atoms(args@), env@),
            atoms(v@) == want.take(i + 1),
        decreases args@.len() - i,
    {
        v.push(subst_atom(&args[i], env));
        assert(want[i + 1] == substituted(atoms(args@)[i as int], env@));
        assert(want.take(i + 2) =~= want.take(i + 1).push(want[i + 1]));
        i += 1;
    }
    assert(want.take(args@.len() as int + 1) =~= want);
    let mut rs: ResultSet = Vec::new();
    rs.push((Atom::expr(v), env.clone()));
    assert(results(rs@) =~= seq![(AtomV::Expr(want), env@)]);
    Dispatch::Results(rs)
}

/// A function with some of its arguments.
pub open spec fn partially(head: AtomV, args: Seq<AtomV>, env: EnvV) -> DispatchV {
    DispatchV::Results(
        seq![(AtomV::Expr(seq![symbol("partial"@), head, AtomV::Expr(args)]), env)],
    )
}

/// Put a function and some of its arguments together.
fn make_partial(head: &Atom, args: &Vec<Atom>, env: &Env) -> (r: Dispatch)
    ensures
        r@ == partially(head@, atoms(args@), env@),
{
    broadcast use group_results;

    let given = copy_atoms(args, 0);
    assert(args@.skip(0) =~= args@);
    let mut v: Vec<Atom> = Vec::new();
    v.push(Atom::sym("partial"));
    v.push(head.clone());
    v.push(Atom::expr(given));
    assert(atoms(v@) =~= seq![symbol("partial"@), head@, AtomV::Expr(atoms(args@))]);
    let mut rs: ResultSet = Vec::new();
    rs.push((Atom::expr(v), env.clone()));
    assert(results(rs@) =~= seq![
        (AtomV::Expr(seq![symbol("partial"@), head@, AtomV::Expr(atoms(args@))]), env@),
    ]);
    Dispatch::Results(rs)
}

/// Values in one environment as results.
pub open spec fn in_env(s: Seq<AtomV>, env: EnvV) -> ResultV {
    Seq::new(s.len(), |i: int| (s[i], env))
}

/// Give values an environment.
pub fn with_env(list: &Vec<Atom>, env: &Env) -> (r: ResultSet)
    ensures
        results(r@) == in_env(atoms(list@), env@),
{
    broadcast use {group_atoms, group_results};

    let ghost want = in_env(atoms(list@), env@);
    let mut out: ResultSet = Vec::new();
    let mut i: usize = 0;
    assert(results(out@) =~= want.take(0));
    while i < list.len()
        invariant
            i <= list@.len(),
            want == in_env(atoms(list@), env@),
            results(out@) == want.take(i as int),
        decreases list@.len() - i,
    {
        out.push((list[i].clone(), env.clone()));
        assert(want.take(i + 1) =~= want.take(i as int).push(want[i as int]));
        i += 1;
    }
    assert(want.take(list@.len() as int) =~= want);
    out
}

/// Applying a symbol that names no built-in function.
pub open spec fn user_dispatched(
    name: Seq<char>,
    args: Seq<AtomV>,
    arity: u8,
    env: EnvV,
    t: TableV,
    known: Seq<KnownV>,
) -> DispatchV {
    let pure_fn = t.pure_fns.contains((name, arity));
    if pure_fn && remembered(t.memo, name, args) is Some {
        DispatchV::Results(in_env(remembered(t.memo, name, args)->Some_0, env))
    } else {
        let none = if t.takes_more(name, arity as int) {
            partially(AtomV::Sym(name), args, env)
        } else if t.clauses_of(name, arity) is Some {
            DispatchV::Results(Seq::empty())
        } else {
            as_data(symbol(name), args, env)
        };
        match t.clauses_of(name, arity) {
            None => none,
            Some(cs) => match clause_codes(cs, name) {
                Err(m) => DispatchV::Fail(m),
                Ok(bs) => match clause_calls(cs, bs, args, env, known) {
                    Err(q) => DispatchV::Ask(q.0, q.1),
                    Ok(p) => if p.len() > 0 {
                        DispatchV::Pending(
                            p,
                            if pure_fn {
                                Some((name, args))
                            } else {
                                None
                            },
                        )
                    } else {
                        none
                    },
                },
            },
        }
    }
}

/// Apply a symbol that names no built-in function.
fn dispatch_user(
    name: &str,
    args: &Vec<Atom>,
    arity: u8,
    env: &Env,
    table: &FnTable,
    known: &Vec<PatternValue>,
) -> (r: Dispatch)
    ensures
        r@ == user_dispatched(
            name@,
            atoms(args@),
            arity,
            env@,
            table@,
            known_values(known@),
        ),
{
    broadcast use group_atoms;

    let pure_fn = table.is_pure_fn(name, arity);
    if pure_fn {
        match table.memo_get(name, args) {
            Some(v) => {
                return Dispatch::Results(with_env(&v, env));
            },
            None => {},
        }
    }
    let has_clauses: bool = match table.clauses_of(name, arity) {
        Some(list) => {
            let cs = copy_clauses(list);
            match compile_clauses(&cs, name) {
                Ok(bs) => {
                    proof {
                        lemma_codes_len(clauses(cs@), name@);
                    }
                    match match_clauses(&cs, &bs, args, env, known) {
                        ClauseCalls::Calls(p) => {
                            assert(pendings(p@).len() == p@.len());
                            if p.len() > 0 {
                                let memo = if pure_fn {
                                    let copy = copy_atoms(args, 0);
                                    assert(args@.skip(0) =~= args@);
                                    Some(MemoKey { name: name.to_owned(), args: copy })
                                } else {
                                    None
                                };
                                return Dispatch::Pending(p, memo);
                            }
                        },
                        ClauseCalls::Ask(x, e) => {
                            return Dispatch::Ask(x, e);
                        },
                    }
                },
                Err(m) => {
                    return Dispatch::Fail(m);
                },
            }
            true
        },
        None => false,
    };
    if table.has_higher_arity(name, arity as usize) {
        let head = Atom::Sym(name.to_owned());
        return make_partial(&head, args, env);
    }
    if has_clauses {
        let rs: ResultSet = Vec::new();
        assert(results(rs@) =~= Seq::empty());
        return Dispatch::Results(rs);
    }
    make_data(Atom::sym(name), args, env)
}

/// There are as many compiled bodies as clauses.
pub proof fn lemma_codes_len(cs: Seq<ClauseV>, name: Seq<char>)
    ensures
        clause_codes(cs, name) matches Ok(b) ==> b.len() == cs.len(),
    decreases cs.len(),
{
    if cs.len() > 0 {
        lemma_codes_len(cs.drop_last(), name);
    }
}

/// Applying an anonymous function.
pub open spec fn closure_dispatched(
    head: AtomV,
    args: Seq<AtomV>,
    arity: u8,
    env: EnvV,
    t: TableV,
    known: Seq<KnownV>,
) -> (DispatchV, TableV) {
    let params = head->Closure_0;
    let body = head->Closure_1;
    match clause_match(params, args, env, known) {
        ClauseMatchV::Ask(x, e) => (DispatchV::Ask(x, e), t),
        ClauseMatchV::Yes(e, _) => {
            let renamed = renamed_apart(body, params, t.renames);
            let after = TableV { renames: renamed.1, ..t };
            match compiled(renamed.0, VMCompiler::initial(params, None), false) {
                Err(m) => (DispatchV::Fail(m), after),
                Ok(x) => (
                    DispatchV::Pending(
                        seq![
                            PendingV {
                                block: BlockV { code: x.0, free_vars: x.1 },
                                env: e,
                                locals: local_values(all_noted(params, Seq::empty()), e),
                                cost: 0,
                                pure_body: !has_effect(x.0),
                            },
                        ],
                        None,
                    ),
                    after,
                ),
            }
        },
        ClauseMatchV::No => (
            if arity < params.len() {
                partially(head, args, env)
            } else {
                as_data(head, args, env)
            },
            t,
        ),
    }
}

/// Apply an anonymous function.
fn dispatch_closure(
    head: &Atom,
    args: &Vec<Atom>,
    arity: u8,
    env: &Env,
    table: &mut FnTable,
    known: &Vec<PatternValue>,
) -> (r: Dispatch)
    requires
        head is Closure,
    ensures
        (r@, final(table)@) == closure_dispatched(
            head@,
            atoms(args@),
            arity,
            env@,
            old(table)@,
            known_values(known@),
        ),
{
    broadcast use {group_exprs, group_atoms};

    match head {
        Atom::Closure(c) => {
            let ghost params = exprs(c.params@);
            assert(head@->Closure_0 == params);
            assert(params.len() == c.params@.len());
            match match_clause(&c.params, args, env, known) {
                ClauseMatch::Ask(x, e) => Dispatch::Ask(x, e),
                ClauseMatch::Yes(e, _) => {
                    let mut n: u64 = table.rename_count();
                    let renamed = rename_apart_unbound_vars(&c.body, &c.params, &mut n);
                    table.set_rename_count(n);
                    let mut comp = VMCompiler::new(&c.params, None);
                    let ghost scope = comp.scope();
                    let mut code: Vec<Opcode> = Vec::new();
                    assert(ops(code@) =~= Seq::<OpcodeV>::empty());
                    match comp.compile(&renamed, &mut code, false) {
                        Ok(_) => {
                            let ghost x = compiled(renamed@, scope, false);
                            assert(Seq::<OpcodeV>::empty() + x->Ok_0.0 =~= x->Ok_0.0);
                            let locals = find_locals(&comp.locals, &e);
                            let pure_body = !body_has_side_effect(&code);
                            let block = Block {
                                code: Arc::new(code),
                                free_vars: Arc::new(comp.free_vars),
                            };
                            assert(block@ == BlockV { code: x->Ok_0.0, free_vars: x->Ok_0.1 });
                            let p = PendingCall {
                                block,
                                env: e,
                                locals: Arc::new(locals),
                                cost: 0,
                                pure_body,
                            };
                            let mut v: Vec<PendingCall> = Vec::new();
                            v.push(p);
                            assert(pendings(v@) =~= seq![p@]);
                            Dispatch::Pending(v, None)
                        },
                        Err(m) => Dispatch::Fail(m),
                    }
                },
                ClauseMatch::No => {
                    if (arity as usize) < c.params.len() {
                        make_partial(head, args, env)
                    } else {
                        make_data(head.clone(), args, env)
                    }
                },
            }
        },
        _ => make_data(head.clone(), args, env),
    }
}

/// Whether a list is a function with some of its arguments.
pub open spec fn is_partial(parts: Seq<AtomV>) -> bool {
    parts.len() == 3 && parts[0] == symbol("partial"@)
}

/// Applying a head to arguments, and the table that is left.
pub open spec fn dispatched(
    head: AtomV,
    args: Seq<AtomV>,
    arity: u8,
    env: EnvV,
    t: TableV,
    known: Seq<KnownV>,
) -> (DispatchV, TableV)
    decreases head,
{
    match head {
        AtomV::Sym(name) => if t.natives.contains_key((name, arity)) {
            if (name == "member"@ || name == "is-member"@) && arity == 2 && args.len() >= 2 {
                if open_list(args, env) {
                    (
                        DispatchV::Results(assumed_member(args, env, t.fresh)),
                        TableV { fresh: next_id(t.fresh), ..t },
                    )
                } else {
                    let found = members(args[0], items_of(args[1]), env);
                    if name == "is-member"@ && found.len() == 0 {
                        (DispatchV::Results(seq![(truth(false), env)]), t)
                    } else {
                        (DispatchV::Results(found), t)
                    }
                }
            } else {
                (DispatchV::Native(t.natives[(name, arity)], name, args), t)
            }
        } else {
            (user_dispatched(name, args, arity, env, t, known), t)
        },
        AtomV::Closure(_, _, _) => closure_dispatched(head, args, arity, env, t, known),
        AtomV::Expr(parts) => if is_partial(parts) {
            let all = items_of(parts[2]) + args;
            dispatched(parts[1], all, all.len() as u8, env, t, known)
        } else {
            (as_data(head, args, env), t)
        },
        _ => (as_data(head, args, env), t),
    }
}

/// Assume that an unknown list starts with an atom.
fn assume_member(args: &Vec<Atom>, env: &Env, id: u64) -> (r: ResultSet)
    requires
        args@.len() >= 2,
        atoms(args@)[1] is Sym,
    ensures
        results(r@) == assumed_member(atoms(args@), env@, id),
{
    broadcast use {group_atoms, group_results};

    let digits = u64_text(id);
    let rest = joined("$__fresh_tail_", digits.as_str());
    let mut v: Vec<Atom> = Vec::new();
    v.push(args[0].clone());
    v.push(Atom::sym(rest.as_str()));
    assert(atoms(v@) =~= seq![atoms(args@)[0], symbol(rest_name(id))]);
    let mut rs: ResultSet = Vec::new();
    match &args[1] {
        Atom::Sym(s) => {
            rs.push((bool_atom(true), bind(env, s.as_str(), Atom::expr(v))));
        },
        _ => {},
    }
    assert(results(rs@) =~= assumed_member(atoms(args@), env@, id));
    rs
}

/// Apply a head to arguments.
///
/// Function calls and partial applications are resolved; built-in functions
/// are left to the caller.
pub fn dispatch_call(
    head: &Atom,
    args: &Vec<Atom>,
    arity: u8,
    env: &Env,
    table: &mut FnTable,
    known: &Vec<PatternValue>,
) -> (r: Dispatch)
    ensures
        (r@, final(table)@) == dispatched(
            head@,
            atoms(args@),
            arity,
            env@,
            old(table)@,
            known_values(known@),
        ),
    decreases head,
{
    broadcast use {group_atoms, group_results};

    match head {
        Atom::Sym(name) => match table.get(name.as_str(), arity) {
            Some(b) => {
                let is_member = same(name.as_str(), "is-member");
                assert(atoms(args@).len() == args@.len());
                if (same(name.as_str(), "member") || is_member) && arity == 2 && args.len() >= 2 {
                    let is_open = match &args[1] {
                        Atom::Sym(s) => is_var(s.as_str()) && (match lookup(env, s.as_str()) {
                            Some(_) => false,
                            None => true,
                        }),
                        _ => false,
                    };
                    assert(is_open == open_list(atoms(args@), env@));
                    if is_open {
                        let id: u64 = table.next_fresh_id();
                        return Dispatch::Results(assume_member(args, env, id));
                    }
                    let items = list_items(&args[1]);
                    let found = find_members(&args[0], &items, env);
                    assert(results(found@).len() == found@.len());
                    if is_member && found.len() == 0 {
                        let mut rs: ResultSet = Vec::new();
                        rs.push((bool_atom(false), env.clone()));
                        assert(results(rs@) =~= seq![(truth(false), env@)]);
                        return Dispatch::Results(rs);
                    }
                    return Dispatch::Results(found);
                }
                let copy = copy_atoms(args, 0);
                assert(args@.skip(0) =~= args@);
                Dispatch::Native(b, name.clone(), copy)
            },
            None => dispatch_user(name.as_str(), args, arity, env, table, known),
        },
        Atom::Closure(_) => dispatch_closure(head, args, arity, env, table, known),
        Atom::Expr(parts) => {
            assert(atoms(parts@).len() == parts@.len());
            let marker = Atom::sym("partial");
            if parts.len() == 3 && atom_same(&parts[0], &marker) {
                assert(decreases_to!(head => head->Expr_0@[1]));
                assert(atoms(parts@)[1] == parts@[1]@ && atoms(parts@)[2] == parts@[2]@);
                let mut all = list_items(&parts[2]);
                let ghost before = atoms(all@);
                let mut more = copy_atoms(args, 0);
                assert(args@.skip(0) =~= args@);
                let ghost a = all@;
                all.append(&mut more);
                assert(atoms(all@) =~= before + atoms(args@));
                assert(atoms(all@).len() == all@.len());
                let n: u8 = all.len() as u8;
                dispatch_call(&parts[1], &all, n, env, table, known)
            } else {
                make_data(head.clone(), args, env)
            }
        },
        _ => make_data(head.clone(), args, env),
    }
}

} // verus!
