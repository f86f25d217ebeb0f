//! Steps of the bytecode machine.
//!
//! The machine never calls itself: where an instruction needs another run, the
//! step hands out what is to be run, and the machine waits for the results.
use crate::eval::machine::budget::ResultSet;
use crate::eval::machine::budget::ResultV;
use crate::eval::machine::budget::plain_results;
use crate::eval::machine::budget::results;
use crate::eval::machine::budget::single;
use crate::eval::machine::vm::bodies;
use crate::eval::machine::vm::bodies::body_launched;
use crate::eval::machine::vm::bodies::launch_body;
use crate::eval::machine::vm::bodies::wait_for;
use crate::eval::machine::vm::bodies::waiting;
use crate::eval::machine::vm::calling;
use crate::eval::machine::vm::frames;
use crate::eval::machine::vm::iterate::drain_turn;
use crate::eval::machine::vm::iterate::run_next_drain;
use crate::eval::machine::vm::iterate::run_next_turn;
use crate::eval::machine::vm::iterate::turn;
use crate::eval::machine::vm::op::Opcode;
use crate::eval::machine::vm::op::OpcodeV;
use crate::eval::machine::vm::op::group_ops;
use crate::eval::machine::vm::outcome::HostCall;
use crate::eval::machine::vm::outcome::HostV;
use crate::eval::machine::vm::outcome::StepV;
use crate::eval::machine::vm::outcome::VmOut;
use crate::eval::machine::vm::outcome::VmOutV;
use crate::eval::machine::vm::plain;
use crate::eval::machine::vm::plain::agrees;
use crate::eval::machine::vm::plain::failure;
use crate::eval::machine::vm::plain::going;
use crate::eval::machine::vm::plain::moved;
use crate::eval::machine::vm::plain::pushed;
use crate::eval::machine::vm::resume::out_of_step;
use crate::eval::machine::vm::resume::take_wait;
use crate::eval::machine::vm::search;
use crate::eval::machine::vm::search::Unifying;
use crate::eval::machine::vm::state::CallFrameKind;
use crate::eval::machine::vm::state::VMState;
use crate::eval::machine::vm::state::VmV;
use crate::eval::machine::vm::state::Wait;
use crate::eval::machine::vm::state::WaitV;
use crate::func::FnTable;
use crate::func::TableV;
use vstd::prelude::*;
use vstd::string::*;

verus! {

/// What an instruction does.
pub open spec fn instruction(s: VmV, t: TableV, op: OpcodeV) -> StepV {
    match op {
        OpcodeV::Const(a) => going(pushed(s, plain_results(seq![a])), t),
        OpcodeV::ConstQuote(a, vars) => going(
            pushed(s, plain_results(seq![plain::quote_filled(a, vars, s.locals, s.bindings)])),
            t,
        ),
        OpcodeV::Load(i) => plain::local_loaded(s, t, i),
        OpcodeV::Store(i) => plain::stored(s, t, i),
        OpcodeV::LoadFree(i) => plain::free_loaded(s, t, i),
        OpcodeV::Pop => plain::dropped(s, t),
        OpcodeV::Jump(target) => going(plain::jumped(s, target), t),
        OpcodeV::JumpIfEmpty(target) => plain::jumped_if_empty(s, t, target),
        OpcodeV::JumpIfFalsy(target) => plain::jumped_if_falsy(s, t, target),
        OpcodeV::Call(n) => calling::call_started(s, t, n),
        OpcodeV::TailCallSelf => frames::self_called(s, t),
        OpcodeV::UnifyPattern(p, start) => plain::pattern_unified(s, t, p, start),
        OpcodeV::PopLocals(n) => going(
            moved(VmV { locals: plain::locals_popped(s.locals, n as int), ..s }),
            t,
        ),
        OpcodeV::AddAtom(e, names) => plain::atom_added(s, t, e, names),
        OpcodeV::RemAtom(e, names) => plain::atom_removed(s, t, e, names),
        OpcodeV::DebitBudget(cost) => plain::debited(s, t, cost),
        OpcodeV::Collapse => plain::collapsed(s, t),
        OpcodeV::Superpose(n) => plain::superposed(s, t, n),
        OpcodeV::SuperposeUnpack => plain::unpacked(s, t),
        OpcodeV::Eval => frames::eval_opened(s, t),
        OpcodeV::Lambda(params, body, names) => plain::lambda_made(s, t, params, body, names),
        OpcodeV::Unify {
            pattern_a,
            pattern_b,
            then_code,
            else_code,
            pattern_vars,
            local_names,
            free_vars,
        } => search::unify_started(s, t, pattern_b, pattern_vars, local_names, free_vars),
        OpcodeV::ConstEmpty => going(pushed(s, Seq::empty()), t),
        OpcodeV::Cut => plain::cut_off(s, t),
        OpcodeV::Println => plain::printed(s, t),
        OpcodeV::Readln => calling::host_asked(s, t, HostV::Readln),
        OpcodeV::Let(p) => frames::let_opened(s, t, p),
        OpcodeV::If(yes, no, free) => frames::if_opened(s, t, yes, no, free),
        OpcodeV::Case(bs) => frames::case_opened(s, t, bs),
        OpcodeV::Match(p, names) => search::match_started(s, t, p, names),
        OpcodeV::Foldall => bodies::foldall_started(s, t),
        OpcodeV::Forall => bodies::forall_started(s, t),
        OpcodeV::Foldl => bodies::foldl_started(s, t),
        OpcodeV::FoldlLambda(_, _) => bodies::fold_started(s, t),
        OpcodeV::MapAtomLambda(_, _) => bodies::map_started(
            s,
            t,
            "VM stack underflow on MapAtomLambda"@,
            "map-atom: list arg produced no result"@,
            |items: Seq<crate::atom::AtomV>| WaitV::MapLambda(items, 0, Seq::empty()),
        ),
        OpcodeV::FilterAtomLambda(_, _) => bodies::map_started(
            s,
            t,
            "VM stack underflow on FilterAtomLambda"@,
            "filter-atom: list arg produced no result"@,
            |items: Seq<crate::atom::AtomV>| WaitV::FilterLambda(items, 0, Seq::empty()),
        ),
        OpcodeV::Once(b) => body_launched(s, t, WaitV::Once, b),
        OpcodeV::Progn(_, _) => going(waiting(s, WaitV::Progn(0, Seq::empty())), t),
        OpcodeV::Prog1(_, _) => going(waiting(s, WaitV::Prog1(0, Seq::empty())), t),
        OpcodeV::Chain(_, _) => going(waiting(s, WaitV::Chain(0)), t),
        OpcodeV::Within(b) => body_launched(s, t, WaitV::Within, b),
        OpcodeV::WithMutex(b) => bodies::mutex_entered(s, t, b),
        OpcodeV::Transaction(b) => bodies::transaction_started(s, t, b),
        OpcodeV::ImportFile(path) => calling::file_imported(s, t, path),
        OpcodeV::PythonImport(path) => calling::python_imported(s, t, path),
        OpcodeV::PyCall(e) => calling::host_asked(s, t, HostV::PyCall(e, s.env)),
        OpcodeV::PyEval(e) => calling::host_asked(s, t, HostV::PyEval(e, s.env)),
        OpcodeV::ImportDynamic => calling::dynamic_imported(s, t),
        OpcodeV::Test => plain::tested(s, t),
        OpcodeV::MapAtomPatternLambda(_) => bodies::map_started(
            s,
            t,
            "VM stack underflow on MapAtomPatternLambda"@,
            "map-atom: list arg produced no result"@,
            |items: Seq<crate::atom::AtomV>| WaitV::MapPattern(items, 0, Seq::empty()),
        ),
        OpcodeV::FilterAtomPatternLambda(_) => bodies::map_started(
            s,
            t,
            "VM stack underflow on FilterAtomPatternLambda"@,
            "filter-atom: list arg produced no result"@,
            |items: Seq<crate::atom::AtomV>| WaitV::FilterPattern(items, 0, Seq::empty()),
        ),
        OpcodeV::EvalCEK(e, names) => (
            VmOutV::Fallback(e, plain::with_locals(names, s.locals, s.env), s.budget),
            waiting(s, WaitV::Push),
            t,
        ),
    }
}

/// The next turn of an instruction with several bodies.
pub open spec fn body_turn(s: VmV, t: TableV, op: OpcodeV) -> StepV {
    match s.wait {
        WaitV::Calls(c) => calling::calls_turn(s, t, c),
        WaitV::Loops(ls, c) => if c.next >= c.combos.len() {
            out_of_step(s, t)
        } else {
            calling::loops_turn(s, t, ls, c)
        },
        WaitV::Progn(n, last) => match op {
            OpcodeV::Progn(bs, free) => bodies::progn_turn(s, t, bs, free, n, last),
            _ => out_of_step(s, t),
        },
        WaitV::Prog1(n, first) => match op {
            OpcodeV::Prog1(bs, free) => bodies::prog1_turn(s, t, bs, free, n, first),
            _ => out_of_step(s, t),
        },
        WaitV::Chain(n) => match op {
            OpcodeV::Chain(steps, last) => bodies::chain_turn(s, t, steps, last, n),
            _ => out_of_step(s, t),
        },
        WaitV::Match(left, values, b, out) => match op {
            OpcodeV::Match(p, _) => search::match_turn(s, t, p.body, left, values, b, out),
            _ => out_of_step(s, t),
        },
        WaitV::Unify(rest, env, values, any, other, out) => match op {
            OpcodeV::Unify {
                pattern_a,
                pattern_b,
                then_code,
                else_code,
                pattern_vars,
                local_names,
                free_vars,
            } => search::unify_turn(
                s,
                t,
                pattern_a,
                then_code,
                else_code,
                pattern_vars,
                free_vars,
                rest,
                env,
                values,
                any,
                other,
                out,
            ),
            _ => out_of_step(s, t),
        },
        WaitV::FoldlLambda(acc, items, n) => match op {
            OpcodeV::FoldlLambda(names, b) => bodies::fold_turn(s, t, names, b, acc, items, n),
            _ => out_of_step(s, t),
        },
        WaitV::MapLambda(items, n, out) => match op {
            OpcodeV::MapAtomLambda(var, b) => bodies::map_turn(
                s,
                t,
                var,
                b,
                items,
                n,
                out,
                false,
            ),
            _ => out_of_step(s, t),
        },
        WaitV::FilterLambda(items, n, out) => match op {
            OpcodeV::FilterAtomLambda(var, b) => bodies::map_turn(
                s,
                t,
                var,
                b,
                items,
                n,
                out,
                true,
            ),
            _ => out_of_step(s, t),
        },
        WaitV::MapPattern(items, n, out) => match op {
            OpcodeV::MapAtomPatternLambda(p) => bodies::map_pattern_turn(
                s,
                t,
                p,
                items,
                n,
                out,
                false,
            ),
            _ => out_of_step(s, t),
        },
        WaitV::FilterPattern(items, n, out) => match op {
            OpcodeV::FilterAtomPatternLambda(p) => bodies::map_pattern_turn(
                s,
                t,
                p,
                items,
                n,
                out,
                true,
            ),
            _ => out_of_step(s, t),
        },
        WaitV::Foldall(head, env, acc, values, n) => bodies::foldall_turn(
            s,
            t,
            head,
            env,
            acc,
            values,
            n,
        ),
        WaitV::Forall(head, front, values, n) => bodies::forall_turn(
            s,
            t,
            head,
            front,
            values,
            n,
        ),
        WaitV::Foldl(head, acc, items, n) => bodies::foldl_turn(s, t, head, acc, items, n),
        _ => out_of_step(s, t),
    }
}

/// A step of the machine: the outcome, and the state and the table it leaves.
pub open spec fn stepped(s: VmV, t: TableV) -> StepV {
    match s.wait {
        WaitV::Ready => if s.ip < s.code.len() {
            instruction(s, t, s.code[s.ip as int])
        } else {
            frames::code_ended(s, t)
        },
        WaitV::Iterate => turn(s, t),
        WaitV::Drain(k, out) => if s.frames.len() > 0 && s.frames.last().kind is Call {
            drain_turn(
                s,
                t,
                k,
                out,
                s.frames.last().kind->Call_2,
                s.frames.last().kind->Call_3,
            )
        } else {
            out_of_step(s, t)
        },
        _ => if s.ip < s.code.len() {
            body_turn(s, t, s.code[s.ip as int])
        } else {
            out_of_step(s, t)
        },
    }
}

/// Do what an instruction of the first kind does: those that work on the stack
/// and the table alone.
#[verifier::rlimit(40)]
fn run_plain(st: &mut VMState, table: &mut FnTable, op: &Opcode) -> (r: VmOut)
    requires
        old(st).ip < usize::MAX,
        is_plain_op(op@),
    ensures
        agrees(
            (r@, final(st)@, final(table)@),
            instruction(old(st)@, old(table)@, op@),
        ),
{
    match op {
        Opcode::Const(a) => {
            plain::push(st, single(a.clone()));
            VmOut::Next
        },
        Opcode::ConstQuote { template, vars } => {
            let a = plain::fill_quote(template, vars, &st.locals, &st.bindings);
            plain::push(st, single(a));
            VmOut::Next
        },
        Opcode::Load(i) => plain::load_local(st, table, *i),
        Opcode::Store(i) => plain::store(st, table, *i),
        Opcode::LoadFree(i) => plain::load_free(st, table, *i),
        Opcode::Pop => plain::drop_top(st, table),
        Opcode::Jump(target) => {
            plain::jump(st, *target);
            VmOut::Next
        },
        Opcode::JumpIfEmpty(target) => plain::jump_if_empty(st, table, *target),
        Opcode::JumpIfFalsy(target) => plain::jump_if_falsy(st, table, *target),
        Opcode::UnifyPattern(p, start) => plain::unify_pattern(st, table, p, *start),
        Opcode::PopLocals(n) => {
            plain::pop_locals(&mut st.locals, *n as usize);
            plain::advance(st);
            VmOut::Next
        },
        Opcode::AddAtom { expr, local_names } => plain::add_to_space(st, table, expr, local_names),
        Opcode::RemAtom { expr, local_names } => plain::remove_from_space(
            st,
            table,
            expr,
            local_names,
        ),
        Opcode::DebitBudget(cost) => plain::debit(st, table, *cost),
        Opcode::Collapse => plain::collapse(st, table),
        Opcode::Superpose(n) => plain::superpose(st, table, *n),
        Opcode::SuperposeUnpack => plain::unpack(st, table),
        Opcode::Lambda { params, result, local_names } => plain::make_lambda(
            st,
            table,
            params,
            result,
            local_names,
        ),
        Opcode::ConstEmpty => {
            let none: ResultSet = Vec::new();
            assert(results(none@) =~= ResultV::empty());
            plain::push(st, none);
            VmOut::Next
        },
        Opcode::Cut => plain::cut(st, table),
        Opcode::Println => plain::print(st, table),
        Opcode::Test => plain::test(st, table),
        _ => VmOut::Next,
    }
}

/// Whether an instruction works on the stack and the table alone.
spec fn is_plain_op(op: OpcodeV) -> bool {
    match op {
        OpcodeV::Const(_) => true,
        OpcodeV::ConstQuote(_, _) => true,
        OpcodeV::Load(_) => true,
        OpcodeV::Store(_) => true,
        OpcodeV::LoadFree(_) => true,
        OpcodeV::Pop => true,
        OpcodeV::Jump(_) => true,
        OpcodeV::JumpIfEmpty(_) => true,
        OpcodeV::JumpIfFalsy(_) => true,
        OpcodeV::UnifyPattern(_, _) => true,
        OpcodeV::PopLocals(_) => true,
        OpcodeV::AddAtom(_, _) => true,
        OpcodeV::RemAtom(_, _) => true,
        OpcodeV::DebitBudget(_) => true,
        OpcodeV::Collapse => true,
        OpcodeV::Superpose(_) => true,
        OpcodeV::SuperposeUnpack => true,
        OpcodeV::Lambda(_, _, _) => true,
        OpcodeV::ConstEmpty => true,
        OpcodeV::Cut => true,
        OpcodeV::Println => true,
        OpcodeV::Test => true,
        _ => false,
    }
}

/// Do what an instruction does.
#[verifier::rlimit(40)]
fn run_op(st: &mut VMState, table: &mut FnTable, op: &Opcode) -> (r: VmOut)
    requires
        old(st).ip < usize::MAX,
    ensures
        agrees(
            (r@, final(st)@, final(table)@),
            instruction(old(st)@, old(table)@, op@),
        ),
{
    match op {
        Opcode::Call(n) => calling::start_call(st, table, *n),
        Opcode::TailCallSelf => frames::call_self(st, table),
        Opcode::Eval => frames::open_eval(st, table),
        Opcode::Unify {
            pattern_a,
            pattern_b,
            then_code,
            else_code,
            pattern_vars,
            local_names,
            free_vars,
        } => search::start_unify(st, table, pattern_b, pattern_vars, local_names, free_vars),
        Opcode::Readln => calling::ask_host(st, table, HostCall::Readln),
        Opcode::Let(p) => frames::open_let(st, table, p),
        Opcode::If { then_code, else_code, free_vars } => frames::open_if(
            st,
            table,
            then_code,
            else_code,
            free_vars,
        ),
        Opcode::Case(bs) => frames::open_case(st, table, bs),
        Opcode::Match { pattern, local_names } => search::start_match(
            st,
            table,
            pattern,
            local_names,
        ),
        Opcode::Foldall => bodies::start_foldall(st, table),
        Opcode::Forall => bodies::start_forall(st, table),
        Opcode::Foldl => bodies::start_foldl(st, table),
        Opcode::FoldlLambda { .. } => bodies::start_fold(st, table),
        Opcode::MapAtomLambda { .. } => bodies::start_map(st, table),
        Opcode::FilterAtomLambda { .. } => bodies::start_filter(st, table),
        Opcode::Once(b) => launch_body(st, table, Wait::Once, b.clone()),
        Opcode::Progn { .. } => {
            let none: ResultSet = Vec::new();
            assert(results(none@) =~= ResultV::empty());
            wait_for(st, Wait::Progn(0, none));
            VmOut::Next
        },
        Opcode::Prog1 { .. } => {
            let none: ResultSet = Vec::new();
            assert(results(none@) =~= ResultV::empty());
            wait_for(st, Wait::Prog1(0, none));
            VmOut::Next
        },
        Opcode::Chain { .. } => {
            wait_for(st, Wait::Chain(0));
            VmOut::Next
        },
        Opcode::Within(b) => launch_body(st, table, Wait::Within, b.clone()),
        Opcode::WithMutex(b) => bodies::enter_mutex(st, table, b.clone()),
        Opcode::Transaction(b) => bodies::start_transaction(st, table, b.clone()),
        Opcode::ImportFile(path) => calling::import_file(st, table, path),
        Opcode::PythonImport(path) => calling::import_python(st, table, path),
        Opcode::PyCall(e) => {
            let env = st.env.clone();
            calling::ask_host(st, table, HostCall::PyCall(e.clone(), env))
        },
        Opcode::PyEval(e) => {
            let env = st.env.clone();
            calling::ask_host(st, table, HostCall::PyEval(e.clone(), env))
        },
        Opcode::ImportDynamic => calling::import_dynamic(st, table),
        Opcode::MapAtomPatternLambda(_) => bodies::start_map_pattern(st, table),
        Opcode::FilterAtomPatternLambda(_) => bodies::start_filter_pattern(st, table),
        Opcode::EvalCEK { expr, local_names } => {
            let env = plain::bind_locals(local_names, &st.locals, &st.env);
            let budget: Option<i64> = st.budget;
            wait_for(st, Wait::Push);
            VmOut::Fallback(expr.clone(), env, budget)
        },
        _ => run_plain(st, table, op),
    }
}

/// Take the next turn of an instruction with several bodies.
#[verifier::rlimit(60)]
fn run_body_turn(st: &mut VMState, table: &mut FnTable) -> (r: VmOut)
    requires
        old(st).ip < old(st).code@.len(),
    ensures
        agrees(
            (r@, final(st)@, final(table)@),
            body_turn(old(st)@, old(table)@, old(st)@.code[old(st).ip as int]),
        ),
{
    broadcast use group_ops;

    let code = st.code.clone();
    let n_code: usize = code.len();
    let ip: usize = st.ip;
    assert(ip < n_code);
    let op = &code[ip];
    assert(st@.code[ip as int] == op@);
    match take_wait(st) {
        Wait::Calls(c) => calling::next_call(st, table, c),
        Wait::Loops(ls, c) => {
            let n: usize = c.combos.len();
            assert(c@.combos.len() == n);
            if c.next >= n {
                return failure("VM out of step");
            }
            calling::next_loops(st, table, ls, c)
        },
        Wait::Progn(n, last) => match op {
            Opcode::Progn { bodies: bs, free_vars } => bodies::next_body(
                st,
                table,
                bs,
                free_vars,
                n,
                last,
                false,
            ),
            _ => failure("VM out of step"),
        },
        Wait::Prog1(n, first) => match op {
            Opcode::Prog1 { bodies: bs, free_vars } => bodies::next_body(
                st,
                table,
                bs,
                free_vars,
                n,
                first,
                true,
            ),
            _ => failure("VM out of step"),
        },
        Wait::Chain(n) => match op {
            Opcode::Chain { steps, last } => bodies::next_chain(st, table, steps, last, n),
            _ => failure("VM out of step"),
        },
        Wait::Match(left, values, b, out) => match op {
            Opcode::Match { pattern, local_names } => search::next_match_body(
                st,
                table,
                &pattern.body,
                left,
                values,
                b,
                out,
            ),
            _ => failure("VM out of step"),
        },
        Wait::Unify(rest, env, values, any, other, out) => match op {
            Opcode::Unify {
                pattern_a,
                pattern_b,
                then_code,
                else_code,
                pattern_vars,
                local_names,
                free_vars,
            } => search::next_unify_body(
                st,
                table,
                pattern_a,
                then_code,
                else_code,
                pattern_vars,
                free_vars,
                Unifying { rest, env, values, any, other, out },
            ),
            _ => failure("VM out of step"),
        },
        Wait::FoldlLambda(acc, items, n) => match op {
            Opcode::FoldlLambda { var_names, body } => bodies::next_fold(
                st,
                table,
                var_names,
                body,
                acc,
                items,
                n,
            ),
            _ => failure("VM out of step"),
        },
        Wait::MapLambda(items, n, out) => match op {
            Opcode::MapAtomLambda { var_name, body } => bodies::next_map(
                st,
                table,
                var_name.as_str(),
                body,
                items,
                n,
                out,
                false,
            ),
            _ => failure("VM out of step"),
        },
        Wait::FilterLambda(items, n, out) => match op {
            Opcode::FilterAtomLambda { var_name, body } => bodies::next_map(
                st,
                table,
                var_name.as_str(),
                body,
                items,
                n,
                out,
                true,
            ),
            _ => failure("VM out of step"),
        },
        Wait::MapPattern(items, n, out) => match op {
            Opcode::MapAtomPatternLambda(p) => bodies::next_map_pattern(
                st,
                table,
                p,
                items,
                n,
                out,
                false,
            ),
            _ => failure("VM out of step"),
        },
        Wait::FilterPattern(items, n, out) => match op {
            Opcode::FilterAtomPatternLambda(p) => bodies::next_map_pattern(
                st,
                table,
                p,
                items,
                n,
                out,
                true,
            ),
            _ => failure("VM out of step"),
        },
        Wait::Foldall(head, env, acc, values, n) => bodies::next_foldall(
            st,
            table,
            head,
            env,
            acc,
            values,
            n,
        ),
        Wait::Forall(head, front, values, n) => bodies::next_forall(
            st,
            table,
            head,
            front,
            values,
            n,
        ),
        Wait::Foldl(head, acc, items, n) => bodies::next_foldl(st, table, head, acc, items, n),
        _ => failure("VM out of step"),
    }
}

/// Take a step of the machine.
pub fn step(st: &mut VMState, table: &mut FnTable) -> (r: VmOut)
    ensures
        agrees((r@, final(st)@, final(table)@), stepped(old(st)@, old(table)@)),
{
    broadcast use group_ops;

    let ghost s0 = st@;
    let n_code: usize = st.code.len();
    match &st.wait {
        Wait::Ready => {
            if st.ip < n_code {
                let code = st.code.clone();
                let ip: usize = st.ip;
                run_op(st, table, &code[ip])
            } else {
                frames::end_code(st, table)
            }
        },
        Wait::Iterate => run_next_turn(st, table),
        Wait::Drain(_, _) => {
            let n: usize = st.frames.len();
            assert(crate::eval::machine::vm::state::frames(st.frames@).len() == n);
            if n == 0 {
                return failure("VM out of step");
            }
            assert(s0.frames.last() == st.frames@[n - 1]@);
            let is_call: bool = match &st.frames[n - 1].kind {
                CallFrameKind::Call { .. } => true,
                _ => false,
            };
            if !is_call {
                return failure("VM out of step");
            }
            match take_wait(st) {
                Wait::Drain(k, out) => run_next_drain(st, table, k, out),
                _ => VmOut::Next,
            }
        },
        _ => {
            if st.ip < n_code {
                run_body_turn(st, table)
            } else {
                failure("VM out of step")
            }
        },
    }
}

} // verus!
