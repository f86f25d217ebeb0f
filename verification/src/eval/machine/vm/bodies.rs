//! Instructions of the bytecode machine that run bodies.
//!
//! Such an instruction hands the state of another machine to the caller and
//! waits for its results. An instruction with several bodies takes a turn for
//! each of them.
use crate::atom::Atom;
use crate::atom::AtomV;
use crate::atom::atoms;
use crate::atom::group_atoms;
use crate::atom::sexpr;
use crate::atom::symbol;
use crate::builtins::collections::items_of;
use crate::builtins::collections::list_items;
use crate::compile::reify::atom_to_expr;
use crate::compile::reify::to_expr;
use crate::env::Env;
use crate::env::EnvV;
use crate::env::env_get;
use crate::eval::machine::budget::ResultSet;
use crate::eval::machine::budget::ResultV;
use crate::eval::machine::budget::atoms_of;
use crate::eval::machine::budget::copy_results;
use crate::eval::machine::budget::group_results;
use crate::eval::machine::budget::plain_results;
use crate::eval::machine::budget::result_atoms;
use crate::eval::machine::budget::results;
use crate::eval::machine::budget::single;
use crate::eval::machine::vm::call::find_locals;
use crate::eval::machine::vm::call::local_values;
use crate::eval::machine::vm::compiler::compiled;
use crate::eval::machine::vm::iterate::alone;
use crate::eval::machine::vm::iterate::compile_alone;
use crate::eval::machine::vm::iterate::join_results;
use crate::eval::machine::vm::op::Block;
use crate::eval::machine::vm::op::BlockV;
use crate::eval::machine::vm::op::ChainStep;
use crate::eval::machine::vm::op::Opcode;
use crate::eval::machine::vm::op::OpcodeV;
use crate::eval::machine::vm::op::PatternBody;
use crate::eval::machine::vm::op::PatternBodyV;
use crate::eval::machine::vm::op::bodies_view;
use crate::eval::machine::vm::op::ops;
use crate::eval::machine::vm::op::steps_view;
use crate::eval::machine::vm::outcome::StepV;
use crate::eval::machine::vm::outcome::VmOut;
use crate::eval::machine::vm::outcome::VmOutV;
use crate::eval::machine::vm::plain::agrees;
use crate::eval::machine::vm::plain::failing;
use crate::eval::machine::vm::plain::failure;
use crate::eval::machine::vm::plain::going;
use crate::eval::machine::vm::plain::pop;
use crate::eval::machine::vm::plain::popped;
use crate::eval::machine::vm::plain::push;
use crate::eval::machine::vm::plain::pushed;
use crate::eval::machine::vm::plain::top;
use crate::eval::machine::vm::state::VMState;
use crate::eval::machine::vm::state::VmV;
use crate::eval::machine::vm::state::Wait;
use crate::eval::machine::vm::state::WaitV;
use crate::eval::machine::vm::state::at_fresh;
use crate::eval::machine::vm::state::inherit;
use crate::eval::machine::vm::state::inherited;
use crate::eval::machine::vm::state::vm_start;
use crate::eval::shared::env::bind;
use crate::eval::shared::env::linked;
use crate::eval::shared::env::prepend_chain;
use crate::eval::shared::pattern::MatchV;
use crate::eval::shared::pattern::Matching;
use crate::eval::shared::pattern::known_values;
use crate::eval::shared::pattern::match_one;
use crate::eval::shared::pattern::optional_atom;
use crate::eval::shared::pattern::try_match_one;
use crate::eval::shared::subst::subst_atom;
use crate::eval::shared::subst::substituted;
use crate::expr::Expr;
use crate::expr::ExprV;
use crate::expr::exprs;
use crate::func::FnTable;
use crate::func::SnapshotV;
use crate::func::TableV;
use crate::text::optional_text;
use crate::text::texts;
use std::sync::Arc;
use vstd::prelude::*;
use vstd::string::*;

verus! {

/// The first value of results.
pub open spec fn first_value(r: ResultV) -> Option<AtomV> {
    if r.len() > 0 {
        Some(substituted(r[0].0, r[0].1))
    } else {
        None
    }
}

/// Take the first value of results.
pub fn take_first(rs: &ResultSet) -> (r: Option<Atom>)
    ensures
        optional_atom(r) == first_value(results(rs@)),
{
    assert(results(rs@).len() == rs@.len());
    if rs.len() > 0 {
        Some(subst_atom(&rs[0].0, &rs[0].1))
    } else {
        None
    }
}

/// The state that waits for something.
pub open spec fn waiting(s: VmV, w: WaitV) -> VmV {
    VmV { wait: w, known: Seq::empty(), ..s }
}

/// Wait for something.
pub fn wait_for(st: &mut VMState, w: Wait)
    ensures
        final(st)@ == waiting(old(st)@, w@),
        final(st).ip == old(st).ip,
{
    st.wait = w;
    st.known = Vec::new();
    assert(known_values(st.known@) =~= Seq::empty());
    assert(st@ =~= waiting(old(st)@, w@));
}

/// A machine that runs a body within another one.
pub open spec fn within(s: VmV, t: TableV, b: BlockV, locals: ResultV, env: EnvV) -> (VmV, TableV) {
    let values = inherited(b.free_vars, s.free_vars, s.bindings, t.fresh);
    (vm_start(b, locals, values.0, s.budget, env), at_fresh(t, values.1))
}

/// Running a body while the machine waits.
pub open spec fn launched(
    s: VmV,
    t: TableV,
    w: WaitV,
    b: BlockV,
    locals: ResultV,
    env: EnvV,
    mutex: Option<Seq<char>>,
) -> StepV {
    let sub = within(s, t, b, locals, env);
    (VmOutV::Sub(sub.0, mutex), waiting(s, w), sub.1)
}

/// Run a body while the machine waits.
fn launch(
    st: &mut VMState,
    table: &mut FnTable,
    w: Wait,
    block: Block,
    locals: ResultSet,
    env: Env,
    mutex: Option<String>,
) -> (r: VmOut)
    ensures
        (r@, final(st)@, final(table)@) == launched(
            old(st)@,
            old(table)@,
            w@,
            block@,
            results(locals@),
            env@,
            optional_text(mutex),
        ),
{
    let bindings = inherit(&block.free_vars, &st.free_vars, &st.bindings, table);
    let sub = VMState::start(block, locals, bindings, st.budget, env);
    wait_for(st, w);
    VmOut::Sub(sub, mutex)
}

/// Running a body with the local variables and the environment of the machine.
pub open spec fn body_launched(s: VmV, t: TableV, w: WaitV, b: BlockV) -> StepV {
    launched(s, t, w, b, s.locals, s.env, None)
}

/// Run a body with the local variables and the environment of the machine.
pub fn launch_body(st: &mut VMState, table: &mut FnTable, w: Wait, block: Block) -> (r: VmOut)
    ensures
        (r@, final(st)@, final(table)@) == body_launched(old(st)@, old(table)@, w@, block@),
{
    let locals = copy_results(&st.locals);
    let env = st.env.clone();
    launch(st, table, w, block, locals, env, None)
}

/// What a snapshot of a table holds.
pub open spec fn snapshot_of(t: TableV) -> SnapshotV {
    SnapshotV { fns: t.fns, spaces: t.spaces, state: t.state }
}

/// Starting a transaction.
pub open spec fn transaction_started(s: VmV, t: TableV, b: BlockV) -> StepV {
    body_launched(s, t, WaitV::Transaction(snapshot_of(t)), b)
}

/// Start a transaction.
pub fn start_transaction(st: &mut VMState, table: &mut FnTable, block: Block) -> (r: VmOut)
    ensures
        (r@, final(st)@, final(table)@) == transaction_started(old(st)@, old(table)@, block@),
{
    let snap = table.snapshot();
    assert(snap@ == snapshot_of(table@));
    launch_body(st, table, Wait::Transaction(snap), block)
}

/// Running a body while a named mutex is held.
pub open spec fn mutex_entered(s: VmV, t: TableV, b: BlockV) -> StepV {
    if s.stack.len() == 0 {
        failing(s, t, "VM stack underflow on WithMutex"@)
    } else {
        let name = match first_value(top(s, 0)) {
            Some(a) => sexpr(a),
            None => Seq::empty(),
        };
        launched(popped(s, 1), t, WaitV::WithMutex, b, s.locals, s.env, Some(name))
    }
}

/// Run a body while a named mutex is held.
pub fn enter_mutex(st: &mut VMState, table: &mut FnTable, block: Block) -> (r: VmOut)
    ensures
        agrees(
            (r@, final(st)@, final(table)@),
            mutex_entered(old(st)@, old(table)@, block@),
        ),
{
    match pop(st) {
        None => failure("VM stack underflow on WithMutex"),
        Some(rs) => {
            let name: String = match take_first(&rs) {
                Some(a) => a.to_sexpr_string(),
                None => {
                    proof {
                        reveal_strlit("");
                    }
                    assert(""@ =~= Seq::<char>::empty());
                    "".to_owned()
                },
            };
            let locals = copy_results(&st.locals);
            let env = st.env.clone();
            launch(st, table, Wait::WithMutex, block, locals, env, Some(name))
        },
    }
}

/// The next turn of bodies whose last result counts.
pub open spec fn progn_turn(
    s: VmV,
    t: TableV,
    bodies: Seq<Seq<OpcodeV>>,
    free: Seq<Seq<char>>,
    n: nat,
    last: ResultV,
) -> StepV {
    if n < bodies.len() && !s.cut {
        body_launched(
            s,
            t,
            WaitV::Progn(n + 1, last),
            BlockV { code: bodies[n as int], free_vars: free },
        )
    } else {
        going(pushed(s, last), t)
    }
}

/// The next turn of bodies whose first result counts.
pub open spec fn prog1_turn(
    s: VmV,
    t: TableV,
    bodies: Seq<Seq<OpcodeV>>,
    free: Seq<Seq<char>>,
    n: nat,
    first: ResultV,
) -> StepV {
    if n < bodies.len() && !s.cut {
        body_launched(
            s,
            t,
            WaitV::Prog1(n + 1, first),
            BlockV { code: bodies[n as int], free_vars: free },
        )
    } else {
        going(pushed(s, first), t)
    }
}

/// Take the next turn of bodies whose last or first result counts.
pub fn next_body(
    st: &mut VMState,
    table: &mut FnTable,
    bodies: &Vec<Arc<Vec<Opcode>>>,
    free: &Arc<Vec<String>>,
    n: usize,
    kept: ResultSet,
    keep_first: bool,
) -> (r: VmOut)
    requires
        old(st).ip < usize::MAX,
    ensures
        (r@, final(st)@, final(table)@) == (if keep_first {
            prog1_turn(
                old(st)@,
                old(table)@,
                bodies_view(bodies@),
                texts(free@),
                n as nat,
                results(kept@),
            )
        } else {
            progn_turn(
                old(st)@,
                old(table)@,
                bodies_view(bodies@),
                texts(free@),
                n as nat,
                results(kept@),
            )
        }),
{
    assert(bodies_view(bodies@).len() == bodies@.len());
    if n < bodies.len() && !st.cut_executed {
        let len: usize = bodies.len();
        assert(n < len);
        let block = Block { code: bodies[n].clone(), free_vars: free.clone() };
        assert(bodies_view(bodies@)[n as int] == ops(bodies@[n as int]@));
        assert(block@ == BlockV { code: ops(bodies@[n as int]@), free_vars: texts(free@) });
        if keep_first {
            launch_body(st, table, Wait::Prog1(n + 1, kept), block)
        } else {
            launch_body(st, table, Wait::Progn(n + 1, kept), block)
        }
    } else {
        push(st, kept);
        VmOut::Next
    }
}

/// The next turn of a chain: the next step, or the body after the last one.
pub open spec fn chain_turn(
    s: VmV,
    t: TableV,
    steps: Seq<(Seq<OpcodeV>, Seq<char>)>,
    last: BlockV,
    n: nat,
) -> StepV {
    if s.cut {
        going(pushed(s, Seq::empty()), t)
    } else if n < steps.len() {
        body_launched(
            s,
            t,
            WaitV::Chain(n + 1),
            BlockV { code: steps[n as int].0, free_vars: last.free_vars },
        )
    } else {
        body_launched(s, t, WaitV::ChainLast, last)
    }
}

/// Take the next turn of a chain.
pub fn next_chain(
    st: &mut VMState,
    table: &mut FnTable,
    steps: &Vec<ChainStep>,
    last: &Block,
    n: usize,
) -> (r: VmOut)
    requires
        old(st).ip < usize::MAX,
    ensures
        (r@, final(st)@, final(table)@) == chain_turn(
            old(st)@,
            old(table)@,
            steps_view(steps@),
            last@,
            n as nat,
        ),
{
    assert(steps_view(steps@).len() == steps@.len());
    if st.cut_executed {
        let none: ResultSet = Vec::new();
        assert(results(none@) =~= Seq::empty());
        push(st, none);
        return VmOut::Next;
    }
    let len: usize = steps.len();
    if n < len {
        let block = Block { code: steps[n].code.clone(), free_vars: last.free_vars.clone() };
        assert(steps_view(steps@)[n as int].0 == ops(steps@[n as int].code@));
        assert(last@.free_vars == texts(last.free_vars@));
        assert(block@ == BlockV {
            code: ops(steps@[n as int].code@),
            free_vars: texts(last.free_vars@),
        });
        return launch_body(st, table, Wait::Chain(n + 1), block);
    }
    launch_body(st, table, Wait::ChainLast, last.clone())
}

/// The elements of the list on the stack.
pub open spec fn list_arg(s: VmV, under: Seq<char>, missing: Seq<char>) -> Result<
    Seq<AtomV>,
    Seq<char>,
> {
    if s.stack.len() == 0 {
        Err(under)
    } else {
        match first_value(top(s, 0)) {
            Some(a) => Ok(items_of(a)),
            None => Err(missing),
        }
    }
}

/// Take the elements of the list on the stack.
pub fn take_list(st: &mut VMState, under: &str, missing: &str) -> (r: Result<Vec<Atom>, String>)
    ensures
        final(st).ip == old(st).ip,
        (match r {
            Ok(v) => list_arg(old(st)@, under@, missing@) == Ok::<Seq<AtomV>, Seq<char>>(
                atoms(v@),
            ) && final(st)@ == popped(old(st)@, 1),
            Err(m) => list_arg(old(st)@, under@, missing@) == Err::<Seq<AtomV>, Seq<char>>(m@),
        }),
{
    match pop(st) {
        None => Err(under.to_owned()),
        Some(rs) => match take_first(&rs) {
            Some(a) => Ok(list_items(&a)),
            None => Err(missing.to_owned()),
        },
    }
}

/// Starting to map or filter a list with a body.
pub open spec fn map_started(
    s: VmV,
    t: TableV,
    under: Seq<char>,
    missing: Seq<char>,
    w: spec_fn(Seq<AtomV>) -> WaitV,
) -> StepV {
    match list_arg(s, under, missing) {
        Err(m) => failing(s, t, m),
        Ok(items) => going(waiting(popped(s, 1), w(items)), t),
    }
}

/// Start to map a list with a body.
pub fn start_map(st: &mut VMState, table: &FnTable) -> (r: VmOut)
    ensures
        agrees(
            (r@, final(st)@, table@),
            map_started(
                old(st)@,
                table@,
                "VM stack underflow on MapAtomLambda"@,
                "map-atom: list arg produced no result"@,
                |items: Seq<AtomV>| WaitV::MapLambda(items, 0, Seq::empty()),
            ),
        ),
{
    match take_list(
        st,
        "VM stack underflow on MapAtomLambda",
        "map-atom: list arg produced no result",
    ) {
        Err(m) => VmOut::Fail(m),
        Ok(v) => {
            let out: Vec<Atom> = Vec::new();
            assert(atoms(out@) =~= Seq::<AtomV>::empty());
            wait_for(st, Wait::MapLambda(v, 0, out));
            VmOut::Next
        },
    }
}

/// Start to filter a list with a body.
pub fn start_filter(st: &mut VMState, table: &FnTable) -> (r: VmOut)
    ensures
        agrees(
            (r@, final(st)@, table@),
            map_started(
                old(st)@,
                table@,
                "VM stack underflow on FilterAtomLambda"@,
                "filter-atom: list arg produced no result"@,
                |items: Seq<AtomV>| WaitV::FilterLambda(items, 0, Seq::empty()),
            ),
        ),
{
    match take_list(
        st,
        "VM stack underflow on FilterAtomLambda",
        "filter-atom: list arg produced no result",
    ) {
        Err(m) => VmOut::Fail(m),
        Ok(v) => {
            let out: Vec<Atom> = Vec::new();
            assert(atoms(out@) =~= Seq::<AtomV>::empty());
            wait_for(st, Wait::FilterLambda(v, 0, out));
            VmOut::Next
        },
    }
}

/// Start to map the matching elements of a list with a body.
pub fn start_map_pattern(st: &mut VMState, table: &FnTable) -> (r: VmOut)
    ensures
        agrees(
            (r@, final(st)@, table@),
            map_started(
                old(st)@,
                table@,
                "VM stack underflow on MapAtomPatternLambda"@,
                "map-atom: list arg produced no result"@,
                |items: Seq<AtomV>| WaitV::MapPattern(items, 0, Seq::empty()),
            ),
        ),
{
    match take_list(
        st,
        "VM stack underflow on MapAtomPatternLambda",
        "map-atom: list arg produced no result",
    ) {
        Err(m) => VmOut::Fail(m),
        Ok(v) => {
            let out: Vec<Atom> = Vec::new();
            assert(atoms(out@) =~= Seq::<AtomV>::empty());
            wait_for(st, Wait::MapPattern(v, 0, out));
            VmOut::Next
        },
    }
}

/// Start to filter the matching elements of a list with a body.
pub fn start_filter_pattern(st: &mut VMState, table: &FnTable) -> (r: VmOut)
    ensures
        agrees(
            (r@, final(st)@, table@),
            map_started(
                old(st)@,
                table@,
                "VM stack underflow on FilterAtomPatternLambda"@,
                "filter-atom: list arg produced no result"@,
                |items: Seq<AtomV>| WaitV::FilterPattern(items, 0, Seq::empty()),
            ),
        ),
{
    match take_list(
        st,
        "VM stack underflow on FilterAtomPatternLambda",
        "filter-atom: list arg produced no result",
    ) {
        Err(m) => VmOut::Fail(m),
        Ok(v) => {
            let out: Vec<Atom> = Vec::new();
            assert(atoms(out@) =~= Seq::<AtomV>::empty());
            wait_for(st, Wait::FilterPattern(v, 0, out));
            VmOut::Next
        },
    }
}

/// The next turn of mapping or filtering a list with a body.
pub open spec fn map_turn(
    s: VmV,
    t: TableV,
    var: Seq<char>,
    body: BlockV,
    items: Seq<AtomV>,
    n: nat,
    out: Seq<AtomV>,
    filter: bool,
) -> StepV {
    if n < items.len() {
        let x = items[n as int];
        launched(
            s,
            t,
            if filter {
                WaitV::FilterLambda(items, n + 1, out)
            } else {
                WaitV::MapLambda(items, n + 1, out)
            },
            body,
            s.locals.push((x, EnvV::Empty)),
            EnvV::Cons(var, Box::new(x), Box::new(s.env)),
            None,
        )
    } else {
        going(pushed(s, plain_results(seq![AtomV::Expr(out)])), t)
    }
}

/// Take the next turn of mapping or filtering a list with a body.
pub fn next_map(
    st: &mut VMState,
    table: &mut FnTable,
    var: &str,
    body: &Block,
    items: Vec<Atom>,
    n: usize,
    out: Vec<Atom>,
    filter: bool,
) -> (r: VmOut)
    requires
        old(st).ip < usize::MAX,
    ensures
        (r@, final(st)@, final(table)@) == map_turn(
            old(st)@,
            old(table)@,
            var@,
            body@,
            atoms(items@),
            n as nat,
            atoms(out@),
            filter,
        ),
{
    broadcast use {group_atoms, group_results};

    assert(atoms(items@).len() == items@.len());
    if n < items.len() {
        let len: usize = items.len();
        assert(n < len);
        let x = items[n].clone();
        let mut locals = copy_results(&st.locals);
        locals.push((x.clone(), Env::new()));
        let env = st.env.extend(var, x);
        let w = if filter {
            Wait::FilterLambda(items, n + 1, out)
        } else {
            Wait::MapLambda(items, n + 1, out)
        };
        launch(st, table, w, body.clone(), locals, env, None)
    } else {
        push(st, single(Atom::expr(out)));
        VmOut::Next
    }
}

/// What the machine waits for while it maps or filters the elements that match
/// a pattern.
pub open spec fn pattern_wait(items: Seq<AtomV>, n: nat, out: Seq<AtomV>, filter: bool) -> WaitV {
    if filter {
        WaitV::FilterPattern(items, n, out)
    } else {
        WaitV::MapPattern(items, n, out)
    }
}

/// The next turn of mapping or filtering the elements that match a pattern.
pub open spec fn map_pattern_turn(
    s: VmV,
    t: TableV,
    p: PatternBodyV,
    items: Seq<AtomV>,
    n: nat,
    out: Seq<AtomV>,
    filter: bool,
) -> StepV {
    let w = pattern_wait(items, n + 1, out, filter);
    if n < items.len() && !s.cut {
        match match_one(p.pattern, items[n as int], s.env, s.known) {
            MatchV::Ask(x, e) => (VmOutV::Ask(x, e), s, t),
            MatchV::No => going(waiting(s, w), t),
            MatchV::Yes(e) => launched(
                s,
                t,
                w,
                p.body,
                s.locals + local_values(p.pattern_vars, e),
                e,
                None,
            ),
        }
    } else {
        going(pushed(s, plain_results(seq![AtomV::Expr(out)])), t)
    }
}

/// Take the next turn of mapping or filtering the elements that match a
/// pattern.
pub fn next_map_pattern(
    st: &mut VMState,
    table: &mut FnTable,
    p: &PatternBody,
    items: Vec<Atom>,
    n: usize,
    out: Vec<Atom>,
    filter: bool,
) -> (r: VmOut)
    requires
        old(st).ip < usize::MAX,
    ensures
        (r@, final(st)@, final(table)@) == map_pattern_turn(
            (VmV {
                wait: pattern_wait(atoms(items@), n as nat, atoms(out@), filter),
                ..old(st)@
            }),
            old(table)@,
            p@,
            atoms(items@),
            n as nat,
            atoms(out@),
            filter,
        ),
{
    broadcast use group_atoms;

    assert(atoms(items@).len() == items@.len());
    if n < items.len() && !st.cut_executed {
        let len: usize = items.len();
        assert(n < len);
        match try_match_one(&p.pattern, &items[n], &st.env, &st.known) {
            Matching::Ask(x, e) => {
                st.wait = if filter {
                    Wait::FilterPattern(items, n, out)
                } else {
                    Wait::MapPattern(items, n, out)
                };
                VmOut::Ask(x, e)
            },
            Matching::No => {
                let w = if filter {
                    Wait::FilterPattern(items, n + 1, out)
                } else {
                    Wait::MapPattern(items, n + 1, out)
                };
                wait_for(st, w);
                VmOut::Next
            },
            Matching::Yes(e) => {
                let w = if filter {
                    Wait::FilterPattern(items, n + 1, out)
                } else {
                    Wait::MapPattern(items, n + 1, out)
                };
                let more = find_locals(&p.pattern_vars, &e);
                let locals = join_results(copy_results(&st.locals), more);
                launch(st, table, w, p.body.clone(), locals, e, None)
            },
        }
    } else {
        push(st, single(Atom::expr(out)));
        VmOut::Next
    }
}

/// Starting to fold a list with a body.
pub open spec fn fold_started(s: VmV, t: TableV) -> StepV {
    if s.stack.len() == 0 {
        failing(s, t, "VM stack underflow on FoldlLambda acc"@)
    } else if s.stack.len() == 1 {
        failing(s, t, "VM stack underflow on FoldlLambda list"@)
    } else {
        match first_value(top(s, 0)) {
            None => failing(s, t, "foldl-atom: acc arg produced no result"@),
            Some(acc) => match first_value(top(s, 1)) {
                None => failing(s, t, "foldl-atom: list arg produced no result"@),
                Some(l) => going(
                    waiting(popped(s, 2), WaitV::FoldlLambda(acc, items_of(l), 0)),
                    t,
                ),
            },
        }
    }
}

/// Start to fold a list with a body.
pub fn start_fold(st: &mut VMState, table: &FnTable) -> (r: VmOut)
    ensures
        agrees((r@, final(st)@, table@), fold_started(old(st)@, table@)),
{
    let ghost s0 = st@;
    match pop(st) {
        None => failure("VM stack underflow on FoldlLambda acc"),
        Some(acc_rs) => match pop(st) {
            None => failure("VM stack underflow on FoldlLambda list"),
            Some(list_rs) => {
                assert(st@ =~= popped(s0, 2));
                match take_first(&acc_rs) {
                    None => failure("foldl-atom: acc arg produced no result"),
                    Some(acc) => match take_first(&list_rs) {
                        None => failure("foldl-atom: list arg produced no result"),
                        Some(l) => {
                            wait_for(st, Wait::FoldlLambda(acc, list_items(&l), 0));
                            VmOut::Next
                        },
                    },
                }
            },
        },
    }
}

/// The local variables of a folding body: the accumulator, the element, and
/// nothing for further ones.
pub open spec fn fold_locals(n: nat, acc: AtomV, x: AtomV) -> ResultV {
    Seq::new(
        n,
        |i: int|
            (
                if i == 0 {
                    acc
                } else if i == 1 {
                    x
                } else {
                    symbol("()"@)
                },
                EnvV::Empty,
            ),
    )
}

/// The environment of a folding body.
pub open spec fn fold_env(names: Seq<Seq<char>>, acc: AtomV, x: AtomV, env: EnvV) -> EnvV {
    let first = if names.len() > 0 {
        EnvV::Cons(names[0], Box::new(acc), Box::new(env))
    } else {
        env
    };
    if names.len() > 1 {
        EnvV::Cons(names[1], Box::new(x), Box::new(first))
    } else {
        first
    }
}

/// The next turn of folding a list with a body.
pub open spec fn fold_turn(
    s: VmV,
    t: TableV,
    names: Seq<Seq<char>>,
    body: BlockV,
    acc: AtomV,
    items: Seq<AtomV>,
    n: nat,
) -> StepV {
    if n < items.len() && !s.cut {
        let x = items[n as int];
        launched(
            s,
            t,
            WaitV::FoldlLambda(acc, items, n + 1),
            body,
            s.locals + fold_locals(names.len(), acc, x),
            fold_env(names, acc, x, s.env),
            None,
        )
    } else {
        going(pushed(s, plain_results(seq![acc])), t)
    }
}

/// Take the next turn of folding a list with a body.
pub fn next_fold(
    st: &mut VMState,
    table: &mut FnTable,
    names: &Vec<String>,
    body: &Block,
    acc: Atom,
    items: Vec<Atom>,
    n: usize,
) -> (r: VmOut)
    requires
        old(st).ip < usize::MAX,
    ensures
        (r@, final(st)@, final(table)@) == fold_turn(
            old(st)@,
            old(table)@,
            texts(names@),
            body@,
            acc@,
            atoms(items@),
            n as nat,
        ),
{
    broadcast use {group_atoms, group_results};

    assert(atoms(items@).len() == items@.len());
    if n < items.len() && !st.cut_executed {
        let len: usize = items.len();
        assert(n < len);
        let x = items[n].clone();
        let mut more: ResultSet = Vec::new();
        let mut i: usize = 0;
        let ghost want = fold_locals(names@.len(), acc@, x@);
        assert(results(more@) =~= want.take(0));
        while i < names.len()
            invariant
                i <= names@.len(),
                want == fold_locals(names@.len(), acc@, x@),
                results(more@) == want.take(i as int),
            decreases names@.len() - i,
        {
            let value: Atom = if i == 0 {
                acc.clone()
            } else if i == 1 {
                x.clone()
            } else {
                Atom::sym("()")
            };
            more.push((value, Env::new()));
            assert(want.take(i + 1) =~= want.take(i as int).push(want[i as int]));
            i += 1;
        }
        assert(want.take(names@.len() as int) =~= want);
        let mut env: Env = st.env.clone();
        if names.len() > 0 {
            env = env.extend(names[0].as_str(), acc.clone());
        }
        if names.len() > 1 {
            env = env.extend(names[1].as_str(), x);
        }
        let locals = join_results(copy_results(&st.locals), more);
        launch(
            st,
            table,
            Wait::FoldlLambda(acc, items, n + 1),
            body.clone(),
            locals,
            env,
            None,
        )
    } else {
        push(st, single(acc));
        VmOut::Next
    }
}

/// The environment in which code calls a function: the fresh names of the free
/// variables are bound to what the environment binds the variables to.
pub open spec fn call_env(names: Seq<Seq<char>>, values: Seq<AtomV>, env: EnvV) -> EnvV
    decreases names.len(),
{
    if names.len() == 0 {
        env
    } else {
        let before = call_env(names.drop_last(), values, env);
        let k = names.len() - 1;
        if k < values.len() && values[k] is Sym && env_get(env, names.last()) is Some {
            EnvV::Cons(
                values[k]->Sym_0,
                Box::new(env_get(env, names.last())->Some_0),
                Box::new(before),
            )
        } else {
            before
        }
    }
}

/// Bind the fresh names of free variables.
fn make_call_env(names: &Vec<String>, values: &Vec<Atom>, env: &Env) -> (r: Env)
    ensures
        r@ == call_env(texts(names@), atoms(values@), env@),
{
    broadcast use group_atoms;

    let ghost ns = texts(names@);
    let ghost vs = atoms(values@);
    let mut out: Env = env.clone();
    let mut i: usize = 0;
    assert(ns.take(0) =~= Seq::<Seq<char>>::empty());
    while i < names.len()
        invariant
            i <= names@.len(),
            ns == texts(names@),
            vs == atoms(values@),
            out@ == call_env(ns.take(i as int), vs, env@),
        decreases names@.len() - i,
    {
        assert(ns.take(i + 1).drop_last() =~= ns.take(i as int));
        assert(vs.len() == values@.len());
        if i < values.len() {
            match &values[i] {
                Atom::Sym(fresh) => match env.get(names[i].as_str()) {
                    Some(v) => {
                        out = out.extend(fresh.as_str(), v);
                    },
                    None => {},
                },
                _ => {},
            }
        }
        i += 1;
    }
    assert(ns.take(names@.len() as int) =~= ns);
    out
}

/// Calling a function while the machine waits: by code where the call
/// compiles, by evaluation otherwise.
pub open spec fn call_launched(s: VmV, t: TableV, w: WaitV, call: ExprV, env: EnvV) -> StepV {
    match compiled(call, alone(), false) {
        Ok(c) => {
            let values = inherited(c.1, s.free_vars, s.bindings, t.fresh);
            (
                VmOutV::Sub(
                    vm_start(
                        BlockV { code: c.0, free_vars: c.1 },
                        Seq::empty(),
                        values.0,
                        s.budget,
                        call_env(c.1, values.0, env),
                    ),
                    None,
                ),
                waiting(s, w),
                at_fresh(t, values.1),
            )
        },
        Err(_) => (VmOutV::Run(call, env, s.budget), waiting(s, w), t),
    }
}

/// Call a function while the machine waits.
fn eval_call_vm(st: &mut VMState, table: &mut FnTable, w: Wait, call: Expr, env: Env) -> (r: VmOut)
    ensures
        (r@, final(st)@, final(table)@) == call_launched(
            old(st)@,
            old(table)@,
            w@,
            call@,
            env@,
        ),
{
    match compile_alone(&call) {
        Some(block) => {
            let bindings = inherit(&block.free_vars, &st.free_vars, &st.bindings, table);
            let sub_env = make_call_env(&block.free_vars, &bindings, &env);
            let locals: ResultSet = Vec::new();
            assert(results(locals@) =~= Seq::empty());
            let sub = VMState::start(block, locals, bindings, st.budget, sub_env);
            wait_for(st, w);
            VmOut::Sub(sub, None)
        },
        None => {
            let budget: Option<i64> = st.budget;
            wait_for(st, w);
            VmOut::Run(call, env, budget)
        },
    }
}

/// A call of a function with two arguments.
pub open spec fn call_of_two(head: ExprV, x: AtomV, y: AtomV) -> ExprV {
    ExprV::List(seq![head, to_expr(x), to_expr(y)])
}

/// Build a call of a function with two arguments.
pub fn make_call_of_two(head: &Expr, x: &Atom, y: &Atom) -> (r: Expr)
    ensures
        r@ == call_of_two(head@, x@, y@),
{
    let mut v: Vec<Expr> = Vec::new();
    v.push(head.clone());
    match atom_to_expr(x) {
        Ok(e) => {
            v.push(e);
        },
        Err(_) => {},
    }
    match atom_to_expr(y) {
        Ok(e) => {
            v.push(e);
        },
        Err(_) => {},
    }
    assert(exprs(v@) =~= seq![head@, to_expr(x@), to_expr(y@)]);
    Expr::List(Arc::new(v))
}

/// Starting to fold the values of a generator.
pub open spec fn foldall_started(s: VmV, t: TableV) -> StepV {
    if s.stack.len() == 0 {
        failing(s, t, "VM stack underflow on Foldall agg-func"@)
    } else if s.stack.len() == 1 {
        failing(s, t, "VM stack underflow on Foldall init"@)
    } else if s.stack.len() == 2 {
        failing(s, t, "VM stack underflow on Foldall generator"@)
    } else {
        match first_value(top(s, 0)) {
            None => failing(s, t, "foldall: agg-func produced no value"@),
            Some(f) => match first_value(top(s, 1)) {
                None => failing(s, t, "foldall: init produced no result"@),
                Some(init) => {
                    let values = result_atoms(top(s, 2));
                    match f {
                        AtomV::Sym(name) => going(
                            waiting(
                                popped(s, 3),
                                WaitV::Foldall(ExprV::Symbol(name), s.env, init, values, 0),
                            ),
                            t,
                        ),
                        AtomV::Closure(_, _, _) => going(
                            waiting(
                                popped(s, 3),
                                WaitV::Foldall(
                                    ExprV::Symbol("$__foldall_fn"@),
                                    EnvV::Cons("$__foldall_fn"@, Box::new(f), Box::new(s.env)),
                                    init,
                                    values,
                                    0,
                                ),
                            ),
                            t,
                        ),
                        _ => failing(
                            s,
                            t,
                            "foldall: agg-func must be a function symbol or closure"@,
                        ),
                    }
                },
            },
        }
    }
}

/// Start to fold the values of a generator.
pub fn start_foldall(st: &mut VMState, table: &FnTable) -> (r: VmOut)
    ensures
        agrees((r@, final(st)@, table@), foldall_started(old(st)@, table@)),
{
    let ghost s0 = st@;
    match pop(st) {
        None => failure("VM stack underflow on Foldall agg-func"),
        Some(agg_rs) => match pop(st) {
            None => failure("VM stack underflow on Foldall init"),
            Some(init_rs) => match pop(st) {
                None => failure("VM stack underflow on Foldall generator"),
                Some(gen_rs) => {
                    assert(st@ =~= popped(s0, 3));
                    match take_first(&agg_rs) {
                        None => failure("foldall: agg-func produced no value"),
                        Some(f) => match take_first(&init_rs) {
                            None => failure("foldall: init produced no result"),
                            Some(init) => {
                                let values = atoms_of(&gen_rs);
                                match &f {
                                    Atom::Sym(name) => {
                                        let env = st.env.clone();
                                        let head = Expr::Symbol(name.clone());
                                        wait_for(st, Wait::Foldall(head, env, init, values, 0));
                                        VmOut::Next
                                    },
                                    Atom::Closure(_) => {
                                        let env = bind(&st.env, "$__foldall_fn", f.clone());
                                        let head = Expr::Symbol("$__foldall_fn".to_owned());
                                        wait_for(st, Wait::Foldall(head, env, init, values, 0));
                                        VmOut::Next
                                    },
                                    _ => failure(
                                        "foldall: agg-func must be a function symbol or closure",
                                    ),
                                }
                            },
                        },
                    }
                },
            },
        },
    }
}

/// The next turn of folding the values of a generator.
pub open spec fn foldall_turn(
    s: VmV,
    t: TableV,
    head: ExprV,
    env: EnvV,
    acc: AtomV,
    values: Seq<AtomV>,
    n: nat,
) -> StepV {
    if n < values.len() {
        call_launched(
            s,
            t,
            WaitV::Foldall(head, env, acc, values, n + 1),
            call_of_two(head, acc, values[n as int]),
            env,
        )
    } else {
        going(pushed(s, plain_results(seq![acc])), t)
    }
}

/// Take the next turn of folding the values of a generator.
pub fn next_foldall(
    st: &mut VMState,
    table: &mut FnTable,
    head: Expr,
    env: Env,
    acc: Atom,
    values: Vec<Atom>,
    n: usize,
) -> (r: VmOut)
    requires
        old(st).ip < usize::MAX,
    ensures
        (r@, final(st)@, final(table)@) == foldall_turn(
            old(st)@,
            old(table)@,
            head@,
            env@,
            acc@,
            atoms(values@),
            n as nat,
        ),
{
    broadcast use group_atoms;

    assert(atoms(values@).len() == values@.len());
    if n < values.len() {
        let len: usize = values.len();
        assert(n < len);
        let call = make_call_of_two(&head, &acc, &values[n]);
        let w = Wait::Foldall(head, env.clone(), acc, values, n + 1);
        eval_call_vm(st, table, w, call, env)
    } else {
        push(st, single(acc));
        VmOut::Next
    }
}

/// Starting to check all values of a generator.
pub open spec fn forall_started(s: VmV, t: TableV) -> StepV {
    if s.stack.len() == 0 {
        failing(s, t, "VM stack underflow on Forall check"@)
    } else if s.stack.len() == 1 {
        failing(s, t, "VM stack underflow on Forall generator"@)
    } else {
        match first_value(top(s, 0)) {
            None => failing(s, t, "forall: check produced no value"@),
            Some(f) => {
                let values = result_atoms(top(s, 1));
                match f {
                    AtomV::Sym(name) => going(
                        waiting(
                            popped(s, 2),
                            WaitV::Forall(ExprV::Symbol(name), EnvV::Empty, values, 0),
                        ),
                        t,
                    ),
                    AtomV::Closure(_, _, _) => going(
                        waiting(
                            popped(s, 2),
                            WaitV::Forall(
                                ExprV::Symbol("$__check_fn"@),
                                EnvV::Cons("$__check_fn"@, Box::new(f), Box::new(s.env)),
                                values,
                                0,
                            ),
                        ),
                        t,
                    ),
                    _ => failing(s, t, "forall: check must be a function symbol or closure"@),
                }
            },
        }
    }
}

/// Start to check all values of a generator.
pub fn start_forall(st: &mut VMState, table: &FnTable) -> (r: VmOut)
    ensures
        agrees((r@, final(st)@, table@), forall_started(old(st)@, table@)),
{
    let ghost s0 = st@;
    match pop(st) {
        None => failure("VM stack underflow on Forall check"),
        Some(check_rs) => match pop(st) {
            None => failure("VM stack underflow on Forall generator"),
            Some(gen_rs) => {
                assert(st@ =~= popped(s0, 2));
                match take_first(&check_rs) {
                    None => failure("forall: check produced no value"),
                    Some(f) => {
                        let values = atoms_of(&gen_rs);
                        match &f {
                            Atom::Sym(name) => {
                                let head = Expr::Symbol(name.clone());
                                wait_for(st, Wait::Forall(head, Env::new(), values, 0));
                                VmOut::Next
                            },
                            Atom::Closure(_) => {
                                let env = bind(&st.env, "$__check_fn", f.clone());
                                let head = Expr::Symbol("$__check_fn".to_owned());
                                wait_for(st, Wait::Forall(head, env, values, 0));
                                VmOut::Next
                            },
                            _ => failure("forall: check must be a function symbol or closure"),
                        }
                    },
                }
            },
        },
    }
}

/// The next turn of checking all values of a generator.
pub open spec fn forall_turn(
    s: VmV,
    t: TableV,
    head: ExprV,
    front: EnvV,
    values: Seq<AtomV>,
    n: nat,
) -> StepV {
    if n < values.len() {
        call_launched(
            s,
            t,
            WaitV::Forall(head, front, values, n + 1),
            ExprV::List(seq![head, ExprV::Symbol("$__fv"@)]),
            linked(
                front,
                EnvV::Cons("$__fv"@, Box::new(values[n as int]), Box::new(s.env)),
            ),
        )
    } else {
        going(pushed(s, plain_results(seq![symbol("true"@)])), t)
    }
}

/// Take the next turn of checking all values of a generator.
pub fn next_forall(
    st: &mut VMState,
    table: &mut FnTable,
    head: Expr,
    front: Env,
    values: Vec<Atom>,
    n: usize,
) -> (r: VmOut)
    requires
        old(st).ip < usize::MAX,
    ensures
        (r@, final(st)@, final(table)@) == forall_turn(
            old(st)@,
            old(table)@,
            head@,
            front@,
            atoms(values@),
            n as nat,
        ),
{
    broadcast use group_atoms;

    assert(atoms(values@).len() == values@.len());
    if n < values.len() {
        let len: usize = values.len();
        assert(n < len);
        let mut v: Vec<Expr> = Vec::new();
        v.push(head.clone());
        v.push(Expr::Symbol("$__fv".to_owned()));
        assert(exprs(v@) =~= seq![head@, ExprV::Symbol("$__fv"@)]);
        let call = Expr::List(Arc::new(v));
        let base = bind(&st.env, "$__fv", values[n].clone());
        let env = prepend_chain(front.clone(), &base);
        let w = Wait::Forall(head, front, values, n + 1);
        eval_call_vm(st, table, w, call, env)
    } else {
        push(st, single(Atom::sym("true")));
        VmOut::Next
    }
}

/// The head of a call of a function value.
pub open spec fn head_of(f: AtomV) -> ExprV {
    match f {
        AtomV::Sym(name) => ExprV::Symbol(name),
        _ => to_expr(f),
    }
}

/// Starting to fold a list with a function.
pub open spec fn foldl_started(s: VmV, t: TableV) -> StepV {
    if s.stack.len() == 0 {
        failing(s, t, "VM stack underflow on Foldl func"@)
    } else if s.stack.len() == 1 {
        failing(s, t, "VM stack underflow on Foldl acc"@)
    } else if s.stack.len() == 2 {
        failing(s, t, "VM stack underflow on Foldl list"@)
    } else {
        match first_value(top(s, 0)) {
            None => failing(s, t, "foldl-atom: func arg produced no result"@),
            Some(f) => match first_value(top(s, 1)) {
                None => failing(s, t, "foldl-atom: acc arg produced no result"@),
                Some(acc) => match first_value(top(s, 2)) {
                    None => failing(s, t, "foldl-atom: list arg produced no result"@),
                    Some(l) => going(
                        waiting(popped(s, 3), WaitV::Foldl(head_of(f), acc, items_of(l), 0)),
                        t,
                    ),
                },
            },
        }
    }
}

/// Start to fold a list with a function.
pub fn start_foldl(st: &mut VMState, table: &FnTable) -> (r: VmOut)
    ensures
        agrees((r@, final(st)@, table@), foldl_started(old(st)@, table@)),
{
    let ghost s0 = st@;
    match pop(st) {
        None => failure("VM stack underflow on Foldl func"),
        Some(func_rs) => match pop(st) {
            None => failure("VM stack underflow on Foldl acc"),
            Some(acc_rs) => match pop(st) {
                None => failure("VM stack underflow on Foldl list"),
                Some(list_rs) => {
                    assert(st@ =~= popped(s0, 3));
                    match take_first(&func_rs) {
                        None => failure("foldl-atom: func arg produced no result"),
                        Some(f) => match take_first(&acc_rs) {
                            None => failure("foldl-atom: acc arg produced no result"),
                            Some(acc) => match take_first(&list_rs) {
                                None => failure("foldl-atom: list arg produced no result"),
                                Some(l) => {
                                    let head: Expr = match &f {
                                        Atom::Sym(name) => Expr::Symbol(name.clone()),
                                        _ => match atom_to_expr(&f) {
                                            Ok(e) => e,
                                            Err(m) => Expr::Symbol(m),
                                        },
                                    };
                                    wait_for(st, Wait::Foldl(head, acc, list_items(&l), 0));
                                    VmOut::Next
                                },
                            },
                        },
                    }
                },
            },
        },
    }
}

/// The next turn of folding a list with a function.
pub open spec fn foldl_turn(
    s: VmV,
    t: TableV,
    head: ExprV,
    acc: AtomV,
    items: Seq<AtomV>,
    n: nat,
) -> StepV {
    if n < items.len() {
        call_launched(
            s,
            t,
            WaitV::Foldl(head, acc, items, n + 1),
            call_of_two(head, acc, items[n as int]),
            EnvV::Empty,
        )
    } else {
        going(pushed(s, plain_results(seq![acc])), t)
    }
}

/// Take the next turn of folding a list with a function.
pub fn next_foldl(
    st: &mut VMState,
    table: &mut FnTable,
    head: Expr,
    acc: Atom,
    items: Vec<Atom>,
    n: usize,
) -> (r: VmOut)
    requires
        old(st).ip < usize::MAX,
    ensures
        (r@, final(st)@, final(table)@) == foldl_turn(
            old(st)@,
            old(table)@,
            head@,
            acc@,
            atoms(items@),
            n as nat,
        ),
{
    broadcast use group_atoms;

    assert(atoms(items@).len() == items@.len());
    if n < items.len() {
        let len: usize = items.len();
        assert(n < len);
        let call = make_call_of_two(&head, &acc, &items[n]);
        let w = Wait::Foldl(head, acc, items, n + 1);
        eval_call_vm(st, table, w, call, Env::new())
    } else {
        push(st, single(acc));
        VmOut::Next
    }
}

} // verus!
