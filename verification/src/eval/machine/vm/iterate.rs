//! Turns of the frames of the bytecode machine.
//!
//! A frame goes through the values of a `let`, a condition, a `case`, a call or
//! an `eval`, and runs a body for each.
use crate::atom::Atom;
use crate::atom::AtomV;
use crate::atom::atoms;
use crate::atom::copy_atoms;
use crate::atom::group_atoms;
use crate::atom::sexpr;
use crate::env::Env;
use crate::env::EnvV;
use crate::env::env_get;
use crate::eval::machine::budget::ResultSet;
use crate::eval::machine::budget::ResultV;
use crate::eval::machine::budget::atoms_of;
use crate::eval::machine::budget::copy_results;
use crate::eval::machine::budget::group_results;
use crate::eval::machine::budget::result_atoms;
use crate::eval::machine::budget::results;
use crate::eval::machine::vm::call::find_locals;
use crate::eval::machine::vm::call::local_values;
use crate::eval::machine::vm::compiler::VMCompiler;
use crate::eval::machine::vm::compiler::compiled;
use crate::eval::machine::vm::op::Block;
use crate::eval::machine::vm::op::BlockV;
use crate::eval::machine::vm::op::CaseBranch;
use crate::eval::machine::vm::op::Opcode;
use crate::eval::machine::vm::op::OpcodeV;
use crate::eval::machine::vm::op::PatternBodyV;
use crate::eval::machine::vm::op::branch_view;
use crate::eval::machine::vm::op::branches;
use crate::eval::machine::vm::op::ops;
use crate::eval::machine::vm::outcome::StepV;
use crate::eval::machine::vm::outcome::VmOut;
use crate::eval::machine::vm::outcome::VmOutV;
use crate::eval::machine::vm::state::CallFrame;
use crate::eval::machine::vm::state::CallFrameKind;
use crate::eval::machine::vm::state::FrameV;
use crate::eval::machine::vm::state::KindV;
use crate::eval::machine::vm::state::MemoKey;
use crate::eval::machine::vm::state::MemoKeyV;
use crate::eval::machine::vm::state::PendingCall;
use crate::eval::machine::vm::state::PendingV;
use crate::eval::machine::vm::state::VMState;
use crate::eval::machine::vm::state::VmV;
use crate::eval::machine::vm::state::Wait;
use crate::eval::machine::vm::state::WaitV;
use crate::eval::machine::vm::state::at_fresh;
use crate::eval::machine::vm::state::frames;
use crate::eval::machine::vm::state::inherit;
use crate::eval::machine::vm::state::inherit_one;
use crate::eval::machine::vm::state::inherited;
use crate::eval::machine::vm::state::inherited_one;
use crate::eval::machine::vm::state::lemma_frames_push;
use crate::eval::machine::vm::state::memo_key;
use crate::eval::machine::vm::state::pendings;
use crate::eval::machine::vm::state::target_values;
use crate::eval::machine::vm::state::vm_start;
use crate::eval::shared::env::linked;
use crate::eval::shared::env::lookup;
use crate::eval::shared::env::prepend_chain;
use crate::eval::shared::pattern::KnownV;
use crate::eval::shared::pattern::MatchV;
use crate::eval::shared::pattern::Matching;
use crate::eval::shared::pattern::PatternValue;
use crate::eval::shared::pattern::known_values;
use crate::eval::shared::pattern::match_one;
use crate::eval::shared::pattern::try_match_one;
use crate::eval::shared::subst::subst_atom;
use crate::eval::shared::subst::substituted;
use crate::expr::Expr;
use crate::expr::ExprV;
use crate::expr::exprs;
use crate::func::FnTable;
use crate::func::TableV;
use crate::text::joined;
use crate::text::lower_text;
use crate::text::same;
use crate::text::texts;
use crate::text::to_lower;
use std::sync::Arc;
use vstd::prelude::*;
use vstd::string::*;

verus! {

/// A budget after paying; nothing when it does not suffice.
pub open spec fn paid(budget: Option<i64>, cost: int) -> Option<Option<i64>> {
    match budget {
        None => Some(None),
        Some(b) => if b <= cost {
            None
        } else if b - cost > i64::MAX {
            Some(Some(i64::MAX))
        } else {
            Some(Some((b - cost) as i64))
        },
    }
}

/// Pay from a budget.
pub fn pay(budget: Option<i64>, cost: i128) -> (r: Option<Option<i64>>)
    requires
        -0x8000_0000_0000_0000_0000 <= cost <= 0x8000_0000_0000_0000_0000,
    ensures
        r == paid(budget, cost as int),
{
    match budget {
        None => Some(None),
        Some(b) => {
            if b as i128 <= cost {
                None
            } else {
                let left: i128 = b as i128 - cost;
                if left > i64::MAX as i128 {
                    Some(Some(i64::MAX))
                } else {
                    Some(Some(left as i64))
                }
            }
        },
    }
}

/// A paid budget is what was there less the cost, and stays positive.
pub proof fn paying_is_exact(b: i64, cost: nat)
    ensures
        paid(Some(b), cost as int) == (if b > cost {
            Some(Some((b - cost) as i64))
        } else {
            None
        }),
        paid(Some(b), cost as int) matches Some(Some(left)) ==> left > 0,
{
}

/// Local variables after bindings were found: they are applied to the values
/// and put in front of their environments.
pub open spec fn propagated(locals: ResultV, env: EnvV) -> ResultV {
    Seq::new(locals.len(), |i: int| (substituted(locals[i].0, env), linked(env, locals[i].1)))
}

/// Apply bindings to local variables.
fn propagate(locals: &ResultSet, env: &Env) -> (r: ResultSet)
    ensures
        results(r@) == propagated(results(locals@), env@),
{
    broadcast use group_results;

    let ghost want = propagated(results(locals@), env@);
    let mut out: ResultSet = Vec::new();
    let mut i: usize = 0;
    assert(results(out@) =~= want.take(0));
    while i < locals.len()
        invariant
            i <= locals@.len(),
            want == propagated(results(locals@), env@),
            results(out@) == want.take(i as int),
        decreases locals@.len() - i,
    {
        out.push((subst_atom(&locals[i].0, env), prepend_chain(env.clone(), &locals[i].1)));
        assert(want.take(i + 1) =~= want.take(i as int).push(want[i as int]));
        i += 1;
    }
    assert(want.take(locals@.len() as int) =~= want);
    out
}

/// Put two result sets together.
pub fn join_results(a: ResultSet, b: ResultSet) -> (r: ResultSet)
    ensures
        results(r@) == results(a@) + results(b@),
{
    let mut a = a;
    let mut b = b;
    let ghost x = a@;
    let ghost y = b@;
    a.append(&mut b);
    assert(results(a@) =~= results(x) + results(y));
    a
}

/// The state with a new frame whose turns come next.
pub open spec fn with_frame(s: VmV, kind: KindV, out: ResultV) -> VmV {
    VmV {
        frames: s.frames.push(
            FrameV {
                return_ip: s.ip + 1,
                return_code: s.code,
                locals_to_pop: 0,
                saved_env: s.env,
                saved_locals: s.locals,
                saved_free: s.free_vars,
                saved_bindings: s.bindings,
                kind,
                next: 0,
                out,
            },
        ),
        wait: WaitV::Iterate,
        known: Seq::empty(),
        ..s
    }
}

/// Add a frame whose turns come next.
pub fn add_frame(st: &mut VMState, kind: CallFrameKind, out: ResultSet)
    requires
        old(st).ip < usize::MAX,
    ensures
        final(st)@ == with_frame(old(st)@, kind@, results(out@)),
{
    broadcast use {lemma_frames_push, group_atoms};

    let bindings = copy_atoms(&st.bindings, 0);
    assert(st.bindings@.skip(0) =~= st.bindings@);
    let frame = CallFrame {
        return_ip: st.ip + 1,
        return_code: st.code.clone(),
        locals_to_pop: 0,
        saved_env: st.env.clone(),
        saved_locals: copy_results(&st.locals),
        saved_free: st.free_vars.clone(),
        saved_bindings: bindings,
        kind,
        next: 0,
        out,
    };
    st.frames.push(frame);
    st.wait = Wait::Iterate;
    st.known = Vec::new();
    assert(known_values(st.known@) =~= Seq::empty());
    assert(st@ =~= with_frame(old(st)@, kind@, results(out@)));
}

/// The state after the topmost frame is done: its results are pushed and what
/// it suspended goes on.
pub open spec fn returned(s: VmV, out: ResultV) -> VmV {
    let f = s.frames.last();
    VmV {
        frames: s.frames.drop_last(),
        code: f.return_code,
        ip: f.return_ip,
        free_vars: f.saved_free,
        bindings: f.saved_bindings,
        stack: s.stack.push(out),
        env: f.saved_env,
        locals: if f.kind is Call || f.kind is Eval {
            f.saved_locals
        } else {
            s.locals
        },
        wait: WaitV::Ready,
        known: Seq::empty(),
        ..s
    }
}

/// Go on with what a frame suspended.
pub fn return_from(st: &mut VMState, frame: CallFrame, out: ResultSet)
    ensures
        final(st)@ == returned(
            (VmV { frames: old(st)@.frames.push(frame@), ..old(st)@ }),
            results(out@),
        ),
{
    broadcast use group_results;

    let ghost start = VmV { frames: st@.frames.push(frame@), ..st@ };
    assert(start.frames.drop_last() =~= st@.frames);
    match &frame.kind {
        CallFrameKind::Call { .. } => {
            st.locals = frame.saved_locals;
        },
        CallFrameKind::Eval { .. } => {
            st.locals = frame.saved_locals;
        },
        _ => {},
    }
    st.code = frame.return_code;
    st.ip = frame.return_ip;
    st.free_vars = frame.saved_free;
    st.bindings = frame.saved_bindings;
    st.env = frame.saved_env;
    st.stack.push(out);
    st.wait = Wait::Ready;
    st.known = Vec::new();
    assert(known_values(st.known@) =~= Seq::empty());
    assert(st@ =~= returned(start, results(out@)));
}

/// Taking the topmost frame off.
proof fn lemma_frames_pop(s: Seq<CallFrame>)
    requires
        s.len() > 0,
    ensures
        frames(s) == frames(s.drop_last()).push(s.last()@),
{
    assert(frames(s) =~= frames(s.drop_last()).push(s.last()@));
}

/// The state in which the body of a turn starts.
pub open spec fn entered(
    s: VmV,
    block: BlockV,
    locals: ResultV,
    bindings: Seq<AtomV>,
    env: EnvV,
    frame: FrameV,
) -> VmV {
    VmV {
        code: block.code,
        ip: 0,
        free_vars: block.free_vars,
        bindings,
        locals,
        env,
        frames: s.frames.drop_last().push(frame),
        wait: WaitV::Ready,
        known: Seq::empty(),
        ..s
    }
}

/// Start the body of a turn.
fn enter(
    st: &mut VMState,
    frame: CallFrame,
    block: Block,
    locals: ResultSet,
    bindings: Vec<Atom>,
    env: Env,
    Ghost(before): Ghost<VmV>,
)
    requires
        old(st)@ == (VmV { frames: before.frames.drop_last(), ..before }),
    ensures
        final(st)@ == entered(
            before,
            block@,
            results(locals@),
            atoms(bindings@),
            env@,
            frame@,
        ),
{
    broadcast use lemma_frames_push;

    st.frames.push(frame);
    st.code = block.code;
    st.ip = 0;
    st.free_vars = block.free_vars;
    st.bindings = bindings;
    st.locals = locals;
    st.env = env;
    st.wait = Wait::Ready;
    st.known = Vec::new();
    assert(known_values(st.known@) =~= Seq::empty());
    assert(st@ =~= entered(
        before,
        block@,
        results(locals@),
        atoms(bindings@),
        env@,
        frame@,
    ));
}

/// The outcome of looking for the next value that matches.
pub enum FindV {
    /// None is left.
    Nothing,
    /// The value at a position matches and leaves an environment.
    Found(nat, EnvV),
    /// A value is missing.
    Ask(ExprV, EnvV),
}

/// The next value that a pattern matches.
pub open spec fn next_match(values: ResultV, i: nat, p: ExprV, known: Seq<KnownV>) -> FindV
    decreases values.len() - i,
{
    if i >= values.len() {
        FindV::Nothing
    } else {
        match match_one(p, values[i as int].0, EnvV::Empty, known) {
            MatchV::Yes(e) => FindV::Found(i, e),
            MatchV::No => next_match(values, i + 1, p, known),
            MatchV::Ask(x, e) => FindV::Ask(x, e),
        }
    }
}

/// The outcome of looking for the next value that matches.
pub enum Find {
    /// None is left.
    Nothing,
    /// The value at a position matches and leaves an environment.
    Found(usize, Env),
    /// The value of this expression in this environment is needed first.
    Ask(Expr, Env),
}

impl View for Find {
    type V = FindV;

    open spec fn view(&self) -> FindV {
        match self {
            Find::Nothing => FindV::Nothing,
            Find::Found(i, e) => FindV::Found(*i as nat, e@),
            Find::Ask(x, e) => FindV::Ask(x@, e@),
        }
    }
}

/// Look for the next value that a pattern matches.
fn find_match(values: &ResultSet, from: usize, pattern: &Expr, known: &Vec<PatternValue>) -> (r:
    Find)
    ensures
        r@ == next_match(results(values@), from as nat, pattern@, known_values(known@)),
        r matches Find::Found(i, _) ==> i < values@.len(),
{
    let ghost vs = results(values@);
    let ghost kn = known_values(known@);
    let mut i: usize = from;
    while i < values.len()
        invariant
            vs == results(values@),
            kn == known_values(known@),
            next_match(vs, i as nat, pattern@, kn) == next_match(vs, from as nat, pattern@, kn),
        decreases values@.len() - i,
    {
        assert(vs[i as int].0 == values@[i as int].0@);
        match try_match_one(pattern, &values[i].0, &Env::new(), known) {
            Matching::Yes(e) => {
                return Find::Found(i, e);
            },
            Matching::No => {},
            Matching::Ask(x, e) => {
                return Find::Ask(x, e);
            },
        }
        i += 1;
    }
    Find::Nothing
}

/// The next turn of a `let`.
pub open spec fn let_turn(s: VmV, t: TableV, values: ResultV, p: PatternBodyV) -> StepV {
    let f = s.frames.last();
    match next_match(values, f.next, p.pattern, s.known) {
        FindV::Ask(x, e) => (VmOutV::Ask(x, e), s, t),
        FindV::Nothing => (VmOutV::Next, returned(s, f.out), t),
        FindV::Found(i, m) => {
            let env = linked(m, values[i as int].1);
            let more = local_values(p.pattern_vars, env);
            let b = inherited(p.body.free_vars, s.free_vars, s.bindings, t.fresh);
            (
                VmOutV::Next,
                entered(
                    s,
                    p.body,
                    propagated(s.locals, env) + more,
                    b.0,
                    env,
                    FrameV { next: i + 1, locals_to_pop: more.len(), ..f },
                ),
                at_fresh(t, b.1),
            )
        },
    }
}

/// Whether a condition holds: it is the symbol `true`, in any case.
pub open spec fn holds(a: AtomV) -> bool {
    a is Sym && lower_text(a->Sym_0) == "true"@
}

/// The value that a free variable has in a branch: what the condition bound it
/// to, or what it has.
pub open spec fn branch_one(
    name: Seq<char>,
    cond: Option<EnvV>,
    map: Seq<Seq<char>>,
    bindings: Seq<AtomV>,
    fresh: u64,
) -> (AtomV, u64) {
    if cond is Some && env_get(cond->Some_0, name) is Some {
        (env_get(cond->Some_0, name)->Some_0, fresh)
    } else {
        inherited_one(name, map, bindings, fresh)
    }
}

/// The values that free variables have in a branch.
pub open spec fn branch_bindings(
    names: Seq<Seq<char>>,
    cond: Option<EnvV>,
    map: Seq<Seq<char>>,
    bindings: Seq<AtomV>,
    fresh: u64,
) -> (Seq<AtomV>, u64)
    decreases names.len(),
{
    if names.len() == 0 {
        (Seq::empty(), fresh)
    } else {
        let before = branch_bindings(names.drop_last(), cond, map, bindings, fresh);
        let last = branch_one(names.last(), cond, map, bindings, before.1);
        (before.0.push(last.0), last.1)
    }
}

/// The value of an optional environment.
pub open spec fn optional_env(e: Option<Env>) -> Option<EnvV> {
    match e {
        Some(x) => Some(x@),
        None => None,
    }
}

/// Find the values that free variables have in a branch.
fn find_branch_bindings(
    names: &Vec<String>,
    cond: &Option<Env>,
    map: &Vec<String>,
    bindings: &Vec<Atom>,
    table: &mut FnTable,
) -> (r: Vec<Atom>)
    ensures
        atoms(r@) == branch_bindings(
            texts(names@),
            optional_env(*cond),
            texts(map@),
            atoms(bindings@),
            old(table)@.fresh,
        ).0,
        final(table)@ == at_fresh(
            old(table)@,
            branch_bindings(
                texts(names@),
                optional_env(*cond),
                texts(map@),
                atoms(bindings@),
                old(table)@.fresh,
            ).1,
        ),
{
    broadcast use group_atoms;

    let ghost ns = texts(names@);
    let ghost ms = texts(map@);
    let ghost bs = atoms(bindings@);
    let ghost c = optional_env(*cond);
    let ghost t0 = table@;
    let mut out: Vec<Atom> = Vec::new();
    let mut i: usize = 0;
    assert(ns.take(0) =~= Seq::<Seq<char>>::empty());
    assert(atoms(out@) =~= Seq::<AtomV>::empty());
    while i < names.len()
        invariant
            i <= names@.len(),
            ns == texts(names@),
            ms == texts(map@),
            bs == atoms(bindings@),
            c == optional_env(*cond),
            t0 == old(table)@,
            atoms(out@) == branch_bindings(ns.take(i as int), c, ms, bs, t0.fresh).0,
            table@ == at_fresh(t0, branch_bindings(ns.take(i as int), c, ms, bs, t0.fresh).1),
        decreases names@.len() - i,
    {
        assert(ns.take(i + 1).drop_last() =~= ns.take(i as int));
        let given: Option<Atom> = match cond {
            Some(e) => lookup(e, names[i].as_str()),
            None => None,
        };
        match given {
            Some(a) => {
                out.push(a);
            },
            None => {
                let a = inherit_one(names[i].as_str(), map, bindings, table);
                out.push(a);
            },
        }
        i += 1;
    }
    assert(ns.take(names@.len() as int) =~= ns);
    out
}

/// The next turn of a conditional.
pub open spec fn if_turn(
    s: VmV,
    t: TableV,
    values: ResultV,
    yes: Seq<OpcodeV>,
    no: Seq<OpcodeV>,
    names: Seq<Seq<char>>,
) -> StepV {
    let f = s.frames.last();
    if f.next >= values.len() {
        (VmOutV::Next, returned(s, f.out), t)
    } else {
        let (a, e) = values[f.next as int];
        let cond = if holds(a) {
            Some(e)
        } else {
            None
        };
        let b = branch_bindings(names, cond, s.free_vars, s.bindings, t.fresh);
        (
            VmOutV::Next,
            entered(
                s,
                BlockV {
                    code: if holds(a) {
                        yes
                    } else {
                        no
                    },
                    free_vars: names,
                },
                if holds(a) {
                    propagated(s.locals, e)
                } else {
                    s.locals
                },
                b.0,
                if holds(a) {
                    linked(e, f.saved_env)
                } else {
                    f.saved_env
                },
                FrameV { next: f.next + 1, ..f },
            ),
            at_fresh(t, b.1),
        )
    }
}

/// The branch for a value.
pub open spec fn select_branch(
    bs: Seq<PatternBodyV>,
    j: nat,
    value: AtomV,
    env: EnvV,
    known: Seq<KnownV>,
) -> FindV
    decreases bs.len() - j,
{
    if j >= bs.len() {
        FindV::Nothing
    } else {
        let p = bs[j as int].pattern;
        if p == ExprV::Symbol("Empty"@) {
            select_branch(bs, j + 1, value, env, known)
        } else if p == ExprV::Symbol("$else"@) {
            FindV::Found(j, env)
        } else {
            match match_one(p, value, EnvV::Empty, known) {
                MatchV::Yes(m) => FindV::Found(j, linked(m, env)),
                MatchV::No => select_branch(bs, j + 1, value, env, known),
                MatchV::Ask(x, e) => FindV::Ask(x, e),
            }
        }
    }
}

/// Whether an expression is a symbol with a name.
fn is_symbol(e: &Expr, name: &str) -> (r: bool)
    ensures
        r == (e@ == ExprV::Symbol(name@)),
{
    match e {
        Expr::Symbol(s) => same(s.as_str(), name),
        _ => false,
    }
}

/// Find the branch for a value.
fn find_branch(
    bs: &Vec<CaseBranch>,
    value: &Atom,
    env: &Env,
    known: &Vec<PatternValue>,
) -> (r: Find)
    ensures
        r@ == select_branch(branches(bs@), 0, value@, env@, known_values(known@)),
        r matches Find::Found(i, _) ==> i < bs@.len(),
{
    let ghost bv = branches(bs@);
    let ghost kn = known_values(known@);
    let mut j: usize = 0;
    while j < bs.len()
        invariant
            j <= bs@.len(),
            bv == branches(bs@),
            kn == known_values(known@),
            select_branch(bv, j as nat, value@, env@, kn) == select_branch(
                bv,
                0,
                value@,
                env@,
                kn,
            ),
        decreases bs@.len() - j,
    {
        assert(bv[j as int] == branch_view(bs@[j as int]));
        if is_symbol(&bs[j].pattern, "Empty") {
        } else if is_symbol(&bs[j].pattern, "$else") {
            return Find::Found(j, env.clone());
        } else {
            match try_match_one(&bs[j].pattern, value, &Env::new(), known) {
                Matching::Yes(m) => {
                    return Find::Found(j, prepend_chain(m, env));
                },
                Matching::No => {},
                Matching::Ask(x, e) => {
                    return Find::Ask(x, e);
                },
            }
        }
        j += 1;
    }
    Find::Nothing
}

/// The position of the branch for the case without a value.
pub open spec fn empty_branch(bs: Seq<PatternBodyV>, j: nat) -> Option<nat>
    decreases bs.len() - j,
{
    if j >= bs.len() {
        None
    } else if bs[j as int].pattern == ExprV::Symbol("Empty"@) {
        Some(j)
    } else {
        empty_branch(bs, j + 1)
    }
}

/// Find the branch for the case without a value.
fn find_empty_branch(bs: &Vec<CaseBranch>) -> (r: Option<usize>)
    ensures
        (match r {
            Some(j) => empty_branch(branches(bs@), 0) == Some(j as nat) && j < bs@.len(),
            None => empty_branch(branches(bs@), 0) is None,
        }),
{
    let ghost bv = branches(bs@);
    let mut j: usize = 0;
    while j < bs.len()
        invariant
            j <= bs@.len(),
            bv == branches(bs@),
            empty_branch(bv, j as nat) == empty_branch(bv, 0),
        decreases bs@.len() - j,
    {
        assert(bv[j as int] == branch_view(bs@[j as int]));
        if is_symbol(&bs[j].pattern, "Empty") {
            return Some(j);
        }
        j += 1;
    }
    None
}

/// The next turn of a `case`.
pub open spec fn case_turn(s: VmV, t: TableV, values: ResultV, bs: Seq<PatternBodyV>) -> StepV {
    let f = s.frames.last();
    if values.len() == 0 {
        if f.next == 0 && empty_branch(bs, 0) is Some {
            let p = bs[empty_branch(bs, 0)->Some_0 as int];
            let b = inherited(p.body.free_vars, s.free_vars, s.bindings, t.fresh);
            (
                VmOutV::Next,
                entered(
                    s,
                    p.body,
                    propagated(s.locals, f.saved_env),
                    b.0,
                    f.saved_env,
                    FrameV { next: 1, ..f },
                ),
                at_fresh(t, b.1),
            )
        } else {
            (VmOutV::Next, returned(s, f.out), t)
        }
    } else if f.next >= values.len() {
        (VmOutV::Next, returned(s, f.out), t)
    } else {
        let (a, e) = values[f.next as int];
        match select_branch(bs, 0, a, e, s.known) {
            FindV::Ask(x, q) => (VmOutV::Ask(x, q), s, t),
            FindV::Nothing => (
                VmOutV::Fail("case: no clause matched value "@ + sexpr(a)),
                s,
                t,
            ),
            FindV::Found(j, env) => {
                let p = bs[j as int];
                let more = local_values(p.pattern_vars, env);
                let b = inherited(p.body.free_vars, s.free_vars, s.bindings, t.fresh);
                (
                    VmOutV::Next,
                    entered(
                        s,
                        p.body,
                        propagated(s.locals, env) + more,
                        b.0,
                        env,
                        FrameV { next: f.next + 1, locals_to_pop: more.len(), ..f },
                    ),
                    at_fresh(t, b.1),
                )
            },
        }
    }
}

/// What calls cost together.
pub open spec fn total_cost(s: Seq<PendingV>) -> nat
    decreases s.len(),
{
    if s.len() == 0 {
        0
    } else {
        total_cost(s.drop_last()) + s.last().cost as nat
    }
}

/// Whether no body has side effects.
pub open spec fn all_pure(s: Seq<PendingV>) -> bool {
    forall|i: int| 0 <= i < s.len() ==> (#[trigger] s[i]).pure_body
}

/// The table in which the results of a call are remembered.
pub open spec fn remembering(t: TableV, memo: Option<MemoKeyV>, out: ResultV) -> TableV {
    match memo {
        Some(k) => TableV { memo: t.memo.push((k.0, k.1, result_atoms(out))), ..t },
        None => t,
    }
}

/// The next turn of a call.
pub open spec fn call_turn(
    s: VmV,
    t: TableV,
    pending: Seq<PendingV>,
    memo: Option<MemoKeyV>,
) -> StepV {
    let f = s.frames.last();
    if f.next >= pending.len() {
        (VmOutV::Next, returned(s, f.out), remembering(t, memo, f.out))
    } else if pending.len() - f.next > 1 && all_pure(pending.skip(f.next as int)) {
        match paid(s.budget, total_cost(pending.skip(f.next as int)) as int) {
            None => (VmOutV::Fail("Budget exhausted"@), s, t),
            Some(b) => (
                VmOutV::Next,
                VmV {
                    budget: b,
                    wait: WaitV::Drain(f.next, Seq::empty()),
                    known: Seq::empty(),
                    ..s
                },
                t,
            ),
        }
    } else {
        let p = pending[f.next as int];
        match paid(s.budget, p.cost as int) {
            None => (VmOutV::Fail("Budget exhausted"@), s, t),
            Some(left) => {
                let b = inherited(p.block.free_vars, s.free_vars, s.bindings, t.fresh);
                (
                    VmOutV::Next,
                    entered(
                        VmV { budget: left, ..s },
                        p.block,
                        p.locals,
                        b.0,
                        p.env,
                        FrameV { next: f.next + 1, ..f },
                    ),
                    at_fresh(t, b.1),
                )
            },
        }
    }
}

/// The machine that runs the body of a pending call on its own.
pub open spec fn body_start(p: PendingV, s: VmV, t: TableV) -> (VmV, TableV) {
    let b = inherited(p.block.free_vars, s.free_vars, s.bindings, t.fresh);
    (vm_start(p.block, p.locals, b.0, None, p.env), at_fresh(t, b.1))
}

/// The next body when all pending calls are run on their own.
pub open spec fn drain_turn(
    s: VmV,
    t: TableV,
    k: nat,
    out: ResultV,
    pending: Seq<PendingV>,
    memo: Option<MemoKeyV>,
) -> StepV {
    if k >= pending.len() {
        (VmOutV::Next, returned(s, out), remembering(t, memo, out))
    } else {
        let b = body_start(pending[k as int], s, t);
        (VmOutV::Sub(b.0, None), VmV { wait: WaitV::Drain(k + 1, out), ..s }, b.1)
    }
}

/// The scope of an expression on its own.
pub open spec fn alone() -> crate::eval::machine::vm::compiler::ScopeV {
    VMCompiler::initial(Seq::empty(), None)
}

/// The next turn of an `eval`.
pub open spec fn eval_turn(s: VmV, t: TableV, targets: Seq<(ExprV, EnvV)>) -> StepV {
    let f = s.frames.last();
    if f.next >= targets.len() {
        (VmOutV::Next, returned(s, f.out), t)
    } else {
        let (x, e) = targets[f.next as int];
        let g = FrameV { next: f.next + 1, ..f };
        match compiled(x, alone(), false) {
            Ok(c) => {
                let b = inherited(c.1, s.free_vars, s.bindings, t.fresh);
                (
                    VmOutV::Next,
                    entered(
                        s,
                        BlockV { code: c.0, free_vars: c.1 },
                        Seq::empty(),
                        b.0,
                        e,
                        g,
                    ),
                    at_fresh(t, b.1),
                )
            },
            Err(_) => (
                VmOutV::Run(x, e, s.budget),
                VmV {
                    frames: s.frames.drop_last().push(g),
                    wait: WaitV::EvalRun,
                    known: Seq::empty(),
                    ..s
                },
                t,
            ),
        }
    }
}

/// The next turn of the topmost frame.
pub open spec fn turn(s: VmV, t: TableV) -> StepV {
    if s.frames.len() == 0 {
        (VmOutV::Fail("VM frame missing"@), s, t)
    } else {
        match s.frames.last().kind {
            KindV::Let(values, p) => let_turn(s, t, values, p),
            KindV::If(values, yes, no, names) => if_turn(s, t, values, yes, no, names),
            KindV::Case(values, bs) => case_turn(s, t, values, bs),
            KindV::Call(_, _, pending, memo) => call_turn(s, t, pending, memo),
            KindV::Eval(targets) => eval_turn(s, t, targets),
        }
    }
}

/// Take the topmost frame off.
pub fn pop_frame(st: &mut VMState) -> (r: CallFrame)
    requires
        old(st).frames@.len() > 0,
    ensures
        r@ == old(st)@.frames.last(),
        r == old(st).frames@.last(),
        final(st)@ == (VmV { frames: old(st)@.frames.drop_last(), ..old(st)@ }),
{
    let ghost before = st.frames@;
    proof {
        lemma_frames_pop(before);
    }
    match st.frames.pop() {
        Some(f) => {
            assert(frames(before).drop_last() =~= frames(st.frames@));
            assert(st@ =~= VmV { frames: old(st)@.frames.drop_last(), ..old(st)@ });
            f
        },
        None => {
            assert(false);
            CallFrame {
                return_ip: 0,
                return_code: st.code.clone(),
                locals_to_pop: 0,
                saved_env: st.env.clone(),
                saved_locals: Vec::new(),
                saved_free: st.free_vars.clone(),
                saved_bindings: Vec::new(),
                kind: CallFrameKind::Eval { targets: Arc::new(Vec::new()) },
                next: 0,
                out: Vec::new(),
            }
        },
    }
}

/// Finish the topmost frame with its results.
fn finish_frame(st: &mut VMState)
    requires
        old(st).frames@.len() > 0,
    ensures
        final(st)@ == returned(old(st)@, old(st)@.frames.last().out),
{
    let ghost s0 = st@;
    let frame = pop_frame(st);
    let out = copy_results(&frame.out);
    assert(s0.frames.drop_last().push(frame@) =~= s0.frames);
    return_from(st, frame, out);
}

/// Take the next turn of a `let`.
pub fn run_next_let_iteration(st: &mut VMState, table: &mut FnTable) -> (r: VmOut)
    requires
        old(st).frames@.len() > 0,
        old(st)@.frames.last().kind is Let,
    ensures
        (r@, final(st)@, final(table)@) == let_turn(
            old(st)@,
            old(table)@,
            old(st)@.frames.last().kind->Let_0,
            old(st)@.frames.last().kind->Let_1,
        ),
{
    broadcast use {group_results, group_atoms};

    let ghost s0 = st@;
    let n: usize = st.frames.len();
    proof {
        lemma_frames_pop(st.frames@);
    }
    let frame = &st.frames[n - 1];
    match &frame.kind {
        CallFrameKind::Let { values, pattern } => {
            let pattern = pattern.clone();
            let values = values.clone();
            match find_match(&values, frame.next, &pattern.pattern, &st.known) {
                Find::Ask(x, e) => VmOut::Ask(x, e),
                Find::Nothing => {
                    finish_frame(st);
                    VmOut::Next
                },
                Find::Found(i, m) => {
                    let env = prepend_chain(m, &values[i].1);
                    let more = find_locals(&pattern.pattern_vars, &env);
                    let count: usize = more.len();
                    assert(results(more@).len() == more@.len());
                    let total: usize = values.len();
                    assert(i < total);
                    let locals = propagate(&st.locals, &env);
                    let locals = join_results(locals, more);
                    let bindings = inherit(
                        &pattern.body.free_vars,
                        &st.free_vars,
                        &st.bindings,
                        table,
                    );
                    let mut f = pop_frame(st);
                    let ghost f0 = f@;
                    f.next = i + 1;
                    f.locals_to_pop = count;
                    assert(f@ =~= FrameV {
                        next: (i + 1) as nat,
                        locals_to_pop: count as nat,
                        ..f0
                    });
                    enter(st, f, pattern.body, locals, bindings, env, Ghost(s0));
                    VmOut::Next
                },
            }
        },
        _ => VmOut::Next,
    }
}

/// Take the next turn of a conditional.
pub fn run_next_if_iteration(st: &mut VMState, table: &mut FnTable) -> (r: VmOut)
    requires
        old(st).frames@.len() > 0,
        old(st)@.frames.last().kind is If,
    ensures
        (r@, final(st)@, final(table)@) == if_turn(
            old(st)@,
            old(table)@,
            old(st)@.frames.last().kind->If_0,
            old(st)@.frames.last().kind->If_1,
            old(st)@.frames.last().kind->If_2,
            old(st)@.frames.last().kind->If_3,
        ),
{
    broadcast use {group_results, group_atoms};

    let ghost s0 = st@;
    let n: usize = st.frames.len();
    proof {
        lemma_frames_pop(st.frames@);
    }
    let frame = &st.frames[n - 1];
    match &frame.kind {
        CallFrameKind::If { values, then_code, else_code, free_vars } => {
            let values = values.clone();
            let then_code = then_code.clone();
            let else_code = else_code.clone();
            let free_vars = free_vars.clone();
            let i: usize = frame.next;
            if i >= values.len() {
                finish_frame(st);
                return VmOut::Next;
            }
            let yes: bool = match &values[i].0 {
                Atom::Sym(s) => {
                    let low = to_lower(s.as_str());
                    same(low.as_str(), "true")
                },
                _ => false,
            };
            assert(yes == holds(values@[i as int].0@));
            let mut f = pop_frame(st);
            let ghost f0 = f@;
            let cond: Option<Env> = if yes {
                Some(values[i].1.clone())
            } else {
                None
            };
            let bindings = find_branch_bindings(
                &free_vars,
                &cond,
                &st.free_vars,
                &st.bindings,
                table,
            );
            let env = if yes {
                prepend_chain(values[i].1.clone(), &f.saved_env)
            } else {
                f.saved_env.clone()
            };
            let locals = if yes {
                propagate(&st.locals, &values[i].1)
            } else {
                copy_results(&st.locals)
            };
            let block = Block {
                code: if yes {
                    then_code
                } else {
                    else_code
                },
                free_vars,
            };
            assert(block@ == BlockV {
                code: if yes {
                    ops(then_code@)
                } else {
                    ops(else_code@)
                },
                free_vars: texts(free_vars@),
            });
            f.next = i + 1;
            assert(f@ =~= FrameV { next: (i + 1) as nat, ..f0 });
            enter(st, f, block, locals, bindings, env, Ghost(s0));
            VmOut::Next
        },
        _ => VmOut::Next,
    }
}

/// Take the next turn of a `case`.
pub fn run_next_case_iteration(st: &mut VMState, table: &mut FnTable) -> (r: VmOut)
    requires
        old(st).frames@.len() > 0,
        old(st)@.frames.last().kind is Case,
    ensures
        (r@, final(st)@, final(table)@) == case_turn(
            old(st)@,
            old(table)@,
            old(st)@.frames.last().kind->Case_0,
            old(st)@.frames.last().kind->Case_1,
        ),
{
    broadcast use {group_results, group_atoms};

    let ghost s0 = st@;
    let n: usize = st.frames.len();
    proof {
        lemma_frames_pop(st.frames@);
    }
    let frame = &st.frames[n - 1];
    match &frame.kind {
        CallFrameKind::Case { values, branches: bs } => {
            let values = values.clone();
            let bs = bs.clone();
            let i: usize = frame.next;
            assert(results(values@).len() == values@.len());
            if values.len() == 0 {
                if i != 0 {
                    finish_frame(st);
                    return VmOut::Next;
                }
                match find_empty_branch(&bs) {
                    Some(j) => {
                        assert(branches(bs@)[j as int] == branch_view(bs@[j as int]));
                        let mut f = pop_frame(st);
                        let ghost f0 = f@;
                        let env = f.saved_env.clone();
                        let locals = propagate(&st.locals, &env);
                        let body = bs[j].body.clone();
                        let bindings = inherit(
                            &body.free_vars,
                            &st.free_vars,
                            &st.bindings,
                            table,
                        );
                        f.next = 1;
                        assert(f@ =~= FrameV { next: 1, ..f0 });
                        enter(st, f, body, locals, bindings, env, Ghost(s0));
                        VmOut::Next
                    },
                    None => {
                        finish_frame(st);
                        VmOut::Next
                    },
                }
            } else if i >= values.len() {
                finish_frame(st);
                VmOut::Next
            } else {
                match find_branch(&bs, &values[i].0, &values[i].1, &st.known) {
                    Find::Ask(x, e) => VmOut::Ask(x, e),
                    Find::Nothing => {
                        let t = values[i].0.to_sexpr_string();
                        VmOut::Fail(joined("case: no clause matched value ", t.as_str()))
                    },
                    Find::Found(j, env) => {
                        assert(branches(bs@)[j as int] == branch_view(bs@[j as int]));
                        let more = find_locals(&bs[j].pattern_vars, &env);
                        let count: usize = more.len();
                        assert(results(more@).len() == more@.len());
                        let locals = propagate(&st.locals, &env);
                        let locals = join_results(locals, more);
                        let body = bs[j].body.clone();
                        let bindings = inherit(
                            &body.free_vars,
                            &st.free_vars,
                            &st.bindings,
                            table,
                        );
                        let mut f = pop_frame(st);
                        let ghost f0 = f@;
                        f.next = i + 1;
                        f.locals_to_pop = count;
                        assert(f@ =~= FrameV {
                            next: (i + 1) as nat,
                            locals_to_pop: count as nat,
                            ..f0
                        });
                        enter(st, f, body, locals, bindings, env, Ghost(s0));
                        VmOut::Next
                    },
                }
            }
        },
        _ => VmOut::Next,
    }
}

/// Once calls cost too much, more calls do not help.
proof fn lemma_total_grows(s: Seq<PendingV>, n: int)
    requires
        0 <= n <= s.len(),
    ensures
        total_cost(s.take(n)) <= total_cost(s),
    decreases s.len() - n,
{
    if n == s.len() {
        assert(s.take(n) =~= s);
    } else {
        assert(s.take(n + 1).drop_last() =~= s.take(n));
        lemma_total_grows(s, n + 1);
    }
}

/// Pay for calls from a position on.
fn pay_calls(budget: Option<i64>, pending: &Vec<PendingCall>, from: usize) -> (r: Option<
    Option<i64>,
>)
    requires
        from <= pending@.len(),
    ensures
        r == paid(budget, total_cost(pendings(pending@).skip(from as int)) as int),
{
    let ghost ps = pendings(pending@).skip(from as int);
    match budget {
        None => Some(None),
        Some(b) => {
            let mut left: i128 = b as i128;
            let mut i: usize = from;
            assert(ps.take(0) =~= Seq::<PendingV>::empty());
            while i < pending.len()
                invariant
                    from <= i <= pending@.len(),
                    ps == pendings(pending@).skip(from as int),
                    budget == Some(b),
                    left == b - total_cost(ps.take(i - from)),
                    left > 0 || i == from,
                    left <= b,
                decreases pending@.len() - i,
            {
                assert(ps.take(i - from + 1).drop_last() =~= ps.take(i - from));
                assert(ps.take(i - from + 1).last() == pending@[i as int]@);
                left = left - pending[i].cost as i128;
                proof {
                    lemma_total_grows(ps, i - from + 1);
                }
                assert(left == b - total_cost(ps.take(i - from + 1)));
                i += 1;
                if left <= 0 {
                    assert(b <= total_cost(ps));
                    return None;
                }
            }
            assert(ps.take(pending@.len() - from) =~= ps);
            if left <= 0 {
                None
            } else {
                Some(Some(left as i64))
            }
        },
    }
}

/// Whether no body from a position on has side effects.
fn pure_from(pending: &Vec<PendingCall>, from: usize) -> (r: bool)
    requires
        from <= pending@.len(),
    ensures
        r == all_pure(pendings(pending@).skip(from as int)),
{
    let ghost ps = pendings(pending@).skip(from as int);
    let mut i: usize = from;
    while i < pending.len()
        invariant
            from <= i <= pending@.len(),
            ps == pendings(pending@).skip(from as int),
            forall|j: int| 0 <= j < i - from ==> (#[trigger] ps[j]).pure_body,
        decreases pending@.len() - i,
    {
        assert(ps[i - from] == pending@[i as int]@);
        if !pending[i].pure_body {
            return false;
        }
        i += 1;
    }
    true
}

/// Remember the results of a call.
fn remember(table: &mut FnTable, memo: &Option<MemoKey>, out: &ResultSet)
    ensures
        final(table)@ == remembering(old(table)@, memo_key(*memo), results(out@)),
{
    match memo {
        Some(k) => {
            let args = copy_atoms(&k.args, 0);
            assert(k.args@.skip(0) =~= k.args@);
            table.memo_set(k.name.as_str(), args, atoms_of(out));
        },
        None => {},
    }
}

/// Take the next turn of a call.
pub fn run_next_call_iteration(st: &mut VMState, table: &mut FnTable) -> (r: VmOut)
    requires
        old(st).frames@.len() > 0,
        old(st)@.frames.last().kind is Call,
    ensures
        (r@, final(st)@, final(table)@) == call_turn(
            old(st)@,
            old(table)@,
            old(st)@.frames.last().kind->Call_2,
            old(st)@.frames.last().kind->Call_3,
        ),
{
    broadcast use {group_results, group_atoms};

    let ghost s0 = st@;
    let n: usize = st.frames.len();
    proof {
        lemma_frames_pop(st.frames@);
    }
    let frame = &st.frames[n - 1];
    match &frame.kind {
        CallFrameKind::Call { name, arity, pending, memo } => {
            let pending = pending.clone();
            let i: usize = frame.next;
            assert(pendings(pending@).len() == pending@.len());
            if i >= pending.len() {
                remember(table, memo, &frame.out);
                finish_frame(st);
                return VmOut::Next;
            }
            if pending.len() - i > 1 && pure_from(&pending, i) {
                return match pay_calls(st.budget, &pending, i) {
                    None => VmOut::Fail("Budget exhausted".to_owned()),
                    Some(b) => {
                        let out: ResultSet = Vec::new();
                        assert(results(out@) =~= Seq::empty());
                        st.budget = b;
                        st.wait = Wait::Drain(i, out);
                        st.known = Vec::new();
                        assert(known_values(st.known@) =~= Seq::empty());
                        VmOut::Next
                    },
                };
            }
            assert(pendings(pending@)[i as int] == pending@[i as int]@);
            match pay(st.budget, pending[i].cost as i128) {
                None => VmOut::Fail("Budget exhausted".to_owned()),
                Some(left) => {
                    let block = pending[i].block.clone();
                    let locals = copy_results(&pending[i].locals);
                    let env = pending[i].env.clone();
                    let bindings = inherit(&block.free_vars, &st.free_vars, &st.bindings, table);
                    let mut f = pop_frame(st);
                    let ghost f0 = f@;
                    f.next = i + 1;
                    assert(f@ =~= FrameV { next: (i + 1) as nat, ..f0 });
                    st.budget = left;
                    enter(
                        st,
                        f,
                        block,
                        locals,
                        bindings,
                        env,
                        Ghost(VmV { budget: left, ..s0 }),
                    );
                    VmOut::Next
                },
            }
        },
        _ => VmOut::Next,
    }
}

/// Run the next pending call on its own.
pub fn run_next_drain(st: &mut VMState, table: &mut FnTable, k: usize, out: ResultSet) -> (r: VmOut)
    requires
        old(st).frames@.len() > 0,
        old(st)@.frames.last().kind is Call,
    ensures
        (r@, final(st)@, final(table)@) == drain_turn(
            old(st)@,
            old(table)@,
            k as nat,
            results(out@),
            old(st)@.frames.last().kind->Call_2,
            old(st)@.frames.last().kind->Call_3,
        ),
{
    broadcast use {group_results, group_atoms};

    let ghost s0 = st@;
    let n: usize = st.frames.len();
    proof {
        lemma_frames_pop(st.frames@);
    }
    let frame = &st.frames[n - 1];
    match &frame.kind {
        CallFrameKind::Call { name, arity, pending, memo } => {
            let pending = pending.clone();
            assert(pendings(pending@).len() == pending@.len());
            if k >= pending.len() {
                remember(table, memo, &out);
                let f = pop_frame(st);
                assert(s0.frames.drop_last().push(f@) =~= s0.frames);
                return_from(st, f, out);
                return VmOut::Next;
            }
            assert(pendings(pending@)[k as int] == pending@[k as int]@);
            let block = pending[k].block.clone();
            let bindings = inherit(&block.free_vars, &st.free_vars, &st.bindings, table);
            let sub = VMState::start(
                block,
                copy_results(&pending[k].locals),
                bindings,
                None,
                pending[k].env.clone(),
            );
            st.wait = Wait::Drain(k + 1, out);
            VmOut::Sub(sub, None)
        },
        _ => VmOut::Next,
    }
}

/// Compile an expression on its own.
pub fn compile_alone(e: &Expr) -> (r: Option<Block>)
    ensures
        (match r {
            Some(b) => compiled(e@, alone(), false) == Ok::<
                (Seq<OpcodeV>, Seq<Seq<char>>),
                Seq<char>,
            >((b@.code, b@.free_vars)),
            None => compiled(e@, alone(), false) is Err,
        }),
{
    let none: Vec<Expr> = Vec::new();
    assert(exprs(none@) =~= Seq::<ExprV>::empty());
    let mut comp = VMCompiler::new(&none, None);
    let mut code: Vec<Opcode> = Vec::new();
    assert(ops(code@) =~= Seq::<OpcodeV>::empty());
    match comp.compile(e, &mut code, false) {
        Ok(_) => {
            let ghost x = compiled(e@, alone(), false);
            assert(Seq::<OpcodeV>::empty() + x->Ok_0.0 =~= x->Ok_0.0);
            let b = Block { code: Arc::new(code), free_vars: Arc::new(comp.free_vars) };
            assert(b@ == BlockV { code: x->Ok_0.0, free_vars: x->Ok_0.1 });
            Some(b)
        },
        Err(_) => None,
    }
}

/// Take the next turn of an `eval`.
pub fn run_next_eval_iteration(st: &mut VMState, table: &mut FnTable) -> (r: VmOut)
    requires
        old(st).frames@.len() > 0,
        old(st)@.frames.last().kind is Eval,
    ensures
        (r@, final(st)@, final(table)@) == eval_turn(
            old(st)@,
            old(table)@,
            old(st)@.frames.last().kind->Eval_0,
        ),
{
    broadcast use {group_results, group_atoms, lemma_frames_push};

    let ghost s0 = st@;
    let n: usize = st.frames.len();
    proof {
        lemma_frames_pop(st.frames@);
    }
    let frame = &st.frames[n - 1];
    match &frame.kind {
        CallFrameKind::Eval { targets } => {
            let targets = targets.clone();
            let i: usize = frame.next;
            if i >= targets.len() {
                finish_frame(st);
                return VmOut::Next;
            }
            assert(target_values(targets@)[i as int] == (
                targets@[i as int].0@,
                targets@[i as int].1@,
            ));
            let env = targets[i].1.clone();
            let mut f = pop_frame(st);
            let ghost f0 = f@;
            f.next = i + 1;
            assert(f@ =~= FrameV { next: (i + 1) as nat, ..f0 });
            match compile_alone(&targets[i].0) {
                Some(block) => {
                    let locals: ResultSet = Vec::new();
                    assert(results(locals@) =~= Seq::empty());
                    let bindings = inherit(&block.free_vars, &st.free_vars, &st.bindings, table);
                    enter(st, f, block, locals, bindings, env, Ghost(s0));
                    VmOut::Next
                },
                None => {
                    let x = targets[i].0.clone();
                    st.frames.push(f);
                    st.wait = Wait::EvalRun;
                    st.known = Vec::new();
                    assert(known_values(st.known@) =~= Seq::empty());
                    VmOut::Run(x, env, st.budget)
                },
            }
        },
        _ => VmOut::Next,
    }
}

/// Take the next turn of the topmost frame.
pub fn run_next_turn(st: &mut VMState, table: &mut FnTable) -> (r: VmOut)
    ensures
        (r@, final(st)@, final(table)@) == turn(old(st)@, old(table)@),
{
    let n: usize = st.frames.len();
    assert(frames(st.frames@).len() == n);
    if n == 0 {
        return VmOut::Fail("VM frame missing".to_owned());
    }
    proof {
        lemma_frames_pop(st.frames@);
    }
    match &st.frames[n - 1].kind {
        CallFrameKind::Let { .. } => run_next_let_iteration(st, table),
        CallFrameKind::If { .. } => run_next_if_iteration(st, table),
        CallFrameKind::Case { .. } => run_next_case_iteration(st, table),
        CallFrameKind::Call { .. } => run_next_call_iteration(st, table),
        CallFrameKind::Eval { .. } => run_next_eval_iteration(st, table),
    }
}

} // verus!
