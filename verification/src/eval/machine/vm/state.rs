//! State of the bytecode machine.
use crate::atom::Atom;
use crate::atom::AtomV;
use crate::atom::atoms;
use crate::atom::group_atoms;
use crate::atom::symbol;
use crate::builtins::ListLoop;
use crate::builtins::LoopV;
use crate::builtins::loops::loops;
use crate::env::Env;
use crate::env::EnvV;
use crate::eval::machine::budget::ComboV;
use crate::eval::machine::budget::ResultSet;
use crate::eval::machine::budget::ResultV;
use crate::eval::machine::budget::combo_values;
use crate::eval::machine::budget::result_sets;
use crate::eval::machine::budget::results;
use crate::eval::machine::vm::op::Block;
use crate::eval::machine::vm::op::BlockV;
use crate::eval::machine::vm::op::CaseBranch;
use crate::eval::machine::vm::op::Opcode;
use crate::eval::machine::vm::op::OpcodeV;
use crate::eval::machine::vm::op::PatternBody;
use crate::eval::machine::vm::op::PatternBodyV;
use crate::eval::machine::vm::op::branches;
use crate::eval::machine::vm::op::ops;
use crate::eval::shared::fresh::fresh_name;
use crate::eval::shared::fresh::is_generated;
use crate::eval::shared::fresh::is_generated_var_name;
use crate::eval::shared::fresh::make_fresh_name;
use crate::eval::shared::pattern::KnownV;
use crate::eval::shared::pattern::PatternValue;
use crate::eval::shared::pattern::known_values;
use crate::expr::Expr;
use crate::expr::ExprV;
use crate::func::FnTable;
use crate::func::Snapshot;
use crate::func::SnapshotV;
use crate::func::TableV;
use crate::func::next_id;
use crate::text::first_index;
use crate::text::first_position;
use crate::text::texts;
use std::sync::Arc;
use vstd::prelude::*;
use vstd::string::*;

verus! {

/// A call of a user-defined function that is still to be run.
pub struct PendingCall {
    /// The body.
    pub block: Block,
    /// The environment of the body.
    pub env: Env,
    /// The local variables of the body.
    pub locals: Arc<ResultSet>,
    /// What the call costs.
    pub cost: u64,
    /// Whether the body has no side effects of its own.
    pub pure_body: bool,
}

/// The value of a pending call.
pub struct PendingV {
    /// The body.
    pub block: BlockV,
    /// The environment.
    pub env: EnvV,
    /// The local variables.
    pub locals: ResultV,
    /// The cost.
    pub cost: u64,
    /// Whether the body has no side effects.
    pub pure_body: bool,
}

impl View for PendingCall {
    type V = PendingV;

    open spec fn view(&self) -> PendingV {
        PendingV {
            block: self.block@,
            env: self.env@,
            locals: results(self.locals@),
            cost: self.cost,
            pure_body: self.pure_body,
        }
    }
}

/// The values of pending calls.
pub open spec fn pendings(s: Seq<PendingCall>) -> Seq<PendingV> {
    Seq::new(s.len(), |i: int| s[i]@)
}

/// The key under which the results of a call are remembered.
pub struct MemoKey {
    /// The function.
    pub name: String,
    /// The arguments.
    pub args: Vec<Atom>,
}

/// The value of a key.
pub type MemoKeyV = (Seq<char>, Seq<AtomV>);

/// The value of an optional key.
pub open spec fn memo_key(k: Option<MemoKey>) -> Option<MemoKeyV> {
    match k {
        Some(m) => Some((m.name@, atoms(m.args@))),
        None => None,
    }
}

/// What a frame iterates over.
pub enum CallFrameKind {
    /// The values that a `let` binds.
    Let {
        /// The values.
        values: Arc<ResultSet>,
        /// The pattern and the body.
        pattern: PatternBody,
    },
    /// The values of a condition.
    If {
        /// The values.
        values: Arc<ResultSet>,
        /// What to do when the condition holds.
        then_code: Arc<Vec<Opcode>>,
        /// What to do when it does not.
        else_code: Arc<Vec<Opcode>>,
        /// The names of the free variables.
        free_vars: Arc<Vec<String>>,
    },
    /// The values that a `case` looks at.
    Case {
        /// The values.
        values: Arc<ResultSet>,
        /// The branches.
        branches: Arc<Vec<CaseBranch>>,
    },
    /// The calls of a user-defined function.
    Call {
        /// The function.
        name: String,
        /// The number of arguments.
        arity: u8,
        /// The calls.
        pending: Arc<Vec<PendingCall>>,
        /// The key under which the results are remembered.
        memo: Option<MemoKey>,
    },
    /// The values that `eval` evaluates.
    Eval {
        /// The expressions and their environments.
        targets: Arc<Vec<(Expr, Env)>>,
    },
}

/// The value of what a frame iterates over.
pub enum KindV {
    /// The values that a `let` binds.
    Let(ResultV, PatternBodyV),
    /// The values of a condition.
    If(ResultV, Seq<OpcodeV>, Seq<OpcodeV>, Seq<Seq<char>>),
    /// The values that a `case` looks at.
    Case(ResultV, Seq<PatternBodyV>),
    /// The calls of a user-defined function.
    Call(Seq<char>, u8, Seq<PendingV>, Option<MemoKeyV>),
    /// The values that `eval` evaluates.
    Eval(Seq<(ExprV, EnvV)>),
}

/// The values of expressions with environments.
pub open spec fn target_values(s: Seq<(Expr, Env)>) -> Seq<(ExprV, EnvV)> {
    Seq::new(s.len(), |i: int| (s[i].0@, s[i].1@))
}

impl View for CallFrameKind {
    type V = KindV;

    open spec fn view(&self) -> KindV {
        match self {
            CallFrameKind::Let { values, pattern } => KindV::Let(results(values@), pattern@),
            CallFrameKind::If { values, then_code, else_code, free_vars } => KindV::If(
                results(values@),
                ops(then_code@),
                ops(else_code@),
                texts(free_vars@),
            ),
            CallFrameKind::Case { values, branches: bs } => KindV::Case(
                results(values@),
                branches(bs@),
            ),
            CallFrameKind::Call { name, arity, pending, memo } => KindV::Call(
                name@,
                *arity,
                pendings(pending@),
                memo_key(*memo),
            ),
            CallFrameKind::Eval { targets } => KindV::Eval(target_values(targets@)),
        }
    }
}

/// A suspended piece of code: it is continued once the iteration is over.
pub struct CallFrame {
    /// Where to continue.
    pub return_ip: usize,
    /// The code to continue.
    pub return_code: Arc<Vec<Opcode>>,
    /// The local variables to drop after each turn.
    pub locals_to_pop: usize,
    /// The environment.
    pub saved_env: Env,
    /// The local variables during a call.
    pub saved_locals: ResultSet,
    /// The names of the free variables.
    pub saved_free: Arc<Vec<String>>,
    /// The values of the free variables.
    pub saved_bindings: Vec<Atom>,
    /// What is iterated over.
    pub kind: CallFrameKind,
    /// The position of the next turn.
    pub next: usize,
    /// The results so far.
    pub out: ResultSet,
}

/// The value of a frame.
#[verifier::ext_equal]
pub struct FrameV {
    /// Where to continue.
    pub return_ip: nat,
    /// The code to continue.
    pub return_code: Seq<OpcodeV>,
    /// The local variables to drop after each turn.
    pub locals_to_pop: nat,
    /// The environment.
    pub saved_env: EnvV,
    /// The local variables during a call.
    pub saved_locals: ResultV,
    /// The names of the free variables.
    pub saved_free: Seq<Seq<char>>,
    /// The values of the free variables.
    pub saved_bindings: Seq<AtomV>,
    /// What is iterated over.
    pub kind: KindV,
    /// The position of the next turn.
    pub next: nat,
    /// The results so far.
    pub out: ResultV,
}

impl View for CallFrame {
    type V = FrameV;

    open spec fn view(&self) -> FrameV {
        FrameV {
            return_ip: self.return_ip as nat,
            return_code: ops(self.return_code@),
            locals_to_pop: self.locals_to_pop as nat,
            saved_env: self.saved_env@,
            saved_locals: results(self.saved_locals@),
            saved_free: texts(self.saved_free@),
            saved_bindings: atoms(self.saved_bindings@),
            kind: self.kind@,
            next: self.next as nat,
            out: results(self.out@),
        }
    }
}

/// The values of frames.
pub open spec fn frames(s: Seq<CallFrame>) -> Seq<FrameV> {
    Seq::new(s.len(), |i: int| s[i]@)
}

/// Adding a frame adds its value.
pub broadcast proof fn lemma_frames_push(s: Seq<CallFrame>, f: CallFrame)
    ensures
        #[trigger] frames(s.push(f)) == frames(s).push(f@),
{
    assert(frames(s.push(f)) =~= frames(s).push(f@));
}

/// The combinations of head and arguments that a call works through.
pub struct Calls {
    /// The number of arguments.
    pub arity: u8,
    /// The combinations.
    pub combos: Vec<(Vec<Atom>, Env)>,
    /// The position of the next one.
    pub next: usize,
    /// The results so far.
    pub out: ResultSet,
    /// The calls of user-defined functions so far.
    pub pending: Vec<PendingCall>,
    /// The key under which the results are remembered.
    pub memo: Option<MemoKey>,
}

/// The value of the combinations that a call works through.
#[verifier::ext_equal]
pub struct CallsV {
    /// The number of arguments.
    pub arity: u8,
    /// The combinations.
    pub combos: Seq<ComboV>,
    /// The position of the next one.
    pub next: nat,
    /// The results so far.
    pub out: ResultV,
    /// The calls of user-defined functions so far.
    pub pending: Seq<PendingV>,
    /// The key under which the results are remembered.
    pub memo: Option<MemoKeyV>,
}

impl View for Calls {
    type V = CallsV;

    open spec fn view(&self) -> CallsV {
        CallsV {
            arity: self.arity,
            combos: combo_values(self.combos@),
            next: self.next as nat,
            out: results(self.out@),
            pending: pendings(self.pending@),
            memo: memo_key(self.memo),
        }
    }
}

/// What `unify` still has to go through.
pub enum UnifyRest {
    /// Matches in a space: the local variables and the environment of each.
    Space(Vec<(ResultSet, Env)>),
    /// Values to match, and whether there is something to match them with.
    Values(ResultSet, bool),
    /// Nothing.
    Nothing,
}

/// The value of what `unify` still has to go through.
pub enum UnifyRestV {
    /// Matches in a space.
    Space(Seq<(ResultV, EnvV)>),
    /// Values to match.
    Values(ResultV, bool),
    /// Nothing.
    Nothing,
}

/// The values of bodies that wait to be run: local variables and environment.
pub open spec fn start_values(s: Seq<(ResultSet, Env)>) -> Seq<(ResultV, EnvV)> {
    Seq::new(s.len(), |i: int| (results(s[i].0@), s[i].1@))
}

impl View for UnifyRest {
    type V = UnifyRestV;

    open spec fn view(&self) -> UnifyRestV {
        match self {
            UnifyRest::Space(v) => UnifyRestV::Space(start_values(v@)),
            UnifyRest::Values(v, b) => UnifyRestV::Values(results(v@), *b),
            UnifyRest::Nothing => UnifyRestV::Nothing,
        }
    }
}

/// What the machine waits for, or does between two instructions.
pub enum Wait {
    /// It is between two instructions.
    Ready,
    /// The topmost frame takes its next turn.
    Iterate,
    /// A call works through its combinations.
    Calls(Calls),
    /// The host computes the values of a built-in function.
    CallHost(Calls),
    /// Loops compute the value of a built-in function.
    Loops(Vec<ListLoop>, Calls),
    /// The host computes a step of a loop.
    LoopHost(Vec<ListLoop>, Calls),
    /// Code computes a step of a loop.
    LoopRun(Vec<ListLoop>, Calls),
    /// A body runs for each pending call.
    Drain(usize, ResultSet),
    /// A value is evaluated by the continuation machine.
    EvalRun,
    /// The values of an expression or of the host are pushed.
    Push,
    /// The first value of a body is pushed.
    Once,
    /// The values of a body are put into a list.
    Within,
    /// The values of a body under a mutex are pushed.
    WithMutex,
    /// The values of a body are pushed, or its effects undone.
    Transaction(Snapshot),
    /// Bodies run in sequence; the result of the last one counts.
    Progn(usize, ResultSet),
    /// Bodies run in sequence; the result of the first one counts.
    Prog1(usize, ResultSet),
    /// Steps of a chain run in sequence: how many have started.
    Chain(usize),
    /// The body after the steps of a chain runs.
    ChainLast,
    /// A body runs for each match in a space: what is left, the values of the
    /// free variables, the budget, and the results.
    Match(Vec<(ResultSet, Env)>, Vec<Atom>, Option<i64>, ResultSet),
    /// A body runs for each match: what is left, the environment, the values
    /// of the free variables, whether there was a match, whether the other
    /// branch is due, and the results.
    Unify(UnifyRest, Env, Vec<Atom>, bool, bool, ResultSet),
    /// A list is folded with a body: the accumulator, the list, the position.
    FoldlLambda(Atom, Vec<Atom>, usize),
    /// A list is mapped with a body: the list, the position, the results.
    MapLambda(Vec<Atom>, usize, Vec<Atom>),
    /// A list is filtered with a body.
    FilterLambda(Vec<Atom>, usize, Vec<Atom>),
    /// The matching elements of a list are mapped with a body.
    MapPattern(Vec<Atom>, usize, Vec<Atom>),
    /// The matching elements of a list are filtered with a body.
    FilterPattern(Vec<Atom>, usize, Vec<Atom>),
    /// Values are folded with a function: its name, the environment, the
    /// accumulator, the values, the position.
    Foldall(Expr, Env, Atom, Vec<Atom>, usize),
    /// Values are checked with a function.
    Forall(Expr, Env, Vec<Atom>, usize),
    /// A list is folded with a function.
    Foldl(Expr, Atom, Vec<Atom>, usize),
}

/// The value of what the machine waits for.
pub enum WaitV {
    /// It is between two instructions.
    Ready,
    /// The topmost frame takes its next turn.
    Iterate,
    /// A call works through its combinations.
    Calls(CallsV),
    /// The host computes the values of a built-in function.
    CallHost(CallsV),
    /// Loops compute the value of a built-in function.
    Loops(Seq<LoopV>, CallsV),
    /// The host computes a step of a loop.
    LoopHost(Seq<LoopV>, CallsV),
    /// Code computes a step of a loop.
    LoopRun(Seq<LoopV>, CallsV),
    /// A body runs for each pending call.
    Drain(nat, ResultV),
    /// A value is evaluated by the continuation machine.
    EvalRun,
    /// The values of an expression or of the host are pushed.
    Push,
    /// The first value of a body is pushed.
    Once,
    /// The values of a body are put into a list.
    Within,
    /// The values of a body under a mutex are pushed.
    WithMutex,
    /// The values of a body are pushed, or its effects undone.
    Transaction(SnapshotV),
    /// Bodies run in sequence; the result of the last one counts.
    Progn(nat, ResultV),
    /// Bodies run in sequence; the result of the first one counts.
    Prog1(nat, ResultV),
    /// Steps of a chain run in sequence.
    Chain(nat),
    /// The body after the steps of a chain runs.
    ChainLast,
    /// A body runs for each match in a space.
    Match(Seq<(ResultV, EnvV)>, Seq<AtomV>, Option<i64>, ResultV),
    /// A body runs for each match.
    Unify(UnifyRestV, EnvV, Seq<AtomV>, bool, bool, ResultV),
    /// A list is folded with a body.
    FoldlLambda(AtomV, Seq<AtomV>, nat),
    /// A list is mapped with a body.
    MapLambda(Seq<AtomV>, nat, Seq<AtomV>),
    /// A list is filtered with a body.
    FilterLambda(Seq<AtomV>, nat, Seq<AtomV>),
    /// The matching elements of a list are mapped with a body.
    MapPattern(Seq<AtomV>, nat, Seq<AtomV>),
    /// The matching elements of a list are filtered with a body.
    FilterPattern(Seq<AtomV>, nat, Seq<AtomV>),
    /// Values are folded with a function.
    Foldall(ExprV, EnvV, AtomV, Seq<AtomV>, nat),
    /// Values are checked with a function.
    Forall(ExprV, EnvV, Seq<AtomV>, nat),
    /// A list is folded with a function.
    Foldl(ExprV, AtomV, Seq<AtomV>, nat),
}

impl View for Wait {
    type V = WaitV;

    open spec fn view(&self) -> WaitV {
        match self {
            Wait::Ready => WaitV::Ready,
            Wait::Iterate => WaitV::Iterate,
            Wait::Calls(c) => WaitV::Calls(c@),
            Wait::CallHost(c) => WaitV::CallHost(c@),
            Wait::Loops(l, c) => WaitV::Loops(loops(l@), c@),
            Wait::LoopHost(l, c) => WaitV::LoopHost(loops(l@), c@),
            Wait::LoopRun(l, c) => WaitV::LoopRun(loops(l@), c@),
            Wait::Drain(n, rs) => WaitV::Drain(*n as nat, results(rs@)),
            Wait::EvalRun => WaitV::EvalRun,
            Wait::Push => WaitV::Push,
            Wait::Once => WaitV::Once,
            Wait::Within => WaitV::Within,
            Wait::WithMutex => WaitV::WithMutex,
            Wait::Transaction(s) => WaitV::Transaction(s@),
            Wait::Progn(n, rs) => WaitV::Progn(*n as nat, results(rs@)),
            Wait::Prog1(n, rs) => WaitV::Prog1(*n as nat, results(rs@)),
            Wait::Chain(n) => WaitV::Chain(*n as nat),
            Wait::ChainLast => WaitV::ChainLast,
            Wait::Match(v, b, budget, rs) => WaitV::Match(
                start_values(v@),
                atoms(b@),
                *budget,
                results(rs@),
            ),
            Wait::Unify(rest, e, b, any, other, rs) => WaitV::Unify(
                rest@,
                e@,
                atoms(b@),
                *any,
                *other,
                results(rs@),
            ),
            Wait::FoldlLambda(a, v, n) => WaitV::FoldlLambda(a@, atoms(v@), *n as nat),
            Wait::MapLambda(v, n, out) => WaitV::MapLambda(atoms(v@), *n as nat, atoms(out@)),
            Wait::FilterLambda(v, n, out) => WaitV::FilterLambda(
                atoms(v@),
                *n as nat,
                atoms(out@),
            ),
            Wait::MapPattern(v, n, out) => WaitV::MapPattern(atoms(v@), *n as nat, atoms(out@)),
            Wait::FilterPattern(v, n, out) => WaitV::FilterPattern(
                atoms(v@),
                *n as nat,
                atoms(out@),
            ),
            Wait::Foldall(h, e, a, v, n) => WaitV::Foldall(h@, e@, a@, atoms(v@), *n as nat),
            Wait::Forall(h, e, v, n) => WaitV::Forall(h@, e@, atoms(v@), *n as nat),
            Wait::Foldl(h, a, v, n) => WaitV::Foldl(h@, a@, atoms(v@), *n as nat),
        }
    }
}

/// The state of the machine.
pub struct VMState {
    /// The code that runs.
    pub code: Arc<Vec<Opcode>>,
    /// The position of the next instruction.
    pub ip: usize,
    /// The results on the stack.
    pub stack: Vec<ResultSet>,
    /// The local variables.
    pub locals: ResultSet,
    /// The names of the free variables.
    pub free_vars: Arc<Vec<String>>,
    /// The values of the free variables.
    pub bindings: Vec<Atom>,
    /// The suspended pieces of code.
    pub frames: Vec<CallFrame>,
    /// What may still be spent.
    pub budget: Option<i64>,
    /// Whether other alternatives were given up.
    pub cut_executed: bool,
    /// The environment.
    pub env: Env,
    /// The environment at the start.
    pub home: Env,
    /// What the machine waits for.
    pub wait: Wait,
    /// The values of patterns that were run as code.
    pub known: Vec<PatternValue>,
}

/// The value of a state.
#[verifier::ext_equal]
pub struct VmV {
    /// The code that runs.
    pub code: Seq<OpcodeV>,
    /// The position of the next instruction.
    pub ip: nat,
    /// The results on the stack.
    pub stack: Seq<ResultV>,
    /// The local variables.
    pub locals: ResultV,
    /// The names of the free variables.
    pub free_vars: Seq<Seq<char>>,
    /// The values of the free variables.
    pub bindings: Seq<AtomV>,
    /// The suspended pieces of code.
    pub frames: Seq<FrameV>,
    /// What may still be spent.
    pub budget: Option<i64>,
    /// Whether other alternatives were given up.
    pub cut: bool,
    /// The environment.
    pub env: EnvV,
    /// The environment at the start.
    pub home: EnvV,
    /// What the machine waits for.
    pub wait: WaitV,
    /// The values of patterns that were run as code.
    pub known: Seq<KnownV>,
}

impl View for VMState {
    type V = VmV;

    open spec fn view(&self) -> VmV {
        VmV {
            code: ops(self.code@),
            ip: self.ip as nat,
            stack: result_sets(self.stack@),
            locals: results(self.locals@),
            free_vars: texts(self.free_vars@),
            bindings: atoms(self.bindings@),
            frames: frames(self.frames@),
            budget: self.budget,
            cut: self.cut_executed,
            env: self.env@,
            home: self.home@,
            wait: self.wait@,
            known: known_values(self.known@),
        }
    }
}

/// The value that a free variable starts with, and the next fresh number.
///
/// A variable that the surrounding code has keeps its value; a generated name
/// stands for itself; another name gets a fresh one.
pub open spec fn inherited_one(
    name: Seq<char>,
    map: Seq<Seq<char>>,
    bindings: Seq<AtomV>,
    fresh: u64,
) -> (AtomV, u64) {
    match first_index(map, name) {
        Some(p) => (
            if p < bindings.len() {
                bindings[p]
            } else {
                symbol("()"@)
            },
            fresh,
        ),
        None => if is_generated(name) {
            (symbol(name), fresh)
        } else {
            (symbol(fresh_name(name, fresh)), next_id(fresh))
        },
    }
}

/// The values that free variables start with, and the next fresh number.
pub open spec fn inherited(
    names: Seq<Seq<char>>,
    map: Seq<Seq<char>>,
    bindings: Seq<AtomV>,
    fresh: u64,
) -> (Seq<AtomV>, u64)
    decreases names.len(),
{
    if names.len() == 0 {
        (Seq::empty(), fresh)
    } else {
        let before = inherited(names.drop_last(), map, bindings, fresh);
        let last = inherited_one(names.last(), map, bindings, before.1);
        (before.0.push(last.0), last.1)
    }
}

/// The table with another fresh number.
pub open spec fn at_fresh(t: TableV, fresh: u64) -> TableV {
    TableV { fresh, ..t }
}

/// Find the value that a free variable starts with.
pub fn inherit_one(name: &str, map: &Vec<String>, bindings: &Vec<Atom>, table: &mut FnTable) -> (r:
    Atom)
    ensures
        r@ == inherited_one(name@, texts(map@), atoms(bindings@), old(table)@.fresh).0,
        final(table)@ == at_fresh(
            old(table)@,
            inherited_one(name@, texts(map@), atoms(bindings@), old(table)@.fresh).1,
        ),
{
    broadcast use group_atoms;

    match first_position(map, name) {
        Some(p) => {
            assert(atoms(bindings@).len() == bindings@.len());
            if p < bindings.len() {
                bindings[p].clone()
            } else {
                Atom::sym("()")
            }
        },
        None => {
            if is_generated_var_name(name) {
                Atom::sym(name)
            } else {
                let id: u64 = table.next_fresh_id();
                let n = make_fresh_name(name, id);
                Atom::sym(n.as_str())
            }
        },
    }
}

/// Find the values that free variables start with.
pub fn inherit(names: &Vec<String>, map: &Vec<String>, bindings: &Vec<Atom>, table: &mut FnTable)
    -> (r: Vec<Atom>)
    ensures
        atoms(r@) == inherited(
            texts(names@),
            texts(map@),
            atoms(bindings@),
            old(table)@.fresh,
        ).0,
        final(table)@ == at_fresh(
            old(table)@,
            inherited(texts(names@), texts(map@), atoms(bindings@), old(table)@.fresh).1,
        ),
{
    broadcast use group_atoms;

    let ghost ns = texts(names@);
    let ghost ms = texts(map@);
    let ghost bs = atoms(bindings@);
    let ghost t0 = table@;
    let mut out: Vec<Atom> = Vec::new();
    let mut i: usize = 0;
    assert(ns.take(0) =~= Seq::<Seq<char>>::empty());
    assert(atoms(out@) =~= Seq::<AtomV>::empty());
    while i < names.len()
        invariant
            i <= names@.len(),
            ns == texts(names@),
            ms == texts(map@),
            bs == atoms(bindings@),
            t0 == old(table)@,
            atoms(out@) == inherited(ns.take(i as int), ms, bs, t0.fresh).0,
            table@ == at_fresh(t0, inherited(ns.take(i as int), ms, bs, t0.fresh).1),
        decreases names@.len() - i,
    {
        assert(ns.take(i + 1).drop_last() =~= ns.take(i as int));
        let a = inherit_one(names[i].as_str(), map, bindings, table);
        out.push(a);
        i += 1;
    }
    assert(ns.take(names@.len() as int) =~= ns);
    out
}

/// A state at the start of code, with given local variables, values of free
/// variables, budget and environment.
pub open spec fn vm_start(
    block: BlockV,
    locals: ResultV,
    bindings: Seq<AtomV>,
    budget: Option<i64>,
    env: EnvV,
) -> VmV {
    VmV {
        code: block.code,
        ip: 0,
        stack: Seq::empty(),
        locals,
        free_vars: block.free_vars,
        bindings,
        frames: Seq::empty(),
        budget,
        cut: false,
        env,
        home: env,
        wait: WaitV::Ready,
        known: Seq::empty(),
    }
}

impl VMState {
    /// A state at the start of code.
    pub fn start(
        block: Block,
        locals: ResultSet,
        bindings: Vec<Atom>,
        budget: Option<i64>,
        env: Env,
    ) -> (r: VMState)
        ensures
            r@ == vm_start(block@, results(locals@), atoms(bindings@), budget, env@),
    {
        let st = VMState {
            code: block.code,
            ip: 0,
            stack: Vec::new(),
            locals,
            free_vars: block.free_vars,
            bindings,
            frames: Vec::new(),
            budget,
            cut_executed: false,
            env: env.clone(),
            home: env,
            wait: Wait::Ready,
            known: Vec::new(),
        };
        assert(st@ =~= vm_start(block@, results(locals@), atoms(bindings@), budget, env@));
        st
    }

    /// A state at the start of code without surroundings: every free variable
    /// gets a fresh name.
    pub fn new(
        code: Vec<Opcode>,
        free_vars: Vec<String>,
        budget: Option<i64>,
        env: &Env,
        table: &mut FnTable,
    ) -> (r: VMState)
        ensures
            r@ == vm_start(
                (BlockV { code: ops(code@), free_vars: texts(free_vars@) }),
                Seq::empty(),
                inherited(texts(free_vars@), Seq::empty(), Seq::empty(), old(table)@.fresh).0,
                budget,
                env@,
            ),
            final(table)@ == at_fresh(
                old(table)@,
                inherited(texts(free_vars@), Seq::empty(), Seq::empty(), old(table)@.fresh).1,
            ),
    {
        let none: Vec<String> = Vec::new();
        let nothing: Vec<Atom> = Vec::new();
        assert(texts(none@) =~= Seq::<Seq<char>>::empty());
        assert(atoms(nothing@) =~= Seq::<AtomV>::empty());
        VMState::new_with_parent(code, free_vars, budget, &none, &nothing, env, table)
    }

    /// A state at the start of code within other code: a free variable of the
    /// surroundings keeps its value, and any other gets a fresh name.
    pub fn new_with_parent(
        code: Vec<Opcode>,
        free_vars: Vec<String>,
        budget: Option<i64>,
        parent_vars: &Vec<String>,
        parent_bindings: &Vec<Atom>,
        env: &Env,
        table: &mut FnTable,
    ) -> (r: VMState)
        ensures
            r@ == vm_start(
                (BlockV { code: ops(code@), free_vars: texts(free_vars@) }),
                Seq::empty(),
                inherited(
                    texts(free_vars@),
                    texts(parent_vars@),
                    atoms(parent_bindings@),
                    old(table)@.fresh,
                ).0,
                budget,
                env@,
            ),
            final(table)@ == at_fresh(
                old(table)@,
                inherited(
                    texts(free_vars@),
                    texts(parent_vars@),
                    atoms(parent_bindings@),
                    old(table)@.fresh,
                ).1,
            ),
    {
        let bindings = inherit(&free_vars, parent_vars, parent_bindings, table);
        let locals: ResultSet = Vec::new();
        assert(results(locals@) =~= Seq::empty());
        let block = Block { code: Arc::new(code), free_vars: Arc::new(free_vars) };
        assert(block@ == BlockV { code: ops(code@), free_vars: texts(free_vars@) });
        VMState::start(block, locals, bindings, budget, env.clone())
    }
}

} // verus!
