//! Instructions of the bytecode machine that finish in one step.
use crate::atom::Atom;
use crate::atom::AtomV;
use crate::atom::ClosureData;
use crate::atom::atom_same;
use crate::atom::atoms;
use crate::atom::copy_atoms;
use crate::atom::group_atoms;
use crate::atom::sexpr;
use crate::atom::symbol;
use crate::atom::affirms;
use crate::builtins::collections::items_of;
use crate::builtins::collections::list_items;
use crate::env::Env;
use crate::env::EnvV;
use crate::env::env_get;
use crate::eval::machine::budget::ResultSet;
use crate::eval::machine::budget::ResultV;
use crate::eval::machine::budget::atom_cost;
use crate::eval::machine::budget::atoms_of;
use crate::eval::machine::budget::calculate_cost;
use crate::eval::machine::budget::capped;
use crate::eval::machine::budget::group_results;
use crate::eval::machine::budget::plain;
use crate::eval::machine::budget::plain_results;
use crate::eval::machine::budget::result_atoms;
use crate::eval::machine::budget::result_sets;
use crate::eval::machine::budget::results;
use crate::eval::machine::budget::single;
use crate::eval::machine::vm::compiler::pattern_vars;
use crate::eval::machine::vm::compiler::vars_of;
use crate::eval::machine::vm::iterate::join_results;
use crate::eval::machine::vm::iterate::paid;
use crate::eval::machine::vm::iterate::pay;
use crate::eval::machine::vm::op::QuoteVarMatch;
use crate::eval::machine::vm::op::QuoteVarSource;
use crate::eval::machine::vm::op::quote_vars;
use crate::eval::machine::vm::outcome::StepV;
use crate::eval::machine::vm::outcome::VmOut;
use crate::eval::machine::vm::outcome::VmOutV;
use crate::eval::machine::vm::state::VMState;
use crate::eval::machine::vm::state::VmV;
use crate::eval::machine::vm::state::Wait;
use crate::eval::machine::vm::state::WaitV;
use crate::eval::shared::env::bind;
use crate::eval::shared::env::linked;
use crate::eval::shared::env::lookup;
use crate::eval::shared::env::prepend_chain;
use crate::eval::shared::pattern::MatchV;
use crate::eval::shared::pattern::Matching;
use crate::eval::shared::pattern::known_values;
use crate::eval::shared::pattern::match_one;
use crate::eval::shared::pattern::try_match_one;
use crate::eval::shared::subst::atomized;
use crate::eval::shared::subst::subst_and_atomize;
use crate::expr::Expr;
use crate::expr::ExprV;
use crate::expr::copy_exprs;
use crate::expr::exprs;
use crate::func::FnTable;
use crate::func::TableV;
use crate::space::add_atom;
use crate::space::remove_atom;
use crate::space::space_name;
use crate::space::with_atom;
use crate::space::without_atom;
use crate::text::is_var;
use crate::text::is_var_name;
use crate::text::joined3;
use crate::text::texts;
use std::sync::Arc;
use vstd::prelude::*;
use vstd::string::*;

verus! {

/// Whether an outcome with state and table is the expected one; after an error
/// or at the end the state does not matter.
pub open spec fn agrees(x: StepV, y: StepV) -> bool {
    x.0 == y.0 && x.2 == y.2 && (x.0 is Fail || x.0 is Done || x.1 == y.1)
}

/// The state in which the next instruction follows.
pub open spec fn moved(s: VmV) -> VmV {
    VmV { ip: s.ip + 1, wait: WaitV::Ready, known: Seq::empty(), ..s }
}

/// The state in which a result was pushed and the next instruction follows.
pub open spec fn pushed(s: VmV, rs: ResultV) -> VmV {
    moved(VmV { stack: s.stack.push(rs), ..s })
}

/// The state without the topmost results.
pub open spec fn popped(s: VmV, n: int) -> VmV {
    VmV { stack: s.stack.take(s.stack.len() - n), ..s }
}

/// The result at a depth of the stack.
pub open spec fn top(s: VmV, depth: int) -> ResultV {
    s.stack[s.stack.len() - 1 - depth]
}

/// An error.
pub open spec fn failing(s: VmV, t: TableV, m: Seq<char>) -> StepV {
    (VmOutV::Fail(m), s, t)
}

/// The machine goes on in a state.
pub open spec fn going(s: VmV, t: TableV) -> StepV {
    (VmOutV::Next, s, t)
}

/// Go on with the next instruction.
pub fn advance(st: &mut VMState)
    requires
        old(st).ip < usize::MAX,
    ensures
        final(st)@ == moved(old(st)@),
{
    st.ip = st.ip + 1;
    st.wait = Wait::Ready;
    st.known = Vec::new();
    assert(known_values(st.known@) =~= Seq::empty());
    assert(st@ =~= moved(old(st)@));
}

/// Push a result and go on with the next instruction.
pub fn push(st: &mut VMState, rs: ResultSet)
    requires
        old(st).ip < usize::MAX,
    ensures
        final(st)@ == pushed(old(st)@, results(rs@)),
{
    broadcast use group_results;

    st.stack.push(rs);
    assert(st@ =~= VmV { stack: old(st)@.stack.push(results(rs@)), ..old(st)@ });
    advance(st);
}

/// Take the topmost result off.
pub fn pop(st: &mut VMState) -> (r: Option<ResultSet>)
    ensures
        final(st).ip == old(st).ip,
        (match r {
            Some(rs) => old(st)@.stack.len() > 0 && results(rs@) == old(st)@.stack.last()
                && final(st)@ == popped(old(st)@, 1),
            None => old(st)@.stack.len() == 0 && final(st)@ == old(st)@,
        }),
{
    let ghost before = st.stack@;
    assert(result_sets(before).len() == before.len());
    match st.stack.pop() {
        Some(rs) => {
            assert(result_sets(before).last() == results(rs@));
            assert(result_sets(st.stack@) =~= result_sets(before).take(before.len() - 1));
            assert(st@ =~= popped(old(st)@, 1));
            Some(rs)
        },
        None => None,
    }
}

/// The state and the outcome of an error.
pub fn failure(m: &str) -> (r: VmOut)
    ensures
        r@ == VmOutV::Fail(m@),
{
    VmOut::Fail(m.to_owned())
}

/// An atom with the part at a path replaced.
pub open spec fn replaced(a: AtomV, path: Seq<usize>, value: AtomV) -> AtomV
    decreases path.len(),
{
    if path.len() == 0 {
        value
    } else {
        match a {
            AtomV::Expr(items) => if path[0] < items.len() {
                AtomV::Expr(
                    items.update(
                        path[0] as int,
                        replaced(items[path[0] as int], path.skip(1), value),
                    ),
                )
            } else {
                a
            },
            _ => a,
        }
    }
}

/// Replace the part of an atom at the rest of a path.
fn replace_at_path(atom: &Atom, path: &Vec<usize>, from: usize, value: Atom) -> (r: Atom)
    requires
        from <= path@.len(),
    ensures
        r@ == replaced(atom@, path@.skip(from as int), value@),
    decreases path@.len() - from,
{
    broadcast use group_atoms;

    if from == path.len() {
        return value;
    }
    let ghost rest = path@.skip(from as int);
    assert(rest.skip(1) =~= path@.skip(from + 1));
    match atom {
        Atom::Expr(items) => {
            assert(atoms(items@).len() == items@.len());
            let k: usize = path[from];
            if k < items.len() {
                let part = replace_at_path(&items[k], path, from + 1, value);
                let mut list = copy_atoms(items, 0);
                assert(items@.skip(0) =~= items@);
                list.set(k, part);
                assert(atoms(list@) =~= atoms(items@).update(k as int, part@));
                Atom::expr(list)
            } else {
                atom.clone()
            }
        },
        _ => atom.clone(),
    }
}

/// Replacing the part at a path twice is replacing it once by the last value.
pub proof fn replacing_again(a: AtomV, path: Seq<usize>, x: AtomV, y: AtomV)
    ensures
        replaced(replaced(a, path, x), path, y) == replaced(a, path, y),
    decreases path.len(),
{
    if path.len() > 0 {
        match a {
            AtomV::Expr(items) => {
                if path[0] < items.len() {
                    let k = path[0] as int;
                    replacing_again(items[k], path.skip(1), x, y);
                    let once = items.update(k, replaced(items[k], path.skip(1), x));
                    assert(once.update(k, replaced(once[k], path.skip(1), y)) =~= items.update(
                        k,
                        replaced(items[k], path.skip(1), y),
                    ));
                }
            },
            _ => {},
        }
    }
}

/// The value of a quoted variable.
pub open spec fn quote_value(source: QuoteVarSource, locals: ResultV, bindings: Seq<AtomV>) -> AtomV {
    match source {
        QuoteVarSource::Local(p) => if p < locals.len() {
            locals[p as int].0
        } else {
            symbol("()"@)
        },
        QuoteVarSource::Free(p) => if p < bindings.len() {
            bindings[p as int]
        } else {
            symbol("()"@)
        },
    }
}

/// Quoted data with the values of variables filled in.
pub open spec fn quote_filled(
    a: AtomV,
    vars: Seq<(Seq<usize>, QuoteVarSource)>,
    locals: ResultV,
    bindings: Seq<AtomV>,
) -> AtomV
    decreases vars.len(),
{
    if vars.len() == 0 {
        a
    } else {
        replaced(
            quote_filled(a, vars.drop_last(), locals, bindings),
            vars.last().0,
            quote_value(vars.last().1, locals, bindings),
        )
    }
}

/// Fill the values of variables into quoted data.
pub fn fill_quote(
    template: &Atom,
    vars: &Vec<QuoteVarMatch>,
    locals: &ResultSet,
    bindings: &Vec<Atom>,
) -> (r: Atom)
    ensures
        r@ == quote_filled(template@, quote_vars(vars@), results(locals@), atoms(bindings@)),
{
    broadcast use group_atoms;

    let ghost vs = quote_vars(vars@);
    let ghost ls = results(locals@);
    let ghost bs = atoms(bindings@);
    let mut out: Atom = template.clone();
    let mut i: usize = 0;
    assert(vs.take(0) =~= Seq::empty());
    while i < vars.len()
        invariant
            i <= vars@.len(),
            vs == quote_vars(vars@),
            ls == results(locals@),
            bs == atoms(bindings@),
            out@ == quote_filled(template@, vs.take(i as int), ls, bs),
        decreases vars@.len() - i,
    {
        assert(vs.take(i + 1).drop_last() =~= vs.take(i as int));
        assert(ls.len() == locals@.len());
        assert(bs.len() == bindings@.len());
        let value: Atom = match vars[i].source {
            QuoteVarSource::Local(p) => {
                if (p as usize) < locals.len() {
                    locals[p as usize].0.clone()
                } else {
                    Atom::sym("()")
                }
            },
            QuoteVarSource::Free(p) => {
                if (p as usize) < bindings.len() {
                    bindings[p as usize].clone()
                } else {
                    Atom::sym("()")
                }
            },
        };
        assert(value@ == quote_value(vs[i as int].1, ls, bs));
        assert(vars@[i as int].path@.skip(0) =~= vars@[i as int].path@);
        out = replace_at_path(&out, &vars[i].path, 0, value);
        i += 1;
    }
    assert(vs.take(vars@.len() as int) =~= vs);
    out
}

/// A value as it is loaded: a variable is replaced by what one of two
/// environments binds it to.
pub open spec fn loaded(a: AtomV, near: EnvV, far: EnvV) -> AtomV {
    if a is Sym && is_var_name(a->Sym_0) {
        match env_get(near, a->Sym_0) {
            Some(v) => v,
            None => match env_get(far, a->Sym_0) {
                Some(v) => v,
                None => a,
            },
        }
    } else {
        a
    }
}

/// Load a value.
fn load(a: &Atom, near: &Env, far: &Env) -> (r: Atom)
    ensures
        r@ == loaded(a@, near@, far@),
{
    match a {
        Atom::Sym(s) => {
            if is_var(s.as_str()) {
                match lookup(near, s.as_str()) {
                    Some(v) => v,
                    None => match lookup(far, s.as_str()) {
                        Some(v) => v,
                        None => a.clone(),
                    },
                }
            } else {
                a.clone()
            }
        },
        _ => a.clone(),
    }
}

/// Pushing the value of a local variable.
pub open spec fn local_loaded(s: VmV, t: TableV, i: u8) -> StepV {
    if i >= s.locals.len() {
        failing(s, t, "VM local variable missing"@)
    } else {
        let (a, e) = s.locals[i as int];
        going(pushed(s, seq![(loaded(a, e, s.env), e)]), t)
    }
}

/// Push the value of a local variable.
pub fn load_local(st: &mut VMState, table: &FnTable, i: u8) -> (r: VmOut)
    requires
        old(st).ip < usize::MAX,
    ensures
        agrees((r@, final(st)@, table@), local_loaded(old(st)@, table@, i)),
{
    assert(results(st.locals@).len() == st.locals@.len());
    if i as usize >= st.locals.len() {
        return failure("VM local variable missing");
    }
    let env = st.locals[i as usize].1.clone();
    let value = load(&st.locals[i as usize].0, &env, &st.env);
    let mut rs: ResultSet = Vec::new();
    rs.push((value, env));
    assert(results(rs@) =~= seq![(value@, env@)]);
    push(st, rs);
    VmOut::Next
}

/// Pushing the value of a free variable.
pub open spec fn free_loaded(s: VmV, t: TableV, i: u8) -> StepV {
    if i >= s.bindings.len() {
        failing(s, t, "VM free variable missing"@)
    } else {
        going(pushed(s, seq![(loaded(s.bindings[i as int], s.env, s.env), s.env)]), t)
    }
}

/// Push the value of a free variable.
pub fn load_free(st: &mut VMState, table: &FnTable, i: u8) -> (r: VmOut)
    requires
        old(st).ip < usize::MAX,
    ensures
        agrees((r@, final(st)@, table@), free_loaded(old(st)@, table@, i)),
{
    broadcast use group_atoms;

    assert(atoms(st.bindings@).len() == st.bindings@.len());
    if i as usize >= st.bindings.len() {
        return failure("VM free variable missing");
    }
    let value = load(&st.bindings[i as usize], &st.env, &st.env);
    let mut rs: ResultSet = Vec::new();
    rs.push((value, st.env.clone()));
    assert(results(rs@) =~= seq![(value@, st.env@)]);
    push(st, rs);
    VmOut::Next
}

/// Local variables with one more set; missing ones in between are filled up.
pub open spec fn local_set(locals: ResultV, i: int, x: (AtomV, EnvV)) -> ResultV {
    Seq::new(
        if i < locals.len() {
            locals.len()
        } else {
            (i + 1) as nat
        },
        |k: int|
            if k == i {
                x
            } else if k < locals.len() {
                locals[k]
            } else {
                (symbol("()"@), EnvV::Empty)
            },
    )
}

/// Set a local variable.
fn set_local(locals: &mut ResultSet, i: usize, x: (Atom, Env))
    ensures
        results(final(locals)@) == local_set(results(old(locals)@), i as int, (x.0@, x.1@)),
        final(locals)@.len() > i,
{
    let ghost before = results(locals@);
    while locals.len() <= i
        invariant
            before == results(old(locals)@),
            locals@.len() >= before.len(),
            locals@.len() <= before.len() || locals@.len() <= i + 1,
            forall|k: int|
                0 <= k < locals@.len() ==> #[trigger] results(locals@)[k] == (if k < before.len() {
                    before[k]
                } else {
                    (symbol("()"@), EnvV::Empty)
                }),
        decreases i + 1 - locals@.len(),
    {
        let ghost was = locals@;
        locals.push((Atom::sym("()"), Env::new()));
        assert forall|k: int| 0 <= k < locals@.len() implies #[trigger] results(locals@)[k] == (
        if k < before.len() {
            before[k]
        } else {
            (symbol("()"@), EnvV::Empty)
        }) by {
            if k < was.len() {
                assert(results(was)[k] == results(locals@)[k]);
            }
        }
    }
    let ghost filled = locals@;
    locals.set(i, x);
    assert forall|k: int| 0 <= k < locals@.len() implies results(locals@)[k] == local_set(
        before,
        i as int,
        (x.0@, x.1@),
    )[k] by {
        if k != i {
            assert(results(filled)[k] == results(locals@)[k]);
        }
    }
    assert(results(locals@) =~= local_set(before, i as int, (x.0@, x.1@)));
}

/// Popping into a local variable.
pub open spec fn stored(s: VmV, t: TableV, i: u8) -> StepV {
    if s.stack.len() == 0 {
        failing(s, t, "VM stack underflow on Store"@)
    } else if top(s, 0).len() == 0 {
        failing(s, t, "Cannot store empty value"@)
    } else {
        going(
            moved(VmV { locals: local_set(s.locals, i as int, top(s, 0).last()), ..popped(s, 1) }),
            t,
        )
    }
}

/// Pop into a local variable.
pub fn store(st: &mut VMState, table: &FnTable, i: u8) -> (r: VmOut)
    requires
        old(st).ip < usize::MAX,
    ensures
        agrees((r@, final(st)@, table@), stored(old(st)@, table@, i)),
{
    match pop(st) {
        None => failure("VM stack underflow on Store"),
        Some(rs) => {
            let mut rs = rs;
            let ghost all = rs@;
            assert(results(all).len() == all.len());
            match rs.pop() {
                None => failure("Cannot store empty value"),
                Some(x) => {
                    assert(results(all).last() == (x.0@, x.1@));
                    set_local(&mut st.locals, i as usize, x);
                    advance(st);
                    VmOut::Next
                },
            }
        },
    }
}

/// Popping a result away.
pub open spec fn dropped(s: VmV, t: TableV) -> StepV {
    if s.stack.len() == 0 {
        failing(s, t, "VM stack underflow on Pop"@)
    } else {
        going(moved(popped(s, 1)), t)
    }
}

/// Pop a result away.
pub fn drop_top(st: &mut VMState, table: &FnTable) -> (r: VmOut)
    requires
        old(st).ip < usize::MAX,
    ensures
        agrees((r@, final(st)@, table@), dropped(old(st)@, table@)),
{
    match pop(st) {
        None => failure("VM stack underflow on Pop"),
        Some(_) => {
            advance(st);
            VmOut::Next
        },
    }
}

/// The state that goes on elsewhere.
pub open spec fn jumped(s: VmV, target: usize) -> VmV {
    VmV { ip: target as nat, wait: WaitV::Ready, known: Seq::empty(), ..s }
}

/// Go on elsewhere.
pub fn jump(st: &mut VMState, target: usize)
    ensures
        final(st)@ == jumped(old(st)@, target),
{
    st.ip = target;
    st.wait = Wait::Ready;
    st.known = Vec::new();
    assert(known_values(st.known@) =~= Seq::empty());
    assert(st@ =~= jumped(old(st)@, target));
}

/// Going on elsewhere when there is no value; the empty result is kept then.
pub open spec fn jumped_if_empty(s: VmV, t: TableV, target: usize) -> StepV {
    if s.stack.len() == 0 {
        failing(s, t, "VM stack underflow on JumpIfEmpty"@)
    } else if top(s, 0).len() == 0 {
        going(
            jumped(
                VmV { stack: popped(s, 1).stack.push(Seq::empty()), ..s },
                target,
            ),
            t,
        )
    } else {
        going(moved(popped(s, 1)), t)
    }
}

/// Go on elsewhere when there is no value.
pub fn jump_if_empty(st: &mut VMState, table: &FnTable, target: usize) -> (r: VmOut)
    requires
        old(st).ip < usize::MAX,
    ensures
        agrees((r@, final(st)@, table@), jumped_if_empty(old(st)@, table@, target)),
{
    broadcast use group_results;

    match pop(st) {
        None => failure("VM stack underflow on JumpIfEmpty"),
        Some(rs) => {
            assert(results(rs@).len() == rs@.len());
            if rs.len() == 0 {
                assert(results(rs@) =~= Seq::empty());
                let ghost s0 = st@;
                st.stack.push(rs);
                assert(st@ =~= VmV { stack: s0.stack.push(Seq::empty()), ..s0 });
                jump(st, target);
            } else {
                advance(st);
            }
            VmOut::Next
        },
    }
}

/// Going on elsewhere unless the first value is true.
pub open spec fn jumped_if_falsy(s: VmV, t: TableV, target: usize) -> StepV {
    if s.stack.len() == 0 {
        failing(s, t, "VM stack underflow on JumpIfFalsy"@)
    } else if top(s, 0).len() == 0 || !affirms(top(s, 0)[0].0) {
        going(jumped(popped(s, 1), target), t)
    } else {
        going(moved(popped(s, 1)), t)
    }
}

/// Go on elsewhere unless the first value is true.
pub fn jump_if_falsy(st: &mut VMState, table: &FnTable, target: usize) -> (r: VmOut)
    requires
        old(st).ip < usize::MAX,
    ensures
        agrees((r@, final(st)@, table@), jumped_if_falsy(old(st)@, table@, target)),
{
    match pop(st) {
        None => failure("VM stack underflow on JumpIfFalsy"),
        Some(rs) => {
            assert(results(rs@).len() == rs@.len());
            if rs.len() == 0 || !rs[0].0.affirms() {
                jump(st, target);
            } else {
                advance(st);
            }
            VmOut::Next
        },
    }
}

/// Local variables without the last few.
pub open spec fn locals_popped(locals: ResultV, n: int) -> ResultV {
    if n >= locals.len() {
        Seq::empty()
    } else {
        locals.take(locals.len() - n)
    }
}

/// Drop the last local variables.
pub fn pop_locals(locals: &mut ResultSet, n: usize)
    ensures
        results(final(locals)@) == locals_popped(results(old(locals)@), n as int),
{
    let len: usize = locals.len();
    let keep: usize = if n >= len {
        0
    } else {
        len - n
    };
    locals.truncate(keep);
    assert(results(locals@) =~= locals_popped(results(old(locals)@), n as int));
}

/// Local variables with the values of pattern variables set, starting at an
/// index.
pub open spec fn vars_set(locals: ResultV, start: int, names: Seq<Seq<char>>, env: EnvV) -> ResultV
    decreases names.len(),
{
    if names.len() == 0 {
        locals
    } else {
        local_set(
            vars_set(locals, start, names.drop_last(), env),
            start + names.len() - 1,
            (
                match env_get(env, names.last()) {
                    Some(v) => v,
                    None => symbol("()"@),
                },
                EnvV::Empty,
            ),
        )
    }
}

/// Matching the first value on the stack against a pattern; without a match an
/// empty result takes its place.
pub open spec fn pattern_unified(s: VmV, t: TableV, p: ExprV, start: u8) -> StepV {
    if s.stack.len() == 0 {
        failing(s, t, "VM stack underflow on UnifyPattern"@)
    } else if top(s, 0).len() == 0 {
        going(pushed(popped(s, 1), Seq::empty()), t)
    } else {
        match match_one(p, top(s, 0)[0].0, EnvV::Empty, s.known) {
            MatchV::Ask(x, e) => (VmOutV::Ask(x, e), s, t),
            MatchV::No => going(pushed(popped(s, 1), Seq::empty()), t),
            MatchV::Yes(e) => going(
                moved(VmV { locals: vars_set(s.locals, start as int, vars_of(p), e), ..s }),
                t,
            ),
        }
    }
}

/// Match the first value on the stack against a pattern.
pub fn unify_pattern(st: &mut VMState, table: &FnTable, pattern: &Expr, start: u8) -> (r: VmOut)
    requires
        old(st).ip < usize::MAX,
    ensures
        agrees(
            (r@, final(st)@, table@),
            pattern_unified(old(st)@, table@, pattern@, start),
        ),
{
    broadcast use group_results;

    let ghost s0 = st@;
    let n: usize = st.stack.len();
    assert(result_sets(st.stack@).len() == n);
    if n == 0 {
        return failure("VM stack underflow on UnifyPattern");
    }
    assert(top(s0, 0) == results(st.stack@[n - 1]@));
    assert(results(st.stack@[n - 1]@).len() == st.stack@[n - 1]@.len());
    let matched: Matching = if st.stack[n - 1].len() == 0 {
        Matching::No
    } else {
        try_match_one(pattern, &st.stack[n - 1][0].0, &Env::new(), &st.known)
    };
    match matched {
        Matching::Ask(x, e) => VmOut::Ask(x, e),
        Matching::No => {
            pop(st);
            let none: ResultSet = Vec::new();
            assert(results(none@) =~= Seq::empty());
            push(st, none);
            VmOut::Next
        },
        Matching::Yes(e) => {
            let names = pattern_vars(pattern);
            let ghost ns = texts(names@);
            let ghost ls = results(st.locals@);
            let mut i: usize = 0;
            let mut k: usize = start as usize;
            assert(ns.take(0) =~= Seq::<Seq<char>>::empty());
            while i < names.len()
                invariant
                    i <= names@.len(),
                    k == start + i,
                    ns == texts(names@),
                    ls == results(old(st).locals@),
                    st@ == (VmV {
                        locals: vars_set(ls, start as int, ns.take(i as int), e@),
                        ..s0
                    }),
                    s0 == old(st)@,
                    st.ip == old(st).ip,
                decreases names@.len() - i,
            {
                assert(ns.take(i + 1).drop_last() =~= ns.take(i as int));
                let value: Atom = match e.get(names[i].as_str()) {
                    Some(v) => v,
                    None => Atom::sym("()"),
                };
                set_local(&mut st.locals, k, (value, Env::new()));
                let len: usize = st.locals.len();
                assert(k < len);
                k += 1;
                i += 1;
            }
            assert(ns.take(names@.len() as int) =~= ns);
            advance(st);
            VmOut::Next
        },
    }
}

/// An environment with the values of local variables in front.
pub open spec fn with_locals(names: Seq<Seq<char>>, locals: ResultV, env: EnvV) -> EnvV
    decreases names.len(),
{
    if names.len() == 0 {
        env
    } else {
        let before = with_locals(names.drop_last(), locals, env);
        if names.len() <= locals.len() {
            linked(
                EnvV::Cons(
                    names.last(),
                    Box::new(locals[names.len() - 1].0),
                    Box::new(EnvV::Empty),
                ),
                before,
            )
        } else {
            before
        }
    }
}

/// Put the values of local variables in front of an environment.
pub fn bind_locals(names: &Vec<String>, locals: &ResultSet, env: &Env) -> (r: Env)
    ensures
        r@ == with_locals(texts(names@), results(locals@), env@),
{
    let ghost ns = texts(names@);
    let ghost ls = results(locals@);
    let mut out: Env = env.clone();
    let mut i: usize = 0;
    assert(ns.take(0) =~= Seq::<Seq<char>>::empty());
    while i < names.len()
        invariant
            i <= names@.len(),
            ns == texts(names@),
            ls == results(locals@),
            out@ == with_locals(ns.take(i as int), ls, env@),
        decreases names@.len() - i,
    {
        assert(ns.take(i + 1).drop_last() =~= ns.take(i as int));
        assert(ls.len() == locals@.len());
        if i < locals.len() {
            let front = bind(&Env::new(), names[i].as_str(), locals[i].0.clone());
            out = prepend_chain(front, &out);
        }
        i += 1;
    }
    assert(ns.take(names@.len() as int) =~= ns);
    out
}

/// What adding or removing an atom costs.
pub open spec fn atom_price(a: AtomV) -> int {
    capped(atom_cost(a) as int) as int
}

/// Adding an atom to a space.
pub open spec fn atom_added(s: VmV, t: TableV, e: ExprV, names: Seq<Seq<char>>) -> StepV {
    if s.stack.len() == 0 {
        failing(s, t, "VM stack underflow on AddAtom space"@)
    } else {
        let a = atomized(e, with_locals(names, s.locals, s.env));
        match paid(s.budget, atom_price(a)) {
            None => failing(s, t, "Budget exhausted"@),
            Some(left) => {
                let after = VmV { budget: left, ..popped(s, 1) };
                if top(s, 0).len() == 0 {
                    going(pushed(after, Seq::empty()), t)
                } else {
                    match space_name(top(s, 0)[0].0) {
                        Err(m) => failing(s, t, m),
                        Ok(n) => going(
                            pushed(after, plain_results(seq![symbol("true"@)])),
                            with_atom(t, n, a),
                        ),
                    }
                }
            },
        }
    }
}

/// Add an atom to a space.
pub fn add_to_space(st: &mut VMState, table: &mut FnTable, expr: &Expr, names: &Vec<String>) -> (r:
    VmOut)
    requires
        old(st).ip < usize::MAX,
    ensures
        agrees(
            (r@, final(st)@, final(table)@),
            atom_added(old(st)@, old(table)@, expr@, texts(names@)),
        ),
{
    let env = bind_locals(names, &st.locals, &st.env);
    let atom = subst_and_atomize(expr, &env);
    match pop(st) {
        None => failure("VM stack underflow on AddAtom space"),
        Some(rs) => {
            let cost: i64 = match calculate_cost(&atom) {
                Some(c) => c,
                None => 0,
            };
            match pay(st.budget, cost as i128) {
                None => failure("Budget exhausted"),
                Some(left) => {
                    st.budget = left;
                    assert(results(rs@).len() == rs@.len());
                    if rs.len() == 0 {
                        assert(results(rs@) =~= Seq::empty());
                        push(st, rs);
                        return VmOut::Next;
                    }
                    match add_atom(table, &rs[0].0, &atom) {
                        Err(m) => VmOut::Fail(m),
                        Ok(_) => {
                            push(st, single(Atom::sym("true")));
                            VmOut::Next
                        },
                    }
                },
            }
        },
    }
}

/// Removing an atom from a space.
pub open spec fn atom_removed(s: VmV, t: TableV, e: ExprV, names: Seq<Seq<char>>) -> StepV {
    if s.stack.len() == 0 {
        failing(s, t, "VM stack underflow on RemAtom space"@)
    } else {
        let a = atomized(e, with_locals(names, s.locals, s.env));
        match paid(s.budget, atom_price(a)) {
            None => failing(s, t, "Budget exhausted"@),
            Some(left) => {
                let after = VmV { budget: left, ..popped(s, 1) };
                if top(s, 0).len() == 0 {
                    going(pushed(after, Seq::empty()), t)
                } else {
                    match space_name(top(s, 0)[0].0) {
                        Err(m) => failing(s, t, m),
                        Ok(n) => going(
                            pushed(
                                after,
                                plain_results(
                                    seq![
                                        symbol(
                                            if t.space(n).contains(a) {
                                                "true"@
                                            } else {
                                                ""@
                                            },
                                        ),
                                    ],
                                ),
                            ),
                            without_atom(t, n, a),
                        ),
                    }
                }
            },
        }
    }
}

/// Remove an atom from a space.
pub fn remove_from_space(
    st: &mut VMState,
    table: &mut FnTable,
    expr: &Expr,
    names: &Vec<String>,
) -> (r: VmOut)
    requires
        old(st).ip < usize::MAX,
    ensures
        agrees(
            (r@, final(st)@, final(table)@),
            atom_removed(old(st)@, old(table)@, expr@, texts(names@)),
        ),
{
    let env = bind_locals(names, &st.locals, &st.env);
    let atom = subst_and_atomize(expr, &env);
    match pop(st) {
        None => failure("VM stack underflow on RemAtom space"),
        Some(rs) => {
            let cost: i64 = match calculate_cost(&atom) {
                Some(c) => c,
                None => 0,
            };
            match pay(st.budget, cost as i128) {
                None => failure("Budget exhausted"),
                Some(left) => {
                    st.budget = left;
                    assert(results(rs@).len() == rs@.len());
                    if rs.len() == 0 {
                        assert(results(rs@) =~= Seq::empty());
                        push(st, rs);
                        return VmOut::Next;
                    }
                    match remove_atom(table, &rs[0].0, &atom) {
                        Err(m) => VmOut::Fail(m),
                        Ok(found) => {
                            push(
                                st,
                                single(
                                    Atom::sym(
                                        if found {
                                            "true"
                                        } else {
                                            ""
                                        },
                                    ),
                                ),
                            );
                            VmOut::Next
                        },
                    }
                },
            }
        },
    }
}

/// Making an anonymous function: it keeps the environment with the local
/// variables.
pub open spec fn lambda_made(
    s: VmV,
    t: TableV,
    params: Seq<ExprV>,
    body: ExprV,
    names: Seq<Seq<char>>,
) -> StepV {
    let env = with_locals(names, s.locals, s.env);
    going(pushed(s, plain_results(seq![AtomV::Closure(params, body, Box::new(env))])), t)
}

/// Make an anonymous function.
pub fn make_lambda(
    st: &mut VMState,
    table: &FnTable,
    params: &Vec<Expr>,
    body: &Expr,
    names: &Vec<String>,
) -> (r: VmOut)
    requires
        old(st).ip < usize::MAX,
    ensures
        agrees(
            (r@, final(st)@, table@),
            lambda_made(old(st)@, table@, exprs(params@), body@, texts(names@)),
        ),
{
    let env = bind_locals(names, &st.locals, &st.env);
    let ps = copy_exprs(params, 0);
    assert(params@.skip(0) =~= params@);
    let c = Atom::Closure(
        Arc::new(ClosureData { params: Arc::new(ps), body: body.clone(), env }),
    );
    push(st, single(c));
    VmOut::Next
}

/// Paying from the budget.
pub open spec fn debited(s: VmV, t: TableV, cost: i64) -> StepV {
    match paid(s.budget, cost as int) {
        None => failing(s, t, "Budget exhausted"@),
        Some(left) => going(moved(VmV { budget: left, ..s }), t),
    }
}

/// Pay from the budget.
pub fn debit(st: &mut VMState, table: &FnTable, cost: i64) -> (r: VmOut)
    requires
        old(st).ip < usize::MAX,
    ensures
        agrees((r@, final(st)@, table@), debited(old(st)@, table@, cost)),
{
    match pay(st.budget, cost as i128) {
        None => failure("Budget exhausted"),
        Some(left) => {
            st.budget = left;
            advance(st);
            VmOut::Next
        },
    }
}

/// Putting all values into a list.
pub open spec fn collapsed(s: VmV, t: TableV) -> StepV {
    if s.stack.len() == 0 {
        failing(s, t, "VM stack underflow on Collapse"@)
    } else {
        going(
            pushed(popped(s, 1), plain_results(seq![AtomV::Expr(result_atoms(top(s, 0)))])),
            t,
        )
    }
}

/// Put all values into a list.
pub fn collapse(st: &mut VMState, table: &FnTable) -> (r: VmOut)
    requires
        old(st).ip < usize::MAX,
    ensures
        agrees((r@, final(st)@, table@), collapsed(old(st)@, table@)),
{
    match pop(st) {
        None => failure("VM stack underflow on Collapse"),
        Some(rs) => {
            push(st, single(Atom::expr(atoms_of(&rs))));
            VmOut::Next
        },
    }
}

/// Results as one value: the only one, or the list of all.
pub open spec fn as_one(r: ResultV) -> AtomV {
    if r.len() == 1 {
        result_atoms(r)[0]
    } else {
        AtomV::Expr(result_atoms(r))
    }
}

/// Take results as one value.
pub fn one_of(rs: &ResultSet) -> (r: Atom)
    ensures
        r@ == as_one(results(rs@)),
{
    broadcast use group_atoms;

    let list = atoms_of(rs);
    assert(atoms(list@).len() == list@.len());
    if list.len() == 1 {
        list[0].clone()
    } else {
        Atom::expr(list)
    }
}

/// The line that reports a test.
pub open spec fn test_line(actual: AtomV, expected: AtomV) -> Seq<char> {
    "is "@ + sexpr(actual) + ", should "@ + sexpr(expected) + (if actual == expected {
        ". \u{2705} "@
    } else {
        ". \u{274c} "@
    })
}

/// Comparing all values with the expected ones and reporting.
pub open spec fn tested(s: VmV, t: TableV) -> StepV {
    if s.stack.len() == 0 {
        failing(s, t, "VM stack underflow on Test expected"@)
    } else if s.stack.len() == 1 {
        failing(s, t, "VM stack underflow on Test expr"@)
    } else {
        (
            VmOutV::Say(seq![test_line(as_one(top(s, 1)), as_one(top(s, 0)))]),
            pushed(popped(s, 2), plain_results(seq![symbol("true"@)])),
            t,
        )
    }
}

/// Compare all values with the expected ones and report.
pub fn test(st: &mut VMState, table: &FnTable) -> (r: VmOut)
    requires
        old(st).ip < usize::MAX,
    ensures
        agrees((r@, final(st)@, table@), tested(old(st)@, table@)),
{
    let ghost s0 = st@;
    match pop(st) {
        None => failure("VM stack underflow on Test expected"),
        Some(expected) => match pop(st) {
            None => failure("VM stack underflow on Test expr"),
            Some(actual) => {
                assert(st@ =~= popped(s0, 2));
                let x = one_of(&actual);
                let y = one_of(&expected);
                let xt = x.to_sexpr_string();
                let yt = y.to_sexpr_string();
                let mut line: String = joined3("is ", xt.as_str(), ", should ");
                line.append(yt.as_str());
                if atom_same(&x, &y) {
                    line.append(". \u{2705} ");
                } else {
                    line.append(". \u{274c} ");
                }
                let mut lines: Vec<String> = Vec::new();
                lines.push(line);
                assert(texts(lines@) =~= seq![test_line(x@, y@)]);
                push(st, single(Atom::sym("true")));
                VmOut::Say(lines)
            },
        },
    }
}

/// Result sets put together.
pub open spec fn all_joined(s: Seq<ResultV>) -> ResultV
    decreases s.len(),
{
    if s.len() == 0 {
        Seq::empty()
    } else {
        all_joined(s.drop_last()) + s.last()
    }
}

/// Putting the values of several result sets together.
pub open spec fn superposed(s: VmV, t: TableV, n: u8) -> StepV {
    if s.stack.len() < n {
        failing(s, t, "VM stack underflow on Superpose"@)
    } else {
        going(pushed(popped(s, n as int), all_joined(s.stack.skip(s.stack.len() - n))), t)
    }
}

/// Joining from the front.
proof fn lemma_joined_front(s: Seq<ResultV>)
    requires
        s.len() > 0,
    ensures
        all_joined(s) == s[0] + all_joined(s.skip(1)),
    decreases s.len(),
{
    if s.len() == 1 {
        assert(s.drop_last() =~= Seq::<ResultV>::empty());
        assert(s.skip(1) =~= Seq::<ResultV>::empty());
        assert(all_joined(s) =~= s[0] + all_joined(s.skip(1)));
    } else {
        lemma_joined_front(s.drop_last());
        assert(s.skip(1).drop_last() =~= s.drop_last().skip(1));
        assert(all_joined(s) =~= s[0] + all_joined(s.skip(1)));
    }
}

/// Put the values of several result sets together.
pub fn superpose(st: &mut VMState, table: &FnTable, n: u8) -> (r: VmOut)
    requires
        old(st).ip < usize::MAX,
    ensures
        agrees((r@, final(st)@, table@), superposed(old(st)@, table@, n)),
{
    let ghost s0 = st@;
    let mut out: ResultSet = Vec::new();
    let mut i: u8 = 0;
    assert(s0.stack.skip(s0.stack.len() as int) =~= Seq::<ResultV>::empty());
    assert(results(out@) =~= all_joined(s0.stack.skip(s0.stack.len() as int)));
    assert(st@ =~= popped(s0, 0));
    while i < n
        invariant
            i <= n,
            s0 == old(st)@,
            i <= s0.stack.len(),
            st.ip == old(st).ip,
            st@ == popped(s0, i as int),
            results(out@) == all_joined(s0.stack.skip(s0.stack.len() - i)),
        decreases n - i,
    {
        match pop(st) {
            None => {
                return failure("VM stack underflow on Superpose");
            },
            Some(rs) => {
                let ghost rest = s0.stack.skip(s0.stack.len() - i - 1);
                proof {
                    lemma_joined_front(rest);
                }
                assert(rest.skip(1) =~= s0.stack.skip(s0.stack.len() - i));
                out = join_results(rs, out);
                assert(st@ =~= popped(s0, i + 1));
            },
        }
        i += 1;
    }
    push(st, out);
    VmOut::Next
}

/// Turning the elements of a list into values.
pub open spec fn unpacked(s: VmV, t: TableV) -> StepV {
    if s.stack.len() == 0 {
        failing(s, t, "VM stack underflow on SuperposeUnpack"@)
    } else if top(s, 0).len() == 0 {
        going(pushed(popped(s, 1), Seq::empty()), t)
    } else {
        going(pushed(popped(s, 1), plain_results(items_of(top(s, 0)[0].0))), t)
    }
}

/// Turn the elements of a list into values.
pub fn unpack(st: &mut VMState, table: &FnTable) -> (r: VmOut)
    requires
        old(st).ip < usize::MAX,
    ensures
        agrees((r@, final(st)@, table@), unpacked(old(st)@, table@)),
{
    match pop(st) {
        None => failure("VM stack underflow on SuperposeUnpack"),
        Some(rs) => {
            assert(results(rs@).len() == rs@.len());
            if rs.len() == 0 {
                assert(results(rs@) =~= Seq::empty());
                push(st, rs);
            } else {
                let list = list_items(&rs[0].0);
                push(st, plain(list));
            }
            VmOut::Next
        },
    }
}

/// Giving up other alternatives.
pub open spec fn cut_off(s: VmV, t: TableV) -> StepV {
    going(pushed(VmV { cut: true, ..s }, plain_results(seq![symbol("true"@)])), t)
}

/// Give up other alternatives.
pub fn cut(st: &mut VMState, table: &FnTable) -> (r: VmOut)
    requires
        old(st).ip < usize::MAX,
    ensures
        agrees((r@, final(st)@, table@), cut_off(old(st)@, table@)),
{
    st.cut_executed = true;
    push(st, single(Atom::sym("true")));
    VmOut::Next
}

/// The lines that print results.
pub open spec fn printed_lines(r: ResultV) -> Seq<Seq<char>> {
    Seq::new(r.len(), |i: int| sexpr(r[i].0))
}

/// Print results: one line for each.
pub fn print_lines(rs: &ResultSet) -> (r: Vec<String>)
    ensures
        texts(r@) == printed_lines(results(rs@)),
{
    let ghost want = printed_lines(results(rs@));
    let mut out: Vec<String> = Vec::new();
    let mut i: usize = 0;
    assert(texts(out@) =~= want.take(0));
    while i < rs.len()
        invariant
            i <= rs@.len(),
            want == printed_lines(results(rs@)),
            texts(out@) == want.take(i as int),
        decreases rs@.len() - i,
    {
        let ghost before = out@;
        let line = rs[i].0.to_sexpr_string();
        out.push(line);
        assert(texts(out@) =~= texts(before).push(line@));
        assert(want.take(i + 1) =~= want.take(i as int).push(want[i as int]));
        i += 1;
    }
    assert(want.take(rs@.len() as int) =~= want);
    out
}

/// Printing values.
pub open spec fn printed(s: VmV, t: TableV) -> StepV {
    if s.stack.len() == 0 {
        failing(s, t, "VM stack underflow on Println"@)
    } else {
        (
            VmOutV::Say(printed_lines(top(s, 0))),
            pushed(popped(s, 1), plain_results(seq![symbol("true"@)])),
            t,
        )
    }
}

/// Print values.
pub fn print(st: &mut VMState, table: &FnTable) -> (r: VmOut)
    requires
        old(st).ip < usize::MAX,
    ensures
        agrees((r@, final(st)@, table@), printed(old(st)@, table@)),
{
    match pop(st) {
        None => failure("VM stack underflow on Println"),
        Some(rs) => {
            let lines = print_lines(&rs);
            push(st, single(Atom::sym("true")));
            VmOut::Say(lines)
        },
    }
}

} // verus!
