//! Resumption of continuation frames with the results they waited for.
use crate::atom::Atom;
use crate::atom::AtomV;
use crate::atom::atoms;
use crate::eval::machine::apply::PrintedV;
use crate::eval::machine::apply::begin_foldall;
use crate::eval::machine::apply::bind_let;
use crate::eval::machine::apply::bind_star;
use crate::eval::machine::apply::case_selected;
use crate::eval::machine::apply::chain;
use crate::eval::machine::apply::chained;
use crate::eval::machine::apply::change_spaces;
use crate::eval::machine::apply::enter_mutexes;
use crate::eval::machine::apply::first_raw;
use crate::eval::machine::apply::fold_next;
use crate::eval::machine::apply::fold_started;
use crate::eval::machine::apply::foldall_begun;
use crate::eval::machine::apply::foldall_started;
use crate::eval::machine::apply::foldall_stepped;
use crate::eval::machine::apply::forall_started;
use crate::eval::machine::apply::forall_stepped;
use crate::eval::machine::apply::gather;
use crate::eval::machine::apply::gather_if;
use crate::eval::machine::apply::gathered;
use crate::eval::machine::apply::if_gathered;
use crate::eval::machine::apply::if_selected;
use crate::eval::machine::apply::let_bound;
use crate::eval::machine::apply::list_data;
use crate::eval::machine::apply::listed;
use crate::eval::machine::apply::match_spaces;
use crate::eval::machine::apply::mutexes_entered;
use crate::eval::machine::apply::next_fold;
use crate::eval::machine::apply::next_foldall;
use crate::eval::machine::apply::next_forall;
use crate::eval::machine::apply::put_in_front;
use crate::eval::machine::apply::raw_space;
use crate::eval::machine::apply::select_case;
use crate::eval::machine::apply::select_if;
use crate::eval::machine::apply::space_added;
use crate::eval::machine::apply::space_matched;
use crate::eval::machine::apply::space_removed;
use crate::eval::machine::apply::star_bound;
use crate::eval::machine::apply::start_fold;
use crate::eval::machine::apply::start_foldall;
use crate::eval::machine::apply::start_forall;
use crate::eval::machine::apply::stream;
use crate::eval::machine::apply::streamed;
use crate::eval::machine::apply::take_first_raw;
use crate::eval::machine::apply::test_raw;
use crate::eval::machine::apply::under_env;
use crate::eval::machine::apply::unpack;
use crate::eval::machine::apply::unpacked;
use crate::eval::machine::apply::wrap;
use crate::eval::machine::apply::wrapped;
use crate::eval::machine::budget::ResultSet;
use crate::eval::machine::budget::ResultV;
use crate::eval::machine::budget::atoms_of;
use crate::eval::machine::budget::copy_results;
use crate::eval::machine::budget::result_atoms;
use crate::eval::machine::budget::result_sets;
use crate::eval::machine::budget::results;
use crate::eval::machine::calls::bodies_resumed;
use crate::eval::machine::calls::call_resumed;
use crate::eval::machine::calls::count_open;
use crate::eval::machine::calls::fill_slots;
use crate::eval::machine::calls::filled_slots;
use crate::eval::machine::calls::open_slots;
use crate::eval::machine::calls::resume_bodies;
use crate::eval::machine::calls::resume_call;
use crate::eval::machine::calls::store;
use crate::eval::machine::calls::storing;
use crate::eval::machine::frame::ContV;
use crate::eval::machine::frame::Frame;
use crate::eval::machine::heads::apply_heads;
use crate::eval::machine::heads::heads_applied;
use crate::eval::machine::resumed::Resumed;
use crate::eval::machine::resumed::ResumedV;
use crate::eval::machine::resumed::nothing;
use crate::eval::machine::resumed::one;
use crate::eval::machine::resumed::resume_fail;
use crate::eval::machine::resumed::resume_nothing;
use crate::eval::machine::resumed::resume_one;
use crate::eval::machine::vm::outcome::HostCall;
use crate::eval::machine::vm::outcome::HostV;
use crate::eval::machine::vm::plain::print_lines;
use crate::eval::machine::vm::plain::printed_lines;
use crate::eval::machine::vm::resume::first_only;
use crate::eval::machine::vm::resume::keep_first;
use crate::eval::machine::vm::state::MemoKey;
use crate::eval::shared::pattern::KnownV;
use crate::eval::shared::pattern::PatternValue;
use crate::eval::shared::pattern::known_values;
use crate::expr::Expr;
use crate::func::FnTable;
use crate::func::TableV;
use crate::text::no_lines;
use crate::text::texts;
use vstd::prelude::*;
use vstd::string::*;

verus! {

/// How many results a frame takes from the top of the stack of results.
pub open spec fn needs(f: ContV, have: nat) -> nat {
    match f {
        ContV::Call(_, arity, None) => arity,
        ContV::Call(_, _, Some(slots)) => open_slots(slots),
        ContV::DataList(n) => n,
        ContV::DataListWithHead(_, n) => n,
        ContV::Gather(n) => n,
        ContV::IfGather(_, n) => n,
        ContV::Progn(n) => n,
        ContV::Prog1(n) => n,
        ContV::ApplyHead(n) => n + 1,
        ContV::FoldlInit => 3,
        ContV::FoldallInit(_, _) => 2,
        ContV::ForallInit(_) => 2,
        ContV::SpaceMatchStream(_) => 0,
        ContV::MemoStore(_) => if have == 0 {
            0
        } else {
            1
        },
        _ => 1,
    }
}

/// Find how many results a frame takes; there is no number that large when it
/// does not fit.
pub fn find_needs(f: &Frame, have: usize) -> (r: Option<usize>)
    ensures
        (match r {
            Some(n) => n == needs(f@, have as nat),
            None => needs(f@, have as nat) > usize::MAX,
        }),
{
    match f {
        Frame::Call { head: _, arity, prebound } => match prebound {
            None => Some(*arity),
            Some(slots) => Some(count_open(slots)),
        },
        Frame::DataList(n) => Some(*n),
        Frame::DataListWithHead(_, n) => Some(*n),
        Frame::Gather(n) => Some(*n),
        Frame::IfGather(_, n) => Some(*n),
        Frame::Progn(n) => Some(*n),
        Frame::Prog1(n) => Some(*n),
        Frame::ApplyHead(n) => if *n < usize::MAX {
            Some(*n + 1)
        } else {
            None
        },
        Frame::FoldlInit => Some(3),
        Frame::FoldallInit(_, _) => Some(2),
        Frame::ForallInit(_) => Some(2),
        Frame::SpaceMatchStream(_) => Some(0),
        Frame::MemoStore(_) => if have == 0 {
            Some(0)
        } else {
            Some(1)
        },
        _ => Some(1),
    }
}

/// What resuming a frame comes to, the lines that are printed, and the table
/// that is left.
pub type ResumptionV = (ResumedV, Seq<Seq<char>>, TableV);

/// Resuming a frame that prints nothing and leaves the table as it is.
pub open spec fn quiet(r: ResumedV, t: TableV) -> ResumptionV {
    (r, Seq::empty(), t)
}

/// Resuming a frame that may print and leaves the table as it is.
pub open spec fn noted(p: PrintedV, t: TableV) -> ResumptionV {
    (p.0, p.1, t)
}

/// Resuming a frame that prints nothing.
pub open spec fn changing(p: (ResumedV, TableV)) -> ResumptionV {
    (p.0, Seq::empty(), p.1)
}

/// Resuming a frame with the results that it takes.
pub open spec fn resumed(f: ContV, sets: Seq<ResultV>, t: TableV, known: Seq<KnownV>) -> ResumptionV {
    match f {
        ContV::Call(head, arity, None) => changing(call_resumed(head, arity, sets, t, known)),
        ContV::Call(head, arity, Some(slots)) => changing(
            call_resumed(head, arity, filled_slots(slots, sets), t, known),
        ),
        ContV::DataList(_) => quiet(listed(sets, Seq::empty()), t),
        ContV::DataListWithHead(h, _) => quiet(listed(sets, seq![h]), t),
        ContV::Gather(_) => quiet(gathered(sets), t),
        ContV::IfGather(had, _) => quiet(if_gathered(had, sets), t),
        ContV::IfBranch(yes, no, env) => quiet(if_selected(sets[0], yes, no, env), t),
        ContV::CaseSelect(cs, env) => quiet(case_selected(sets[0], cs, env, known), t),
        ContV::WithinWrap => quiet(wrapped(sets[0]), t),
        ContV::CollapseGather => quiet(one(AtomV::Expr(result_atoms(sets[0]))), t),
        ContV::MergeEnv(env) => quiet(ResumedV::Value(under_env(sets[0], env)), t),
        ContV::OnceCut => quiet(ResumedV::Value(first_only(sets[0])), t),
        ContV::ChainBind(args, i, env) => quiet(chained(sets[0], args, i, env), t),
        ContV::LetStarBind(bs, i, body, env) => noted(
            star_bound(sets[0], bs, i, body, env, known),
            t,
        ),
        ContV::SpaceMatch(p, body, env) => quiet(space_matched(sets[0], p, body, env, t), t),
        ContV::SpaceMatchStream(left) => quiet(streamed(left), t),
        ContV::SpaceAdd(x, env) => quiet(space_added(sets[0], x, env), t),
        ContV::SpaceRemove(x, env) => quiet(space_removed(sets[0], x, env), t),
        ContV::MutexEnter(body, env) => quiet(mutexes_entered(sets[0], body, env), t),
        ContV::SuperposeUnpack => quiet(unpacked(sets[0]), t),
        ContV::LetMatch(p, body, env) => noted(let_bound(sets[0], p, body, env, known), t),
        ContV::FoldlInit => quiet(fold_started(sets[0], sets[1], sets[2]), t),
        ContV::FoldlAtom(items, i, acc, func) => quiet(
            fold_next(
                items,
                i,
                match first_raw(sets[0]) {
                    Some(a) => a,
                    None => acc,
                },
                func,
            ),
            t,
        ),
        ContV::FoldallInit(func, env) => quiet(foldall_begun(sets[0], sets[1], func, env), t),
        ContV::FoldallFn(values, init, env) => quiet(
            foldall_started(sets[0], values, init, env),
            t,
        ),
        ContV::FoldallStep(head, env, values, i) => quiet(
            foldall_stepped(sets[0], head, env, values, i),
            t,
        ),
        ContV::ForallInit(env) => quiet(forall_started(sets[0], sets[1], env), t),
        ContV::ForallStep(head, front, env, values, i) => quiet(
            forall_stepped(sets[0], head, front, env, values, i),
            t,
        ),
        ContV::Println => (ResumedV::Value(sets[0]), printed_lines(sets[0]), t),
        ContV::ApplyHead(_) => changing(
            heads_applied(sets.last(), 0, sets.drop_last(), t, known),
        ),
        ContV::Bodies(bs, i, out, key, keep) => changing(
            bodies_resumed(sets[0], bs, i, out, key, keep, t),
        ),
        ContV::ImportFile(path, env) => quiet(
            ResumedV::Host(HostV::Import(path, raw_space(sets[0]), env)),
            t,
        ),
        ContV::PythonImport(path) => quiet(ResumedV::Host(HostV::PyImport(path)), t),
        ContV::Progn(_) => quiet(
            if sets.len() == 0 {
                nothing()
            } else {
                ResumedV::Value(sets.last())
            },
            t,
        ),
        ContV::Prog1(_) => quiet(
            if sets.len() == 0 {
                nothing()
            } else {
                ResumedV::Value(sets[0])
            },
            t,
        ),
        ContV::MemoStore(key) => if sets.len() == 0 {
            quiet(ResumedV::Nothing, t)
        } else {
            (ResumedV::Value(sets[0]), Seq::empty(), storing(t, Some(key), sets[0]))
        },
    }
}

/// Take the space that a result refers to as it stands.
fn take_raw_space(rs: &ResultSet) -> (r: Atom)
    ensures
        r@ == raw_space(results(rs@)),
{
    match take_first_raw(rs) {
        Some(a) => a,
        None => Atom::sym("&self"),
    }
}

/// Whether a frame may need the value of a pattern.
pub open spec fn may_ask(f: ContV) -> bool {
    f is Call || f is ApplyHead || f is CaseSelect || f is LetMatch || f is LetStarBind
}

/// Test whether a frame may need the value of a pattern.
pub fn is_asking(f: &Frame) -> (r: bool)
    ensures
        r == may_ask(f@),
{
    match f {
        Frame::Call { .. } => true,
        Frame::ApplyHead(_) => true,
        Frame::CaseSelect(_, _) => true,
        Frame::LetMatch(_, _, _) => true,
        Frame::LetStarBind(_, _, _, _) => true,
        _ => false,
    }
}

/// Apply a continuation frame that may need the value of a pattern.
pub fn apply_asking(
    f: &Frame,
    sets: &mut Vec<ResultSet>,
    table: &mut FnTable,
    known: &Vec<PatternValue>,
) -> (r: (Resumed, Vec<String>))
    requires
        may_ask(f@),
        old(sets)@.len() == needs(f@, old(sets)@.len()),
    ensures
        (r.0@, texts(r.1@), final(table)@) == resumed(
            f@,
            result_sets(old(sets)@),
            old(table)@,
            known_values(known@),
        ),
        final(sets)@ == old(sets)@,
{
    let ghost sv = result_sets(sets@);
    assert(sv.len() == sets@.len());
    match f {
        Frame::Call { head, arity, prebound } => match prebound {
            None => (resume_call(head, *arity, sets, table, known), no_lines()),
            Some(slots) => {
                let all = fill_slots(slots, sets);
                (resume_call(head, *arity, &all, table, known), no_lines())
            },
        },
        Frame::ApplyHead(_) => {
            let ghost before = sets@;
            match sets.pop() {
                Some(heads) => {
                    assert(result_sets(sets@) =~= sv.drop_last());
                    assert(sv.last() == results(heads@));
                    let out = apply_heads(&heads, sets, table, known);
                    sets.push(heads);
                    assert(sets@ =~= before);
                    (out, no_lines())
                },
                None => (Resumed::Nothing, no_lines()),
            }
        },
        Frame::CaseSelect(cs, env) => {
            assert(sv[0] == results(sets@[0]@));
            (select_case(&sets[0], cs, env, known), no_lines())
        },
        Frame::LetStarBind(bs, i, body, env) => {
            assert(sv[0] == results(sets@[0]@));
            bind_star(&sets[0], bs, *i, body, env, known)
        },
        Frame::LetMatch(p, body, env) => {
            assert(sv[0] == results(sets@[0]@));
            bind_let(&sets[0], p, body, env, known)
        },
        _ => (Resumed::Nothing, no_lines()),
    }
}

/// What a frame that needs no pattern comes to does not rest on the values of
/// patterns.
pub proof fn patterns_do_not_matter(f: ContV, sets: Seq<ResultV>, t: TableV, known: Seq<KnownV>)
    requires
        !may_ask(f),
    ensures
        resumed(f, sets, t, known) == resumed(f, sets, t, Seq::empty()),
{
}

/// Resume a frame that takes one result and leaves the table as it is.
fn resume_single(f: Frame, rs: ResultSet, table: &FnTable) -> (r: (Resumed, Vec<String>))
    requires
        needs(f@, 1) == 1,
        !(f@ is Call || f@ is DataList || f@ is DataListWithHead || f@ is Gather || f@ is IfGather
            || f@ is Progn || f@ is Prog1 || f@ is ApplyHead || f@ is Bodies || f@ is MemoStore),
        !may_ask(f@),
    ensures
        !(r.0@ is Ask),
        (r.0@, texts(r.1@), table@) == resumed(
            f@,
            seq![results(rs@)],
            table@,
            Seq::empty(),
        ),
{
    match f {
        Frame::IfBranch(yes, no, env) => (select_if(&rs, &yes, &no, &env), no_lines()),
        Frame::WithinWrap => (wrap(&rs), no_lines()),
        Frame::CollapseGather => (resume_one(Atom::expr(atoms_of(&rs))), no_lines()),
        Frame::MergeEnv(env) => (Resumed::Value(put_in_front(&rs, &env)), no_lines()),
        Frame::OnceCut => (Resumed::Value(keep_first(rs)), no_lines()),
        Frame::ChainBind(args, i, env) => (chain(&rs, &args, i, &env), no_lines()),
        Frame::SpaceMatch(p, body, env) => (match_spaces(&rs, &p, &body, &env, table), no_lines()),
        Frame::SpaceAdd(x, env) => (change_spaces(&rs, &x, &env, true), no_lines()),
        Frame::SpaceRemove(x, env) => (change_spaces(&rs, &x, &env, false), no_lines()),
        Frame::MutexEnter(body, env) => (enter_mutexes(&rs, &body, &env), no_lines()),
        Frame::SuperposeUnpack => (unpack(&rs), no_lines()),
        Frame::FoldlAtom(items, i, acc, func) => {
            let value = match take_first_raw(&rs) {
                Some(a) => a,
                None => acc,
            };
            (next_fold(&items, i, value, &func), no_lines())
        },
        Frame::FoldallFn(values, init, env) => (
            start_foldall(&rs, values, init, &env),
            no_lines(),
        ),
        Frame::FoldallStep(head, env, values, i) => match take_first_raw(&rs) {
            None => (resume_fail("foldall: agg-func produced no result"), no_lines()),
            Some(a) => (next_foldall(head, env, values, i, a), no_lines()),
        },
        Frame::ForallStep(head, front, env, values, i) => if test_raw(&rs) {
            (next_forall(head, front, env, values, i), no_lines())
        } else {
            (resume_one(Atom::sym("false")), no_lines())
        },
        Frame::Println => {
            let lines = print_lines(&rs);
            (Resumed::Value(rs), lines)
        },
        Frame::ImportFile(path, env) => (
            Resumed::Host(HostCall::Import(path, take_raw_space(&rs), env)),
            no_lines(),
        ),
        Frame::PythonImport(path) => (Resumed::Host(HostCall::PyImport(path)), no_lines()),
        _ => (Resumed::Nothing, no_lines()),
    }
}

/// Apply a continuation frame to the results that it takes.
pub fn apply_frame(
    f: Frame,
    sets: Vec<ResultSet>,
    table: &mut FnTable,
) -> (r: (Resumed, Vec<String>))
    requires
        !may_ask(f@),
        sets@.len() == needs(f@, sets@.len()),
    ensures
        !(r.0@ is Ask),
        (r.0@, texts(r.1@), final(table)@) == resumed(
            f@,
            result_sets(sets@),
            old(table)@,
            Seq::empty(),
        ),
{
    let ghost sv = result_sets(sets@);
    assert(sv.len() == sets@.len());
    let mut sets = sets;
    match f {
        Frame::DataList(_) => {
            let none: Vec<Atom> = Vec::new();
            assert(atoms(none@) =~= Seq::<AtomV>::empty());
            (list_data(&sets, &none), no_lines())
        },
        Frame::DataListWithHead(h, _) => {
            let mut front: Vec<Atom> = Vec::new();
            front.push(h);
            assert(atoms(front@) =~= seq![h@]);
            (list_data(&sets, &front), no_lines())
        },
        Frame::Gather(_) => (gather(&sets), no_lines()),
        Frame::IfGather(had, _) => (gather_if(had, &sets), no_lines()),
        Frame::SpaceMatchStream(left) => (stream(left), no_lines()),
        Frame::FoldlInit => {
            assert(sv[0] == results(sets@[0]@) && sv[1] == results(sets@[1]@) && sv[2] == results(
                sets@[2]@,
            ));
            (start_fold(&sets[0], &sets[1], &sets[2]), no_lines())
        },
        Frame::FoldallInit(func, env) => {
            assert(sv[0] == results(sets@[0]@) && sv[1] == results(sets@[1]@));
            (begin_foldall(&sets[0], &sets[1], &func, &env), no_lines())
        },
        Frame::ForallInit(env) => {
            assert(sv[0] == results(sets@[0]@) && sv[1] == results(sets@[1]@));
            (start_forall(&sets[0], &sets[1], &env), no_lines())
        },
        Frame::Progn(_) => match sets.pop() {
            Some(rs) => (Resumed::Value(rs), no_lines()),
            None => (resume_nothing(), no_lines()),
        },
        Frame::Prog1(_) => if sets.len() == 0 {
            (resume_nothing(), no_lines())
        } else {
            assert(sv[0] == results(sets@[0]@));
            (Resumed::Value(copy_results(&sets[0])), no_lines())
        },
        Frame::Bodies(bs, i, out, key, keep) => {
            assert(sv[0] == results(sets@[0]@));
            let rs = copy_results(&sets[0]);
            (resume_bodies(rs, bs, i, out, key, keep, table), no_lines())
        },
        Frame::MemoStore(key) => if sets.len() == 0 {
            (Resumed::Nothing, no_lines())
        } else {
            assert(sv[0] == results(sets@[0]@));
            let rs = copy_results(&sets[0]);
            let k: Option<MemoKey> = Some(key);
            store(table, &k, &rs);
            (Resumed::Value(rs), no_lines())
        },
        other => {
            let rs = copy_results(&sets[0]);
            assert(sv =~= seq![results(rs@)]);
            resume_single(other, rs, table)
        },
    }
}

} // verus!
