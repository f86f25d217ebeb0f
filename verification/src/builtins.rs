//! Built-in functions.
//!
//! A built-in function answers a call with values, with an error, or with work
//! for the machine that called it: a computation of the host, or a loop over a
//! list whose steps are calls themselves.
use crate::atom::Atom;
use crate::atom::AtomV;
use crate::atom::atoms;
use crate::expr::Expr;
use crate::expr::ExprV;
use crate::expr::exprs;
use crate::func::Builtin;
use crate::func::FnTable;
use crate::func::TableV;
use vstd::prelude::*;

pub mod arithmetic;
pub mod boolean;
pub mod collections;
pub mod compact;
pub mod hashing;
pub mod io;
pub mod loops;
pub mod state;
pub mod types;

verus! {

/// What a loop over a list does with the value of each step.
#[derive(Clone, Copy, PartialEq, Eq, Structural)]
pub enum LoopKind {
    /// The value is the accumulator of the next step.
    Fold,
    /// The values make up the result.
    Collect,
    /// The elements with true values make up the result.
    Filter,
    /// The elements with the value `True` make up the result.
    KeepTrue,
}

/// What each step of a loop calls.
pub enum Callee {
    /// A built-in function.
    Native(Builtin),
    /// An expression: these items, followed by the element.
    Code(Vec<Expr>),
}

/// A loop over the elements of a list.
pub struct ListLoop {
    /// What is done with the values.
    pub kind: LoopKind,
    /// What is called.
    pub callee: Callee,
    /// The name of what is called.
    pub name: String,
    /// The complaint about a step without a value, up to the element.
    pub complaint: String,
    /// The elements.
    pub items: Vec<Atom>,
    /// The position of the next element.
    pub next: usize,
    /// The accumulator.
    pub acc: Atom,
    /// The result so far.
    pub out: Vec<Atom>,
}

/// What each step of a loop calls, as a value.
pub enum CalleeV {
    /// A built-in function.
    Native(Builtin),
    /// An expression without its last item.
    Code(Seq<ExprV>),
}

/// The value of a loop.
pub struct LoopV {
    /// What is done with the values.
    pub kind: LoopKind,
    /// What is called.
    pub callee: CalleeV,
    /// The name of what is called.
    pub name: Seq<char>,
    /// The complaint about a step without a value.
    pub complaint: Seq<char>,
    /// The elements.
    pub items: Seq<AtomV>,
    /// The position of the next element.
    pub next: nat,
    /// The accumulator.
    pub acc: AtomV,
    /// The result so far.
    pub out: Seq<AtomV>,
}

impl View for Callee {
    type V = CalleeV;

    open spec fn view(&self) -> CalleeV {
        match self {
            Callee::Native(b) => CalleeV::Native(*b),
            Callee::Code(v) => CalleeV::Code(exprs(v@)),
        }
    }
}

impl View for ListLoop {
    type V = LoopV;

    open spec fn view(&self) -> LoopV {
        LoopV {
            kind: self.kind,
            callee: self.callee@,
            name: self.name@,
            complaint: self.complaint@,
            items: atoms(self.items@),
            next: self.next as nat,
            acc: self.acc@,
            out: atoms(self.out@),
        }
    }
}

/// The answer of a built-in function.
pub enum Answer {
    /// The values of the call.
    Values(Vec<Atom>),
    /// An error.
    Fail(String),
    /// A line to report, and the value of the call.
    Report(String, Atom),
    /// The host computes the values of the call.
    Host(Builtin, String, Vec<Atom>),
    /// A loop computes the value of the call.
    Loop(ListLoop),
}

/// The answer of a built-in function, as a value.
pub enum AnswerV {
    /// The values of the call.
    Values(Seq<AtomV>),
    /// An error.
    Fail(Seq<char>),
    /// A line to report, and the value of the call.
    Report(Seq<char>, AtomV),
    /// The host computes the values of the call.
    Host(Builtin, Seq<char>, Seq<AtomV>),
    /// A loop computes the value of the call.
    Loop(LoopV),
}

impl View for Answer {
    type V = AnswerV;

    open spec fn view(&self) -> AnswerV {
        match self {
            Answer::Values(v) => AnswerV::Values(atoms(v@)),
            Answer::Fail(e) => AnswerV::Fail(e@),
            Answer::Report(line, a) => AnswerV::Report(line@, a@),
            Answer::Host(b, name, args) => AnswerV::Host(*b, name@, atoms(args@)),
            Answer::Loop(l) => AnswerV::Loop(l@),
        }
    }
}

/// The answer with one value.
pub open spec fn one(a: AtomV) -> AnswerV {
    AnswerV::Values(seq![a])
}

/// Answer with one value.
pub fn answer_one(a: Atom) -> (r: Answer)
    ensures
        r@ == one(a@),
{
    let mut v: Vec<Atom> = Vec::new();
    v.push(a);
    assert(atoms(v@) =~= seq![a@]);
    Answer::Values(v)
}

/// Answer without a value.
pub fn answer_none() -> (r: Answer)
    ensures
        r@ == AnswerV::Values(Seq::empty()),
{
    let v: Vec<Atom> = Vec::new();
    assert(atoms(v@) =~= Seq::<AtomV>::empty());
    Answer::Values(v)
}

/// The answer of a built-in function, and the table it leaves.
pub open spec fn called(b: Builtin, name: Seq<char>, args: Seq<AtomV>, t: TableV) -> (
    AnswerV,
    TableV,
) {
    match b {
        Builtin::ChangeState => state::state_changed(name, args, t),
        Builtin::BindState => state::state_bound(name, args, t),
        Builtin::GetState => (state::state_read(name, args, t), t),
        Builtin::GetAtoms => (state::atoms_read(name, args, t), t),
        Builtin::GetType => (types::type_read(name, args, t), t),
        Builtin::Foldl => (collections::fold_started(name, args, t), t),
        Builtin::MapList => (collections::map_list_started(name, args, t), t),
        Builtin::MapAtom => (collections::map_started(LoopKind::Collect, name, args, t), t),
        Builtin::FilterAtom => (collections::map_started(LoopKind::Filter, name, args, t), t),
        Builtin::Compact(f) => (compact::compact_answer(f, name, args, t), t),
        _ => (computed(b, name, args), t),
    }
}

/// The answer of a built-in function that does not look at the table.
pub open spec fn computed(b: Builtin, name: Seq<char>, args: Seq<AtomV>) -> AnswerV {
    match b {
        Builtin::Add => arithmetic::sum_answer(name, args),
        Builtin::Sub => arithmetic::difference_answer(name, args),
        Builtin::Mul => arithmetic::product_answer(name, args),
        Builtin::Div => arithmetic::quotient_answer(name, args),
        Builtin::Rem => arithmetic::remainder_answer(name, args),
        Builtin::Below => arithmetic::order_answer(Builtin::Below, name, args),
        Builtin::Above => arithmetic::order_answer(Builtin::Above, name, args),
        Builtin::AtMost => arithmetic::order_answer(Builtin::AtMost, name, args),
        Builtin::AtLeast => arithmetic::order_answer(Builtin::AtLeast, name, args),
        Builtin::Float(_) => AnswerV::Host(b, name, args),
        Builtin::TermHash => collections::hash_answer(name, args),
        Builtin::Equal => boolean::equal_answer(name, args),
        Builtin::NotEqual => boolean::not_equal_answer(name, args),
        Builtin::AlphaEqual => boolean::alpha_answer(name, args),
        Builtin::Repr => io::repr_answer(name, args),
        Builtin::Parse => io::parse_answer(name, args),
        Builtin::Assert => io::assert_answer(name, args),
        Builtin::Test => io::test_answer(name, args),
        Builtin::IsVar => types::is_var_answer(name, args),
        Builtin::IsExpr => types::is_expr_answer(name, args),
        Builtin::IsSpace => types::is_space_answer(name, args),
        Builtin::GetMetatype => types::metatype_answer(name, args),
        _ => collections::list_answer(b, name, args),
    }
}

/// Call a built-in function.
pub fn call_builtin(b: Builtin, name: &str, args: &Vec<Atom>, table: &mut FnTable) -> (r: Answer)
    ensures
        (r@, final(table)@) == called(b, name@, atoms(args@), old(table)@),
{
    match b {
        Builtin::ChangeState => state::change_state(name, args, table),
        Builtin::BindState => state::bind_state(name, args, table),
        Builtin::GetState => state::get_state(name, args, table),
        Builtin::GetAtoms => state::get_atoms(name, args, table),
        Builtin::GetType => types::get_type(name, args, table),
        Builtin::Foldl => collections::start_foldl(name, args, table),
        Builtin::MapList => collections::start_maplist(name, args, table),
        Builtin::MapAtom => collections::start_map(LoopKind::Collect, name, args, table),
        Builtin::FilterAtom => collections::start_map(LoopKind::Filter, name, args, table),
        Builtin::Compact(f) => compact::call_compact(f, name, args, table),
        _ => compute(b, name, args),
    }
}

/// Compute the answer of a built-in function that does not look at the table.
fn compute(b: Builtin, name: &str, args: &Vec<Atom>) -> (r: Answer)
    ensures
        r@ == computed(b, name@, atoms(args@)),
{
    match b {
        Builtin::Add => arithmetic::plus(name, args),
        Builtin::Sub => arithmetic::minus(name, args),
        Builtin::Mul => arithmetic::times(name, args),
        Builtin::Div => arithmetic::divide(name, args),
        Builtin::Rem => arithmetic::remainder(name, args),
        Builtin::Below => arithmetic::order(Builtin::Below, name, args),
        Builtin::Above => arithmetic::order(Builtin::Above, name, args),
        Builtin::AtMost => arithmetic::order(Builtin::AtMost, name, args),
        Builtin::AtLeast => arithmetic::order(Builtin::AtLeast, name, args),
        Builtin::Float(_) => arithmetic::hand_over(b, name, args),
        Builtin::TermHash => collections::term_hash(name, args),
        Builtin::Equal => boolean::equal(name, args),
        Builtin::NotEqual => boolean::not_equal(name, args),
        Builtin::AlphaEqual => boolean::alpha_equal(name, args),
        Builtin::Repr => io::repr(name, args),
        Builtin::Parse => io::parse(name, args),
        Builtin::Assert => io::assert_true(name, args),
        Builtin::Test => io::test_values(name, args),
        Builtin::IsVar => types::is_var_value(name, args),
        Builtin::IsExpr => types::is_expr_value(name, args),
        Builtin::IsSpace => types::is_space_value(name, args),
        Builtin::GetMetatype => types::get_metatype(name, args),
        _ => collections::list_op(b, name, args),
    }
}

/// A call of a built-in function draws no fresh name, and changes neither
/// functions nor spaces.
pub proof fn calls_change_state_only(b: Builtin, name: Seq<char>, args: Seq<AtomV>, t: TableV)
    ensures
        called(b, name, args, t).1 == (TableV { state: called(b, name, args, t).1.state, ..t }),
{
}

/// Register all built-in functions.
pub fn register_builtins(funcs: &mut FnTable)
    ensures
        final(funcs)@ == types::with_type_builtins(
            state::with_state_builtins(
                io::with_io_builtins(
                    collections::with_collection_builtins(
                        boolean::with_boolean_builtins(
                            arithmetic::with_arithmetic_builtins(old(funcs)@),
                        ),
                    ),
                ),
            ),
        ),
{
    arithmetic::register_arithmetic_builtins(funcs);
    boolean::register_boolean_builtins(funcs);
    collections::register_collection_builtins(funcs);
    io::register_io_builtins(funcs);
    state::register_state_builtins(funcs);
    types::register_type_builtins(funcs);
}

/// One row of a list of built-in functions: name, number of arguments,
/// function, and whether it is marked as having no side effects.
pub type RowV = (Seq<char>, u8, Builtin, bool);

/// A table with one more built-in function.
pub open spec fn with_row(t: TableV, row: RowV) -> TableV {
    let a = TableV { natives: t.natives.insert((row.0, row.1), row.2), ..t };
    if row.3 {
        TableV { pure_fns: a.pure_fns.insert((row.0, row.1)), ..a }
    } else {
        a
    }
}

/// A table with more built-in functions, registered in order.
pub open spec fn with_rows(t: TableV, rows: Seq<RowV>) -> TableV
    decreases rows.len(),
{
    if rows.len() == 0 {
        t
    } else {
        with_row(with_rows(t, rows.drop_last()), rows.last())
    }
}

/// A row of a list of built-in functions.
pub struct Row {
    /// The name.
    pub name: String,
    /// The number of arguments.
    pub arity: u8,
    /// The function.
    pub builtin: Builtin,
    /// Whether it is marked as having no side effects.
    pub pure_fn: bool,
}

/// The values of rows.
pub open spec fn rows(s: Seq<Row>) -> Seq<RowV> {
    Seq::new(s.len(), |i: int| (s[i].name@, s[i].arity, s[i].builtin, s[i].pure_fn))
}

/// Add a row to a list of built-in functions.
pub fn add_row(list: &mut Vec<Row>, name: &str, arity: u8, builtin: Builtin, pure_fn: bool)
    ensures
        rows(final(list)@) == rows(old(list)@).push((name@, arity, builtin, pure_fn)),
{
    let ghost before = list@;
    list.push(Row { name: name.to_owned(), arity, builtin, pure_fn });
    assert(rows(list@) =~= rows(before).push((name@, arity, builtin, pure_fn)));
}

/// Register a list of built-in functions.
pub fn register_rows(funcs: &mut FnTable, list: &Vec<Row>)
    ensures
        final(funcs)@ == with_rows(old(funcs)@, rows(list@)),
{
    let ghost rs = rows(list@);
    let mut i: usize = 0;
    while i < list.len()
        invariant
            i <= list@.len(),
            rs == rows(list@),
            funcs@ == with_rows(old(funcs)@, rs.take(i as int)),
        decreases list@.len() - i,
    {
        let row = &list[i];
        funcs.insert_native(row.name.as_str(), row.arity, row.builtin);
        if row.pure_fn {
            funcs.mark_pure(row.name.as_str(), row.arity);
        }
        assert(rs.take(i + 1).drop_last() =~= rs.take(i as int));
        assert(rs.take(i + 1).last() == rs[i as int]);
        i += 1;
    }
    assert(rs.take(list@.len() as int) =~= rs);
}

} // verus!
