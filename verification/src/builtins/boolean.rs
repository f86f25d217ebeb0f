//! Built-in functions for boolean values, logical operators and equality.
use crate::atom::Atom;
use crate::atom::AtomV;
use crate::atom::atom_same;
use crate::atom::atoms;
use crate::atom::group_atoms;
use crate::atom::symbol;
use crate::builtins::Answer;
use crate::builtins::AnswerV;
use crate::builtins::Row;
use crate::builtins::RowV;
use crate::builtins::add_row;
use crate::builtins::answer_one;
use crate::builtins::arithmetic::alpha_eq;
use crate::builtins::arithmetic::alpha_same;
use crate::builtins::arithmetic::expect_n_args;
use crate::builtins::arithmetic::wrong_count;
use crate::builtins::one;
use crate::builtins::register_rows;
use crate::builtins::rows;
use crate::builtins::with_rows;
use crate::compile::reify::expr_to_atom;
use crate::compile::reify::to_atom;
use crate::expr::Expr;
use crate::expr::ExprV;
use crate::expr::exprs;
use crate::expr::group_exprs;
use crate::func::Builtin;
use crate::func::Clause;
use crate::func::ClauseV;
use crate::func::FnTable;
use crate::func::TableV;
use std::sync::Arc;
use vstd::prelude::*;

verus! {

/// A boolean as a value.
pub open spec fn truth(b: bool) -> AtomV {
    if b {
        symbol("True"@)
    } else {
        symbol("False"@)
    }
}

/// Convert a boolean into a MeTTa boolean atom.
pub fn bool_atom(value: bool) -> (r: Atom)
    ensures
        r@ == truth(value),
{
    if value {
        Atom::sym("True")
    } else {
        Atom::sym("False")
    }
}

/// The answer of `==`, `=`, `=?` and `same`.
pub open spec fn equal_answer(name: Seq<char>, args: Seq<AtomV>) -> AnswerV {
    if args.len() != 2 {
        AnswerV::Fail(wrong_count(name, 2, args.len()))
    } else {
        one(truth(args[0] == args[1]))
    }
}

/// The answer of `!=`.
pub open spec fn not_equal_answer(name: Seq<char>, args: Seq<AtomV>) -> AnswerV {
    if args.len() != 2 {
        AnswerV::Fail(wrong_count(name, 2, args.len()))
    } else {
        one(truth(args[0] != args[1]))
    }
}

/// The answer of `=alpha`.
pub open spec fn alpha_answer(name: Seq<char>, args: Seq<AtomV>) -> AnswerV {
    if args.len() != 2 {
        AnswerV::Fail(wrong_count(name, 2, args.len()))
    } else {
        one(truth(alpha_same(args[0], args[1])))
    }
}

/// Compare two values for equality.
pub fn equal(name: &str, args: &Vec<Atom>) -> (r: Answer)
    ensures
        r@ == equal_answer(name@, atoms(args@)),
{
    broadcast use group_atoms;

    match expect_n_args(args, 2, name) {
        Ok(_) => answer_one(bool_atom(atom_same(&args[0], &args[1]))),
        Err(e) => Answer::Fail(e),
    }
}

/// Compare two values for inequality.
pub fn not_equal(name: &str, args: &Vec<Atom>) -> (r: Answer)
    ensures
        r@ == not_equal_answer(name@, atoms(args@)),
{
    broadcast use group_atoms;

    match expect_n_args(args, 2, name) {
        Ok(_) => answer_one(bool_atom(!atom_same(&args[0], &args[1]))),
        Err(e) => Answer::Fail(e),
    }
}

/// Compare two values up to renaming of variables.
pub fn alpha_equal(name: &str, args: &Vec<Atom>) -> (r: Answer)
    ensures
        r@ == alpha_answer(name@, atoms(args@)),
{
    broadcast use group_atoms;

    match expect_n_args(args, 2, name) {
        Ok(_) => answer_one(bool_atom(alpha_eq(&args[0], &args[1]))),
        Err(e) => Answer::Fail(e),
    }
}

/// A row of a truth table: operator, arguments and value.
pub type TruthV = (Seq<char>, Seq<bool>, bool);

/// The truth tables of the logical operators.
pub open spec fn truth_table() -> Seq<TruthV> {
    seq![
        ("or"@, seq![true, true], true),
        ("or"@, seq![true, false], true),
        ("or"@, seq![false, true], true),
        ("or"@, seq![false, false], false),
        ("and"@, seq![true, true], true),
        ("and"@, seq![true, false], false),
        ("and"@, seq![false, true], false),
        ("and"@, seq![false, false], false),
        ("not"@, seq![true], false),
        ("not"@, seq![false], true),
        ("xor"@, seq![true, false], true),
        ("xor"@, seq![false, true], true),
        ("xor"@, seq![true, true], false),
        ("xor"@, seq![false, false], false),
        ("implies"@, seq![true, true], true),
        ("implies"@, seq![true, false], false),
        ("implies"@, seq![false, true], true),
        ("implies"@, seq![false, false], true),
    ]
}

/// A boolean as it is written.
pub open spec fn written(b: bool) -> ExprV {
    if b {
        ExprV::Symbol("True"@)
    } else {
        ExprV::Symbol("False"@)
    }
}

/// Booleans as they are written.
pub open spec fn all_written(s: Seq<bool>) -> Seq<ExprV> {
    Seq::new(s.len(), |i: int| written(s[i]))
}

/// The table after one row of a truth table was added: the definition and its
/// head stand in the space, and the row is a clause of the operator.
pub open spec fn with_truth(t: TableV, row: TruthV) -> TableV {
    let head = ExprV::List(seq![ExprV::Symbol(row.0)] + all_written(row.1));
    let def = ExprV::List(seq![ExprV::Symbol("="@), head, written(row.2)]);
    let a = t.with_space("&self"@, t.space("&self"@).push(to_atom(def)));
    let b = a.with_space("&self"@, a.space("&self"@).push(to_atom(head)));
    b.with_clause(
        row.0,
        row.1.len() as u8,
        ClauseV { patterns: all_written(row.1), body: written(row.2) },
    )
}

/// The table after rows of truth tables were added in order.
pub open spec fn with_truths(t: TableV, list: Seq<TruthV>) -> TableV
    decreases list.len(),
{
    if list.len() == 0 {
        t
    } else {
        with_truth(with_truths(t, list.drop_last()), list.last())
    }
}

/// The logical operators with their numbers of arguments.
pub open spec fn marked_operators(t: TableV) -> TableV {
    TableV {
        pure_fns: t.pure_fns.insert(("or"@, 2u8)).insert(("and"@, 2u8)).insert(
            ("not"@, 1u8),
        ).insert(("xor"@, 2u8)).insert(("implies"@, 2u8)),
        ..t
    }
}

/// Write a boolean.
pub fn write_bool(b: bool) -> (r: Expr)
    ensures
        r@ == written(b),
{
    if b {
        Expr::Symbol("True".to_owned())
    } else {
        Expr::Symbol("False".to_owned())
    }
}

/// Write booleans.
pub fn write_bools(list: &Vec<bool>) -> (r: Vec<Expr>)
    ensures
        exprs(r@) == all_written(list@),
{
    broadcast use group_exprs;

    let mut out: Vec<Expr> = Vec::new();
    let mut i: usize = 0;
    while i < list.len()
        invariant
            i <= list@.len(),
            exprs(out@) == all_written(list@).take(i as int),
        decreases list@.len() - i,
    {
        out.push(write_bool(list[i]));
        assert(all_written(list@).take(i + 1) =~= all_written(list@).take(i as int).push(
            written(list@[i as int]),
        ));
        i += 1;
    }
    assert(all_written(list@).take(list@.len() as int) =~= all_written(list@));
    out
}

/// Put an atom at the end of the space `&self`.
fn put_in_self(funcs: &mut FnTable, atom: Atom)
    ensures
        final(funcs)@ == old(funcs)@.with_space(
            "&self"@,
            old(funcs)@.space("&self"@).push(atom@),
        ),
{
    broadcast use group_atoms;

    let mut list = funcs.space_atoms("&self");
    list.push(atom);
    funcs.set_space("&self", list);
}

/// Add one row of a truth table.
fn add_truth(funcs: &mut FnTable, name: &str, args: Vec<bool>, value: bool)
    requires
        args@.len() <= 255,
    ensures
        final(funcs)@ == with_truth(old(funcs)@, (name@, args@, value)),
{
    broadcast use {group_exprs, group_atoms};

    let mut head_items: Vec<Expr> = Vec::new();
    head_items.push(Expr::Symbol(name.to_owned()));
    let mut written_args = write_bools(&args);
    let patterns = write_bools(&args);
    head_items.append(&mut written_args);
    assert(exprs(head_items@) =~= seq![ExprV::Symbol(name@)] + all_written(args@));
    let head = Expr::List(Arc::new(head_items));
    let mut def_items: Vec<Expr> = Vec::new();
    def_items.push(Expr::Symbol("=".to_owned()));
    def_items.push(head.clone());
    def_items.push(write_bool(value));
    assert(exprs(def_items@) =~= seq![ExprV::Symbol("="@), head@, written(value)]);
    let def = Expr::List(Arc::new(def_items));
    put_in_self(funcs, expr_to_atom(&def));
    put_in_self(funcs, expr_to_atom(&head));
    let clause = Clause { patterns, body: write_bool(value) };
    funcs.cache_fn(name, args.len() as u8, clause);
}

/// Register the truth tables of the logical operators as clauses.
pub fn register_truth_tables(funcs: &mut FnTable)
    ensures
        final(funcs)@ == marked_operators(with_truths(old(funcs)@, truth_table())),
{
    let ghost t0 = funcs@;
    let ghost rows = truth_table();
    proof {
        assert(rows.take(0) =~= Seq::<TruthV>::empty());
        reveal_with_fuel(with_truths, 2);
    }
    register_binary(funcs, "or", true, true, true, false);
    register_binary(funcs, "and", true, false, false, false);
    let ghost t8 = funcs@;
    let mut one_true: Vec<bool> = Vec::new();
    one_true.push(true);
    assert(one_true@ =~= seq![true]);
    add_truth(funcs, "not", one_true, false);
    let mut one_false: Vec<bool> = Vec::new();
    one_false.push(false);
    assert(one_false@ =~= seq![false]);
    add_truth(funcs, "not", one_false, true);
    add_truth(funcs, "xor", two(true, false), true);
    add_truth(funcs, "xor", two(false, true), true);
    add_truth(funcs, "xor", two(true, true), false);
    add_truth(funcs, "xor", two(false, false), false);
    register_binary(funcs, "implies", true, false, true, true);
    proof {
        lemma_truths(t0);
    }
    funcs.mark_pure("or", 2);
    funcs.mark_pure("and", 2);
    funcs.mark_pure("not", 1);
    funcs.mark_pure("xor", 2);
    funcs.mark_pure("implies", 2);
}

/// Two booleans as a list.
pub fn two(a: bool, b: bool) -> (r: Vec<bool>)
    ensures
        r@ == seq![a, b],
{
    let mut v: Vec<bool> = Vec::new();
    v.push(a);
    v.push(b);
    assert(v@ =~= seq![a, b]);
    v
}

/// The four rows of an operator of two arguments, added in order.
pub open spec fn with_binary(
    t: TableV,
    name: Seq<char>,
    tt: bool,
    tf: bool,
    ft: bool,
    ff: bool,
) -> TableV {
    with_truth(
        with_truth(
            with_truth(with_truth(t, (name, seq![true, true], tt)), (name, seq![true, false], tf)),
            (name, seq![false, true], ft),
        ),
        (name, seq![false, false], ff),
    )
}

/// Add the four rows of an operator of two arguments.
fn register_binary(funcs: &mut FnTable, name: &str, tt: bool, tf: bool, ft: bool, ff: bool)
    ensures
        final(funcs)@ == with_binary(old(funcs)@, name@, tt, tf, ft, ff),
{
    add_truth(funcs, name, two(true, true), tt);
    add_truth(funcs, name, two(true, false), tf);
    add_truth(funcs, name, two(false, true), ft);
    add_truth(funcs, name, two(false, false), ff);
}

/// Adding one row more.
proof fn lemma_truths_step(t: TableV, list: Seq<TruthV>, n: int)
    requires
        0 <= n < list.len(),
    ensures
        with_truths(t, list.take(n + 1)) == with_truth(with_truths(t, list.take(n)), list[n]),
{
    assert(list.take(n + 1).drop_last() =~= list.take(n));
}

/// The truth tables, row by row.
proof fn lemma_truths(t: TableV)
    ensures
        with_truths(t, truth_table()) == with_binary(
            with_truth(
                with_truth(
                    with_truth(
                        with_truth(
                            with_truth(
                                with_truth(
                                    with_binary(
                                        with_binary(t, "or"@, true, true, true, false),
                                        "and"@,
                                        true,
                                        false,
                                        false,
                                        false,
                                    ),
                                    ("not"@, seq![true], false),
                                ),
                                ("not"@, seq![false], true),
                            ),
                            ("xor"@, seq![true, false], true),
                        ),
                        ("xor"@, seq![false, true], true),
                    ),
                    ("xor"@, seq![true, true], false),
                ),
                ("xor"@, seq![false, false], false),
            ),
            "implies"@,
            true,
            false,
            true,
            true,
        ),
{
    let rows = truth_table();
    assert(with_truths(t, rows.take(0)) == t);
    assert(rows.take(18) =~= rows);
    lemma_truths_step(t, rows, 0);
    lemma_truths_step(t, rows, 1);
    lemma_truths_step(t, rows, 2);
    lemma_truths_step(t, rows, 3);
    lemma_truths_step(t, rows, 4);
    lemma_truths_step(t, rows, 5);
    lemma_truths_step(t, rows, 6);
    lemma_truths_step(t, rows, 7);
    lemma_truths_step(t, rows, 8);
    lemma_truths_step(t, rows, 9);
    lemma_truths_step(t, rows, 10);
    lemma_truths_step(t, rows, 11);
    lemma_truths_step(t, rows, 12);
    lemma_truths_step(t, rows, 13);
    lemma_truths_step(t, rows, 14);
    lemma_truths_step(t, rows, 15);
    lemma_truths_step(t, rows, 16);
    lemma_truths_step(t, rows, 17);
}

/// The boolean function that an operator of two arguments stands for.
pub open spec fn operator_value(name: Seq<char>, a: bool, b: bool) -> bool {
    if name == "or"@ {
        a || b
    } else if name == "and"@ {
        a && b
    } else if name == "xor"@ {
        a != b
    } else {
        a ==> b
    }
}

/// The truth tables are those of negation, disjunction, conjunction, exclusive
/// disjunction and implication.
pub proof fn truth_tables_are_boolean(i: int)
    requires
        0 <= i < truth_table().len(),
    ensures
        truth_table()[i].1.len() == 1 ==> truth_table()[i].2 == !truth_table()[i].1[0],
        truth_table()[i].1.len() == 2 ==> truth_table()[i].2 == operator_value(
            truth_table()[i].0,
            truth_table()[i].1[0],
            truth_table()[i].1[1],
        ),
{
    reveal_strlit("or");
    reveal_strlit("and");
    reveal_strlit("not");
    reveal_strlit("xor");
    reveal_strlit("implies");
    assert("or"@.len() == 2 && "and"@.len() == 3 && "xor"@.len() == 3 && "implies"@.len() == 7);
    assert("and"@[0] == 'a' && "xor"@[0] == 'x');
}

/// The built-in comparisons.
pub open spec fn boolean_rows() -> Seq<RowV> {
    seq![
        ("=="@, 2u8, Builtin::Equal, true),
        ("!="@, 2u8, Builtin::NotEqual, true),
        ("="@, 2u8, Builtin::Equal, true),
        ("=?"@, 2u8, Builtin::Equal, true),
        ("same"@, 2u8, Builtin::Equal, true),
        ("=alpha"@, 2u8, Builtin::AlphaEqual, true),
    ]
}

/// The table with the logical operators and comparisons.
pub open spec fn with_boolean_builtins(t: TableV) -> TableV {
    with_rows(marked_operators(with_truths(t, truth_table())), boolean_rows())
}

/// Register boolean and equality builtins.
pub fn register_boolean_builtins(funcs: &mut FnTable)
    ensures
        final(funcs)@ == with_boolean_builtins(old(funcs)@),
{
    register_truth_tables(funcs);
    let mut v: Vec<Row> = Vec::new();
    add_row(&mut v, "==", 2, Builtin::Equal, true);
    add_row(&mut v, "!=", 2, Builtin::NotEqual, true);
    add_row(&mut v, "=", 2, Builtin::Equal, true);
    add_row(&mut v, "=?", 2, Builtin::Equal, true);
    add_row(&mut v, "same", 2, Builtin::Equal, true);
    add_row(&mut v, "=alpha", 2, Builtin::AlphaEqual, true);
    assert(rows(v@) =~= boolean_rows());
    register_rows(funcs, &v);
}

} // verus!
