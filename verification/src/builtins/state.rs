//! Built-in functions for mutable evaluator state and space enumeration.
use crate::atom::Atom;
use crate::atom::AtomV;
use crate::atom::atom_same;
use crate::atom::atoms;
use crate::atom::group_atoms;
use crate::atom::sexpr;
use crate::atom::symbol;
use crate::builtins::Answer;
use crate::builtins::AnswerV;
use crate::builtins::Row;
use crate::builtins::RowV;
use crate::builtins::add_row;
use crate::builtins::answer_one;
use crate::builtins::arithmetic::expect_n_args;
use crate::builtins::arithmetic::wrong_count;
use crate::builtins::one;
use crate::builtins::register_rows;
use crate::builtins::rows;
use crate::builtins::with_rows;
use crate::func::Builtin;
use crate::func::FnTable;
use crate::func::TableV;
use crate::space::resolve_space;
use crate::space::space_name;
use crate::text::joined3;
use vstd::prelude::*;
use vstd::string::*;

verus! {

/// The complaint about a key that is no symbol.
pub open spec fn bad_key(name: Seq<char>, a: AtomV) -> Seq<char> {
    name + ": key must be a symbol, got "@ + sexpr(a)
}

/// Take a key.
fn key_of(name: &str, a: &Atom) -> (r: Result<String, String>)
    ensures
        (match r {
            Ok(k) => a@ == AtomV::Sym(k@),
            Err(e) => !(a@ is Sym) && e@ == bad_key(name@, a@),
        }),
{
    match a {
        Atom::Sym(s) => Ok(s.clone()),
        other => {
            let t = other.to_sexpr_string();
            Err(joined3(name, ": key must be a symbol, got ", t.as_str()))
        },
    }
}

/// The table in which a key has a value.
pub open spec fn with_state(t: TableV, key: Seq<char>, value: AtomV) -> TableV {
    TableV { state: t.state.insert((key, 0), value), ..t }
}

/// The answer of `change-state!`, and the table it leaves.
pub open spec fn state_changed(name: Seq<char>, args: Seq<AtomV>, t: TableV) -> (AnswerV, TableV) {
    if args.len() != 2 {
        (AnswerV::Fail(wrong_count(name, 2, args.len())), t)
    } else {
        match args[0] {
            AtomV::Sym(key) => (one(symbol("true"@)), with_state(t, key, args[1])),
            other => (AnswerV::Fail(bad_key(name, other)), t),
        }
    }
}

/// Set a state value.
pub fn change_state(name: &str, args: &Vec<Atom>, table: &mut FnTable) -> (r: Answer)
    ensures
        (r@, final(table)@) == state_changed(name@, atoms(args@), old(table)@),
{
    broadcast use group_atoms;

    match expect_n_args(args, 2, name) {
        Ok(_) => {},
        Err(e) => {
            return Answer::Fail(e);
        },
    }
    match key_of(name, &args[0]) {
        Ok(key) => {
            table.set_state(key.as_str(), args[1].clone());
            answer_one(Atom::sym("true"))
        },
        Err(e) => Answer::Fail(e),
    }
}

/// The value a state starts with: of `(new-state x)` it is `x`.
pub open spec fn initial_value(a: AtomV) -> AtomV {
    match a {
        AtomV::Expr(items) => if items.len() == 2 && items[0] == symbol("new-state"@) {
            items[1]
        } else {
            a
        },
        _ => a,
    }
}

/// The answer of `bind!`, and the table it leaves.
pub open spec fn state_bound(name: Seq<char>, args: Seq<AtomV>, t: TableV) -> (AnswerV, TableV) {
    if args.len() != 2 {
        (AnswerV::Fail(wrong_count(name, 2, args.len())), t)
    } else {
        match args[0] {
            AtomV::Sym(key) => (one(symbol("true"@)), with_state(t, key, initial_value(args[1]))),
            other => (AnswerV::Fail(bad_key(name, other)), t),
        }
    }
}

/// Set an initial state value.
pub fn bind_state(name: &str, args: &Vec<Atom>, table: &mut FnTable) -> (r: Answer)
    ensures
        (r@, final(table)@) == state_bound(name@, atoms(args@), old(table)@),
{
    broadcast use group_atoms;

    match expect_n_args(args, 2, name) {
        Ok(_) => {},
        Err(e) => {
            return Answer::Fail(e);
        },
    }
    match key_of(name, &args[0]) {
        Ok(key) => {
            let marker = Atom::sym("new-state");
            let value = match &args[1] {
                Atom::Expr(items) => {
                    assert(atoms(items@).len() == items@.len());
                    if items.len() == 2 && atom_same(&items[0], &marker) {
                        items[1].clone()
                    } else {
                        args[1].clone()
                    }
                },
                other => other.clone(),
            };
            table.set_state(key.as_str(), value);
            answer_one(Atom::sym("true"))
        },
        Err(e) => Answer::Fail(e),
    }
}

/// The answer of `get-state`.
pub open spec fn state_read(name: Seq<char>, args: Seq<AtomV>, t: TableV) -> AnswerV {
    if args.len() != 1 {
        AnswerV::Fail(wrong_count(name, 1, args.len()))
    } else {
        match args[0] {
            AtomV::Sym(key) => if t.state.contains_key((key, 0)) {
                one(t.state[(key, 0)])
            } else {
                AnswerV::Fail(name + ": no value for key '"@ + key + "'"@)
            },
            other => AnswerV::Fail(bad_key(name, other)),
        }
    }
}

/// Read a state value.
pub fn get_state(name: &str, args: &Vec<Atom>, table: &FnTable) -> (r: Answer)
    ensures
        r@ == state_read(name@, atoms(args@), table@),
{
    broadcast use group_atoms;

    match expect_n_args(args, 1, name) {
        Ok(_) => {},
        Err(e) => {
            return Answer::Fail(e);
        },
    }
    match key_of(name, &args[0]) {
        Ok(key) => match table.get_state(key.as_str()) {
            Some(v) => answer_one(v),
            None => {
                let mut out: String = joined3(name, ": no value for key '", key.as_str());
                out.append("'");
                Answer::Fail(out)
            },
        },
        Err(e) => Answer::Fail(e),
    }
}

/// The answer of `get-atoms`.
pub open spec fn atoms_read(name: Seq<char>, args: Seq<AtomV>, t: TableV) -> AnswerV {
    if args.len() != 1 {
        AnswerV::Fail(wrong_count(name, 1, args.len()))
    } else {
        match space_name(args[0]) {
            Ok(n) => AnswerV::Values(t.space(n)),
            Err(e) => AnswerV::Fail(e),
        }
    }
}

/// Read the contents of a space.
pub fn get_atoms(name: &str, args: &Vec<Atom>, table: &FnTable) -> (r: Answer)
    ensures
        r@ == atoms_read(name@, atoms(args@), table@),
{
    broadcast use group_atoms;

    match expect_n_args(args, 1, name) {
        Ok(_) => {},
        Err(e) => {
            return Answer::Fail(e);
        },
    }
    match resolve_space(&args[0]) {
        Ok(n) => Answer::Values(table.space_atoms(n.as_str())),
        Err(e) => Answer::Fail(e),
    }
}

/// What is written to a state is read from it.
pub proof fn change_then_get(t: TableV, key: Seq<char>, value: AtomV)
    ensures
        state_read(
            "get-state"@,
            seq![AtomV::Sym(key)],
            state_changed("change-state!"@, seq![AtomV::Sym(key), value], t).1,
        ) == one(value),
{
}

/// Writing one state leaves the others as they are.
pub proof fn change_keeps_others(t: TableV, key: Seq<char>, other: Seq<char>, value: AtomV)
    requires
        key != other,
    ensures
        state_read(
            "get-state"@,
            seq![AtomV::Sym(other)],
            state_changed("change-state!"@, seq![AtomV::Sym(key), value], t).1,
        ) == state_read("get-state"@, seq![AtomV::Sym(other)], t),
{
}

/// The built-in functions for state and spaces.
pub open spec fn state_rows() -> Seq<RowV> {
    seq![
        ("get-atoms"@, 1u8, Builtin::GetAtoms, false),
        ("change-state!"@, 2u8, Builtin::ChangeState, false),
        ("get-state"@, 1u8, Builtin::GetState, false),
        ("bind!"@, 2u8, Builtin::BindState, false),
    ]
}

/// The table with the built-in functions for state and spaces.
pub open spec fn with_state_builtins(t: TableV) -> TableV {
    with_rows(t, state_rows())
}

/// Register state and space builtins.
pub fn register_state_builtins(funcs: &mut FnTable)
    ensures
        final(funcs)@ == with_state_builtins(old(funcs)@),
{
    let mut v: Vec<Row> = Vec::new();
    add_row(&mut v, "get-atoms", 1, Builtin::GetAtoms, false);
    add_row(&mut v, "change-state!", 2, Builtin::ChangeState, false);
    add_row(&mut v, "get-state", 1, Builtin::GetState, false);
    add_row(&mut v, "bind!", 2, Builtin::BindState, false);
    assert(rows(v@) =~= state_rows());
    register_rows(funcs, &v);
}

} // verus!
