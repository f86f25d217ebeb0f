//! Built-in functions for structural and declaration-backed type inspection.
use crate::atom::Atom;
use crate::atom::AtomV;
use crate::atom::atom_same;
use crate::atom::atoms;
use crate::atom::copy_atoms;
use crate::atom::group_atoms;
use crate::atom::symbol;
use crate::builtins::Answer;
use crate::builtins::AnswerV;
use crate::builtins::Row;
use crate::builtins::RowV;
use crate::builtins::add_row;
use crate::builtins::answer_one;
use crate::builtins::arithmetic::expect_n_args;
use crate::builtins::arithmetic::wrong_count;
use crate::builtins::boolean::bool_atom;
use crate::builtins::boolean::truth;
use crate::builtins::one;
use crate::builtins::register_rows;
use crate::builtins::rows;
use crate::builtins::with_rows;
use crate::func::Builtin;
use crate::func::FnTable;
use crate::func::TableV;
use crate::func::atoms_same;
use crate::text::is_var;
use crate::text::is_var_name;
use crate::text::same;
use vstd::prelude::*;
use vstd::string::*;

verus! {

/// Whether a name starts with `&`.
pub open spec fn is_space_symbol(s: Seq<char>) -> bool {
    s.len() > 0 && s[0] == '&'
}

/// Whether a name starts with `&`.
fn names_space(s: &str) -> (r: bool)
    ensures
        r == is_space_symbol(s@),
{
    !s.is_empty() && s.get_char(0) == '&'
}

/// The answer of a test of one value.
pub open spec fn test_of_one(name: Seq<char>, args: Seq<AtomV>, b: bool) -> AnswerV {
    if args.len() != 1 {
        AnswerV::Fail(wrong_count(name, 1, args.len()))
    } else {
        one(truth(b))
    }
}

/// The answer of `is-var`.
pub open spec fn is_var_answer(name: Seq<char>, args: Seq<AtomV>) -> AnswerV {
    test_of_one(name, args, args[0] is Sym && is_var_name(args[0]->Sym_0))
}

/// The answer of `is-expr`.
pub open spec fn is_expr_answer(name: Seq<char>, args: Seq<AtomV>) -> AnswerV {
    test_of_one(name, args, args[0] is Expr)
}

/// The answer of `is-space`.
pub open spec fn is_space_answer(name: Seq<char>, args: Seq<AtomV>) -> AnswerV {
    test_of_one(name, args, args[0] is Sym && is_space_symbol(args[0]->Sym_0))
}

/// Test whether a value is a variable.
pub fn is_var_value(name: &str, args: &Vec<Atom>) -> (r: Answer)
    ensures
        r@ == is_var_answer(name@, atoms(args@)),
{
    broadcast use group_atoms;

    match expect_n_args(args, 1, name) {
        Ok(_) => {
            let b: bool = match &args[0] {
                Atom::Sym(s) => is_var(s.as_str()),
                _ => false,
            };
            answer_one(bool_atom(b))
        },
        Err(e) => Answer::Fail(e),
    }
}

/// Test whether a value is an expression.
pub fn is_expr_value(name: &str, args: &Vec<Atom>) -> (r: Answer)
    ensures
        r@ == is_expr_answer(name@, atoms(args@)),
{
    broadcast use group_atoms;

    match expect_n_args(args, 1, name) {
        Ok(_) => {
            let b: bool = match &args[0] {
                Atom::Expr(_) => true,
                _ => false,
            };
            answer_one(bool_atom(b))
        },
        Err(e) => Answer::Fail(e),
    }
}

/// Test whether a value names a space.
pub fn is_space_value(name: &str, args: &Vec<Atom>) -> (r: Answer)
    ensures
        r@ == is_space_answer(name@, atoms(args@)),
{
    broadcast use group_atoms;

    match expect_n_args(args, 1, name) {
        Ok(_) => {
            let b: bool = match &args[0] {
                Atom::Sym(s) => names_space(s.as_str()),
                _ => false,
            };
            answer_one(bool_atom(b))
        },
        Err(e) => Answer::Fail(e),
    }
}

/// The name of the kind of a value.
pub open spec fn metatype(a: AtomV) -> Seq<char> {
    match a {
        AtomV::Sym(s) => if is_space_symbol(s) {
            "Space"@
        } else if is_var_name(s) {
            "Variable"@
        } else {
            "Symbol"@
        },
        AtomV::Str(_) => "String"@,
        AtomV::Num(_) => "Number"@,
        AtomV::Expr(_) => "Expression"@,
        _ => "Grounded"@,
    }
}

/// The answer of `get-metatype`.
pub open spec fn metatype_answer(name: Seq<char>, args: Seq<AtomV>) -> AnswerV {
    if args.len() != 1 {
        AnswerV::Fail(wrong_count(name, 1, args.len()))
    } else {
        one(symbol(metatype(args[0])))
    }
}

/// Tell the kind of a value.
pub fn get_metatype(name: &str, args: &Vec<Atom>) -> (r: Answer)
    ensures
        r@ == metatype_answer(name@, atoms(args@)),
{
    broadcast use group_atoms;

    match expect_n_args(args, 1, name) {
        Ok(_) => {
            let kind = match &args[0] {
                Atom::Sym(s) => if names_space(s.as_str()) {
                    "Space"
                } else if is_var(s.as_str()) {
                    "Variable"
                } else {
                    "Symbol"
                },
                Atom::Str(_) => "String",
                Atom::Num(_) => "Number",
                Atom::Expr(_) => "Expression",
                Atom::Closure(_) => "Grounded",
                Atom::Gnd(_) => "Grounded",
            };
            answer_one(Atom::sym(kind))
        },
        Err(e) => Answer::Fail(e),
    }
}

/// Whether an atom is a declaration `(: subject type)`.
pub open spec fn declares(a: AtomV, subject: AtomV) -> bool {
    &&& a is Expr
    &&& a->Expr_0.len() == 3
    &&& a->Expr_0[0] == symbol(":"@)
    &&& a->Expr_0[1] == subject
}

/// The type in the first declaration of a subject.
pub open spec fn declared_type(s: Seq<AtomV>, subject: AtomV) -> Option<AtomV>
    decreases s.len(),
{
    if s.len() == 0 {
        None
    } else {
        match declared_type(s.drop_last(), subject) {
            Some(t) => Some(t),
            None => if declares(s.last(), subject) {
                Some(s.last()->Expr_0[2])
            } else {
                None
            },
        }
    }
}

/// Whether a type is that of a function of a number of arguments.
pub open spec fn is_function_type(t: AtomV, arity: nat) -> bool {
    &&& t is Expr
    &&& t->Expr_0.len() == arity + 2
    &&& t->Expr_0[0] == symbol("->"@)
}

/// The argument and result types in the declarations of a function.
pub open spec fn signatures(s: Seq<AtomV>, head: AtomV, arity: nat) -> Seq<Seq<AtomV>>
    decreases s.len(),
{
    if s.len() == 0 {
        Seq::empty()
    } else {
        let before = signatures(s.drop_last(), head, arity);
        if declares(s.last(), head) && is_function_type(s.last()->Expr_0[2], arity) {
            before.push(s.last()->Expr_0[2]->Expr_0.skip(1))
        } else {
            before
        }
    }
}

/// The result type of the first signature with given argument types.
pub open spec fn applied_type(sigs: Seq<Seq<AtomV>>, given: Seq<AtomV>) -> Option<AtomV>
    decreases sigs.len(),
{
    if sigs.len() == 0 {
        None
    } else {
        match applied_type(sigs.drop_last(), given) {
            Some(t) => Some(t),
            None => if sigs.last().len() == given.len() + 1 && sigs.last().drop_last() == given {
                Some(sigs.last().last())
            } else {
                None
            },
        }
    }
}

/// The expression that stands for an unknown type.
pub open spec fn unknown_type(a: AtomV) -> AtomV {
    AtomV::Expr(seq![symbol("get-type"@), a])
}

/// The type of a value, given the declarations in a space.
pub open spec fn inferred(a: AtomV, s: Seq<AtomV>) -> AtomV
    decreases a,
{
    match a {
        AtomV::Num(_) => symbol("Number"@),
        AtomV::Sym(n) => if n == "true"@ || n == "false"@ {
            symbol("Bool"@)
        } else {
            match declared_type(s, a) {
                Some(t) => t,
                None => unknown_type(a),
            }
        },
        AtomV::Expr(items) => match declared_type(s, a) {
            Some(t) => t,
            None => if items.len() == 0 {
                unknown_type(a)
            } else {
                match applied_type(
                    signatures(s, items[0], (items.len() - 1) as nat),
                    inferred_all(items, s).skip(1),
                ) {
                    Some(t) => t,
                    None => unknown_type(a),
                }
            },
        },
        _ => match declared_type(s, a) {
            Some(t) => t,
            None => unknown_type(a),
        },
    }
}

/// The types of values.
pub open spec fn inferred_all(items: Seq<AtomV>, s: Seq<AtomV>) -> Seq<AtomV>
    decreases items,
{
    Seq::new(
        items.len(),
        |i: int|
            if 0 <= i < items.len() {
                inferred(items[i], s)
            } else {
                arbitrary()
            },
    )
}

/// Whether an atom is a declaration of a subject.
fn is_declaration(a: &Atom, subject: &Atom) -> (r: bool)
    ensures
        r == declares(a@, subject@),
{
    broadcast use group_atoms;

    let colon = Atom::sym(":");
    match a {
        Atom::Expr(items) => {
            assert(atoms(items@).len() == items@.len());
            items.len() == 3 && atom_same(&items[0], &colon) && atom_same(&items[1], subject)
        },
        _ => false,
    }
}

/// A declaration once found stays the first.
proof fn lemma_declared_stays(s: Seq<AtomV>, subject: AtomV, n: int)
    requires
        0 <= n <= s.len(),
        declared_type(s.take(n), subject) is Some,
    ensures
        declared_type(s, subject) == declared_type(s.take(n), subject),
    decreases s.len() - n,
{
    if n == s.len() {
        assert(s.take(n) =~= s);
    } else {
        assert(s.take(n + 1).drop_last() =~= s.take(n));
        lemma_declared_stays(s, subject, n + 1);
    }
}

/// Find the type in the first declaration of a subject.
fn direct_type_decl(subject: &Atom, list: &Vec<Atom>) -> (r: Option<Atom>)
    ensures
        (match r {
            Some(t) => declared_type(atoms(list@), subject@) == Some(t@),
            None => declared_type(atoms(list@), subject@) is None,
        }),
{
    broadcast use group_atoms;

    let ghost s = atoms(list@);
    let mut i: usize = 0;
    while i < list.len()
        invariant
            i <= list@.len(),
            s == atoms(list@),
            declared_type(s.take(i as int), subject@) is None,
        decreases list@.len() - i,
    {
        assert(s.take(i + 1).drop_last() =~= s.take(i as int));
        if is_declaration(&list[i], subject) {
            match &list[i] {
                Atom::Expr(items) => {
                    proof {
                        lemma_declared_stays(s, subject@, i + 1);
                    }
                    return Some(items[2].clone());
                },
                _ => {},
            }
        }
        i += 1;
    }
    assert(s.take(list@.len() as int) =~= s);
    None
}

/// The values of lists of atoms.
pub open spec fn atom_lists(s: Seq<Vec<Atom>>) -> Seq<Seq<AtomV>> {
    Seq::new(s.len(), |i: int| atoms(s[i]@))
}

/// Collect the argument and result types in the declarations of a function.
fn function_type_decl(head: &Atom, arity: usize, list: &Vec<Atom>) -> (r: Vec<Vec<Atom>>)
    requires
        arity < usize::MAX,
    ensures
        atom_lists(r@) == signatures(atoms(list@), head@, arity as nat),
{
    broadcast use group_atoms;

    let ghost s = atoms(list@);
    let arrow = Atom::sym("->");
    let mut out: Vec<Vec<Atom>> = Vec::new();
    let mut i: usize = 0;
    assert(atom_lists(out@) =~= signatures(s.take(0), head@, arity as nat));
    while i < list.len()
        invariant
            i <= list@.len(),
            arity < usize::MAX,
            s == atoms(list@),
            arrow@ == symbol("->"@),
            atom_lists(out@) == signatures(s.take(i as int), head@, arity as nat),
        decreases list@.len() - i,
    {
        assert(s.take(i + 1).drop_last() =~= s.take(i as int));
        assert(s.take(i + 1).last() == list@[i as int]@);
        if is_declaration(&list[i], head) {
            match &list[i] {
                Atom::Expr(items) => {
                    assert(s[i as int]->Expr_0[2] == items@[2]@);
                    match &items[2] {
                        Atom::Expr(sig) => {
                            assert(items@[2]@->Expr_0 == atoms(sig@));
                            assert(atoms(sig@).len() == sig@.len());
                            if sig.len() >= 2 && sig.len() - 2 == arity && atom_same(
                                &sig[0],
                                &arrow,
                            ) {
                                let ghost before = atom_lists(out@);
                                let rest = copy_atoms(sig, 1);
                                assert(atoms(sig@.skip(1)) =~= atoms(sig@).skip(1));
                                out.push(rest);
                                assert(atom_lists(out@) =~= before.push(atoms(rest@)));
                                assert(is_function_type(s[i as int]->Expr_0[2], arity as nat));
                                assert(atoms(rest@) == s[i as int]->Expr_0[2]->Expr_0.skip(1));
                            }
                        },
                        _ => {},
                    }
                },
                _ => {},
            }
        }
        i += 1;
    }
    assert(s.take(list@.len() as int) =~= s);
    out
}

/// A signature once found stays the first.
proof fn lemma_applied_stays(sigs: Seq<Seq<AtomV>>, given: Seq<AtomV>, n: int)
    requires
        0 <= n <= sigs.len(),
        applied_type(sigs.take(n), given) is Some,
    ensures
        applied_type(sigs, given) == applied_type(sigs.take(n), given),
    decreases sigs.len() - n,
{
    if n == sigs.len() {
        assert(sigs.take(n) =~= sigs);
    } else {
        assert(sigs.take(n + 1).drop_last() =~= sigs.take(n));
        lemma_applied_stays(sigs, given, n + 1);
    }
}

/// Find the result type of the first signature with given argument types.
fn apply_types(sigs: &Vec<Vec<Atom>>, given: &Vec<Atom>) -> (r: Option<Atom>)
    ensures
        (match r {
            Some(t) => applied_type(atom_lists(sigs@), atoms(given@)) == Some(t@),
            None => applied_type(atom_lists(sigs@), atoms(given@)) is None,
        }),
{
    broadcast use group_atoms;

    let ghost s = atom_lists(sigs@);
    let mut i: usize = 0;
    while i < sigs.len()
        invariant
            i <= sigs@.len(),
            s == atom_lists(sigs@),
            applied_type(s.take(i as int), atoms(given@)) is None,
        decreases sigs@.len() - i,
    {
        assert(s.take(i + 1).drop_last() =~= s.take(i as int));
        let sig = &sigs[i];
        assert(s[i as int] == atoms(sig@));
        let n: usize = sig.len();
        if n > 0 && n - 1 == given.len() {
            let mut args: Vec<Atom> = copy_atoms(sig, 0);
            assert(sig@.skip(0) =~= sig@);
            let ghost all = atoms(args@);
            let last = args.pop();
            assert(atoms(args@) =~= all.drop_last());
            if atoms_same(&args, given) {
                proof {
                    lemma_applied_stays(s, atoms(given@), i + 1);
                }
                return Some(sig[n - 1].clone());
            }
        }
        i += 1;
    }
    assert(s.take(sigs@.len() as int) =~= s);
    None
}

/// An expression for an unknown type.
fn make_unknown(a: &Atom) -> (r: Atom)
    ensures
        r@ == unknown_type(a@),
{
    let mut v: Vec<Atom> = Vec::new();
    v.push(Atom::sym("get-type"));
    v.push(a.clone());
    assert(atoms(v@) =~= seq![symbol("get-type"@), a@]);
    Atom::expr(v)
}

/// Infer the type of a value from the declarations in a space.
pub fn infer_type(atom: &Atom, list: &Vec<Atom>) -> (r: Atom)
    ensures
        r@ == inferred(atom@, atoms(list@)),
    decreases atom,
{
    broadcast use group_atoms;

    match atom {
        Atom::Num(_) => {
            return Atom::sym("Number");
        },
        Atom::Sym(s) => {
            if same(s.as_str(), "true") || same(s.as_str(), "false") {
                return Atom::sym("Bool");
            }
        },
        _ => {},
    }
    match direct_type_decl(atom, list) {
        Some(t) => {
            return t;
        },
        None => {},
    }
    match atom {
        Atom::Expr(items) => {
            assert(atoms(items@).len() == items@.len());
            if items.len() == 0 {
                return make_unknown(atom);
            }
            let sigs = function_type_decl(&items[0], items.len() - 1, list);
            let mut given: Vec<Atom> = Vec::new();
            let ghost want = inferred_all(atoms(items@), atoms(list@)).skip(1);
            let mut i: usize = 1;
            assert(atoms(given@) =~= want.take(0));
            while i < items.len()
                invariant
                    1 <= i <= items@.len(),
                    *atom == Atom::Expr(*items),
                    want == inferred_all(atoms(items@), atoms(list@)).skip(1),
                    atoms(given@) == want.take(i - 1),
                decreases items@.len() - i,
            {
                assert(decreases_to!(atom => atom->Expr_0@[i as int]));
                let t = infer_type(&items[i], list);
                given.push(t);
                assert(want.take(i as int) =~= want.take(i - 1).push(want[i - 1]));
                assert(want[i - 1] == t@);
                i += 1;
            }
            assert(want.take(items@.len() - 1) =~= want);
            match apply_types(&sigs, &given) {
                Some(t) => t,
                None => make_unknown(atom),
            }
        },
        _ => make_unknown(atom),
    }
}

/// The answer of `get-type`.
pub open spec fn type_read(name: Seq<char>, args: Seq<AtomV>, t: TableV) -> AnswerV {
    if args.len() != 1 {
        AnswerV::Fail(wrong_count(name, 1, args.len()))
    } else {
        one(inferred(args[0], t.space("&self"@)))
    }
}

/// Tell the type of a value.
pub fn get_type(name: &str, args: &Vec<Atom>, table: &FnTable) -> (r: Answer)
    ensures
        r@ == type_read(name@, atoms(args@), table@),
{
    broadcast use group_atoms;

    match expect_n_args(args, 1, name) {
        Ok(_) => {
            let list = table.space_atoms("&self");
            answer_one(infer_type(&args[0], &list))
        },
        Err(e) => Answer::Fail(e),
    }
}

/// The built-in functions for type inspection.
pub open spec fn type_rows() -> Seq<RowV> {
    seq![
        ("is-var"@, 1u8, Builtin::IsVar, true),
        ("is-expr"@, 1u8, Builtin::IsExpr, true),
        ("is-space"@, 1u8, Builtin::IsSpace, true),
        ("get-type"@, 1u8, Builtin::GetType, false),
        ("get-metatype"@, 1u8, Builtin::GetMetatype, true),
    ]
}

/// The table with the built-in functions for type inspection.
pub open spec fn with_type_builtins(t: TableV) -> TableV {
    with_rows(t, type_rows())
}

/// Register type-inspection builtins.
pub fn register_type_builtins(funcs: &mut FnTable)
    ensures
        final(funcs)@ == with_type_builtins(old(funcs)@),
{
    let mut v: Vec<Row> = Vec::new();
    add_row(&mut v, "is-var", 1, Builtin::IsVar, true);
    add_row(&mut v, "is-expr", 1, Builtin::IsExpr, true);
    add_row(&mut v, "is-space", 1, Builtin::IsSpace, true);
    add_row(&mut v, "get-type", 1, Builtin::GetType, false);
    add_row(&mut v, "get-metatype", 1, Builtin::GetMetatype, true);
    assert(rows(v@) =~= type_rows());
    register_rows(funcs, &v);
}

} // verus!
