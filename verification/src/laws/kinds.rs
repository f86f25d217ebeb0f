//! What the functions that tell kinds and types answer.
use crate::atom::AtomV;
use crate::atom::symbol;
use crate::builtins::AnswerV;
use crate::builtins::collections::named_answer;
use crate::builtins::types::declared_type;
use crate::builtins::types::declares;
use crate::builtins::types::with_type_builtins;
use crate::expr::Expr;
use crate::func::TableV;
use crate::laws::naming::type_names_are_bound;
use crate::laws::numbers::truth_atom;
use crate::laws::numbers::truth_values_are_symbols;
use vstd::prelude::*;
use vstd::string::*;

verus! {

/// Whether a name starts with a character.
pub open spec fn starts_with(s: Seq<char>, c: char) -> bool {
    s.len() > 0 && s[0] == c
}

/// Called by name, `get-metatype` tells what an atom is: a symbol whose name
/// starts with `&` is a space and one whose name starts with `$` a variable, and
/// any other symbol, a string, a number, a list and a value of the host are what
/// they are called.
pub proof fn metatypes_tell_what_atoms_are(t: TableV, a: AtomV)
    ensures
        ({
            let r = named_answer(with_type_builtins(t), "get-metatype"@, seq![a]);
            &&& a matches AtomV::Sym(s) ==> {
                &&& starts_with(s, '&') ==> r == AnswerV::Values(seq![AtomV::Sym("Space"@)])
                &&& starts_with(s, '$') ==> r == AnswerV::Values(seq![AtomV::Sym("Variable"@)])
                &&& !starts_with(s, '&') && !starts_with(s, '$') ==> r == AnswerV::Values(
                    seq![AtomV::Sym("Symbol"@)],
                )
            }
            &&& a is Str ==> r == AnswerV::Values(seq![AtomV::Sym("String"@)])
            &&& a is Num ==> r == AnswerV::Values(seq![AtomV::Sym("Number"@)])
            &&& a is Expr ==> r == AnswerV::Values(seq![AtomV::Sym("Expression"@)])
            &&& a is Closure || a is Gnd ==> r == AnswerV::Values(seq![AtomV::Sym("Grounded"@)])
        }),
{
    type_names_are_bound(t);
    lemma_kind_names();
}

/// The names of the kinds are no truth values.
proof fn lemma_kind_names()
    ensures
        symbol("Space"@) == AtomV::Sym("Space"@),
        symbol("Variable"@) == AtomV::Sym("Variable"@),
        symbol("Symbol"@) == AtomV::Sym("Symbol"@),
        symbol("String"@) == AtomV::Sym("String"@),
        symbol("Number"@) == AtomV::Sym("Number"@),
        symbol("Expression"@) == AtomV::Sym("Expression"@),
        symbol("Grounded"@) == AtomV::Sym("Grounded"@),
        symbol("Bool"@) == AtomV::Sym("Bool"@),
        symbol(":"@) == AtomV::Sym(":"@),
        symbol("->"@) == AtomV::Sym("->"@),
        symbol("get-type"@) == AtomV::Sym("get-type"@),
        "Space"@ != "Variable"@ && "Space"@ != "Symbol"@ && "Space"@ != "String"@ && "Space"@
            != "Number"@ && "Space"@ != "Expression"@ && "Space"@ != "Grounded"@,
        "Variable"@ != "Symbol"@ && "Variable"@ != "String"@ && "Variable"@ != "Number"@
            && "Variable"@ != "Expression"@ && "Variable"@ != "Grounded"@,
        "Symbol"@ != "String"@ && "Symbol"@ != "Number"@ && "Symbol"@ != "Expression"@ && "Symbol"@
            != "Grounded"@,
        "String"@ != "Number"@ && "String"@ != "Expression"@ && "String"@ != "Grounded"@,
        "Number"@ != "Expression"@ && "Number"@ != "Grounded"@,
        "Expression"@ != "Grounded"@,
{
    reveal_strlit("True");
    reveal_strlit("False");
    reveal_strlit("Space");
    reveal_strlit("Variable");
    reveal_strlit("Symbol");
    reveal_strlit("String");
    reveal_strlit("Number");
    reveal_strlit("Expression");
    reveal_strlit("Grounded");
    reveal_strlit("Bool");
    reveal_strlit(":");
    reveal_strlit("->");
    reveal_strlit("get-type");
    assert("True"@.len() == 4 && "False"@.len() == 5);
    assert("Space"@.len() == 5 && "Space"@[0] == 'S' && "False"@[0] == 'F');
    assert("Variable"@.len() == 8 && "Grounded"@.len() == 8 && "Variable"@[0] == 'V');
    assert("Grounded"@[0] == 'G');
    assert("Symbol"@.len() == 6 && "String"@.len() == 6 && "Number"@.len() == 6);
    assert("Symbol"@[1] == 'y' && "String"@[1] == 't' && "Number"@[1] == 'u');
    assert("Expression"@.len() == 10);
    assert("Bool"@.len() == 4 && "Bool"@[0] == 'B' && "True"@[0] == 'T');
    assert(":"@.len() == 1 && "->"@.len() == 2 && "get-type"@.len() == 8);
}

/// The kinds of atoms, by number: space, variable, symbol, string, number, list,
/// value of the host.
pub open spec fn kind_of(a: AtomV) -> nat {
    match a {
        AtomV::Sym(s) => if starts_with(s, '&') {
            0
        } else if starts_with(s, '$') {
            1
        } else {
            2
        },
        AtomV::Str(_) => 3,
        AtomV::Num(_) => 4,
        AtomV::Expr(_) => 5,
        _ => 6,
    }
}

/// `get-metatype` answers the same for two atoms exactly where they are of one
/// kind.
pub proof fn metatypes_tell_kinds_apart(t: TableV, a: AtomV, b: AtomV)
    ensures
        (named_answer(with_type_builtins(t), "get-metatype"@, seq![a]) == named_answer(
            with_type_builtins(t),
            "get-metatype"@,
            seq![b],
        )) == (kind_of(a) == kind_of(b)),
{
    metatypes_tell_what_atoms_are(t, a);
    metatypes_tell_what_atoms_are(t, b);
    lemma_kind_names();
    let u = with_type_builtins(t);
    let x = named_answer(u, "get-metatype"@, seq![a])->Values_0;
    let y = named_answer(u, "get-metatype"@, seq![b])->Values_0;
    assert(x.len() == 1 && y.len() == 1);
    assert(x == y ==> x[0] == y[0]);
}

/// Called by name, `is-var`, `is-expr` and `is-space` tell whether an atom is a
/// variable, a list or a space.
pub proof fn kinds_are_tested(t: TableV, a: AtomV)
    ensures
        ({
            let u = with_type_builtins(t);
            &&& named_answer(u, "is-var"@, seq![a]) == AnswerV::Values(
                seq![truth_atom(a is Sym && starts_with(a->Sym_0, '$'))],
            )
            &&& named_answer(u, "is-expr"@, seq![a]) == AnswerV::Values(
                seq![truth_atom(a is Expr)],
            )
            &&& named_answer(u, "is-space"@, seq![a]) == AnswerV::Values(
                seq![truth_atom(a is Sym && starts_with(a->Sym_0, '&'))],
            )
        }),
{
    type_names_are_bound(t);
    truth_values_are_symbols(true);
    truth_values_are_symbols(false);
}

/// Whether an atom is the declaration that a subject has a type.
pub open spec fn is_declared(a: AtomV, subject: AtomV, ty: AtomV) -> bool {
    a == AtomV::Expr(seq![AtomV::Sym(":"@), subject, ty])
}

/// Whether the first declaration of a subject among atoms is the one at a
/// position.
pub open spec fn is_first_declared(s: Seq<AtomV>, k: int, subject: AtomV, ty: AtomV) -> bool {
    &&& 0 <= k < s.len()
    &&& is_declared(s[k], subject, ty)
    &&& forall|i: int, u: AtomV| 0 <= i < k ==> !#[trigger] is_declared(s[i], subject, u)
}

/// Whether no atom declares a type of a subject.
pub open spec fn is_undeclared(s: Seq<AtomV>, subject: AtomV) -> bool {
    forall|i: int, u: AtomV| 0 <= i < s.len() ==> !#[trigger] is_declared(s[i], subject, u)
}

/// A declaration is one of some type.
proof fn lemma_declares(a: AtomV, subject: AtomV)
    ensures
        declares(a, subject) ==> is_declared(a, subject, a->Expr_0[2]),
        forall|ty: AtomV| #[trigger] is_declared(a, subject, ty) ==> declares(a, subject)
            && a->Expr_0[2] == ty,
{
    lemma_kind_names();
    if declares(a, subject) {
        let ty = a->Expr_0[2];
        assert(a->Expr_0 =~= seq![AtomV::Sym(":"@), subject, ty]);
    }
}

/// The declared type is that of the first declaration.
proof fn lemma_first_declared(s: Seq<AtomV>, subject: AtomV)
    ensures
        is_undeclared(s, subject) ==> declared_type(s, subject) is None,
        forall|k: int, ty: AtomV| #[trigger]
            is_first_declared(s, k, subject, ty) ==> declared_type(s, subject) == Some(ty),
    decreases s.len(),
{
    if s.len() > 0 {
        let f = s.drop_last();
        lemma_first_declared(f, subject);
        lemma_declares(s.last(), subject);
        assert(s.last() == s[s.len() - 1]);
        if is_undeclared(s, subject) {
            assert forall|i: int, u: AtomV| 0 <= i < f.len() implies !#[trigger] is_declared(
                f[i],
                subject,
                u,
            ) by {
                assert(f[i] == s[i]);
            }
        }
        assert forall|k: int, ty: AtomV| #[trigger]
            is_first_declared(s, k, subject, ty) implies declared_type(s, subject) == Some(ty) by {
            if k < f.len() {
                assert(f[k] == s[k]);
                assert(is_first_declared(f, k, subject, ty)) by {
                    assert forall|i: int, u: AtomV| 0 <= i < k implies !#[trigger] is_declared(
                        f[i],
                        subject,
                        u,
                    ) by {
                        assert(f[i] == s[i]);
                    }
                }
            } else {
                assert(is_undeclared(f, subject)) by {
                    assert forall|i: int, u: AtomV| 0 <= i < f.len() implies !#[trigger] is_declared(
                        f[i],
                        subject,
                        u,
                    ) by {
                        assert(f[i] == s[i]);
                    }
                }
            }
        }
    }
}

/// Called by name, `get-type` answers with `Number` for numbers and `Bool` for
/// truth values; any other atom has the type of its first declaration in the
/// program's space, and a symbol, a string or a value of the host without a
/// declaration is answered with the question.
pub proof fn types_are_those_declared(t: TableV, a: AtomV, k: int, ty: AtomV)
    ensures
        ({
            let u = with_type_builtins(t);
            let s = u.space("&self"@);
            let r = named_answer(u, "get-type"@, seq![a]);
            let truth = a == AtomV::Sym("true"@) || a == AtomV::Sym("false"@);
            &&& a is Num ==> r == AnswerV::Values(seq![AtomV::Sym("Number"@)])
            &&& truth ==> r == AnswerV::Values(seq![AtomV::Sym("Bool"@)])
            &&& !(a is Num) && !truth && is_first_declared(s, k, a, ty) ==> r
                == AnswerV::Values(seq![ty])
            &&& !(a is Num) && !truth && !(a is Expr) && is_undeclared(s, a) ==> r
                == AnswerV::Values(seq![AtomV::Expr(seq![AtomV::Sym("get-type"@), a])])
        }),
{
    type_names_are_bound(t);
    lemma_kind_names();
    lemma_first_declared(with_type_builtins(t).space("&self"@), a);
}

} // verus!
