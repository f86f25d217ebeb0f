//! Built-in functions for representation, parsing and assertions.
use crate::atom::Atom;
use crate::atom::AtomV;
use crate::atom::affirms;
use crate::atom::atom_same;
use crate::atom::atoms;
use crate::atom::group_atoms;
use crate::atom::sexpr;
use crate::atom::symbol;
use crate::builtins::Answer;
use crate::builtins::AnswerV;
use crate::builtins::Row;
use crate::builtins::RowV;
use crate::builtins::add_row;
use crate::builtins::answer_one;
use crate::builtins::arithmetic::expect_n_args;
use crate::builtins::arithmetic::wrong_count;
use crate::builtins::one;
use crate::builtins::register_rows;
use crate::builtins::rows;
use crate::builtins::with_rows;
use crate::compile::reify::expr_to_atom;
use crate::compile::reify::to_atom;
use crate::expr::Expr;
use crate::expr::ExprV;
use crate::expr::group_exprs;
use crate::func::Builtin;
use crate::func::FnTable;
use crate::func::TableV;
use crate::parser::items_from;
use crate::parser::parse_sexpr_body;
use crate::text::chars_of;
use crate::text::joined;
use crate::text::joined3;
use vstd::prelude::*;
use vstd::string::*;

verus! {

/// The answer of `repr`.
pub open spec fn repr_answer(name: Seq<char>, args: Seq<AtomV>) -> AnswerV {
    if args.len() != 1 {
        AnswerV::Fail(wrong_count(name, 1, args.len()))
    } else {
        one(AtomV::Str(sexpr(args[0])))
    }
}

/// Show a value as text.
pub fn repr(name: &str, args: &Vec<Atom>) -> (r: Answer)
    ensures
        r@ == repr_answer(name@, atoms(args@)),
{
    broadcast use group_atoms;

    match expect_n_args(args, 1, name) {
        Ok(_) => {
            let t = args[0].to_sexpr_string();
            answer_one(Atom::str_val(t.as_str()))
        },
        Err(e) => Answer::Fail(e),
    }
}

/// The first expression of a text, as a value.
pub open spec fn first_value(text: Seq<char>) -> Result<AtomV, Seq<char>> {
    match items_from(text.push(')'), 0, Seq::empty()) {
        Ok(e) => match e.0 {
            ExprV::List(items) => if items.len() == 0 {
                Err("parse: expected non-empty input"@)
            } else {
                Ok(to_atom(items[0]))
            },
            other => Ok(to_atom(other)),
        },
        Err(t) => Err(t),
    }
}

/// Read the first expression of a text.
pub fn parse_single_expr(text: &str) -> (r: Result<Atom, String>)
    ensures
        (match r {
            Ok(a) => first_value(text@) == Ok::<AtomV, Seq<char>>(a@),
            Err(e) => first_value(text@) == Err::<AtomV, Seq<char>>(e@),
        }),
{
    broadcast use group_exprs;

    let mut v = chars_of(text);
    v.push(')');
    match parse_sexpr_body(&v, 0) {
        Ok((e, _)) => match &e {
            Expr::List(items) => {
                if items.len() == 0 {
                    Err("parse: expected non-empty input".to_owned())
                } else {
                    Ok(expr_to_atom(&items[0]))
                }
            },
            other => Ok(expr_to_atom(other)),
        },
        Err(t) => Err(t),
    }
}

/// The answer of `parse` and `sread`.
pub open spec fn parse_answer(name: Seq<char>, args: Seq<AtomV>) -> AnswerV {
    if args.len() != 1 {
        AnswerV::Fail(wrong_count(name, 1, args.len()))
    } else {
        match args[0] {
            AtomV::Sym(s) => match first_value(s) {
                Ok(a) => one(a),
                Err(e) => AnswerV::Fail(e),
            },
            AtomV::Str(s) => match first_value(s) {
                Ok(a) => one(a),
                Err(e) => AnswerV::Fail(e),
            },
            other => AnswerV::Fail(name + ": expected symbol or string, got "@ + sexpr(other)),
        }
    }
}

/// Read a value from text.
pub fn parse(name: &str, args: &Vec<Atom>) -> (r: Answer)
    ensures
        r@ == parse_answer(name@, atoms(args@)),
{
    broadcast use group_atoms;

    match expect_n_args(args, 1, name) {
        Ok(_) => {},
        Err(e) => {
            return Answer::Fail(e);
        },
    }
    let text = match &args[0] {
        Atom::Sym(s) => s.as_str(),
        Atom::Str(s) => s.as_str(),
        other => {
            let t = other.to_sexpr_string();
            return Answer::Fail(joined3(name, ": expected symbol or string, got ", t.as_str()));
        },
    };
    match parse_single_expr(text) {
        Ok(a) => answer_one(a),
        Err(e) => Answer::Fail(e),
    }
}

/// The answer of `assert`.
pub open spec fn assert_answer(name: Seq<char>, args: Seq<AtomV>) -> AnswerV {
    if args.len() != 1 {
        AnswerV::Fail(wrong_count(name, 1, args.len()))
    } else if affirms(args[0]) {
        one(symbol("true"@))
    } else {
        AnswerV::Fail("Assertion failed: "@ + sexpr(args[0]))
    }
}

/// Check that a value is true.
pub fn assert_true(name: &str, args: &Vec<Atom>) -> (r: Answer)
    ensures
        r@ == assert_answer(name@, atoms(args@)),
{
    broadcast use group_atoms;

    match expect_n_args(args, 1, name) {
        Ok(_) => {},
        Err(e) => {
            return Answer::Fail(e);
        },
    }
    if args[0].affirms() {
        answer_one(Atom::sym("true"))
    } else {
        let t = args[0].to_sexpr_string();
        Answer::Fail(joined("Assertion failed: ", t.as_str()))
    }
}

/// The answer of `test`: a line that tells both values and whether they are
/// equal, and the outcome.
pub open spec fn test_answer(name: Seq<char>, args: Seq<AtomV>) -> AnswerV {
    if args.len() != 2 {
        AnswerV::Fail(wrong_count(name, 2, args.len()))
    } else {
        let line = "is "@ + sexpr(args[0]) + ", should "@ + sexpr(args[1]);
        if args[0] == args[1] {
            AnswerV::Report(line + ". \u{2705}"@, symbol("true"@))
        } else {
            AnswerV::Report(line + ". \u{274c}"@, symbol("False"@))
        }
    }
}

/// Compare two values and report.
pub fn test_values(name: &str, args: &Vec<Atom>) -> (r: Answer)
    ensures
        r@ == test_answer(name@, atoms(args@)),
{
    broadcast use group_atoms;

    match expect_n_args(args, 2, name) {
        Ok(_) => {},
        Err(e) => {
            return Answer::Fail(e);
        },
    }
    let x = args[0].to_sexpr_string();
    let y = args[1].to_sexpr_string();
    let mut line: String = joined3("is ", x.as_str(), ", should ");
    line.append(y.as_str());
    if atom_same(&args[0], &args[1]) {
        line.append(". \u{2705}");
        Answer::Report(line, Atom::sym("true"))
    } else {
        line.append(". \u{274c}");
        Answer::Report(line, Atom::sym("False"))
    }
}

/// The built-in functions for representation, parsing and assertions.
pub open spec fn io_rows() -> Seq<RowV> {
    seq![
        ("repr"@, 1u8, Builtin::Repr, true),
        ("parse"@, 1u8, Builtin::Parse, true),
        ("assert"@, 1u8, Builtin::Assert, false),
        ("test"@, 2u8, Builtin::Test, true),
        ("sread"@, 1u8, Builtin::Parse, true),
    ]
}

/// The table with the built-in functions for representation, parsing and
/// assertions.
pub open spec fn with_io_builtins(t: TableV) -> TableV {
    with_rows(t, io_rows())
}

/// Register representation, parsing, assertion, and I/O builtins.
pub fn register_io_builtins(funcs: &mut FnTable)
    ensures
        final(funcs)@ == with_io_builtins(old(funcs)@),
{
    let mut v: Vec<Row> = Vec::new();
    add_row(&mut v, "repr", 1, Builtin::Repr, true);
    add_row(&mut v, "parse", 1, Builtin::Parse, true);
    add_row(&mut v, "assert", 1, Builtin::Assert, false);
    add_row(&mut v, "test", 2, Builtin::Test, true);
    add_row(&mut v, "sread", 1, Builtin::Parse, true);
    assert(rows(v@) =~= io_rows());
    register_rows(funcs, &v);
}

} // verus!
