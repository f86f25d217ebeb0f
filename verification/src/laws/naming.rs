//! The names under which the built-in functions are found.
use crate::builtins::arithmetic::arithmetic_rows;
use crate::builtins::arithmetic::with_arithmetic_builtins;
use crate::builtins::boolean::boolean_rows;
use crate::builtins::boolean::marked_operators;
use crate::builtins::boolean::truth_table;
use crate::builtins::boolean::with_boolean_builtins;
use crate::builtins::boolean::with_truths;
use crate::builtins::collections::collection_rows;
use crate::builtins::collections::lemma_row_found;
use crate::builtins::collections::with_collection_builtins;
use crate::builtins::io::io_rows;
use crate::builtins::io::with_io_builtins;
use crate::builtins::state::state_rows;
use crate::builtins::state::with_state_builtins;
use crate::builtins::types::type_rows;
use crate::builtins::types::with_type_builtins;
use crate::func::Builtin;
use crate::func::FloatFn;
use crate::func::TableV;
use vstd::prelude::*;
use vstd::string::*;

verus! {

/// `+` is bound to its function.
proof fn lemma_arithmetic_0(t: TableV)
    ensures
        with_arithmetic_builtins(t).natives.contains_pair(("+"@, 2u8), Builtin::Add),
{
    reveal_strlit("+");
    reveal_strlit("-");
    reveal_strlit("*");
    reveal_strlit("/");
    reveal_strlit("%");
    reveal_strlit("<");
    reveal_strlit(">");
    reveal_strlit("<=");
    reveal_strlit(">=");
    reveal_strlit("pow-math");
    reveal_strlit("log-math");
    reveal_strlit("min");
    reveal_strlit("max");
    reveal_strlit("random-int");
    reveal_strlit("random-float");
    assert("+"@.len() == 1);
    assert("-"@.len() == 1);
    assert("*"@.len() == 1);
    assert("/"@.len() == 1);
    assert("%"@.len() == 1);
    assert("<"@.len() == 1);
    assert(">"@.len() == 1);
    assert("<="@.len() == 2);
    assert(">="@.len() == 2);
    assert("pow-math"@.len() == 8);
    assert("log-math"@.len() == 8);
    assert("min"@.len() == 3);
    assert("max"@.len() == 3);
    assert("random-int"@.len() == 10);
    assert("random-float"@.len() == 12);
    assert("+"@[0] != "-"@[0]);
    assert("+"@[0] != "*"@[0]);
    assert("+"@[0] != "/"@[0]);
    assert("+"@[0] != "%"@[0]);
    assert("+"@[0] != "<"@[0]);
    assert("+"@[0] != ">"@[0]);
    let rows = arithmetic_rows();
    assert(rows[0] == ("+"@, 2u8, Builtin::Add, rows[0].3));
    lemma_row_found(t, rows, 0);
}

/// `-` is bound to its function.
proof fn lemma_arithmetic_1(t: TableV)
    ensures
        with_arithmetic_builtins(t).natives.contains_pair(("-"@, 2u8), Builtin::Sub),
{
    reveal_strlit("-");
    reveal_strlit("*");
    reveal_strlit("/");
    reveal_strlit("%");
    reveal_strlit("<");
    reveal_strlit(">");
    reveal_strlit("<=");
    reveal_strlit(">=");
    reveal_strlit("pow-math");
    reveal_strlit("log-math");
    reveal_strlit("min");
    reveal_strlit("max");
    reveal_strlit("random-int");
    reveal_strlit("random-float");
    assert("-"@.len() == 1);
    assert("*"@.len() == 1);
    assert("/"@.len() == 1);
    assert("%"@.len() == 1);
    assert("<"@.len() == 1);
    assert(">"@.len() == 1);
    assert("<="@.len() == 2);
    assert(">="@.len() == 2);
    assert("pow-math"@.len() == 8);
    assert("log-math"@.len() == 8);
    assert("min"@.len() == 3);
    assert("max"@.len() == 3);
    assert("random-int"@.len() == 10);
    assert("random-float"@.len() == 12);
    assert("-"@[0] != "*"@[0]);
    assert("-"@[0] != "/"@[0]);
    assert("-"@[0] != "%"@[0]);
    assert("-"@[0] != "<"@[0]);
    assert("-"@[0] != ">"@[0]);
    let rows = arithmetic_rows();
    assert(rows[1] == ("-"@, 2u8, Builtin::Sub, rows[1].3));
    lemma_row_found(t, rows, 1);
}

/// `*` is bound to its function.
proof fn lemma_arithmetic_2(t: TableV)
    ensures
        with_arithmetic_builtins(t).natives.contains_pair(("*"@, 2u8), Builtin::Mul),
{
    reveal_strlit("*");
    reveal_strlit("/");
    reveal_strlit("%");
    reveal_strlit("<");
    reveal_strlit(">");
    reveal_strlit("<=");
    reveal_strlit(">=");
    reveal_strlit("pow-math");
    reveal_strlit("log-math");
    reveal_strlit("min");
    reveal_strlit("max");
    reveal_strlit("random-int");
    reveal_strlit("random-float");
    assert("*"@.len() == 1);
    assert("/"@.len() == 1);
    assert("%"@.len() == 1);
    assert("<"@.len() == 1);
    assert(">"@.len() == 1);
    assert("<="@.len() == 2);
    assert(">="@.len() == 2);
    assert("pow-math"@.len() == 8);
    assert("log-math"@.len() == 8);
    assert("min"@.len() == 3);
    assert("max"@.len() == 3);
    assert("random-int"@.len() == 10);
    assert("random-float"@.len() == 12);
    assert("*"@[0] != "/"@[0]);
    assert("*"@[0] != "%"@[0]);
    assert("*"@[0] != "<"@[0]);
    assert("*"@[0] != ">"@[0]);
    let rows = arithmetic_rows();
    assert(rows[2] == ("*"@, 2u8, Builtin::Mul, rows[2].3));
    lemma_row_found(t, rows, 2);
}

/// `/` is bound to its function.
proof fn lemma_arithmetic_3(t: TableV)
    ensures
        with_arithmetic_builtins(t).natives.contains_pair(("/"@, 2u8), Builtin::Div),
{
    reveal_strlit("/");
    reveal_strlit("%");
    reveal_strlit("<");
    reveal_strlit(">");
    reveal_strlit("<=");
    reveal_strlit(">=");
    reveal_strlit("pow-math");
    reveal_strlit("log-math");
    reveal_strlit("min");
    reveal_strlit("max");
    reveal_strlit("random-int");
    reveal_strlit("random-float");
    assert("/"@.len() == 1);
    assert("%"@.len() == 1);
    assert("<"@.len() == 1);
    assert(">"@.len() == 1);
    assert("<="@.len() == 2);
    assert(">="@.len() == 2);
    assert("pow-math"@.len() == 8);
    assert("log-math"@.len() == 8);
    assert("min"@.len() == 3);
    assert("max"@.len() == 3);
    assert("random-int"@.len() == 10);
    assert("random-float"@.len() == 12);
    assert("/"@[0] != "%"@[0]);
    assert("/"@[0] != "<"@[0]);
    assert("/"@[0] != ">"@[0]);
    let rows = arithmetic_rows();
    assert(rows[3] == ("/"@, 2u8, Builtin::Div, rows[3].3));
    lemma_row_found(t, rows, 3);
}

/// `%` is bound to its function.
proof fn lemma_arithmetic_4(t: TableV)
    ensures
        with_arithmetic_builtins(t).natives.contains_pair(("%"@, 2u8), Builtin::Rem),
{
    reveal_strlit("%");
    reveal_strlit("<");
    reveal_strlit(">");
    reveal_strlit("<=");
    reveal_strlit(">=");
    reveal_strlit("pow-math");
    reveal_strlit("log-math");
    reveal_strlit("min");
    reveal_strlit("max");
    reveal_strlit("random-int");
    reveal_strlit("random-float");
    assert("%"@.len() == 1);
    assert("<"@.len() == 1);
    assert(">"@.len() == 1);
    assert("<="@.len() == 2);
    assert(">="@.len() == 2);
    assert("pow-math"@.len() == 8);
    assert("log-math"@.len() == 8);
    assert("min"@.len() == 3);
    assert("max"@.len() == 3);
    assert("random-int"@.len() == 10);
    assert("random-float"@.len() == 12);
    assert("%"@[0] != "<"@[0]);
    assert("%"@[0] != ">"@[0]);
    let rows = arithmetic_rows();
    assert(rows[4] == ("%"@, 2u8, Builtin::Rem, rows[4].3));
    lemma_row_found(t, rows, 4);
}

/// `<` is bound to its function.
proof fn lemma_arithmetic_5(t: TableV)
    ensures
        with_arithmetic_builtins(t).natives.contains_pair(("<"@, 2u8), Builtin::Below),
{
    reveal_strlit("<");
    reveal_strlit(">");
    reveal_strlit("<=");
    reveal_strlit(">=");
    reveal_strlit("pow-math");
    reveal_strlit("log-math");
    reveal_strlit("min");
    reveal_strlit("max");
    reveal_strlit("random-int");
    reveal_strlit("random-float");
    assert("<"@.len() == 1);
    assert(">"@.len() == 1);
    assert("<="@.len() == 2);
    assert(">="@.len() == 2);
    assert("pow-math"@.len() == 8);
    assert("log-math"@.len() == 8);
    assert("min"@.len() == 3);
    assert("max"@.len() == 3);
    assert("random-int"@.len() == 10);
    assert("random-float"@.len() == 12);
    assert("<"@[0] != ">"@[0]);
    let rows = arithmetic_rows();
    assert(rows[5] == ("<"@, 2u8, Builtin::Below, rows[5].3));
    lemma_row_found(t, rows, 5);
}

/// `>` is bound to its function.
proof fn lemma_arithmetic_6(t: TableV)
    ensures
        with_arithmetic_builtins(t).natives.contains_pair((">"@, 2u8), Builtin::Above),
{
    reveal_strlit(">");
    reveal_strlit("<=");
    reveal_strlit(">=");
    reveal_strlit("pow-math");
    reveal_strlit("log-math");
    reveal_strlit("min");
    reveal_strlit("max");
    reveal_strlit("random-int");
    reveal_strlit("random-float");
    assert(">"@.len() == 1);
    assert("<="@.len() == 2);
    assert(">="@.len() == 2);
    assert("pow-math"@.len() == 8);
    assert("log-math"@.len() == 8);
    assert("min"@.len() == 3);
    assert("max"@.len() == 3);
    assert("random-int"@.len() == 10);
    assert("random-float"@.len() == 12);
    let rows = arithmetic_rows();
    assert(rows[6] == (">"@, 2u8, Builtin::Above, rows[6].3));
    lemma_row_found(t, rows, 6);
}

/// `<=` is bound to its function.
proof fn lemma_arithmetic_7(t: TableV)
    ensures
        with_arithmetic_builtins(t).natives.contains_pair(("<="@, 2u8), Builtin::AtMost),
{
    reveal_strlit("<=");
    reveal_strlit(">=");
    reveal_strlit("pow-math");
    reveal_strlit("log-math");
    reveal_strlit("min");
    reveal_strlit("max");
    reveal_strlit("random-int");
    reveal_strlit("random-float");
    assert("<="@.len() == 2);
    assert(">="@.len() == 2);
    assert("pow-math"@.len() == 8);
    assert("log-math"@.len() == 8);
    assert("min"@.len() == 3);
    assert("max"@.len() == 3);
    assert("random-int"@.len() == 10);
    assert("random-float"@.len() == 12);
    assert("<="@[0] != ">="@[0]);
    let rows = arithmetic_rows();
    assert(rows[7] == ("<="@, 2u8, Builtin::AtMost, rows[7].3));
    lemma_row_found(t, rows, 7);
}

/// `>=` is bound to its function.
proof fn lemma_arithmetic_8(t: TableV)
    ensures
        with_arithmetic_builtins(t).natives.contains_pair((">="@, 2u8), Builtin::AtLeast),
{
    reveal_strlit(">=");
    reveal_strlit("pow-math");
    reveal_strlit("log-math");
    reveal_strlit("min");
    reveal_strlit("max");
    reveal_strlit("random-int");
    reveal_strlit("random-float");
    assert(">="@.len() == 2);
    assert("pow-math"@.len() == 8);
    assert("log-math"@.len() == 8);
    assert("min"@.len() == 3);
    assert("max"@.len() == 3);
    assert("random-int"@.len() == 10);
    assert("random-float"@.len() == 12);
    let rows = arithmetic_rows();
    assert(rows[8] == (">="@, 2u8, Builtin::AtLeast, rows[8].3));
    lemma_row_found(t, rows, 8);
}

/// `sqrt-math` is bound to its function.
proof fn lemma_arithmetic_9(t: TableV)
    ensures
        with_arithmetic_builtins(t).natives.contains_pair(("sqrt-math"@, 1u8), Builtin::Float(FloatFn::Sqrt)),
{
    reveal_strlit("sqrt-math");
    reveal_strlit("abs-math");
    reveal_strlit("trunc-math");
    reveal_strlit("ceil-math");
    reveal_strlit("floor-math");
    reveal_strlit("round-math");
    reveal_strlit("sin-math");
    reveal_strlit("asin-math");
    reveal_strlit("cos-math");
    reveal_strlit("acos-math");
    reveal_strlit("tan-math");
    reveal_strlit("atan-math");
    reveal_strlit("exp");
    reveal_strlit("isnan-math");
    reveal_strlit("isinf-math");
    reveal_strlit("min-atom");
    reveal_strlit("max-atom");
    reveal_strlit("sort-math");
    assert("sqrt-math"@.len() == 9);
    assert("abs-math"@.len() == 8);
    assert("trunc-math"@.len() == 10);
    assert("ceil-math"@.len() == 9);
    assert("floor-math"@.len() == 10);
    assert("round-math"@.len() == 10);
    assert("sin-math"@.len() == 8);
    assert("asin-math"@.len() == 9);
    assert("cos-math"@.len() == 8);
    assert("acos-math"@.len() == 9);
    assert("tan-math"@.len() == 8);
    assert("atan-math"@.len() == 9);
    assert("exp"@.len() == 3);
    assert("isnan-math"@.len() == 10);
    assert("isinf-math"@.len() == 10);
    assert("min-atom"@.len() == 8);
    assert("max-atom"@.len() == 8);
    assert("sort-math"@.len() == 9);
    assert("sqrt-math"@[0] != "ceil-math"@[0]);
    assert("sqrt-math"@[0] != "asin-math"@[0]);
    assert("sqrt-math"@[0] != "acos-math"@[0]);
    assert("sqrt-math"@[0] != "atan-math"@[0]);
    assert("sqrt-math"@[1] != "sort-math"@[1]);
    let rows = arithmetic_rows();
    assert(rows[9] == ("sqrt-math"@, 1u8, Builtin::Float(FloatFn::Sqrt), rows[9].3));
    lemma_row_found(t, rows, 9);
}

/// `abs-math` is bound to its function.
proof fn lemma_arithmetic_10(t: TableV)
    ensures
        with_arithmetic_builtins(t).natives.contains_pair(("abs-math"@, 1u8), Builtin::Float(FloatFn::Abs)),
{
    reveal_strlit("abs-math");
    reveal_strlit("trunc-math");
    reveal_strlit("ceil-math");
    reveal_strlit("floor-math");
    reveal_strlit("round-math");
    reveal_strlit("sin-math");
    reveal_strlit("asin-math");
    reveal_strlit("cos-math");
    reveal_strlit("acos-math");
    reveal_strlit("tan-math");
    reveal_strlit("atan-math");
    reveal_strlit("exp");
    reveal_strlit("isnan-math");
    reveal_strlit("isinf-math");
    reveal_strlit("min-atom");
    reveal_strlit("max-atom");
    reveal_strlit("sort-math");
    assert("abs-math"@.len() == 8);
    assert("trunc-math"@.len() == 10);
    assert("ceil-math"@.len() == 9);
    assert("floor-math"@.len() == 10);
    assert("round-math"@.len() == 10);
    assert("sin-math"@.len() == 8);
    assert("asin-math"@.len() == 9);
    assert("cos-math"@.len() == 8);
    assert("acos-math"@.len() == 9);
    assert("tan-math"@.len() == 8);
    assert("atan-math"@.len() == 9);
    assert("exp"@.len() == 3);
    assert("isnan-math"@.len() == 10);
    assert("isinf-math"@.len() == 10);
    assert("min-atom"@.len() == 8);
    assert("max-atom"@.len() == 8);
    assert("sort-math"@.len() == 9);
    assert("abs-math"@[0] != "sin-math"@[0]);
    assert("abs-math"@[0] != "cos-math"@[0]);
    assert("abs-math"@[0] != "tan-math"@[0]);
    assert("abs-math"@[0] != "min-atom"@[0]);
    assert("abs-math"@[0] != "max-atom"@[0]);
    let rows = arithmetic_rows();
    assert(rows[10] == ("abs-math"@, 1u8, Builtin::Float(FloatFn::Abs), rows[10].3));
    lemma_row_found(t, rows, 10);
}

/// `trunc-math` is bound to its function.
proof fn lemma_arithmetic_11(t: TableV)
    ensures
        with_arithmetic_builtins(t).natives.contains_pair(("trunc-math"@, 1u8), Builtin::Float(FloatFn::Trunc)),
{
    reveal_strlit("trunc-math");
    reveal_strlit("ceil-math");
    reveal_strlit("floor-math");
    reveal_strlit("round-math");
    reveal_strlit("sin-math");
    reveal_strlit("asin-math");
    reveal_strlit("cos-math");
    reveal_strlit("acos-math");
    reveal_strlit("tan-math");
    reveal_strlit("atan-math");
    reveal_strlit("exp");
    reveal_strlit("isnan-math");
    reveal_strlit("isinf-math");
    reveal_strlit("min-atom");
    reveal_strlit("max-atom");
    reveal_strlit("sort-math");
    assert("trunc-math"@.len() == 10);
    assert("ceil-math"@.len() == 9);
    assert("floor-math"@.len() == 10);
    assert("round-math"@.len() == 10);
    assert("sin-math"@.len() == 8);
    assert("asin-math"@.len() == 9);
    assert("cos-math"@.len() == 8);
    assert("acos-math"@.len() == 9);
    assert("tan-math"@.len() == 8);
    assert("atan-math"@.len() == 9);
    assert("exp"@.len() == 3);
    assert("isnan-math"@.len() == 10);
    assert("isinf-math"@.len() == 10);
    assert("min-atom"@.len() == 8);
    assert("max-atom"@.len() == 8);
    assert("sort-math"@.len() == 9);
    assert("trunc-math"@[0] != "floor-math"@[0]);
    assert("trunc-math"@[0] != "round-math"@[0]);
    assert("trunc-math"@[0] != "isnan-math"@[0]);
    assert("trunc-math"@[0] != "isinf-math"@[0]);
    let rows = arithmetic_rows();
    assert(rows[11] == ("trunc-math"@, 1u8, Builtin::Float(FloatFn::Trunc), rows[11].3));
    lemma_row_found(t, rows, 11);
}

/// `ceil-math` is bound to its function.
proof fn lemma_arithmetic_12(t: TableV)
    ensures
        with_arithmetic_builtins(t).natives.contains_pair(("ceil-math"@, 1u8), Builtin::Float(FloatFn::Ceil)),
{
    reveal_strlit("ceil-math");
    reveal_strlit("floor-math");
    reveal_strlit("round-math");
    reveal_strlit("sin-math");
    reveal_strlit("asin-math");
    reveal_strlit("cos-math");
    reveal_strlit("acos-math");
    reveal_strlit("tan-math");
    reveal_strlit("atan-math");
    reveal_strlit("exp");
    reveal_strlit("isnan-math");
    reveal_strlit("isinf-math");
    reveal_strlit("min-atom");
    reveal_strlit("max-atom");
    reveal_strlit("sort-math");
    assert("ceil-math"@.len() == 9);
    assert("floor-math"@.len() == 10);
    assert("round-math"@.len() == 10);
    assert("sin-math"@.len() == 8);
    assert("asin-math"@.len() == 9);
    assert("cos-math"@.len() == 8);
    assert("acos-math"@.len() == 9);
    assert("tan-math"@.len() == 8);
    assert("atan-math"@.len() == 9);
    assert("exp"@.len() == 3);
    assert("isnan-math"@.len() == 10);
    assert("isinf-math"@.len() == 10);
    assert("min-atom"@.len() == 8);
    assert("max-atom"@.len() == 8);
    assert("sort-math"@.len() == 9);
    assert("ceil-math"@[0] != "asin-math"@[0]);
    assert("ceil-math"@[0] != "acos-math"@[0]);
    assert("ceil-math"@[0] != "atan-math"@[0]);
    assert("ceil-math"@[0] != "sort-math"@[0]);
    let rows = arithmetic_rows();
    assert(rows[12] == ("ceil-math"@, 1u8, Builtin::Float(FloatFn::Ceil), rows[12].3));
    lemma_row_found(t, rows, 12);
}

/// `floor-math` is bound to its function.
proof fn lemma_arithmetic_13(t: TableV)
    ensures
        with_arithmetic_builtins(t).natives.contains_pair(("floor-math"@, 1u8), Builtin::Float(FloatFn::Floor)),
{
    reveal_strlit("floor-math");
    reveal_strlit("round-math");
    reveal_strlit("sin-math");
    reveal_strlit("asin-math");
    reveal_strlit("cos-math");
    reveal_strlit("acos-math");
    reveal_strlit("tan-math");
    reveal_strlit("atan-math");
    reveal_strlit("exp");
    reveal_strlit("isnan-math");
    reveal_strlit("isinf-math");
    reveal_strlit("min-atom");
    reveal_strlit("max-atom");
    reveal_strlit("sort-math");
    assert("floor-math"@.len() == 10);
    assert("round-math"@.len() == 10);
    assert("sin-math"@.len() == 8);
    assert("asin-math"@.len() == 9);
    assert("cos-math"@.len() == 8);
    assert("acos-math"@.len() == 9);
    assert("tan-math"@.len() == 8);
    assert("atan-math"@.len() == 9);
    assert("exp"@.len() == 3);
    assert("isnan-math"@.len() == 10);
    assert("isinf-math"@.len() == 10);
    assert("min-atom"@.len() == 8);
    assert("max-atom"@.len() == 8);
    assert("sort-math"@.len() == 9);
    assert("floor-math"@[0] != "round-math"@[0]);
    assert("floor-math"@[0] != "isnan-math"@[0]);
    assert("floor-math"@[0] != "isinf-math"@[0]);
    let rows = arithmetic_rows();
    assert(rows[13] == ("floor-math"@, 1u8, Builtin::Float(FloatFn::Floor), rows[13].3));
    lemma_row_found(t, rows, 13);
}

/// `round-math` is bound to its function.
proof fn lemma_arithmetic_14(t: TableV)
    ensures
        with_arithmetic_builtins(t).natives.contains_pair(("round-math"@, 1u8), Builtin::Float(FloatFn::Round)),
{
    reveal_strlit("round-math");
    reveal_strlit("sin-math");
    reveal_strlit("asin-math");
    reveal_strlit("cos-math");
    reveal_strlit("acos-math");
    reveal_strlit("tan-math");
    reveal_strlit("atan-math");
    reveal_strlit("exp");
    reveal_strlit("isnan-math");
    reveal_strlit("isinf-math");
    reveal_strlit("min-atom");
    reveal_strlit("max-atom");
    reveal_strlit("sort-math");
    assert("round-math"@.len() == 10);
    assert("sin-math"@.len() == 8);
    assert("asin-math"@.len() == 9);
    assert("cos-math"@.len() == 8);
    assert("acos-math"@.len() == 9);
    assert("tan-math"@.len() == 8);
    assert("atan-math"@.len() == 9);
    assert("exp"@.len() == 3);
    assert("isnan-math"@.len() == 10);
    assert("isinf-math"@.len() == 10);
    assert("min-atom"@.len() == 8);
    assert("max-atom"@.len() == 8);
    assert("sort-math"@.len() == 9);
    assert("round-math"@[0] != "isnan-math"@[0]);
    assert("round-math"@[0] != "isinf-math"@[0]);
    let rows = arithmetic_rows();
    assert(rows[14] == ("round-math"@, 1u8, Builtin::Float(FloatFn::Round), rows[14].3));
    lemma_row_found(t, rows, 14);
}

/// `sin-math` is bound to its function.
proof fn lemma_arithmetic_15(t: TableV)
    ensures
        with_arithmetic_builtins(t).natives.contains_pair(("sin-math"@, 1u8), Builtin::Float(FloatFn::Sin)),
{
    reveal_strlit("sin-math");
    reveal_strlit("asin-math");
    reveal_strlit("cos-math");
    reveal_strlit("acos-math");
    reveal_strlit("tan-math");
    reveal_strlit("atan-math");
    reveal_strlit("exp");
    reveal_strlit("isnan-math");
    reveal_strlit("isinf-math");
    reveal_strlit("min-atom");
    reveal_strlit("max-atom");
    reveal_strlit("sort-math");
    assert("sin-math"@.len() == 8);
    assert("asin-math"@.len() == 9);
    assert("cos-math"@.len() == 8);
    assert("acos-math"@.len() == 9);
    assert("tan-math"@.len() == 8);
    assert("atan-math"@.len() == 9);
    assert("exp"@.len() == 3);
    assert("isnan-math"@.len() == 10);
    assert("isinf-math"@.len() == 10);
    assert("min-atom"@.len() == 8);
    assert("max-atom"@.len() == 8);
    assert("sort-math"@.len() == 9);
    assert("sin-math"@[0] != "cos-math"@[0]);
    assert("sin-math"@[0] != "tan-math"@[0]);
    assert("sin-math"@[0] != "min-atom"@[0]);
    assert("sin-math"@[0] != "max-atom"@[0]);
    let rows = arithmetic_rows();
    assert(rows[15] == ("sin-math"@, 1u8, Builtin::Float(FloatFn::Sin), rows[15].3));
    lemma_row_found(t, rows, 15);
}

/// `asin-math` is bound to its function.
proof fn lemma_arithmetic_16(t: TableV)
    ensures
        with_arithmetic_builtins(t).natives.contains_pair(("asin-math"@, 1u8), Builtin::Float(FloatFn::Asin)),
{
    reveal_strlit("asin-math");
    reveal_strlit("cos-math");
    reveal_strlit("acos-math");
    reveal_strlit("tan-math");
    reveal_strlit("atan-math");
    reveal_strlit("exp");
    reveal_strlit("isnan-math");
    reveal_strlit("isinf-math");
    reveal_strlit("min-atom");
    reveal_strlit("max-atom");
    reveal_strlit("sort-math");
    assert("asin-math"@.len() == 9);
    assert("cos-math"@.len() == 8);
    assert("acos-math"@.len() == 9);
    assert("tan-math"@.len() == 8);
    assert("atan-math"@.len() == 9);
    assert("exp"@.len() == 3);
    assert("isnan-math"@.len() == 10);
    assert("isinf-math"@.len() == 10);
    assert("min-atom"@.len() == 8);
    assert("max-atom"@.len() == 8);
    assert("sort-math"@.len() == 9);
    assert("asin-math"@[1] != "acos-math"@[1]);
    assert("asin-math"@[1] != "atan-math"@[1]);
    assert("asin-math"@[0] != "sort-math"@[0]);
    let rows = arithmetic_rows();
    assert(rows[16] == ("asin-math"@, 1u8, Builtin::Float(FloatFn::Asin), rows[16].3));
    lemma_row_found(t, rows, 16);
}

/// `cos-math` is bound to its function.
proof fn lemma_arithmetic_17(t: TableV)
    ensures
        with_arithmetic_builtins(t).natives.contains_pair(("cos-math"@, 1u8), Builtin::Float(FloatFn::Cos)),
{
    reveal_strlit("cos-math");
    reveal_strlit("acos-math");
    reveal_strlit("tan-math");
    reveal_strlit("atan-math");
    reveal_strlit("exp");
    reveal_strlit("isnan-math");
    reveal_strlit("isinf-math");
    reveal_strlit("min-atom");
    reveal_strlit("max-atom");
    reveal_strlit("sort-math");
    assert("cos-math"@.len() == 8);
    assert("acos-math"@.len() == 9);
    assert("tan-math"@.len() == 8);
    assert("atan-math"@.len() == 9);
    assert("exp"@.len() == 3);
    assert("isnan-math"@.len() == 10);
    assert("isinf-math"@.len() == 10);
    assert("min-atom"@.len() == 8);
    assert("max-atom"@.len() == 8);
    assert("sort-math"@.len() == 9);
    assert("cos-math"@[0] != "tan-math"@[0]);
    assert("cos-math"@[0] != "min-atom"@[0]);
    assert("cos-math"@[0] != "max-atom"@[0]);
    let rows = arithmetic_rows();
    assert(rows[17] == ("cos-math"@, 1u8, Builtin::Float(FloatFn::Cos), rows[17].3));
    lemma_row_found(t, rows, 17);
}

/// `acos-math` is bound to its function.
proof fn lemma_arithmetic_18(t: TableV)
    ensures
        with_arithmetic_builtins(t).natives.contains_pair(("acos-math"@, 1u8), Builtin::Float(FloatFn::Acos)),
{
    reveal_strlit("acos-math");
    reveal_strlit("tan-math");
    reveal_strlit("atan-math");
    reveal_strlit("exp");
    reveal_strlit("isnan-math");
    reveal_strlit("isinf-math");
    reveal_strlit("min-atom");
    reveal_strlit("max-atom");
    reveal_strlit("sort-math");
    assert("acos-math"@.len() == 9);
    assert("tan-math"@.len() == 8);
    assert("atan-math"@.len() == 9);
    assert("exp"@.len() == 3);
    assert("isnan-math"@.len() == 10);
    assert("isinf-math"@.len() == 10);
    assert("min-atom"@.len() == 8);
    assert("max-atom"@.len() == 8);
    assert("sort-math"@.len() == 9);
    assert("acos-math"@[1] != "atan-math"@[1]);
    assert("acos-math"@[0] != "sort-math"@[0]);
    let rows = arithmetic_rows();
    assert(rows[18] == ("acos-math"@, 1u8, Builtin::Float(FloatFn::Acos), rows[18].3));
    lemma_row_found(t, rows, 18);
}

/// `tan-math` is bound to its function.
proof fn lemma_arithmetic_19(t: TableV)
    ensures
        with_arithmetic_builtins(t).natives.contains_pair(("tan-math"@, 1u8), Builtin::Float(FloatFn::Tan)),
{
    reveal_strlit("tan-math");
    reveal_strlit("atan-math");
    reveal_strlit("exp");
    reveal_strlit("isnan-math");
    reveal_strlit("isinf-math");
    reveal_strlit("min-atom");
    reveal_strlit("max-atom");
    reveal_strlit("sort-math");
    assert("tan-math"@.len() == 8);
    assert("atan-math"@.len() == 9);
    assert("exp"@.len() == 3);
    assert("isnan-math"@.len() == 10);
    assert("isinf-math"@.len() == 10);
    assert("min-atom"@.len() == 8);
    assert("max-atom"@.len() == 8);
    assert("sort-math"@.len() == 9);
    assert("tan-math"@[0] != "min-atom"@[0]);
    assert("tan-math"@[0] != "max-atom"@[0]);
    let rows = arithmetic_rows();
    assert(rows[19] == ("tan-math"@, 1u8, Builtin::Float(FloatFn::Tan), rows[19].3));
    lemma_row_found(t, rows, 19);
}

/// `atan-math` is bound to its function.
proof fn lemma_arithmetic_20(t: TableV)
    ensures
        with_arithmetic_builtins(t).natives.contains_pair(("atan-math"@, 1u8), Builtin::Float(FloatFn::Atan)),
{
    reveal_strlit("atan-math");
    reveal_strlit("exp");
    reveal_strlit("isnan-math");
    reveal_strlit("isinf-math");
    reveal_strlit("min-atom");
    reveal_strlit("max-atom");
    reveal_strlit("sort-math");
    assert("atan-math"@.len() == 9);
    assert("exp"@.len() == 3);
    assert("isnan-math"@.len() == 10);
    assert("isinf-math"@.len() == 10);
    assert("min-atom"@.len() == 8);
    assert("max-atom"@.len() == 8);
    assert("sort-math"@.len() == 9);
    assert("atan-math"@[0] != "sort-math"@[0]);
    let rows = arithmetic_rows();
    assert(rows[20] == ("atan-math"@, 1u8, Builtin::Float(FloatFn::Atan), rows[20].3));
    lemma_row_found(t, rows, 20);
}

/// `exp` is bound to its function.
proof fn lemma_arithmetic_21(t: TableV)
    ensures
        with_arithmetic_builtins(t).natives.contains_pair(("exp"@, 1u8), Builtin::Float(FloatFn::Exp)),
{
    reveal_strlit("exp");
    reveal_strlit("isnan-math");
    reveal_strlit("isinf-math");
    reveal_strlit("min-atom");
    reveal_strlit("max-atom");
    reveal_strlit("sort-math");
    assert("exp"@.len() == 3);
    assert("isnan-math"@.len() == 10);
    assert("isinf-math"@.len() == 10);
    assert("min-atom"@.len() == 8);
    assert("max-atom"@.len() == 8);
    assert("sort-math"@.len() == 9);
    let rows = arithmetic_rows();
    assert(rows[21] == ("exp"@, 1u8, Builtin::Float(FloatFn::Exp), rows[21].3));
    lemma_row_found(t, rows, 21);
}

/// `pow-math` is bound to its function.
proof fn lemma_arithmetic_22(t: TableV)
    ensures
        with_arithmetic_builtins(t).natives.contains_pair(("pow-math"@, 2u8), Builtin::Float(FloatFn::Pow)),
{
    reveal_strlit("pow-math");
    reveal_strlit("log-math");
    reveal_strlit("min");
    reveal_strlit("max");
    reveal_strlit("random-int");
    reveal_strlit("random-float");
    assert("pow-math"@.len() == 8);
    assert("log-math"@.len() == 8);
    assert("min"@.len() == 3);
    assert("max"@.len() == 3);
    assert("random-int"@.len() == 10);
    assert("random-float"@.len() == 12);
    assert("pow-math"@[0] != "log-math"@[0]);
    let rows = arithmetic_rows();
    assert(rows[22] == ("pow-math"@, 2u8, Builtin::Float(FloatFn::Pow), rows[22].3));
    lemma_row_found(t, rows, 22);
}

/// `log-math` is bound to its function.
proof fn lemma_arithmetic_23(t: TableV)
    ensures
        with_arithmetic_builtins(t).natives.contains_pair(("log-math"@, 2u8), Builtin::Float(FloatFn::Log)),
{
    reveal_strlit("log-math");
    reveal_strlit("min");
    reveal_strlit("max");
    reveal_strlit("random-int");
    reveal_strlit("random-float");
    assert("log-math"@.len() == 8);
    assert("min"@.len() == 3);
    assert("max"@.len() == 3);
    assert("random-int"@.len() == 10);
    assert("random-float"@.len() == 12);
    let rows = arithmetic_rows();
    assert(rows[23] == ("log-math"@, 2u8, Builtin::Float(FloatFn::Log), rows[23].3));
    lemma_row_found(t, rows, 23);
}

/// `min` is bound to its function.
proof fn lemma_arithmetic_24(t: TableV)
    ensures
        with_arithmetic_builtins(t).natives.contains_pair(("min"@, 2u8), Builtin::Float(FloatFn::Min)),
{
    reveal_strlit("min");
    reveal_strlit("max");
    reveal_strlit("random-int");
    reveal_strlit("random-float");
    assert("min"@.len() == 3);
    assert("max"@.len() == 3);
    assert("random-int"@.len() == 10);
    assert("random-float"@.len() == 12);
    assert("min"@[1] != "max"@[1]);
    let rows = arithmetic_rows();
    assert(rows[24] == ("min"@, 2u8, Builtin::Float(FloatFn::Min), rows[24].3));
    lemma_row_found(t, rows, 24);
}

/// `max` is bound to its function.
proof fn lemma_arithmetic_25(t: TableV)
    ensures
        with_arithmetic_builtins(t).natives.contains_pair(("max"@, 2u8), Builtin::Float(FloatFn::Max)),
{
    reveal_strlit("max");
    reveal_strlit("random-int");
    reveal_strlit("random-float");
    assert("max"@.len() == 3);
    assert("random-int"@.len() == 10);
    assert("random-float"@.len() == 12);
    let rows = arithmetic_rows();
    assert(rows[25] == ("max"@, 2u8, Builtin::Float(FloatFn::Max), rows[25].3));
    lemma_row_found(t, rows, 25);
}

/// `isnan-math` is bound to its function.
proof fn lemma_arithmetic_26(t: TableV)
    ensures
        with_arithmetic_builtins(t).natives.contains_pair(("isnan-math"@, 1u8), Builtin::Float(FloatFn::IsNan)),
{
    reveal_strlit("isnan-math");
    reveal_strlit("isinf-math");
    reveal_strlit("min-atom");
    reveal_strlit("max-atom");
    reveal_strlit("sort-math");
    assert("isnan-math"@.len() == 10);
    assert("isinf-math"@.len() == 10);
    assert("min-atom"@.len() == 8);
    assert("max-atom"@.len() == 8);
    assert("sort-math"@.len() == 9);
    assert("isnan-math"@[2] != "isinf-math"@[2]);
    let rows = arithmetic_rows();
    assert(rows[26] == ("isnan-math"@, 1u8, Builtin::Float(FloatFn::IsNan), rows[26].3));
    lemma_row_found(t, rows, 26);
}

/// `isinf-math` is bound to its function.
proof fn lemma_arithmetic_27(t: TableV)
    ensures
        with_arithmetic_builtins(t).natives.contains_pair(("isinf-math"@, 1u8), Builtin::Float(FloatFn::IsInf)),
{
    reveal_strlit("isinf-math");
    reveal_strlit("min-atom");
    reveal_strlit("max-atom");
    reveal_strlit("sort-math");
    assert("isinf-math"@.len() == 10);
    assert("min-atom"@.len() == 8);
    assert("max-atom"@.len() == 8);
    assert("sort-math"@.len() == 9);
    let rows = arithmetic_rows();
    assert(rows[27] == ("isinf-math"@, 1u8, Builtin::Float(FloatFn::IsInf), rows[27].3));
    lemma_row_found(t, rows, 27);
}

/// `min-atom` is bound to its function.
proof fn lemma_arithmetic_28(t: TableV)
    ensures
        with_arithmetic_builtins(t).natives.contains_pair(("min-atom"@, 1u8), Builtin::Float(FloatFn::MinAtom)),
{
    reveal_strlit("min-atom");
    reveal_strlit("max-atom");
    reveal_strlit("sort-math");
    assert("min-atom"@.len() == 8);
    assert("max-atom"@.len() == 8);
    assert("sort-math"@.len() == 9);
    assert("min-atom"@[1] != "max-atom"@[1]);
    let rows = arithmetic_rows();
    assert(rows[28] == ("min-atom"@, 1u8, Builtin::Float(FloatFn::MinAtom), rows[28].3));
    lemma_row_found(t, rows, 28);
}

/// `max-atom` is bound to its function.
proof fn lemma_arithmetic_29(t: TableV)
    ensures
        with_arithmetic_builtins(t).natives.contains_pair(("max-atom"@, 1u8), Builtin::Float(FloatFn::MaxAtom)),
{
    reveal_strlit("max-atom");
    reveal_strlit("sort-math");
    assert("max-atom"@.len() == 8);
    assert("sort-math"@.len() == 9);
    let rows = arithmetic_rows();
    assert(rows[29] == ("max-atom"@, 1u8, Builtin::Float(FloatFn::MaxAtom), rows[29].3));
    lemma_row_found(t, rows, 29);
}

/// `sort-math` is bound to its function.
proof fn lemma_arithmetic_30(t: TableV)
    ensures
        with_arithmetic_builtins(t).natives.contains_pair(("sort-math"@, 1u8), Builtin::Float(FloatFn::SortMath)),
{
    reveal_strlit("sort-math");
    assert("sort-math"@.len() == 9);
    let rows = arithmetic_rows();
    assert(rows[30] == ("sort-math"@, 1u8, Builtin::Float(FloatFn::SortMath), rows[30].3));
    lemma_row_found(t, rows, 30);
}

/// `random-int` is bound to its function.
proof fn lemma_arithmetic_31(t: TableV)
    ensures
        with_arithmetic_builtins(t).natives.contains_pair(("random-int"@, 2u8), Builtin::Float(FloatFn::RandomInt)),
{
    reveal_strlit("random-int");
    reveal_strlit("random-float");
    assert("random-int"@.len() == 10);
    assert("random-float"@.len() == 12);
    let rows = arithmetic_rows();
    assert(rows[31] == ("random-int"@, 2u8, Builtin::Float(FloatFn::RandomInt), rows[31].3));
    lemma_row_found(t, rows, 31);
}

/// `random-int` is bound to its function.
proof fn lemma_arithmetic_32(t: TableV)
    ensures
        with_arithmetic_builtins(t).natives.contains_pair(("random-int"@, 3u8), Builtin::Float(FloatFn::RandomInt)),
{
    reveal_strlit("random-int");
    reveal_strlit("random-float");
    assert("random-int"@.len() == 10);
    assert("random-float"@.len() == 12);
    let rows = arithmetic_rows();
    assert(rows[32] == ("random-int"@, 3u8, Builtin::Float(FloatFn::RandomInt), rows[32].3));
    lemma_row_found(t, rows, 32);
}

/// `random-float` is bound to its function.
proof fn lemma_arithmetic_33(t: TableV)
    ensures
        with_arithmetic_builtins(t).natives.contains_pair(("random-float"@, 2u8), Builtin::Float(FloatFn::RandomFloat)),
{
    reveal_strlit("random-float");
    assert("random-float"@.len() == 12);
    let rows = arithmetic_rows();
    assert(rows[33] == ("random-float"@, 2u8, Builtin::Float(FloatFn::RandomFloat), rows[33].3));
    lemma_row_found(t, rows, 33);
}

/// `random-float` is bound to its function.
proof fn lemma_arithmetic_34(t: TableV)
    ensures
        with_arithmetic_builtins(t).natives.contains_pair(("random-float"@, 3u8), Builtin::Float(FloatFn::RandomFloat)),
{
    reveal_strlit("random-float");
    assert("random-float"@.len() == 12);
    let rows = arithmetic_rows();
    assert(rows[34] == ("random-float"@, 3u8, Builtin::Float(FloatFn::RandomFloat), rows[34].3));
    lemma_row_found(t, rows, 34);
}

/// The functions on numbers are found under their names once they are registered.
pub proof fn arithmetic_names_are_bound(t: TableV)
    ensures
        with_arithmetic_builtins(t).natives.contains_pair(("+"@, 2u8), Builtin::Add),
        with_arithmetic_builtins(t).natives.contains_pair(("-"@, 2u8), Builtin::Sub),
        with_arithmetic_builtins(t).natives.contains_pair(("*"@, 2u8), Builtin::Mul),
        with_arithmetic_builtins(t).natives.contains_pair(("/"@, 2u8), Builtin::Div),
        with_arithmetic_builtins(t).natives.contains_pair(("%"@, 2u8), Builtin::Rem),
        with_arithmetic_builtins(t).natives.contains_pair(("<"@, 2u8), Builtin::Below),
        with_arithmetic_builtins(t).natives.contains_pair((">"@, 2u8), Builtin::Above),
        with_arithmetic_builtins(t).natives.contains_pair(("<="@, 2u8), Builtin::AtMost),
        with_arithmetic_builtins(t).natives.contains_pair((">="@, 2u8), Builtin::AtLeast),
        with_arithmetic_builtins(t).natives.contains_pair(("sqrt-math"@, 1u8), Builtin::Float(FloatFn::Sqrt)),
        with_arithmetic_builtins(t).natives.contains_pair(("abs-math"@, 1u8), Builtin::Float(FloatFn::Abs)),
        with_arithmetic_builtins(t).natives.contains_pair(("trunc-math"@, 1u8), Builtin::Float(FloatFn::Trunc)),
        with_arithmetic_builtins(t).natives.contains_pair(("ceil-math"@, 1u8), Builtin::Float(FloatFn::Ceil)),
        with_arithmetic_builtins(t).natives.contains_pair(("floor-math"@, 1u8), Builtin::Float(FloatFn::Floor)),
        with_arithmetic_builtins(t).natives.contains_pair(("round-math"@, 1u8), Builtin::Float(FloatFn::Round)),
        with_arithmetic_builtins(t).natives.contains_pair(("sin-math"@, 1u8), Builtin::Float(FloatFn::Sin)),
        with_arithmetic_builtins(t).natives.contains_pair(("asin-math"@, 1u8), Builtin::Float(FloatFn::Asin)),
        with_arithmetic_builtins(t).natives.contains_pair(("cos-math"@, 1u8), Builtin::Float(FloatFn::Cos)),
        with_arithmetic_builtins(t).natives.contains_pair(("acos-math"@, 1u8), Builtin::Float(FloatFn::Acos)),
        with_arithmetic_builtins(t).natives.contains_pair(("tan-math"@, 1u8), Builtin::Float(FloatFn::Tan)),
        with_arithmetic_builtins(t).natives.contains_pair(("atan-math"@, 1u8), Builtin::Float(FloatFn::Atan)),
        with_arithmetic_builtins(t).natives.contains_pair(("exp"@, 1u8), Builtin::Float(FloatFn::Exp)),
        with_arithmetic_builtins(t).natives.contains_pair(("pow-math"@, 2u8), Builtin::Float(FloatFn::Pow)),
        with_arithmetic_builtins(t).natives.contains_pair(("log-math"@, 2u8), Builtin::Float(FloatFn::Log)),
        with_arithmetic_builtins(t).natives.contains_pair(("min"@, 2u8), Builtin::Float(FloatFn::Min)),
        with_arithmetic_builtins(t).natives.contains_pair(("max"@, 2u8), Builtin::Float(FloatFn::Max)),
        with_arithmetic_builtins(t).natives.contains_pair(("isnan-math"@, 1u8), Builtin::Float(FloatFn::IsNan)),
        with_arithmetic_builtins(t).natives.contains_pair(("isinf-math"@, 1u8), Builtin::Float(FloatFn::IsInf)),
        with_arithmetic_builtins(t).natives.contains_pair(("min-atom"@, 1u8), Builtin::Float(FloatFn::MinAtom)),
        with_arithmetic_builtins(t).natives.contains_pair(("max-atom"@, 1u8), Builtin::Float(FloatFn::MaxAtom)),
        with_arithmetic_builtins(t).natives.contains_pair(("sort-math"@, 1u8), Builtin::Float(FloatFn::SortMath)),
        with_arithmetic_builtins(t).natives.contains_pair(("random-int"@, 2u8), Builtin::Float(FloatFn::RandomInt)),
        with_arithmetic_builtins(t).natives.contains_pair(("random-int"@, 3u8), Builtin::Float(FloatFn::RandomInt)),
        with_arithmetic_builtins(t).natives.contains_pair(("random-float"@, 2u8), Builtin::Float(FloatFn::RandomFloat)),
        with_arithmetic_builtins(t).natives.contains_pair(("random-float"@, 3u8), Builtin::Float(FloatFn::RandomFloat)),
{
    lemma_arithmetic_0(t);
    lemma_arithmetic_1(t);
    lemma_arithmetic_2(t);
    lemma_arithmetic_3(t);
    lemma_arithmetic_4(t);
    lemma_arithmetic_5(t);
    lemma_arithmetic_6(t);
    lemma_arithmetic_7(t);
    lemma_arithmetic_8(t);
    lemma_arithmetic_9(t);
    lemma_arithmetic_10(t);
    lemma_arithmetic_11(t);
    lemma_arithmetic_12(t);
    lemma_arithmetic_13(t);
    lemma_arithmetic_14(t);
    lemma_arithmetic_15(t);
    lemma_arithmetic_16(t);
    lemma_arithmetic_17(t);
    lemma_arithmetic_18(t);
    lemma_arithmetic_19(t);
    lemma_arithmetic_20(t);
    lemma_arithmetic_21(t);
    lemma_arithmetic_22(t);
    lemma_arithmetic_23(t);
    lemma_arithmetic_24(t);
    lemma_arithmetic_25(t);
    lemma_arithmetic_26(t);
    lemma_arithmetic_27(t);
    lemma_arithmetic_28(t);
    lemma_arithmetic_29(t);
    lemma_arithmetic_30(t);
    lemma_arithmetic_31(t);
    lemma_arithmetic_32(t);
    lemma_arithmetic_33(t);
    lemma_arithmetic_34(t);
}

/// `==` is bound to its function.
proof fn lemma_boolean_0(t: TableV)
    ensures
        with_boolean_builtins(t).natives.contains_pair(("=="@, 2u8), Builtin::Equal),
{
    reveal_strlit("==");
    reveal_strlit("!=");
    reveal_strlit("=");
    reveal_strlit("=?");
    reveal_strlit("same");
    reveal_strlit("=alpha");
    assert("=="@.len() == 2);
    assert("!="@.len() == 2);
    assert("="@.len() == 1);
    assert("=?"@.len() == 2);
    assert("same"@.len() == 4);
    assert("=alpha"@.len() == 6);
    assert("=="@[0] != "!="@[0]);
    assert("=="@[1] != "=?"@[1]);
    let rows = boolean_rows();
    assert(rows[0] == ("=="@, 2u8, Builtin::Equal, rows[0].3));
    lemma_row_found(marked_operators(with_truths(t, truth_table())), rows, 0);
}

/// `!=` is bound to its function.
proof fn lemma_boolean_1(t: TableV)
    ensures
        with_boolean_builtins(t).natives.contains_pair(("!="@, 2u8), Builtin::NotEqual),
{
    reveal_strlit("!=");
    reveal_strlit("=");
    reveal_strlit("=?");
    reveal_strlit("same");
    reveal_strlit("=alpha");
    assert("!="@.len() == 2);
    assert("="@.len() == 1);
    assert("=?"@.len() == 2);
    assert("same"@.len() == 4);
    assert("=alpha"@.len() == 6);
    assert("!="@[0] != "=?"@[0]);
    let rows = boolean_rows();
    assert(rows[1] == ("!="@, 2u8, Builtin::NotEqual, rows[1].3));
    lemma_row_found(marked_operators(with_truths(t, truth_table())), rows, 1);
}

/// `=` is bound to its function.
proof fn lemma_boolean_2(t: TableV)
    ensures
        with_boolean_builtins(t).natives.contains_pair(("="@, 2u8), Builtin::Equal),
{
    reveal_strlit("=");
    reveal_strlit("=?");
    reveal_strlit("same");
    reveal_strlit("=alpha");
    assert("="@.len() == 1);
    assert("=?"@.len() == 2);
    assert("same"@.len() == 4);
    assert("=alpha"@.len() == 6);
    let rows = boolean_rows();
    assert(rows[2] == ("="@, 2u8, Builtin::Equal, rows[2].3));
    lemma_row_found(marked_operators(with_truths(t, truth_table())), rows, 2);
}

/// `=?` is bound to its function.
proof fn lemma_boolean_3(t: TableV)
    ensures
        with_boolean_builtins(t).natives.contains_pair(("=?"@, 2u8), Builtin::Equal),
{
    reveal_strlit("=?");
    reveal_strlit("same");
    reveal_strlit("=alpha");
    assert("=?"@.len() == 2);
    assert("same"@.len() == 4);
    assert("=alpha"@.len() == 6);
    let rows = boolean_rows();
    assert(rows[3] == ("=?"@, 2u8, Builtin::Equal, rows[3].3));
    lemma_row_found(marked_operators(with_truths(t, truth_table())), rows, 3);
}

/// `same` is bound to its function.
proof fn lemma_boolean_4(t: TableV)
    ensures
        with_boolean_builtins(t).natives.contains_pair(("same"@, 2u8), Builtin::Equal),
{
    reveal_strlit("same");
    reveal_strlit("=alpha");
    assert("same"@.len() == 4);
    assert("=alpha"@.len() == 6);
    let rows = boolean_rows();
    assert(rows[4] == ("same"@, 2u8, Builtin::Equal, rows[4].3));
    lemma_row_found(marked_operators(with_truths(t, truth_table())), rows, 4);
}

/// `=alpha` is bound to its function.
proof fn lemma_boolean_5(t: TableV)
    ensures
        with_boolean_builtins(t).natives.contains_pair(("=alpha"@, 2u8), Builtin::AlphaEqual),
{
    reveal_strlit("=alpha");
    assert("=alpha"@.len() == 6);
    let rows = boolean_rows();
    assert(rows[5] == ("=alpha"@, 2u8, Builtin::AlphaEqual, rows[5].3));
    lemma_row_found(marked_operators(with_truths(t, truth_table())), rows, 5);
}

/// The functions that compare values are found under their names once they are registered.
pub proof fn comparison_names_are_bound(t: TableV)
    ensures
        with_boolean_builtins(t).natives.contains_pair(("=="@, 2u8), Builtin::Equal),
        with_boolean_builtins(t).natives.contains_pair(("!="@, 2u8), Builtin::NotEqual),
        with_boolean_builtins(t).natives.contains_pair(("="@, 2u8), Builtin::Equal),
        with_boolean_builtins(t).natives.contains_pair(("=?"@, 2u8), Builtin::Equal),
        with_boolean_builtins(t).natives.contains_pair(("same"@, 2u8), Builtin::Equal),
        with_boolean_builtins(t).natives.contains_pair(("=alpha"@, 2u8), Builtin::AlphaEqual),
{
    lemma_boolean_0(t);
    lemma_boolean_1(t);
    lemma_boolean_2(t);
    lemma_boolean_3(t);
    lemma_boolean_4(t);
    lemma_boolean_5(t);
}

/// `size-atom` is bound to its function.
proof fn lemma_collections_0(t: TableV)
    ensures
        with_collection_builtins(t).natives.contains_pair(("size-atom"@, 1u8), Builtin::Size),
{
    reveal_strlit("size-atom");
    reveal_strlit("length");
    reveal_strlit("car-atom");
    reveal_strlit("car");
    reveal_strlit("cdr-atom");
    reveal_strlit("cdr");
    reveal_strlit("decons-atom");
    reveal_strlit("decons");
    reveal_strlit("reverse");
    reveal_strlit("id");
    reveal_strlit("first-from-pair");
    reveal_strlit("first");
    reveal_strlit("second-from-pair");
    reveal_strlit("second");
    reveal_strlit("last");
    reveal_strlit("msort");
    reveal_strlit("sort");
    reveal_strlit("sort-atom");
    reveal_strlit("unique-atom");
    reveal_strlit("alpha-unique-atom");
    reveal_strlit("list_to_set");
    reveal_strlit("atom_chars");
    reveal_strlit("term_hash");
    assert("size-atom"@.len() == 9);
    assert("length"@.len() == 6);
    assert("car-atom"@.len() == 8);
    assert("car"@.len() == 3);
    assert("cdr-atom"@.len() == 8);
    assert("cdr"@.len() == 3);
    assert("decons-atom"@.len() == 11);
    assert("decons"@.len() == 6);
    assert("reverse"@.len() == 7);
    assert("id"@.len() == 2);
    assert("first-from-pair"@.len() == 15);
    assert("first"@.len() == 5);
    assert("second-from-pair"@.len() == 16);
    assert("second"@.len() == 6);
    assert("last"@.len() == 4);
    assert("msort"@.len() == 5);
    assert("sort"@.len() == 4);
    assert("sort-atom"@.len() == 9);
    assert("unique-atom"@.len() == 11);
    assert("alpha-unique-atom"@.len() == 17);
    assert("list_to_set"@.len() == 11);
    assert("atom_chars"@.len() == 10);
    assert("term_hash"@.len() == 9);
    assert("size-atom"@[1] != "sort-atom"@[1]);
    assert("size-atom"@[0] != "term_hash"@[0]);
    let rows = collection_rows();
    assert(rows[0] == ("size-atom"@, 1u8, Builtin::Size, rows[0].3));
    lemma_row_found(t, rows, 0);
}

/// `length` is bound to its function.
proof fn lemma_collections_1(t: TableV)
    ensures
        with_collection_builtins(t).natives.contains_pair(("length"@, 1u8), Builtin::Size),
{
    reveal_strlit("length");
    reveal_strlit("car-atom");
    reveal_strlit("car");
    reveal_strlit("cdr-atom");
    reveal_strlit("cdr");
    reveal_strlit("decons-atom");
    reveal_strlit("decons");
    reveal_strlit("reverse");
    reveal_strlit("id");
    reveal_strlit("first-from-pair");
    reveal_strlit("first");
    reveal_strlit("second-from-pair");
    reveal_strlit("second");
    reveal_strlit("last");
    reveal_strlit("msort");
    reveal_strlit("sort");
    reveal_strlit("sort-atom");
    reveal_strlit("unique-atom");
    reveal_strlit("alpha-unique-atom");
    reveal_strlit("list_to_set");
    reveal_strlit("atom_chars");
    reveal_strlit("term_hash");
    assert("length"@.len() == 6);
    assert("car-atom"@.len() == 8);
    assert("car"@.len() == 3);
    assert("cdr-atom"@.len() == 8);
    assert("cdr"@.len() == 3);
    assert("decons-atom"@.len() == 11);
    assert("decons"@.len() == 6);
    assert("reverse"@.len() == 7);
    assert("id"@.len() == 2);
    assert("first-from-pair"@.len() == 15);
    assert("first"@.len() == 5);
    assert("second-from-pair"@.len() == 16);
    assert("second"@.len() == 6);
    assert("last"@.len() == 4);
    assert("msort"@.len() == 5);
    assert("sort"@.len() == 4);
    assert("sort-atom"@.len() == 9);
    assert("unique-atom"@.len() == 11);
    assert("alpha-unique-atom"@.len() == 17);
    assert("list_to_set"@.len() == 11);
    assert("atom_chars"@.len() == 10);
    assert("term_hash"@.len() == 9);
    assert("length"@[0] != "decons"@[0]);
    assert("length"@[0] != "second"@[0]);
    let rows = collection_rows();
    assert(rows[1] == ("length"@, 1u8, Builtin::Size, rows[1].3));
    lemma_row_found(t, rows, 1);
}

/// `car-atom` is bound to its function.
proof fn lemma_collections_2(t: TableV)
    ensures
        with_collection_builtins(t).natives.contains_pair(("car-atom"@, 1u8), Builtin::HeadOrNone),
{
    reveal_strlit("car-atom");
    reveal_strlit("car");
    reveal_strlit("cdr-atom");
    reveal_strlit("cdr");
    reveal_strlit("decons-atom");
    reveal_strlit("decons");
    reveal_strlit("reverse");
    reveal_strlit("id");
    reveal_strlit("first-from-pair");
    reveal_strlit("first");
    reveal_strlit("second-from-pair");
    reveal_strlit("second");
    reveal_strlit("last");
    reveal_strlit("msort");
    reveal_strlit("sort");
    reveal_strlit("sort-atom");
    reveal_strlit("unique-atom");
    reveal_strlit("alpha-unique-atom");
    reveal_strlit("list_to_set");
    reveal_strlit("atom_chars");
    reveal_strlit("term_hash");
    assert("car-atom"@.len() == 8);
    assert("car"@.len() == 3);
    assert("cdr-atom"@.len() == 8);
    assert("cdr"@.len() == 3);
    assert("decons-atom"@.len() == 11);
    assert("decons"@.len() == 6);
    assert("reverse"@.len() == 7);
    assert("id"@.len() == 2);
    assert("first-from-pair"@.len() == 15);
    assert("first"@.len() == 5);
    assert("second-from-pair"@.len() == 16);
    assert("second"@.len() == 6);
    assert("last"@.len() == 4);
    assert("msort"@.len() == 5);
    assert("sort"@.len() == 4);
    assert("sort-atom"@.len() == 9);
    assert("unique-atom"@.len() == 11);
    assert("alpha-unique-atom"@.len() == 17);
    assert("list_to_set"@.len() == 11);
    assert("atom_chars"@.len() == 10);
    assert("term_hash"@.len() == 9);
    assert("car-atom"@[1] != "cdr-atom"@[1]);
    let rows = collection_rows();
    assert(rows[2] == ("car-atom"@, 1u8, Builtin::HeadOrNone, rows[2].3));
    lemma_row_found(t, rows, 2);
}

/// `car` is bound to its function.
proof fn lemma_collections_3(t: TableV)
    ensures
        with_collection_builtins(t).natives.contains_pair(("car"@, 1u8), Builtin::Head),
{
    reveal_strlit("car");
    reveal_strlit("cdr-atom");
    reveal_strlit("cdr");
    reveal_strlit("decons-atom");
    reveal_strlit("decons");
    reveal_strlit("reverse");
    reveal_strlit("id");
    reveal_strlit("first-from-pair");
    reveal_strlit("first");
    reveal_strlit("second-from-pair");
    reveal_strlit("second");
    reveal_strlit("last");
    reveal_strlit("msort");
    reveal_strlit("sort");
    reveal_strlit("sort-atom");
    reveal_strlit("unique-atom");
    reveal_strlit("alpha-unique-atom");
    reveal_strlit("list_to_set");
    reveal_strlit("atom_chars");
    reveal_strlit("term_hash");
    assert("car"@.len() == 3);
    assert("cdr-atom"@.len() == 8);
    assert("cdr"@.len() == 3);
    assert("decons-atom"@.len() == 11);
    assert("decons"@.len() == 6);
    assert("reverse"@.len() == 7);
    assert("id"@.len() == 2);
    assert("first-from-pair"@.len() == 15);
    assert("first"@.len() == 5);
    assert("second-from-pair"@.len() == 16);
    assert("second"@.len() == 6);
    assert("last"@.len() == 4);
    assert("msort"@.len() == 5);
    assert("sort"@.len() == 4);
    assert("sort-atom"@.len() == 9);
    assert("unique-atom"@.len() == 11);
    assert("alpha-unique-atom"@.len() == 17);
    assert("list_to_set"@.len() == 11);
    assert("atom_chars"@.len() == 10);
    assert("term_hash"@.len() == 9);
    assert("car"@[1] != "cdr"@[1]);
    let rows = collection_rows();
    assert(rows[3] == ("car"@, 1u8, Builtin::Head, rows[3].3));
    lemma_row_found(t, rows, 3);
}

/// `cdr-atom` is bound to its function.
proof fn lemma_collections_4(t: TableV)
    ensures
        with_collection_builtins(t).natives.contains_pair(("cdr-atom"@, 1u8), Builtin::TailOrNone),
{
    reveal_strlit("cdr-atom");
    reveal_strlit("cdr");
    reveal_strlit("decons-atom");
    reveal_strlit("decons");
    reveal_strlit("reverse");
    reveal_strlit("id");
    reveal_strlit("first-from-pair");
    reveal_strlit("first");
    reveal_strlit("second-from-pair");
    reveal_strlit("second");
    reveal_strlit("last");
    reveal_strlit("msort");
    reveal_strlit("sort");
    reveal_strlit("sort-atom");
    reveal_strlit("unique-atom");
    reveal_strlit("alpha-unique-atom");
    reveal_strlit("list_to_set");
    reveal_strlit("atom_chars");
    reveal_strlit("term_hash");
    assert("cdr-atom"@.len() == 8);
    assert("cdr"@.len() == 3);
    assert("decons-atom"@.len() == 11);
    assert("decons"@.len() == 6);
    assert("reverse"@.len() == 7);
    assert("id"@.len() == 2);
    assert("first-from-pair"@.len() == 15);
    assert("first"@.len() == 5);
    assert("second-from-pair"@.len() == 16);
    assert("second"@.len() == 6);
    assert("last"@.len() == 4);
    assert("msort"@.len() == 5);
    assert("sort"@.len() == 4);
    assert("sort-atom"@.len() == 9);
    assert("unique-atom"@.len() == 11);
    assert("alpha-unique-atom"@.len() == 17);
    assert("list_to_set"@.len() == 11);
    assert("atom_chars"@.len() == 10);
    assert("term_hash"@.len() == 9);
    let rows = collection_rows();
    assert(rows[4] == ("cdr-atom"@, 1u8, Builtin::TailOrNone, rows[4].3));
    lemma_row_found(t, rows, 4);
}

/// `cdr` is bound to its function.
proof fn lemma_collections_5(t: TableV)
    ensures
        with_collection_builtins(t).natives.contains_pair(("cdr"@, 1u8), Builtin::Tail),
{
    reveal_strlit("cdr");
    reveal_strlit("decons-atom");
    reveal_strlit("decons");
    reveal_strlit("reverse");
    reveal_strlit("id");
    reveal_strlit("first-from-pair");
    reveal_strlit("first");
    reveal_strlit("second-from-pair");
    reveal_strlit("second");
    reveal_strlit("last");
    reveal_strlit("msort");
    reveal_strlit("sort");
    reveal_strlit("sort-atom");
    reveal_strlit("unique-atom");
    reveal_strlit("alpha-unique-atom");
    reveal_strlit("list_to_set");
    reveal_strlit("atom_chars");
    reveal_strlit("term_hash");
    assert("cdr"@.len() == 3);
    assert("decons-atom"@.len() == 11);
    assert("decons"@.len() == 6);
    assert("reverse"@.len() == 7);
    assert("id"@.len() == 2);
    assert("first-from-pair"@.len() == 15);
    assert("first"@.len() == 5);
    assert("second-from-pair"@.len() == 16);
    assert("second"@.len() == 6);
    assert("last"@.len() == 4);
    assert("msort"@.len() == 5);
    assert("sort"@.len() == 4);
    assert("sort-atom"@.len() == 9);
    assert("unique-atom"@.len() == 11);
    assert("alpha-unique-atom"@.len() == 17);
    assert("list_to_set"@.len() == 11);
    assert("atom_chars"@.len() == 10);
    assert("term_hash"@.len() == 9);
    let rows = collection_rows();
    assert(rows[5] == ("cdr"@, 1u8, Builtin::Tail, rows[5].3));
    lemma_row_found(t, rows, 5);
}

/// `cons-atom` is bound to its function.
proof fn lemma_collections_6(t: TableV)
    ensures
        with_collection_builtins(t).natives.contains_pair(("cons-atom"@, 2u8), Builtin::Cons),
{
    reveal_strlit("cons-atom");
    reveal_strlit("cons");
    reveal_strlit("append");
    reveal_strlit("index-atom");
    reveal_strlit("is-member");
    reveal_strlit("exclude-item");
    reveal_strlit("union-atom");
    reveal_strlit("intersection-atom");
    reveal_strlit("subtraction-atom");
    reveal_strlit("map-atom");
    reveal_strlit("maplist");
    reveal_strlit("filter-atom");
    reveal_strlit("concat");
    reveal_strlit("atom_concat");
    assert("cons-atom"@.len() == 9);
    assert("cons"@.len() == 4);
    assert("append"@.len() == 6);
    assert("index-atom"@.len() == 10);
    assert("is-member"@.len() == 9);
    assert("exclude-item"@.len() == 12);
    assert("union-atom"@.len() == 10);
    assert("intersection-atom"@.len() == 17);
    assert("subtraction-atom"@.len() == 16);
    assert("map-atom"@.len() == 8);
    assert("maplist"@.len() == 7);
    assert("filter-atom"@.len() == 11);
    assert("concat"@.len() == 6);
    assert("atom_concat"@.len() == 11);
    assert("cons-atom"@[0] != "is-member"@[0]);
    let rows = collection_rows();
    assert(rows[6] == ("cons-atom"@, 2u8, Builtin::Cons, rows[6].3));
    lemma_row_found(t, rows, 6);
}

/// `cons` is bound to its function.
proof fn lemma_collections_7(t: TableV)
    ensures
        with_collection_builtins(t).natives.contains_pair(("cons"@, 2u8), Builtin::Cons),
{
    reveal_strlit("cons");
    reveal_strlit("append");
    reveal_strlit("index-atom");
    reveal_strlit("is-member");
    reveal_strlit("exclude-item");
    reveal_strlit("union-atom");
    reveal_strlit("intersection-atom");
    reveal_strlit("subtraction-atom");
    reveal_strlit("map-atom");
    reveal_strlit("maplist");
    reveal_strlit("filter-atom");
    reveal_strlit("concat");
    reveal_strlit("atom_concat");
    assert("cons"@.len() == 4);
    assert("append"@.len() == 6);
    assert("index-atom"@.len() == 10);
    assert("is-member"@.len() == 9);
    assert("exclude-item"@.len() == 12);
    assert("union-atom"@.len() == 10);
    assert("intersection-atom"@.len() == 17);
    assert("subtraction-atom"@.len() == 16);
    assert("map-atom"@.len() == 8);
    assert("maplist"@.len() == 7);
    assert("filter-atom"@.len() == 11);
    assert("concat"@.len() == 6);
    assert("atom_concat"@.len() == 11);
    let rows = collection_rows();
    assert(rows[7] == ("cons"@, 2u8, Builtin::Cons, rows[7].3));
    lemma_row_found(t, rows, 7);
}

/// `decons-atom` is bound to its function.
proof fn lemma_collections_8(t: TableV)
    ensures
        with_collection_builtins(t).natives.contains_pair(("decons-atom"@, 1u8), Builtin::Decons),
{
    reveal_strlit("decons-atom");
    reveal_strlit("decons");
    reveal_strlit("reverse");
    reveal_strlit("id");
    reveal_strlit("first-from-pair");
    reveal_strlit("first");
    reveal_strlit("second-from-pair");
    reveal_strlit("second");
    reveal_strlit("last");
    reveal_strlit("msort");
    reveal_strlit("sort");
    reveal_strlit("sort-atom");
    reveal_strlit("unique-atom");
    reveal_strlit("alpha-unique-atom");
    reveal_strlit("list_to_set");
    reveal_strlit("atom_chars");
    reveal_strlit("term_hash");
    assert("decons-atom"@.len() == 11);
    assert("decons"@.len() == 6);
    assert("reverse"@.len() == 7);
    assert("id"@.len() == 2);
    assert("first-from-pair"@.len() == 15);
    assert("first"@.len() == 5);
    assert("second-from-pair"@.len() == 16);
    assert("second"@.len() == 6);
    assert("last"@.len() == 4);
    assert("msort"@.len() == 5);
    assert("sort"@.len() == 4);
    assert("sort-atom"@.len() == 9);
    assert("unique-atom"@.len() == 11);
    assert("alpha-unique-atom"@.len() == 17);
    assert("list_to_set"@.len() == 11);
    assert("atom_chars"@.len() == 10);
    assert("term_hash"@.len() == 9);
    assert("decons-atom"@[0] != "unique-atom"@[0]);
    assert("decons-atom"@[0] != "list_to_set"@[0]);
    let rows = collection_rows();
    assert(rows[8] == ("decons-atom"@, 1u8, Builtin::Decons, rows[8].3));
    lemma_row_found(t, rows, 8);
}

/// `decons` is bound to its function.
proof fn lemma_collections_9(t: TableV)
    ensures
        with_collection_builtins(t).natives.contains_pair(("decons"@, 1u8), Builtin::Decons),
{
    reveal_strlit("decons");
    reveal_strlit("reverse");
    reveal_strlit("id");
    reveal_strlit("first-from-pair");
    reveal_strlit("first");
    reveal_strlit("second-from-pair");
    reveal_strlit("second");
    reveal_strlit("last");
    reveal_strlit("msort");
    reveal_strlit("sort");
    reveal_strlit("sort-atom");
    reveal_strlit("unique-atom");
    reveal_strlit("alpha-unique-atom");
    reveal_strlit("list_to_set");
    reveal_strlit("atom_chars");
    reveal_strlit("term_hash");
    assert("decons"@.len() == 6);
    assert("reverse"@.len() == 7);
    assert("id"@.len() == 2);
    assert("first-from-pair"@.len() == 15);
    assert("first"@.len() == 5);
    assert("second-from-pair"@.len() == 16);
    assert("second"@.len() == 6);
    assert("last"@.len() == 4);
    assert("msort"@.len() == 5);
    assert("sort"@.len() == 4);
    assert("sort-atom"@.len() == 9);
    assert("unique-atom"@.len() == 11);
    assert("alpha-unique-atom"@.len() == 17);
    assert("list_to_set"@.len() == 11);
    assert("atom_chars"@.len() == 10);
    assert("term_hash"@.len() == 9);
    assert("decons"@[0] != "second"@[0]);
    let rows = collection_rows();
    assert(rows[9] == ("decons"@, 1u8, Builtin::Decons, rows[9].3));
    lemma_row_found(t, rows, 9);
}

/// `append` is bound to its function.
proof fn lemma_collections_10(t: TableV)
    ensures
        with_collection_builtins(t).natives.contains_pair(("append"@, 2u8), Builtin::Append),
{
    reveal_strlit("append");
    reveal_strlit("index-atom");
    reveal_strlit("is-member");
    reveal_strlit("exclude-item");
    reveal_strlit("union-atom");
    reveal_strlit("intersection-atom");
    reveal_strlit("subtraction-atom");
    reveal_strlit("map-atom");
    reveal_strlit("maplist");
    reveal_strlit("filter-atom");
    reveal_strlit("concat");
    reveal_strlit("atom_concat");
    assert("append"@.len() == 6);
    assert("index-atom"@.len() == 10);
    assert("is-member"@.len() == 9);
    assert("exclude-item"@.len() == 12);
    assert("union-atom"@.len() == 10);
    assert("intersection-atom"@.len() == 17);
    assert("subtraction-atom"@.len() == 16);
    assert("map-atom"@.len() == 8);
    assert("maplist"@.len() == 7);
    assert("filter-atom"@.len() == 11);
    assert("concat"@.len() == 6);
    assert("atom_concat"@.len() == 11);
    assert("append"@[0] != "concat"@[0]);
    let rows = collection_rows();
    assert(rows[10] == ("append"@, 2u8, Builtin::Append, rows[10].3));
    lemma_row_found(t, rows, 10);
}

/// `reverse` is bound to its function.
proof fn lemma_collections_11(t: TableV)
    ensures
        with_collection_builtins(t).natives.contains_pair(("reverse"@, 1u8), Builtin::Reverse),
{
    reveal_strlit("reverse");
    reveal_strlit("id");
    reveal_strlit("first-from-pair");
    reveal_strlit("first");
    reveal_strlit("second-from-pair");
    reveal_strlit("second");
    reveal_strlit("last");
    reveal_strlit("msort");
    reveal_strlit("sort");
    reveal_strlit("sort-atom");
    reveal_strlit("unique-atom");
    reveal_strlit("alpha-unique-atom");
    reveal_strlit("list_to_set");
    reveal_strlit("atom_chars");
    reveal_strlit("term_hash");
    assert("reverse"@.len() == 7);
    assert("id"@.len() == 2);
    assert("first-from-pair"@.len() == 15);
    assert("first"@.len() == 5);
    assert("second-from-pair"@.len() == 16);
    assert("second"@.len() == 6);
    assert("last"@.len() == 4);
    assert("msort"@.len() == 5);
    assert("sort"@.len() == 4);
    assert("sort-atom"@.len() == 9);
    assert("unique-atom"@.len() == 11);
    assert("alpha-unique-atom"@.len() == 17);
    assert("list_to_set"@.len() == 11);
    assert("atom_chars"@.len() == 10);
    assert("term_hash"@.len() == 9);
    let rows = collection_rows();
    assert(rows[11] == ("reverse"@, 1u8, Builtin::Reverse, rows[11].3));
    lemma_row_found(t, rows, 11);
}

/// `index-atom` is bound to its function.
proof fn lemma_collections_12(t: TableV)
    ensures
        with_collection_builtins(t).natives.contains_pair(("index-atom"@, 2u8), Builtin::Index),
{
    reveal_strlit("index-atom");
    reveal_strlit("is-member");
    reveal_strlit("exclude-item");
    reveal_strlit("union-atom");
    reveal_strlit("intersection-atom");
    reveal_strlit("subtraction-atom");
    reveal_strlit("map-atom");
    reveal_strlit("maplist");
    reveal_strlit("filter-atom");
    reveal_strlit("concat");
    reveal_strlit("atom_concat");
    assert("index-atom"@.len() == 10);
    assert("is-member"@.len() == 9);
    assert("exclude-item"@.len() == 12);
    assert("union-atom"@.len() == 10);
    assert("intersection-atom"@.len() == 17);
    assert("subtraction-atom"@.len() == 16);
    assert("map-atom"@.len() == 8);
    assert("maplist"@.len() == 7);
    assert("filter-atom"@.len() == 11);
    assert("concat"@.len() == 6);
    assert("atom_concat"@.len() == 11);
    assert("index-atom"@[0] != "union-atom"@[0]);
    let rows = collection_rows();
    assert(rows[12] == ("index-atom"@, 2u8, Builtin::Index, rows[12].3));
    lemma_row_found(t, rows, 12);
}

/// `id` is bound to its function.
proof fn lemma_collections_13(t: TableV)
    ensures
        with_collection_builtins(t).natives.contains_pair(("id"@, 1u8), Builtin::Id),
{
    reveal_strlit("id");
    reveal_strlit("first-from-pair");
    reveal_strlit("first");
    reveal_strlit("second-from-pair");
    reveal_strlit("second");
    reveal_strlit("last");
    reveal_strlit("msort");
    reveal_strlit("sort");
    reveal_strlit("sort-atom");
    reveal_strlit("unique-atom");
    reveal_strlit("alpha-unique-atom");
    reveal_strlit("list_to_set");
    reveal_strlit("atom_chars");
    reveal_strlit("term_hash");
    assert("id"@.len() == 2);
    assert("first-from-pair"@.len() == 15);
    assert("first"@.len() == 5);
    assert("second-from-pair"@.len() == 16);
    assert("second"@.len() == 6);
    assert("last"@.len() == 4);
    assert("msort"@.len() == 5);
    assert("sort"@.len() == 4);
    assert("sort-atom"@.len() == 9);
    assert("unique-atom"@.len() == 11);
    assert("alpha-unique-atom"@.len() == 17);
    assert("list_to_set"@.len() == 11);
    assert("atom_chars"@.len() == 10);
    assert("term_hash"@.len() == 9);
    let rows = collection_rows();
    assert(rows[13] == ("id"@, 1u8, Builtin::Id, rows[13].3));
    lemma_row_found(t, rows, 13);
}

/// `first-from-pair` is bound to its function.
proof fn lemma_collections_14(t: TableV)
    ensures
        with_collection_builtins(t).natives.contains_pair(("first-from-pair"@, 1u8), Builtin::Head),
{
    reveal_strlit("first-from-pair");
    reveal_strlit("first");
    reveal_strlit("second-from-pair");
    reveal_strlit("second");
    reveal_strlit("last");
    reveal_strlit("msort");
    reveal_strlit("sort");
    reveal_strlit("sort-atom");
    reveal_strlit("unique-atom");
    reveal_strlit("alpha-unique-atom");
    reveal_strlit("list_to_set");
    reveal_strlit("atom_chars");
    reveal_strlit("term_hash");
    assert("first-from-pair"@.len() == 15);
    assert("first"@.len() == 5);
    assert("second-from-pair"@.len() == 16);
    assert("second"@.len() == 6);
    assert("last"@.len() == 4);
    assert("msort"@.len() == 5);
    assert("sort"@.len() == 4);
    assert("sort-atom"@.len() == 9);
    assert("unique-atom"@.len() == 11);
    assert("alpha-unique-atom"@.len() == 17);
    assert("list_to_set"@.len() == 11);
    assert("atom_chars"@.len() == 10);
    assert("term_hash"@.len() == 9);
    let rows = collection_rows();
    assert(rows[14] == ("first-from-pair"@, 1u8, Builtin::Head, rows[14].3));
    lemma_row_found(t, rows, 14);
}

/// `first` is bound to its function.
proof fn lemma_collections_15(t: TableV)
    ensures
        with_collection_builtins(t).natives.contains_pair(("first"@, 1u8), Builtin::Head),
{
    reveal_strlit("first");
    reveal_strlit("second-from-pair");
    reveal_strlit("second");
    reveal_strlit("last");
    reveal_strlit("msort");
    reveal_strlit("sort");
    reveal_strlit("sort-atom");
    reveal_strlit("unique-atom");
    reveal_strlit("alpha-unique-atom");
    reveal_strlit("list_to_set");
    reveal_strlit("atom_chars");
    reveal_strlit("term_hash");
    assert("first"@.len() == 5);
    assert("second-from-pair"@.len() == 16);
    assert("second"@.len() == 6);
    assert("last"@.len() == 4);
    assert("msort"@.len() == 5);
    assert("sort"@.len() == 4);
    assert("sort-atom"@.len() == 9);
    assert("unique-atom"@.len() == 11);
    assert("alpha-unique-atom"@.len() == 17);
    assert("list_to_set"@.len() == 11);
    assert("atom_chars"@.len() == 10);
    assert("term_hash"@.len() == 9);
    assert("first"@[0] != "msort"@[0]);
    let rows = collection_rows();
    assert(rows[15] == ("first"@, 1u8, Builtin::Head, rows[15].3));
    lemma_row_found(t, rows, 15);
}

/// `second-from-pair` is bound to its function.
proof fn lemma_collections_16(t: TableV)
    ensures
        with_collection_builtins(t).natives.contains_pair(("second-from-pair"@, 1u8), Builtin::Second),
{
    reveal_strlit("second-from-pair");
    reveal_strlit("second");
    reveal_strlit("last");
    reveal_strlit("msort");
    reveal_strlit("sort");
    reveal_strlit("sort-atom");
    reveal_strlit("unique-atom");
    reveal_strlit("alpha-unique-atom");
    reveal_strlit("list_to_set");
    reveal_strlit("atom_chars");
    reveal_strlit("term_hash");
    assert("second-from-pair"@.len() == 16);
    assert("second"@.len() == 6);
    assert("last"@.len() == 4);
    assert("msort"@.len() == 5);
    assert("sort"@.len() == 4);
    assert("sort-atom"@.len() == 9);
    assert("unique-atom"@.len() == 11);
    assert("alpha-unique-atom"@.len() == 17);
    assert("list_to_set"@.len() == 11);
    assert("atom_chars"@.len() == 10);
    assert("term_hash"@.len() == 9);
    let rows = collection_rows();
    assert(rows[16] == ("second-from-pair"@, 1u8, Builtin::Second, rows[16].3));
    lemma_row_found(t, rows, 16);
}

/// `second` is bound to its function.
proof fn lemma_collections_17(t: TableV)
    ensures
        with_collection_builtins(t).natives.contains_pair(("second"@, 1u8), Builtin::Second),
{
    reveal_strlit("second");
    reveal_strlit("last");
    reveal_strlit("msort");
    reveal_strlit("sort");
    reveal_strlit("sort-atom");
    reveal_strlit("unique-atom");
    reveal_strlit("alpha-unique-atom");
    reveal_strlit("list_to_set");
    reveal_strlit("atom_chars");
    reveal_strlit("term_hash");
    assert("second"@.len() == 6);
    assert("last"@.len() == 4);
    assert("msort"@.len() == 5);
    assert("sort"@.len() == 4);
    assert("sort-atom"@.len() == 9);
    assert("unique-atom"@.len() == 11);
    assert("alpha-unique-atom"@.len() == 17);
    assert("list_to_set"@.len() == 11);
    assert("atom_chars"@.len() == 10);
    assert("term_hash"@.len() == 9);
    let rows = collection_rows();
    assert(rows[17] == ("second"@, 1u8, Builtin::Second, rows[17].3));
    lemma_row_found(t, rows, 17);
}

/// `last` is bound to its function.
proof fn lemma_collections_18(t: TableV)
    ensures
        with_collection_builtins(t).natives.contains_pair(("last"@, 1u8), Builtin::Last),
{
    reveal_strlit("last");
    reveal_strlit("msort");
    reveal_strlit("sort");
    reveal_strlit("sort-atom");
    reveal_strlit("unique-atom");
    reveal_strlit("alpha-unique-atom");
    reveal_strlit("list_to_set");
    reveal_strlit("atom_chars");
    reveal_strlit("term_hash");
    assert("last"@.len() == 4);
    assert("msort"@.len() == 5);
    assert("sort"@.len() == 4);
    assert("sort-atom"@.len() == 9);
    assert("unique-atom"@.len() == 11);
    assert("alpha-unique-atom"@.len() == 17);
    assert("list_to_set"@.len() == 11);
    assert("atom_chars"@.len() == 10);
    assert("term_hash"@.len() == 9);
    assert("last"@[0] != "sort"@[0]);
    let rows = collection_rows();
    assert(rows[18] == ("last"@, 1u8, Builtin::Last, rows[18].3));
    lemma_row_found(t, rows, 18);
}

/// `msort` is bound to its function.
proof fn lemma_collections_19(t: TableV)
    ensures
        with_collection_builtins(t).natives.contains_pair(("msort"@, 1u8), Builtin::SortText),
{
    reveal_strlit("msort");
    reveal_strlit("sort");
    reveal_strlit("sort-atom");
    reveal_strlit("unique-atom");
    reveal_strlit("alpha-unique-atom");
    reveal_strlit("list_to_set");
    reveal_strlit("atom_chars");
    reveal_strlit("term_hash");
    assert("msort"@.len() == 5);
    assert("sort"@.len() == 4);
    assert("sort-atom"@.len() == 9);
    assert("unique-atom"@.len() == 11);
    assert("alpha-unique-atom"@.len() == 17);
    assert("list_to_set"@.len() == 11);
    assert("atom_chars"@.len() == 10);
    assert("term_hash"@.len() == 9);
    let rows = collection_rows();
    assert(rows[19] == ("msort"@, 1u8, Builtin::SortText, rows[19].3));
    lemma_row_found(t, rows, 19);
}

/// `sort` is bound to its function.
proof fn lemma_collections_20(t: TableV)
    ensures
        with_collection_builtins(t).natives.contains_pair(("sort"@, 1u8), Builtin::SortUnique),
{
    reveal_strlit("sort");
    reveal_strlit("sort-atom");
    reveal_strlit("unique-atom");
    reveal_strlit("alpha-unique-atom");
    reveal_strlit("list_to_set");
    reveal_strlit("atom_chars");
    reveal_strlit("term_hash");
    assert("sort"@.len() == 4);
    assert("sort-atom"@.len() == 9);
    assert("unique-atom"@.len() == 11);
    assert("alpha-unique-atom"@.len() == 17);
    assert("list_to_set"@.len() == 11);
    assert("atom_chars"@.len() == 10);
    assert("term_hash"@.len() == 9);
    let rows = collection_rows();
    assert(rows[20] == ("sort"@, 1u8, Builtin::SortUnique, rows[20].3));
    lemma_row_found(t, rows, 20);
}

/// `sort-atom` is bound to its function.
proof fn lemma_collections_21(t: TableV)
    ensures
        with_collection_builtins(t).natives.contains_pair(("sort-atom"@, 1u8), Builtin::SortText),
{
    reveal_strlit("sort-atom");
    reveal_strlit("unique-atom");
    reveal_strlit("alpha-unique-atom");
    reveal_strlit("list_to_set");
    reveal_strlit("atom_chars");
    reveal_strlit("term_hash");
    assert("sort-atom"@.len() == 9);
    assert("unique-atom"@.len() == 11);
    assert("alpha-unique-atom"@.len() == 17);
    assert("list_to_set"@.len() == 11);
    assert("atom_chars"@.len() == 10);
    assert("term_hash"@.len() == 9);
    assert("sort-atom"@[0] != "term_hash"@[0]);
    let rows = collection_rows();
    assert(rows[21] == ("sort-atom"@, 1u8, Builtin::SortText, rows[21].3));
    lemma_row_found(t, rows, 21);
}

/// `is-member` is bound to its function.
proof fn lemma_collections_22(t: TableV)
    ensures
        with_collection_builtins(t).natives.contains_pair(("is-member"@, 2u8), Builtin::Member),
{
    reveal_strlit("is-member");
    reveal_strlit("exclude-item");
    reveal_strlit("union-atom");
    reveal_strlit("intersection-atom");
    reveal_strlit("subtraction-atom");
    reveal_strlit("map-atom");
    reveal_strlit("maplist");
    reveal_strlit("filter-atom");
    reveal_strlit("concat");
    reveal_strlit("atom_concat");
    assert("is-member"@.len() == 9);
    assert("exclude-item"@.len() == 12);
    assert("union-atom"@.len() == 10);
    assert("intersection-atom"@.len() == 17);
    assert("subtraction-atom"@.len() == 16);
    assert("map-atom"@.len() == 8);
    assert("maplist"@.len() == 7);
    assert("filter-atom"@.len() == 11);
    assert("concat"@.len() == 6);
    assert("atom_concat"@.len() == 11);
    let rows = collection_rows();
    assert(rows[22] == ("is-member"@, 2u8, Builtin::Member, rows[22].3));
    lemma_row_found(t, rows, 22);
}

/// `exclude-item` is bound to its function.
proof fn lemma_collections_23(t: TableV)
    ensures
        with_collection_builtins(t).natives.contains_pair(("exclude-item"@, 2u8), Builtin::Exclude),
{
    reveal_strlit("exclude-item");
    reveal_strlit("union-atom");
    reveal_strlit("intersection-atom");
    reveal_strlit("subtraction-atom");
    reveal_strlit("map-atom");
    reveal_strlit("maplist");
    reveal_strlit("filter-atom");
    reveal_strlit("concat");
    reveal_strlit("atom_concat");
    assert("exclude-item"@.len() == 12);
    assert("union-atom"@.len() == 10);
    assert("intersection-atom"@.len() == 17);
    assert("subtraction-atom"@.len() == 16);
    assert("map-atom"@.len() == 8);
    assert("maplist"@.len() == 7);
    assert("filter-atom"@.len() == 11);
    assert("concat"@.len() == 6);
    assert("atom_concat"@.len() == 11);
    let rows = collection_rows();
    assert(rows[23] == ("exclude-item"@, 2u8, Builtin::Exclude, rows[23].3));
    lemma_row_found(t, rows, 23);
}

/// `unique-atom` is bound to its function.
proof fn lemma_collections_24(t: TableV)
    ensures
        with_collection_builtins(t).natives.contains_pair(("unique-atom"@, 1u8), Builtin::Unique),
{
    reveal_strlit("unique-atom");
    reveal_strlit("alpha-unique-atom");
    reveal_strlit("list_to_set");
    reveal_strlit("atom_chars");
    reveal_strlit("term_hash");
    assert("unique-atom"@.len() == 11);
    assert("alpha-unique-atom"@.len() == 17);
    assert("list_to_set"@.len() == 11);
    assert("atom_chars"@.len() == 10);
    assert("term_hash"@.len() == 9);
    assert("unique-atom"@[0] != "list_to_set"@[0]);
    let rows = collection_rows();
    assert(rows[24] == ("unique-atom"@, 1u8, Builtin::Unique, rows[24].3));
    lemma_row_found(t, rows, 24);
}

/// `alpha-unique-atom` is bound to its function.
proof fn lemma_collections_25(t: TableV)
    ensures
        with_collection_builtins(t).natives.contains_pair(("alpha-unique-atom"@, 1u8), Builtin::AlphaUnique),
{
    reveal_strlit("alpha-unique-atom");
    reveal_strlit("list_to_set");
    reveal_strlit("atom_chars");
    reveal_strlit("term_hash");
    assert("alpha-unique-atom"@.len() == 17);
    assert("list_to_set"@.len() == 11);
    assert("atom_chars"@.len() == 10);
    assert("term_hash"@.len() == 9);
    let rows = collection_rows();
    assert(rows[25] == ("alpha-unique-atom"@, 1u8, Builtin::AlphaUnique, rows[25].3));
    lemma_row_found(t, rows, 25);
}

/// `union-atom` is bound to its function.
proof fn lemma_collections_26(t: TableV)
    ensures
        with_collection_builtins(t).natives.contains_pair(("union-atom"@, 2u8), Builtin::Append),
{
    reveal_strlit("union-atom");
    reveal_strlit("intersection-atom");
    reveal_strlit("subtraction-atom");
    reveal_strlit("map-atom");
    reveal_strlit("maplist");
    reveal_strlit("filter-atom");
    reveal_strlit("concat");
    reveal_strlit("atom_concat");
    assert("union-atom"@.len() == 10);
    assert("intersection-atom"@.len() == 17);
    assert("subtraction-atom"@.len() == 16);
    assert("map-atom"@.len() == 8);
    assert("maplist"@.len() == 7);
    assert("filter-atom"@.len() == 11);
    assert("concat"@.len() == 6);
    assert("atom_concat"@.len() == 11);
    let rows = collection_rows();
    assert(rows[26] == ("union-atom"@, 2u8, Builtin::Append, rows[26].3));
    lemma_row_found(t, rows, 26);
}

/// `intersection-atom` is bound to its function.
proof fn lemma_collections_27(t: TableV)
    ensures
        with_collection_builtins(t).natives.contains_pair(("intersection-atom"@, 2u8), Builtin::Intersect),
{
    reveal_strlit("intersection-atom");
    reveal_strlit("subtraction-atom");
    reveal_strlit("map-atom");
    reveal_strlit("maplist");
    reveal_strlit("filter-atom");
    reveal_strlit("concat");
    reveal_strlit("atom_concat");
    assert("intersection-atom"@.len() == 17);
    assert("subtraction-atom"@.len() == 16);
    assert("map-atom"@.len() == 8);
    assert("maplist"@.len() == 7);
    assert("filter-atom"@.len() == 11);
    assert("concat"@.len() == 6);
    assert("atom_concat"@.len() == 11);
    let rows = collection_rows();
    assert(rows[27] == ("intersection-atom"@, 2u8, Builtin::Intersect, rows[27].3));
    lemma_row_found(t, rows, 27);
}

/// `subtraction-atom` is bound to its function.
proof fn lemma_collections_28(t: TableV)
    ensures
        with_collection_builtins(t).natives.contains_pair(("subtraction-atom"@, 2u8), Builtin::Subtract),
{
    reveal_strlit("subtraction-atom");
    reveal_strlit("map-atom");
    reveal_strlit("maplist");
    reveal_strlit("filter-atom");
    reveal_strlit("concat");
    reveal_strlit("atom_concat");
    assert("subtraction-atom"@.len() == 16);
    assert("map-atom"@.len() == 8);
    assert("maplist"@.len() == 7);
    assert("filter-atom"@.len() == 11);
    assert("concat"@.len() == 6);
    assert("atom_concat"@.len() == 11);
    let rows = collection_rows();
    assert(rows[28] == ("subtraction-atom"@, 2u8, Builtin::Subtract, rows[28].3));
    lemma_row_found(t, rows, 28);
}

/// `list_to_set` is bound to its function.
proof fn lemma_collections_29(t: TableV)
    ensures
        with_collection_builtins(t).natives.contains_pair(("list_to_set"@, 1u8), Builtin::Unique),
{
    reveal_strlit("list_to_set");
    reveal_strlit("atom_chars");
    reveal_strlit("term_hash");
    assert("list_to_set"@.len() == 11);
    assert("atom_chars"@.len() == 10);
    assert("term_hash"@.len() == 9);
    let rows = collection_rows();
    assert(rows[29] == ("list_to_set"@, 1u8, Builtin::Unique, rows[29].3));
    lemma_row_found(t, rows, 29);
}

/// `foldl` is bound to its function.
proof fn lemma_collections_30(t: TableV)
    ensures
        with_collection_builtins(t).natives.contains_pair(("foldl"@, 3u8), Builtin::Foldl),
{
    reveal_strlit("foldl");
    assert("foldl"@.len() == 5);
    let rows = collection_rows();
    assert(rows[30] == ("foldl"@, 3u8, Builtin::Foldl, rows[30].3));
    lemma_row_found(t, rows, 30);
}

/// `map-atom` is bound to its function.
proof fn lemma_collections_31(t: TableV)
    ensures
        with_collection_builtins(t).natives.contains_pair(("map-atom"@, 2u8), Builtin::MapAtom),
{
    reveal_strlit("map-atom");
    reveal_strlit("maplist");
    reveal_strlit("filter-atom");
    reveal_strlit("concat");
    reveal_strlit("atom_concat");
    assert("map-atom"@.len() == 8);
    assert("maplist"@.len() == 7);
    assert("filter-atom"@.len() == 11);
    assert("concat"@.len() == 6);
    assert("atom_concat"@.len() == 11);
    let rows = collection_rows();
    assert(rows[31] == ("map-atom"@, 2u8, Builtin::MapAtom, rows[31].3));
    lemma_row_found(t, rows, 31);
}

/// `maplist` is bound to its function.
proof fn lemma_collections_32(t: TableV)
    ensures
        with_collection_builtins(t).natives.contains_pair(("maplist"@, 2u8), Builtin::MapList),
{
    reveal_strlit("maplist");
    reveal_strlit("filter-atom");
    reveal_strlit("concat");
    reveal_strlit("atom_concat");
    assert("maplist"@.len() == 7);
    assert("filter-atom"@.len() == 11);
    assert("concat"@.len() == 6);
    assert("atom_concat"@.len() == 11);
    let rows = collection_rows();
    assert(rows[32] == ("maplist"@, 2u8, Builtin::MapList, rows[32].3));
    lemma_row_found(t, rows, 32);
}

/// `filter-atom` is bound to its function.
proof fn lemma_collections_33(t: TableV)
    ensures
        with_collection_builtins(t).natives.contains_pair(("filter-atom"@, 2u8), Builtin::FilterAtom),
{
    reveal_strlit("filter-atom");
    reveal_strlit("concat");
    reveal_strlit("atom_concat");
    assert("filter-atom"@.len() == 11);
    assert("concat"@.len() == 6);
    assert("atom_concat"@.len() == 11);
    assert("filter-atom"@[0] != "atom_concat"@[0]);
    let rows = collection_rows();
    assert(rows[33] == ("filter-atom"@, 2u8, Builtin::FilterAtom, rows[33].3));
    lemma_row_found(t, rows, 33);
}

/// `concat` is bound to its function.
proof fn lemma_collections_34(t: TableV)
    ensures
        with_collection_builtins(t).natives.contains_pair(("concat"@, 2u8), Builtin::Concat),
{
    reveal_strlit("concat");
    reveal_strlit("atom_concat");
    assert("concat"@.len() == 6);
    assert("atom_concat"@.len() == 11);
    let rows = collection_rows();
    assert(rows[34] == ("concat"@, 2u8, Builtin::Concat, rows[34].3));
    lemma_row_found(t, rows, 34);
}

/// `atom_concat` is bound to its function.
proof fn lemma_collections_35(t: TableV)
    ensures
        with_collection_builtins(t).natives.contains_pair(("atom_concat"@, 2u8), Builtin::AtomConcat),
{
    reveal_strlit("atom_concat");
    assert("atom_concat"@.len() == 11);
    let rows = collection_rows();
    assert(rows[35] == ("atom_concat"@, 2u8, Builtin::AtomConcat, rows[35].3));
    lemma_row_found(t, rows, 35);
}

/// `atom_chars` is bound to its function.
proof fn lemma_collections_36(t: TableV)
    ensures
        with_collection_builtins(t).natives.contains_pair(("atom_chars"@, 1u8), Builtin::AtomChars),
{
    reveal_strlit("atom_chars");
    reveal_strlit("term_hash");
    assert("atom_chars"@.len() == 10);
    assert("term_hash"@.len() == 9);
    let rows = collection_rows();
    assert(rows[36] == ("atom_chars"@, 1u8, Builtin::AtomChars, rows[36].3));
    lemma_row_found(t, rows, 36);
}

/// `term_hash` is bound to its function.
proof fn lemma_collections_37(t: TableV)
    ensures
        with_collection_builtins(t).natives.contains_pair(("term_hash"@, 1u8), Builtin::TermHash),
{
    reveal_strlit("term_hash");
    assert("term_hash"@.len() == 9);
    let rows = collection_rows();
    assert(rows[37] == ("term_hash"@, 1u8, Builtin::TermHash, rows[37].3));
    lemma_row_found(t, rows, 37);
}

/// The functions on lists are found under their names once they are registered.
pub proof fn list_names_are_bound(t: TableV)
    ensures
        with_collection_builtins(t).natives.contains_pair(("size-atom"@, 1u8), Builtin::Size),
        with_collection_builtins(t).natives.contains_pair(("length"@, 1u8), Builtin::Size),
        with_collection_builtins(t).natives.contains_pair(("car-atom"@, 1u8), Builtin::HeadOrNone),
        with_collection_builtins(t).natives.contains_pair(("car"@, 1u8), Builtin::Head),
        with_collection_builtins(t).natives.contains_pair(("cdr-atom"@, 1u8), Builtin::TailOrNone),
        with_collection_builtins(t).natives.contains_pair(("cdr"@, 1u8), Builtin::Tail),
        with_collection_builtins(t).natives.contains_pair(("cons-atom"@, 2u8), Builtin::Cons),
        with_collection_builtins(t).natives.contains_pair(("cons"@, 2u8), Builtin::Cons),
        with_collection_builtins(t).natives.contains_pair(("decons-atom"@, 1u8), Builtin::Decons),
        with_collection_builtins(t).natives.contains_pair(("decons"@, 1u8), Builtin::Decons),
        with_collection_builtins(t).natives.contains_pair(("append"@, 2u8), Builtin::Append),
        with_collection_builtins(t).natives.contains_pair(("reverse"@, 1u8), Builtin::Reverse),
        with_collection_builtins(t).natives.contains_pair(("index-atom"@, 2u8), Builtin::Index),
        with_collection_builtins(t).natives.contains_pair(("id"@, 1u8), Builtin::Id),
        with_collection_builtins(t).natives.contains_pair(("first-from-pair"@, 1u8), Builtin::Head),
        with_collection_builtins(t).natives.contains_pair(("first"@, 1u8), Builtin::Head),
        with_collection_builtins(t).natives.contains_pair(("second-from-pair"@, 1u8), Builtin::Second),
        with_collection_builtins(t).natives.contains_pair(("second"@, 1u8), Builtin::Second),
        with_collection_builtins(t).natives.contains_pair(("last"@, 1u8), Builtin::Last),
        with_collection_builtins(t).natives.contains_pair(("msort"@, 1u8), Builtin::SortText),
        with_collection_builtins(t).natives.contains_pair(("sort"@, 1u8), Builtin::SortUnique),
        with_collection_builtins(t).natives.contains_pair(("sort-atom"@, 1u8), Builtin::SortText),
        with_collection_builtins(t).natives.contains_pair(("is-member"@, 2u8), Builtin::Member),
        with_collection_builtins(t).natives.contains_pair(("exclude-item"@, 2u8), Builtin::Exclude),
        with_collection_builtins(t).natives.contains_pair(("unique-atom"@, 1u8), Builtin::Unique),
        with_collection_builtins(t).natives.contains_pair(("alpha-unique-atom"@, 1u8), Builtin::AlphaUnique),
        with_collection_builtins(t).natives.contains_pair(("union-atom"@, 2u8), Builtin::Append),
        with_collection_builtins(t).natives.contains_pair(("intersection-atom"@, 2u8), Builtin::Intersect),
        with_collection_builtins(t).natives.contains_pair(("subtraction-atom"@, 2u8), Builtin::Subtract),
        with_collection_builtins(t).natives.contains_pair(("list_to_set"@, 1u8), Builtin::Unique),
        with_collection_builtins(t).natives.contains_pair(("foldl"@, 3u8), Builtin::Foldl),
        with_collection_builtins(t).natives.contains_pair(("map-atom"@, 2u8), Builtin::MapAtom),
        with_collection_builtins(t).natives.contains_pair(("maplist"@, 2u8), Builtin::MapList),
        with_collection_builtins(t).natives.contains_pair(("filter-atom"@, 2u8), Builtin::FilterAtom),
        with_collection_builtins(t).natives.contains_pair(("concat"@, 2u8), Builtin::Concat),
        with_collection_builtins(t).natives.contains_pair(("atom_concat"@, 2u8), Builtin::AtomConcat),
        with_collection_builtins(t).natives.contains_pair(("atom_chars"@, 1u8), Builtin::AtomChars),
        with_collection_builtins(t).natives.contains_pair(("term_hash"@, 1u8), Builtin::TermHash),
{
    lemma_collections_0(t);
    lemma_collections_1(t);
    lemma_collections_2(t);
    lemma_collections_3(t);
    lemma_collections_4(t);
    lemma_collections_5(t);
    lemma_collections_6(t);
    lemma_collections_7(t);
    lemma_collections_8(t);
    lemma_collections_9(t);
    lemma_collections_10(t);
    lemma_collections_11(t);
    lemma_collections_12(t);
    lemma_collections_13(t);
    lemma_collections_14(t);
    lemma_collections_15(t);
    lemma_collections_16(t);
    lemma_collections_17(t);
    lemma_collections_18(t);
    lemma_collections_19(t);
    lemma_collections_20(t);
    lemma_collections_21(t);
    lemma_collections_22(t);
    lemma_collections_23(t);
    lemma_collections_24(t);
    lemma_collections_25(t);
    lemma_collections_26(t);
    lemma_collections_27(t);
    lemma_collections_28(t);
    lemma_collections_29(t);
    lemma_collections_30(t);
    lemma_collections_31(t);
    lemma_collections_32(t);
    lemma_collections_33(t);
    lemma_collections_34(t);
    lemma_collections_35(t);
    lemma_collections_36(t);
    lemma_collections_37(t);
}

/// `repr` is bound to its function.
proof fn lemma_io_0(t: TableV)
    ensures
        with_io_builtins(t).natives.contains_pair(("repr"@, 1u8), Builtin::Repr),
{
    reveal_strlit("repr");
    reveal_strlit("parse");
    reveal_strlit("assert");
    reveal_strlit("sread");
    assert("repr"@.len() == 4);
    assert("parse"@.len() == 5);
    assert("assert"@.len() == 6);
    assert("sread"@.len() == 5);
    let rows = io_rows();
    assert(rows[0] == ("repr"@, 1u8, Builtin::Repr, rows[0].3));
    lemma_row_found(t, rows, 0);
}

/// `parse` is bound to its function.
proof fn lemma_io_1(t: TableV)
    ensures
        with_io_builtins(t).natives.contains_pair(("parse"@, 1u8), Builtin::Parse),
{
    reveal_strlit("parse");
    reveal_strlit("assert");
    reveal_strlit("sread");
    assert("parse"@.len() == 5);
    assert("assert"@.len() == 6);
    assert("sread"@.len() == 5);
    assert("parse"@[0] != "sread"@[0]);
    let rows = io_rows();
    assert(rows[1] == ("parse"@, 1u8, Builtin::Parse, rows[1].3));
    lemma_row_found(t, rows, 1);
}

/// `assert` is bound to its function.
proof fn lemma_io_2(t: TableV)
    ensures
        with_io_builtins(t).natives.contains_pair(("assert"@, 1u8), Builtin::Assert),
{
    reveal_strlit("assert");
    reveal_strlit("sread");
    assert("assert"@.len() == 6);
    assert("sread"@.len() == 5);
    let rows = io_rows();
    assert(rows[2] == ("assert"@, 1u8, Builtin::Assert, rows[2].3));
    lemma_row_found(t, rows, 2);
}

/// `test` is bound to its function.
proof fn lemma_io_3(t: TableV)
    ensures
        with_io_builtins(t).natives.contains_pair(("test"@, 2u8), Builtin::Test),
{
    reveal_strlit("test");
    assert("test"@.len() == 4);
    let rows = io_rows();
    assert(rows[3] == ("test"@, 2u8, Builtin::Test, rows[3].3));
    lemma_row_found(t, rows, 3);
}

/// `sread` is bound to its function.
proof fn lemma_io_4(t: TableV)
    ensures
        with_io_builtins(t).natives.contains_pair(("sread"@, 1u8), Builtin::Parse),
{
    reveal_strlit("sread");
    assert("sread"@.len() == 5);
    let rows = io_rows();
    assert(rows[4] == ("sread"@, 1u8, Builtin::Parse, rows[4].3));
    lemma_row_found(t, rows, 4);
}

/// The functions on texts are found under their names once they are registered.
pub proof fn text_names_are_bound(t: TableV)
    ensures
        with_io_builtins(t).natives.contains_pair(("repr"@, 1u8), Builtin::Repr),
        with_io_builtins(t).natives.contains_pair(("parse"@, 1u8), Builtin::Parse),
        with_io_builtins(t).natives.contains_pair(("assert"@, 1u8), Builtin::Assert),
        with_io_builtins(t).natives.contains_pair(("test"@, 2u8), Builtin::Test),
        with_io_builtins(t).natives.contains_pair(("sread"@, 1u8), Builtin::Parse),
{
    lemma_io_0(t);
    lemma_io_1(t);
    lemma_io_2(t);
    lemma_io_3(t);
    lemma_io_4(t);
}

/// `get-atoms` is bound to its function.
proof fn lemma_state_0(t: TableV)
    ensures
        with_state_builtins(t).natives.contains_pair(("get-atoms"@, 1u8), Builtin::GetAtoms),
{
    reveal_strlit("get-atoms");
    reveal_strlit("get-state");
    assert("get-atoms"@.len() == 9);
    assert("get-state"@.len() == 9);
    assert("get-atoms"@[4] != "get-state"@[4]);
    let rows = state_rows();
    assert(rows[0] == ("get-atoms"@, 1u8, Builtin::GetAtoms, rows[0].3));
    lemma_row_found(t, rows, 0);
}

/// `change-state!` is bound to its function.
proof fn lemma_state_1(t: TableV)
    ensures
        with_state_builtins(t).natives.contains_pair(("change-state!"@, 2u8), Builtin::ChangeState),
{
    reveal_strlit("change-state!");
    reveal_strlit("bind!");
    assert("change-state!"@.len() == 13);
    assert("bind!"@.len() == 5);
    let rows = state_rows();
    assert(rows[1] == ("change-state!"@, 2u8, Builtin::ChangeState, rows[1].3));
    lemma_row_found(t, rows, 1);
}

/// `get-state` is bound to its function.
proof fn lemma_state_2(t: TableV)
    ensures
        with_state_builtins(t).natives.contains_pair(("get-state"@, 1u8), Builtin::GetState),
{
    reveal_strlit("get-state");
    assert("get-state"@.len() == 9);
    let rows = state_rows();
    assert(rows[2] == ("get-state"@, 1u8, Builtin::GetState, rows[2].3));
    lemma_row_found(t, rows, 2);
}

/// `bind!` is bound to its function.
proof fn lemma_state_3(t: TableV)
    ensures
        with_state_builtins(t).natives.contains_pair(("bind!"@, 2u8), Builtin::BindState),
{
    reveal_strlit("bind!");
    assert("bind!"@.len() == 5);
    let rows = state_rows();
    assert(rows[3] == ("bind!"@, 2u8, Builtin::BindState, rows[3].3));
    lemma_row_found(t, rows, 3);
}

/// The functions on states and spaces are found under their names once they are registered.
pub proof fn state_names_are_bound(t: TableV)
    ensures
        with_state_builtins(t).natives.contains_pair(("get-atoms"@, 1u8), Builtin::GetAtoms),
        with_state_builtins(t).natives.contains_pair(("change-state!"@, 2u8), Builtin::ChangeState),
        with_state_builtins(t).natives.contains_pair(("get-state"@, 1u8), Builtin::GetState),
        with_state_builtins(t).natives.contains_pair(("bind!"@, 2u8), Builtin::BindState),
{
    lemma_state_0(t);
    lemma_state_1(t);
    lemma_state_2(t);
    lemma_state_3(t);
}

/// `is-var` is bound to its function.
proof fn lemma_types_0(t: TableV)
    ensures
        with_type_builtins(t).natives.contains_pair(("is-var"@, 1u8), Builtin::IsVar),
{
    reveal_strlit("is-var");
    reveal_strlit("is-expr");
    reveal_strlit("is-space");
    reveal_strlit("get-type");
    reveal_strlit("get-metatype");
    assert("is-var"@.len() == 6);
    assert("is-expr"@.len() == 7);
    assert("is-space"@.len() == 8);
    assert("get-type"@.len() == 8);
    assert("get-metatype"@.len() == 12);
    let rows = type_rows();
    assert(rows[0] == ("is-var"@, 1u8, Builtin::IsVar, rows[0].3));
    lemma_row_found(t, rows, 0);
}

/// `is-expr` is bound to its function.
proof fn lemma_types_1(t: TableV)
    ensures
        with_type_builtins(t).natives.contains_pair(("is-expr"@, 1u8), Builtin::IsExpr),
{
    reveal_strlit("is-expr");
    reveal_strlit("is-space");
    reveal_strlit("get-type");
    reveal_strlit("get-metatype");
    assert("is-expr"@.len() == 7);
    assert("is-space"@.len() == 8);
    assert("get-type"@.len() == 8);
    assert("get-metatype"@.len() == 12);
    let rows = type_rows();
    assert(rows[1] == ("is-expr"@, 1u8, Builtin::IsExpr, rows[1].3));
    lemma_row_found(t, rows, 1);
}

/// `is-space` is bound to its function.
proof fn lemma_types_2(t: TableV)
    ensures
        with_type_builtins(t).natives.contains_pair(("is-space"@, 1u8), Builtin::IsSpace),
{
    reveal_strlit("is-space");
    reveal_strlit("get-type");
    reveal_strlit("get-metatype");
    assert("is-space"@.len() == 8);
    assert("get-type"@.len() == 8);
    assert("get-metatype"@.len() == 12);
    assert("is-space"@[0] != "get-type"@[0]);
    let rows = type_rows();
    assert(rows[2] == ("is-space"@, 1u8, Builtin::IsSpace, rows[2].3));
    lemma_row_found(t, rows, 2);
}

/// `get-type` is bound to its function.
proof fn lemma_types_3(t: TableV)
    ensures
        with_type_builtins(t).natives.contains_pair(("get-type"@, 1u8), Builtin::GetType),
{
    reveal_strlit("get-type");
    reveal_strlit("get-metatype");
    assert("get-type"@.len() == 8);
    assert("get-metatype"@.len() == 12);
    let rows = type_rows();
    assert(rows[3] == ("get-type"@, 1u8, Builtin::GetType, rows[3].3));
    lemma_row_found(t, rows, 3);
}

/// `get-metatype` is bound to its function.
proof fn lemma_types_4(t: TableV)
    ensures
        with_type_builtins(t).natives.contains_pair(("get-metatype"@, 1u8), Builtin::GetMetatype),
{
    reveal_strlit("get-metatype");
    assert("get-metatype"@.len() == 12);
    let rows = type_rows();
    assert(rows[4] == ("get-metatype"@, 1u8, Builtin::GetMetatype, rows[4].3));
    lemma_row_found(t, rows, 4);
}

/// The functions that tell kinds and types are found under their names once they are registered.
pub proof fn type_names_are_bound(t: TableV)
    ensures
        with_type_builtins(t).natives.contains_pair(("is-var"@, 1u8), Builtin::IsVar),
        with_type_builtins(t).natives.contains_pair(("is-expr"@, 1u8), Builtin::IsExpr),
        with_type_builtins(t).natives.contains_pair(("is-space"@, 1u8), Builtin::IsSpace),
        with_type_builtins(t).natives.contains_pair(("get-type"@, 1u8), Builtin::GetType),
        with_type_builtins(t).natives.contains_pair(("get-metatype"@, 1u8), Builtin::GetMetatype),
{
    lemma_types_0(t);
    lemma_types_1(t);
    lemma_types_2(t);
    lemma_types_3(t);
    lemma_types_4(t);
}

} // verus!
