//! What the functions of the compact set are for.
use crate::atom::AtomV;
use crate::atom::sexpr;
use crate::atom::symbol;
use crate::builtins::AnswerV;
use crate::builtins::boolean::marked_operators;
use crate::builtins::boolean::truth_table;
use crate::builtins::collections::lemma_row_found;
use crate::builtins::collections::named_answer;
use crate::builtins::collections::unique;
use crate::builtins::compact::compact_rows;
use crate::builtins::compact::first_list_rows;
use crate::builtins::compact::is_sread_value;
use crate::builtins::compact::number_rows;
use crate::builtins::compact::other_rows;
use crate::builtins::compact::second_list_rows;
use crate::builtins::compact::selected;
use crate::builtins::compact::selection_is_exact;
use crate::builtins::compact::sets_are_made;
use crate::builtins::compact::truncated_quot;
use crate::builtins::compact::union_of;
use crate::builtins::compact::with_rules;
use crate::builtins::compact::written_values_are_sread;
use crate::builtins::with_rows;
use crate::func::Builtin;
use crate::func::CompactFn;
use crate::func::TableV;
use crate::laws::numbers::int_atom;
use crate::laws::numbers::truth_atom;
use crate::laws::numbers::truth_values_are_symbols;
use crate::numeric::NumV;
use crate::numeric::truncated_rem;
use vstd::prelude::*;
use vstd::string::*;

verus! {

/// A table with the functions of the compact set.
pub open spec fn with_compact(t: TableV) -> TableV {
    with_rows(marked_operators(with_rules(t, truth_table())), compact_rows())
}

proof fn lemma_compact_lengths()
    ensures
        number_rows().len() == 31,
        first_list_rows().len() == 20,
        second_list_rows().len() == 17,
        other_rows().len() == 17,
{
}

/// `+` is bound to its function.
proof fn lemma_compact_0(t: TableV)
    ensures
        with_compact(t).natives.contains_pair(("+"@, 2u8), Builtin::Compact(CompactFn::Add)),
{
    reveal_strlit("+");
    reveal_strlit("-");
    reveal_strlit("*");
    reveal_strlit("/");
    reveal_strlit("%");
    reveal_strlit("<");
    reveal_strlit(">");
    reveal_strlit("<=");
    reveal_strlit(">=");
    reveal_strlit("!=");
    reveal_strlit("pow-math");
    reveal_strlit("log-math");
    reveal_strlit("min");
    reveal_strlit("max");
    reveal_strlit("append");
    reveal_strlit("==");
    reveal_strlit("=");
    reveal_strlit("=?");
    reveal_strlit("test");
    reveal_strlit("change-state!");
    reveal_strlit("bind!");
    reveal_strlit("cons-atom");
    reveal_strlit("cons");
    reveal_strlit("index-atom");
    reveal_strlit("=alpha");
    reveal_strlit("is-member");
    reveal_strlit("exclude-item");
    reveal_strlit("union-atom");
    reveal_strlit("intersection-atom");
    reveal_strlit("subtraction-atom");
    reveal_strlit("same");
    reveal_strlit("maplist");
    reveal_strlit("filter-atom");
    reveal_strlit("concat");
    reveal_strlit("atom_concat");
    assert("+"@.len() == 1);
    assert("-"@.len() == 1);
    assert("*"@.len() == 1);
    assert("/"@.len() == 1);
    assert("%"@.len() == 1);
    assert("<"@.len() == 1);
    assert(">"@.len() == 1);
    assert("<="@.len() == 2);
    assert(">="@.len() == 2);
    assert("!="@.len() == 2);
    assert("pow-math"@.len() == 8);
    assert("log-math"@.len() == 8);
    assert("min"@.len() == 3);
    assert("max"@.len() == 3);
    assert("append"@.len() == 6);
    assert("=="@.len() == 2);
    assert("="@.len() == 1);
    assert("=?"@.len() == 2);
    assert("test"@.len() == 4);
    assert("change-state!"@.len() == 13);
    assert("bind!"@.len() == 5);
    assert("cons-atom"@.len() == 9);
    assert("cons"@.len() == 4);
    assert("index-atom"@.len() == 10);
    assert("=alpha"@.len() == 6);
    assert("is-member"@.len() == 9);
    assert("exclude-item"@.len() == 12);
    assert("union-atom"@.len() == 10);
    assert("intersection-atom"@.len() == 17);
    assert("subtraction-atom"@.len() == 16);
    assert("same"@.len() == 4);
    assert("maplist"@.len() == 7);
    assert("filter-atom"@.len() == 11);
    assert("concat"@.len() == 6);
    assert("atom_concat"@.len() == 11);
    assert("+"@[0] != "-"@[0]);
    assert("+"@[0] != "*"@[0]);
    assert("+"@[0] != "/"@[0]);
    assert("+"@[0] != "%"@[0]);
    assert("+"@[0] != "<"@[0]);
    assert("+"@[0] != ">"@[0]);
    assert("+"@[0] != "="@[0]);
    let rows = compact_rows();
    lemma_compact_lengths();
    assert(rows[0] == ("+"@, 2u8, Builtin::Compact(CompactFn::Add), rows[0].3));
    lemma_row_found(marked_operators(with_rules(t, truth_table())), rows, 0);
}

/// `-` is bound to its function.
proof fn lemma_compact_1(t: TableV)
    ensures
        with_compact(t).natives.contains_pair(("-"@, 2u8), Builtin::Compact(CompactFn::Sub)),
{
    reveal_strlit("-");
    reveal_strlit("*");
    reveal_strlit("/");
    reveal_strlit("%");
    reveal_strlit("<");
    reveal_strlit(">");
    reveal_strlit("<=");
    reveal_strlit(">=");
    reveal_strlit("!=");
    reveal_strlit("pow-math");
    reveal_strlit("log-math");
    reveal_strlit("min");
    reveal_strlit("max");
    reveal_strlit("append");
    reveal_strlit("==");
    reveal_strlit("=");
    reveal_strlit("=?");
    reveal_strlit("test");
    reveal_strlit("change-state!");
    reveal_strlit("bind!");
    reveal_strlit("cons-atom");
    reveal_strlit("cons");
    reveal_strlit("index-atom");
    reveal_strlit("=alpha");
    reveal_strlit("is-member");
    reveal_strlit("exclude-item");
    reveal_strlit("union-atom");
    reveal_strlit("intersection-atom");
    reveal_strlit("subtraction-atom");
    reveal_strlit("same");
    reveal_strlit("maplist");
    reveal_strlit("filter-atom");
    reveal_strlit("concat");
    reveal_strlit("atom_concat");
    assert("-"@.len() == 1);
    assert("*"@.len() == 1);
    assert("/"@.len() == 1);
    assert("%"@.len() == 1);
    assert("<"@.len() == 1);
    assert(">"@.len() == 1);
    assert("<="@.len() == 2);
    assert(">="@.len() == 2);
    assert("!="@.len() == 2);
    assert("pow-math"@.len() == 8);
    assert("log-math"@.len() == 8);
    assert("min"@.len() == 3);
    assert("max"@.len() == 3);
    assert("append"@.len() == 6);
    assert("=="@.len() == 2);
    assert("="@.len() == 1);
    assert("=?"@.len() == 2);
    assert("test"@.len() == 4);
    assert("change-state!"@.len() == 13);
    assert("bind!"@.len() == 5);
    assert("cons-atom"@.len() == 9);
    assert("cons"@.len() == 4);
    assert("index-atom"@.len() == 10);
    assert("=alpha"@.len() == 6);
    assert("is-member"@.len() == 9);
    assert("exclude-item"@.len() == 12);
    assert("union-atom"@.len() == 10);
    assert("intersection-atom"@.len() == 17);
    assert("subtraction-atom"@.len() == 16);
    assert("same"@.len() == 4);
    assert("maplist"@.len() == 7);
    assert("filter-atom"@.len() == 11);
    assert("concat"@.len() == 6);
    assert("atom_concat"@.len() == 11);
    assert("-"@[0] != "*"@[0]);
    assert("-"@[0] != "/"@[0]);
    assert("-"@[0] != "%"@[0]);
    assert("-"@[0] != "<"@[0]);
    assert("-"@[0] != ">"@[0]);
    assert("-"@[0] != "="@[0]);
    let rows = compact_rows();
    lemma_compact_lengths();
    assert(rows[1] == ("-"@, 2u8, Builtin::Compact(CompactFn::Sub), rows[1].3));
    lemma_row_found(marked_operators(with_rules(t, truth_table())), rows, 1);
}

/// `*` is bound to its function.
proof fn lemma_compact_2(t: TableV)
    ensures
        with_compact(t).natives.contains_pair(("*"@, 2u8), Builtin::Compact(CompactFn::Mul)),
{
    reveal_strlit("*");
    reveal_strlit("/");
    reveal_strlit("%");
    reveal_strlit("<");
    reveal_strlit(">");
    reveal_strlit("<=");
    reveal_strlit(">=");
    reveal_strlit("!=");
    reveal_strlit("pow-math");
    reveal_strlit("log-math");
    reveal_strlit("min");
    reveal_strlit("max");
    reveal_strlit("append");
    reveal_strlit("==");
    reveal_strlit("=");
    reveal_strlit("=?");
    reveal_strlit("test");
    reveal_strlit("change-state!");
    reveal_strlit("bind!");
    reveal_strlit("cons-atom");
    reveal_strlit("cons");
    reveal_strlit("index-atom");
    reveal_strlit("=alpha");
    reveal_strlit("is-member");
    reveal_strlit("exclude-item");
    reveal_strlit("union-atom");
    reveal_strlit("intersection-atom");
    reveal_strlit("subtraction-atom");
    reveal_strlit("same");
    reveal_strlit("maplist");
    reveal_strlit("filter-atom");
    reveal_strlit("concat");
    reveal_strlit("atom_concat");
    assert("*"@.len() == 1);
    assert("/"@.len() == 1);
    assert("%"@.len() == 1);
    assert("<"@.len() == 1);
    assert(">"@.len() == 1);
    assert("<="@.len() == 2);
    assert(">="@.len() == 2);
    assert("!="@.len() == 2);
    assert("pow-math"@.len() == 8);
    assert("log-math"@.len() == 8);
    assert("min"@.len() == 3);
    assert("max"@.len() == 3);
    assert("append"@.len() == 6);
    assert("=="@.len() == 2);
    assert("="@.len() == 1);
    assert("=?"@.len() == 2);
    assert("test"@.len() == 4);
    assert("change-state!"@.len() == 13);
    assert("bind!"@.len() == 5);
    assert("cons-atom"@.len() == 9);
    assert("cons"@.len() == 4);
    assert("index-atom"@.len() == 10);
    assert("=alpha"@.len() == 6);
    assert("is-member"@.len() == 9);
    assert("exclude-item"@.len() == 12);
    assert("union-atom"@.len() == 10);
    assert("intersection-atom"@.len() == 17);
    assert("subtraction-atom"@.len() == 16);
    assert("same"@.len() == 4);
    assert("maplist"@.len() == 7);
    assert("filter-atom"@.len() == 11);
    assert("concat"@.len() == 6);
    assert("atom_concat"@.len() == 11);
    assert("*"@[0] != "/"@[0]);
    assert("*"@[0] != "%"@[0]);
    assert("*"@[0] != "<"@[0]);
    assert("*"@[0] != ">"@[0]);
    assert("*"@[0] != "="@[0]);
    let rows = compact_rows();
    lemma_compact_lengths();
    assert(rows[2] == ("*"@, 2u8, Builtin::Compact(CompactFn::Mul), rows[2].3));
    lemma_row_found(marked_operators(with_rules(t, truth_table())), rows, 2);
}

/// `/` is bound to its function.
proof fn lemma_compact_3(t: TableV)
    ensures
        with_compact(t).natives.contains_pair(("/"@, 2u8), Builtin::Compact(CompactFn::Div)),
{
    reveal_strlit("/");
    reveal_strlit("%");
    reveal_strlit("<");
    reveal_strlit(">");
    reveal_strlit("<=");
    reveal_strlit(">=");
    reveal_strlit("!=");
    reveal_strlit("pow-math");
    reveal_strlit("log-math");
    reveal_strlit("min");
    reveal_strlit("max");
    reveal_strlit("append");
    reveal_strlit("==");
    reveal_strlit("=");
    reveal_strlit("=?");
    reveal_strlit("test");
    reveal_strlit("change-state!");
    reveal_strlit("bind!");
    reveal_strlit("cons-atom");
    reveal_strlit("cons");
    reveal_strlit("index-atom");
    reveal_strlit("=alpha");
    reveal_strlit("is-member");
    reveal_strlit("exclude-item");
    reveal_strlit("union-atom");
    reveal_strlit("intersection-atom");
    reveal_strlit("subtraction-atom");
    reveal_strlit("same");
    reveal_strlit("maplist");
    reveal_strlit("filter-atom");
    reveal_strlit("concat");
    reveal_strlit("atom_concat");
    assert("/"@.len() == 1);
    assert("%"@.len() == 1);
    assert("<"@.len() == 1);
    assert(">"@.len() == 1);
    assert("<="@.len() == 2);
    assert(">="@.len() == 2);
    assert("!="@.len() == 2);
    assert("pow-math"@.len() == 8);
    assert("log-math"@.len() == 8);
    assert("min"@.len() == 3);
    assert("max"@.len() == 3);
    assert("append"@.len() == 6);
    assert("=="@.len() == 2);
    assert("="@.len() == 1);
    assert("=?"@.len() == 2);
    assert("test"@.len() == 4);
    assert("change-state!"@.len() == 13);
    assert("bind!"@.len() == 5);
    assert("cons-atom"@.len() == 9);
    assert("cons"@.len() == 4);
    assert("index-atom"@.len() == 10);
    assert("=alpha"@.len() == 6);
    assert("is-member"@.len() == 9);
    assert("exclude-item"@.len() == 12);
    assert("union-atom"@.len() == 10);
    assert("intersection-atom"@.len() == 17);
    assert("subtraction-atom"@.len() == 16);
    assert("same"@.len() == 4);
    assert("maplist"@.len() == 7);
    assert("filter-atom"@.len() == 11);
    assert("concat"@.len() == 6);
    assert("atom_concat"@.len() == 11);
    assert("/"@[0] != "%"@[0]);
    assert("/"@[0] != "<"@[0]);
    assert("/"@[0] != ">"@[0]);
    assert("/"@[0] != "="@[0]);
    let rows = compact_rows();
    lemma_compact_lengths();
    assert(rows[3] == ("/"@, 2u8, Builtin::Compact(CompactFn::Div), rows[3].3));
    lemma_row_found(marked_operators(with_rules(t, truth_table())), rows, 3);
}

/// `%` is bound to its function.
proof fn lemma_compact_4(t: TableV)
    ensures
        with_compact(t).natives.contains_pair(("%"@, 2u8), Builtin::Compact(CompactFn::Rem)),
{
    reveal_strlit("%");
    reveal_strlit("<");
    reveal_strlit(">");
    reveal_strlit("<=");
    reveal_strlit(">=");
    reveal_strlit("!=");
    reveal_strlit("pow-math");
    reveal_strlit("log-math");
    reveal_strlit("min");
    reveal_strlit("max");
    reveal_strlit("append");
    reveal_strlit("==");
    reveal_strlit("=");
    reveal_strlit("=?");
    reveal_strlit("test");
    reveal_strlit("change-state!");
    reveal_strlit("bind!");
    reveal_strlit("cons-atom");
    reveal_strlit("cons");
    reveal_strlit("index-atom");
    reveal_strlit("=alpha");
    reveal_strlit("is-member");
    reveal_strlit("exclude-item");
    reveal_strlit("union-atom");
    reveal_strlit("intersection-atom");
    reveal_strlit("subtraction-atom");
    reveal_strlit("same");
    reveal_strlit("maplist");
    reveal_strlit("filter-atom");
    reveal_strlit("concat");
    reveal_strlit("atom_concat");
    assert("%"@.len() == 1);
    assert("<"@.len() == 1);
    assert(">"@.len() == 1);
    assert("<="@.len() == 2);
    assert(">="@.len() == 2);
    assert("!="@.len() == 2);
    assert("pow-math"@.len() == 8);
    assert("log-math"@.len() == 8);
    assert("min"@.len() == 3);
    assert("max"@.len() == 3);
    assert("append"@.len() == 6);
    assert("=="@.len() == 2);
    assert("="@.len() == 1);
    assert("=?"@.len() == 2);
    assert("test"@.len() == 4);
    assert("change-state!"@.len() == 13);
    assert("bind!"@.len() == 5);
    assert("cons-atom"@.len() == 9);
    assert("cons"@.len() == 4);
    assert("index-atom"@.len() == 10);
    assert("=alpha"@.len() == 6);
    assert("is-member"@.len() == 9);
    assert("exclude-item"@.len() == 12);
    assert("union-atom"@.len() == 10);
    assert("intersection-atom"@.len() == 17);
    assert("subtraction-atom"@.len() == 16);
    assert("same"@.len() == 4);
    assert("maplist"@.len() == 7);
    assert("filter-atom"@.len() == 11);
    assert("concat"@.len() == 6);
    assert("atom_concat"@.len() == 11);
    assert("%"@[0] != "<"@[0]);
    assert("%"@[0] != ">"@[0]);
    assert("%"@[0] != "="@[0]);
    let rows = compact_rows();
    lemma_compact_lengths();
    assert(rows[4] == ("%"@, 2u8, Builtin::Compact(CompactFn::Rem), rows[4].3));
    lemma_row_found(marked_operators(with_rules(t, truth_table())), rows, 4);
}

/// `<` is bound to its function.
proof fn lemma_compact_5(t: TableV)
    ensures
        with_compact(t).natives.contains_pair(("<"@, 2u8), Builtin::Compact(CompactFn::Below)),
{
    reveal_strlit("<");
    reveal_strlit(">");
    reveal_strlit("<=");
    reveal_strlit(">=");
    reveal_strlit("!=");
    reveal_strlit("pow-math");
    reveal_strlit("log-math");
    reveal_strlit("min");
    reveal_strlit("max");
    reveal_strlit("append");
    reveal_strlit("==");
    reveal_strlit("=");
    reveal_strlit("=?");
    reveal_strlit("test");
    reveal_strlit("change-state!");
    reveal_strlit("bind!");
    reveal_strlit("cons-atom");
    reveal_strlit("cons");
    reveal_strlit("index-atom");
    reveal_strlit("=alpha");
    reveal_strlit("is-member");
    reveal_strlit("exclude-item");
    reveal_strlit("union-atom");
    reveal_strlit("intersection-atom");
    reveal_strlit("subtraction-atom");
    reveal_strlit("same");
    reveal_strlit("maplist");
    reveal_strlit("filter-atom");
    reveal_strlit("concat");
    reveal_strlit("atom_concat");
    assert("<"@.len() == 1);
    assert(">"@.len() == 1);
    assert("<="@.len() == 2);
    assert(">="@.len() == 2);
    assert("!="@.len() == 2);
    assert("pow-math"@.len() == 8);
    assert("log-math"@.len() == 8);
    assert("min"@.len() == 3);
    assert("max"@.len() == 3);
    assert("append"@.len() == 6);
    assert("=="@.len() == 2);
    assert("="@.len() == 1);
    assert("=?"@.len() == 2);
    assert("test"@.len() == 4);
    assert("change-state!"@.len() == 13);
    assert("bind!"@.len() == 5);
    assert("cons-atom"@.len() == 9);
    assert("cons"@.len() == 4);
    assert("index-atom"@.len() == 10);
    assert("=alpha"@.len() == 6);
    assert("is-member"@.len() == 9);
    assert("exclude-item"@.len() == 12);
    assert("union-atom"@.len() == 10);
    assert("intersection-atom"@.len() == 17);
    assert("subtraction-atom"@.len() == 16);
    assert("same"@.len() == 4);
    assert("maplist"@.len() == 7);
    assert("filter-atom"@.len() == 11);
    assert("concat"@.len() == 6);
    assert("atom_concat"@.len() == 11);
    assert("<"@[0] != ">"@[0]);
    assert("<"@[0] != "="@[0]);
    let rows = compact_rows();
    lemma_compact_lengths();
    assert(rows[5] == ("<"@, 2u8, Builtin::Compact(CompactFn::Below), rows[5].3));
    lemma_row_found(marked_operators(with_rules(t, truth_table())), rows, 5);
}

/// `>` is bound to its function.
proof fn lemma_compact_6(t: TableV)
    ensures
        with_compact(t).natives.contains_pair((">"@, 2u8), Builtin::Compact(CompactFn::Above)),
{
    reveal_strlit(">");
    reveal_strlit("<=");
    reveal_strlit(">=");
    reveal_strlit("!=");
    reveal_strlit("pow-math");
    reveal_strlit("log-math");
    reveal_strlit("min");
    reveal_strlit("max");
    reveal_strlit("append");
    reveal_strlit("==");
    reveal_strlit("=");
    reveal_strlit("=?");
    reveal_strlit("test");
    reveal_strlit("change-state!");
    reveal_strlit("bind!");
    reveal_strlit("cons-atom");
    reveal_strlit("cons");
    reveal_strlit("index-atom");
    reveal_strlit("=alpha");
    reveal_strlit("is-member");
    reveal_strlit("exclude-item");
    reveal_strlit("union-atom");
    reveal_strlit("intersection-atom");
    reveal_strlit("subtraction-atom");
    reveal_strlit("same");
    reveal_strlit("maplist");
    reveal_strlit("filter-atom");
    reveal_strlit("concat");
    reveal_strlit("atom_concat");
    assert(">"@.len() == 1);
    assert("<="@.len() == 2);
    assert(">="@.len() == 2);
    assert("!="@.len() == 2);
    assert("pow-math"@.len() == 8);
    assert("log-math"@.len() == 8);
    assert("min"@.len() == 3);
    assert("max"@.len() == 3);
    assert("append"@.len() == 6);
    assert("=="@.len() == 2);
    assert("="@.len() == 1);
    assert("=?"@.len() == 2);
    assert("test"@.len() == 4);
    assert("change-state!"@.len() == 13);
    assert("bind!"@.len() == 5);
    assert("cons-atom"@.len() == 9);
    assert("cons"@.len() == 4);
    assert("index-atom"@.len() == 10);
    assert("=alpha"@.len() == 6);
    assert("is-member"@.len() == 9);
    assert("exclude-item"@.len() == 12);
    assert("union-atom"@.len() == 10);
    assert("intersection-atom"@.len() == 17);
    assert("subtraction-atom"@.len() == 16);
    assert("same"@.len() == 4);
    assert("maplist"@.len() == 7);
    assert("filter-atom"@.len() == 11);
    assert("concat"@.len() == 6);
    assert("atom_concat"@.len() == 11);
    assert(">"@[0] != "="@[0]);
    let rows = compact_rows();
    lemma_compact_lengths();
    assert(rows[6] == (">"@, 2u8, Builtin::Compact(CompactFn::Above), rows[6].3));
    lemma_row_found(marked_operators(with_rules(t, truth_table())), rows, 6);
}

/// `<=` is bound to its function.
proof fn lemma_compact_7(t: TableV)
    ensures
        with_compact(t).natives.contains_pair(("<="@, 2u8), Builtin::Compact(CompactFn::AtMost)),
{
    reveal_strlit("<=");
    reveal_strlit(">=");
    reveal_strlit("!=");
    reveal_strlit("pow-math");
    reveal_strlit("log-math");
    reveal_strlit("min");
    reveal_strlit("max");
    reveal_strlit("append");
    reveal_strlit("==");
    reveal_strlit("=");
    reveal_strlit("=?");
    reveal_strlit("test");
    reveal_strlit("change-state!");
    reveal_strlit("bind!");
    reveal_strlit("cons-atom");
    reveal_strlit("cons");
    reveal_strlit("index-atom");
    reveal_strlit("=alpha");
    reveal_strlit("is-member");
    reveal_strlit("exclude-item");
    reveal_strlit("union-atom");
    reveal_strlit("intersection-atom");
    reveal_strlit("subtraction-atom");
    reveal_strlit("same");
    reveal_strlit("maplist");
    reveal_strlit("filter-atom");
    reveal_strlit("concat");
    reveal_strlit("atom_concat");
    assert("<="@.len() == 2);
    assert(">="@.len() == 2);
    assert("!="@.len() == 2);
    assert("pow-math"@.len() == 8);
    assert("log-math"@.len() == 8);
    assert("min"@.len() == 3);
    assert("max"@.len() == 3);
    assert("append"@.len() == 6);
    assert("=="@.len() == 2);
    assert("="@.len() == 1);
    assert("=?"@.len() == 2);
    assert("test"@.len() == 4);
    assert("change-state!"@.len() == 13);
    assert("bind!"@.len() == 5);
    assert("cons-atom"@.len() == 9);
    assert("cons"@.len() == 4);
    assert("index-atom"@.len() == 10);
    assert("=alpha"@.len() == 6);
    assert("is-member"@.len() == 9);
    assert("exclude-item"@.len() == 12);
    assert("union-atom"@.len() == 10);
    assert("intersection-atom"@.len() == 17);
    assert("subtraction-atom"@.len() == 16);
    assert("same"@.len() == 4);
    assert("maplist"@.len() == 7);
    assert("filter-atom"@.len() == 11);
    assert("concat"@.len() == 6);
    assert("atom_concat"@.len() == 11);
    assert("<="@[0] != ">="@[0]);
    assert("<="@[0] != "!="@[0]);
    assert("<="@[0] != "=="@[0]);
    assert("<="@[0] != "=?"@[0]);
    let rows = compact_rows();
    lemma_compact_lengths();
    assert(rows[7] == ("<="@, 2u8, Builtin::Compact(CompactFn::AtMost), rows[7].3));
    lemma_row_found(marked_operators(with_rules(t, truth_table())), rows, 7);
}

/// `>=` is bound to its function.
proof fn lemma_compact_8(t: TableV)
    ensures
        with_compact(t).natives.contains_pair((">="@, 2u8), Builtin::Compact(CompactFn::AtLeast)),
{
    reveal_strlit(">=");
    reveal_strlit("!=");
    reveal_strlit("pow-math");
    reveal_strlit("log-math");
    reveal_strlit("min");
    reveal_strlit("max");
    reveal_strlit("append");
    reveal_strlit("==");
    reveal_strlit("=");
    reveal_strlit("=?");
    reveal_strlit("test");
    reveal_strlit("change-state!");
    reveal_strlit("bind!");
    reveal_strlit("cons-atom");
    reveal_strlit("cons");
    reveal_strlit("index-atom");
    reveal_strlit("=alpha");
    reveal_strlit("is-member");
    reveal_strlit("exclude-item");
    reveal_strlit("union-atom");
    reveal_strlit("intersection-atom");
    reveal_strlit("subtraction-atom");
    reveal_strlit("same");
    reveal_strlit("maplist");
    reveal_strlit("filter-atom");
    reveal_strlit("concat");
    reveal_strlit("atom_concat");
    assert(">="@.len() == 2);
    assert("!="@.len() == 2);
    assert("pow-math"@.len() == 8);
    assert("log-math"@.len() == 8);
    assert("min"@.len() == 3);
    assert("max"@.len() == 3);
    assert("append"@.len() == 6);
    assert("=="@.len() == 2);
    assert("="@.len() == 1);
    assert("=?"@.len() == 2);
    assert("test"@.len() == 4);
    assert("change-state!"@.len() == 13);
    assert("bind!"@.len() == 5);
    assert("cons-atom"@.len() == 9);
    assert("cons"@.len() == 4);
    assert("index-atom"@.len() == 10);
    assert("=alpha"@.len() == 6);
    assert("is-member"@.len() == 9);
    assert("exclude-item"@.len() == 12);
    assert("union-atom"@.len() == 10);
    assert("intersection-atom"@.len() == 17);
    assert("subtraction-atom"@.len() == 16);
    assert("same"@.len() == 4);
    assert("maplist"@.len() == 7);
    assert("filter-atom"@.len() == 11);
    assert("concat"@.len() == 6);
    assert("atom_concat"@.len() == 11);
    assert(">="@[0] != "!="@[0]);
    assert(">="@[0] != "=="@[0]);
    assert(">="@[0] != "=?"@[0]);
    let rows = compact_rows();
    lemma_compact_lengths();
    assert(rows[8] == (">="@, 2u8, Builtin::Compact(CompactFn::AtLeast), rows[8].3));
    lemma_row_found(marked_operators(with_rules(t, truth_table())), rows, 8);
}

/// `!=` is bound to its function.
proof fn lemma_compact_9(t: TableV)
    ensures
        with_compact(t).natives.contains_pair(("!="@, 2u8), Builtin::NotEqual),
{
    reveal_strlit("!=");
    reveal_strlit("pow-math");
    reveal_strlit("log-math");
    reveal_strlit("min");
    reveal_strlit("max");
    reveal_strlit("append");
    reveal_strlit("==");
    reveal_strlit("=");
    reveal_strlit("=?");
    reveal_strlit("test");
    reveal_strlit("change-state!");
    reveal_strlit("bind!");
    reveal_strlit("cons-atom");
    reveal_strlit("cons");
    reveal_strlit("index-atom");
    reveal_strlit("=alpha");
    reveal_strlit("is-member");
    reveal_strlit("exclude-item");
    reveal_strlit("union-atom");
    reveal_strlit("intersection-atom");
    reveal_strlit("subtraction-atom");
    reveal_strlit("same");
    reveal_strlit("maplist");
    reveal_strlit("filter-atom");
    reveal_strlit("concat");
    reveal_strlit("atom_concat");
    assert("!="@.len() == 2);
    assert("pow-math"@.len() == 8);
    assert("log-math"@.len() == 8);
    assert("min"@.len() == 3);
    assert("max"@.len() == 3);
    assert("append"@.len() == 6);
    assert("=="@.len() == 2);
    assert("="@.len() == 1);
    assert("=?"@.len() == 2);
    assert("test"@.len() == 4);
    assert("change-state!"@.len() == 13);
    assert("bind!"@.len() == 5);
    assert("cons-atom"@.len() == 9);
    assert("cons"@.len() == 4);
    assert("index-atom"@.len() == 10);
    assert("=alpha"@.len() == 6);
    assert("is-member"@.len() == 9);
    assert("exclude-item"@.len() == 12);
    assert("union-atom"@.len() == 10);
    assert("intersection-atom"@.len() == 17);
    assert("subtraction-atom"@.len() == 16);
    assert("same"@.len() == 4);
    assert("maplist"@.len() == 7);
    assert("filter-atom"@.len() == 11);
    assert("concat"@.len() == 6);
    assert("atom_concat"@.len() == 11);
    assert("!="@[0] != "=="@[0]);
    assert("!="@[0] != "=?"@[0]);
    let rows = compact_rows();
    lemma_compact_lengths();
    assert(rows[9] == ("!="@, 2u8, Builtin::NotEqual, rows[9].3));
    lemma_row_found(marked_operators(with_rules(t, truth_table())), rows, 9);
}

/// `size-atom` is bound to its function.
proof fn lemma_compact_31(t: TableV)
    ensures
        with_compact(t).natives.contains_pair(("size-atom"@, 1u8), Builtin::Size),
{
    reveal_strlit("size-atom");
    reveal_strlit("length");
    reveal_strlit("msort");
    reveal_strlit("get-atoms");
    reveal_strlit("sort");
    reveal_strlit("repr");
    reveal_strlit("get-state");
    reveal_strlit("car-atom");
    reveal_strlit("car");
    reveal_strlit("cdr-atom");
    reveal_strlit("cdr");
    reveal_strlit("id");
    reveal_strlit("first-from-pair");
    reveal_strlit("first");
    reveal_strlit("second-from-pair");
    reveal_strlit("second");
    reveal_strlit("last");
    reveal_strlit("decons");
    reveal_strlit("reverse");
    reveal_strlit("unique-atom");
    reveal_strlit("sort-atom");
    reveal_strlit("sort-math");
    reveal_strlit("decons-atom");
    reveal_strlit("list_to_set");
    reveal_strlit("alpha-unique-atom");
    reveal_strlit("is-var");
    reveal_strlit("is-expr");
    reveal_strlit("is-space");
    reveal_strlit("atom_chars");
    reveal_strlit("term_hash");
    reveal_strlit("sread");
    assert("size-atom"@.len() == 9);
    assert("length"@.len() == 6);
    assert("msort"@.len() == 5);
    assert("get-atoms"@.len() == 9);
    assert("sort"@.len() == 4);
    assert("repr"@.len() == 4);
    assert("get-state"@.len() == 9);
    assert("car-atom"@.len() == 8);
    assert("car"@.len() == 3);
    assert("cdr-atom"@.len() == 8);
    assert("cdr"@.len() == 3);
    assert("id"@.len() == 2);
    assert("first-from-pair"@.len() == 15);
    assert("first"@.len() == 5);
    assert("second-from-pair"@.len() == 16);
    assert("second"@.len() == 6);
    assert("last"@.len() == 4);
    assert("decons"@.len() == 6);
    assert("reverse"@.len() == 7);
    assert("unique-atom"@.len() == 11);
    assert("sort-atom"@.len() == 9);
    assert("sort-math"@.len() == 9);
    assert("decons-atom"@.len() == 11);
    assert("list_to_set"@.len() == 11);
    assert("alpha-unique-atom"@.len() == 17);
    assert("is-var"@.len() == 6);
    assert("is-expr"@.len() == 7);
    assert("is-space"@.len() == 8);
    assert("atom_chars"@.len() == 10);
    assert("term_hash"@.len() == 9);
    assert("sread"@.len() == 5);
    assert("size-atom"@[0] != "get-atoms"@[0]);
    assert("size-atom"@[0] != "get-state"@[0]);
    assert("size-atom"@[1] != "sort-atom"@[1]);
    assert("size-atom"@[1] != "sort-math"@[1]);
    assert("size-atom"@[0] != "term_hash"@[0]);
    let rows = compact_rows();
    lemma_compact_lengths();
    assert(rows[31] == ("size-atom"@, 1u8, Builtin::Size, rows[31].3));
    lemma_row_found(marked_operators(with_rules(t, truth_table())), rows, 31);
}

/// `length` is bound to its function.
proof fn lemma_compact_32(t: TableV)
    ensures
        with_compact(t).natives.contains_pair(("length"@, 1u8), Builtin::Size),
{
    reveal_strlit("length");
    reveal_strlit("msort");
    reveal_strlit("get-atoms");
    reveal_strlit("sort");
    reveal_strlit("repr");
    reveal_strlit("get-state");
    reveal_strlit("car-atom");
    reveal_strlit("car");
    reveal_strlit("cdr-atom");
    reveal_strlit("cdr");
    reveal_strlit("id");
    reveal_strlit("first-from-pair");
    reveal_strlit("first");
    reveal_strlit("second-from-pair");
    reveal_strlit("second");
    reveal_strlit("last");
    reveal_strlit("decons");
    reveal_strlit("reverse");
    reveal_strlit("unique-atom");
    reveal_strlit("sort-atom");
    reveal_strlit("sort-math");
    reveal_strlit("decons-atom");
    reveal_strlit("list_to_set");
    reveal_strlit("alpha-unique-atom");
    reveal_strlit("is-var");
    reveal_strlit("is-expr");
    reveal_strlit("is-space");
    reveal_strlit("atom_chars");
    reveal_strlit("term_hash");
    reveal_strlit("sread");
    assert("length"@.len() == 6);
    assert("msort"@.len() == 5);
    assert("get-atoms"@.len() == 9);
    assert("sort"@.len() == 4);
    assert("repr"@.len() == 4);
    assert("get-state"@.len() == 9);
    assert("car-atom"@.len() == 8);
    assert("car"@.len() == 3);
    assert("cdr-atom"@.len() == 8);
    assert("cdr"@.len() == 3);
    assert("id"@.len() == 2);
    assert("first-from-pair"@.len() == 15);
    assert("first"@.len() == 5);
    assert("second-from-pair"@.len() == 16);
    assert("second"@.len() == 6);
    assert("last"@.len() == 4);
    assert("decons"@.len() == 6);
    assert("reverse"@.len() == 7);
    assert("unique-atom"@.len() == 11);
    assert("sort-atom"@.len() == 9);
    assert("sort-math"@.len() == 9);
    assert("decons-atom"@.len() == 11);
    assert("list_to_set"@.len() == 11);
    assert("alpha-unique-atom"@.len() == 17);
    assert("is-var"@.len() == 6);
    assert("is-expr"@.len() == 7);
    assert("is-space"@.len() == 8);
    assert("atom_chars"@.len() == 10);
    assert("term_hash"@.len() == 9);
    assert("sread"@.len() == 5);
    assert("length"@[0] != "second"@[0]);
    assert("length"@[0] != "decons"@[0]);
    assert("length"@[0] != "is-var"@[0]);
    let rows = compact_rows();
    lemma_compact_lengths();
    assert(rows[32] == ("length"@, 1u8, Builtin::Size, rows[32].3));
    lemma_row_found(marked_operators(with_rules(t, truth_table())), rows, 32);
}

/// `append` is bound to its function.
proof fn lemma_compact_33(t: TableV)
    ensures
        with_compact(t).natives.contains_pair(("append"@, 2u8), Builtin::Append),
{
    reveal_strlit("append");
    reveal_strlit("==");
    reveal_strlit("=");
    reveal_strlit("=?");
    reveal_strlit("test");
    reveal_strlit("change-state!");
    reveal_strlit("bind!");
    reveal_strlit("cons-atom");
    reveal_strlit("cons");
    reveal_strlit("index-atom");
    reveal_strlit("=alpha");
    reveal_strlit("is-member");
    reveal_strlit("exclude-item");
    reveal_strlit("union-atom");
    reveal_strlit("intersection-atom");
    reveal_strlit("subtraction-atom");
    reveal_strlit("same");
    reveal_strlit("maplist");
    reveal_strlit("filter-atom");
    reveal_strlit("concat");
    reveal_strlit("atom_concat");
    assert("append"@.len() == 6);
    assert("=="@.len() == 2);
    assert("="@.len() == 1);
    assert("=?"@.len() == 2);
    assert("test"@.len() == 4);
    assert("change-state!"@.len() == 13);
    assert("bind!"@.len() == 5);
    assert("cons-atom"@.len() == 9);
    assert("cons"@.len() == 4);
    assert("index-atom"@.len() == 10);
    assert("=alpha"@.len() == 6);
    assert("is-member"@.len() == 9);
    assert("exclude-item"@.len() == 12);
    assert("union-atom"@.len() == 10);
    assert("intersection-atom"@.len() == 17);
    assert("subtraction-atom"@.len() == 16);
    assert("same"@.len() == 4);
    assert("maplist"@.len() == 7);
    assert("filter-atom"@.len() == 11);
    assert("concat"@.len() == 6);
    assert("atom_concat"@.len() == 11);
    assert("append"@[0] != "=alpha"@[0]);
    assert("append"@[0] != "concat"@[0]);
    let rows = compact_rows();
    lemma_compact_lengths();
    assert(rows[33] == ("append"@, 2u8, Builtin::Append, rows[33].3));
    lemma_row_found(marked_operators(with_rules(t, truth_table())), rows, 33);
}

/// `msort` is bound to its function.
proof fn lemma_compact_34(t: TableV)
    ensures
        with_compact(t).natives.contains_pair(("msort"@, 1u8), Builtin::SortText),
{
    reveal_strlit("msort");
    reveal_strlit("get-atoms");
    reveal_strlit("sort");
    reveal_strlit("repr");
    reveal_strlit("get-state");
    reveal_strlit("car-atom");
    reveal_strlit("car");
    reveal_strlit("cdr-atom");
    reveal_strlit("cdr");
    reveal_strlit("id");
    reveal_strlit("first-from-pair");
    reveal_strlit("first");
    reveal_strlit("second-from-pair");
    reveal_strlit("second");
    reveal_strlit("last");
    reveal_strlit("decons");
    reveal_strlit("reverse");
    reveal_strlit("unique-atom");
    reveal_strlit("sort-atom");
    reveal_strlit("sort-math");
    reveal_strlit("decons-atom");
    reveal_strlit("list_to_set");
    reveal_strlit("alpha-unique-atom");
    reveal_strlit("is-var");
    reveal_strlit("is-expr");
    reveal_strlit("is-space");
    reveal_strlit("atom_chars");
    reveal_strlit("term_hash");
    reveal_strlit("sread");
    assert("msort"@.len() == 5);
    assert("get-atoms"@.len() == 9);
    assert("sort"@.len() == 4);
    assert("repr"@.len() == 4);
    assert("get-state"@.len() == 9);
    assert("car-atom"@.len() == 8);
    assert("car"@.len() == 3);
    assert("cdr-atom"@.len() == 8);
    assert("cdr"@.len() == 3);
    assert("id"@.len() == 2);
    assert("first-from-pair"@.len() == 15);
    assert("first"@.len() == 5);
    assert("second-from-pair"@.len() == 16);
    assert("second"@.len() == 6);
    assert("last"@.len() == 4);
    assert("decons"@.len() == 6);
    assert("reverse"@.len() == 7);
    assert("unique-atom"@.len() == 11);
    assert("sort-atom"@.len() == 9);
    assert("sort-math"@.len() == 9);
    assert("decons-atom"@.len() == 11);
    assert("list_to_set"@.len() == 11);
    assert("alpha-unique-atom"@.len() == 17);
    assert("is-var"@.len() == 6);
    assert("is-expr"@.len() == 7);
    assert("is-space"@.len() == 8);
    assert("atom_chars"@.len() == 10);
    assert("term_hash"@.len() == 9);
    assert("sread"@.len() == 5);
    assert("msort"@[0] != "first"@[0]);
    assert("msort"@[0] != "sread"@[0]);
    let rows = compact_rows();
    lemma_compact_lengths();
    assert(rows[34] == ("msort"@, 1u8, Builtin::SortText, rows[34].3));
    lemma_row_found(marked_operators(with_rules(t, truth_table())), rows, 34);
}

/// `get-atoms` is bound to its function.
proof fn lemma_compact_35(t: TableV)
    ensures
        with_compact(t).natives.contains_pair(("get-atoms"@, 1u8), Builtin::Compact(CompactFn::GetAtoms)),
{
    reveal_strlit("get-atoms");
    reveal_strlit("sort");
    reveal_strlit("repr");
    reveal_strlit("get-state");
    reveal_strlit("car-atom");
    reveal_strlit("car");
    reveal_strlit("cdr-atom");
    reveal_strlit("cdr");
    reveal_strlit("id");
    reveal_strlit("first-from-pair");
    reveal_strlit("first");
    reveal_strlit("second-from-pair");
    reveal_strlit("second");
    reveal_strlit("last");
    reveal_strlit("decons");
    reveal_strlit("reverse");
    reveal_strlit("unique-atom");
    reveal_strlit("sort-atom");
    reveal_strlit("sort-math");
    reveal_strlit("decons-atom");
    reveal_strlit("list_to_set");
    reveal_strlit("alpha-unique-atom");
    reveal_strlit("is-var");
    reveal_strlit("is-expr");
    reveal_strlit("is-space");
    reveal_strlit("atom_chars");
    reveal_strlit("term_hash");
    reveal_strlit("sread");
    assert("get-atoms"@.len() == 9);
    assert("sort"@.len() == 4);
    assert("repr"@.len() == 4);
    assert("get-state"@.len() == 9);
    assert("car-atom"@.len() == 8);
    assert("car"@.len() == 3);
    assert("cdr-atom"@.len() == 8);
    assert("cdr"@.len() == 3);
    assert("id"@.len() == 2);
    assert("first-from-pair"@.len() == 15);
    assert("first"@.len() == 5);
    assert("second-from-pair"@.len() == 16);
    assert("second"@.len() == 6);
    assert("last"@.len() == 4);
    assert("decons"@.len() == 6);
    assert("reverse"@.len() == 7);
    assert("unique-atom"@.len() == 11);
    assert("sort-atom"@.len() == 9);
    assert("sort-math"@.len() == 9);
    assert("decons-atom"@.len() == 11);
    assert("list_to_set"@.len() == 11);
    assert("alpha-unique-atom"@.len() == 17);
    assert("is-var"@.len() == 6);
    assert("is-expr"@.len() == 7);
    assert("is-space"@.len() == 8);
    assert("atom_chars"@.len() == 10);
    assert("term_hash"@.len() == 9);
    assert("sread"@.len() == 5);
    assert("get-atoms"@[4] != "get-state"@[4]);
    assert("get-atoms"@[0] != "sort-atom"@[0]);
    assert("get-atoms"@[0] != "sort-math"@[0]);
    assert("get-atoms"@[0] != "term_hash"@[0]);
    let rows = compact_rows();
    lemma_compact_lengths();
    assert(rows[35] == ("get-atoms"@, 1u8, Builtin::Compact(CompactFn::GetAtoms), rows[35].3));
    lemma_row_found(marked_operators(with_rules(t, truth_table())), rows, 35);
}

/// `sort` is bound to its function.
proof fn lemma_compact_36(t: TableV)
    ensures
        with_compact(t).natives.contains_pair(("sort"@, 1u8), Builtin::SortUnique),
{
    reveal_strlit("sort");
    reveal_strlit("repr");
    reveal_strlit("get-state");
    reveal_strlit("car-atom");
    reveal_strlit("car");
    reveal_strlit("cdr-atom");
    reveal_strlit("cdr");
    reveal_strlit("id");
    reveal_strlit("first-from-pair");
    reveal_strlit("first");
    reveal_strlit("second-from-pair");
    reveal_strlit("second");
    reveal_strlit("last");
    reveal_strlit("decons");
    reveal_strlit("reverse");
    reveal_strlit("unique-atom");
    reveal_strlit("sort-atom");
    reveal_strlit("sort-math");
    reveal_strlit("decons-atom");
    reveal_strlit("list_to_set");
    reveal_strlit("alpha-unique-atom");
    reveal_strlit("is-var");
    reveal_strlit("is-expr");
    reveal_strlit("is-space");
    reveal_strlit("atom_chars");
    reveal_strlit("term_hash");
    reveal_strlit("sread");
    assert("sort"@.len() == 4);
    assert("repr"@.len() == 4);
    assert("get-state"@.len() == 9);
    assert("car-atom"@.len() == 8);
    assert("car"@.len() == 3);
    assert("cdr-atom"@.len() == 8);
    assert("cdr"@.len() == 3);
    assert("id"@.len() == 2);
    assert("first-from-pair"@.len() == 15);
    assert("first"@.len() == 5);
    assert("second-from-pair"@.len() == 16);
    assert("second"@.len() == 6);
    assert("last"@.len() == 4);
    assert("decons"@.len() == 6);
    assert("reverse"@.len() == 7);
    assert("unique-atom"@.len() == 11);
    assert("sort-atom"@.len() == 9);
    assert("sort-math"@.len() == 9);
    assert("decons-atom"@.len() == 11);
    assert("list_to_set"@.len() == 11);
    assert("alpha-unique-atom"@.len() == 17);
    assert("is-var"@.len() == 6);
    assert("is-expr"@.len() == 7);
    assert("is-space"@.len() == 8);
    assert("atom_chars"@.len() == 10);
    assert("term_hash"@.len() == 9);
    assert("sread"@.len() == 5);
    assert("sort"@[0] != "repr"@[0]);
    assert("sort"@[0] != "last"@[0]);
    let rows = compact_rows();
    lemma_compact_lengths();
    assert(rows[36] == ("sort"@, 1u8, Builtin::SortUnique, rows[36].3));
    lemma_row_found(marked_operators(with_rules(t, truth_table())), rows, 36);
}

/// `==` is bound to its function.
proof fn lemma_compact_37(t: TableV)
    ensures
        with_compact(t).natives.contains_pair(("=="@, 2u8), Builtin::Equal),
{
    reveal_strlit("==");
    reveal_strlit("=");
    reveal_strlit("=?");
    reveal_strlit("test");
    reveal_strlit("change-state!");
    reveal_strlit("bind!");
    reveal_strlit("cons-atom");
    reveal_strlit("cons");
    reveal_strlit("index-atom");
    reveal_strlit("=alpha");
    reveal_strlit("is-member");
    reveal_strlit("exclude-item");
    reveal_strlit("union-atom");
    reveal_strlit("intersection-atom");
    reveal_strlit("subtraction-atom");
    reveal_strlit("same");
    reveal_strlit("maplist");
    reveal_strlit("filter-atom");
    reveal_strlit("concat");
    reveal_strlit("atom_concat");
    assert("=="@.len() == 2);
    assert("="@.len() == 1);
    assert("=?"@.len() == 2);
    assert("test"@.len() == 4);
    assert("change-state!"@.len() == 13);
    assert("bind!"@.len() == 5);
    assert("cons-atom"@.len() == 9);
    assert("cons"@.len() == 4);
    assert("index-atom"@.len() == 10);
    assert("=alpha"@.len() == 6);
    assert("is-member"@.len() == 9);
    assert("exclude-item"@.len() == 12);
    assert("union-atom"@.len() == 10);
    assert("intersection-atom"@.len() == 17);
    assert("subtraction-atom"@.len() == 16);
    assert("same"@.len() == 4);
    assert("maplist"@.len() == 7);
    assert("filter-atom"@.len() == 11);
    assert("concat"@.len() == 6);
    assert("atom_concat"@.len() == 11);
    assert("=="@[1] != "=?"@[1]);
    let rows = compact_rows();
    lemma_compact_lengths();
    assert(rows[37] == ("=="@, 2u8, Builtin::Equal, rows[37].3));
    lemma_row_found(marked_operators(with_rules(t, truth_table())), rows, 37);
}

/// `=` is bound to its function.
proof fn lemma_compact_38(t: TableV)
    ensures
        with_compact(t).natives.contains_pair(("="@, 2u8), Builtin::Equal),
{
    reveal_strlit("=");
    reveal_strlit("=?");
    reveal_strlit("test");
    reveal_strlit("change-state!");
    reveal_strlit("bind!");
    reveal_strlit("cons-atom");
    reveal_strlit("cons");
    reveal_strlit("index-atom");
    reveal_strlit("=alpha");
    reveal_strlit("is-member");
    reveal_strlit("exclude-item");
    reveal_strlit("union-atom");
    reveal_strlit("intersection-atom");
    reveal_strlit("subtraction-atom");
    reveal_strlit("same");
    reveal_strlit("maplist");
    reveal_strlit("filter-atom");
    reveal_strlit("concat");
    reveal_strlit("atom_concat");
    assert("="@.len() == 1);
    assert("=?"@.len() == 2);
    assert("test"@.len() == 4);
    assert("change-state!"@.len() == 13);
    assert("bind!"@.len() == 5);
    assert("cons-atom"@.len() == 9);
    assert("cons"@.len() == 4);
    assert("index-atom"@.len() == 10);
    assert("=alpha"@.len() == 6);
    assert("is-member"@.len() == 9);
    assert("exclude-item"@.len() == 12);
    assert("union-atom"@.len() == 10);
    assert("intersection-atom"@.len() == 17);
    assert("subtraction-atom"@.len() == 16);
    assert("same"@.len() == 4);
    assert("maplist"@.len() == 7);
    assert("filter-atom"@.len() == 11);
    assert("concat"@.len() == 6);
    assert("atom_concat"@.len() == 11);
    let rows = compact_rows();
    lemma_compact_lengths();
    assert(rows[38] == ("="@, 2u8, Builtin::Equal, rows[38].3));
    lemma_row_found(marked_operators(with_rules(t, truth_table())), rows, 38);
}

/// `=?` is bound to its function.
proof fn lemma_compact_39(t: TableV)
    ensures
        with_compact(t).natives.contains_pair(("=?"@, 2u8), Builtin::Equal),
{
    reveal_strlit("=?");
    reveal_strlit("test");
    reveal_strlit("change-state!");
    reveal_strlit("bind!");
    reveal_strlit("cons-atom");
    reveal_strlit("cons");
    reveal_strlit("index-atom");
    reveal_strlit("=alpha");
    reveal_strlit("is-member");
    reveal_strlit("exclude-item");
    reveal_strlit("union-atom");
    reveal_strlit("intersection-atom");
    reveal_strlit("subtraction-atom");
    reveal_strlit("same");
    reveal_strlit("maplist");
    reveal_strlit("filter-atom");
    reveal_strlit("concat");
    reveal_strlit("atom_concat");
    assert("=?"@.len() == 2);
    assert("test"@.len() == 4);
    assert("change-state!"@.len() == 13);
    assert("bind!"@.len() == 5);
    assert("cons-atom"@.len() == 9);
    assert("cons"@.len() == 4);
    assert("index-atom"@.len() == 10);
    assert("=alpha"@.len() == 6);
    assert("is-member"@.len() == 9);
    assert("exclude-item"@.len() == 12);
    assert("union-atom"@.len() == 10);
    assert("intersection-atom"@.len() == 17);
    assert("subtraction-atom"@.len() == 16);
    assert("same"@.len() == 4);
    assert("maplist"@.len() == 7);
    assert("filter-atom"@.len() == 11);
    assert("concat"@.len() == 6);
    assert("atom_concat"@.len() == 11);
    let rows = compact_rows();
    lemma_compact_lengths();
    assert(rows[39] == ("=?"@, 2u8, Builtin::Equal, rows[39].3));
    lemma_row_found(marked_operators(with_rules(t, truth_table())), rows, 39);
}

/// `test` is bound to its function.
proof fn lemma_compact_40(t: TableV)
    ensures
        with_compact(t).natives.contains_pair(("test"@, 2u8), Builtin::Compact(CompactFn::Test)),
{
    reveal_strlit("test");
    reveal_strlit("change-state!");
    reveal_strlit("bind!");
    reveal_strlit("cons-atom");
    reveal_strlit("cons");
    reveal_strlit("index-atom");
    reveal_strlit("=alpha");
    reveal_strlit("is-member");
    reveal_strlit("exclude-item");
    reveal_strlit("union-atom");
    reveal_strlit("intersection-atom");
    reveal_strlit("subtraction-atom");
    reveal_strlit("same");
    reveal_strlit("maplist");
    reveal_strlit("filter-atom");
    reveal_strlit("concat");
    reveal_strlit("atom_concat");
    assert("test"@.len() == 4);
    assert("change-state!"@.len() == 13);
    assert("bind!"@.len() == 5);
    assert("cons-atom"@.len() == 9);
    assert("cons"@.len() == 4);
    assert("index-atom"@.len() == 10);
    assert("=alpha"@.len() == 6);
    assert("is-member"@.len() == 9);
    assert("exclude-item"@.len() == 12);
    assert("union-atom"@.len() == 10);
    assert("intersection-atom"@.len() == 17);
    assert("subtraction-atom"@.len() == 16);
    assert("same"@.len() == 4);
    assert("maplist"@.len() == 7);
    assert("filter-atom"@.len() == 11);
    assert("concat"@.len() == 6);
    assert("atom_concat"@.len() == 11);
    assert("test"@[0] != "cons"@[0]);
    assert("test"@[0] != "same"@[0]);
    let rows = compact_rows();
    lemma_compact_lengths();
    assert(rows[40] == ("test"@, 2u8, Builtin::Compact(CompactFn::Test), rows[40].3));
    lemma_row_found(marked_operators(with_rules(t, truth_table())), rows, 40);
}

/// `repr` is bound to its function.
proof fn lemma_compact_41(t: TableV)
    ensures
        with_compact(t).natives.contains_pair(("repr"@, 1u8), Builtin::Compact(CompactFn::Repr)),
{
    reveal_strlit("repr");
    reveal_strlit("get-state");
    reveal_strlit("car-atom");
    reveal_strlit("car");
    reveal_strlit("cdr-atom");
    reveal_strlit("cdr");
    reveal_strlit("id");
    reveal_strlit("first-from-pair");
    reveal_strlit("first");
    reveal_strlit("second-from-pair");
    reveal_strlit("second");
    reveal_strlit("last");
    reveal_strlit("decons");
    reveal_strlit("reverse");
    reveal_strlit("unique-atom");
    reveal_strlit("sort-atom");
    reveal_strlit("sort-math");
    reveal_strlit("decons-atom");
    reveal_strlit("list_to_set");
    reveal_strlit("alpha-unique-atom");
    reveal_strlit("is-var");
    reveal_strlit("is-expr");
    reveal_strlit("is-space");
    reveal_strlit("atom_chars");
    reveal_strlit("term_hash");
    reveal_strlit("sread");
    assert("repr"@.len() == 4);
    assert("get-state"@.len() == 9);
    assert("car-atom"@.len() == 8);
    assert("car"@.len() == 3);
    assert("cdr-atom"@.len() == 8);
    assert("cdr"@.len() == 3);
    assert("id"@.len() == 2);
    assert("first-from-pair"@.len() == 15);
    assert("first"@.len() == 5);
    assert("second-from-pair"@.len() == 16);
    assert("second"@.len() == 6);
    assert("last"@.len() == 4);
    assert("decons"@.len() == 6);
    assert("reverse"@.len() == 7);
    assert("unique-atom"@.len() == 11);
    assert("sort-atom"@.len() == 9);
    assert("sort-math"@.len() == 9);
    assert("decons-atom"@.len() == 11);
    assert("list_to_set"@.len() == 11);
    assert("alpha-unique-atom"@.len() == 17);
    assert("is-var"@.len() == 6);
    assert("is-expr"@.len() == 7);
    assert("is-space"@.len() == 8);
    assert("atom_chars"@.len() == 10);
    assert("term_hash"@.len() == 9);
    assert("sread"@.len() == 5);
    assert("repr"@[0] != "last"@[0]);
    let rows = compact_rows();
    lemma_compact_lengths();
    assert(rows[41] == ("repr"@, 1u8, Builtin::Compact(CompactFn::Repr), rows[41].3));
    lemma_row_found(marked_operators(with_rules(t, truth_table())), rows, 41);
}

/// `get-state` is bound to its function.
proof fn lemma_compact_42(t: TableV)
    ensures
        with_compact(t).natives.contains_pair(("get-state"@, 1u8), Builtin::GetState),
{
    reveal_strlit("get-state");
    reveal_strlit("car-atom");
    reveal_strlit("car");
    reveal_strlit("cdr-atom");
    reveal_strlit("cdr");
    reveal_strlit("id");
    reveal_strlit("first-from-pair");
    reveal_strlit("first");
    reveal_strlit("second-from-pair");
    reveal_strlit("second");
    reveal_strlit("last");
    reveal_strlit("decons");
    reveal_strlit("reverse");
    reveal_strlit("unique-atom");
    reveal_strlit("sort-atom");
    reveal_strlit("sort-math");
    reveal_strlit("decons-atom");
    reveal_strlit("list_to_set");
    reveal_strlit("alpha-unique-atom");
    reveal_strlit("is-var");
    reveal_strlit("is-expr");
    reveal_strlit("is-space");
    reveal_strlit("atom_chars");
    reveal_strlit("term_hash");
    reveal_strlit("sread");
    assert("get-state"@.len() == 9);
    assert("car-atom"@.len() == 8);
    assert("car"@.len() == 3);
    assert("cdr-atom"@.len() == 8);
    assert("cdr"@.len() == 3);
    assert("id"@.len() == 2);
    assert("first-from-pair"@.len() == 15);
    assert("first"@.len() == 5);
    assert("second-from-pair"@.len() == 16);
    assert("second"@.len() == 6);
    assert("last"@.len() == 4);
    assert("decons"@.len() == 6);
    assert("reverse"@.len() == 7);
    assert("unique-atom"@.len() == 11);
    assert("sort-atom"@.len() == 9);
    assert("sort-math"@.len() == 9);
    assert("decons-atom"@.len() == 11);
    assert("list_to_set"@.len() == 11);
    assert("alpha-unique-atom"@.len() == 17);
    assert("is-var"@.len() == 6);
    assert("is-expr"@.len() == 7);
    assert("is-space"@.len() == 8);
    assert("atom_chars"@.len() == 10);
    assert("term_hash"@.len() == 9);
    assert("sread"@.len() == 5);
    assert("get-state"@[0] != "sort-atom"@[0]);
    assert("get-state"@[0] != "sort-math"@[0]);
    assert("get-state"@[0] != "term_hash"@[0]);
    let rows = compact_rows();
    lemma_compact_lengths();
    assert(rows[42] == ("get-state"@, 1u8, Builtin::GetState, rows[42].3));
    lemma_row_found(marked_operators(with_rules(t, truth_table())), rows, 42);
}

/// `change-state!` is bound to its function.
proof fn lemma_compact_43(t: TableV)
    ensures
        with_compact(t).natives.contains_pair(("change-state!"@, 2u8), Builtin::ChangeState),
{
    reveal_strlit("change-state!");
    reveal_strlit("bind!");
    reveal_strlit("cons-atom");
    reveal_strlit("cons");
    reveal_strlit("index-atom");
    reveal_strlit("=alpha");
    reveal_strlit("is-member");
    reveal_strlit("exclude-item");
    reveal_strlit("union-atom");
    reveal_strlit("intersection-atom");
    reveal_strlit("subtraction-atom");
    reveal_strlit("same");
    reveal_strlit("maplist");
    reveal_strlit("filter-atom");
    reveal_strlit("concat");
    reveal_strlit("atom_concat");
    assert("change-state!"@.len() == 13);
    assert("bind!"@.len() == 5);
    assert("cons-atom"@.len() == 9);
    assert("cons"@.len() == 4);
    assert("index-atom"@.len() == 10);
    assert("=alpha"@.len() == 6);
    assert("is-member"@.len() == 9);
    assert("exclude-item"@.len() == 12);
    assert("union-atom"@.len() == 10);
    assert("intersection-atom"@.len() == 17);
    assert("subtraction-atom"@.len() == 16);
    assert("same"@.len() == 4);
    assert("maplist"@.len() == 7);
    assert("filter-atom"@.len() == 11);
    assert("concat"@.len() == 6);
    assert("atom_concat"@.len() == 11);
    let rows = compact_rows();
    lemma_compact_lengths();
    assert(rows[43] == ("change-state!"@, 2u8, Builtin::ChangeState, rows[43].3));
    lemma_row_found(marked_operators(with_rules(t, truth_table())), rows, 43);
}

/// `bind!` is bound to its function.
proof fn lemma_compact_44(t: TableV)
    ensures
        with_compact(t).natives.contains_pair(("bind!"@, 2u8), Builtin::BindState),
{
    reveal_strlit("bind!");
    reveal_strlit("cons-atom");
    reveal_strlit("cons");
    reveal_strlit("index-atom");
    reveal_strlit("=alpha");
    reveal_strlit("is-member");
    reveal_strlit("exclude-item");
    reveal_strlit("union-atom");
    reveal_strlit("intersection-atom");
    reveal_strlit("subtraction-atom");
    reveal_strlit("same");
    reveal_strlit("maplist");
    reveal_strlit("filter-atom");
    reveal_strlit("concat");
    reveal_strlit("atom_concat");
    assert("bind!"@.len() == 5);
    assert("cons-atom"@.len() == 9);
    assert("cons"@.len() == 4);
    assert("index-atom"@.len() == 10);
    assert("=alpha"@.len() == 6);
    assert("is-member"@.len() == 9);
    assert("exclude-item"@.len() == 12);
    assert("union-atom"@.len() == 10);
    assert("intersection-atom"@.len() == 17);
    assert("subtraction-atom"@.len() == 16);
    assert("same"@.len() == 4);
    assert("maplist"@.len() == 7);
    assert("filter-atom"@.len() == 11);
    assert("concat"@.len() == 6);
    assert("atom_concat"@.len() == 11);
    let rows = compact_rows();
    lemma_compact_lengths();
    assert(rows[44] == ("bind!"@, 2u8, Builtin::BindState, rows[44].3));
    lemma_row_found(marked_operators(with_rules(t, truth_table())), rows, 44);
}

/// `cons-atom` is bound to its function.
proof fn lemma_compact_45(t: TableV)
    ensures
        with_compact(t).natives.contains_pair(("cons-atom"@, 2u8), Builtin::Cons),
{
    reveal_strlit("cons-atom");
    reveal_strlit("cons");
    reveal_strlit("index-atom");
    reveal_strlit("=alpha");
    reveal_strlit("is-member");
    reveal_strlit("exclude-item");
    reveal_strlit("union-atom");
    reveal_strlit("intersection-atom");
    reveal_strlit("subtraction-atom");
    reveal_strlit("same");
    reveal_strlit("maplist");
    reveal_strlit("filter-atom");
    reveal_strlit("concat");
    reveal_strlit("atom_concat");
    assert("cons-atom"@.len() == 9);
    assert("cons"@.len() == 4);
    assert("index-atom"@.len() == 10);
    assert("=alpha"@.len() == 6);
    assert("is-member"@.len() == 9);
    assert("exclude-item"@.len() == 12);
    assert("union-atom"@.len() == 10);
    assert("intersection-atom"@.len() == 17);
    assert("subtraction-atom"@.len() == 16);
    assert("same"@.len() == 4);
    assert("maplist"@.len() == 7);
    assert("filter-atom"@.len() == 11);
    assert("concat"@.len() == 6);
    assert("atom_concat"@.len() == 11);
    assert("cons-atom"@[0] != "is-member"@[0]);
    let rows = compact_rows();
    lemma_compact_lengths();
    assert(rows[45] == ("cons-atom"@, 2u8, Builtin::Cons, rows[45].3));
    lemma_row_found(marked_operators(with_rules(t, truth_table())), rows, 45);
}

/// `cons` is bound to its function.
proof fn lemma_compact_46(t: TableV)
    ensures
        with_compact(t).natives.contains_pair(("cons"@, 2u8), Builtin::Cons),
{
    reveal_strlit("cons");
    reveal_strlit("index-atom");
    reveal_strlit("=alpha");
    reveal_strlit("is-member");
    reveal_strlit("exclude-item");
    reveal_strlit("union-atom");
    reveal_strlit("intersection-atom");
    reveal_strlit("subtraction-atom");
    reveal_strlit("same");
    reveal_strlit("maplist");
    reveal_strlit("filter-atom");
    reveal_strlit("concat");
    reveal_strlit("atom_concat");
    assert("cons"@.len() == 4);
    assert("index-atom"@.len() == 10);
    assert("=alpha"@.len() == 6);
    assert("is-member"@.len() == 9);
    assert("exclude-item"@.len() == 12);
    assert("union-atom"@.len() == 10);
    assert("intersection-atom"@.len() == 17);
    assert("subtraction-atom"@.len() == 16);
    assert("same"@.len() == 4);
    assert("maplist"@.len() == 7);
    assert("filter-atom"@.len() == 11);
    assert("concat"@.len() == 6);
    assert("atom_concat"@.len() == 11);
    assert("cons"@[0] != "same"@[0]);
    let rows = compact_rows();
    lemma_compact_lengths();
    assert(rows[46] == ("cons"@, 2u8, Builtin::Cons, rows[46].3));
    lemma_row_found(marked_operators(with_rules(t, truth_table())), rows, 46);
}

/// `car-atom` is bound to its function.
proof fn lemma_compact_47(t: TableV)
    ensures
        with_compact(t).natives.contains_pair(("car-atom"@, 1u8), Builtin::Head),
{
    reveal_strlit("car-atom");
    reveal_strlit("car");
    reveal_strlit("cdr-atom");
    reveal_strlit("cdr");
    reveal_strlit("id");
    reveal_strlit("first-from-pair");
    reveal_strlit("first");
    reveal_strlit("second-from-pair");
    reveal_strlit("second");
    reveal_strlit("last");
    reveal_strlit("decons");
    reveal_strlit("reverse");
    reveal_strlit("unique-atom");
    reveal_strlit("sort-atom");
    reveal_strlit("sort-math");
    reveal_strlit("decons-atom");
    reveal_strlit("list_to_set");
    reveal_strlit("alpha-unique-atom");
    reveal_strlit("is-var");
    reveal_strlit("is-expr");
    reveal_strlit("is-space");
    reveal_strlit("atom_chars");
    reveal_strlit("term_hash");
    reveal_strlit("sread");
    assert("car-atom"@.len() == 8);
    assert("car"@.len() == 3);
    assert("cdr-atom"@.len() == 8);
    assert("cdr"@.len() == 3);
    assert("id"@.len() == 2);
    assert("first-from-pair"@.len() == 15);
    assert("first"@.len() == 5);
    assert("second-from-pair"@.len() == 16);
    assert("second"@.len() == 6);
    assert("last"@.len() == 4);
    assert("decons"@.len() == 6);
    assert("reverse"@.len() == 7);
    assert("unique-atom"@.len() == 11);
    assert("sort-atom"@.len() == 9);
    assert("sort-math"@.len() == 9);
    assert("decons-atom"@.len() == 11);
    assert("list_to_set"@.len() == 11);
    assert("alpha-unique-atom"@.len() == 17);
    assert("is-var"@.len() == 6);
    assert("is-expr"@.len() == 7);
    assert("is-space"@.len() == 8);
    assert("atom_chars"@.len() == 10);
    assert("term_hash"@.len() == 9);
    assert("sread"@.len() == 5);
    assert("car-atom"@[1] != "cdr-atom"@[1]);
    assert("car-atom"@[0] != "is-space"@[0]);
    let rows = compact_rows();
    lemma_compact_lengths();
    assert(rows[47] == ("car-atom"@, 1u8, Builtin::Head, rows[47].3));
    lemma_row_found(marked_operators(with_rules(t, truth_table())), rows, 47);
}

/// `car` is bound to its function.
proof fn lemma_compact_48(t: TableV)
    ensures
        with_compact(t).natives.contains_pair(("car"@, 1u8), Builtin::Head),
{
    reveal_strlit("car");
    reveal_strlit("cdr-atom");
    reveal_strlit("cdr");
    reveal_strlit("id");
    reveal_strlit("first-from-pair");
    reveal_strlit("first");
    reveal_strlit("second-from-pair");
    reveal_strlit("second");
    reveal_strlit("last");
    reveal_strlit("decons");
    reveal_strlit("reverse");
    reveal_strlit("unique-atom");
    reveal_strlit("sort-atom");
    reveal_strlit("sort-math");
    reveal_strlit("decons-atom");
    reveal_strlit("list_to_set");
    reveal_strlit("alpha-unique-atom");
    reveal_strlit("is-var");
    reveal_strlit("is-expr");
    reveal_strlit("is-space");
    reveal_strlit("atom_chars");
    reveal_strlit("term_hash");
    reveal_strlit("sread");
    assert("car"@.len() == 3);
    assert("cdr-atom"@.len() == 8);
    assert("cdr"@.len() == 3);
    assert("id"@.len() == 2);
    assert("first-from-pair"@.len() == 15);
    assert("first"@.len() == 5);
    assert("second-from-pair"@.len() == 16);
    assert("second"@.len() == 6);
    assert("last"@.len() == 4);
    assert("decons"@.len() == 6);
    assert("reverse"@.len() == 7);
    assert("unique-atom"@.len() == 11);
    assert("sort-atom"@.len() == 9);
    assert("sort-math"@.len() == 9);
    assert("decons-atom"@.len() == 11);
    assert("list_to_set"@.len() == 11);
    assert("alpha-unique-atom"@.len() == 17);
    assert("is-var"@.len() == 6);
    assert("is-expr"@.len() == 7);
    assert("is-space"@.len() == 8);
    assert("atom_chars"@.len() == 10);
    assert("term_hash"@.len() == 9);
    assert("sread"@.len() == 5);
    assert("car"@[1] != "cdr"@[1]);
    let rows = compact_rows();
    lemma_compact_lengths();
    assert(rows[48] == ("car"@, 1u8, Builtin::Head, rows[48].3));
    lemma_row_found(marked_operators(with_rules(t, truth_table())), rows, 48);
}

/// `cdr-atom` is bound to its function.
proof fn lemma_compact_49(t: TableV)
    ensures
        with_compact(t).natives.contains_pair(("cdr-atom"@, 1u8), Builtin::Tail),
{
    reveal_strlit("cdr-atom");
    reveal_strlit("cdr");
    reveal_strlit("id");
    reveal_strlit("first-from-pair");
    reveal_strlit("first");
    reveal_strlit("second-from-pair");
    reveal_strlit("second");
    reveal_strlit("last");
    reveal_strlit("decons");
    reveal_strlit("reverse");
    reveal_strlit("unique-atom");
    reveal_strlit("sort-atom");
    reveal_strlit("sort-math");
    reveal_strlit("decons-atom");
    reveal_strlit("list_to_set");
    reveal_strlit("alpha-unique-atom");
    reveal_strlit("is-var");
    reveal_strlit("is-expr");
    reveal_strlit("is-space");
    reveal_strlit("atom_chars");
    reveal_strlit("term_hash");
    reveal_strlit("sread");
    assert("cdr-atom"@.len() == 8);
    assert("cdr"@.len() == 3);
    assert("id"@.len() == 2);
    assert("first-from-pair"@.len() == 15);
    assert("first"@.len() == 5);
    assert("second-from-pair"@.len() == 16);
    assert("second"@.len() == 6);
    assert("last"@.len() == 4);
    assert("decons"@.len() == 6);
    assert("reverse"@.len() == 7);
    assert("unique-atom"@.len() == 11);
    assert("sort-atom"@.len() == 9);
    assert("sort-math"@.len() == 9);
    assert("decons-atom"@.len() == 11);
    assert("list_to_set"@.len() == 11);
    assert("alpha-unique-atom"@.len() == 17);
    assert("is-var"@.len() == 6);
    assert("is-expr"@.len() == 7);
    assert("is-space"@.len() == 8);
    assert("atom_chars"@.len() == 10);
    assert("term_hash"@.len() == 9);
    assert("sread"@.len() == 5);
    assert("cdr-atom"@[0] != "is-space"@[0]);
    let rows = compact_rows();
    lemma_compact_lengths();
    assert(rows[49] == ("cdr-atom"@, 1u8, Builtin::Tail, rows[49].3));
    lemma_row_found(marked_operators(with_rules(t, truth_table())), rows, 49);
}

/// `cdr` is bound to its function.
proof fn lemma_compact_50(t: TableV)
    ensures
        with_compact(t).natives.contains_pair(("cdr"@, 1u8), Builtin::Tail),
{
    reveal_strlit("cdr");
    reveal_strlit("id");
    reveal_strlit("first-from-pair");
    reveal_strlit("first");
    reveal_strlit("second-from-pair");
    reveal_strlit("second");
    reveal_strlit("last");
    reveal_strlit("decons");
    reveal_strlit("reverse");
    reveal_strlit("unique-atom");
    reveal_strlit("sort-atom");
    reveal_strlit("sort-math");
    reveal_strlit("decons-atom");
    reveal_strlit("list_to_set");
    reveal_strlit("alpha-unique-atom");
    reveal_strlit("is-var");
    reveal_strlit("is-expr");
    reveal_strlit("is-space");
    reveal_strlit("atom_chars");
    reveal_strlit("term_hash");
    reveal_strlit("sread");
    assert("cdr"@.len() == 3);
    assert("id"@.len() == 2);
    assert("first-from-pair"@.len() == 15);
    assert("first"@.len() == 5);
    assert("second-from-pair"@.len() == 16);
    assert("second"@.len() == 6);
    assert("last"@.len() == 4);
    assert("decons"@.len() == 6);
    assert("reverse"@.len() == 7);
    assert("unique-atom"@.len() == 11);
    assert("sort-atom"@.len() == 9);
    assert("sort-math"@.len() == 9);
    assert("decons-atom"@.len() == 11);
    assert("list_to_set"@.len() == 11);
    assert("alpha-unique-atom"@.len() == 17);
    assert("is-var"@.len() == 6);
    assert("is-expr"@.len() == 7);
    assert("is-space"@.len() == 8);
    assert("atom_chars"@.len() == 10);
    assert("term_hash"@.len() == 9);
    assert("sread"@.len() == 5);
    let rows = compact_rows();
    lemma_compact_lengths();
    assert(rows[50] == ("cdr"@, 1u8, Builtin::Tail, rows[50].3));
    lemma_row_found(marked_operators(with_rules(t, truth_table())), rows, 50);
}

/// `index-atom` is bound to its function.
proof fn lemma_compact_51(t: TableV)
    ensures
        with_compact(t).natives.contains_pair(("index-atom"@, 2u8), Builtin::Index),
{
    reveal_strlit("index-atom");
    reveal_strlit("=alpha");
    reveal_strlit("is-member");
    reveal_strlit("exclude-item");
    reveal_strlit("union-atom");
    reveal_strlit("intersection-atom");
    reveal_strlit("subtraction-atom");
    reveal_strlit("same");
    reveal_strlit("maplist");
    reveal_strlit("filter-atom");
    reveal_strlit("concat");
    reveal_strlit("atom_concat");
    assert("index-atom"@.len() == 10);
    assert("=alpha"@.len() == 6);
    assert("is-member"@.len() == 9);
    assert("exclude-item"@.len() == 12);
    assert("union-atom"@.len() == 10);
    assert("intersection-atom"@.len() == 17);
    assert("subtraction-atom"@.len() == 16);
    assert("same"@.len() == 4);
    assert("maplist"@.len() == 7);
    assert("filter-atom"@.len() == 11);
    assert("concat"@.len() == 6);
    assert("atom_concat"@.len() == 11);
    assert("index-atom"@[0] != "union-atom"@[0]);
    let rows = compact_rows();
    lemma_compact_lengths();
    assert(rows[51] == ("index-atom"@, 2u8, Builtin::Index, rows[51].3));
    lemma_row_found(marked_operators(with_rules(t, truth_table())), rows, 51);
}

/// `id` is bound to its function.
proof fn lemma_compact_52(t: TableV)
    ensures
        with_compact(t).natives.contains_pair(("id"@, 1u8), Builtin::Id),
{
    reveal_strlit("id");
    reveal_strlit("first-from-pair");
    reveal_strlit("first");
    reveal_strlit("second-from-pair");
    reveal_strlit("second");
    reveal_strlit("last");
    reveal_strlit("decons");
    reveal_strlit("reverse");
    reveal_strlit("unique-atom");
    reveal_strlit("sort-atom");
    reveal_strlit("sort-math");
    reveal_strlit("decons-atom");
    reveal_strlit("list_to_set");
    reveal_strlit("alpha-unique-atom");
    reveal_strlit("is-var");
    reveal_strlit("is-expr");
    reveal_strlit("is-space");
    reveal_strlit("atom_chars");
    reveal_strlit("term_hash");
    reveal_strlit("sread");
    assert("id"@.len() == 2);
    assert("first-from-pair"@.len() == 15);
    assert("first"@.len() == 5);
    assert("second-from-pair"@.len() == 16);
    assert("second"@.len() == 6);
    assert("last"@.len() == 4);
    assert("decons"@.len() == 6);
    assert("reverse"@.len() == 7);
    assert("unique-atom"@.len() == 11);
    assert("sort-atom"@.len() == 9);
    assert("sort-math"@.len() == 9);
    assert("decons-atom"@.len() == 11);
    assert("list_to_set"@.len() == 11);
    assert("alpha-unique-atom"@.len() == 17);
    assert("is-var"@.len() == 6);
    assert("is-expr"@.len() == 7);
    assert("is-space"@.len() == 8);
    assert("atom_chars"@.len() == 10);
    assert("term_hash"@.len() == 9);
    assert("sread"@.len() == 5);
    let rows = compact_rows();
    lemma_compact_lengths();
    assert(rows[52] == ("id"@, 1u8, Builtin::Id, rows[52].3));
    lemma_row_found(marked_operators(with_rules(t, truth_table())), rows, 52);
}

/// `=alpha` is bound to its function.
proof fn lemma_compact_53(t: TableV)
    ensures
        with_compact(t).natives.contains_pair(("=alpha"@, 2u8), Builtin::AlphaEqual),
{
    reveal_strlit("=alpha");
    reveal_strlit("is-member");
    reveal_strlit("exclude-item");
    reveal_strlit("union-atom");
    reveal_strlit("intersection-atom");
    reveal_strlit("subtraction-atom");
    reveal_strlit("same");
    reveal_strlit("maplist");
    reveal_strlit("filter-atom");
    reveal_strlit("concat");
    reveal_strlit("atom_concat");
    assert("=alpha"@.len() == 6);
    assert("is-member"@.len() == 9);
    assert("exclude-item"@.len() == 12);
    assert("union-atom"@.len() == 10);
    assert("intersection-atom"@.len() == 17);
    assert("subtraction-atom"@.len() == 16);
    assert("same"@.len() == 4);
    assert("maplist"@.len() == 7);
    assert("filter-atom"@.len() == 11);
    assert("concat"@.len() == 6);
    assert("atom_concat"@.len() == 11);
    assert("=alpha"@[0] != "concat"@[0]);
    let rows = compact_rows();
    lemma_compact_lengths();
    assert(rows[53] == ("=alpha"@, 2u8, Builtin::AlphaEqual, rows[53].3));
    lemma_row_found(marked_operators(with_rules(t, truth_table())), rows, 53);
}

/// `first-from-pair` is bound to its function.
proof fn lemma_compact_54(t: TableV)
    ensures
        with_compact(t).natives.contains_pair(("first-from-pair"@, 1u8), Builtin::Head),
{
    reveal_strlit("first-from-pair");
    reveal_strlit("first");
    reveal_strlit("second-from-pair");
    reveal_strlit("second");
    reveal_strlit("last");
    reveal_strlit("decons");
    reveal_strlit("reverse");
    reveal_strlit("unique-atom");
    reveal_strlit("sort-atom");
    reveal_strlit("sort-math");
    reveal_strlit("decons-atom");
    reveal_strlit("list_to_set");
    reveal_strlit("alpha-unique-atom");
    reveal_strlit("is-var");
    reveal_strlit("is-expr");
    reveal_strlit("is-space");
    reveal_strlit("atom_chars");
    reveal_strlit("term_hash");
    reveal_strlit("sread");
    assert("first-from-pair"@.len() == 15);
    assert("first"@.len() == 5);
    assert("second-from-pair"@.len() == 16);
    assert("second"@.len() == 6);
    assert("last"@.len() == 4);
    assert("decons"@.len() == 6);
    assert("reverse"@.len() == 7);
    assert("unique-atom"@.len() == 11);
    assert("sort-atom"@.len() == 9);
    assert("sort-math"@.len() == 9);
    assert("decons-atom"@.len() == 11);
    assert("list_to_set"@.len() == 11);
    assert("alpha-unique-atom"@.len() == 17);
    assert("is-var"@.len() == 6);
    assert("is-expr"@.len() == 7);
    assert("is-space"@.len() == 8);
    assert("atom_chars"@.len() == 10);
    assert("term_hash"@.len() == 9);
    assert("sread"@.len() == 5);
    let rows = compact_rows();
    lemma_compact_lengths();
    assert(rows[54] == ("first-from-pair"@, 1u8, Builtin::Head, rows[54].3));
    lemma_row_found(marked_operators(with_rules(t, truth_table())), rows, 54);
}

/// `first` is bound to its function.
proof fn lemma_compact_55(t: TableV)
    ensures
        with_compact(t).natives.contains_pair(("first"@, 1u8), Builtin::Head),
{
    reveal_strlit("first");
    reveal_strlit("second-from-pair");
    reveal_strlit("second");
    reveal_strlit("last");
    reveal_strlit("decons");
    reveal_strlit("reverse");
    reveal_strlit("unique-atom");
    reveal_strlit("sort-atom");
    reveal_strlit("sort-math");
    reveal_strlit("decons-atom");
    reveal_strlit("list_to_set");
    reveal_strlit("alpha-unique-atom");
    reveal_strlit("is-var");
    reveal_strlit("is-expr");
    reveal_strlit("is-space");
    reveal_strlit("atom_chars");
    reveal_strlit("term_hash");
    reveal_strlit("sread");
    assert("first"@.len() == 5);
    assert("second-from-pair"@.len() == 16);
    assert("second"@.len() == 6);
    assert("last"@.len() == 4);
    assert("decons"@.len() == 6);
    assert("reverse"@.len() == 7);
    assert("unique-atom"@.len() == 11);
    assert("sort-atom"@.len() == 9);
    assert("sort-math"@.len() == 9);
    assert("decons-atom"@.len() == 11);
    assert("list_to_set"@.len() == 11);
    assert("alpha-unique-atom"@.len() == 17);
    assert("is-var"@.len() == 6);
    assert("is-expr"@.len() == 7);
    assert("is-space"@.len() == 8);
    assert("atom_chars"@.len() == 10);
    assert("term_hash"@.len() == 9);
    assert("sread"@.len() == 5);
    assert("first"@[0] != "sread"@[0]);
    let rows = compact_rows();
    lemma_compact_lengths();
    assert(rows[55] == ("first"@, 1u8, Builtin::Head, rows[55].3));
    lemma_row_found(marked_operators(with_rules(t, truth_table())), rows, 55);
}

/// `second-from-pair` is bound to its function.
proof fn lemma_compact_56(t: TableV)
    ensures
        with_compact(t).natives.contains_pair(("second-from-pair"@, 1u8), Builtin::Second),
{
    reveal_strlit("second-from-pair");
    reveal_strlit("second");
    reveal_strlit("last");
    reveal_strlit("decons");
    reveal_strlit("reverse");
    reveal_strlit("unique-atom");
    reveal_strlit("sort-atom");
    reveal_strlit("sort-math");
    reveal_strlit("decons-atom");
    reveal_strlit("list_to_set");
    reveal_strlit("alpha-unique-atom");
    reveal_strlit("is-var");
    reveal_strlit("is-expr");
    reveal_strlit("is-space");
    reveal_strlit("atom_chars");
    reveal_strlit("term_hash");
    reveal_strlit("sread");
    assert("second-from-pair"@.len() == 16);
    assert("second"@.len() == 6);
    assert("last"@.len() == 4);
    assert("decons"@.len() == 6);
    assert("reverse"@.len() == 7);
    assert("unique-atom"@.len() == 11);
    assert("sort-atom"@.len() == 9);
    assert("sort-math"@.len() == 9);
    assert("decons-atom"@.len() == 11);
    assert("list_to_set"@.len() == 11);
    assert("alpha-unique-atom"@.len() == 17);
    assert("is-var"@.len() == 6);
    assert("is-expr"@.len() == 7);
    assert("is-space"@.len() == 8);
    assert("atom_chars"@.len() == 10);
    assert("term_hash"@.len() == 9);
    assert("sread"@.len() == 5);
    let rows = compact_rows();
    lemma_compact_lengths();
    assert(rows[56] == ("second-from-pair"@, 1u8, Builtin::Second, rows[56].3));
    lemma_row_found(marked_operators(with_rules(t, truth_table())), rows, 56);
}

/// `second` is bound to its function.
proof fn lemma_compact_57(t: TableV)
    ensures
        with_compact(t).natives.contains_pair(("second"@, 1u8), Builtin::Second),
{
    reveal_strlit("second");
    reveal_strlit("last");
    reveal_strlit("decons");
    reveal_strlit("reverse");
    reveal_strlit("unique-atom");
    reveal_strlit("sort-atom");
    reveal_strlit("sort-math");
    reveal_strlit("decons-atom");
    reveal_strlit("list_to_set");
    reveal_strlit("alpha-unique-atom");
    reveal_strlit("is-var");
    reveal_strlit("is-expr");
    reveal_strlit("is-space");
    reveal_strlit("atom_chars");
    reveal_strlit("term_hash");
    reveal_strlit("sread");
    assert("second"@.len() == 6);
    assert("last"@.len() == 4);
    assert("decons"@.len() == 6);
    assert("reverse"@.len() == 7);
    assert("unique-atom"@.len() == 11);
    assert("sort-atom"@.len() == 9);
    assert("sort-math"@.len() == 9);
    assert("decons-atom"@.len() == 11);
    assert("list_to_set"@.len() == 11);
    assert("alpha-unique-atom"@.len() == 17);
    assert("is-var"@.len() == 6);
    assert("is-expr"@.len() == 7);
    assert("is-space"@.len() == 8);
    assert("atom_chars"@.len() == 10);
    assert("term_hash"@.len() == 9);
    assert("sread"@.len() == 5);
    assert("second"@[0] != "decons"@[0]);
    assert("second"@[0] != "is-var"@[0]);
    let rows = compact_rows();
    lemma_compact_lengths();
    assert(rows[57] == ("second"@, 1u8, Builtin::Second, rows[57].3));
    lemma_row_found(marked_operators(with_rules(t, truth_table())), rows, 57);
}

/// `last` is bound to its function.
proof fn lemma_compact_58(t: TableV)
    ensures
        with_compact(t).natives.contains_pair(("last"@, 1u8), Builtin::Last),
{
    reveal_strlit("last");
    reveal_strlit("decons");
    reveal_strlit("reverse");
    reveal_strlit("unique-atom");
    reveal_strlit("sort-atom");
    reveal_strlit("sort-math");
    reveal_strlit("decons-atom");
    reveal_strlit("list_to_set");
    reveal_strlit("alpha-unique-atom");
    reveal_strlit("is-var");
    reveal_strlit("is-expr");
    reveal_strlit("is-space");
    reveal_strlit("atom_chars");
    reveal_strlit("term_hash");
    reveal_strlit("sread");
    assert("last"@.len() == 4);
    assert("decons"@.len() == 6);
    assert("reverse"@.len() == 7);
    assert("unique-atom"@.len() == 11);
    assert("sort-atom"@.len() == 9);
    assert("sort-math"@.len() == 9);
    assert("decons-atom"@.len() == 11);
    assert("list_to_set"@.len() == 11);
    assert("alpha-unique-atom"@.len() == 17);
    assert("is-var"@.len() == 6);
    assert("is-expr"@.len() == 7);
    assert("is-space"@.len() == 8);
    assert("atom_chars"@.len() == 10);
    assert("term_hash"@.len() == 9);
    assert("sread"@.len() == 5);
    let rows = compact_rows();
    lemma_compact_lengths();
    assert(rows[58] == ("last"@, 1u8, Builtin::Last, rows[58].3));
    lemma_row_found(marked_operators(with_rules(t, truth_table())), rows, 58);
}

/// `decons` is bound to its function.
proof fn lemma_compact_59(t: TableV)
    ensures
        with_compact(t).natives.contains_pair(("decons"@, 1u8), Builtin::Compact(CompactFn::Decons)),
{
    reveal_strlit("decons");
    reveal_strlit("reverse");
    reveal_strlit("unique-atom");
    reveal_strlit("sort-atom");
    reveal_strlit("sort-math");
    reveal_strlit("decons-atom");
    reveal_strlit("list_to_set");
    reveal_strlit("alpha-unique-atom");
    reveal_strlit("is-var");
    reveal_strlit("is-expr");
    reveal_strlit("is-space");
    reveal_strlit("atom_chars");
    reveal_strlit("term_hash");
    reveal_strlit("sread");
    assert("decons"@.len() == 6);
    assert("reverse"@.len() == 7);
    assert("unique-atom"@.len() == 11);
    assert("sort-atom"@.len() == 9);
    assert("sort-math"@.len() == 9);
    assert("decons-atom"@.len() == 11);
    assert("list_to_set"@.len() == 11);
    assert("alpha-unique-atom"@.len() == 17);
    assert("is-var"@.len() == 6);
    assert("is-expr"@.len() == 7);
    assert("is-space"@.len() == 8);
    assert("atom_chars"@.len() == 10);
    assert("term_hash"@.len() == 9);
    assert("sread"@.len() == 5);
    assert("decons"@[0] != "is-var"@[0]);
    let rows = compact_rows();
    lemma_compact_lengths();
    assert(rows[59] == ("decons"@, 1u8, Builtin::Compact(CompactFn::Decons), rows[59].3));
    lemma_row_found(marked_operators(with_rules(t, truth_table())), rows, 59);
}

/// `reverse` is bound to its function.
proof fn lemma_compact_60(t: TableV)
    ensures
        with_compact(t).natives.contains_pair(("reverse"@, 1u8), Builtin::Reverse),
{
    reveal_strlit("reverse");
    reveal_strlit("unique-atom");
    reveal_strlit("sort-atom");
    reveal_strlit("sort-math");
    reveal_strlit("decons-atom");
    reveal_strlit("list_to_set");
    reveal_strlit("alpha-unique-atom");
    reveal_strlit("is-var");
    reveal_strlit("is-expr");
    reveal_strlit("is-space");
    reveal_strlit("atom_chars");
    reveal_strlit("term_hash");
    reveal_strlit("sread");
    assert("reverse"@.len() == 7);
    assert("unique-atom"@.len() == 11);
    assert("sort-atom"@.len() == 9);
    assert("sort-math"@.len() == 9);
    assert("decons-atom"@.len() == 11);
    assert("list_to_set"@.len() == 11);
    assert("alpha-unique-atom"@.len() == 17);
    assert("is-var"@.len() == 6);
    assert("is-expr"@.len() == 7);
    assert("is-space"@.len() == 8);
    assert("atom_chars"@.len() == 10);
    assert("term_hash"@.len() == 9);
    assert("sread"@.len() == 5);
    assert("reverse"@[0] != "is-expr"@[0]);
    let rows = compact_rows();
    lemma_compact_lengths();
    assert(rows[60] == ("reverse"@, 1u8, Builtin::Reverse, rows[60].3));
    lemma_row_found(marked_operators(with_rules(t, truth_table())), rows, 60);
}

/// `is-member` is bound to its function.
proof fn lemma_compact_61(t: TableV)
    ensures
        with_compact(t).natives.contains_pair(("is-member"@, 2u8), Builtin::Member),
{
    reveal_strlit("is-member");
    reveal_strlit("exclude-item");
    reveal_strlit("union-atom");
    reveal_strlit("intersection-atom");
    reveal_strlit("subtraction-atom");
    reveal_strlit("same");
    reveal_strlit("maplist");
    reveal_strlit("filter-atom");
    reveal_strlit("concat");
    reveal_strlit("atom_concat");
    assert("is-member"@.len() == 9);
    assert("exclude-item"@.len() == 12);
    assert("union-atom"@.len() == 10);
    assert("intersection-atom"@.len() == 17);
    assert("subtraction-atom"@.len() == 16);
    assert("same"@.len() == 4);
    assert("maplist"@.len() == 7);
    assert("filter-atom"@.len() == 11);
    assert("concat"@.len() == 6);
    assert("atom_concat"@.len() == 11);
    let rows = compact_rows();
    lemma_compact_lengths();
    assert(rows[61] == ("is-member"@, 2u8, Builtin::Member, rows[61].3));
    lemma_row_found(marked_operators(with_rules(t, truth_table())), rows, 61);
}

/// `exclude-item` is bound to its function.
proof fn lemma_compact_62(t: TableV)
    ensures
        with_compact(t).natives.contains_pair(("exclude-item"@, 2u8), Builtin::Exclude),
{
    reveal_strlit("exclude-item");
    reveal_strlit("union-atom");
    reveal_strlit("intersection-atom");
    reveal_strlit("subtraction-atom");
    reveal_strlit("same");
    reveal_strlit("maplist");
    reveal_strlit("filter-atom");
    reveal_strlit("concat");
    reveal_strlit("atom_concat");
    assert("exclude-item"@.len() == 12);
    assert("union-atom"@.len() == 10);
    assert("intersection-atom"@.len() == 17);
    assert("subtraction-atom"@.len() == 16);
    assert("same"@.len() == 4);
    assert("maplist"@.len() == 7);
    assert("filter-atom"@.len() == 11);
    assert("concat"@.len() == 6);
    assert("atom_concat"@.len() == 11);
    let rows = compact_rows();
    lemma_compact_lengths();
    assert(rows[62] == ("exclude-item"@, 2u8, Builtin::Exclude, rows[62].3));
    lemma_row_found(marked_operators(with_rules(t, truth_table())), rows, 62);
}

/// `unique-atom` is bound to its function.
proof fn lemma_compact_63(t: TableV)
    ensures
        with_compact(t).natives.contains_pair(("unique-atom"@, 1u8), Builtin::Unique),
{
    reveal_strlit("unique-atom");
    reveal_strlit("sort-atom");
    reveal_strlit("sort-math");
    reveal_strlit("decons-atom");
    reveal_strlit("list_to_set");
    reveal_strlit("alpha-unique-atom");
    reveal_strlit("is-var");
    reveal_strlit("is-expr");
    reveal_strlit("is-space");
    reveal_strlit("atom_chars");
    reveal_strlit("term_hash");
    reveal_strlit("sread");
    assert("unique-atom"@.len() == 11);
    assert("sort-atom"@.len() == 9);
    assert("sort-math"@.len() == 9);
    assert("decons-atom"@.len() == 11);
    assert("list_to_set"@.len() == 11);
    assert("alpha-unique-atom"@.len() == 17);
    assert("is-var"@.len() == 6);
    assert("is-expr"@.len() == 7);
    assert("is-space"@.len() == 8);
    assert("atom_chars"@.len() == 10);
    assert("term_hash"@.len() == 9);
    assert("sread"@.len() == 5);
    assert("unique-atom"@[0] != "decons-atom"@[0]);
    assert("unique-atom"@[0] != "list_to_set"@[0]);
    let rows = compact_rows();
    lemma_compact_lengths();
    assert(rows[63] == ("unique-atom"@, 1u8, Builtin::Unique, rows[63].3));
    lemma_row_found(marked_operators(with_rules(t, truth_table())), rows, 63);
}

/// `union-atom` is bound to its function.
proof fn lemma_compact_64(t: TableV)
    ensures
        with_compact(t).natives.contains_pair(("union-atom"@, 2u8), Builtin::Compact(CompactFn::Union)),
{
    reveal_strlit("union-atom");
    reveal_strlit("intersection-atom");
    reveal_strlit("subtraction-atom");
    reveal_strlit("same");
    reveal_strlit("maplist");
    reveal_strlit("filter-atom");
    reveal_strlit("concat");
    reveal_strlit("atom_concat");
    assert("union-atom"@.len() == 10);
    assert("intersection-atom"@.len() == 17);
    assert("subtraction-atom"@.len() == 16);
    assert("same"@.len() == 4);
    assert("maplist"@.len() == 7);
    assert("filter-atom"@.len() == 11);
    assert("concat"@.len() == 6);
    assert("atom_concat"@.len() == 11);
    let rows = compact_rows();
    lemma_compact_lengths();
    assert(rows[64] == ("union-atom"@, 2u8, Builtin::Compact(CompactFn::Union), rows[64].3));
    lemma_row_found(marked_operators(with_rules(t, truth_table())), rows, 64);
}

/// `intersection-atom` is bound to its function.
proof fn lemma_compact_65(t: TableV)
    ensures
        with_compact(t).natives.contains_pair(("intersection-atom"@, 2u8), Builtin::Compact(CompactFn::Intersect)),
{
    reveal_strlit("intersection-atom");
    reveal_strlit("subtraction-atom");
    reveal_strlit("same");
    reveal_strlit("maplist");
    reveal_strlit("filter-atom");
    reveal_strlit("concat");
    reveal_strlit("atom_concat");
    assert("intersection-atom"@.len() == 17);
    assert("subtraction-atom"@.len() == 16);
    assert("same"@.len() == 4);
    assert("maplist"@.len() == 7);
    assert("filter-atom"@.len() == 11);
    assert("concat"@.len() == 6);
    assert("atom_concat"@.len() == 11);
    let rows = compact_rows();
    lemma_compact_lengths();
    assert(rows[65] == ("intersection-atom"@, 2u8, Builtin::Compact(CompactFn::Intersect), rows[65].3));
    lemma_row_found(marked_operators(with_rules(t, truth_table())), rows, 65);
}

/// `subtraction-atom` is bound to its function.
proof fn lemma_compact_66(t: TableV)
    ensures
        with_compact(t).natives.contains_pair(("subtraction-atom"@, 2u8), Builtin::Compact(CompactFn::Subtract)),
{
    reveal_strlit("subtraction-atom");
    reveal_strlit("same");
    reveal_strlit("maplist");
    reveal_strlit("filter-atom");
    reveal_strlit("concat");
    reveal_strlit("atom_concat");
    assert("subtraction-atom"@.len() == 16);
    assert("same"@.len() == 4);
    assert("maplist"@.len() == 7);
    assert("filter-atom"@.len() == 11);
    assert("concat"@.len() == 6);
    assert("atom_concat"@.len() == 11);
    let rows = compact_rows();
    lemma_compact_lengths();
    assert(rows[66] == ("subtraction-atom"@, 2u8, Builtin::Compact(CompactFn::Subtract), rows[66].3));
    lemma_row_found(marked_operators(with_rules(t, truth_table())), rows, 66);
}

/// `sort-atom` is bound to its function.
proof fn lemma_compact_67(t: TableV)
    ensures
        with_compact(t).natives.contains_pair(("sort-atom"@, 1u8), Builtin::SortText),
{
    reveal_strlit("sort-atom");
    reveal_strlit("sort-math");
    reveal_strlit("decons-atom");
    reveal_strlit("list_to_set");
    reveal_strlit("alpha-unique-atom");
    reveal_strlit("is-var");
    reveal_strlit("is-expr");
    reveal_strlit("is-space");
    reveal_strlit("atom_chars");
    reveal_strlit("term_hash");
    reveal_strlit("sread");
    assert("sort-atom"@.len() == 9);
    assert("sort-math"@.len() == 9);
    assert("decons-atom"@.len() == 11);
    assert("list_to_set"@.len() == 11);
    assert("alpha-unique-atom"@.len() == 17);
    assert("is-var"@.len() == 6);
    assert("is-expr"@.len() == 7);
    assert("is-space"@.len() == 8);
    assert("atom_chars"@.len() == 10);
    assert("term_hash"@.len() == 9);
    assert("sread"@.len() == 5);
    assert("sort-atom"@[5] != "sort-math"@[5]);
    assert("sort-atom"@[0] != "term_hash"@[0]);
    let rows = compact_rows();
    lemma_compact_lengths();
    assert(rows[67] == ("sort-atom"@, 1u8, Builtin::SortText, rows[67].3));
    lemma_row_found(marked_operators(with_rules(t, truth_table())), rows, 67);
}

/// `same` is bound to its function.
proof fn lemma_compact_69(t: TableV)
    ensures
        with_compact(t).natives.contains_pair(("same"@, 2u8), Builtin::Equal),
{
    reveal_strlit("same");
    reveal_strlit("maplist");
    reveal_strlit("filter-atom");
    reveal_strlit("concat");
    reveal_strlit("atom_concat");
    assert("same"@.len() == 4);
    assert("maplist"@.len() == 7);
    assert("filter-atom"@.len() == 11);
    assert("concat"@.len() == 6);
    assert("atom_concat"@.len() == 11);
    let rows = compact_rows();
    lemma_compact_lengths();
    assert(rows[69] == ("same"@, 2u8, Builtin::Equal, rows[69].3));
    lemma_row_found(marked_operators(with_rules(t, truth_table())), rows, 69);
}

/// `foldl` is bound to its function.
proof fn lemma_compact_70(t: TableV)
    ensures
        with_compact(t).natives.contains_pair(("foldl"@, 3u8), Builtin::Compact(CompactFn::Foldl)),
{
    reveal_strlit("foldl");
    reveal_strlit("foldl-atom");
    assert("foldl"@.len() == 5);
    assert("foldl-atom"@.len() == 10);
    let rows = compact_rows();
    lemma_compact_lengths();
    assert(rows[70] == ("foldl"@, 3u8, Builtin::Compact(CompactFn::Foldl), rows[70].3));
    lemma_row_found(marked_operators(with_rules(t, truth_table())), rows, 70);
}

/// `foldl-atom` is bound to its function.
proof fn lemma_compact_71(t: TableV)
    ensures
        with_compact(t).natives.contains_pair(("foldl-atom"@, 3u8), Builtin::Compact(CompactFn::Foldl)),
{
    reveal_strlit("foldl-atom");
    assert("foldl-atom"@.len() == 10);
    let rows = compact_rows();
    lemma_compact_lengths();
    assert(rows[71] == ("foldl-atom"@, 3u8, Builtin::Compact(CompactFn::Foldl), rows[71].3));
    lemma_row_found(marked_operators(with_rules(t, truth_table())), rows, 71);
}

/// `decons-atom` is bound to its function.
proof fn lemma_compact_72(t: TableV)
    ensures
        with_compact(t).natives.contains_pair(("decons-atom"@, 1u8), Builtin::Compact(CompactFn::Decons)),
{
    reveal_strlit("decons-atom");
    reveal_strlit("list_to_set");
    reveal_strlit("alpha-unique-atom");
    reveal_strlit("is-var");
    reveal_strlit("is-expr");
    reveal_strlit("is-space");
    reveal_strlit("atom_chars");
    reveal_strlit("term_hash");
    reveal_strlit("sread");
    assert("decons-atom"@.len() == 11);
    assert("list_to_set"@.len() == 11);
    assert("alpha-unique-atom"@.len() == 17);
    assert("is-var"@.len() == 6);
    assert("is-expr"@.len() == 7);
    assert("is-space"@.len() == 8);
    assert("atom_chars"@.len() == 10);
    assert("term_hash"@.len() == 9);
    assert("sread"@.len() == 5);
    assert("decons-atom"@[0] != "list_to_set"@[0]);
    let rows = compact_rows();
    lemma_compact_lengths();
    assert(rows[72] == ("decons-atom"@, 1u8, Builtin::Compact(CompactFn::Decons), rows[72].3));
    lemma_row_found(marked_operators(with_rules(t, truth_table())), rows, 72);
}

/// `list_to_set` is bound to its function.
proof fn lemma_compact_73(t: TableV)
    ensures
        with_compact(t).natives.contains_pair(("list_to_set"@, 1u8), Builtin::Unique),
{
    reveal_strlit("list_to_set");
    reveal_strlit("alpha-unique-atom");
    reveal_strlit("is-var");
    reveal_strlit("is-expr");
    reveal_strlit("is-space");
    reveal_strlit("atom_chars");
    reveal_strlit("term_hash");
    reveal_strlit("sread");
    assert("list_to_set"@.len() == 11);
    assert("alpha-unique-atom"@.len() == 17);
    assert("is-var"@.len() == 6);
    assert("is-expr"@.len() == 7);
    assert("is-space"@.len() == 8);
    assert("atom_chars"@.len() == 10);
    assert("term_hash"@.len() == 9);
    assert("sread"@.len() == 5);
    let rows = compact_rows();
    lemma_compact_lengths();
    assert(rows[73] == ("list_to_set"@, 1u8, Builtin::Unique, rows[73].3));
    lemma_row_found(marked_operators(with_rules(t, truth_table())), rows, 73);
}

/// `alpha-unique-atom` is bound to its function.
proof fn lemma_compact_74(t: TableV)
    ensures
        with_compact(t).natives.contains_pair(("alpha-unique-atom"@, 1u8), Builtin::AlphaUnique),
{
    reveal_strlit("alpha-unique-atom");
    reveal_strlit("is-var");
    reveal_strlit("is-expr");
    reveal_strlit("is-space");
    reveal_strlit("atom_chars");
    reveal_strlit("term_hash");
    reveal_strlit("sread");
    assert("alpha-unique-atom"@.len() == 17);
    assert("is-var"@.len() == 6);
    assert("is-expr"@.len() == 7);
    assert("is-space"@.len() == 8);
    assert("atom_chars"@.len() == 10);
    assert("term_hash"@.len() == 9);
    assert("sread"@.len() == 5);
    let rows = compact_rows();
    lemma_compact_lengths();
    assert(rows[74] == ("alpha-unique-atom"@, 1u8, Builtin::AlphaUnique, rows[74].3));
    lemma_row_found(marked_operators(with_rules(t, truth_table())), rows, 74);
}

/// `maplist` is bound to its function.
proof fn lemma_compact_75(t: TableV)
    ensures
        with_compact(t).natives.contains_pair(("maplist"@, 2u8), Builtin::Compact(CompactFn::MapList)),
{
    reveal_strlit("maplist");
    reveal_strlit("filter-atom");
    reveal_strlit("concat");
    reveal_strlit("atom_concat");
    assert("maplist"@.len() == 7);
    assert("filter-atom"@.len() == 11);
    assert("concat"@.len() == 6);
    assert("atom_concat"@.len() == 11);
    let rows = compact_rows();
    lemma_compact_lengths();
    assert(rows[75] == ("maplist"@, 2u8, Builtin::Compact(CompactFn::MapList), rows[75].3));
    lemma_row_found(marked_operators(with_rules(t, truth_table())), rows, 75);
}

/// `filter-atom` is bound to its function.
proof fn lemma_compact_76(t: TableV)
    ensures
        with_compact(t).natives.contains_pair(("filter-atom"@, 2u8), Builtin::Compact(CompactFn::Filter)),
{
    reveal_strlit("filter-atom");
    reveal_strlit("concat");
    reveal_strlit("atom_concat");
    assert("filter-atom"@.len() == 11);
    assert("concat"@.len() == 6);
    assert("atom_concat"@.len() == 11);
    assert("filter-atom"@[0] != "atom_concat"@[0]);
    let rows = compact_rows();
    lemma_compact_lengths();
    assert(rows[76] == ("filter-atom"@, 2u8, Builtin::Compact(CompactFn::Filter), rows[76].3));
    lemma_row_found(marked_operators(with_rules(t, truth_table())), rows, 76);
}

/// `is-var` is bound to its function.
proof fn lemma_compact_77(t: TableV)
    ensures
        with_compact(t).natives.contains_pair(("is-var"@, 1u8), Builtin::IsVar),
{
    reveal_strlit("is-var");
    reveal_strlit("is-expr");
    reveal_strlit("is-space");
    reveal_strlit("atom_chars");
    reveal_strlit("term_hash");
    reveal_strlit("sread");
    assert("is-var"@.len() == 6);
    assert("is-expr"@.len() == 7);
    assert("is-space"@.len() == 8);
    assert("atom_chars"@.len() == 10);
    assert("term_hash"@.len() == 9);
    assert("sread"@.len() == 5);
    let rows = compact_rows();
    lemma_compact_lengths();
    assert(rows[77] == ("is-var"@, 1u8, Builtin::IsVar, rows[77].3));
    lemma_row_found(marked_operators(with_rules(t, truth_table())), rows, 77);
}

/// `is-expr` is bound to its function.
proof fn lemma_compact_78(t: TableV)
    ensures
        with_compact(t).natives.contains_pair(("is-expr"@, 1u8), Builtin::IsExpr),
{
    reveal_strlit("is-expr");
    reveal_strlit("is-space");
    reveal_strlit("atom_chars");
    reveal_strlit("term_hash");
    reveal_strlit("sread");
    assert("is-expr"@.len() == 7);
    assert("is-space"@.len() == 8);
    assert("atom_chars"@.len() == 10);
    assert("term_hash"@.len() == 9);
    assert("sread"@.len() == 5);
    let rows = compact_rows();
    lemma_compact_lengths();
    assert(rows[78] == ("is-expr"@, 1u8, Builtin::IsExpr, rows[78].3));
    lemma_row_found(marked_operators(with_rules(t, truth_table())), rows, 78);
}

/// `is-space` is bound to its function.
proof fn lemma_compact_79(t: TableV)
    ensures
        with_compact(t).natives.contains_pair(("is-space"@, 1u8), Builtin::IsSpace),
{
    reveal_strlit("is-space");
    reveal_strlit("atom_chars");
    reveal_strlit("term_hash");
    reveal_strlit("sread");
    assert("is-space"@.len() == 8);
    assert("atom_chars"@.len() == 10);
    assert("term_hash"@.len() == 9);
    assert("sread"@.len() == 5);
    let rows = compact_rows();
    lemma_compact_lengths();
    assert(rows[79] == ("is-space"@, 1u8, Builtin::IsSpace, rows[79].3));
    lemma_row_found(marked_operators(with_rules(t, truth_table())), rows, 79);
}

/// `concat` is bound to its function.
proof fn lemma_compact_80(t: TableV)
    ensures
        with_compact(t).natives.contains_pair(("concat"@, 2u8), Builtin::Concat),
{
    reveal_strlit("concat");
    reveal_strlit("atom_concat");
    assert("concat"@.len() == 6);
    assert("atom_concat"@.len() == 11);
    let rows = compact_rows();
    lemma_compact_lengths();
    assert(rows[80] == ("concat"@, 2u8, Builtin::Concat, rows[80].3));
    lemma_row_found(marked_operators(with_rules(t, truth_table())), rows, 80);
}

/// `atom_concat` is bound to its function.
proof fn lemma_compact_81(t: TableV)
    ensures
        with_compact(t).natives.contains_pair(("atom_concat"@, 2u8), Builtin::AtomConcat),
{
    reveal_strlit("atom_concat");
    assert("atom_concat"@.len() == 11);
    let rows = compact_rows();
    lemma_compact_lengths();
    assert(rows[81] == ("atom_concat"@, 2u8, Builtin::AtomConcat, rows[81].3));
    lemma_row_found(marked_operators(with_rules(t, truth_table())), rows, 81);
}

/// `atom_chars` is bound to its function.
proof fn lemma_compact_82(t: TableV)
    ensures
        with_compact(t).natives.contains_pair(("atom_chars"@, 1u8), Builtin::AtomChars),
{
    reveal_strlit("atom_chars");
    reveal_strlit("term_hash");
    reveal_strlit("sread");
    assert("atom_chars"@.len() == 10);
    assert("term_hash"@.len() == 9);
    assert("sread"@.len() == 5);
    let rows = compact_rows();
    lemma_compact_lengths();
    assert(rows[82] == ("atom_chars"@, 1u8, Builtin::AtomChars, rows[82].3));
    lemma_row_found(marked_operators(with_rules(t, truth_table())), rows, 82);
}

/// `term_hash` is bound to its function.
proof fn lemma_compact_83(t: TableV)
    ensures
        with_compact(t).natives.contains_pair(("term_hash"@, 1u8), Builtin::TermHash),
{
    reveal_strlit("term_hash");
    reveal_strlit("sread");
    assert("term_hash"@.len() == 9);
    assert("sread"@.len() == 5);
    let rows = compact_rows();
    lemma_compact_lengths();
    assert(rows[83] == ("term_hash"@, 1u8, Builtin::TermHash, rows[83].3));
    lemma_row_found(marked_operators(with_rules(t, truth_table())), rows, 83);
}

/// `sread` is bound to its function.
proof fn lemma_compact_84(t: TableV)
    ensures
        with_compact(t).natives.contains_pair(("sread"@, 1u8), Builtin::Compact(CompactFn::Read)),
{
    reveal_strlit("sread");
    assert("sread"@.len() == 5);
    let rows = compact_rows();
    lemma_compact_lengths();
    assert(rows[84] == ("sread"@, 1u8, Builtin::Compact(CompactFn::Read), rows[84].3));
    lemma_row_found(marked_operators(with_rules(t, truth_table())), rows, 84);
}

/// The functions of the compact set are found under their names once they are
/// registered.
pub proof fn compact_names_are_bound(t: TableV)
    ensures
        with_compact(t).natives.contains_pair(("+"@, 2u8), Builtin::Compact(CompactFn::Add)),
        with_compact(t).natives.contains_pair(("-"@, 2u8), Builtin::Compact(CompactFn::Sub)),
        with_compact(t).natives.contains_pair(("*"@, 2u8), Builtin::Compact(CompactFn::Mul)),
        with_compact(t).natives.contains_pair(("/"@, 2u8), Builtin::Compact(CompactFn::Div)),
        with_compact(t).natives.contains_pair(("%"@, 2u8), Builtin::Compact(CompactFn::Rem)),
        with_compact(t).natives.contains_pair(("<"@, 2u8), Builtin::Compact(CompactFn::Below)),
        with_compact(t).natives.contains_pair((">"@, 2u8), Builtin::Compact(CompactFn::Above)),
        with_compact(t).natives.contains_pair(("<="@, 2u8), Builtin::Compact(CompactFn::AtMost)),
        with_compact(t).natives.contains_pair((">="@, 2u8), Builtin::Compact(CompactFn::AtLeast)),
        with_compact(t).natives.contains_pair(("!="@, 2u8), Builtin::NotEqual),
        with_compact(t).natives.contains_pair(("size-atom"@, 1u8), Builtin::Size),
        with_compact(t).natives.contains_pair(("length"@, 1u8), Builtin::Size),
        with_compact(t).natives.contains_pair(("append"@, 2u8), Builtin::Append),
        with_compact(t).natives.contains_pair(("msort"@, 1u8), Builtin::SortText),
        with_compact(t).natives.contains_pair(("get-atoms"@, 1u8), Builtin::Compact(CompactFn::GetAtoms)),
        with_compact(t).natives.contains_pair(("sort"@, 1u8), Builtin::SortUnique),
        with_compact(t).natives.contains_pair(("=="@, 2u8), Builtin::Equal),
        with_compact(t).natives.contains_pair(("="@, 2u8), Builtin::Equal),
        with_compact(t).natives.contains_pair(("=?"@, 2u8), Builtin::Equal),
        with_compact(t).natives.contains_pair(("test"@, 2u8), Builtin::Compact(CompactFn::Test)),
        with_compact(t).natives.contains_pair(("repr"@, 1u8), Builtin::Compact(CompactFn::Repr)),
        with_compact(t).natives.contains_pair(("get-state"@, 1u8), Builtin::GetState),
        with_compact(t).natives.contains_pair(("change-state!"@, 2u8), Builtin::ChangeState),
        with_compact(t).natives.contains_pair(("bind!"@, 2u8), Builtin::BindState),
        with_compact(t).natives.contains_pair(("cons-atom"@, 2u8), Builtin::Cons),
        with_compact(t).natives.contains_pair(("cons"@, 2u8), Builtin::Cons),
        with_compact(t).natives.contains_pair(("car-atom"@, 1u8), Builtin::Head),
        with_compact(t).natives.contains_pair(("car"@, 1u8), Builtin::Head),
        with_compact(t).natives.contains_pair(("cdr-atom"@, 1u8), Builtin::Tail),
        with_compact(t).natives.contains_pair(("cdr"@, 1u8), Builtin::Tail),
        with_compact(t).natives.contains_pair(("index-atom"@, 2u8), Builtin::Index),
        with_compact(t).natives.contains_pair(("id"@, 1u8), Builtin::Id),
        with_compact(t).natives.contains_pair(("=alpha"@, 2u8), Builtin::AlphaEqual),
        with_compact(t).natives.contains_pair(("first-from-pair"@, 1u8), Builtin::Head),
        with_compact(t).natives.contains_pair(("first"@, 1u8), Builtin::Head),
        with_compact(t).natives.contains_pair(("second-from-pair"@, 1u8), Builtin::Second),
        with_compact(t).natives.contains_pair(("second"@, 1u8), Builtin::Second),
        with_compact(t).natives.contains_pair(("last"@, 1u8), Builtin::Last),
        with_compact(t).natives.contains_pair(("decons"@, 1u8), Builtin::Compact(CompactFn::Decons)),
        with_compact(t).natives.contains_pair(("reverse"@, 1u8), Builtin::Reverse),
        with_compact(t).natives.contains_pair(("is-member"@, 2u8), Builtin::Member),
        with_compact(t).natives.contains_pair(("exclude-item"@, 2u8), Builtin::Exclude),
        with_compact(t).natives.contains_pair(("unique-atom"@, 1u8), Builtin::Unique),
        with_compact(t).natives.contains_pair(("union-atom"@, 2u8), Builtin::Compact(CompactFn::Union)),
        with_compact(t).natives.contains_pair(("intersection-atom"@, 2u8), Builtin::Compact(CompactFn::Intersect)),
        with_compact(t).natives.contains_pair(("subtraction-atom"@, 2u8), Builtin::Compact(CompactFn::Subtract)),
        with_compact(t).natives.contains_pair(("sort-atom"@, 1u8), Builtin::SortText),
        with_compact(t).natives.contains_pair(("same"@, 2u8), Builtin::Equal),
        with_compact(t).natives.contains_pair(("foldl"@, 3u8), Builtin::Compact(CompactFn::Foldl)),
        with_compact(t).natives.contains_pair(("foldl-atom"@, 3u8), Builtin::Compact(CompactFn::Foldl)),
        with_compact(t).natives.contains_pair(("decons-atom"@, 1u8), Builtin::Compact(CompactFn::Decons)),
        with_compact(t).natives.contains_pair(("list_to_set"@, 1u8), Builtin::Unique),
        with_compact(t).natives.contains_pair(("alpha-unique-atom"@, 1u8), Builtin::AlphaUnique),
        with_compact(t).natives.contains_pair(("maplist"@, 2u8), Builtin::Compact(CompactFn::MapList)),
        with_compact(t).natives.contains_pair(("filter-atom"@, 2u8), Builtin::Compact(CompactFn::Filter)),
        with_compact(t).natives.contains_pair(("is-var"@, 1u8), Builtin::IsVar),
        with_compact(t).natives.contains_pair(("is-expr"@, 1u8), Builtin::IsExpr),
        with_compact(t).natives.contains_pair(("is-space"@, 1u8), Builtin::IsSpace),
        with_compact(t).natives.contains_pair(("concat"@, 2u8), Builtin::Concat),
        with_compact(t).natives.contains_pair(("atom_concat"@, 2u8), Builtin::AtomConcat),
        with_compact(t).natives.contains_pair(("atom_chars"@, 1u8), Builtin::AtomChars),
        with_compact(t).natives.contains_pair(("term_hash"@, 1u8), Builtin::TermHash),
        with_compact(t).natives.contains_pair(("sread"@, 1u8), Builtin::Compact(CompactFn::Read)),
{
    lemma_compact_0(t);
    lemma_compact_1(t);
    lemma_compact_2(t);
    lemma_compact_3(t);
    lemma_compact_4(t);
    lemma_compact_5(t);
    lemma_compact_6(t);
    lemma_compact_7(t);
    lemma_compact_8(t);
    lemma_compact_9(t);
    lemma_compact_31(t);
    lemma_compact_32(t);
    lemma_compact_33(t);
    lemma_compact_34(t);
    lemma_compact_35(t);
    lemma_compact_36(t);
    lemma_compact_37(t);
    lemma_compact_38(t);
    lemma_compact_39(t);
    lemma_compact_40(t);
    lemma_compact_41(t);
    lemma_compact_42(t);
    lemma_compact_43(t);
    lemma_compact_44(t);
    lemma_compact_45(t);
    lemma_compact_46(t);
    lemma_compact_47(t);
    lemma_compact_48(t);
    lemma_compact_49(t);
    lemma_compact_50(t);
    lemma_compact_51(t);
    lemma_compact_52(t);
    lemma_compact_53(t);
    lemma_compact_54(t);
    lemma_compact_55(t);
    lemma_compact_56(t);
    lemma_compact_57(t);
    lemma_compact_58(t);
    lemma_compact_59(t);
    lemma_compact_60(t);
    lemma_compact_61(t);
    lemma_compact_62(t);
    lemma_compact_63(t);
    lemma_compact_64(t);
    lemma_compact_65(t);
    lemma_compact_66(t);
    lemma_compact_67(t);
    lemma_compact_69(t);
    lemma_compact_70(t);
    lemma_compact_71(t);
    lemma_compact_72(t);
    lemma_compact_73(t);
    lemma_compact_74(t);
    lemma_compact_75(t);
    lemma_compact_76(t);
    lemma_compact_77(t);
    lemma_compact_78(t);
    lemma_compact_79(t);
    lemma_compact_80(t);
    lemma_compact_81(t);
    lemma_compact_82(t);
    lemma_compact_83(t);
    lemma_compact_84(t);
}

/// Called by name on integers, `+`, `-` and `*` of the compact set give the sum,
/// the difference and the product.
pub proof fn compact_integers_are_computed_exactly(t: TableV, x: int, y: int)
    ensures
        ({
            let u = with_compact(t);
            let args = seq![int_atom(x), int_atom(y)];
            &&& named_answer(u, "+"@, args) == AnswerV::Values(seq![int_atom(x + y)])
            &&& named_answer(u, "-"@, args) == AnswerV::Values(seq![int_atom(x - y)])
            &&& named_answer(u, "*"@, args) == AnswerV::Values(seq![int_atom(x * y)])
        }),
{
    compact_names_are_bound(t);
}

/// Called by name on integers that decimals hold exactly, `<`, `>`, `<=` and `>=`
/// of the compact set tell how the integers are ordered.
pub proof fn compact_integers_are_ordered(t: TableV, x: int, y: int)
    requires
        -9007199254740992 <= x <= 9007199254740992,
        -9007199254740992 <= y <= 9007199254740992,
    ensures
        ({
            let u = with_compact(t);
            let args = seq![int_atom(x), int_atom(y)];
            &&& named_answer(u, "<"@, args) == AnswerV::Values(seq![truth_atom(x < y)])
            &&& named_answer(u, ">"@, args) == AnswerV::Values(seq![truth_atom(x > y)])
            &&& named_answer(u, "<="@, args) == AnswerV::Values(seq![truth_atom(x <= y)])
            &&& named_answer(u, ">="@, args) == AnswerV::Values(seq![truth_atom(x >= y)])
        }),
{
    compact_names_are_bound(t);
    truth_values_are_symbols(true);
    truth_values_are_symbols(false);
}

/// Called by name on machine integers, `/` and `%` of the compact set give a
/// quotient and a remainder that belong together: the remainder is less than the
/// divisor in size and has the sign of the dividend.
pub proof fn compact_quotients_and_remainders_agree(t: TableV, x: int, y: int)
    requires
        y != 0,
        i128::MIN < x <= i128::MAX,
        i128::MIN <= y <= i128::MAX,
    ensures
        ({
            let u = with_compact(t);
            let args = seq![int_atom(x), int_atom(y)];
            exists|q: int, r: int|
                #![trigger int_atom(q), int_atom(r)]
                {
                    &&& named_answer(u, "/"@, args) == AnswerV::Values(seq![int_atom(q)])
                    &&& named_answer(u, "%"@, args) == AnswerV::Values(seq![int_atom(r)])
                    &&& x == y * q + r
                    &&& -r < y && r < y || -r < -y && r < -y
                    &&& x >= 0 ==> r >= 0
                    &&& x <= 0 ==> r <= 0
                }
        }),
{
    compact_names_are_bound(t);
    let a = if x < 0 {
        -x
    } else {
        x
    };
    let b = if y < 0 {
        -y
    } else {
        y
    };
    let k = a / b;
    let m = a % b;
    vstd::arithmetic::div_mod::lemma_fundamental_div_mod(a, b);
    vstd::arithmetic::div_mod::lemma_mod_bound(a, b);
    let r = if x < 0 {
        -m
    } else {
        m
    };
    let q = if (x < 0) == (y < 0) {
        k
    } else {
        -k
    };
    assert(y * q + r == x) by (nonlinear_arith)
        requires
            a == b * k + m,
            a == (if x < 0 { -x } else { x }),
            b == (if y < 0 { -y } else { y }),
            r == (if x < 0 { -m } else { m }),
            q == (if (x < 0) == (y < 0) { k } else { -k }),
    ;
    assert(int_atom(r) == AtomV::Num(NumV::Int(truncated_rem(x, y))));
    assert(int_atom(q) == AtomV::Num(NumV::Int(truncated_quot(x, y))));
}

/// An atom that is a list.
pub open spec fn list_atom(items: Seq<AtomV>) -> AtomV {
    AtomV::Expr(items)
}

/// Called by name on lists, `union-atom` and `intersection-atom` of the compact
/// set give sets: those of the elements of either list and of both. And
/// `subtraction-atom` gives the elements of the first list that are not in the
/// second one.
pub proof fn compact_sets_are_made(
    t: TableV,
    x: Seq<AtomV>,
    y: Seq<AtomV>,
    a: AtomV,
)
    ensures
        ({
            let v = with_compact(t);
            let args = seq![list_atom(x), list_atom(y)];
            exists|u: Seq<AtomV>, i: Seq<AtomV>, d: Seq<AtomV>|
                #![trigger list_atom(u), list_atom(i), list_atom(d)]
                {
                    &&& named_answer(v, "union-atom"@, args) == AnswerV::Values(
                        seq![list_atom(u)],
                    )
                    &&& named_answer(v, "intersection-atom"@, args) == AnswerV::Values(
                        seq![list_atom(i)],
                    )
                    &&& named_answer(v, "subtraction-atom"@, args) == AnswerV::Values(
                        seq![list_atom(d)],
                    )
                    &&& u.no_duplicates() && i.no_duplicates()
                    &&& u.contains(a) == (x.contains(a) || y.contains(a))
                    &&& i.contains(a) == (x.contains(a) && y.contains(a))
                    &&& d.contains(a) == (x.contains(a) && !y.contains(a))
                }
        }),
{
    compact_names_are_bound(t);
    sets_are_made(x, y, a);
    selection_is_exact(x, y, false, a);
    let args = seq![list_atom(x), list_atom(y)];
    let u = list_atom(union_of(x, y));
    let i = list_atom(unique(selected(x, y, true)));
    let d = list_atom(selected(x, y, false));
    let v = with_compact(t);
    assert(named_answer(v, "union-atom"@, args) == AnswerV::Values(seq![u]));
    assert(named_answer(v, "intersection-atom"@, args) == AnswerV::Values(seq![i]));
    assert(named_answer(v, "subtraction-atom"@, args) == AnswerV::Values(seq![d]));
}

/// Called by name, `get-atoms` of the compact set gives the atoms of the program's
/// own space, `test` tells equal values, and `sread` reads what `repr` writes.
pub proof fn compact_values_are_written_and_read(t: TableV, a: AtomV, b: AtomV)
    ensures
        ({
            let u = with_compact(t);
            &&& named_answer(u, "get-atoms"@, seq![a]) == AnswerV::Values(u.space("&self"@))
            &&& a == b ==> named_answer(u, "test"@, seq![a, b]) == AnswerV::Values(
                seq![AtomV::Sym("ok"@)],
            )
            &&& a != b ==> named_answer(u, "test"@, seq![a, b]) is Fail
            &&& is_sread_value(a) && symbol(sexpr(a)) == AtomV::Sym(sexpr(a)) ==> {
                &&& named_answer(u, "repr"@, seq![a]) == AnswerV::Values(
                    seq![AtomV::Sym(sexpr(a))],
                )
                &&& named_answer(u, "sread"@, seq![AtomV::Sym(sexpr(a))]) == AnswerV::Values(
                    seq![a],
                )
            }
        }),
{
    compact_names_are_bound(t);
    assert(symbol("ok"@) == AtomV::Sym("ok"@)) by {
        reveal_strlit("ok");
        reveal_strlit("True");
        reveal_strlit("False");
        assert("ok"@.len() == 2 && "True"@.len() == 4 && "False"@.len() == 5);
    }
    if is_sread_value(a) {
        written_values_are_sread(a);
    }
}

} // verus!
