//! What the functions on states, spaces and texts do.
use crate::atom::AtomV;
use crate::atom::affirms;
use crate::atom::sexpr;
use crate::builtins::AnswerV;
use crate::builtins::called;
use crate::builtins::collections::named_answer;
use crate::builtins::io::first_value;
use crate::builtins::io::with_io_builtins;
use crate::builtins::state::with_state_builtins;
use crate::compile::reify::is_plain;
use crate::expr::Expr;
use crate::func::TableV;
use crate::laws::naming::state_names_are_bound;
use crate::laws::naming::text_names_are_bound;
use crate::laws::numbers::truth_atom;
use crate::round_trip::is_readable;
use crate::round_trip::written_atoms_are_parsed;
use crate::space::with_atom;
use crate::text::ascii_lower;
use crate::text::lower_text;
use vstd::prelude::*;
use vstd::string::*;

verus! {

/// The answer of a call by name, and the table it leaves.
pub open spec fn named_call(t: TableV, name: Seq<char>, args: Seq<AtomV>) -> (AnswerV, TableV) {
    called(t.natives[(name, args.len() as u8)], name, args, t)
}

/// Called by name, `change-state!` gives a key a value, which `get-state` gives
/// back; other keys, functions and spaces stay as they are. `bind!` does the same,
/// with the value in `(new-state value)` where it is given that. A key without a
/// value has none to give.
pub proof fn states_are_kept(
    t0: TableV,
    key: Seq<char>,
    other: Seq<char>,
    v: AtomV,
)
    ensures
        ({
            let t = with_state_builtins(t0);
            let k = AtomV::Sym(key);
            let o = AtomV::Sym(other);
            let wrapped = AtomV::Expr(seq![AtomV::Sym("new-state"@), v]);
            let changed = named_call(t, "change-state!"@, seq![k, v]);
            let bound = named_call(t, "bind!"@, seq![k, v]);
            let unwrapped = named_call(t, "bind!"@, seq![k, wrapped]);
            &&& changed.0 == AnswerV::Values(seq![AtomV::Sym("true"@)])
            &&& named_answer(changed.1, "get-state"@, seq![k]) == AnswerV::Values(seq![v])
            &&& other != key ==> named_answer(changed.1, "get-state"@, seq![o]) == named_answer(
                t,
                "get-state"@,
                seq![o],
            )
            &&& changed.1.fns == t.fns && changed.1.spaces == t.spaces
            &&& unwrapped == changed
            &&& !(v is Expr) ==> bound == changed
            &&& !t.state.contains_key((key, 0)) ==> named_answer(t, "get-state"@, seq![k]) is Fail
            &&& named_call(t, "get-state"@, seq![k]).1 == t
        }),
{
    state_names_are_bound(t0);
    reveal_strlit("true");
    reveal_strlit("True");
    reveal_strlit("False");
    reveal_strlit("new-state");
    assert("true"@.len() == 4 && "True"@.len() == 4 && "False"@.len() == 5 && "new-state"@.len()
        == 9);
    assert("true"@[0] == 't' && "True"@[0] == 'T');
}

/// A key that is no symbol is refused, and nothing changes.
pub proof fn keys_are_symbols(t0: TableV, k: AtomV, v: AtomV)
    requires
        !(k is Sym),
    ensures
        ({
            let t = with_state_builtins(t0);
            &&& named_call(t, "change-state!"@, seq![k, v]).0 is Fail
            &&& named_call(t, "change-state!"@, seq![k, v]).1 == t
            &&& named_call(t, "bind!"@, seq![k, v]).0 is Fail
            &&& named_call(t, "bind!"@, seq![k, v]).1 == t
            &&& named_call(t, "get-state"@, seq![k]).0 is Fail
        }),
{
    state_names_are_bound(t0);
}

/// Called by name, `get-atoms` gives the atoms of a space in the order in which
/// they were added: after an atom is added it comes last, and before that the
/// others. Nothing is a space but what a symbol names.
pub proof fn atoms_are_given_in_order(t0: TableV, name: Seq<char>, a: AtomV, x: AtomV)
    ensures
        ({
            let t = with_state_builtins(t0);
            let s = AtomV::Sym(name);
            let before = named_answer(t, "get-atoms"@, seq![s]);
            &&& before is Values
            &&& named_answer(with_atom(t, name, a), "get-atoms"@, seq![s]) == AnswerV::Values(
                before->Values_0.push(a),
            )
            &&& !t.spaces.contains_key((name, 0)) ==> before == AnswerV::Values(Seq::empty())
            &&& !(x is Sym) ==> named_answer(t, "get-atoms"@, seq![x]) is Fail
        }),
{
    state_names_are_bound(t0);
}

/// Called by name, `repr` gives the text of an atom, and `parse` and `sread` read
/// it back: what is written of an atom that a text can stand for is read as that
/// atom.
pub proof fn texts_are_written_and_read(t0: TableV, a: AtomV)
    ensures
        ({
            let t = with_io_builtins(t0);
            &&& named_answer(t, "repr"@, seq![a]) == AnswerV::Values(seq![AtomV::Str(sexpr(a))])
            &&& forall|s: Seq<char>|
                #![trigger first_value(s)]
                {
                    let p = named_answer(t, "parse"@, seq![AtomV::Str(s)]);
                    &&& p == named_answer(t, "parse"@, seq![AtomV::Sym(s)])
                    &&& p == named_answer(t, "sread"@, seq![AtomV::Str(s)])
                    &&& first_value(s) is Ok ==> p == AnswerV::Values(seq![first_value(s)->Ok_0])
                    &&& first_value(s) is Err ==> p is Fail
                }
            &&& is_readable(a) && is_plain(a) ==> named_answer(
                t,
                "parse"@,
                named_answer(t, "repr"@, seq![a])->Values_0,
            ) == AnswerV::Values(seq![a])
            &&& a is Num || a is Expr || a is Closure || a is Gnd ==> named_answer(
                t,
                "parse"@,
                seq![a],
            ) is Fail
        }),
{
    text_names_are_bound(t0);
    if is_readable(a) && is_plain(a) {
        written_atoms_are_parsed(a);
    }
}

/// Whether an atom counts as true: all but the number zero, the empty symbol and
/// the symbols that read `false`.
pub open spec fn counts_as_true(a: AtomV) -> bool {
    match a {
        AtomV::Num(n) => n.parts().0 != 0,
        AtomV::Sym(s) => s.len() > 0 && !(s.len() == 5 && (s[0] == 'f' || s[0] == 'F') && (s[1]
            == 'a' || s[1] == 'A') && (s[2] == 'l' || s[2] == 'L') && (s[3] == 's' || s[3] == 'S')
            && (s[4] == 'e' || s[4] == 'E')),
        _ => true,
    }
}

/// The condition of filters and assertions is that atoms count as true.
pub proof fn conditions_are_truth(a: AtomV)
    ensures
        affirms(a) == counts_as_true(a),
        affirms(truth_atom(true)),
        !affirms(truth_atom(false)),
{
    reveal_strlit("false");
    reveal_strlit("true");
    assert("false"@.len() == 5 && "false"@[0] == 'f' && "false"@[1] == 'a' && "false"@[2] == 'l'
        && "false"@[3] == 's' && "false"@[4] == 'e');
    assert("true"@.len() == 4);
    if let AtomV::Sym(s) = a {
        let l = lower_text(s);
        assert(l.len() == s.len());
        if s.len() == 5 {
            assert(l[0] == ascii_lower(s[0]) && l[1] == ascii_lower(s[1]) && l[2] == ascii_lower(
                s[2],
            ) && l[3] == ascii_lower(s[3]) && l[4] == ascii_lower(s[4]));
            lemma_lowers_to(s[0], 'f', 'F');
            lemma_lowers_to(s[1], 'a', 'A');
            lemma_lowers_to(s[2], 'l', 'L');
            lemma_lowers_to(s[3], 's', 'S');
            lemma_lowers_to(s[4], 'e', 'E');
            if counts_as_true(a) {
                assert(l != "false"@);
            } else {
                assert(l =~= "false"@);
            }
        } else if s.len() > 0 {
            assert(l != "false"@);
        }
    }
    let f = lower_text("false"@);
    assert(f =~= "false"@) by {
        lemma_lowers_to('f', 'f', 'F');
        lemma_lowers_to('a', 'a', 'A');
        lemma_lowers_to('l', 'l', 'L');
        lemma_lowers_to('s', 's', 'S');
        lemma_lowers_to('e', 'e', 'E');
    }
    assert(lower_text("true"@).len() == 4);
}

/// A letter is the lower case of itself and of its upper case, and of no other.
proof fn lemma_lowers_to(c: char, low: char, up: char)
    requires
        'a' <= low <= 'z',
        up as int == low as int - 32,
    ensures
        (ascii_lower(c) == low) == (c == low || c == up),
{
}

/// Called by name, `assert` answers `true` for what counts as true and fails for
/// the rest; `test` reports both of its arguments, and tells by its value whether
/// they are equal.
pub proof fn assertions_and_tests_tell(t0: TableV, a: AtomV, b: AtomV)
    ensures
        ({
            let t = with_io_builtins(t0);
            let r = named_answer(t, "test"@, seq![a, b]);
            &&& counts_as_true(a) ==> named_answer(t, "assert"@, seq![a]) == AnswerV::Values(
                seq![truth_atom(true)],
            )
            &&& !counts_as_true(a) ==> named_answer(t, "assert"@, seq![a]) == AnswerV::Fail(
                "Assertion failed: "@ + sexpr(a),
            )
            &&& r is Report
            &&& r->Report_1 == truth_atom(a == b)
            &&& ("is "@ + sexpr(a) + ", should "@ + sexpr(b)).is_prefix_of(r->Report_0)
        }),
{
    text_names_are_bound(t0);
    conditions_are_truth(a);
    reveal_strlit("true");
    reveal_strlit("True");
    reveal_strlit("False");
    assert("true"@.len() == 4 && "True"@.len() == 4 && "False"@.len() == 5);
    assert("true"@[0] == 't' && "True"@[0] == 'T');
    let r = named_answer(with_io_builtins(t0), "test"@, seq![a, b]);
    let line = "is "@ + sexpr(a) + ", should "@ + sexpr(b);
    assert(r->Report_0.take(line.len() as int) =~= line);
}

} // verus!
