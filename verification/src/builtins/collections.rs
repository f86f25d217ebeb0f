//! Built-in functions on lists.
use crate::atom::Atom;
use crate::atom::AtomV;
use crate::atom::atom_same;
use crate::atom::atoms;
use crate::atom::copy_atoms;
use crate::atom::group_atoms;
use crate::atom::sexpr;
use crate::atom::symbol;
use crate::builtins::Answer;
use crate::builtins::AnswerV;
use crate::builtins::Callee;
use crate::builtins::CalleeV;
use crate::builtins::ListLoop;
use crate::builtins::LoopKind;
use crate::builtins::LoopV;
use crate::builtins::Row;
use crate::builtins::RowV;
use crate::builtins::add_row;
use crate::builtins::answer_none;
use crate::builtins::answer_one;
use crate::builtins::called;
use crate::builtins::arithmetic::alpha_eq;
use crate::builtins::arithmetic::alpha_same;
use crate::builtins::arithmetic::expect_n_args;
use crate::builtins::arithmetic::wrong_count;
use crate::builtins::boolean::bool_atom;
use crate::builtins::boolean::truth;
use crate::builtins::one;
use crate::builtins::register_rows;
use crate::builtins::rows;
use crate::builtins::with_rows;
use crate::compile::reify::atom_to_expr;
use crate::compile::reify::to_expr;
use crate::compile::reify::to_exprs;
use crate::expr::Expr;
use crate::expr::exprs;
use crate::expr::group_exprs;
use crate::func::Builtin;
use crate::func::FnTable;
use crate::func::TableV;
use crate::numeric::NumV;
use crate::text::chars_of;
use crate::text::comes_before;
use crate::text::joined;
use crate::text::joined3;
use crate::text::nat_digits;
use crate::text::push_char;
use crate::text::text_before;
use crate::text::usize_text;
use std::sync::Arc;
use vstd::multiset::Multiset;
use vstd::prelude::*;
use vstd::string::*;

verus! {

/// The elements of a list; another value is a list of one.
pub open spec fn items_of(a: AtomV) -> Seq<AtomV> {
    match a {
        AtomV::Expr(items) => items,
        other => seq![other],
    }
}

/// Take the elements of a list.
pub fn list_items(a: &Atom) -> (r: Vec<Atom>)
    ensures
        atoms(r@) == items_of(a@),
{
    broadcast use group_atoms;

    match a {
        Atom::Expr(items) => {
            let r = copy_atoms(items, 0);
            assert(items@.skip(0) =~= items@);
            r
        },
        other => {
            let mut r: Vec<Atom> = Vec::new();
            r.push(other.clone());
            assert(atoms(r@) =~= seq![other@]);
            r
        },
    }
}

/// The complaint about a value that is no list.
pub open spec fn not_a_list(name: Seq<char>, a: AtomV) -> AnswerV {
    AnswerV::Fail(name + ": expected list, got "@ + sexpr(a))
}

/// Complain about a value that is no list.
pub fn complain_not_list(name: &str, a: &Atom) -> (r: Answer)
    ensures
        r@ == not_a_list(name@, a@),
{
    let t = a.to_sexpr_string();
    Answer::Fail(joined3(name, ": expected list, got ", t.as_str()))
}

/// The number of elements, as a value.
pub open spec fn size_answer(a: AtomV) -> AnswerV {
    one(AtomV::Num(NumV::Int(items_of(a).len() as int)))
}

/// The first element, or why there is none.
pub open spec fn head_answer(name: Seq<char>, a: AtomV) -> AnswerV {
    match a {
        AtomV::Expr(items) => if items.len() > 0 {
            one(items[0])
        } else {
            AnswerV::Fail(name + ": empty list"@)
        },
        other => not_a_list(name, other),
    }
}

/// The first element, if there is one.
pub open spec fn head_or_none(a: AtomV) -> AnswerV {
    match a {
        AtomV::Expr(items) => if items.len() > 0 {
            one(items[0])
        } else {
            AnswerV::Values(Seq::empty())
        },
        _ => AnswerV::Values(Seq::empty()),
    }
}

/// All but the first element, or why there is none.
pub open spec fn tail_answer(name: Seq<char>, a: AtomV) -> AnswerV {
    match a {
        AtomV::Expr(items) => if items.len() > 0 {
            one(AtomV::Expr(items.skip(1)))
        } else {
            AnswerV::Fail(name + ": empty list"@)
        },
        other => not_a_list(name, other),
    }
}

/// All but the first element, if there is one.
pub open spec fn tail_or_none(a: AtomV) -> AnswerV {
    match a {
        AtomV::Expr(items) => if items.len() > 0 {
            one(AtomV::Expr(items.skip(1)))
        } else {
            AnswerV::Values(Seq::empty())
        },
        _ => AnswerV::Values(Seq::empty()),
    }
}

/// A list with an element put in front.
pub open spec fn consed(x: AtomV, l: AtomV) -> AtomV {
    AtomV::Expr(seq![x] + items_of(l))
}

/// The first element and the rest, as a list of two.
pub open spec fn decons_answer(name: Seq<char>, a: AtomV) -> AnswerV {
    match a {
        AtomV::Expr(items) => if items.len() > 0 {
            one(AtomV::Expr(seq![items[0], AtomV::Expr(items.skip(1))]))
        } else {
            AnswerV::Fail(name + ": empty list"@)
        },
        other => not_a_list(name, other),
    }
}

/// A list turned round, or why there is none.
pub open spec fn reverse_answer(name: Seq<char>, a: AtomV) -> AnswerV {
    match a {
        AtomV::Expr(items) => one(AtomV::Expr(items.reverse())),
        other => not_a_list(name, other),
    }
}

/// The element at a position, or why there is none.
pub open spec fn index_answer(name: Seq<char>, l: AtomV, index: AtomV) -> AnswerV {
    match index {
        AtomV::Num(n) => match n {
            NumV::Int(i) => if 0 <= i <= usize::MAX {
                match l {
                    AtomV::Expr(items) => if i < items.len() {
                        one(items[i])
                    } else {
                        AnswerV::Fail(
                            name + ": index "@ + nat_digits(i as nat) + " out of bounds (len "@
                                + nat_digits(items.len()) + ")"@,
                        )
                    },
                    other => not_a_list(name, other),
                }
            } else {
                AnswerV::Fail(name + ": index must be non-negative, got "@ + n.text())
            },
            _ => AnswerV::Fail(name + ": index must be non-negative, got "@ + n.text()),
        },
        other => AnswerV::Fail(name + ": index must be a number, got "@ + sexpr(other)),
    }
}

/// The second element, or why there is none.
pub open spec fn second_answer(name: Seq<char>, a: AtomV) -> AnswerV {
    match a {
        AtomV::Expr(items) => if items.len() >= 2 {
            one(items[1])
        } else {
            AnswerV::Fail(name + ": list too short"@)
        },
        other => not_a_list(name, other),
    }
}

/// The last element, or why there is none.
pub open spec fn last_answer(name: Seq<char>, a: AtomV) -> AnswerV {
    match a {
        AtomV::Expr(items) => if items.len() > 0 {
            one(items.last())
        } else {
            AnswerV::Fail(name + ": empty list"@)
        },
        other => not_a_list(name, other),
    }
}

/// An element put into an ordered list, after the elements that do not come
/// after it.
pub open spec fn placed(s: Seq<AtomV>, x: AtomV) -> Seq<AtomV>
    decreases s.len(),
{
    if s.len() == 0 {
        seq![x]
    } else if text_before(sexpr(x), sexpr(s.last())) {
        placed(s.drop_last(), x).push(s.last())
    } else {
        s.push(x)
    }
}

/// A list in the order of the texts of its elements; elements with the same
/// text stay in their order.
pub open spec fn text_sorted(s: Seq<AtomV>) -> Seq<AtomV>
    decreases s.len(),
{
    if s.len() == 0 {
        s
    } else {
        placed(text_sorted(s.drop_last()), s.last())
    }
}

/// A list without the elements equal to a value.
pub open spec fn excluded(s: Seq<AtomV>, x: AtomV) -> Seq<AtomV>
    decreases s.len(),
{
    if s.len() == 0 {
        s
    } else if s.last() == x {
        excluded(s.drop_last(), x)
    } else {
        excluded(s.drop_last(), x).push(s.last())
    }
}

/// The answer of leaving out a value.
pub open spec fn exclude_answer(x: AtomV, l: AtomV) -> AnswerV {
    match l {
        AtomV::Expr(items) => one(AtomV::Expr(excluded(items, x))),
        other => if other == x {
            one(AtomV::Expr(Seq::empty()))
        } else {
            one(other)
        },
    }
}

/// A list without later occurrences.
pub open spec fn unique(s: Seq<AtomV>) -> Seq<AtomV>
    decreases s.len(),
{
    if s.len() == 0 {
        s
    } else {
        let before = unique(s.drop_last());
        if before.contains(s.last()) {
            before
        } else {
            before.push(s.last())
        }
    }
}

/// The answer of leaving out later occurrences.
pub open spec fn unique_answer(a: AtomV) -> AnswerV {
    match a {
        AtomV::Expr(items) => one(AtomV::Expr(unique(items))),
        other => one(other),
    }
}

/// Whether an element is, up to renaming of variables, in a list.
pub open spec fn alpha_contains(s: Seq<AtomV>, x: AtomV) -> bool {
    exists|i: int| 0 <= i < s.len() && alpha_same(x, #[trigger] s[i])
}

/// A list without later occurrences up to renaming of variables.
pub open spec fn alpha_unique(s: Seq<AtomV>) -> Seq<AtomV>
    decreases s.len(),
{
    if s.len() == 0 {
        s
    } else {
        let before = alpha_unique(s.drop_last());
        if alpha_contains(before, s.last()) {
            before
        } else {
            before.push(s.last())
        }
    }
}

/// The answer of leaving out later occurrences up to renaming of variables.
pub open spec fn alpha_unique_answer(a: AtomV) -> AnswerV {
    match a {
        AtomV::Expr(items) => one(AtomV::Expr(alpha_unique(items))),
        other => one(other),
    }
}

/// The elements of a list that are matched by elements of a multiset, each of
/// which matches once; and the multiset left over.
pub open spec fn common(s: Seq<AtomV>, m: Multiset<AtomV>) -> (Seq<AtomV>, Multiset<AtomV>)
    decreases s.len(),
{
    if s.len() == 0 {
        (s, m)
    } else {
        let before = common(s.drop_last(), m);
        if before.1.count(s.last()) > 0 {
            (before.0.push(s.last()), before.1.remove(s.last()))
        } else {
            before
        }
    }
}

/// The elements of a list that are not matched by elements of a multiset, each
/// of which matches once; and the multiset left over.
pub open spec fn remaining(s: Seq<AtomV>, m: Multiset<AtomV>) -> (Seq<AtomV>, Multiset<AtomV>)
    decreases s.len(),
{
    if s.len() == 0 {
        (s, m)
    } else {
        let before = remaining(s.drop_last(), m);
        if before.1.count(s.last()) > 0 {
            (before.0, before.1.remove(s.last()))
        } else {
            (before.0.push(s.last()), before.1)
        }
    }
}

/// Two values put together: lists as lists, anything else as texts.
pub open spec fn concatenated(a: AtomV, b: AtomV) -> AtomV {
    match (a, b) {
        (AtomV::Expr(x), AtomV::Expr(y)) => AtomV::Expr(x + y),
        _ => symbol(sexpr(a) + sexpr(b)),
    }
}

/// The characters of a text as symbols.
pub open spec fn char_atoms(s: Seq<char>) -> Seq<AtomV> {
    Seq::new(s.len(), |i: int| symbol(seq![s[i]]))
}

/// The number of arguments of a function on lists.
pub open spec fn list_arity(b: Builtin) -> nat {
    match b {
        Builtin::Cons => 2,
        Builtin::Append => 2,
        Builtin::Index => 2,
        Builtin::Member => 2,
        Builtin::Exclude => 2,
        Builtin::Intersect => 2,
        Builtin::Subtract => 2,
        Builtin::Concat => 2,
        Builtin::AtomConcat => 2,
        _ => 1,
    }
}

/// The answer of a function on lists.
pub open spec fn list_answer(b: Builtin, name: Seq<char>, args: Seq<AtomV>) -> AnswerV {
    let shown = if b == Builtin::Decons {
        "decons"@
    } else {
        name
    };
    if args.len() != list_arity(b) {
        AnswerV::Fail(wrong_count(shown, list_arity(b), args.len()))
    } else {
        match b {
            Builtin::Size => size_answer(args[0]),
            Builtin::Head => head_answer(name, args[0]),
            Builtin::HeadOrNone => head_or_none(args[0]),
            Builtin::Tail => tail_answer(name, args[0]),
            Builtin::TailOrNone => tail_or_none(args[0]),
            Builtin::Cons => one(consed(args[0], args[1])),
            Builtin::Decons => decons_answer("decons"@, args[0]),
            Builtin::Append => one(AtomV::Expr(items_of(args[0]) + items_of(args[1]))),
            Builtin::Reverse => reverse_answer(name, args[0]),
            Builtin::Index => index_answer(name, args[0], args[1]),
            Builtin::Second => second_answer(name, args[0]),
            Builtin::Last => last_answer(name, args[0]),
            Builtin::SortText => one(AtomV::Expr(text_sorted(items_of(args[0])))),
            Builtin::SortUnique => one(AtomV::Expr(unique(text_sorted(items_of(args[0]))))),
            Builtin::Member => one(truth(items_of(args[1]).contains(args[0]))),
            Builtin::Exclude => exclude_answer(args[0], args[1]),
            Builtin::Unique => unique_answer(args[0]),
            Builtin::AlphaUnique => alpha_unique_answer(args[0]),
            Builtin::Intersect => one(
                AtomV::Expr(common(items_of(args[0]), items_of(args[1]).to_multiset()).0),
            ),
            Builtin::Subtract => one(
                AtomV::Expr(remaining(items_of(args[0]), items_of(args[1]).to_multiset()).0),
            ),
            Builtin::Concat => one(concatenated(args[0], args[1])),
            Builtin::AtomConcat => one(symbol(sexpr(args[0]) + sexpr(args[1]))),
            Builtin::AtomChars => one(AtomV::Expr(char_atoms(sexpr(args[0])))),
            _ => one(args[0]),
        }
    }
}

/// The answer of `term_hash`: the host computes the hash.
pub open spec fn hash_answer(name: Seq<char>, args: Seq<AtomV>) -> AnswerV {
    if args.len() != 1 {
        AnswerV::Fail(wrong_count(name, 1, args.len()))
    } else {
        AnswerV::Host(Builtin::TermHash, name, args)
    }
}

/// Hash a value.
pub fn term_hash(name: &str, args: &Vec<Atom>) -> (r: Answer)
    ensures
        r@ == hash_answer(name@, atoms(args@)),
{
    broadcast use group_atoms;

    match expect_n_args(args, 1, name) {
        Ok(_) => crate::builtins::arithmetic::hand_over(Builtin::TermHash, name, args),
        Err(e) => Answer::Fail(e),
    }
}

fn size(a: &Atom) -> (r: Answer)
    ensures
        r@ == size_answer(a@),
{
    broadcast use group_atoms;

    let n: usize = match a {
        Atom::Expr(items) => items.len(),
        _ => 1,
    };
    answer_one(Atom::num(n as i128))
}

fn head(name: &str, a: &Atom) -> (r: Answer)
    ensures
        r@ == head_answer(name@, a@),
{
    broadcast use group_atoms;

    match a {
        Atom::Expr(items) => {
            assert(atoms(items@).len() == items@.len());
            if items.len() > 0 {
                answer_one(items[0].clone())
            } else {
                Answer::Fail(joined(name, ": empty list"))
            }
        },
        other => complain_not_list(name, other),
    }
}

fn head_if_any(a: &Atom) -> (r: Answer)
    ensures
        r@ == head_or_none(a@),
{
    broadcast use group_atoms;

    match a {
        Atom::Expr(items) => {
            assert(atoms(items@).len() == items@.len());
            if items.len() > 0 {
                answer_one(items[0].clone())
            } else {
                answer_none()
            }
        },
        _ => answer_none(),
    }
}

fn tail(name: &str, a: &Atom) -> (r: Answer)
    ensures
        r@ == tail_answer(name@, a@),
{
    broadcast use group_atoms;

    match a {
        Atom::Expr(items) => {
            assert(atoms(items@).len() == items@.len());
            if items.len() > 0 {
                let rest = copy_atoms(items, 1);
                assert(atoms(items@.skip(1)) =~= atoms(items@).skip(1));
                answer_one(Atom::expr(rest))
            } else {
                Answer::Fail(joined(name, ": empty list"))
            }
        },
        other => complain_not_list(name, other),
    }
}

fn tail_if_any(a: &Atom) -> (r: Answer)
    ensures
        r@ == tail_or_none(a@),
{
    broadcast use group_atoms;

    match a {
        Atom::Expr(items) => {
            assert(atoms(items@).len() == items@.len());
            if items.len() > 0 {
                let rest = copy_atoms(items, 1);
                assert(atoms(items@.skip(1)) =~= atoms(items@).skip(1));
                answer_one(Atom::expr(rest))
            } else {
                answer_none()
            }
        },
        _ => answer_none(),
    }
}

/// Put the atoms of two lists together.
pub fn together(x: Vec<Atom>, y: Vec<Atom>) -> (r: Vec<Atom>)
    ensures
        atoms(r@) == atoms(x@) + atoms(y@),
{
    broadcast use group_atoms;

    let mut x = x;
    let mut y = y;
    let ghost xs = x@;
    let ghost ys = y@;
    x.append(&mut y);
    assert(atoms(x@) =~= atoms(xs) + atoms(ys));
    x
}

fn cons(x: &Atom, l: &Atom) -> (r: Answer)
    ensures
        r@ == one(consed(x@, l@)),
{
    let mut v: Vec<Atom> = Vec::new();
    v.push(x.clone());
    assert(atoms(v@) =~= seq![x@]);
    let items = list_items(l);
    answer_one(Atom::expr(together(v, items)))
}

/// Split a list into its first element and the rest.
pub fn decons_impl(name: &str, a: &Atom) -> (r: Answer)
    ensures
        r@ == decons_answer(name@, a@),
{
    broadcast use group_atoms;

    match a {
        Atom::Expr(items) => {
            assert(atoms(items@).len() == items@.len());
            if items.len() > 0 {
                let rest = copy_atoms(items, 1);
                assert(atoms(items@.skip(1)) =~= atoms(items@).skip(1));
                let mut v: Vec<Atom> = Vec::new();
                v.push(items[0].clone());
                v.push(Atom::expr(rest));
                assert(atoms(v@) =~= seq![
                    atoms(items@)[0],
                    AtomV::Expr(atoms(items@).skip(1)),
                ]);
                answer_one(Atom::expr(v))
            } else {
                Answer::Fail(joined(name, ": empty list"))
            }
        },
        other => complain_not_list(name, other),
    }
}

fn reverse(name: &str, a: &Atom) -> (r: Answer)
    ensures
        r@ == reverse_answer(name@, a@),
{
    broadcast use group_atoms;

    match a {
        Atom::Expr(items) => {
            let mut v: Vec<Atom> = Vec::new();
            let ghost want = atoms(items@).reverse();
            let mut i: usize = items.len();
            while i > 0
                invariant
                    i <= items@.len(),
                    want == atoms(items@).reverse(),
                    atoms(v@) == want.take(items@.len() - i),
                decreases i,
            {
                i -= 1;
                v.push(items[i].clone());
                assert(want.take(items@.len() - i) =~= want.take(items@.len() - i - 1).push(
                    atoms(items@)[i as int],
                ));
            }
            assert(want.take(items@.len() as int) =~= want);
            answer_one(Atom::expr(v))
        },
        other => complain_not_list(name, other),
    }
}

fn index(name: &str, l: &Atom, at: &Atom) -> (r: Answer)
    ensures
        r@ == index_answer(name@, l@, at@),
{
    broadcast use group_atoms;

    match at {
        Atom::Num(n) => {
            let found: Option<usize> = match at.as_num() {
                Ok(i) => {
                    if 0 <= i && i <= usize::MAX as i128 {
                        Some(i as usize)
                    } else {
                        None
                    }
                },
                Err(_) => None,
            };
            match found {
                None => {
                    let t = n.to_text();
                    Answer::Fail(
                        joined3(name, ": index must be non-negative, got ", t.as_str()),
                    )
                },
                Some(i) => match l {
                    Atom::Expr(items) => {
                        assert(atoms(items@).len() == items@.len());
                        if i < items.len() {
                            answer_one(items[i].clone())
                        } else {
                            let mut out: String = joined(name, ": index ");
                            let a = usize_text(i);
                            out.append(a.as_str());
                            out.append(" out of bounds (len ");
                            let b = usize_text(items.len());
                            out.append(b.as_str());
                            out.append(")");
                            Answer::Fail(out)
                        }
                    },
                    other => complain_not_list(name, other),
                },
            }
        },
        other => {
            let t = other.to_sexpr_string();
            Answer::Fail(joined3(name, ": index must be a number, got ", t.as_str()))
        },
    }
}

fn second(name: &str, a: &Atom) -> (r: Answer)
    ensures
        r@ == second_answer(name@, a@),
{
    broadcast use group_atoms;

    match a {
        Atom::Expr(items) => {
            assert(atoms(items@).len() == items@.len());
            if items.len() >= 2 {
                answer_one(items[1].clone())
            } else {
                Answer::Fail(joined(name, ": list too short"))
            }
        },
        other => complain_not_list(name, other),
    }
}

fn last(name: &str, a: &Atom) -> (r: Answer)
    ensures
        r@ == last_answer(name@, a@),
{
    broadcast use group_atoms;

    match a {
        Atom::Expr(items) => {
            assert(atoms(items@).len() == items@.len());
            if items.len() > 0 {
                answer_one(items[items.len() - 1].clone())
            } else {
                Answer::Fail(joined(name, ": empty list"))
            }
        },
        other => complain_not_list(name, other),
    }
}

/// Where a placed element ends up.
proof fn lemma_placed(s: Seq<AtomV>, x: AtomV, n: int)
    requires
        0 <= n <= s.len(),
        forall|i: int| n <= i < s.len() ==> text_before(sexpr(x), sexpr(#[trigger] s[i])),
        n > 0 ==> !text_before(sexpr(x), sexpr(s[n - 1])),
    ensures
        placed(s, x) == s.insert(n, x),
    decreases s.len(),
{
    if n == s.len() {
        assert(s.insert(n, x) =~= s.push(x));
    } else {
        assert(s.last() == s[s.len() - 1]);
        assert forall|i: int| n <= i < s.drop_last().len() implies text_before(
            sexpr(x),
            sexpr(#[trigger] s.drop_last()[i]),
        ) by {
            assert(s.drop_last()[i] == s[i]);
        }
        if n > 0 {
            assert(s.drop_last()[n - 1] == s[n - 1]);
        }
        lemma_placed(s.drop_last(), x, n);
        assert(s.insert(n, x) =~= s.drop_last().insert(n, x).push(s.last()));
    }
}

/// Put a list in the order of the texts of its elements.
pub fn sort_by_text(items: &Vec<Atom>) -> (r: Vec<Atom>)
    ensures
        atoms(r@) == text_sorted(atoms(items@)),
{
    broadcast use group_atoms;

    let ghost xs = atoms(items@);
    let mut out: Vec<Atom> = Vec::new();
    let mut keys: Vec<String> = Vec::new();
    let mut k: usize = 0;
    assert(atoms(out@) =~= text_sorted(xs.take(0)));
    while k < items.len()
        invariant
            k <= items@.len(),
            xs == atoms(items@),
            out@.len() == k,
            keys@.len() == k,
            atoms(out@) == text_sorted(xs.take(k as int)),
            forall|i: int| 0 <= i < k ==> (#[trigger] keys@[i])@ == sexpr(atoms(out@)[i]),
        decreases items@.len() - k,
    {
        let key = items[k].to_sexpr_string();
        let ghost s = atoms(out@);
        let mut n: usize = k;
        let mut found: bool = false;
        while n > 0 && !found
            invariant
                n <= k,
                out@.len() == k,
                keys@.len() == k,
                s == atoms(out@),
                s.len() == k,
                key@ == sexpr(xs[k as int]),
                forall|i: int| 0 <= i < k ==> (#[trigger] keys@[i])@ == sexpr(s[i]),
                forall|i: int|
                    n <= i < k ==> text_before(sexpr(xs[k as int]), sexpr(#[trigger] s[i])),
                found ==> n > 0 && !text_before(sexpr(xs[k as int]), sexpr(s[n - 1])),
            decreases n + (if found { 0int } else { 1int }),
        {
            assert(keys@[n - 1]@ == sexpr(s[n - 1]));
            if comes_before(key.as_str(), keys[n - 1].as_str()) {
                n -= 1;
            } else {
                found = true;
            }
        }
        proof {
            lemma_placed(s, xs[k as int], n as int);
            assert(xs.take(k + 1).drop_last() =~= xs.take(k as int));
        }
        let ghost out0 = out@;
        let ghost keys0 = keys@;
        out.insert(n, items[k].clone());
        keys.insert(n, key);
        assert(atoms(out@) =~= s.insert(n as int, xs[k as int]));
        assert forall|i: int| 0 <= i < k + 1 implies (#[trigger] keys@[i])@ == sexpr(
            atoms(out@)[i],
        ) by {
            if i < n {
                assert(keys@[i] == keys0[i]);
            } else if i > n {
                assert(keys@[i] == keys0[i - 1]);
            }
        }
        k += 1;
    }
    assert(xs.take(items@.len() as int) =~= xs);
    out
}

/// Whether an element is in a list.
pub fn contains_atom(items: &Vec<Atom>, x: &Atom) -> (r: bool)
    ensures
        r == atoms(items@).contains(x@),
{
    broadcast use group_atoms;

    let ghost xs = atoms(items@);
    let mut i: usize = 0;
    while i < items.len()
        invariant
            i <= items@.len(),
            xs == atoms(items@),
            forall|j: int| 0 <= j < i ==> xs[j] != x@,
        decreases items@.len() - i,
    {
        if atom_same(&items[i], x) {
            assert(xs[i as int] == x@);
            return true;
        }
        i += 1;
    }
    false
}

fn exclude(x: &Atom, l: &Atom) -> (r: Answer)
    ensures
        r@ == exclude_answer(x@, l@),
{
    broadcast use group_atoms;

    match l {
        Atom::Expr(items) => {
            let ghost xs = atoms(items@);
            let mut out: Vec<Atom> = Vec::new();
            let mut i: usize = 0;
            assert(atoms(out@) =~= excluded(xs.take(0), x@));
            while i < items.len()
                invariant
                    i <= items@.len(),
                    xs == atoms(items@),
                    atoms(out@) == excluded(xs.take(i as int), x@),
                decreases items@.len() - i,
            {
                assert(xs.take(i + 1).drop_last() =~= xs.take(i as int));
                if !atom_same(&items[i], x) {
                    out.push(items[i].clone());
                }
                i += 1;
            }
            assert(xs.take(items@.len() as int) =~= xs);
            answer_one(Atom::expr(out))
        },
        other => {
            if atom_same(other, x) {
                let v: Vec<Atom> = Vec::new();
                assert(atoms(v@) =~= Seq::<AtomV>::empty());
                answer_one(Atom::expr(v))
            } else {
                answer_one(other.clone())
            }
        },
    }
}

/// Keep the first copy of each element.
pub fn keep_first_copies(items: &Vec<Atom>) -> (r: Vec<Atom>)
    ensures
        atoms(r@) == unique(atoms(items@)),
{
    broadcast use group_atoms;

    let ghost xs = atoms(items@);
    let mut out: Vec<Atom> = Vec::new();
    let mut i: usize = 0;
    assert(atoms(out@) =~= unique(xs.take(0)));
    while i < items.len()
        invariant
            i <= items@.len(),
            xs == atoms(items@),
            atoms(out@) == unique(xs.take(i as int)),
        decreases items@.len() - i,
    {
        assert(xs.take(i + 1).drop_last() =~= xs.take(i as int));
        if !contains_atom(&out, &items[i]) {
            out.push(items[i].clone());
        }
        i += 1;
    }
    assert(xs.take(items@.len() as int) =~= xs);
    out
}

fn unique_items(a: &Atom) -> (r: Answer)
    ensures
        r@ == unique_answer(a@),
{
    match a {
        Atom::Expr(items) => answer_one(Atom::expr(keep_first_copies(items))),
        other => answer_one(other.clone()),
    }
}

/// Whether an element is, up to renaming of variables, in a list.
fn contains_alpha(items: &Vec<Atom>, x: &Atom) -> (r: bool)
    ensures
        r == alpha_contains(atoms(items@), x@),
{
    broadcast use group_atoms;

    let ghost xs = atoms(items@);
    let mut i: usize = 0;
    while i < items.len()
        invariant
            i <= items@.len(),
            xs == atoms(items@),
            forall|j: int| 0 <= j < i ==> !alpha_same(x@, #[trigger] xs[j]),
        decreases items@.len() - i,
    {
        if alpha_eq(x, &items[i]) {
            assert(alpha_same(x@, xs[i as int]));
            return true;
        }
        i += 1;
    }
    false
}

fn alpha_unique_items(a: &Atom) -> (r: Answer)
    ensures
        r@ == alpha_unique_answer(a@),
{
    broadcast use group_atoms;

    match a {
        Atom::Expr(items) => {
            let ghost xs = atoms(items@);
            let mut out: Vec<Atom> = Vec::new();
            let mut i: usize = 0;
            assert(atoms(out@) =~= alpha_unique(xs.take(0)));
            while i < items.len()
                invariant
                    i <= items@.len(),
                    xs == atoms(items@),
                    atoms(out@) == alpha_unique(xs.take(i as int)),
                decreases items@.len() - i,
            {
                assert(xs.take(i + 1).drop_last() =~= xs.take(i as int));
                if !contains_alpha(&out, &items[i]) {
                    out.push(items[i].clone());
                }
                i += 1;
            }
            assert(xs.take(items@.len() as int) =~= xs);
            answer_one(Atom::expr(out))
        },
        other => answer_one(other.clone()),
    }
}

/// Take one occurrence of an element out of a pool; the answer says whether
/// there was one.
fn take_from(pool: &mut Vec<Atom>, x: &Atom) -> (r: bool)
    ensures
        r == (atoms(old(pool)@).to_multiset().count(x@) > 0),
        r ==> atoms(final(pool)@).to_multiset() == atoms(old(pool)@).to_multiset().remove(x@),
        !r ==> final(pool)@ == old(pool)@,
{
    broadcast use group_atoms;
    broadcast use vstd::seq_lib::group_to_multiset_ensures;

    let ghost xs = atoms(pool@);
    let mut i: usize = 0;
    while i < pool.len()
        invariant
            i <= pool@.len(),
            pool@ == old(pool)@,
            xs == atoms(pool@),
            forall|j: int| 0 <= j < i ==> xs[j] != x@,
        decreases pool@.len() - i,
    {
        if atom_same(&pool[i], x) {
            proof {
                assert(xs[i as int] == x@);
                assert(xs.contains(x@));
                xs.to_multiset_ensures();
            }
            let gone = pool.remove(i);
            assert(atoms(pool@) =~= xs.remove(i as int));
            return true;
        }
        i += 1;
    }
    proof {
        xs.to_multiset_ensures();
        assert(!xs.contains(x@));
    }
    false
}

fn intersect(a: &Atom, b: &Atom) -> (r: Vec<Atom>)
    ensures
        atoms(r@) == common(items_of(a@), items_of(b@).to_multiset()).0,
{
    broadcast use group_atoms;

    let items = list_items(a);
    let mut pool = list_items(b);
    let ghost xs = atoms(items@);
    let ghost m = atoms(pool@).to_multiset();
    let mut out: Vec<Atom> = Vec::new();
    let mut i: usize = 0;
    assert(atoms(out@) =~= common(xs.take(0), m).0);
    while i < items.len()
        invariant
            i <= items@.len(),
            xs == atoms(items@),
            atoms(out@) == common(xs.take(i as int), m).0,
            atoms(pool@).to_multiset() == common(xs.take(i as int), m).1,
        decreases items@.len() - i,
    {
        assert(xs.take(i + 1).drop_last() =~= xs.take(i as int));
        if take_from(&mut pool, &items[i]) {
            out.push(items[i].clone());
        }
        i += 1;
    }
    assert(xs.take(items@.len() as int) =~= xs);
    out
}

fn subtract(a: &Atom, b: &Atom) -> (r: Vec<Atom>)
    ensures
        atoms(r@) == remaining(items_of(a@), items_of(b@).to_multiset()).0,
{
    broadcast use group_atoms;

    let items = list_items(a);
    let mut pool = list_items(b);
    let ghost xs = atoms(items@);
    let ghost m = atoms(pool@).to_multiset();
    let mut out: Vec<Atom> = Vec::new();
    let mut i: usize = 0;
    assert(atoms(out@) =~= remaining(xs.take(0), m).0);
    while i < items.len()
        invariant
            i <= items@.len(),
            xs == atoms(items@),
            atoms(out@) == remaining(xs.take(i as int), m).0,
            atoms(pool@).to_multiset() == remaining(xs.take(i as int), m).1,
        decreases items@.len() - i,
    {
        assert(xs.take(i + 1).drop_last() =~= xs.take(i as int));
        if !take_from(&mut pool, &items[i]) {
            out.push(items[i].clone());
        }
        i += 1;
    }
    assert(xs.take(items@.len() as int) =~= xs);
    out
}

/// Put the texts of two values together.
fn concat_texts(a: &Atom, b: &Atom) -> (r: Atom)
    ensures
        r@ == symbol(sexpr(a@) + sexpr(b@)),
{
    let x = a.to_sexpr_string();
    let y = b.to_sexpr_string();
    let t = joined(x.as_str(), y.as_str());
    Atom::sym(t.as_str())
}

fn concat(a: &Atom, b: &Atom) -> (r: Atom)
    ensures
        r@ == concatenated(a@, b@),
{
    match (a, b) {
        (Atom::Expr(x), Atom::Expr(y)) => {
            let v = copy_atoms(x, 0);
            let w = copy_atoms(y, 0);
            assert(x@.skip(0) =~= x@);
            assert(y@.skip(0) =~= y@);
            Atom::expr(together(v, w))
        },
        _ => concat_texts(a, b),
    }
}

fn char_list(a: &Atom) -> (r: Atom)
    ensures
        r@ == AtomV::Expr(char_atoms(sexpr(a@))),
{
    broadcast use group_atoms;

    let t = a.to_sexpr_string();
    let cs = chars_of(t.as_str());
    let ghost want = char_atoms(sexpr(a@));
    let mut out: Vec<Atom> = Vec::new();
    let mut i: usize = 0;
    while i < cs.len()
        invariant
            i <= cs@.len(),
            cs@ == sexpr(a@),
            want == char_atoms(sexpr(a@)),
            atoms(out@) == want.take(i as int),
        decreases cs@.len() - i,
    {
        let mut one_char: String = String::new();
        push_char(&mut one_char, cs[i]);
        assert(one_char@ =~= seq![cs@[i as int]]);
        out.push(Atom::sym(one_char.as_str()));
        assert(want.take(i + 1) =~= want.take(i as int).push(want[i as int]));
        i += 1;
    }
    assert(want.take(cs@.len() as int) =~= want);
    Atom::expr(out)
}

/// Compute the answer of a function on lists.
pub fn list_op(b: Builtin, name: &str, args: &Vec<Atom>) -> (r: Answer)
    ensures
        r@ == list_answer(b, name@, atoms(args@)),
{
    broadcast use group_atoms;

    let n: usize = match b {
        Builtin::Cons => 2,
        Builtin::Append => 2,
        Builtin::Index => 2,
        Builtin::Member => 2,
        Builtin::Exclude => 2,
        Builtin::Intersect => 2,
        Builtin::Subtract => 2,
        Builtin::Concat => 2,
        Builtin::AtomConcat => 2,
        _ => 1,
    };
    let shown = if b == Builtin::Decons {
        "decons"
    } else {
        name
    };
    assert(atoms(args@).len() == args@.len());
    match expect_n_args(args, n, shown) {
        Ok(_) => {},
        Err(e) => {
            return Answer::Fail(e);
        },
    }
    let ghost av = atoms(args@);
    assert(av[0] == args@[0]@);
    assert(n == 2 ==> av[1] == args@[1]@);
    match b {
        Builtin::Size => size(&args[0]),
        Builtin::Head => head(name, &args[0]),
        Builtin::HeadOrNone => head_if_any(&args[0]),
        Builtin::Tail => tail(name, &args[0]),
        Builtin::TailOrNone => tail_if_any(&args[0]),
        Builtin::Cons => cons(&args[0], &args[1]),
        Builtin::Decons => decons_impl("decons", &args[0]),
        Builtin::Append => {
            let x = list_items(&args[0]);
            let y = list_items(&args[1]);
            answer_one(Atom::expr(together(x, y)))
        },
        Builtin::Reverse => reverse(name, &args[0]),
        Builtin::Index => index(name, &args[0], &args[1]),
        Builtin::Second => second(name, &args[0]),
        Builtin::Last => last(name, &args[0]),
        Builtin::SortText => {
            let x = list_items(&args[0]);
            answer_one(Atom::expr(sort_by_text(&x)))
        },
        Builtin::SortUnique => {
            let x = list_items(&args[0]);
            let y = sort_by_text(&x);
            answer_one(Atom::expr(keep_first_copies(&y)))
        },
        Builtin::Member => {
            let x = list_items(&args[1]);
            answer_one(bool_atom(contains_atom(&x, &args[0])))
        },
        Builtin::Exclude => exclude(&args[0], &args[1]),
        Builtin::Unique => unique_items(&args[0]),
        Builtin::AlphaUnique => alpha_unique_items(&args[0]),
        Builtin::Intersect => answer_one(Atom::expr(intersect(&args[0], &args[1]))),
        Builtin::Subtract => answer_one(Atom::expr(subtract(&args[0], &args[1]))),
        Builtin::Concat => answer_one(concat(&args[0], &args[1])),
        Builtin::AtomConcat => answer_one(concat_texts(&args[0], &args[1])),
        Builtin::AtomChars => answer_one(char_list(&args[0])),
        _ => answer_one(args[0].clone()),
    }
}

/// The loop of `foldl`, or why there is none.
pub open spec fn fold_started(name: Seq<char>, args: Seq<AtomV>, t: TableV) -> AnswerV {
    if args.len() != 3 {
        AnswerV::Fail(wrong_count(name, 3, args.len()))
    } else if items_of(args[2]).len() == 0 {
        one(args[1])
    } else {
        match args[0] {
            AtomV::Sym(f) => if t.natives.contains_key((f, 2)) {
                AnswerV::Loop(
                    LoopV {
                        kind: LoopKind::Fold,
                        callee: CalleeV::Native(t.natives[(f, 2)]),
                        name: f,
                        complaint: "foldl: function produced no results"@,
                        items: items_of(args[2]),
                        next: 0,
                        acc: args[1],
                        out: Seq::empty(),
                    },
                )
            } else {
                AnswerV::Fail("foldl: function "@ + f + " with arity 2 not found"@)
            },
            _ => AnswerV::Fail("foldl: first arg must be a symbol (function name)"@),
        }
    }
}

/// Start the loop of `foldl`.
pub fn start_foldl(name: &str, args: &Vec<Atom>, table: &mut FnTable) -> (r: Answer)
    ensures
        r@ == fold_started(name@, atoms(args@), old(table)@),
        final(table)@ == old(table)@,
{
    broadcast use group_atoms;

    match expect_n_args(args, 3, name) {
        Ok(_) => {},
        Err(e) => {
            return Answer::Fail(e);
        },
    }
    let ghost av = atoms(args@);
    assert(av[0] == args@[0]@ && av[1] == args@[1]@ && av[2] == args@[2]@);
    let items = list_items(&args[2]);
    assert(atoms(items@).len() == items@.len());
    if items.len() == 0 {
        return answer_one(args[1].clone());
    }
    match &args[0] {
        Atom::Sym(f) => match table.get(f.as_str(), 2) {
            Some(b) => {
                let out: Vec<Atom> = Vec::new();
                assert(atoms(out@) =~= Seq::<AtomV>::empty());
                Answer::Loop(
                    ListLoop {
                        kind: LoopKind::Fold,
                        callee: Callee::Native(b),
                        name: f.clone(),
                        complaint: "foldl: function produced no results".to_owned(),
                        items,
                        next: 0,
                        acc: args[1].clone(),
                        out,
                    },
                )
            },
            None => Answer::Fail(joined3("foldl: function ", f.as_str(), " with arity 2 not found")),
        },
        _ => Answer::Fail("foldl: first arg must be a symbol (function name)".to_owned()),
    }
}

/// The loop of `maplist`, or why there is none.
pub open spec fn map_list_started(name: Seq<char>, args: Seq<AtomV>, t: TableV) -> AnswerV {
    if args.len() != 2 {
        AnswerV::Fail(wrong_count(name, 2, args.len()))
    } else {
        match args[0] {
            AtomV::Sym(f) => if items_of(args[1]).len() == 0 {
                one(AtomV::Expr(Seq::empty()))
            } else if t.natives.contains_key((f, 1)) {
                AnswerV::Loop(
                    LoopV {
                        kind: LoopKind::Collect,
                        callee: CalleeV::Native(t.natives[(f, 1)]),
                        name: f,
                        complaint: "maplist: function produced no results for item "@,
                        items: items_of(args[1]),
                        next: 0,
                        acc: AtomV::Expr(Seq::empty()),
                        out: Seq::empty(),
                    },
                )
            } else {
                AnswerV::Fail("maplist: function "@ + f + " with arity 1 not found"@)
            },
            _ => AnswerV::Fail("maplist: first arg must be a symbol (function name)"@),
        }
    }
}

/// An empty list of atoms.
pub fn no_atoms() -> (r: Vec<Atom>)
    ensures
        atoms(r@) == Seq::<AtomV>::empty(),
{
    let v: Vec<Atom> = Vec::new();
    assert(atoms(v@) =~= Seq::<AtomV>::empty());
    v
}

/// Start the loop of `maplist`.
pub fn start_maplist(name: &str, args: &Vec<Atom>, table: &mut FnTable) -> (r: Answer)
    ensures
        r@ == map_list_started(name@, atoms(args@), old(table)@),
        final(table)@ == old(table)@,
{
    broadcast use group_atoms;

    match expect_n_args(args, 2, name) {
        Ok(_) => {},
        Err(e) => {
            return Answer::Fail(e);
        },
    }
    let ghost av = atoms(args@);
    assert(av[0] == args@[0]@ && av[1] == args@[1]@);
    match &args[0] {
        Atom::Sym(f) => {
            let items = list_items(&args[1]);
            assert(atoms(items@).len() == items@.len());
            if items.len() == 0 {
                return answer_one(Atom::expr(no_atoms()));
            }
            match table.get(f.as_str(), 1) {
                Some(b) => Answer::Loop(
                    ListLoop {
                        kind: LoopKind::Collect,
                        callee: Callee::Native(b),
                        name: f.clone(),
                        complaint: "maplist: function produced no results for item ".to_owned(),
                        items,
                        next: 0,
                        acc: Atom::expr(no_atoms()),
                        out: no_atoms(),
                    },
                ),
                None => Answer::Fail(
                    joined3("maplist: function ", f.as_str(), " with arity 1 not found"),
                ),
            }
        },
        _ => Answer::Fail("maplist: first arg must be a symbol (function name)".to_owned()),
    }
}

/// What `map-atom` and `filter-atom` call for each element: the callee, its
/// name, and the complaint about a step without a value.
pub open spec fn step_callee(name: Seq<char>, f: AtomV, t: TableV) -> Result<
    (CalleeV, Seq<char>, Seq<char>),
    Seq<char>,
> {
    match f {
        AtomV::Sym(s) => Ok(
            (
                if t.natives.contains_key((s, 1)) {
                    CalleeV::Native(t.natives[(s, 1)])
                } else {
                    CalleeV::Code(seq![to_expr(f)])
                },
                s,
                name + ": function "@ + s + " produced no result for item "@,
            ),
        ),
        AtomV::Expr(parts) => if parts.len() == 3 && parts[0] == symbol("partial"@) {
            match parts[1] {
                AtomV::Sym(s) => Ok(
                    (
                        CalleeV::Code(seq![to_expr(parts[1])] + to_exprs(items_of(parts[2]))),
                        s,
                        name + ": partial function produced no result for item "@,
                    ),
                ),
                _ => Err(name + ": partial function name must be a symbol"@),
            }
        } else {
            Ok(
                (
                    CalleeV::Code(seq![to_expr(f)]),
                    Seq::empty(),
                    name + ": function produced no result for item "@,
                ),
            )
        },
        _ => Ok(
            (
                CalleeV::Code(seq![to_expr(f)]),
                Seq::empty(),
                name + ": function produced no result for item "@,
            ),
        ),
    }
}

/// The loop of `map-atom` and `filter-atom`, or why there is none.
pub open spec fn map_started(
    kind: LoopKind,
    name: Seq<char>,
    args: Seq<AtomV>,
    t: TableV,
) -> AnswerV {
    if args.len() != 2 {
        AnswerV::Fail(wrong_count(name, 2, args.len()))
    } else {
        match step_callee(name, args[1], t) {
            Ok(c) => AnswerV::Loop(
                LoopV {
                    kind,
                    callee: c.0,
                    name: c.1,
                    complaint: c.2,
                    items: items_of(args[0]),
                    next: 0,
                    acc: AtomV::Expr(Seq::empty()),
                    out: Seq::empty(),
                },
            ),
            Err(e) => AnswerV::Fail(e),
        }
    }
}

/// One expression as a list.
fn one_expr(a: &Atom) -> (r: Vec<Expr>)
    ensures
        exprs(r@) == seq![to_expr(a@)],
{
    let mut v: Vec<Expr> = Vec::new();
    match atom_to_expr(a) {
        Ok(e) => {
            v.push(e);
        },
        Err(_) => {},
    }
    assert(exprs(v@) =~= seq![to_expr(a@)]);
    v
}

/// Add the expressions of atoms to a list.
fn push_exprs(v: &mut Vec<Expr>, list: &Vec<Atom>)
    ensures
        exprs(final(v)@) == exprs(old(v)@) + to_exprs(atoms(list@)),
{
    broadcast use {group_atoms, group_exprs};

    let ghost want = to_exprs(atoms(list@));
    let ghost start = exprs(v@);
    let mut i: usize = 0;
    assert(start + want.take(0) =~= start);
    while i < list.len()
        invariant
            i <= list@.len(),
            want == to_exprs(atoms(list@)),
            start == exprs(old(v)@),
            exprs(v@) == start + want.take(i as int),
        decreases list@.len() - i,
    {
        match atom_to_expr(&list[i]) {
            Ok(e) => {
                v.push(e);
            },
            Err(_) => {},
        }
        assert(start + want.take(i + 1) =~= (start + want.take(i as int)).push(want[i as int]));
        i += 1;
    }
    assert(want.take(list@.len() as int) =~= want);
}

/// Find out what `map-atom` and `filter-atom` call for each element.
fn find_callee(name: &str, f: &Atom, table: &FnTable) -> (r: Result<
    (Callee, String, String),
    String,
>)
    ensures
        (match r {
            Ok(c) => step_callee(name@, f@, table@) == Ok::<
                (CalleeV, Seq<char>, Seq<char>),
                Seq<char>,
            >((c.0@, c.1@, c.2@)),
            Err(e) => step_callee(name@, f@, table@) == Err::<
                (CalleeV, Seq<char>, Seq<char>),
                Seq<char>,
            >(e@),
        }),
{
    broadcast use {group_atoms, group_exprs};

    match f {
        Atom::Sym(s) => {
            let callee = match table.get(s.as_str(), 1) {
                Some(b) => Callee::Native(b),
                None => Callee::Code(one_expr(f)),
            };
            let mut complaint: String = joined3(name, ": function ", s.as_str());
            complaint.append(" produced no result for item ");
            Ok((callee, s.clone(), complaint))
        },
        Atom::Expr(parts) => {
            assert(atoms(parts@).len() == parts@.len());
            let marker = Atom::sym("partial");
            if parts.len() == 3 && atom_same(&parts[0], &marker) {
                assert(atoms(parts@)[1] == parts@[1]@ && atoms(parts@)[2] == parts@[2]@);
                match &parts[1] {
                    Atom::Sym(s) => {
                        let mut code = one_expr(&parts[1]);
                        let given = list_items(&parts[2]);
                        push_exprs(&mut code, &given);
                        let complaint = joined(
                            name,
                            ": partial function produced no result for item ",
                        );
                        Ok((Callee::Code(code), s.clone(), complaint))
                    },
                    _ => Err(joined(name, ": partial function name must be a symbol")),
                }
            } else {
                let complaint = joined(name, ": function produced no result for item ");
                Ok((Callee::Code(one_expr(f)), String::new(), complaint))
            }
        },
        _ => {
            let complaint = joined(name, ": function produced no result for item ");
            Ok((Callee::Code(one_expr(f)), String::new(), complaint))
        },
    }
}

/// Start the loop of `map-atom` or `filter-atom`.
pub fn start_map(kind: LoopKind, name: &str, args: &Vec<Atom>, table: &mut FnTable) -> (r: Answer)
    ensures
        r@ == map_started(kind, name@, atoms(args@), old(table)@),
        final(table)@ == old(table)@,
{
    broadcast use group_atoms;

    match expect_n_args(args, 2, name) {
        Ok(_) => {},
        Err(e) => {
            return Answer::Fail(e);
        },
    }
    let ghost av = atoms(args@);
    assert(av[0] == args@[0]@ && av[1] == args@[1]@);
    let items = list_items(&args[0]);
    match find_callee(name, &args[1], table) {
        Ok((callee, fname, complaint)) => Answer::Loop(
            ListLoop {
                kind,
                callee,
                name: fname,
                complaint,
                items,
                next: 0,
                acc: Atom::expr(no_atoms()),
                out: no_atoms(),
            },
        ),
        Err(e) => Answer::Fail(e),
    }
}

/// Putting an element in front and splitting the list again gives the element
/// and the list back.
pub proof fn decons_undoes_cons(name: Seq<char>, x: AtomV, items: Seq<AtomV>)
    ensures
        decons_answer(name, consed(x, AtomV::Expr(items))) == one(
            AtomV::Expr(seq![x, AtomV::Expr(items)]),
        ),
{
    assert((seq![x] + items).skip(1) =~= items);
}

/// A list turned round twice is the list.
pub proof fn reverse_undoes_itself(items: Seq<AtomV>)
    ensures
        items.reverse().reverse() == items,
{
    assert(items.reverse().reverse() =~= items);
}

/// Every element of the first list goes either into the intersection or into
/// the difference, as often as it occurs.
pub proof fn intersection_and_subtraction_split(s: Seq<AtomV>, m: Multiset<AtomV>)
    ensures
        common(s, m).1 == remaining(s, m).1,
        common(s, m).0.to_multiset().add(remaining(s, m).0.to_multiset()) =~= s.to_multiset(),
    decreases s.len(),
{
    broadcast use vstd::seq_lib::group_to_multiset_ensures;

    if s.len() == 0 {
        assert(common(s, m).0.to_multiset().add(remaining(s, m).0.to_multiset())
            =~= s.to_multiset());
    } else {
        intersection_and_subtraction_split(s.drop_last(), m);
        assert(s =~= s.drop_last().push(s.last()));
        let c = common(s.drop_last(), m).0;
        let r = remaining(s.drop_last(), m).0;
        assert(s.drop_last().push(s.last()).to_multiset() =~= s.drop_last().to_multiset().insert(
            s.last(),
        ));
        assert(c.push(s.last()).to_multiset() =~= c.to_multiset().insert(s.last()));
        assert(r.push(s.last()).to_multiset() =~= r.to_multiset().insert(s.last()));
    }
}

/// Placing an element adds it to what is there.
proof fn lemma_placed_multiset(s: Seq<AtomV>, x: AtomV)
    ensures
        placed(s, x).to_multiset() =~= s.to_multiset().insert(x),
        placed(s, x).len() == s.len() + 1,
    decreases s.len(),
{
    broadcast use vstd::seq_lib::group_to_multiset_ensures;

    if s.len() == 0 {
        assert(seq![x] =~= Seq::<AtomV>::empty().push(x));
        assert(s =~= Seq::<AtomV>::empty());
    } else if text_before(sexpr(x), sexpr(s.last())) {
        lemma_placed_multiset(s.drop_last(), x);
        assert(s =~= s.drop_last().push(s.last()));
        assert(placed(s.drop_last(), x).push(s.last()).to_multiset() =~= placed(
            s.drop_last(),
            x,
        ).to_multiset().insert(s.last()));
        assert(s.drop_last().push(s.last()).to_multiset() =~= s.drop_last().to_multiset().insert(
            s.last(),
        ));
    }
}

/// Sorting keeps every element as often as it occurs.
pub proof fn sorting_is_a_permutation(s: Seq<AtomV>)
    ensures
        text_sorted(s).to_multiset() =~= s.to_multiset(),
        text_sorted(s).len() == s.len(),
    decreases s.len(),
{
    broadcast use vstd::seq_lib::group_to_multiset_ensures;

    if s.len() > 0 {
        sorting_is_a_permutation(s.drop_last());
        lemma_placed_multiset(text_sorted(s.drop_last()), s.last());
        assert(s =~= s.drop_last().push(s.last()));
        assert(s.drop_last().push(s.last()).to_multiset() =~= s.drop_last().to_multiset().insert(
            s.last(),
        ));
    }
}

/// A text does not come before itself, and of two different texts one comes
/// before the other but not both.
proof fn lemma_text_order(a: Seq<char>, b: Seq<char>)
    ensures
        !(text_before(a, b) && text_before(b, a)),
        !text_before(a, a),
    decreases a.len(),
{
    if a.len() > 0 {
        lemma_text_order(a.drop_first(), if b.len() > 0 { b.drop_first() } else { b });
    }
}

/// Coming before is transitive, also when the second step is "does not come
/// after".
proof fn lemma_text_order_chain(a: Seq<char>, b: Seq<char>, c: Seq<char>)
    requires
        text_before(a, b),
        !text_before(c, b),
    ensures
        text_before(a, c),
    decreases a.len(),
{
    if a.len() > 0 && c.len() > 0 && a[0] == b[0] && b[0] == c[0] {
        lemma_text_order_chain(a.drop_first(), b.drop_first(), c.drop_first());
    }
}

/// Whether no element's text comes before that of an earlier element.
pub open spec fn in_text_order(s: Seq<AtomV>) -> bool {
    forall|i: int, j: int|
        0 <= i <= j < s.len() ==> !text_before(sexpr(#[trigger] s[j]), sexpr(#[trigger] s[i]))
}

/// Placing an element keeps the order.
proof fn lemma_placed_in_order(s: Seq<AtomV>, x: AtomV)
    requires
        in_text_order(s),
    ensures
        in_text_order(placed(s, x)),
    decreases s.len(),
{
    let p = placed(s, x);
    if s.len() == 0 {
        lemma_text_order(sexpr(x), sexpr(x));
    } else if text_before(sexpr(x), sexpr(s.last())) {
        let d = s.drop_last();
        assert forall|i: int, j: int| 0 <= i <= j < d.len() implies !text_before(
            sexpr(#[trigger] d[j]),
            sexpr(#[trigger] d[i]),
        ) by {
            assert(!text_before(sexpr(s[j]), sexpr(s[i])));
        }
        lemma_placed_in_order(d, x);
        let q = placed(d, x);
        lemma_placed_members(d, x);
        assert forall|i: int, j: int| 0 <= i <= j < p.len() implies !text_before(
            sexpr(#[trigger] p[j]),
            sexpr(#[trigger] p[i]),
        ) by {
            if j < q.len() {
                assert(p[j] == q[j] && p[i] == q[i]);
            } else {
                assert(p[j] == s.last());
                if i == j {
                    lemma_text_order(sexpr(s.last()), sexpr(s.last()));
                } else {
                    assert(p[i] == q[i]);
                    if q[i] == x {
                        lemma_text_order(sexpr(x), sexpr(s.last()));
                    } else {
                        let k = choose|k: int| 0 <= k < d.len() && d[k] == q[i];
                        assert(s[k] == d[k]);
                        assert(!text_before(sexpr(s[s.len() - 1]), sexpr(s[k])));
                    }
                }
            }
        }
    } else {
        assert forall|i: int, j: int| 0 <= i <= j < p.len() implies !text_before(
            sexpr(#[trigger] p[j]),
            sexpr(#[trigger] p[i]),
        ) by {
            if j < s.len() {
                assert(p[j] == s[j] && p[i] == s[i]);
            } else if i == j {
                lemma_text_order(sexpr(x), sexpr(x));
            } else {
                assert(p[i] == s[i] && p[j] == x);
                if text_before(sexpr(x), sexpr(s[i])) {
                    assert(!text_before(sexpr(s[s.len() - 1]), sexpr(s[i])));
                    lemma_text_order_chain(sexpr(x), sexpr(s[i]), sexpr(s.last()));
                }
            }
        }
    }
}

/// What stands in a list after placing was there before, or is the element.
proof fn lemma_placed_members(s: Seq<AtomV>, x: AtomV)
    ensures
        forall|i: int|
            0 <= i < placed(s, x).len() ==> #[trigger] placed(s, x)[i] == x || exists|k: int|
                0 <= k < s.len() && s[k] == placed(s, x)[i],
    decreases s.len(),
{
    if s.len() > 0 && text_before(sexpr(x), sexpr(s.last())) {
        let d = s.drop_last();
        lemma_placed_members(d, x);
        let p = placed(s, x);
        let q = placed(d, x);
        assert forall|i: int| 0 <= i < p.len() implies #[trigger] p[i] == x || exists|k: int|
            0 <= k < s.len() && s[k] == p[i] by {
            if i < q.len() {
                assert(p[i] == q[i]);
                if q[i] != x {
                    let k = choose|k: int| 0 <= k < d.len() && d[k] == q[i];
                    assert(s[k] == p[i]);
                }
            } else {
                assert(s[s.len() - 1] == p[i]);
            }
        }
    } else {
        let p = placed(s, x);
        assert forall|i: int| 0 <= i < p.len() implies #[trigger] p[i] == x || exists|k: int|
            0 <= k < s.len() && s[k] == p[i] by {
            if i < s.len() {
                assert(s[i] == p[i]);
            }
        }
    }
}

/// A sorted list is in the order of the texts of its elements.
pub proof fn sorting_orders(s: Seq<AtomV>)
    ensures
        in_text_order(text_sorted(s)),
    decreases s.len(),
{
    if s.len() > 0 {
        sorting_orders(s.drop_last());
        lemma_placed_in_order(text_sorted(s.drop_last()), s.last());
    }
}

/// The first copies of a list in order are in order.
proof fn lemma_unique_in_order(s: Seq<AtomV>)
    requires
        in_text_order(s),
    ensures
        in_text_order(unique(s)),
    decreases s.len(),
{
    if s.len() > 0 {
        let d = s.drop_last();
        assert(in_text_order(d)) by {
            assert forall|i: int, j: int| 0 <= i <= j < d.len() implies !text_before(
                sexpr(#[trigger] d[j]),
                sexpr(#[trigger] d[i]),
            ) by {
                assert(d[i] == s[i] && d[j] == s[j]);
            }
        }
        lemma_unique_in_order(d);
        unique_has_no_duplicates(d);
        let u = unique(d);
        assert forall|i: int, j: int| 0 <= i <= j < unique(s).len() implies !text_before(
            sexpr(#[trigger] unique(s)[j]),
            sexpr(#[trigger] unique(s)[i]),
        ) by {
            if j < u.len() {
                assert(unique(s)[i] == u[i] && unique(s)[j] == u[j]);
            } else {
                let last = s[s.len() - 1];
                assert(unique(s)[j] == last);
                if i < u.len() {
                    assert(unique(s)[i] == u[i]);
                    assert(u.contains(u[i]));
                    assert(d.contains(u[i]));
                    let k = choose|k: int| 0 <= k < d.len() && d[k] == u[i];
                    assert(s[k] == u[i]);
                    assert(!text_before(sexpr(s[s.len() - 1]), sexpr(s[k])));
                } else {
                    assert(!text_before(sexpr(s[s.len() - 1]), sexpr(s[s.len() - 1])));
                }
            }
        }
    }
}

/// `sort` gives the members of a list, each once, in the order of their texts.
pub proof fn sort_orders_without_duplicates(s: Seq<AtomV>)
    ensures
        in_text_order(unique(text_sorted(s))),
        unique(text_sorted(s)).no_duplicates(),
        forall|x: AtomV| unique(text_sorted(s)).contains(x) <==> s.contains(x),
{
    broadcast use vstd::seq_lib::group_to_multiset_ensures;

    sorting_orders(s);
    sorting_is_a_permutation(s);
    lemma_unique_in_order(text_sorted(s));
    unique_has_no_duplicates(text_sorted(s));
    assert forall|x: AtomV| unique(text_sorted(s)).contains(x) <==> s.contains(x) by {
        assert(text_sorted(s).contains(x) <==> text_sorted(s).to_multiset().count(x) > 0);
        assert(s.contains(x) <==> s.to_multiset().count(x) > 0);
    }
}

/// Whether a list is another one with elements left out.
pub open spec fn is_part(x: Seq<AtomV>, s: Seq<AtomV>) -> bool
    decreases s.len(),
{
    x.len() == 0 || (s.len() > 0 && (is_part(x, s.drop_last()) || (x.last() == s.last() && is_part(
        x.drop_last(),
        s.drop_last(),
    ))))
}

/// `intersection-atom` keeps of every element the lesser of its two counts, and
/// takes away as many from the other list.
pub proof fn intersection_counts(s: Seq<AtomV>, m: Multiset<AtomV>, a: AtomV)
    ensures
        common(s, m).0.to_multiset().count(a) == (if s.to_multiset().count(a) < m.count(a) {
            s.to_multiset().count(a)
        } else {
            m.count(a)
        }),
        common(s, m).1.count(a) == m.count(a) - common(s, m).0.to_multiset().count(a),
    decreases s.len(),
{
    broadcast use vstd::seq_lib::group_to_multiset_ensures;

    if s.len() > 0 {
        let d = s.drop_last();
        intersection_counts(d, m, a);
        intersection_counts(d, m, s.last());
        assert(s =~= d.push(s.last()));
        assert(d.push(s.last()).to_multiset() =~= d.to_multiset().insert(s.last()));
        let c = common(d, m).0;
        assert(c.push(s.last()).to_multiset() =~= c.to_multiset().insert(s.last()));
    }
}

/// `intersection-atom` and `subtraction-atom` leave elements out and keep the
/// order. Which elements go where is decided from the left: what is kept of the
/// first elements of a list does not depend on those behind them, so the
/// leftmost copies are the ones that are kept.
pub proof fn leftmost_copies_are_kept(s: Seq<AtomV>, m: Multiset<AtomV>, k: int)
    requires
        0 <= k <= s.len(),
    ensures
        is_part(common(s, m).0, s),
        is_part(remaining(s, m).0, s),
        common(s.take(k), m).0.is_prefix_of(common(s, m).0),
        remaining(s.take(k), m).0.is_prefix_of(remaining(s, m).0),
    decreases s.len(),
{
    if s.len() == 0 {
        assert(s.take(k) =~= s);
    } else {
        let d = s.drop_last();
        if k == s.len() {
            leftmost_copies_are_kept(d, m, d.len() as int);
            assert(s.take(k) =~= s);
        } else {
            leftmost_copies_are_kept(d, m, k);
            assert(s.take(k) =~= d.take(k));
        }
        let c = common(d, m).0;
        let r = remaining(d, m).0;
        assert(c.push(s.last()).drop_last() =~= c);
        assert(r.push(s.last()).drop_last() =~= r);
    }
}

/// A list that is not empty is taken apart into its head and its tail, which
/// make the list again; of an empty one there is no head and no tail.
pub proof fn lists_are_taken_apart(items: Seq<AtomV>, name: Seq<char>)
    ensures
        items.len() > 0 ==> ({
            let l = AtomV::Expr(items);
            let h = items[0];
            let t = AtomV::Expr(items.skip(1));
            &&& list_answer(Builtin::Decons, name, seq![l]) == one(AtomV::Expr(seq![h, t]))
            &&& list_answer(Builtin::HeadOrNone, name, seq![l]) == one(h)
            &&& list_answer(Builtin::TailOrNone, name, seq![l]) == one(t)
            &&& list_answer(Builtin::Head, name, seq![l]) == one(h)
            &&& list_answer(Builtin::Tail, name, seq![l]) == one(t)
            &&& list_answer(Builtin::Cons, name, seq![h, t]) == one(l)
            &&& list_answer(Builtin::Reverse, name, seq![l]) == one(AtomV::Expr(items.reverse()))
            &&& list_answer(Builtin::Reverse, name, seq![AtomV::Expr(items.reverse())]) == one(l)
        }),
        items.len() == 0 ==> ({
            let l = AtomV::Expr(items);
            &&& list_answer(Builtin::Decons, name, seq![l]) is Fail
            &&& list_answer(Builtin::Head, name, seq![l]) is Fail
            &&& list_answer(Builtin::Tail, name, seq![l]) is Fail
            &&& list_answer(Builtin::HeadOrNone, name, seq![l]) == AnswerV::Values(Seq::empty())
            &&& list_answer(Builtin::TailOrNone, name, seq![l]) == AnswerV::Values(Seq::empty())
        }),
{
    if items.len() > 0 {
        assert(seq![items[0]] + items.skip(1) =~= items);
        assert(items.reverse().reverse() =~= items);
    }
}

/// Leaving out later occurrences leaves no element twice.
pub proof fn unique_has_no_duplicates(s: Seq<AtomV>)
    ensures
        unique(s).no_duplicates(),
        forall|x: AtomV| unique(s).contains(x) <==> s.contains(x),
    decreases s.len(),
{
    if s.len() > 0 {
        let d = s.drop_last();
        unique_has_no_duplicates(d);
        let u = unique(d);
        assert(s =~= d.push(s.last()));
        assert forall|x: AtomV| unique(s).contains(x) <==> s.contains(x) by {
            if s.contains(x) {
                let k = choose|k: int| 0 <= k < s.len() && s[k] == x;
                if k < d.len() {
                    assert(d[k] == x);
                    assert(d.contains(x));
                    assert(u.contains(x));
                    let j = choose|j: int| 0 <= j < u.len() && u[j] == x;
                    assert(unique(s)[j] == x);
                } else if !u.contains(x) {
                    assert(unique(s)[u.len() as int] == x);
                }
            }
            if unique(s).contains(x) {
                let j = choose|j: int| 0 <= j < unique(s).len() && unique(s)[j] == x;
                if j < u.len() {
                    assert(u[j] == x);
                    assert(d.contains(x));
                    let k = choose|k: int| 0 <= k < d.len() && d[k] == x;
                    assert(s[k] == x);
                } else {
                    assert(s[s.len() - 1] == x);
                }
            }
        }
    }
}

/// The built-in functions on lists.
pub open spec fn collection_rows() -> Seq<RowV> {
    seq![
        ("size-atom"@, 1u8, Builtin::Size, true),
        ("length"@, 1u8, Builtin::Size, true),
        ("car-atom"@, 1u8, Builtin::HeadOrNone, true),
        ("car"@, 1u8, Builtin::Head, true),
        ("cdr-atom"@, 1u8, Builtin::TailOrNone, true),
        ("cdr"@, 1u8, Builtin::Tail, true),
        ("cons-atom"@, 2u8, Builtin::Cons, true),
        ("cons"@, 2u8, Builtin::Cons, true),
        ("decons-atom"@, 1u8, Builtin::Decons, true),
        ("decons"@, 1u8, Builtin::Decons, true),
        ("append"@, 2u8, Builtin::Append, true),
        ("reverse"@, 1u8, Builtin::Reverse, true),
        ("index-atom"@, 2u8, Builtin::Index, true),
        ("id"@, 1u8, Builtin::Id, true),
        ("first-from-pair"@, 1u8, Builtin::Head, true),
        ("first"@, 1u8, Builtin::Head, true),
        ("second-from-pair"@, 1u8, Builtin::Second, true),
        ("second"@, 1u8, Builtin::Second, true),
        ("last"@, 1u8, Builtin::Last, true),
        ("msort"@, 1u8, Builtin::SortText, true),
        ("sort"@, 1u8, Builtin::SortUnique, true),
        ("sort-atom"@, 1u8, Builtin::SortText, true),
        ("is-member"@, 2u8, Builtin::Member, true),
        ("exclude-item"@, 2u8, Builtin::Exclude, true),
        ("unique-atom"@, 1u8, Builtin::Unique, true),
        ("alpha-unique-atom"@, 1u8, Builtin::AlphaUnique, true),
        ("union-atom"@, 2u8, Builtin::Append, true),
        ("intersection-atom"@, 2u8, Builtin::Intersect, true),
        ("subtraction-atom"@, 2u8, Builtin::Subtract, true),
        ("list_to_set"@, 1u8, Builtin::Unique, true),
        ("foldl"@, 3u8, Builtin::Foldl, false),
        ("map-atom"@, 2u8, Builtin::MapAtom, false),
        ("maplist"@, 2u8, Builtin::MapList, false),
        ("filter-atom"@, 2u8, Builtin::FilterAtom, false),
        ("concat"@, 2u8, Builtin::Concat, true),
        ("atom_concat"@, 2u8, Builtin::AtomConcat, true),
        ("atom_chars"@, 1u8, Builtin::AtomChars, true),
        ("term_hash"@, 1u8, Builtin::TermHash, true),
    ]
}

/// The table with the built-in functions on lists.
pub open spec fn with_collection_builtins(t: TableV) -> TableV {
    with_rows(t, collection_rows())
}

/// Of equal elements, the leftmost go into the intersection: an element is kept
/// there when fewer of its kind stand before it than the other list holds, and
/// it is left for the difference otherwise.
pub proof fn leftmost_occurrences_are_shared(s: Seq<AtomV>, m: Multiset<AtomV>, k: int)
    requires
        0 <= k < s.len(),
    ensures
        ({
            let earlier = s.take(k).to_multiset().count(s[k]);
            let both = common(s.take(k), m).0;
            let rest = remaining(s.take(k), m).0;
            &&& common(s.take(k + 1), m).0 == (if earlier < m.count(s[k]) {
                both.push(s[k])
            } else {
                both
            })
            &&& remaining(s.take(k + 1), m).0 == (if earlier < m.count(s[k]) {
                rest
            } else {
                rest.push(s[k])
            })
        }),
{
    assert(s.take(k + 1).drop_last() =~= s.take(k));
    assert(s.take(k + 1).last() == s[k]);
    intersection_counts(s.take(k), m, s[k]);
    intersection_and_subtraction_split(s.take(k), m);
}

/// The value of the last row with a key is what a table with the rows holds.
pub proof fn lemma_row_found(t: TableV, rows: Seq<RowV>, k: int)
    requires
        0 <= k < rows.len(),
        forall|j: int|
            k < j < rows.len() ==> (#[trigger] rows[j].0, rows[j].1) != (rows[k].0, rows[k].1),
    ensures
        with_rows(t, rows).natives.contains_key((rows[k].0, rows[k].1)),
        with_rows(t, rows).natives[(rows[k].0, rows[k].1)] == rows[k].2,
    decreases rows.len(),
{
    if k < rows.len() - 1 {
        lemma_row_found(t, rows.drop_last(), k);
        assert(rows[rows.len() - 1] == rows.last());
    }
}

/// The names of the built-in functions on lists differ.
proof fn lemma_collection_names(k: int)
    requires
        k == 2 || k == 3 || k == 4 || k == 5 || k == 6 || k == 7 || k == 8 || k == 9 || k == 11 || k == 27 || k == 28,
    ensures
        forall|j: int|
            k < j < collection_rows().len() ==> (
                #[trigger] collection_rows()[j].0,
                collection_rows()[j].1,
            ) != (collection_rows()[k].0, collection_rows()[k].1),
{
    reveal_strlit("size-atom");
    reveal_strlit("length");
    reveal_strlit("car-atom");
    reveal_strlit("car");
    reveal_strlit("cdr-atom");
    reveal_strlit("cdr");
    reveal_strlit("cons-atom");
    reveal_strlit("cons");
    reveal_strlit("decons-atom");
    reveal_strlit("decons");
    reveal_strlit("append");
    reveal_strlit("reverse");
    reveal_strlit("index-atom");
    reveal_strlit("id");
    reveal_strlit("first-from-pair");
    reveal_strlit("first");
    reveal_strlit("second-from-pair");
    reveal_strlit("second");
    reveal_strlit("last");
    reveal_strlit("msort");
    reveal_strlit("sort");
    reveal_strlit("sort-atom");
    reveal_strlit("is-member");
    reveal_strlit("exclude-item");
    reveal_strlit("unique-atom");
    reveal_strlit("alpha-unique-atom");
    reveal_strlit("union-atom");
    reveal_strlit("intersection-atom");
    reveal_strlit("subtraction-atom");
    reveal_strlit("list_to_set");
    reveal_strlit("foldl");
    reveal_strlit("map-atom");
    reveal_strlit("maplist");
    reveal_strlit("filter-atom");
    reveal_strlit("concat");
    reveal_strlit("atom_concat");
    reveal_strlit("atom_chars");
    reveal_strlit("term_hash");
    assert("size-atom"@.len() == 9);
    assert("length"@.len() == 6);
    assert("car-atom"@.len() == 8);
    assert("car"@.len() == 3);
    assert("cdr-atom"@.len() == 8);
    assert("cdr"@.len() == 3);
    assert("cons-atom"@.len() == 9);
    assert("cons"@.len() == 4);
    assert("decons-atom"@.len() == 11);
    assert("decons"@.len() == 6);
    assert("append"@.len() == 6);
    assert("reverse"@.len() == 7);
    assert("index-atom"@.len() == 10);
    assert("id"@.len() == 2);
    assert("first-from-pair"@.len() == 15);
    assert("first"@.len() == 5);
    assert("second-from-pair"@.len() == 16);
    assert("second"@.len() == 6);
    assert("last"@.len() == 4);
    assert("msort"@.len() == 5);
    assert("sort"@.len() == 4);
    assert("sort-atom"@.len() == 9);
    assert("is-member"@.len() == 9);
    assert("exclude-item"@.len() == 12);
    assert("unique-atom"@.len() == 11);
    assert("alpha-unique-atom"@.len() == 17);
    assert("union-atom"@.len() == 10);
    assert("intersection-atom"@.len() == 17);
    assert("subtraction-atom"@.len() == 16);
    assert("list_to_set"@.len() == 11);
    assert("foldl"@.len() == 5);
    assert("map-atom"@.len() == 8);
    assert("maplist"@.len() == 7);
    assert("filter-atom"@.len() == 11);
    assert("concat"@.len() == 6);
    assert("atom_concat"@.len() == 11);
    assert("atom_chars"@.len() == 10);
    assert("term_hash"@.len() == 9);
    assert("car"@[1] != "cdr"@[1]);
    assert("car-atom"@[1] != "cdr-atom"@[1]);
    assert("cons-atom"@[0] != "is-member"@[0]);
    assert("decons"@[0] != "second"@[0]);
    assert("decons-atom"@[0] != "list_to_set"@[0]);
    assert("decons-atom"@[0] != "unique-atom"@[0]);
}

/// The answer of a call by name in a table.
pub open spec fn named_answer(t: TableV, name: Seq<char>, args: Seq<AtomV>) -> AnswerV {
    called(t.natives[(name, args.len() as u8)], name, args, t).0
}

/// The functions on lists that take lists apart and make them are found under
/// their names once the functions on lists are registered.
pub proof fn list_functions_are_found(t: TableV)
    ensures
        with_collection_builtins(t).natives.contains_pair(("car-atom"@, 1u8), Builtin::HeadOrNone),
        with_collection_builtins(t).natives.contains_pair(("car"@, 1u8), Builtin::Head),
        with_collection_builtins(t).natives.contains_pair(("cdr-atom"@, 1u8), Builtin::TailOrNone),
        with_collection_builtins(t).natives.contains_pair(("cdr"@, 1u8), Builtin::Tail),
        with_collection_builtins(t).natives.contains_pair(("cons-atom"@, 2u8), Builtin::Cons),
        with_collection_builtins(t).natives.contains_pair(("cons"@, 2u8), Builtin::Cons),
        with_collection_builtins(t).natives.contains_pair(("decons-atom"@, 1u8), Builtin::Decons),
        with_collection_builtins(t).natives.contains_pair(("decons"@, 1u8), Builtin::Decons),
        with_collection_builtins(t).natives.contains_pair(("reverse"@, 1u8), Builtin::Reverse),
        with_collection_builtins(t).natives.contains_pair(("intersection-atom"@, 2u8), Builtin::Intersect),
        with_collection_builtins(t).natives.contains_pair(("subtraction-atom"@, 2u8), Builtin::Subtract),
{
    let rows = collection_rows();
    lemma_collection_names(2);
    lemma_row_found(t, rows, 2);
    assert(rows[2] == ("car-atom"@, 1u8, Builtin::HeadOrNone, true));
    lemma_collection_names(3);
    lemma_row_found(t, rows, 3);
    assert(rows[3] == ("car"@, 1u8, Builtin::Head, true));
    lemma_collection_names(4);
    lemma_row_found(t, rows, 4);
    assert(rows[4] == ("cdr-atom"@, 1u8, Builtin::TailOrNone, true));
    lemma_collection_names(5);
    lemma_row_found(t, rows, 5);
    assert(rows[5] == ("cdr"@, 1u8, Builtin::Tail, true));
    lemma_collection_names(6);
    lemma_row_found(t, rows, 6);
    assert(rows[6] == ("cons-atom"@, 2u8, Builtin::Cons, true));
    lemma_collection_names(7);
    lemma_row_found(t, rows, 7);
    assert(rows[7] == ("cons"@, 2u8, Builtin::Cons, true));
    lemma_collection_names(8);
    lemma_row_found(t, rows, 8);
    assert(rows[8] == ("decons-atom"@, 1u8, Builtin::Decons, true));
    lemma_collection_names(9);
    lemma_row_found(t, rows, 9);
    assert(rows[9] == ("decons"@, 1u8, Builtin::Decons, true));
    lemma_collection_names(11);
    lemma_row_found(t, rows, 11);
    assert(rows[11] == ("reverse"@, 1u8, Builtin::Reverse, true));
    lemma_collection_names(27);
    lemma_row_found(t, rows, 27);
    assert(rows[27] == ("intersection-atom"@, 2u8, Builtin::Intersect, true));
    lemma_collection_names(28);
    lemma_row_found(t, rows, 28);
    assert(rows[28] == ("subtraction-atom"@, 2u8, Builtin::Subtract, true));
}

/// Called by name, `decons` gives the head and the tail of a non-empty list,
/// which `car-atom`, `car`, `cdr-atom` and `cdr` give one by one and `cons-atom`
/// and `cons` put together again; `reverse` undoes itself. An empty list has no
/// head and no tail.
pub proof fn named_lists_are_taken_apart(t: TableV, items: Seq<AtomV>)
    ensures
        ({
            let u = with_collection_builtins(t);
            let l = AtomV::Expr(items);
            let h = items[0];
            let rest = AtomV::Expr(items.skip(1));
            &&& items.len() > 0 ==> {
                &&& named_answer(u, "decons"@, seq![l]) == one(AtomV::Expr(seq![h, rest]))
                &&& named_answer(u, "decons-atom"@, seq![l]) == one(AtomV::Expr(seq![h, rest]))
                &&& named_answer(u, "car"@, seq![l]) == one(h)
                &&& named_answer(u, "car-atom"@, seq![l]) == one(h)
                &&& named_answer(u, "cdr"@, seq![l]) == one(rest)
                &&& named_answer(u, "cdr-atom"@, seq![l]) == one(rest)
                &&& named_answer(u, "cons"@, seq![h, rest]) == one(l)
                &&& named_answer(u, "cons-atom"@, seq![h, rest]) == one(l)
            }
            &&& items.len() == 0 ==> {
                &&& named_answer(u, "decons"@, seq![l]) is Fail
                &&& named_answer(u, "decons-atom"@, seq![l]) is Fail
                &&& named_answer(u, "car"@, seq![l]) is Fail
                &&& named_answer(u, "cdr"@, seq![l]) is Fail
                &&& named_answer(u, "car-atom"@, seq![l]) == AnswerV::Values(Seq::empty())
                &&& named_answer(u, "cdr-atom"@, seq![l]) == AnswerV::Values(Seq::empty())
            }
            &&& named_answer(u, "reverse"@, seq![l]) == one(AtomV::Expr(items.reverse()))
            &&& named_answer(u, "reverse"@, seq![AtomV::Expr(items.reverse())]) == one(l)
        }),
{
    list_functions_are_found(t);
    lists_are_taken_apart(items, "decons"@);
    lists_are_taken_apart(items, "decons-atom"@);
    lists_are_taken_apart(items, "car"@);
    lists_are_taken_apart(items, "car-atom"@);
    lists_are_taken_apart(items, "cdr"@);
    lists_are_taken_apart(items, "cdr-atom"@);
    lists_are_taken_apart(items, "cons"@);
    lists_are_taken_apart(items, "cons-atom"@);
    lists_are_taken_apart(items, "reverse"@);
    assert(items.reverse().reverse() =~= items);
}

/// Called by name, `intersection-atom` and `subtraction-atom` split the first
/// list: both results are parts of it in its order, and together they hold its
/// elements. Of each element the intersection holds the smaller of its two
/// numbers of occurrences.
pub proof fn named_lists_are_split(t: TableV, x: Seq<AtomV>, y: Seq<AtomV>, a: AtomV)
    ensures
        ({
            let u = with_collection_builtins(t);
            let args = seq![AtomV::Expr(x), AtomV::Expr(y)];
            let both = common(x, y.to_multiset()).0;
            let rest = remaining(x, y.to_multiset()).0;
            &&& named_answer(u, "intersection-atom"@, args) == one(AtomV::Expr(both))
            &&& named_answer(u, "subtraction-atom"@, args) == one(AtomV::Expr(rest))
            &&& is_part(both, x)
            &&& is_part(rest, x)
            &&& both.to_multiset().add(rest.to_multiset()) == x.to_multiset()
            &&& both.to_multiset().count(a) == (if x.to_multiset().count(a)
                < y.to_multiset().count(a) {
                x.to_multiset().count(a)
            } else {
                y.to_multiset().count(a)
            })
        }),
{
    list_functions_are_found(t);
    intersection_and_subtraction_split(x, y.to_multiset());
    intersection_counts(x, y.to_multiset(), a);
    leftmost_copies_are_kept(x, y.to_multiset(), 0);
}

/// Register collection builtins.
pub fn register_collection_builtins(funcs: &mut FnTable)
    ensures
        final(funcs)@ == with_collection_builtins(old(funcs)@),
{
    let mut v: Vec<Row> = Vec::new();
    add_row(&mut v, "size-atom", 1, Builtin::Size, true);
    add_row(&mut v, "length", 1, Builtin::Size, true);
    add_row(&mut v, "car-atom", 1, Builtin::HeadOrNone, true);
    add_row(&mut v, "car", 1, Builtin::Head, true);
    add_row(&mut v, "cdr-atom", 1, Builtin::TailOrNone, true);
    add_row(&mut v, "cdr", 1, Builtin::Tail, true);
    add_row(&mut v, "cons-atom", 2, Builtin::Cons, true);
    add_row(&mut v, "cons", 2, Builtin::Cons, true);
    add_row(&mut v, "decons-atom", 1, Builtin::Decons, true);
    add_row(&mut v, "decons", 1, Builtin::Decons, true);
    add_row(&mut v, "append", 2, Builtin::Append, true);
    add_row(&mut v, "reverse", 1, Builtin::Reverse, true);
    add_row(&mut v, "index-atom", 2, Builtin::Index, true);
    add_row(&mut v, "id", 1, Builtin::Id, true);
    add_row(&mut v, "first-from-pair", 1, Builtin::Head, true);
    add_row(&mut v, "first", 1, Builtin::Head, true);
    add_row(&mut v, "second-from-pair", 1, Builtin::Second, true);
    add_row(&mut v, "second", 1, Builtin::Second, true);
    add_row(&mut v, "last", 1, Builtin::Last, true);
    add_row(&mut v, "msort", 1, Builtin::SortText, true);
    add_row(&mut v, "sort", 1, Builtin::SortUnique, true);
    add_row(&mut v, "sort-atom", 1, Builtin::SortText, true);
    add_row(&mut v, "is-member", 2, Builtin::Member, true);
    add_row(&mut v, "exclude-item", 2, Builtin::Exclude, true);
    add_row(&mut v, "unique-atom", 1, Builtin::Unique, true);
    add_row(&mut v, "alpha-unique-atom", 1, Builtin::AlphaUnique, true);
    add_row(&mut v, "union-atom", 2, Builtin::Append, true);
    add_row(&mut v, "intersection-atom", 2, Builtin::Intersect, true);
    add_row(&mut v, "subtraction-atom", 2, Builtin::Subtract, true);
    add_row(&mut v, "list_to_set", 1, Builtin::Unique, true);
    add_row(&mut v, "foldl", 3, Builtin::Foldl, false);
    add_row(&mut v, "map-atom", 2, Builtin::MapAtom, false);
    add_row(&mut v, "maplist", 2, Builtin::MapList, false);
    add_row(&mut v, "filter-atom", 2, Builtin::FilterAtom, false);
    add_row(&mut v, "concat", 2, Builtin::Concat, true);
    add_row(&mut v, "atom_concat", 2, Builtin::AtomConcat, true);
    add_row(&mut v, "atom_chars", 1, Builtin::AtomChars, true);
    add_row(&mut v, "term_hash", 1, Builtin::TermHash, true);
    assert(rows(v@) =~= collection_rows());
    register_rows(funcs, &v);
}

} // verus!
