//! A compact set of built-in functions, in one table.
//!
//! Its functions on sets of elements have no duplicates in their results, its
//! integers stay exact, and it has a reader of its own.
use crate::atom::Atom;
use crate::atom::AtomV;
use crate::atom::atom_same;
use crate::atom::atoms;
use crate::atom::canonical_name;
use crate::atom::group_atoms;
use crate::atom::sexpr;
use crate::atom::sexprs;
use crate::atom::symbol;
use crate::builtins::Answer;
use crate::builtins::AnswerV;
use crate::builtins::Callee;
use crate::builtins::CalleeV;
use crate::builtins::ListLoop;
use crate::builtins::LoopKind;
use crate::builtins::LoopV;
use crate::builtins::Row;
use crate::builtins::RowV;
use crate::builtins::add_row;
use crate::builtins::answer_one;
use crate::builtins::arithmetic::expect_n_args;
use crate::builtins::arithmetic::hand_over;
use crate::builtins::arithmetic::wrong_count;
use crate::builtins::boolean::TruthV;
use crate::builtins::boolean::all_written;
use crate::builtins::boolean::bool_atom;
use crate::builtins::boolean::marked_operators;
use crate::builtins::boolean::truth;
use crate::builtins::boolean::truth_table;
use crate::builtins::boolean::two;
use crate::builtins::boolean::write_bool;
use crate::builtins::boolean::write_bools;
use crate::builtins::boolean::written;
use crate::builtins::collections::contains_atom;
use crate::builtins::collections::decons_answer;
use crate::builtins::collections::decons_impl;
use crate::builtins::collections::items_of;
use crate::builtins::collections::keep_first_copies;
use crate::builtins::collections::list_items;
use crate::builtins::collections::no_atoms;
use crate::builtins::collections::together;
use crate::builtins::collections::unique;
use crate::builtins::collections::unique_has_no_duplicates;
use crate::builtins::one;
use crate::builtins::register_rows;
use crate::builtins::rows;
use crate::builtins::with_rows;
use crate::func::Builtin;
use crate::func::Clause;
use crate::func::ClauseV;
use crate::func::CompactFn;
use crate::func::FloatFn;
use crate::func::FnTable;
use crate::func::TableV;
use crate::numeric::NumV;
use crate::numeric::Numeric;
use crate::numeric::digits_value;
use crate::numeric::numeric_add;
use crate::numeric::numeric_mul;
use crate::numeric::numeric_rem;
use crate::numeric::numeric_sub;
use crate::numeric::read_whole;
use crate::numeric::truncated_rem;
use crate::numeric::unsigned_part;
use crate::numeric::whole_value;
use crate::text::chars_of;
use crate::text::digit;
use crate::text::int_text;
use crate::text::joined3;
use crate::text::joined;
use crate::text::lemma_digits_are_digits;
use crate::text::nat_digits;
use crate::text::text_between;
use crate::text::usize_text;
use vstd::prelude::*;
use vstd::string::*;

verus! {

/// Whether a character is white space in the sense of Unicode.
pub open spec fn is_white(c: char) -> bool {
    ||| '\u{9}' <= c <= '\u{d}'
    ||| c == ' '
    ||| c == '\u{85}'
    ||| c == '\u{a0}'
    ||| c == '\u{1680}'
    ||| '\u{2000}' <= c <= '\u{200a}'
    ||| c == '\u{2028}'
    ||| c == '\u{2029}'
    ||| c == '\u{202f}'
    ||| c == '\u{205f}'
    ||| c == '\u{3000}'
}

/// Whether a character is white space.
fn white(c: char) -> (r: bool)
    ensures
        r == is_white(c),
{
    ('\u{9}' <= c && c <= '\u{d}') || c == ' ' || c == '\u{85}' || c == '\u{a0}' || c == '\u{1680}'
        || ('\u{2000}' <= c && c <= '\u{200a}') || c == '\u{2028}' || c == '\u{2029}' || c
        == '\u{202f}' || c == '\u{205f}' || c == '\u{3000}'
}

/// A text without white space at its end.
pub open spec fn trimmed_end(s: Seq<char>) -> Seq<char>
    decreases s.len(),
{
    if s.len() > 0 && is_white(s.last()) {
        trimmed_end(s.drop_last())
    } else {
        s
    }
}

/// A text without white space at its start.
pub open spec fn trimmed_start(s: Seq<char>) -> Seq<char>
    decreases s.len(),
{
    if s.len() > 0 && is_white(s[0]) {
        trimmed_start(s.skip(1))
    } else {
        s
    }
}

/// A text without white space at its ends.
pub open spec fn trimmed(s: Seq<char>) -> Seq<char> {
    trimmed_end(trimmed_start(s))
}

/// Trimming the start makes no text longer.
proof fn lemma_trimmed_start(s: Seq<char>)
    ensures
        trimmed_start(s).len() <= s.len(),
    decreases s.len(),
{
    if s.len() > 0 && is_white(s[0]) {
        lemma_trimmed_start(s.skip(1));
    }
}

/// Trimming the end makes no text longer.
proof fn lemma_trimmed_end(s: Seq<char>)
    ensures
        trimmed_end(s).len() <= s.len(),
    decreases s.len(),
{
    if s.len() > 0 && is_white(s.last()) {
        lemma_trimmed_end(s.drop_last());
    }
}

/// Trimming makes no text longer.
pub proof fn lemma_trimmed(s: Seq<char>)
    ensures
        trimmed(s).len() <= s.len(),
{
    lemma_trimmed_start(s);
    lemma_trimmed_end(trimmed_start(s));
}

/// Find the part of a text without white space at its ends.
fn trim_between(v: &Vec<char>, from: usize, to: usize) -> (r: (usize, usize))
    requires
        from <= to <= v@.len(),
    ensures
        from <= r.0 <= r.1 <= to,
        v@.subrange(r.0 as int, r.1 as int) == trimmed(v@.subrange(from as int, to as int)),
{
    let ghost s = v@.subrange(from as int, to as int);
    let mut a: usize = from;
    while a < to && white(v[a])
        invariant
            from <= a <= to <= v@.len(),
            trimmed_start(s) == trimmed_start(v@.subrange(a as int, to as int)),
        decreases to - a,
    {
        assert(v@.subrange(a as int, to as int).skip(1) =~= v@.subrange(a + 1, to as int));
        a += 1;
    }
    let ghost m = v@.subrange(a as int, to as int);
    assert(trimmed_start(s) == m);
    let mut b: usize = to;
    while b > a && white(v[b - 1])
        invariant
            a <= b <= to <= v@.len(),
            trimmed_end(m) == trimmed_end(v@.subrange(a as int, b as int)),
        decreases b,
    {
        assert(v@.subrange(a as int, b as int).drop_last() =~= v@.subrange(a as int, b - 1));
        b -= 1;
    }
    assert(trimmed_end(m) == v@.subrange(a as int, b as int));
    (a, b)
}

/// What a reader returned, as a value.
pub open spec fn sread_value(r: Result<Atom, String>) -> Result<AtomV, Seq<char>> {
    match r {
        Ok(a) => Ok(a@),
        Err(e) => Err(e@),
    }
}

/// The value that a text denotes: a list in parentheses, a machine integer, or
/// a symbol. A text of white space is refused.
pub open spec fn sread_of(s: Seq<char>) -> Result<AtomV, Seq<char>>
    decreases s.len(), 0int,
{
    let t = trimmed(s);
    if t.len() == 0 {
        Err("sread: empty input"@)
    } else if t[0] == '(' && t.last() == ')' {
        let inner = trimmed(t.subrange(1, t.len() - 1));
        proof {
            lemma_trimmed(s);
            lemma_trimmed(t.subrange(1, t.len() - 1));
        }
        match sread_items(inner, 0, 0, 0, Seq::empty()) {
            Ok(items) => Ok(AtomV::Expr(items)),
            Err(e) => Err(e),
        }
    } else {
        match whole_value(t) {
            Some(n) => Ok(AtomV::Num(NumV::Int(n))),
            None => Ok(symbol(t)),
        }
    }
}

/// The values of the words of a text from a position on, behind those before. A
/// word runs from its start to a blank outside parentheses.
pub open spec fn sread_items(
    s: Seq<char>,
    i: nat,
    start: nat,
    depth: int,
    before: Seq<AtomV>,
) -> Result<Seq<AtomV>, Seq<char>>
    decreases s.len() + 1, s.len() - i,
{
    if start > i {
        Ok(before)
    } else if i >= s.len() {
        let last = trimmed(s.subrange(start as int, s.len() as int));
        proof {
            lemma_trimmed(s.subrange(start as int, s.len() as int));
        }
        if start < s.len() && last.len() > 0 {
            match sread_of(last) {
                Ok(a) => Ok(before.push(a)),
                Err(e) => Err(e),
            }
        } else {
            Ok(before)
        }
    } else if s[i as int] == '(' {
        sread_items(s, i + 1, start, depth + 1, before)
    } else if s[i as int] == ')' {
        sread_items(s, i + 1, start, depth - 1, before)
    } else if depth == 0 && (s[i as int] == ' ' || s[i as int] == '\t' || s[i as int] == '\n') {
        if i > start {
            match sread_of(s.subrange(start as int, i as int)) {
                Ok(a) => sread_items(s, i + 1, i + 1, 0, before.push(a)),
                Err(e) => Err(e),
            }
        } else {
            sread_items(s, i + 1, i + 1, 0, before)
        }
    } else {
        sread_items(s, i + 1, start, depth, before)
    }
}

/// Read the value of a part of a text.
fn sread_between(v: &Vec<char>, from: usize, to: usize) -> (r: Result<Atom, String>)
    requires
        from <= to <= v@.len(),
    ensures
        sread_value(r) == sread_of(v@.subrange(from as int, to as int)),
    decreases to - from, 0int,
{
    let (a, b) = trim_between(v, from, to);
    let ghost t = v@.subrange(a as int, b as int);
    if a == b {
        return Err("sread: empty input".to_owned());
    }
    if v[a] == '(' && v[b - 1] == ')' {
        assert(t[0] == '(' && t.last() == ')');
        assert(b - a >= 2);
        let (c, d) = trim_between(v, a + 1, b - 1);
        assert(t.subrange(1, t.len() - 1) =~= v@.subrange(a + 1, b - 1));
        return match sread_words(v, c, d) {
            Ok(items) => Ok(Atom::expr(items)),
            Err(e) => Err(e),
        };
    }
    match read_whole(v, a, b) {
        Some(n) => Ok(Atom::num(n)),
        None => {
            let name = text_between(v, a, b);
            Ok(Atom::sym(name.as_str()))
        },
    }
}

/// What a reader of a list returned, as a value.
pub open spec fn words_value(r: Result<Vec<Atom>, String>) -> Result<Seq<AtomV>, Seq<char>> {
    match r {
        Ok(v) => Ok(atoms(v@)),
        Err(e) => Err(e@),
    }
}

/// Read the values of the words of a part of a text.
fn sread_words(v: &Vec<char>, from: usize, to: usize) -> (r: Result<Vec<Atom>, String>)
    requires
        from <= to <= v@.len(),
    ensures
        words_value(r) == sread_items(
            v@.subrange(from as int, to as int),
            0,
            0,
            0,
            Seq::empty(),
        ),
    decreases to - from + 1, 0int,
{
    broadcast use group_atoms;

    let ghost s = v@.subrange(from as int, to as int);
    let ghost want = sread_items(s, 0, 0, 0, Seq::empty());
    let mut out: Vec<Atom> = Vec::new();
    assert(atoms(out@) =~= Seq::<AtomV>::empty());
    let mut depth: i128 = 0;
    let mut start: usize = from;
    let mut i: usize = from;
    while i < to
        invariant
            from <= start <= i <= to <= v@.len(),
            s == v@.subrange(from as int, to as int),
            -i <= depth <= i,
            want == sread_items(s, 0, 0, 0, Seq::empty()),
            want == sread_items(
                s,
                (i - from) as nat,
                (start - from) as nat,
                depth as int,
                atoms(out@),
            ),
        decreases to - i,
    {
        let c = v[i];
        assert(s[i - from] == c);
        if c == '(' {
            depth += 1;
        } else if c == ')' {
            depth -= 1;
        } else if depth == 0 && (c == ' ' || c == '\t' || c == '\n') {
            if i > start {
                assert(s.subrange(start - from, i - from) =~= v@.subrange(start as int, i as int));
                match sread_between(v, start, i) {
                    Err(e) => {
                        return Err(e);
                    },
                    Ok(a) => {
                        let ghost before = out@;
                        out.push(a);
                        assert(atoms(out@) =~= atoms(before).push(a@));
                    },
                }
            }
            start = i + 1;
        }
        i += 1;
    }
    if start < to {
        assert(s.subrange(start - from, to - from) =~= v@.subrange(start as int, to as int));
        let (a, b) = trim_between(v, start, to);
        if a < b {
            match sread_between(v, a, b) {
                Err(e) => {
                    return Err(e);
                },
                Ok(x) => {
                    let ghost before = out@;
                    out.push(x);
                    assert(atoms(out@) =~= atoms(before).push(x@));
                },
            }
        }
    }
    Ok(out)
}

/// Read one value from a text: a symbol, a number or a list.
pub fn sread_parse(s: &str) -> (r: Result<Atom, String>)
    ensures
        sread_value(r) == sread_of(s@),
{
    let v = chars_of(s);
    assert(v@.subrange(0, v@.len() as int) =~= s@);
    sread_between(&v, 0, v.len())
}

/// Whether a text is a word that the reader takes for a symbol of that name: it
/// has neither white space nor parentheses, and it writes no machine integer.
pub open spec fn is_sread_word(s: Seq<char>) -> bool {
    &&& s.len() > 0
    &&& forall|i: int| 0 <= i < s.len() ==> is_word_char(#[trigger] s[i])
    &&& whole_value(s) is None
}

/// Whether a character is neither white space nor a parenthesis.
pub open spec fn is_word_char(c: char) -> bool {
    !is_white(c) && c != '(' && c != ')'
}

/// Whether an atom consists of machine integers, words and lists.
pub open spec fn is_sread_value(a: AtomV) -> bool
    decreases a,
{
    match a {
        AtomV::Num(n) => n is Int && is_machine(n->Int_0),
        AtomV::Sym(s) => is_sread_word(s) && canonical_name(s) == s,
        AtomV::Expr(items) => are_sread_values(items),
        _ => false,
    }
}

/// Whether atoms consist of machine integers, words and lists.
pub open spec fn are_sread_values(s: Seq<AtomV>) -> bool
    decreases s,
{
    forall|i: int| 0 <= i < s.len() ==> is_sread_value(#[trigger] s[i])
}

/// Whether a text consists of white space.
pub open spec fn is_all_white(s: Seq<char>) -> bool {
    forall|i: int| 0 <= i < s.len() ==> is_white(#[trigger] s[i])
}

/// White space at the start is trimmed.
proof fn lemma_start_trimmed(w: Seq<char>, s: Seq<char>)
    requires
        is_all_white(w),
    ensures
        trimmed_start(w + s) == trimmed_start(s),
    decreases w.len(),
{
    if w.len() == 0 {
        assert(w + s =~= s);
    } else {
        assert((w + s)[0] == w[0]);
        assert((w + s).skip(1) =~= w.skip(1) + s);
        lemma_start_trimmed(w.skip(1), s);
    }
}

/// White space at the end is trimmed.
proof fn lemma_end_trimmed(s: Seq<char>, w: Seq<char>)
    requires
        is_all_white(w),
    ensures
        trimmed_end(s + w) == trimmed_end(s),
    decreases w.len(),
{
    if w.len() == 0 {
        assert(s + w =~= s);
    } else {
        assert((s + w).last() == w[w.len() - 1]);
        assert((s + w).drop_last() =~= s + w.drop_last());
        lemma_end_trimmed(s, w.drop_last());
    }
}

/// Leading and trailing white space makes no difference to the reader, and a
/// text of white space is refused.
pub proof fn white_space_makes_no_difference(before: Seq<char>, s: Seq<char>, after: Seq<char>)
    requires
        is_all_white(before),
        is_all_white(after),
    ensures
        sread_of(before + s + after) == sread_of(s),
        sread_of(before) == Err::<AtomV, Seq<char>>("sread: empty input"@),
{
    assert(before + s + after =~= before + (s + after));
    lemma_start_trimmed(before, s + after);
    lemma_trims_agree(s, after);
    lemma_start_trimmed(before, Seq::empty());
    assert(before + Seq::<char>::empty() =~= before);
    assert(trimmed(before) =~= Seq::<char>::empty());
}

/// Trimming a text with white space behind it.
proof fn lemma_trims_agree(s: Seq<char>, w: Seq<char>)
    requires
        is_all_white(w),
    ensures
        trimmed(s + w) == trimmed(s),
    decreases s.len(),
{
    if s.len() == 0 {
        assert(s + w =~= w + s);
        lemma_start_trimmed(w, s);
    } else if is_white(s[0]) {
        assert((s + w)[0] == s[0]);
        assert((s + w).skip(1) =~= s.skip(1) + w);
        lemma_trims_agree(s.skip(1), w);
    } else {
        assert((s + w)[0] == s[0]);
        lemma_end_trimmed(s, w);
    }
}

/// The digits of a number write the number.
proof fn lemma_digits_value(n: nat)
    ensures
        digits_value(nat_digits(n)) == n,
    decreases n,
{
    let d = nat_digits(n);
    if n < 10 {
        assert(d.drop_last() =~= Seq::<char>::empty());
        assert(digits_value(d.drop_last()) == 0);
    } else {
        lemma_digits_value(n / 10);
        assert(d.drop_last() =~= nat_digits(n / 10));
    }
    assert(d.last() == digit((n % 10) as int));
}

/// The text of a machine integer writes that integer, with characters of words.
proof fn lemma_integer_word(n: int)
    requires
        is_machine(n),
    ensures
        whole_value(int_text(n)) == Some(n),
        int_text(n).len() > 0,
        forall|i: int| 0 <= i < int_text(n).len() ==> is_word_char(#[trigger] int_text(n)[i]),
{
    let m = (if n < 0 { -n } else { n }) as nat;
    let d = nat_digits(m);
    let t = int_text(n);
    lemma_digits_are_digits(m);
    lemma_digits_value(m);
    assert(d[0] != '-' && d[0] != '+');
    assert(unsigned_part(t) =~= d);
    assert forall|i: int| 0 <= i < t.len() implies is_word_char(#[trigger] t[i]) by {
        if n < 0 {
            if i > 0 {
                assert(t[i] == d[i - 1]);
            }
        } else {
            assert(t[i] == d[i]);
        }
    }
}

/// A written value begins and ends without white space.
proof fn lemma_written_ends(a: AtomV)
    requires
        is_sread_value(a),
    ensures
        sexpr(a).len() > 0,
        !is_white(sexpr(a)[0]),
        !is_white(sexpr(a).last()),
        trimmed(sexpr(a)) == sexpr(a),
        !(a is Expr) ==> forall|i: int|
            0 <= i < sexpr(a).len() ==> is_word_char(#[trigger] sexpr(a)[i]),
{
    let t = sexpr(a);
    match a {
        AtomV::Num(n) => {
            lemma_integer_word(n->Int_0);
            assert(is_word_char(t[0]) && is_word_char(t[t.len() - 1]));
        },
        AtomV::Sym(s) => {
            assert(is_word_char(t[0]) && is_word_char(t[t.len() - 1]));
        },
        AtomV::Expr(items) => {
            assert(t[0] == '(' && t[t.len() - 1] == ')');
        },
        _ => {},
    }
}

/// Walking over a word changes nothing but the position.
proof fn lemma_walk_word(
    s: Seq<char>,
    i: nat,
    end: nat,
    start: nat,
    depth: int,
    before: Seq<AtomV>,
)
    requires
        start <= i <= end <= s.len(),
        forall|k: int| i <= k < end ==> is_word_char(#[trigger] s[k]),
    ensures
        sread_items(s, i, start, depth, before) == sread_items(s, end, start, depth, before),
    decreases end - i,
{
    if i < end {
        assert(is_word_char(s[i as int]));
        lemma_walk_word(s, i + 1, end, start, depth, before);
    }
}

/// Walking over a written value changes nothing but the position.
proof fn lemma_walk_value(
    s: Seq<char>,
    i: nat,
    start: nat,
    depth: int,
    before: Seq<AtomV>,
    a: AtomV,
)
    requires
        is_sread_value(a),
        start <= i,
        depth >= 0,
        i + sexpr(a).len() <= s.len(),
        s.subrange(i as int, (i + sexpr(a).len()) as int) == sexpr(a),
    ensures
        sread_items(s, i, start, depth, before) == sread_items(
            s,
            i + sexpr(a).len(),
            start,
            depth,
            before,
        ),
    decreases a, 0int, 0int,
{
    let t = sexpr(a);
    let end = (i + t.len()) as nat;
    lemma_written_ends(a);
    assert forall|k: int| 0 <= k < t.len() implies s[i + k] == #[trigger] t[k] by {
        assert(s.subrange(i as int, end as int)[k] == s[i + k]);
    }
    match a {
        AtomV::Expr(items) => {
            let body = sexprs(items);
            assert(t[0] == '(' && t[t.len() - 1] == ')');
            assert(s.subrange((i + 1) as int, (i + 1 + body.len()) as int) =~= body) by {
                assert forall|k: int| 0 <= k < body.len() implies s[i + 1 + k]
                    == #[trigger] body[k] by {
                    assert(t[k + 1] == body[k]);
                }
            }
            assert(s[i as int] == '(');
            assert(s[end - 1] == ')');
            lemma_walk_values(s, i + 1, start, depth + 1, before, items);
            assert(i + 1 + body.len() == end - 1);
        },
        _ => {
            assert forall|k: int| i <= k < end implies is_word_char(#[trigger] s[k]) by {
                assert(t[k - i] == s[i + (k - i)]);
            }
            lemma_walk_word(s, i, end, start, depth, before);
        },
    }
}

/// Walking over written values in parentheses changes nothing but the position.
proof fn lemma_walk_values(
    s: Seq<char>,
    i: nat,
    start: nat,
    depth: int,
    before: Seq<AtomV>,
    items: Seq<AtomV>,
)
    requires
        are_sread_values(items),
        start <= i,
        depth > 0,
        i + sexprs(items).len() <= s.len(),
        s.subrange(i as int, (i + sexprs(items).len()) as int) == sexprs(items),
    ensures
        sread_items(s, i, start, depth, before) == sread_items(
            s,
            i + sexprs(items).len(),
            start,
            depth,
            before,
        ),
    decreases items, 1int, items.len(),
{
    let body = sexprs(items);
    if items.len() == 1 {
        assert(is_sread_value(items[0]));
        lemma_walk_value(s, i, start, depth, before, items[0]);
    } else if items.len() > 1 {
        let front = items.drop_last();
        let f = sexprs(front);
        let l = sexpr(items.last());
        let mid = (i + f.len()) as nat;
        assert(body == f + seq![' '] + l);
        assert forall|k: int| 0 <= k < body.len() implies s[i + k] == #[trigger] body[k] by {
            assert(s.subrange(i as int, (i + body.len()) as int)[k] == s[i + k]);
        }
        assert(s.subrange(i as int, mid as int) =~= f) by {
            assert forall|k: int| 0 <= k < f.len() implies s[i + k] == #[trigger] f[k] by {
                assert(body[k] == f[k]);
            }
        }
        assert(s.subrange((mid + 1) as int, (mid + 1 + l.len()) as int) =~= l) by {
            assert forall|k: int| 0 <= k < l.len() implies s[mid + 1 + k] == #[trigger] l[k] by {
                assert(body[f.len() + 1 + k] == l[k]);
            }
        }
        assert(body[f.len() as int] == ' ');
        assert(s[mid as int] == ' ');
        assert forall|k: int| 0 <= k < front.len() implies is_sread_value(#[trigger] front[k]) by {
            assert(front[k] == items[k]);
        }
        lemma_walk_values(s, i, start, depth, before, front);
        assert(is_sread_value(items[items.len() - 1]));
        lemma_walk_value(s, mid + 1, start, depth, before, items.last());
    }
}

/// The written form of a list begins with that of its first element.
proof fn lemma_written_front(s: Seq<AtomV>)
    requires
        s.len() > 1,
    ensures
        sexprs(s) == sexpr(s[0]) + seq![' '] + sexprs(s.skip(1)),
    decreases s.len(),
{
    if s.len() == 2 {
        assert(s.drop_last().len() == 1 && s.drop_last()[0] == s[0]);
        assert(s.skip(1).len() == 1 && s.skip(1)[0] == s.last());
        assert(sexprs(s.drop_last()) == sexpr(s[0]));
        assert(sexprs(s.skip(1)) == sexpr(s.last()));
    } else {
        lemma_written_front(s.drop_last());
        assert(s.drop_last()[0] == s[0]);
        assert(s.drop_last().skip(1) =~= s.skip(1).drop_last());
        assert(s.skip(1).last() == s.last());
        assert(sexprs(s) =~= sexpr(s[0]) + seq![' '] + sexprs(s.skip(1)));
    }
}

/// Written values at the end of a text are read as the values.
proof fn lemma_sread_items(s: Seq<char>, i: nat, before: Seq<AtomV>, items: Seq<AtomV>)
    requires
        are_sread_values(items),
        items.len() > 0,
        i + sexprs(items).len() == s.len(),
        s.subrange(i as int, s.len() as int) == sexprs(items),
    ensures
        sread_items(s, i, i, 0, before) == Ok::<Seq<AtomV>, Seq<char>>(before + items),
    decreases items, 1int, items.len(),
{
    let body = sexprs(items);
    let first = sexpr(items[0]);
    let end = (i + first.len()) as nat;
    assert(is_sread_value(items[0]));
    lemma_written_ends(items[0]);
    written_values_are_sread(items[0]);
    assert forall|k: int| 0 <= k < body.len() implies s[i + k] == #[trigger] body[k] by {
        assert(s.subrange(i as int, s.len() as int)[k] == s[i + k]);
    }
    if items.len() > 1 {
        lemma_written_front(items);
        assert(body[first.len() as int] == ' ');
        assert(s[end as int] == ' ');
    }
    assert(s.subrange(i as int, end as int) =~= first) by {
        assert forall|k: int| 0 <= k < first.len() implies s[i + k] == #[trigger] first[k] by {
            assert(body[k] == first[k]);
        }
    }
    lemma_walk_value(s, i, i, 0, before, items[0]);
    if items.len() == 1 {
        assert(end == s.len());
        assert(before.push(items[0]) =~= before + items);
    } else {
        let rest = items.skip(1);
        let more = sexprs(rest);
        assert(s.subrange((end + 1) as int, s.len() as int) =~= more) by {
            assert forall|k: int| 0 <= k < more.len() implies s[end + 1 + k] == #[trigger] more[k] by {
                assert(body[first.len() + 1 + k] == more[k]);
            }
        }
        assert forall|k: int| 0 <= k < rest.len() implies is_sread_value(#[trigger] rest[k]) by {
            assert(rest[k] == items[k + 1]);
        }
        lemma_sread_items(s, end + 1, before.push(items[0]), rest);
        assert(before.push(items[0]) + rest =~= before + items);
    }
}

/// What is written of machine integers, words and lists is read as the value it
/// was written for.
pub proof fn written_values_are_sread(a: AtomV)
    requires
        is_sread_value(a),
    ensures
        sread_of(sexpr(a)) == Ok::<AtomV, Seq<char>>(a),
    decreases a, 0int, 0int,
{
    let t = sexpr(a);
    lemma_written_ends(a);
    match a {
        AtomV::Num(n) => {
            lemma_integer_word(n->Int_0);
            assert(is_word_char(t[0]));
        },
        AtomV::Sym(s) => {
            assert(is_word_char(t[0]));
        },
        AtomV::Expr(items) => {
            let body = sexprs(items);
            assert(t[0] == '(' && t[t.len() - 1] == ')');
            assert(t.subrange(1, t.len() - 1) =~= body);
            if items.len() > 0 {
                lemma_body_ends(items);
                assert(body.subrange(0, body.len() as int) =~= body);
                lemma_sread_items(body, 0, Seq::empty(), items);
                assert(Seq::<AtomV>::empty() + items =~= items);
            } else {
                assert(trimmed(body) =~= Seq::<char>::empty());
                assert(items =~= Seq::<AtomV>::empty());
            }
        },
        _ => {},
    }
}

/// The symbol of a word is read back from its written form.
pub proof fn written_words_are_sread(s: Seq<char>)
    requires
        is_sread_word(s),
    ensures
        is_sread_value(symbol(s)),
        sread_of(sexpr(symbol(s))) == Ok::<AtomV, Seq<char>>(symbol(s)),
{
    reveal_strlit("True");
    reveal_strlit("False");
    reveal_strlit("true");
    reveal_strlit("false");
    let c = canonical_name(s);
    if c != s {
        assert(unsigned_part(c) =~= c);
        assert(c[0] == 't' || c[0] == 'f');
    }
    written_values_are_sread(symbol(s));
}

/// The written form of a list without its parentheses begins and ends without
/// white space.
proof fn lemma_body_ends(items: Seq<AtomV>)
    requires
        are_sread_values(items),
        items.len() > 0,
    ensures
        trimmed(sexprs(items)) == sexprs(items),
{
    let body = sexprs(items);
    assert(is_sread_value(items[0]) && is_sread_value(items[items.len() - 1]));
    lemma_written_ends(items[0]);
    lemma_written_ends(items.last());
    if items.len() > 1 {
        lemma_written_front(items);
        assert(body[0] == sexpr(items[0])[0]);
        assert(body.last() == sexpr(items.last()).last());
    }
}

/// The elements that two lists hold together, each once.
pub open spec fn union_of(x: Seq<AtomV>, y: Seq<AtomV>) -> Seq<AtomV> {
    unique(x + y)
}

/// The elements of a list that also occur, or do not occur, in another.
pub open spec fn selected(x: Seq<AtomV>, y: Seq<AtomV>, present: bool) -> Seq<AtomV>
    decreases x.len(),
{
    if x.len() == 0 {
        x
    } else if y.contains(x.last()) == present {
        selected(x.drop_last(), y, present).push(x.last())
    } else {
        selected(x.drop_last(), y, present)
    }
}

/// Select the elements of a list that also occur, or do not occur, in another.
fn select(x: &Vec<Atom>, y: &Vec<Atom>, present: bool) -> (r: Vec<Atom>)
    ensures
        atoms(r@) == selected(atoms(x@), atoms(y@), present),
{
    broadcast use group_atoms;

    let ghost xs = atoms(x@);
    let mut out: Vec<Atom> = Vec::new();
    let mut i: usize = 0;
    assert(atoms(out@) =~= Seq::<AtomV>::empty());
    assert(xs.take(0) =~= Seq::<AtomV>::empty());
    while i < x.len()
        invariant
            i <= x@.len(),
            xs == atoms(x@),
            atoms(out@) == selected(xs.take(i as int), atoms(y@), present),
        decreases x@.len() - i,
    {
        assert(xs.take(i + 1).drop_last() =~= xs.take(i as int));
        assert(xs.take(i + 1).last() == x@[i as int]@);
        if contains_atom(y, &x[i]) == present {
            let ghost before = out@;
            let a = x[i].clone();
            out.push(a);
            assert(atoms(out@) =~= atoms(before).push(a@));
        }
        i += 1;
    }
    assert(xs.take(x@.len() as int) =~= xs);
    out
}

/// The selected elements are those of the list that occur, or do not occur, in
/// the other.
pub proof fn selection_is_exact(x: Seq<AtomV>, y: Seq<AtomV>, present: bool, a: AtomV)
    ensures
        selected(x, y, present).contains(a) == (x.contains(a) && y.contains(a) == present),
    decreases x.len(),
{
    if x.len() > 0 {
        let s = selected(x.drop_last(), y, present);
        selection_is_exact(x.drop_last(), y, present, a);
        assert(x =~= x.drop_last().push(x.last()));
        lemma_contains_push(x.drop_last(), x.last(), a);
        lemma_contains_push(s, x.last(), a);
    }
}

/// What a list contains after an element was added.
proof fn lemma_contains_push(s: Seq<AtomV>, x: AtomV, a: AtomV)
    ensures
        s.push(x).contains(a) == (s.contains(a) || x == a),
{
    if s.contains(a) {
        let i = choose|i: int| 0 <= i < s.len() && s[i] == a;
        assert(s.push(x)[i] == a);
    }
    assert(s.push(x)[s.len() as int] == x);
}

/// What two lists contain together.
proof fn lemma_contains_sum(x: Seq<AtomV>, y: Seq<AtomV>, a: AtomV)
    ensures
        (x + y).contains(a) == (x.contains(a) || y.contains(a)),
{
    if x.contains(a) {
        let i = choose|i: int| 0 <= i < x.len() && x[i] == a;
        assert((x + y)[i] == a);
    }
    if y.contains(a) {
        let i = choose|i: int| 0 <= i < y.len() && y[i] == a;
        assert((x + y)[x.len() + i] == a);
    }
}

/// The union of two lists has no duplicates, and holds what one of them holds.
/// Their intersection has no duplicates, and holds what both hold.
pub proof fn sets_are_made(x: Seq<AtomV>, y: Seq<AtomV>, a: AtomV)
    ensures
        union_of(x, y).no_duplicates(),
        union_of(x, y).contains(a) == (x.contains(a) || y.contains(a)),
        unique(selected(x, y, true)).no_duplicates(),
        unique(selected(x, y, true)).contains(a) == (x.contains(a) && y.contains(a)),
{
    unique_has_no_duplicates(x + y);
    unique_has_no_duplicates(selected(x, y, true));
    lemma_contains_sum(x, y, a);
    selection_is_exact(x, y, true, a);
}

/// The quotient of a division that rounds towards zero.
pub open spec fn truncated_quot(a: int, b: int) -> int {
    let m = (if a < 0 { -a } else { a }) / (if b < 0 { -b } else { b });
    if (a < 0) != (b < 0) {
        -m
    } else {
        m
    }
}

/// The magnitude of a machine integer.
fn magnitude(n: i128) -> (r: u128)
    ensures
        r as int == (if n < 0 { -(n as int) } else { n as int }),
{
    if n < 0 {
        (-(n + 1)) as u128 + 1
    } else {
        n as u128
    }
}

/// Divide machine integers, rounding towards zero.
fn quotient(a: i128, b: i128) -> (r: i128)
    requires
        b != 0,
        !(a == i128::MIN && b == -1),
    ensures
        r as int == truncated_quot(a as int, b as int),
{
    let x = magnitude(a);
    let y = magnitude(b);
    let q: u128 = x / y;
    assert(q <= x) by (nonlinear_arith)
        requires
            q == x / y,
            y > 0,
    ;
    if (a < 0) != (b < 0) {
        if q == 170141183460469231731687303715884105728 {
            i128::MIN
        } else {
            -(q as i128)
        }
    } else {
        assert(q < 170141183460469231731687303715884105728) by (nonlinear_arith)
            requires
                q == x / y,
                y > 0,
                x <= 170141183460469231731687303715884105728,
                x < 170141183460469231731687303715884105728 || y > 1,
        ;
        q as i128
    }
}

/// Whether an integer is a machine integer.
pub open spec fn is_machine(n: int) -> bool {
    i128::MIN <= n <= i128::MAX
}

/// The result of an operation on integers: a value, an error, or nothing where
/// the host computes it.
pub open spec fn integer_result(f: CompactFn, name: Seq<char>, a: int, b: int) -> Option<AnswerV> {
    match f {
        CompactFn::Add => Some(one(AtomV::Num(NumV::Int(a + b)))),
        CompactFn::Sub => Some(one(AtomV::Num(NumV::Int(a - b)))),
        CompactFn::Mul => Some(one(AtomV::Num(NumV::Int(a * b)))),
        CompactFn::Rem => Some(
            if b == 0 {
                AnswerV::Fail(name + ": division by zero"@)
            } else {
                one(AtomV::Num(NumV::Int(truncated_rem(a, b))))
            },
        ),
        _ => if b == 0 {
            Some(AnswerV::Fail(name + ": division by zero"@))
        } else if is_machine(a) && is_machine(b) && !(a == i128::MIN && b == -1) {
            Some(one(AtomV::Num(NumV::Int(truncated_quot(a, b)))))
        } else {
            None
        },
    }
}

/// The answer of an operation on numbers: integers stay exact, and the host
/// computes with other numbers.
pub open spec fn number_answer(f: CompactFn, name: Seq<char>, args: Seq<AtomV>) -> AnswerV {
    if args.len() != 2 {
        AnswerV::Fail(wrong_count(name, 2, args.len()))
    } else {
        match (args[0], args[1]) {
            (AtomV::Num(NumV::Int(a)), AtomV::Num(NumV::Int(b))) => match integer_result(
                f,
                name,
                a,
                b,
            ) {
                Some(r) => r,
                None => AnswerV::Host(Builtin::Compact(f), name, args),
            },
            _ => AnswerV::Host(Builtin::Compact(f), name, args),
        }
    }
}

/// Compute with numbers.
fn compute_numbers(f: CompactFn, name: &str, args: &Vec<Atom>) -> (r: Answer)
    ensures
        r@ == number_answer(f, name@, atoms(args@)),
{
    broadcast use group_atoms;

    match expect_n_args(args, 2, name) {
        Ok(_) => {},
        Err(e) => {
            return Answer::Fail(e);
        },
    }
    assert(atoms(args@)[0] == args@[0]@ && atoms(args@)[1] == args@[1]@);
    match (&args[0], &args[1]) {
        (Atom::Num(x), Atom::Num(y)) => match (x, y) {
            (Numeric::Int(a), Numeric::Int(b)) => match f {
                CompactFn::Add => answer_one(Atom::Num(numeric_add(x, y))),
                CompactFn::Sub => answer_one(Atom::Num(numeric_sub(x, y))),
                CompactFn::Mul => answer_one(Atom::Num(numeric_mul(x, y))),
                CompactFn::Rem => {
                    if y.is_zero() {
                        return Answer::Fail(joined(name, ": division by zero"));
                    }
                    match numeric_rem(x, y) {
                        Ok(n) => answer_one(Atom::Num(n)),
                        Err(_) => Answer::Fail(joined(name, ": division by zero")),
                    }
                },
                _ => {
                    if y.is_zero() {
                        return Answer::Fail(joined(name, ": division by zero"));
                    }
                    match (a.to_i128(), b.to_i128()) {
                        (Some(m), Some(n)) => if m == i128::MIN && n == -1 {
                            hand_over(Builtin::Compact(f), name, args)
                        } else {
                            answer_one(Atom::num(quotient(m, n)))
                        },
                        _ => hand_over(Builtin::Compact(f), name, args),
                    }
                },
            },
            _ => hand_over(Builtin::Compact(f), name, args),
        },
        _ => hand_over(Builtin::Compact(f), name, args),
    }
}

/// Whether an integer is of a size up to which every integer is a floating-point
/// number.
pub open spec fn is_float_exact(n: int) -> bool {
    -9007199254740992 <= n <= 9007199254740992
}

/// Whether two integers compare as an operator asks.
pub open spec fn compared(f: CompactFn, a: int, b: int) -> bool {
    match f {
        CompactFn::Below => a < b,
        CompactFn::Above => a > b,
        CompactFn::AtMost => a <= b,
        _ => a >= b,
    }
}

/// The answer of a comparison: numbers compare as floating-point numbers, which
/// the host does unless both are exact ones.
pub open spec fn comparison_answer(f: CompactFn, name: Seq<char>, args: Seq<AtomV>) -> AnswerV {
    if args.len() != 2 {
        AnswerV::Fail(wrong_count(name, 2, args.len()))
    } else {
        match (args[0], args[1]) {
            (AtomV::Num(NumV::Int(a)), AtomV::Num(NumV::Int(b))) => if is_float_exact(a)
                && is_float_exact(b) {
                one(truth(compared(f, a, b)))
            } else {
                AnswerV::Host(Builtin::Compact(f), name, args)
            },
            _ => AnswerV::Host(Builtin::Compact(f), name, args),
        }
    }
}

/// The integer of an argument whose floating-point value is exact.
fn exact_integer(a: &Atom) -> (r: Option<i128>)
    ensures
        (match r {
            Some(n) => a@ == AtomV::Num(NumV::Int(n as int)) && is_float_exact(n as int),
            None => !(a@ matches AtomV::Num(NumV::Int(n)) && is_float_exact(n)),
        }),
{
    match a {
        Atom::Num(Numeric::Int(n)) => match n.to_i128() {
            Some(m) => if -9007199254740992 <= m && m <= 9007199254740992 {
                Some(m)
            } else {
                None
            },
            None => None,
        },
        _ => None,
    }
}

/// Compare numbers.
fn compare_numbers(f: CompactFn, name: &str, args: &Vec<Atom>) -> (r: Answer)
    ensures
        r@ == comparison_answer(f, name@, atoms(args@)),
{
    broadcast use group_atoms;

    match expect_n_args(args, 2, name) {
        Ok(_) => {},
        Err(e) => {
            return Answer::Fail(e);
        },
    }
    assert(atoms(args@)[0] == args@[0]@ && atoms(args@)[1] == args@[1]@);
    match (exact_integer(&args[0]), exact_integer(&args[1])) {
        (Some(a), Some(b)) => {
            let r = match f {
                CompactFn::Below => a < b,
                CompactFn::Above => a > b,
                CompactFn::AtMost => a <= b,
                _ => a >= b,
            };
            answer_one(bool_atom(r))
        },
        _ => hand_over(Builtin::Compact(f), name, args),
    }
}

/// The built-in function that a loop calls, or why there is none.
pub open spec fn loop_callee(name: Seq<char>, f: Seq<char>, arity: u8, t: TableV) -> Result<
    Builtin,
    Seq<char>,
> {
    if t.natives.contains_key((f, arity)) {
        Ok(t.natives[(f, arity)])
    } else if t.clauses_of(f, arity) is Some {
        Err(name + ": only native functions supported as first argument"@)
    } else {
        Err(name + ": function "@ + f + " with arity "@ + nat_digits(arity as nat) + " not found"@)
    }
}

/// The loop of a fold with a built-in function, or why there is none.
pub open spec fn fold_answer(name: Seq<char>, args: Seq<AtomV>, t: TableV) -> AnswerV {
    if args.len() != 3 {
        AnswerV::Fail(wrong_count(name, 3, args.len()))
    } else if items_of(args[2]).len() == 0 {
        one(args[1])
    } else {
        match args[0] {
            AtomV::Sym(f) => match loop_callee(name, f, 2, t) {
                Ok(b) => AnswerV::Loop(
                    LoopV {
                        kind: LoopKind::Fold,
                        callee: CalleeV::Native(b),
                        name: f,
                        complaint: name + ": function produced no results"@,
                        items: items_of(args[2]),
                        next: 0,
                        acc: args[1],
                        out: Seq::empty(),
                    },
                ),
                Err(e) => AnswerV::Fail(e),
            },
            _ => AnswerV::Fail(name + ": first arg must be a symbol (function name)"@),
        }
    }
}

/// The loop that applies a built-in function to each element of a list, or why
/// there is none.
pub open spec fn each_answer(
    kind: LoopKind,
    name: Seq<char>,
    args: Seq<AtomV>,
    t: TableV,
) -> AnswerV {
    if args.len() != 2 {
        AnswerV::Fail(wrong_count(name, 2, args.len()))
    } else {
        match args[0] {
            AtomV::Sym(f) => if items_of(args[1]).len() == 0 {
                one(AtomV::Expr(Seq::empty()))
            } else {
                match loop_callee(name, f, 1, t) {
                    Ok(b) => AnswerV::Loop(
                        LoopV {
                            kind,
                            callee: CalleeV::Native(b),
                            name: f,
                            complaint: name + ": function produced no results for item "@,
                            items: items_of(args[1]),
                            next: 0,
                            acc: AtomV::Expr(Seq::empty()),
                            out: Seq::empty(),
                        },
                    ),
                    Err(e) => AnswerV::Fail(e),
                }
            },
            _ => AnswerV::Fail(name + ": first arg must be a symbol (function name)"@),
        }
    }
}

/// What was found, as a value.
pub open spec fn found_value(r: Result<Builtin, String>) -> Result<Builtin, Seq<char>> {
    match r {
        Ok(b) => Ok(b),
        Err(e) => Err(e@),
    }
}

/// Find the built-in function that a loop calls.
fn find_native(name: &str, f: &str, arity: u8, table: &FnTable) -> (r: Result<Builtin, String>)
    ensures
        found_value(r) == loop_callee(name@, f@, arity, table@),
{
    match table.get(f, arity) {
        Some(b) => Ok(b),
        None => match table.clauses_of(f, arity) {
            Some(_) => Err(joined(name, ": only native functions supported as first argument")),
            None => {
                let mut m: String = joined3(name, ": function ", f);
                m.append(" with arity ");
                let d = usize_text(arity as usize);
                m.append(d.as_str());
                m.append(" not found");
                Err(m)
            },
        },
    }
}

/// Start a fold with a built-in function.
fn start_fold(name: &str, args: &Vec<Atom>, table: &FnTable) -> (r: Answer)
    ensures
        r@ == fold_answer(name@, atoms(args@), table@),
{
    broadcast use group_atoms;

    match expect_n_args(args, 3, name) {
        Ok(_) => {},
        Err(e) => {
            return Answer::Fail(e);
        },
    }
    let ghost av = atoms(args@);
    assert(av[0] == args@[0]@ && av[1] == args@[1]@ && av[2] == args@[2]@);
    let items = list_items(&args[2]);
    assert(atoms(items@).len() == items@.len());
    if items.len() == 0 {
        return answer_one(args[1].clone());
    }
    match &args[0] {
        Atom::Sym(f) => match find_native(name, f.as_str(), 2, table) {
            Ok(b) => Answer::Loop(
                ListLoop {
                    kind: LoopKind::Fold,
                    callee: Callee::Native(b),
                    name: f.clone(),
                    complaint: joined(name, ": function produced no results"),
                    items,
                    next: 0,
                    acc: args[1].clone(),
                    out: no_atoms(),
                },
            ),
            Err(e) => Answer::Fail(e),
        },
        _ => Answer::Fail(joined(name, ": first arg must be a symbol (function name)")),
    }
}

/// Start to apply a built-in function to each element of a list.
fn start_each(kind: LoopKind, name: &str, args: &Vec<Atom>, table: &FnTable) -> (r: Answer)
    ensures
        r@ == each_answer(kind, name@, atoms(args@), table@),
{
    broadcast use group_atoms;

    match expect_n_args(args, 2, name) {
        Ok(_) => {},
        Err(e) => {
            return Answer::Fail(e);
        },
    }
    let ghost av = atoms(args@);
    assert(av[0] == args@[0]@ && av[1] == args@[1]@);
    match &args[0] {
        Atom::Sym(f) => {
            let items = list_items(&args[1]);
            assert(atoms(items@).len() == items@.len());
            if items.len() == 0 {
                return answer_one(Atom::expr(no_atoms()));
            }
            match find_native(name, f.as_str(), 1, table) {
                Ok(b) => Answer::Loop(
                    ListLoop {
                        kind,
                        callee: Callee::Native(b),
                        name: f.clone(),
                        complaint: joined(name, ": function produced no results for item "),
                        items,
                        next: 0,
                        acc: Atom::expr(no_atoms()),
                        out: no_atoms(),
                    },
                ),
                Err(e) => Answer::Fail(e),
            }
        },
        _ => Answer::Fail(joined(name, ": first arg must be a symbol (function name)")),
    }
}

/// The answer of a comparison that takes a difference for an error.
pub open spec fn check_answer(name: Seq<char>, args: Seq<AtomV>) -> AnswerV {
    if args.len() != 2 {
        AnswerV::Fail(wrong_count(name, 2, args.len()))
    } else if args[0] == args[1] {
        one(symbol("ok"@))
    } else {
        AnswerV::Fail("test failed: expected "@ + sexpr(args[0]) + ", got "@ + sexpr(args[1]))
    }
}

/// Compare two values; a difference is an error.
fn check_same(name: &str, args: &Vec<Atom>) -> (r: Answer)
    ensures
        r@ == check_answer(name@, atoms(args@)),
{
    broadcast use group_atoms;

    match expect_n_args(args, 2, name) {
        Ok(_) => {},
        Err(e) => {
            return Answer::Fail(e);
        },
    }
    if atom_same(&args[0], &args[1]) {
        return answer_one(Atom::sym("ok"));
    }
    let x = args[0].to_sexpr_string();
    let y = args[1].to_sexpr_string();
    let mut m: String = joined3("test failed: expected ", x.as_str(), ", got ");
    m.append(y.as_str());
    Answer::Fail(m)
}

/// The text that a value hands to the reader.
pub open spec fn reader_text(a: AtomV) -> Seq<char> {
    match a {
        AtomV::Sym(s) => s,
        other => sexpr(other),
    }
}

/// The answer of a function of one value, or of two lists.
pub open spec fn value_answer(f: CompactFn, name: Seq<char>, args: Seq<AtomV>) -> AnswerV {
    let n: nat = if f == CompactFn::Repr || f == CompactFn::Decons || f == CompactFn::Read {
        1
    } else {
        2
    };
    if args.len() != n {
        AnswerV::Fail(wrong_count(name, n, args.len()))
    } else {
        match f {
            CompactFn::Repr => one(symbol(sexpr(args[0]))),
            CompactFn::Decons => decons_answer(name, args[0]),
            CompactFn::Read => match sread_of(reader_text(args[0])) {
                Ok(a) => one(a),
                Err(e) => AnswerV::Fail(e),
            },
            CompactFn::Union => one(
                AtomV::Expr(union_of(items_of(args[0]), items_of(args[1]))),
            ),
            CompactFn::Intersect => one(
                AtomV::Expr(unique(selected(items_of(args[0]), items_of(args[1]), true))),
            ),
            _ => one(AtomV::Expr(selected(items_of(args[0]), items_of(args[1]), false))),
        }
    }
}

/// Compute a function of one value, or of two lists.
fn compute_value(f: CompactFn, name: &str, args: &Vec<Atom>) -> (r: Answer)
    ensures
        r@ == value_answer(f, name@, atoms(args@)),
{
    broadcast use group_atoms;

    let n: usize = if f == CompactFn::Repr || f == CompactFn::Decons || f == CompactFn::Read {
        1
    } else {
        2
    };
    match expect_n_args(args, n, name) {
        Ok(_) => {},
        Err(e) => {
            return Answer::Fail(e);
        },
    }
    assert(atoms(args@)[0] == args@[0]@);
    if n == 1 {
        return match f {
            CompactFn::Repr => {
                let t = args[0].to_sexpr_string();
                answer_one(Atom::sym(t.as_str()))
            },
            CompactFn::Decons => decons_impl(name, &args[0]),
            _ => {
                let t: String = match &args[0] {
                    Atom::Sym(s) => s.clone(),
                    other => other.to_sexpr_string(),
                };
                match sread_parse(t.as_str()) {
                    Ok(a) => answer_one(a),
                    Err(e) => Answer::Fail(e),
                }
            },
        };
    }
    assert(atoms(args@)[1] == args@[1]@);
    let x = list_items(&args[0]);
    let y = list_items(&args[1]);
    let out = match f {
        CompactFn::Union => keep_first_copies(&together(x, y)),
        CompactFn::Intersect => keep_first_copies(&select(&x, &y, true)),
        _ => select(&x, &y, false),
    };
    answer_one(Atom::expr(out))
}

/// The answer of a function of the compact set.
pub open spec fn compact_answer(
    f: CompactFn,
    name: Seq<char>,
    args: Seq<AtomV>,
    t: TableV,
) -> AnswerV {
    match f {
        CompactFn::Add | CompactFn::Sub | CompactFn::Mul | CompactFn::Div | CompactFn::Rem =>
        number_answer(f, name, args),
        CompactFn::Below | CompactFn::Above | CompactFn::AtMost | CompactFn::AtLeast =>
        comparison_answer(f, name, args),
        CompactFn::Float(_) => AnswerV::Host(Builtin::Compact(f), name, args),
        CompactFn::GetAtoms => if args.len() != 1 {
            AnswerV::Fail(wrong_count(name, 1, args.len()))
        } else {
            AnswerV::Values(t.space("&self"@))
        },
        CompactFn::Test => check_answer(name, args),
        CompactFn::Foldl => fold_answer(name, args, t),
        CompactFn::MapList => each_answer(LoopKind::Collect, name, args, t),
        CompactFn::Filter => each_answer(LoopKind::KeepTrue, name, args, t),
        _ => value_answer(f, name, args),
    }
}

/// Call a function of the compact set.
pub fn call_compact(f: CompactFn, name: &str, args: &Vec<Atom>, table: &FnTable) -> (r: Answer)
    ensures
        r@ == compact_answer(f, name@, atoms(args@), table@),
{
    match f {
        CompactFn::Add | CompactFn::Sub | CompactFn::Mul | CompactFn::Div | CompactFn::Rem =>
        compute_numbers(f, name, args),
        CompactFn::Below | CompactFn::Above | CompactFn::AtMost | CompactFn::AtLeast =>
        compare_numbers(f, name, args),
        CompactFn::Float(_) => hand_over(Builtin::Compact(f), name, args),
        CompactFn::GetAtoms => {
            broadcast use group_atoms;

            match expect_n_args(args, 1, name) {
                Ok(_) => Answer::Values(table.space_atoms("&self")),
                Err(e) => Answer::Fail(e),
            }
        },
        CompactFn::Test => check_same(name, args),
        CompactFn::Foldl => start_fold(name, args, table),
        CompactFn::MapList => start_each(LoopKind::Collect, name, args, table),
        CompactFn::Filter => start_each(LoopKind::KeepTrue, name, args, table),
        _ => compute_value(f, name, args),
    }
}

/// A table with one more row of a truth table as a clause.
pub open spec fn with_rule(t: TableV, row: TruthV) -> TableV {
    t.with_clause(
        row.0,
        row.1.len() as u8,
        ClauseV { patterns: all_written(row.1), body: written(row.2) },
    )
}

/// A table with rows of truth tables as clauses, added in order.
pub open spec fn with_rules(t: TableV, list: Seq<TruthV>) -> TableV
    decreases list.len(),
{
    if list.len() == 0 {
        t
    } else {
        with_rule(with_rules(t, list.drop_last()), list.last())
    }
}

/// A row of a truth table.
struct TruthRow {
    /// The operator.
    name: String,
    /// The arguments.
    args: Vec<bool>,
    /// The result.
    value: bool,
}

/// The values of rows of truth tables.
spec fn truths(s: Seq<TruthRow>) -> Seq<TruthV> {
    Seq::new(s.len(), |i: int| (s[i].name@, s[i].args@, s[i].value))
}

/// Add a row to a list of rows of truth tables.
fn add_truth_row(list: &mut Vec<TruthRow>, name: &str, args: Vec<bool>, value: bool)
    ensures
        truths(final(list)@) == truths(old(list)@).push((name@, args@, value)),
{
    let ghost before = list@;
    list.push(TruthRow { name: name.to_owned(), args, value });
    assert(truths(list@) =~= truths(before).push((name@, args@, value)));
}

/// Add the four rows of an operator of two arguments that begin with two true
/// arguments.
fn add_operator(list: &mut Vec<TruthRow>, name: &str, tt: bool, tf: bool, ft: bool, ff: bool)
    ensures
        truths(final(list)@) == truths(old(list)@).push((name@, seq![true, true], tt)).push(
            (name@, seq![true, false], tf),
        ).push((name@, seq![false, true], ft)).push((name@, seq![false, false], ff)),
{
    add_truth_row(list, name, two(true, true), tt);
    add_truth_row(list, name, two(true, false), tf);
    add_truth_row(list, name, two(false, true), ft);
    add_truth_row(list, name, two(false, false), ff);
}

/// A list of one boolean.
fn single(b: bool) -> (r: Vec<bool>)
    ensures
        r@ == seq![b],
{
    let mut v: Vec<bool> = Vec::new();
    v.push(b);
    assert(v@ =~= seq![b]);
    v
}

/// Add the truth tables of the logical operators as clauses.
fn add_rules(table: &mut FnTable)
    ensures
        final(table)@ == with_rules(old(table)@, truth_table()),
{
    let mut v: Vec<TruthRow> = Vec::new();
    add_operator(&mut v, "or", true, true, true, false);
    add_operator(&mut v, "and", true, false, false, false);
    add_truth_row(&mut v, "not", single(true), false);
    add_truth_row(&mut v, "not", single(false), true);
    add_truth_row(&mut v, "xor", two(true, false), true);
    add_truth_row(&mut v, "xor", two(false, true), true);
    add_truth_row(&mut v, "xor", two(true, true), false);
    add_truth_row(&mut v, "xor", two(false, false), false);
    add_operator(&mut v, "implies", true, false, true, true);
    let ghost rs = truth_table();
    assert(truths(v@) =~= rs);
    let mut i: usize = 0;
    assert(rs.take(0) =~= Seq::<TruthV>::empty());
    while i < v.len()
        invariant
            i <= v@.len(),
            rs == truths(v@),
            table@ == with_rules(old(table)@, rs.take(i as int)),
        decreases v@.len() - i,
    {
        let row = &v[i];
        let clause = Clause { patterns: write_bools(&row.args), body: write_bool(row.value) };
        table.cache_fn(row.name.as_str(), row.args.len() as u8, clause);
        assert(rs.take(i + 1).drop_last() =~= rs.take(i as int));
        assert(rs.take(i + 1).last() == rs[i as int]);
        i += 1;
    }
    assert(rs.take(v@.len() as int) =~= rs);
}

/// The functions on numbers.
pub open spec fn number_rows() -> Seq<RowV> {
    seq![
        ("+"@, 2u8, Builtin::Compact(CompactFn::Add), true),
        ("-"@, 2u8, Builtin::Compact(CompactFn::Sub), true),
        ("*"@, 2u8, Builtin::Compact(CompactFn::Mul), true),
        ("/"@, 2u8, Builtin::Compact(CompactFn::Div), true),
        ("%"@, 2u8, Builtin::Compact(CompactFn::Rem), true),
        ("<"@, 2u8, Builtin::Compact(CompactFn::Below), true),
        (">"@, 2u8, Builtin::Compact(CompactFn::Above), true),
        ("<="@, 2u8, Builtin::Compact(CompactFn::AtMost), true),
        (">="@, 2u8, Builtin::Compact(CompactFn::AtLeast), true),
        ("!="@, 2u8, Builtin::NotEqual, true),
        ("sqrt-math"@, 1u8, Builtin::Compact(CompactFn::Float(FloatFn::Sqrt)), true),
        ("abs-math"@, 1u8, Builtin::Compact(CompactFn::Float(FloatFn::Abs)), true),
        ("trunc-math"@, 1u8, Builtin::Compact(CompactFn::Float(FloatFn::Trunc)), true),
        ("ceil-math"@, 1u8, Builtin::Compact(CompactFn::Float(FloatFn::Ceil)), true),
        ("floor-math"@, 1u8, Builtin::Compact(CompactFn::Float(FloatFn::Floor)), true),
        ("round-math"@, 1u8, Builtin::Compact(CompactFn::Float(FloatFn::Round)), true),
        ("sin-math"@, 1u8, Builtin::Compact(CompactFn::Float(FloatFn::Sin)), true),
        ("asin-math"@, 1u8, Builtin::Compact(CompactFn::Float(FloatFn::Asin)), true),
        ("cos-math"@, 1u8, Builtin::Compact(CompactFn::Float(FloatFn::Cos)), true),
        ("acos-math"@, 1u8, Builtin::Compact(CompactFn::Float(FloatFn::Acos)), true),
        ("tan-math"@, 1u8, Builtin::Compact(CompactFn::Float(FloatFn::Tan)), true),
        ("atan-math"@, 1u8, Builtin::Compact(CompactFn::Float(FloatFn::Atan)), true),
        ("exp"@, 1u8, Builtin::Compact(CompactFn::Float(FloatFn::Exp)), true),
        ("pow-math"@, 2u8, Builtin::Compact(CompactFn::Float(FloatFn::Pow)), true),
        ("log-math"@, 2u8, Builtin::Compact(CompactFn::Float(FloatFn::Log)), true),
        ("min"@, 2u8, Builtin::Compact(CompactFn::Float(FloatFn::Min)), true),
        ("max"@, 2u8, Builtin::Compact(CompactFn::Float(FloatFn::Max)), true),
        ("isnan-math"@, 1u8, Builtin::Compact(CompactFn::Float(FloatFn::IsNan)), true),
        ("isinf-math"@, 1u8, Builtin::Compact(CompactFn::Float(FloatFn::IsInf)), true),
        ("min-atom"@, 1u8, Builtin::Compact(CompactFn::Float(FloatFn::MinAtom)), true),
        ("max-atom"@, 1u8, Builtin::Compact(CompactFn::Float(FloatFn::MaxAtom)), true),
    ]
}

/// Add the functions on numbers to a list.
fn add_number_rows(v: &mut Vec<Row>)
    ensures
        rows(final(v)@) == rows(old(v)@) + number_rows(),
{
    let ghost before = rows(v@);
    add_row(v, "+", 2, Builtin::Compact(CompactFn::Add), true);
    add_row(v, "-", 2, Builtin::Compact(CompactFn::Sub), true);
    add_row(v, "*", 2, Builtin::Compact(CompactFn::Mul), true);
    add_row(v, "/", 2, Builtin::Compact(CompactFn::Div), true);
    add_row(v, "%", 2, Builtin::Compact(CompactFn::Rem), true);
    add_row(v, "<", 2, Builtin::Compact(CompactFn::Below), true);
    add_row(v, ">", 2, Builtin::Compact(CompactFn::Above), true);
    add_row(v, "<=", 2, Builtin::Compact(CompactFn::AtMost), true);
    add_row(v, ">=", 2, Builtin::Compact(CompactFn::AtLeast), true);
    add_row(v, "!=", 2, Builtin::NotEqual, true);
    add_row(v, "sqrt-math", 1, Builtin::Compact(CompactFn::Float(FloatFn::Sqrt)), true);
    add_row(v, "abs-math", 1, Builtin::Compact(CompactFn::Float(FloatFn::Abs)), true);
    add_row(v, "trunc-math", 1, Builtin::Compact(CompactFn::Float(FloatFn::Trunc)), true);
    add_row(v, "ceil-math", 1, Builtin::Compact(CompactFn::Float(FloatFn::Ceil)), true);
    add_row(v, "floor-math", 1, Builtin::Compact(CompactFn::Float(FloatFn::Floor)), true);
    add_row(v, "round-math", 1, Builtin::Compact(CompactFn::Float(FloatFn::Round)), true);
    add_row(v, "sin-math", 1, Builtin::Compact(CompactFn::Float(FloatFn::Sin)), true);
    add_row(v, "asin-math", 1, Builtin::Compact(CompactFn::Float(FloatFn::Asin)), true);
    add_row(v, "cos-math", 1, Builtin::Compact(CompactFn::Float(FloatFn::Cos)), true);
    add_row(v, "acos-math", 1, Builtin::Compact(CompactFn::Float(FloatFn::Acos)), true);
    add_row(v, "tan-math", 1, Builtin::Compact(CompactFn::Float(FloatFn::Tan)), true);
    add_row(v, "atan-math", 1, Builtin::Compact(CompactFn::Float(FloatFn::Atan)), true);
    add_row(v, "exp", 1, Builtin::Compact(CompactFn::Float(FloatFn::Exp)), true);
    add_row(v, "pow-math", 2, Builtin::Compact(CompactFn::Float(FloatFn::Pow)), true);
    add_row(v, "log-math", 2, Builtin::Compact(CompactFn::Float(FloatFn::Log)), true);
    add_row(v, "min", 2, Builtin::Compact(CompactFn::Float(FloatFn::Min)), true);
    add_row(v, "max", 2, Builtin::Compact(CompactFn::Float(FloatFn::Max)), true);
    add_row(v, "isnan-math", 1, Builtin::Compact(CompactFn::Float(FloatFn::IsNan)), true);
    add_row(v, "isinf-math", 1, Builtin::Compact(CompactFn::Float(FloatFn::IsInf)), true);
    add_row(v, "min-atom", 1, Builtin::Compact(CompactFn::Float(FloatFn::MinAtom)), true);
    add_row(v, "max-atom", 1, Builtin::Compact(CompactFn::Float(FloatFn::MaxAtom)), true);
    assert(rows(v@) =~= before + number_rows());
}

/// The functions on values, states and lists.
pub open spec fn first_list_rows() -> Seq<RowV> {
    seq![
        ("size-atom"@, 1u8, Builtin::Size, true),
        ("length"@, 1u8, Builtin::Size, true),
        ("append"@, 2u8, Builtin::Append, true),
        ("msort"@, 1u8, Builtin::SortText, true),
        ("get-atoms"@, 1u8, Builtin::Compact(CompactFn::GetAtoms), false),
        ("sort"@, 1u8, Builtin::SortUnique, true),
        ("=="@, 2u8, Builtin::Equal, true),
        ("="@, 2u8, Builtin::Equal, true),
        ("=?"@, 2u8, Builtin::Equal, true),
        ("test"@, 2u8, Builtin::Compact(CompactFn::Test), true),
        ("repr"@, 1u8, Builtin::Compact(CompactFn::Repr), true),
        ("get-state"@, 1u8, Builtin::GetState, false),
        ("change-state!"@, 2u8, Builtin::ChangeState, false),
        ("bind!"@, 2u8, Builtin::BindState, false),
        ("cons-atom"@, 2u8, Builtin::Cons, true),
        ("cons"@, 2u8, Builtin::Cons, true),
        ("car-atom"@, 1u8, Builtin::Head, true),
        ("car"@, 1u8, Builtin::Head, true),
        ("cdr-atom"@, 1u8, Builtin::Tail, true),
        ("cdr"@, 1u8, Builtin::Tail, true),
    ]
}

/// Add the functions on values, states and lists to a list.
fn add_first_list_rows(v: &mut Vec<Row>)
    ensures
        rows(final(v)@) == rows(old(v)@) + first_list_rows(),
{
    let ghost before = rows(v@);
    add_row(v, "size-atom", 1, Builtin::Size, true);
    add_row(v, "length", 1, Builtin::Size, true);
    add_row(v, "append", 2, Builtin::Append, true);
    add_row(v, "msort", 1, Builtin::SortText, true);
    add_row(v, "get-atoms", 1, Builtin::Compact(CompactFn::GetAtoms), false);
    add_row(v, "sort", 1, Builtin::SortUnique, true);
    add_row(v, "==", 2, Builtin::Equal, true);
    add_row(v, "=", 2, Builtin::Equal, true);
    add_row(v, "=?", 2, Builtin::Equal, true);
    add_row(v, "test", 2, Builtin::Compact(CompactFn::Test), true);
    add_row(v, "repr", 1, Builtin::Compact(CompactFn::Repr), true);
    add_row(v, "get-state", 1, Builtin::GetState, false);
    add_row(v, "change-state!", 2, Builtin::ChangeState, false);
    add_row(v, "bind!", 2, Builtin::BindState, false);
    add_row(v, "cons-atom", 2, Builtin::Cons, true);
    add_row(v, "cons", 2, Builtin::Cons, true);
    add_row(v, "car-atom", 1, Builtin::Head, true);
    add_row(v, "car", 1, Builtin::Head, true);
    add_row(v, "cdr-atom", 1, Builtin::Tail, true);
    add_row(v, "cdr", 1, Builtin::Tail, true);
    assert(rows(v@) =~= before + first_list_rows());
}

/// The functions on the elements of lists.
pub open spec fn second_list_rows() -> Seq<RowV> {
    seq![
        ("index-atom"@, 2u8, Builtin::Index, true),
        ("id"@, 1u8, Builtin::Id, true),
        ("=alpha"@, 2u8, Builtin::AlphaEqual, true),
        ("first-from-pair"@, 1u8, Builtin::Head, true),
        ("first"@, 1u8, Builtin::Head, true),
        ("second-from-pair"@, 1u8, Builtin::Second, true),
        ("second"@, 1u8, Builtin::Second, true),
        ("last"@, 1u8, Builtin::Last, true),
        ("decons"@, 1u8, Builtin::Compact(CompactFn::Decons), true),
        ("reverse"@, 1u8, Builtin::Reverse, true),
        ("is-member"@, 2u8, Builtin::Member, true),
        ("exclude-item"@, 2u8, Builtin::Exclude, true),
        ("unique-atom"@, 1u8, Builtin::Unique, true),
        ("union-atom"@, 2u8, Builtin::Compact(CompactFn::Union), true),
        ("intersection-atom"@, 2u8, Builtin::Compact(CompactFn::Intersect), true),
        ("subtraction-atom"@, 2u8, Builtin::Compact(CompactFn::Subtract), true),
        ("sort-atom"@, 1u8, Builtin::SortText, true),
    ]
}

/// Add the functions on the elements of lists to a list.
fn add_second_list_rows(v: &mut Vec<Row>)
    ensures
        rows(final(v)@) == rows(old(v)@) + second_list_rows(),
{
    let ghost before = rows(v@);
    add_row(v, "index-atom", 2, Builtin::Index, true);
    add_row(v, "id", 1, Builtin::Id, true);
    add_row(v, "=alpha", 2, Builtin::AlphaEqual, true);
    add_row(v, "first-from-pair", 1, Builtin::Head, true);
    add_row(v, "first", 1, Builtin::Head, true);
    add_row(v, "second-from-pair", 1, Builtin::Second, true);
    add_row(v, "second", 1, Builtin::Second, true);
    add_row(v, "last", 1, Builtin::Last, true);
    add_row(v, "decons", 1, Builtin::Compact(CompactFn::Decons), true);
    add_row(v, "reverse", 1, Builtin::Reverse, true);
    add_row(v, "is-member", 2, Builtin::Member, true);
    add_row(v, "exclude-item", 2, Builtin::Exclude, true);
    add_row(v, "unique-atom", 1, Builtin::Unique, true);
    add_row(v, "union-atom", 2, Builtin::Compact(CompactFn::Union), true);
    add_row(v, "intersection-atom", 2, Builtin::Compact(CompactFn::Intersect), true);
    add_row(v, "subtraction-atom", 2, Builtin::Compact(CompactFn::Subtract), true);
    add_row(v, "sort-atom", 1, Builtin::SortText, true);
    assert(rows(v@) =~= before + second_list_rows());
}

/// The functions that call others, inspect, or work on text.
pub open spec fn other_rows() -> Seq<RowV> {
    seq![
        ("sort-math"@, 1u8, Builtin::Compact(CompactFn::Float(FloatFn::SortMath)), true),
        ("same"@, 2u8, Builtin::Equal, true),
        ("foldl"@, 3u8, Builtin::Compact(CompactFn::Foldl), false),
        ("foldl-atom"@, 3u8, Builtin::Compact(CompactFn::Foldl), false),
        ("decons-atom"@, 1u8, Builtin::Compact(CompactFn::Decons), true),
        ("list_to_set"@, 1u8, Builtin::Unique, true),
        ("alpha-unique-atom"@, 1u8, Builtin::AlphaUnique, true),
        ("maplist"@, 2u8, Builtin::Compact(CompactFn::MapList), false),
        ("filter-atom"@, 2u8, Builtin::Compact(CompactFn::Filter), false),
        ("is-var"@, 1u8, Builtin::IsVar, true),
        ("is-expr"@, 1u8, Builtin::IsExpr, true),
        ("is-space"@, 1u8, Builtin::IsSpace, true),
        ("concat"@, 2u8, Builtin::Concat, true),
        ("atom_concat"@, 2u8, Builtin::AtomConcat, true),
        ("atom_chars"@, 1u8, Builtin::AtomChars, true),
        ("term_hash"@, 1u8, Builtin::TermHash, true),
        ("sread"@, 1u8, Builtin::Compact(CompactFn::Read), true),
    ]
}

/// Add the functions that call others, inspect, or work on text to a list.
fn add_other_rows(v: &mut Vec<Row>)
    ensures
        rows(final(v)@) == rows(old(v)@) + other_rows(),
{
    let ghost before = rows(v@);
    add_row(v, "sort-math", 1, Builtin::Compact(CompactFn::Float(FloatFn::SortMath)), true);
    add_row(v, "same", 2, Builtin::Equal, true);
    add_row(v, "foldl", 3, Builtin::Compact(CompactFn::Foldl), false);
    add_row(v, "foldl-atom", 3, Builtin::Compact(CompactFn::Foldl), false);
    add_row(v, "decons-atom", 1, Builtin::Compact(CompactFn::Decons), true);
    add_row(v, "list_to_set", 1, Builtin::Unique, true);
    add_row(v, "alpha-unique-atom", 1, Builtin::AlphaUnique, true);
    add_row(v, "maplist", 2, Builtin::Compact(CompactFn::MapList), false);
    add_row(v, "filter-atom", 2, Builtin::Compact(CompactFn::Filter), false);
    add_row(v, "is-var", 1, Builtin::IsVar, true);
    add_row(v, "is-expr", 1, Builtin::IsExpr, true);
    add_row(v, "is-space", 1, Builtin::IsSpace, true);
    add_row(v, "concat", 2, Builtin::Concat, true);
    add_row(v, "atom_concat", 2, Builtin::AtomConcat, true);
    add_row(v, "atom_chars", 1, Builtin::AtomChars, true);
    add_row(v, "term_hash", 1, Builtin::TermHash, true);
    add_row(v, "sread", 1, Builtin::Compact(CompactFn::Read), true);
    assert(rows(v@) =~= before + other_rows());
}

/// The functions of the compact set.
pub open spec fn compact_rows() -> Seq<RowV> {
    number_rows() + first_list_rows() + second_list_rows() + other_rows()
}

/// Register all built-in functions of the compact set.
pub fn register_builtins(table: &mut FnTable)
    ensures
        final(table)@ == with_rows(
            marked_operators(with_rules(old(table)@, truth_table())),
            compact_rows(),
        ),
{
    add_rules(table);
    table.mark_pure("or", 2);
    table.mark_pure("and", 2);
    table.mark_pure("not", 1);
    table.mark_pure("xor", 2);
    table.mark_pure("implies", 2);
    let mut v: Vec<Row> = Vec::new();
    assert(rows(v@) =~= Seq::<RowV>::empty());
    add_number_rows(&mut v);
    add_first_list_rows(&mut v);
    add_second_list_rows(&mut v);
    add_other_rows(&mut v);
    assert(rows(v@) =~= compact_rows());
    register_rows(table, &v);
}

} // verus!
