//! Printed values read back.
use crate::atom::AtomV;
use crate::atom::sexpr;
use crate::atom::sexprs;
use crate::builtins::io::first_value;
use crate::compile::reify::atom_round_trip;
use crate::compile::reify::is_plain;
use crate::compile::reify::to_atom;
use crate::compile::reify::to_expr;
use crate::compile::reify::to_exprs;
use crate::expr::Expr;
use crate::expr::ExprV;
use crate::numeric::NumV;
use crate::numeric::integers_denote_themselves;
use crate::parser::TopFormV;
use crate::parser::after_blanks;
use crate::parser::after_word;
use crate::parser::ends_word;
use crate::parser::expr_at;
use crate::parser::forms_from;
use crate::parser::is_blank;
use crate::parser::items_from;
use crate::parser::lemma_literal_content;
use crate::parser::without_sign;
use crate::parser::word_value;
use crate::text::escaped;
use crate::text::int_text;
use crate::text::lemma_digits_are_digits;
use crate::text::nat_digits;
use crate::text::quoted;
use vstd::prelude::*;

verus! {

/// Whether a text is a word that is read as a symbol of that name.
pub open spec fn is_plain_word(s: Seq<char>) -> bool {
    &&& s.len() > 0
    &&& forall|i: int| 0 <= i < s.len() ==> !ends_word(#[trigger] s[i])
    &&& word_value(s) == ExprV::Symbol(s)
}

/// Whether a number is written as a word that is read as that number.
pub open spec fn is_plain_number(n: NumV) -> bool {
    &&& n.text().len() > 0
    &&& forall|i: int| 0 <= i < n.text().len() ==> !ends_word(#[trigger] n.text()[i])
    &&& word_value(n.text()) == ExprV::Number(n)
}

/// Whether an atom consists of words, numbers, strings and lists.
pub open spec fn is_readable(a: AtomV) -> bool
    decreases a,
{
    match a {
        AtomV::Sym(s) => is_plain_word(s),
        AtomV::Str(_) => true,
        AtomV::Num(n) => is_plain_number(n),
        AtomV::Expr(items) => all_readable(items),
        _ => false,
    }
}

/// Whether atoms consist of words, numbers, strings and lists.
pub open spec fn all_readable(s: Seq<AtomV>) -> bool
    decreases s,
{
    forall|i: int| 0 <= i < s.len() ==> is_readable(#[trigger] s[i])
}

/// The written form of a list begins with that of its first element.
proof fn lemma_sexprs_front(s: Seq<AtomV>)
    requires
        s.len() > 1,
    ensures
        sexprs(s) == sexpr(s[0]) + seq![' '] + sexprs(s.skip(1)),
    decreases s.len(),
{
    if s.len() == 2 {
        assert(s.drop_last().len() == 1 && s.drop_last()[0] == s[0]);
        assert(s.skip(1).len() == 1 && s.skip(1)[0] == s.last());
        assert(sexprs(s.drop_last()) == sexpr(s[0]));
        assert(sexprs(s.skip(1)) == sexpr(s.last()));
    } else {
        lemma_sexprs_front(s.drop_last());
        assert(s.drop_last()[0] == s[0]);
        assert(s.drop_last().skip(1) =~= s.skip(1).drop_last());
        assert(s.skip(1).last() == s.last());
        assert(sexprs(s) =~= sexpr(s[0]) + seq![' '] + sexprs(s.skip(1)));
    }
}

/// The end of a word that stands in a text.
proof fn lemma_word_end(s: Seq<char>, pos: int, end: int)
    requires
        0 <= pos <= end <= s.len(),
        forall|i: int| pos <= i < end ==> !ends_word(#[trigger] s[i]),
        end == s.len() || ends_word(s[end]),
    ensures
        after_word(s, pos) == end,
    decreases end - pos,
{
    if pos < end {
        lemma_word_end(s, pos + 1, end);
    }
}

/// The written form of an atom begins with neither a blank nor a comment nor a
/// closing parenthesis.
proof fn lemma_first_char(a: AtomV)
    requires
        is_readable(a),
    ensures
        sexpr(a).len() > 0,
        !is_blank(sexpr(a)[0]),
        sexpr(a)[0] != ';',
        sexpr(a)[0] != ')',
{
    match a {
        AtomV::Sym(s) => {
            assert(!ends_word(s[0]));
        },
        AtomV::Num(n) => {
            assert(!ends_word(n.text()[0]));
        },
        AtomV::Str(s) => {
            assert(quoted(s)[0] == '"');
        },
        AtomV::Expr(items) => {
            assert(sexpr(a)[0] == '(');
        },
        _ => {},
    }
}

/// A written atom within a text is read as the atom.
proof fn lemma_read_atom(s: Seq<char>, pos: int, a: AtomV)
    requires
        is_readable(a),
        0 <= pos,
        pos + sexpr(a).len() <= s.len(),
        s.subrange(pos, pos + sexpr(a).len()) == sexpr(a),
        pos + sexpr(a).len() == s.len() || ends_word(s[pos + sexpr(a).len()]),
    ensures
        expr_at(s, pos) == Ok::<(ExprV, int), Seq<char>>((to_expr(a), pos + sexpr(a).len())),
    decreases a, 0int, 0int,
{
    let t = sexpr(a);
    let end = pos + t.len();
    lemma_first_char(a);
    assert forall|i: int| 0 <= i < t.len() implies s[pos + i] == #[trigger] t[i] by {
        assert(s.subrange(pos, end)[i] == s[pos + i]);
    }
    assert(s[pos] == t[0]);
    match a {
        AtomV::Sym(w) => {
            lemma_word(s, pos, w);
        },
        AtomV::Num(n) => {
            lemma_word(s, pos, n.text());
        },
        AtomV::Str(x) => {
            let e = escaped(x);
            assert(s.subrange(pos + 1, pos + 1 + e.len()) =~= e) by {
                assert forall|i: int| 0 <= i < e.len() implies s[pos + 1 + i] == #[trigger] e[i] by {
                    assert(t[i + 1] == e[i]);
                }
            }
            assert(t[t.len() - 1] == '"');
            lemma_literal_content(s, pos + 1, x, Seq::empty());
            assert(Seq::<char>::empty() + x =~= x);
        },
        AtomV::Expr(items) => {
            let body = sexprs(items);
            assert(s.subrange(pos + 1, pos + 1 + body.len()) =~= body) by {
                assert forall|i: int| 0 <= i < body.len() implies s[pos + 1 + i]
                    == #[trigger] body[i] by {
                    assert(t[i + 1] == body[i]);
                }
            }
            assert(t[t.len() - 1] == ')');
            assert(s[pos + 1 + body.len()] == ')');
            if items.len() > 0 {
                lemma_first_char(items[0]);
                lemma_starts(items);
                assert(s[pos + 1] == body[0]);
            }
            lemma_read_items(s, pos + 1, pos + 1, items, Seq::empty());
            assert(Seq::<ExprV>::empty() + to_exprs(items) =~= to_exprs(items));
        },
        _ => {},
    }
}

/// A word within a text is read as the word.
proof fn lemma_word(s: Seq<char>, pos: int, w: Seq<char>)
    requires
        w.len() > 0,
        forall|i: int| 0 <= i < w.len() ==> !ends_word(#[trigger] w[i]),
        0 <= pos,
        pos + w.len() <= s.len(),
        s.subrange(pos, pos + w.len()) == w,
        pos + w.len() == s.len() || ends_word(s[pos + w.len()]),
    ensures
        expr_at(s, pos) == Ok::<(ExprV, int), Seq<char>>((word_value(w), pos + w.len())),
{
    let end = pos + w.len();
    assert forall|i: int| pos <= i < end implies !ends_word(#[trigger] s[i]) by {
        assert(s.subrange(pos, end)[i - pos] == w[i - pos]);
    }
    lemma_word_end(s, pos, end);
}

/// The written form of a list begins as that of its first element.
proof fn lemma_starts(items: Seq<AtomV>)
    requires
        items.len() > 0,
        sexpr(items[0]).len() > 0,
    ensures
        sexprs(items).len() >= sexpr(items[0]).len(),
        sexprs(items)[0] == sexpr(items[0])[0],
{
    if items.len() > 1 {
        lemma_sexprs_front(items);
    }
}

/// Written atoms within a text, up to a closing parenthesis, are read as the
/// atoms. Reading starts at a position with only blanks before the first.
proof fn lemma_read_items(
    s: Seq<char>,
    from: int,
    pos: int,
    items: Seq<AtomV>,
    before: Seq<ExprV>,
)
    requires
        all_readable(items),
        0 <= from <= pos,
        pos + sexprs(items).len() < s.len(),
        s.subrange(pos, pos + sexprs(items).len()) == sexprs(items),
        s[pos + sexprs(items).len()] == ')',
        after_blanks(s, from, false) == pos,
    ensures
        items_from(s, from, before) == Ok::<(ExprV, int), Seq<char>>(
            (ExprV::List(before + to_exprs(items)), pos + sexprs(items).len() + 1),
        ),
    decreases items, 1int, items.len(),
{
    let body = sexprs(items);
    if items.len() == 0 {
        assert(before + to_exprs(items) =~= before);
    } else {
        let first = sexpr(items[0]);
        let rest = items.skip(1);
        lemma_first_char(items[0]);
        lemma_starts(items);
        assert forall|i: int| 0 <= i < body.len() implies s[pos + i] == #[trigger] body[i] by {
            assert(s.subrange(pos, pos + body.len())[i] == s[pos + i]);
        }
        let end = pos + first.len();
        if items.len() > 1 {
            lemma_sexprs_front(items);
            assert(body[first.len() as int] == ' ');
        }
        assert(s.subrange(pos, end) =~= first) by {
            assert forall|i: int| 0 <= i < first.len() implies s[pos + i] == #[trigger] first[i] by {
                assert(body[i] == first[i]);
            }
        }
        assert(ends_word(s[end]));
        lemma_read_atom(s, pos, items[0]);
        assert(s[pos] == first[0]);
        let next = before.push(to_expr(items[0]));
        assert(to_exprs(items) =~= seq![to_expr(items[0])] + to_exprs(rest));
        assert(next + to_exprs(rest) =~= before + to_exprs(items));
        assert forall|i: int| 0 <= i < rest.len() implies is_readable(#[trigger] rest[i]) by {
            assert(rest[i] == items[i + 1]);
        }
        if items.len() == 1 {
            assert(after_blanks(s, end, false) == end);
            assert(items_from(s, end, next) == Ok::<(ExprV, int), Seq<char>>(
                (ExprV::List(next), end + 1),
            ));
            assert(next =~= before + to_exprs(items));
        } else {
            let more = sexprs(rest);
            lemma_first_char(rest[0]);
            lemma_starts(rest);
            assert(s.subrange(end + 1, end + 1 + more.len()) =~= more) by {
                assert forall|i: int| 0 <= i < more.len() implies s[end + 1 + i]
                    == #[trigger] more[i] by {
                    assert(body[first.len() + 1 + i] == more[i]);
                }
            }
            assert(s[end + 1] == more[0]);
            assert(after_blanks(s, end + 1, false) == end + 1);
            assert(after_blanks(s, end, false) == end + 1);
            lemma_read_items(s, end, end + 1, rest, next);
        }
    }
}

/// An integer is written as a word that is read as that integer.
pub proof fn integers_are_read_back(n: int)
    ensures
        is_plain_number(NumV::Int(n)),
{
    let t = int_text(n);
    lemma_digits_are_digits((if n < 0 { -n } else { n }) as nat);
    integers_denote_themselves(n);
    assert(without_sign(t) =~= nat_digits((if n < 0 { -n } else { n }) as nat));
    assert forall|i: int| 0 <= i < t.len() implies !ends_word(#[trigger] t[i]) by {
        let d = without_sign(t);
        if n < 0 {
            if i > 0 {
                assert(t[i] == d[i - 1]);
            }
        } else {
            assert(t[i] == d[i]);
        }
    }
}

/// The written form of an atom that consists of words, numbers, strings and
/// lists is read as that atom again.
pub proof fn written_atoms_are_read_back(a: AtomV)
    ensures
        is_readable(a) ==> expr_at(sexpr(a), 0) == Ok::<(ExprV, int), Seq<char>>(
            (to_expr(a), sexpr(a).len() as int),
        ),
        is_plain(a) ==> to_atom(to_expr(a)) == a,
{
    if is_readable(a) {
        assert(sexpr(a).subrange(0, sexpr(a).len() as int) =~= sexpr(a));
        lemma_read_atom(sexpr(a), 0, a);
    }
    if is_plain(a) {
        atom_round_trip(a);
    }
}

/// What `repr` writes of an atom that consists of words, numbers, strings and
/// lists, `parse` reads as that atom.
pub proof fn written_atoms_are_parsed(a: AtomV)
    requires
        is_readable(a),
        is_plain(a),
    ensures
        first_value(sexpr(a)) == Ok::<AtomV, Seq<char>>(a),
{
    let t = sexpr(a);
    let s = t.push(')');
    let items = seq![a];
    lemma_first_char(a);
    assert(sexprs(items) == t);
    assert(s.subrange(0, t.len() as int) =~= t);
    assert(after_blanks(s, 0, false) == 0);
    lemma_read_items(s, 0, 0, items, Seq::empty());
    assert(Seq::<ExprV>::empty() + to_exprs(items) =~= seq![to_expr(a)]);
    atom_round_trip(a);
}

/// The text of a form of a program: an expression to evaluate has a `!` in front.
pub open spec fn form_text(runnable: bool, a: AtomV) -> Seq<char> {
    if runnable {
        seq!['!'] + sexpr(a)
    } else {
        sexpr(a)
    }
}

/// A form of a program.
pub open spec fn form_of_atom(runnable: bool, a: AtomV) -> TopFormV {
    if runnable {
        TopFormV::Runnable(to_expr(a))
    } else {
        TopFormV::Definition(to_expr(a))
    }
}

/// The text of a program: its forms, each on a line of its own.
pub open spec fn program_text(forms: Seq<(bool, AtomV)>) -> Seq<char>
    decreases forms.len(),
{
    if forms.len() == 0 {
        Seq::empty()
    } else {
        form_text(forms[0].0, forms[0].1) + seq!['\n'] + program_text(forms.skip(1))
    }
}

/// The forms of a program.
pub open spec fn program_forms(forms: Seq<(bool, AtomV)>) -> Seq<TopFormV> {
    Seq::new(forms.len(), |i: int| form_of_atom(forms[i].0, forms[i].1))
}

/// Whether forms are lists that a text can stand for.
pub open spec fn are_programs(forms: Seq<(bool, AtomV)>) -> bool {
    forall|i: int| 0 <= i < forms.len() ==> (#[trigger] forms[i]).1 is Expr && is_readable(forms[i].1)
}

/// The rest of a program.
proof fn lemma_read_program(
    s: Seq<char>,
    from: int,
    pos: int,
    forms: Seq<(bool, AtomV)>,
    before: Seq<TopFormV>,
)
    requires
        are_programs(forms),
        0 <= from <= pos <= s.len(),
        s.skip(pos) == program_text(forms),
        after_blanks(s, from, false) == after_blanks(s, pos, false),
    ensures
        forms_from(s, from, before) == Ok::<Seq<TopFormV>, Seq<char>>(
            before + program_forms(forms),
        ),
    decreases forms.len(),
{
    if forms.len() == 0 {
        assert(s.skip(pos).len() == 0);
        assert(before + program_forms(forms) =~= before);
    } else {
        let (runnable, a) = forms[0];
        let t = sexpr(a);
        let f = form_text(runnable, a);
        let rest = forms.skip(1);
        let all = program_text(forms);
        assert(a is Expr && is_readable(a));
        lemma_first_char(a);
        assert(t[0] == '(');
        assert forall|i: int| 0 <= i < all.len() implies s[pos + i] == #[trigger] all[i] by {
            assert(s.skip(pos)[i] == s[pos + i]);
        }
        assert(all.len() == s.len() - pos);
        let start = if runnable {
            pos + 1
        } else {
            pos
        };
        let end = start + t.len();
        assert(s.subrange(start, end) =~= t) by {
            assert forall|i: int| 0 <= i < t.len() implies s[start + i] == #[trigger] t[i] by {
                assert(all[start - pos + i] == f[start - pos + i]);
            }
        }
        assert(s[pos] == all[0] && all[0] == f[0]);
        assert(s[end] == all[f.len() as int]);
        assert(s[end] == '\n');
        assert(s[start] == '(') by {
            assert(s.subrange(start, end)[0] == s[start]);
        }
        assert(after_blanks(s, pos, false) == pos);
        assert(after_blanks(s, start, false) == start);
        lemma_read_atom(s, start, a);
        let next = before.push(form_of_atom(runnable, a));
        assert(s.skip(end + 1) =~= program_text(rest)) by {
            let more = program_text(rest);
            assert(s.len() - (end + 1) == more.len());
            assert forall|i: int| 0 <= i < more.len() implies s[end + 1 + i] == #[trigger] more[i] by {
                assert(all[f.len() + 1 + i] == more[i]);
            }
        }
        assert(after_blanks(s, end, false) == after_blanks(s, end + 1, false));
        assert forall|i: int| 0 <= i < rest.len() implies (#[trigger] rest[i]).1 is Expr
            && is_readable(rest[i].1) by {
            assert(rest[i] == forms[i + 1]);
        }
        lemma_read_program(s, end, end + 1, rest, next);
        assert(next + program_forms(rest) =~= before + program_forms(forms));
    }
}

/// A program is read as its forms, all of them and in their order: those with a
/// `!` in front are evaluated, and the others are definitions.
pub proof fn programs_are_read_form_by_form(forms: Seq<(bool, AtomV)>)
    requires
        are_programs(forms),
    ensures
        forms_from(program_text(forms), 0, Seq::empty()) == Ok::<Seq<TopFormV>, Seq<char>>(
            program_forms(forms),
        ),
{
    let s = program_text(forms);
    assert(s.skip(0) =~= s);
    lemma_read_program(s, 0, 0, forms, Seq::empty());
    assert(Seq::<TopFormV>::empty() + program_forms(forms) =~= program_forms(forms));
}

/// Blanks and comments between forms make no difference: reading goes on behind
/// them.
pub proof fn comments_are_passed_over(s: Seq<char>, pos: int, k: int)
    requires
        0 <= pos < k < s.len(),
        s[pos] == ';',
        s[k] == '\n',
        forall|i: int| pos < i < k ==> #[trigger] s[i] != '\n',
    ensures
        after_blanks(s, pos, false) == after_blanks(s, k + 1, false),
{
    lemma_in_comment(s, pos + 1, k);
}

/// The rest of a comment.
proof fn lemma_in_comment(s: Seq<char>, i: int, k: int)
    requires
        0 <= i <= k < s.len(),
        s[k] == '\n',
        forall|j: int| i <= j < k ==> #[trigger] s[j] != '\n',
    ensures
        after_blanks(s, i, true) == after_blanks(s, k + 1, false),
    decreases k - i,
{
    if i < k {
        assert(s[i] != '\n');
        lemma_in_comment(s, i + 1, k);
    }
}

} // verus!
