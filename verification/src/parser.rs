//! Reader for the text form of programs.
//!
//! A program is a sequence of expressions, each of which may be marked with `!`
//! to be run. `;` starts a comment that lasts to the end of the line.
use crate::atom::Atom;
use crate::compile::reify::expr_to_atom;
use crate::compile::reify::to_atom;
use crate::expr::Expr;
use crate::expr::ExprV;
use crate::expr::exprs;
use crate::expr::group_exprs;
use crate::numeric::Decimal;
use crate::numeric::Integer;
use crate::numeric::NumV;
use crate::numeric::Numeric;
use crate::numeric::decimal_of;
use crate::numeric::integer_value;
use crate::text::chars_of;
use crate::text::escaped;
use crate::text::escaped_char;
use crate::text::push_char;
use crate::text::quoted;
use crate::text::text_between;
use std::sync::Arc;
use vstd::prelude::*;
use vstd::string::*;

verus! {

/// Whether a character separates words.
pub open spec fn is_blank(c: char) -> bool {
    c == ' ' || c == '\t' || c == '\n' || c == '\r' || c == '\u{c}'
}

/// Whether a character ends a word.
pub open spec fn ends_word(c: char) -> bool {
    is_blank(c) || c == '(' || c == ')' || c == '"' || c == ';'
}

/// Whether a character separates words.
pub fn blank(c: char) -> (r: bool)
    ensures
        r == is_blank(c),
{
    c == ' ' || c == '\t' || c == '\n' || c == '\r' || c == '\u{c}'
}

/// The position after blanks and comments.
pub open spec fn after_blanks(s: Seq<char>, pos: int, in_comment: bool) -> int
    decreases s.len() - pos,
{
    if 0 <= pos < s.len() {
        if in_comment {
            after_blanks(s, pos + 1, s[pos] != '\n')
        } else if is_blank(s[pos]) {
            after_blanks(s, pos + 1, false)
        } else if s[pos] == ';' {
            after_blanks(s, pos + 1, true)
        } else {
            pos
        }
    } else {
        pos
    }
}

/// Skip blanks and comments.
pub fn skip_blanks(v: &Vec<char>, pos: usize) -> (r: usize)
    requires
        pos <= v@.len(),
    ensures
        r == after_blanks(v@, pos as int, false),
        pos <= r <= v@.len(),
{
    let mut p: usize = pos;
    let mut comment: bool = false;
    while p < v.len() && (comment || blank(v[p]) || v[p] == ';')
        invariant
            pos <= p <= v@.len(),
            after_blanks(v@, p as int, comment) == after_blanks(v@, pos as int, false),
        decreases v@.len() - p,
    {
        if comment {
            comment = v[p] != '\n';
        } else {
            comment = v[p] == ';';
        }
        p += 1;
    }
    p
}

/// The position after a word.
pub open spec fn after_word(s: Seq<char>, pos: int) -> int
    decreases s.len() - pos,
{
    if 0 <= pos < s.len() && !ends_word(s[pos]) {
        after_word(s, pos + 1)
    } else {
        pos
    }
}

/// Skip a word.
fn skip_word(v: &Vec<char>, pos: usize) -> (r: usize)
    requires
        pos <= v@.len(),
    ensures
        r == after_word(v@, pos as int),
        pos <= r <= v@.len(),
        pos < v@.len() && !ends_word(v@[pos as int]) ==> pos < r,
{
    let mut p: usize = pos;
    while p < v.len() && !(blank(v[p]) || v[p] == '(' || v[p] == ')' || v[p] == '"' || v[p] == ';')
        invariant
            pos <= p <= v@.len(),
            after_word(v@, p as int) == after_word(v@, pos as int),
        decreases v@.len() - p,
    {
        p += 1;
    }
    p
}

/// The character that a backslash and a character stand for in a string
/// literal.
pub open spec fn unescaped(c: char) -> char {
    if c == 'n' {
        '\n'
    } else if c == 't' {
        '\t'
    } else if c == 'r' {
        '\r'
    } else {
        c
    }
}

/// The content of a string literal from a position on, put behind what is
/// already read, and the position after the closing quote.
pub open spec fn literal_from(s: Seq<char>, pos: int, before: Seq<char>) -> Option<
    (Seq<char>, int),
>
    decreases s.len() - pos,
{
    if pos < 0 || pos >= s.len() {
        None
    } else if s[pos] == '"' {
        Some((before, pos + 1))
    } else if s[pos] == '\\' {
        if pos + 1 < s.len() {
            literal_from(s, pos + 2, before.push(unescaped(s[pos + 1])))
        } else {
            None
        }
    } else {
        literal_from(s, pos + 1, before.push(s[pos]))
    }
}

/// Read the content of a string literal.
fn read_literal(v: &Vec<char>, pos: usize) -> (r: Option<(String, usize)>)
    requires
        pos <= v@.len(),
    ensures
        (match r {
            Some((t, q)) => literal_from(v@, pos as int, Seq::empty()) == Some((t@, q as int))
                && pos < q <= v@.len(),
            None => literal_from(v@, pos as int, Seq::empty()) is None,
        }),
{
    let mut p: usize = pos;
    let mut out: String = String::new();
    assert(out@ =~= Seq::<char>::empty());
    while p < v.len()
        invariant
            pos <= p <= v@.len(),
            literal_from(v@, p as int, out@) == literal_from(v@, pos as int, Seq::empty()),
        decreases v@.len() - p,
    {
        let c: char = v[p];
        if c == '"' {
            return Some((out, p + 1));
        } else if c == '\\' {
            if p + 1 >= v.len() {
                return None;
            }
            let d: char = v[p + 1];
            if d == 'n' {
                push_char(&mut out, '\n');
            } else if d == 't' {
                push_char(&mut out, '\t');
            } else if d == 'r' {
                push_char(&mut out, '\r');
            } else {
                push_char(&mut out, d);
            }
            p += 2;
        } else {
            push_char(&mut out, c);
            p += 1;
        }
    }
    None
}

/// Whether a text is one or more decimal digits.
pub open spec fn all_digits(s: Seq<char>) -> bool {
    s.len() > 0 && forall|i: int| 0 <= i < s.len() ==> '0' <= #[trigger] s[i] <= '9'
}

/// A word without its minus sign.
pub open spec fn without_sign(s: Seq<char>) -> Seq<char> {
    if s.len() > 0 && s[0] == '-' {
        s.skip(1)
    } else {
        s
    }
}

/// Whether a word has the shape of an integer.
pub open spec fn is_integer_word(s: Seq<char>) -> bool {
    all_digits(without_sign(s))
}

/// Whether a text is digits, a point at a position, and digits.
pub open spec fn is_pointed(s: Seq<char>, k: int) -> bool {
    &&& 0 < k < s.len()
    &&& s[k] == '.'
    &&& all_digits(s.take(k))
    &&& all_digits(s.skip(k + 1))
}

/// Whether a word has the shape of a decimal number.
pub open spec fn is_decimal_word(s: Seq<char>) -> bool {
    exists|k: int| #[trigger] is_pointed(without_sign(s), k)
}

/// The expression that a word stands for.
pub open spec fn word_value(s: Seq<char>) -> ExprV {
    if is_integer_word(s) {
        match integer_value(s) {
            Some(n) => ExprV::Number(NumV::Int(n)),
            None => ExprV::Symbol(s),
        }
    } else if is_decimal_word(s) {
        match decimal_of(s) {
            Ok(d) => ExprV::Number(NumV::Dec(d.0, d.1)),
            Err(_) => ExprV::Symbol(s),
        }
    } else {
        ExprV::Symbol(s)
    }
}

/// Skip digits.
fn skip_digits(v: &Vec<char>, from: usize, to: usize) -> (r: usize)
    requires
        from <= to <= v@.len(),
    ensures
        from <= r <= to,
        forall|i: int| from <= i < r ==> '0' <= #[trigger] v@[i] <= '9',
        r < to ==> !('0' <= v@[r as int] <= '9'),
{
    let mut p: usize = from;
    while p < to && '0' <= v[p] && v[p] <= '9'
        invariant
            from <= p <= to <= v@.len(),
            forall|i: int| from <= i < p ==> '0' <= #[trigger] v@[i] <= '9',
        decreases to - p,
    {
        p += 1;
    }
    p
}

/// The shape of a word.
#[derive(Clone, Copy, PartialEq, Eq, Structural)]
enum Shape {
    Whole,
    Pointed,
    Name,
}

/// Find the shape of the word between two positions.
fn shape_of(v: &Vec<char>, from: usize, to: usize) -> (r: Shape)
    requires
        from <= to <= v@.len(),
    ensures
        (r == Shape::Whole) == is_integer_word(v@.subrange(from as int, to as int)),
        r != Shape::Whole ==> (r == Shape::Pointed) == is_decimal_word(
            v@.subrange(from as int, to as int),
        ),
{
    let ghost word = v@.subrange(from as int, to as int);
    let start: usize = if from < to && v[from] == '-' {
        from + 1
    } else {
        from
    };
    let ghost s = without_sign(word);
    assert(s =~= v@.subrange(start as int, to as int));
    let p = skip_digits(v, start, to);
    proof {
        assert forall|i: int| 0 <= i < p - start implies '0' <= #[trigger] s[i] <= '9' by {
            assert(s[i] == v@[start + i]);
        }
    }
    if p == to {
        return if start < to {
            Shape::Whole
        } else {
            proof {
                assert(s.len() == 0);
                assert(!is_decimal_word(word));
            }
            Shape::Name
        };
    }
    proof {
        assert(s[p - start] == v@[p as int]);
        assert(!all_digits(s));
    }
    if p == start || v[p] != '.' {
        proof {
            assert forall|k: int| !#[trigger] is_pointed(s, k) by {
                if is_pointed(s, k) {
                    if k > p - start {
                        assert(s.take(k)[p - start] == s[p - start]);
                    }
                }
            }
        }
        return Shape::Name;
    }
    let q = skip_digits(v, p + 1, to);
    if q == to && p + 1 < to {
        proof {
            assert(s.skip(p - start + 1) =~= v@.subrange(p + 1, to as int));
            assert forall|i: int| 0 <= i < s.skip(p - start + 1).len() implies '0'
                <= #[trigger] s.skip(p - start + 1)[i] <= '9' by {
                assert(s.skip(p - start + 1)[i] == v@[p + 1 + i]);
            }
            assert(is_pointed(s, p - start));
        }
        Shape::Pointed
    } else {
        proof {
            assert forall|k: int| !#[trigger] is_pointed(s, k) by {
                if is_pointed(s, k) {
                    if k > p - start {
                        assert(s.take(k)[p - start] == s[p - start]);
                    } else if k < p - start {
                        assert('0' <= s[k] <= '9');
                    } else if q < to {
                        assert(s.skip(k + 1)[q - p - 1] == v@[q as int]);
                    }
                }
            }
        }
        Shape::Name
    }
}

/// Read the word between two positions.
fn read_word(v: &Vec<char>, from: usize, to: usize) -> (r: Expr)
    requires
        from <= to <= v@.len(),
    ensures
        r@ == word_value(v@.subrange(from as int, to as int)),
{
    let word = text_between(v, from, to);
    match shape_of(v, from, to) {
        Shape::Whole => match Integer::read(word.as_str()) {
            Some(n) => Expr::Number(Numeric::Int(n)),
            None => Expr::Symbol(word),
        },
        Shape::Pointed => match Decimal::read(word.as_str()) {
            Ok(d) => Expr::Number(Numeric::Dec(d)),
            Err(_) => Expr::Symbol(word),
        },
        Shape::Name => Expr::Symbol(word),
    }
}

/// An expression and the position after it, or why there is none.
pub type ReadV = Result<(ExprV, int), Seq<char>>;

/// The expression at a position.
pub open spec fn expr_at(s: Seq<char>, pos: int) -> ReadV
    decreases s.len() - pos, 0int,
{
    if pos < 0 || pos >= s.len() {
        Err("unexpected end of input"@)
    } else if s[pos] == '(' {
        items_from(s, pos + 1, Seq::empty())
    } else if s[pos] == ')' {
        Err("unexpected ')'"@)
    } else if s[pos] == '"' {
        match literal_from(s, pos + 1, Seq::empty()) {
            Some(t) => Ok((ExprV::Str(t.0), t.1)),
            None => Err("unterminated string literal"@),
        }
    } else if ends_word(s[pos]) {
        Err("expected an expression"@)
    } else {
        let q = after_word(s, pos);
        Ok((word_value(s.subrange(pos, q)), q))
    }
}

/// The list whose items start at a position, put behind the items already
/// read.
pub open spec fn items_from(s: Seq<char>, pos: int, before: Seq<ExprV>) -> ReadV
    decreases s.len() - pos, 1int,
{
    let p = after_blanks(s, pos, false);
    if p < pos || p >= s.len() {
        Err("unclosed '('"@)
    } else if s[p] == ')' {
        Ok((ExprV::List(before), p + 1))
    } else {
        match expr_at(s, p) {
            Ok(e) => if p < e.1 <= s.len() {
                items_from(s, e.1, before.push(e.0))
            } else {
                Err("unclosed '('"@)
            },
            Err(t) => Err(t),
        }
    }
}

/// The result of reading, as a value.
pub open spec fn read_view(r: Result<(Expr, usize), String>) -> ReadV {
    match r {
        Ok(e) => Ok((e.0@, e.1 as int)),
        Err(t) => Err(t@),
    }
}

/// Read the expression at a position.
pub fn read_expr(v: &Vec<char>, pos: usize) -> (r: Result<(Expr, usize), String>)
    requires
        pos <= v@.len(),
    ensures
        read_view(r) == expr_at(v@, pos as int),
        r matches Ok(e) ==> pos < e.1 <= v@.len(),
    decreases v@.len() - pos, 0int,
{
    if pos >= v.len() {
        return Err("unexpected end of input".to_owned());
    }
    let c: char = v[pos];
    if c == '(' {
        parse_sexpr_body(v, pos + 1)
    } else if c == ')' {
        Err("unexpected ')'".to_owned())
    } else if c == '"' {
        match read_literal(v, pos + 1) {
            Some((t, q)) => Ok((Expr::Str(t), q)),
            None => Err("unterminated string literal".to_owned()),
        }
    } else if blank(c) || c == ';' {
        Err("expected an expression".to_owned())
    } else {
        let q = skip_word(v, pos);
        Ok((read_word(v, pos, q), q))
    }
}

/// Read the items of a list up to and with its closing parenthesis.
pub fn parse_sexpr_body(v: &Vec<char>, pos: usize) -> (r: Result<(Expr, usize), String>)
    requires
        pos <= v@.len(),
    ensures
        read_view(r) == items_from(v@, pos as int, Seq::empty()),
        r matches Ok(e) ==> pos < e.1 <= v@.len(),
    decreases v@.len() - pos, 1int,
{
    broadcast use group_exprs;

    let mut items: Vec<Expr> = Vec::new();
    let mut cur: usize = pos;
    assert(exprs(items@) =~= Seq::<ExprV>::empty());
    loop
        invariant
            pos <= cur <= v@.len(),
            items_from(v@, cur as int, exprs(items@)) == items_from(
                v@,
                pos as int,
                Seq::empty(),
            ),
        decreases v@.len() - cur,
    {
        let p = skip_blanks(v, cur);
        if p >= v.len() {
            return Err("unclosed '('".to_owned());
        }
        if v[p] == ')' {
            return Ok((Expr::List(Arc::new(items)), p + 1));
        }
        match read_expr(v, p) {
            Ok((e, q)) => {
                let ghost before = exprs(items@);
                items.push(e);
                assert(exprs(items@) =~= before.push(e@));
                cur = q;
            },
            Err(t) => {
                return Err(t);
            },
        }
    }
}

/// A top-level form.
pub enum TopForm {
    /// A fact or a definition.
    Definition(Expr),
    /// An expression to run, marked with `!`.
    Runnable(Expr),
}

/// The value of a top-level form.
pub enum TopFormV {
    /// A fact or a definition.
    Definition(ExprV),
    /// An expression to run.
    Runnable(ExprV),
}

impl View for TopForm {
    type V = TopFormV;

    open spec fn view(&self) -> TopFormV {
        match self {
            TopForm::Definition(e) => TopFormV::Definition(e@),
            TopForm::Runnable(e) => TopFormV::Runnable(e@),
        }
    }
}

/// The values of top-level forms.
pub open spec fn form_values(s: Seq<TopForm>) -> Seq<TopFormV> {
    Seq::new(s.len(), |i: int| s[i]@)
}

/// The forms from a position on, put behind those already read.
pub open spec fn forms_from(s: Seq<char>, pos: int, before: Seq<TopFormV>) -> Result<
    Seq<TopFormV>,
    Seq<char>,
>
    decreases s.len() - pos,
{
    let p = after_blanks(s, pos, false);
    if p < pos || p >= s.len() {
        Ok(before)
    } else {
        let bang = s[p] == '!';
        let start = if bang {
            after_blanks(s, p + 1, false)
        } else {
            p
        };
        match expr_at(s, start) {
            Ok(e) => if p < e.1 <= s.len() {
                forms_from(
                    s,
                    e.1,
                    before.push(
                        if bang {
                            TopFormV::Runnable(e.0)
                        } else {
                            TopFormV::Definition(e.0)
                        },
                    ),
                )
            } else {
                Ok(before)
            },
            Err(t) => Err(t),
        }
    }
}

/// Read all forms of a text.
pub fn parse_forms(text: &str) -> (r: Result<Vec<TopForm>, String>)
    ensures
        (match r {
            Ok(v) => forms_from(text@, 0, Seq::empty()) == Ok::<Seq<TopFormV>, Seq<char>>(
                form_values(v@),
            ),
            Err(t) => forms_from(text@, 0, Seq::empty()) == Err::<Seq<TopFormV>, Seq<char>>(t@),
        }),
{
    let v = chars_of(text);
    let mut out: Vec<TopForm> = Vec::new();
    let mut cur: usize = 0;
    assert(form_values(out@) =~= Seq::<TopFormV>::empty());
    loop
        invariant
            v@ == text@,
            cur <= v@.len(),
            forms_from(v@, cur as int, form_values(out@)) == forms_from(text@, 0, Seq::empty()),
        decreases v@.len() - cur,
    {
        let p = skip_blanks(&v, cur);
        if p >= v.len() {
            return Ok(out);
        }
        let bang: bool = v[p] == '!';
        let start: usize = if bang {
            skip_blanks(&v, p + 1)
        } else {
            p
        };
        match read_expr(&v, start) {
            Ok((e, q)) => {
                let ghost before = form_values(out@);
                let form = if bang {
                    TopForm::Runnable(e)
                } else {
                    TopForm::Definition(e)
                };
                out.push(form);
                assert(form_values(out@) =~= before.push(form@));
                cur = q;
            },
            Err(t) => {
                return Err(t);
            },
        }
    }
}

/// The value that a text starts with.
pub open spec fn atom_in(s: Seq<char>) -> Result<AtomReadV, Seq<char>> {
    match expr_at(s, after_blanks(s, 0, false)) {
        Ok(e) => Ok((to_atom(e.0), e.1)),
        Err(t) => Err(t),
    }
}

/// A value and the position after it.
pub type AtomReadV = (crate::atom::AtomV, int);

/// Read the value that a text starts with.
pub fn parse_atom_bytes(text: &str) -> (r: Result<(Atom, usize), String>)
    ensures
        (match r {
            Ok(a) => atom_in(text@) == Ok::<AtomReadV, Seq<char>>((a.0@, a.1 as int)),
            Err(t) => atom_in(text@) == Err::<AtomReadV, Seq<char>>(t@),
        }),
{
    let v = chars_of(text);
    let p = skip_blanks(&v, 0);
    match read_expr(&v, p) {
        Ok((e, q)) => Ok((expr_to_atom(&e), q)),
        Err(t) => Err(t),
    }
}

/// What a literal's escaped content reads as.
pub proof fn lemma_literal_content(s: Seq<char>, pos: int, t: Seq<char>, before: Seq<char>)
    requires
        0 <= pos,
        pos + escaped(t).len() < s.len(),
        s.subrange(pos, pos + escaped(t).len()) == escaped(t),
        s[pos + escaped(t).len()] == '"',
    ensures
        literal_from(s, pos, before) == Some((before + t, pos + escaped(t).len() + 1)),
    decreases t.len(),
{
    if t.len() == 0 {
        assert(before + t =~= before);
    } else {
        lemma_escaped_front(t);
        let rest = t.skip(1);
        let n = escaped_char(t[0]).len() as int;
        let e = escaped(t);
        assert(e == escaped_char(t[0]) + escaped(rest));
        assert(s[pos] == s.subrange(pos, pos + e.len())[0]);
        assert(s[pos] == e[0]);
        if n == 2 {
            assert(s[pos + 1] == s.subrange(pos, pos + e.len())[1]);
            assert(s[pos + 1] == e[1]);
        }
        assert(s.subrange(pos + n, pos + n + escaped(rest).len()) =~= escaped(rest)) by {
            assert forall|i: int| 0 <= i < escaped(rest).len() implies #[trigger] s.subrange(
                pos + n,
                pos + n + escaped(rest).len(),
            )[i] == escaped(rest)[i] by {
                assert(s.subrange(pos, pos + e.len())[n + i] == e[n + i]);
            }
        }
        lemma_literal_content(s, pos + n, rest, before.push(t[0]));
        assert(before.push(t[0]) + rest =~= before + t);
    }
}

/// The first character's escaped form comes first.
proof fn lemma_escaped_front(t: Seq<char>)
    requires
        t.len() > 0,
    ensures
        escaped(t) == escaped_char(t[0]) + escaped(t.skip(1)),
    decreases t.len(),
{
    if t.len() == 1 {
        assert(t.drop_last() =~= Seq::<char>::empty());
        assert(t.skip(1) =~= Seq::<char>::empty());
        assert(escaped(t) =~= escaped_char(t[0]) + escaped(t.skip(1)));
    } else {
        lemma_escaped_front(t.drop_last());
        assert(t.drop_last().skip(1) =~= t.skip(1).drop_last());
        assert(escaped(t) =~= escaped_char(t[0]) + escaped(t.skip(1)));
    }
}

/// Reading a written string literal gives the text back.
pub proof fn literal_round_trip(t: Seq<char>)
    ensures
        expr_at(quoted(t), 0) == Ok::<(ExprV, int), Seq<char>>(
            (ExprV::Str(t), quoted(t).len() as int),
        ),
{
    let s = quoted(t);
    assert(s[0] == '"');
    assert(s.subrange(1, 1 + escaped(t).len() as int) =~= escaped(t));
    lemma_literal_content(s, 1, t, Seq::empty());
    assert(Seq::<char>::empty() + t =~= t);
}

} // verus!
