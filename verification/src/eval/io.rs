//! File forms and input for the evaluator.
//!
//! A file is scanned for its top-level forms on bytes alone. Data forms are
//! parsed and inserted together; definitions and expressions to run follow one
//! by one, in order.
use crate::atom::Atom;
use crate::atom::AtomV;
use crate::atom::atoms;
use crate::atom::group_atoms;
use crate::builtins::loops::first_of;
use crate::compile::definitions::Definition;
use crate::compile::reify::expr_to_atom;
use crate::compile::reify::to_atom;
use crate::env::pending;
use crate::eval::machine::apply::wrapped;
use crate::eval::machine::frame::optional_expr;
use crate::eval::shared::pattern::optional_atom;
use crate::expr::Expr;
use crate::expr::ExprV;
use crate::expr::exprs;
use crate::expr::group_exprs;
use crate::func::FnTable;
use crate::func::TableV;
use crate::parser::TopForm;
use crate::parser::TopFormV;
use crate::parser::atom_in;
use crate::parser::form_values;
use crate::parser::forms_from;
use crate::parser::parse_atom_bytes;
use crate::parser::parse_forms;
use crate::space::add_atom;
use crate::space::add_atoms_bulk;
use crate::space::space_name;
use crate::space::with_atom;
use crate::space::with_atoms;
use crate::text::joined3;
use crate::text::joined;
use crate::text::nat_digits;
use crate::text::text_between;
use crate::text::usize_text;
use vstd::prelude::*;
use vstd::slice::slice_subrange;
use vstd::string::*;
use vstd::utf8::decode_utf8;
use vstd::utf8::valid_utf8;

verus! {

/// Whether a byte is ASCII white space.
pub open spec fn is_ascii_space(b: u8) -> bool {
    b == 0x20 || b == 0x09 || b == 0x0a || b == 0x0c || b == 0x0d
}

/// Test whether a byte is ASCII white space.
fn ascii_space(b: u8) -> (r: bool)
    ensures
        r == is_ascii_space(b),
{
    b == 0x20 || b == 0x09 || b == 0x0a || b == 0x0c || b == 0x0d
}

/// The position and the line after white space and comments.
pub open spec fn after_space(b: Seq<u8>, pos: int, line: int, comment: bool) -> (int, int)
    decreases b.len() - pos,
{
    if pos < 0 || pos >= b.len() {
        (pos, line)
    } else if b[pos] == 0x0a {
        after_space(b, pos + 1, line + 1, false)
    } else if comment {
        after_space(b, pos + 1, line, true)
    } else if is_ascii_space(b[pos]) {
        after_space(b, pos + 1, line, false)
    } else if b[pos] == 0x3b {
        after_space(b, pos + 1, line, true)
    } else {
        (pos, line)
    }
}

/// Skip ASCII white space and line comments, tracking line numbers.
pub fn skip_file_ws(bytes: &[u8], pos: usize, line: usize) -> (r: (usize, usize))
    requires
        bytes@.len() < usize::MAX,
        pos <= bytes@.len(),
        line <= pos + 1,
    ensures
        (r.0 as int, r.1 as int) == after_space(bytes@, pos as int, line as int, false),
        pos <= r.0 <= bytes@.len(),
        r.1 <= r.0 + 1,
{
    let n: usize = bytes.len();
    let mut p: usize = pos;
    let mut l: usize = line;
    let mut comment: bool = false;
    while p < n
        invariant
            n == bytes@.len(),
            n < usize::MAX,
            pos <= p <= n,
            l <= p + 1,
            after_space(bytes@, p as int, l as int, comment) == after_space(
                bytes@,
                pos as int,
                line as int,
                false,
            ),
        decreases n - p,
    {
        let b: u8 = bytes[p];
        if b == 0x0a {
            l = l + 1;
            comment = false;
        } else if comment {
        } else if ascii_space(b) {
        } else if b == 0x3b {
            comment = true;
        } else {
            return (p, l);
        }
        p = p + 1;
    }
    (p, l)
}

/// What is scanned within a form.
pub enum ScanMode {
    /// Code.
    Code,
    /// A line comment.
    Comment,
    /// A string literal.
    Literal,
}

/// The position and the line after the parenthesis that closes a form.
pub open spec fn form_end(b: Seq<u8>, pos: int, line: int, depth: int, mode: ScanMode) -> Option<
    (int, int),
>
    decreases b.len() + 1 - pos,
{
    if pos < 0 || pos >= b.len() {
        None
    } else {
        let c = b[pos];
        match mode {
            ScanMode::Comment => if c == 0x0a {
                form_end(b, pos + 1, line + 1, depth, ScanMode::Code)
            } else {
                form_end(b, pos + 1, line, depth, ScanMode::Comment)
            },
            ScanMode::Literal => if c == 0x5c {
                form_end(b, pos + 2, line, depth, ScanMode::Literal)
            } else if c == 0x22 {
                form_end(b, pos + 1, line, depth, ScanMode::Code)
            } else if c == 0x0a {
                form_end(b, pos + 1, line + 1, depth, ScanMode::Literal)
            } else {
                form_end(b, pos + 1, line, depth, ScanMode::Literal)
            },
            ScanMode::Code => if c == 0x0a {
                form_end(b, pos + 1, line + 1, depth, ScanMode::Code)
            } else if c == 0x3b {
                form_end(b, pos + 1, line, depth, ScanMode::Comment)
            } else if c == 0x22 {
                form_end(b, pos + 1, line, depth, ScanMode::Literal)
            } else if c == 0x28 {
                form_end(b, pos + 1, line, depth + 1, ScanMode::Code)
            } else if c == 0x29 {
                if depth == 1 {
                    Some((pos + 1, line))
                } else {
                    form_end(b, pos + 1, line, depth - 1, ScanMode::Code)
                }
            } else {
                form_end(b, pos + 1, line, depth, ScanMode::Code)
            },
        }
    }
}

/// Find the end of the form that opens at a position.
fn find_form_end(bytes: &[u8], pos: usize, line: usize) -> (r: Option<(usize, usize)>)
    requires
        bytes@.len() < usize::MAX,
        pos < bytes@.len(),
        bytes@[pos as int] == 0x28,
        line <= pos + 1,
    ensures
        (match r {
            Some((p, l)) => form_end(bytes@, pos as int, line as int, 0, ScanMode::Code) == Some(
                (p as int, l as int),
            ) && pos < p <= bytes@.len() && l <= p + 1,
            None => form_end(bytes@, pos as int, line as int, 0, ScanMode::Code) is None,
        }),
{
    let n: usize = bytes.len();
    let ghost want = form_end(bytes@, pos as int, line as int, 0, ScanMode::Code);
    let mut p: usize = pos + 1;
    let mut l: usize = line;
    let mut depth: usize = 1;
    let mut mode = ScanMode::Code;
    while p < n
        invariant
            n == bytes@.len(),
            n < usize::MAX,
            pos < p <= n + 1,
            l <= p + 1,
            1 <= depth <= p - pos,
            want == form_end(bytes@, pos as int, line as int, 0, ScanMode::Code),
            want == form_end(bytes@, p as int, l as int, depth as int, mode),
        decreases n + 1 - p,
    {
        let c: u8 = bytes[p];
        match mode {
            ScanMode::Comment => {
                if c == 0x0a {
                    l = l + 1;
                    mode = ScanMode::Code;
                } else {
                    mode = ScanMode::Comment;
                }
                p = p + 1;
            },
            ScanMode::Literal => {
                if c == 0x5c {
                    mode = ScanMode::Literal;
                    p = p + 2;
                } else {
                    if c == 0x22 {
                        mode = ScanMode::Code;
                    } else if c == 0x0a {
                        l = l + 1;
                        mode = ScanMode::Literal;
                    } else {
                        mode = ScanMode::Literal;
                    }
                    p = p + 1;
                }
            },
            ScanMode::Code => {
                mode = ScanMode::Code;
                if c == 0x0a {
                    l = l + 1;
                } else if c == 0x3b {
                    mode = ScanMode::Comment;
                } else if c == 0x22 {
                    mode = ScanMode::Literal;
                } else if c == 0x28 {
                    depth = depth + 1;
                } else if c == 0x29 {
                    if depth == 1 {
                        return Some((p + 1, l));
                    }
                    depth = depth - 1;
                }
                p = p + 1;
            },
        }
    }
    None
}

/// A top-level form of a file.
#[derive(Clone, Copy)]
pub struct FormSpan {
    /// The position of its opening parenthesis.
    pub start: usize,
    /// The position after its closing parenthesis.
    pub end: usize,
    /// Whether it is marked to be run.
    pub is_bang: bool,
    /// The line on which it opens.
    pub start_line: usize,
}

/// The complaint about a form that does not open with a parenthesis.
pub open spec fn expected_open(path: Seq<char>, line: int, found: u8) -> Seq<char> {
    "expected '(' in '"@ + path + "' at line "@ + nat_digits(line as nat) + ", found '"@
        + latin_text(found) + "'"@
}

/// The text of a byte that is read as a character.
pub open spec fn latin_text(b: u8) -> Seq<char> {
    seq![b as char]
}

/// The complaint about a form that is not closed.
pub open spec fn unclosed(path: Seq<char>, line: int) -> Seq<char> {
    "unclosed '(' in '"@ + path + "' at line "@ + nat_digits(line as nat)
}

/// The top-level forms of a file from a position on, behind those before it.
pub open spec fn forms_in(
    b: Seq<u8>,
    pos: int,
    line: int,
    before: Seq<FormSpan>,
    path: Seq<char>,
) -> Result<Seq<FormSpan>, Seq<char>>
    decreases b.len() - pos,
{
    let (p, l) = after_space(b, pos, line, false);
    if p < 0 || p >= b.len() {
        Ok(before)
    } else {
        let bang = b[p] == 0x21;
        let (q, m) = if bang {
            after_space(b, p + 1, l, false)
        } else {
            (p, l)
        };
        if q < 0 || q >= b.len() {
            Ok(before)
        } else if b[q] != 0x28 {
            Err(expected_open(path, m, b[q]))
        } else {
            match form_end(b, q, m, 0, ScanMode::Code) {
                None => Err(unclosed(path, m)),
                Some((e, k)) => if e <= pos || e > b.len() {
                    Err(unclosed(path, m))
                } else {
                    forms_in(
                        b,
                        e,
                        k,
                        before.push(
                            FormSpan {
                                start: q as usize,
                                end: e as usize,
                                is_bang: bang,
                                start_line: m as usize,
                            },
                        ),
                        path,
                    )
                },
            }
        }
    }
}

/// Make the text of a byte that is read as a character.
fn make_latin(b: u8) -> (r: String)
    ensures
        r@ == latin_text(b),
{
    let mut v: Vec<char> = Vec::new();
    v.push(b as char);
    let s = text_between(&v, 0, 1);
    assert(s@ =~= latin_text(b));
    s
}

/// Say that a form does not open with a parenthesis.
fn say_expected(path: &str, line: usize, found: u8) -> (r: String)
    ensures
        r@ == expected_open(path@, line as int, found),
{
    let mut m: String = joined3("expected '(' in '", path, "' at line ");
    let d = usize_text(line);
    m.append(d.as_str());
    m.append(", found '");
    let c = make_latin(found);
    m.append(c.as_str());
    m.append("'");
    m
}

/// Say that a form is not closed.
fn say_unclosed(path: &str, line: usize) -> (r: String)
    ensures
        r@ == unclosed(path@, line as int),
{
    let mut m: String = joined3("unclosed '(' in '", path, "' at line ");
    let d = usize_text(line);
    m.append(d.as_str());
    m
}

/// Whether spans lie within a text.
pub open spec fn spans_fit(spans: Seq<FormSpan>, n: int) -> bool {
    forall|i: int| 0 <= i < spans.len() ==> (#[trigger] spans[i]).start < spans[i].end <= n
}

/// Scan a file for its top-level forms.
pub fn scan_forms(bytes: &[u8], path: &str) -> (r: Result<Vec<FormSpan>, String>)
    requires
        bytes@.len() < usize::MAX,
    ensures
        (match r {
            Ok(v) => forms_in(bytes@, 0, 1, Seq::empty(), path@) == Ok::<
                Seq<FormSpan>,
                Seq<char>,
            >(v@) && spans_fit(v@, bytes@.len() as int),
            Err(m) => forms_in(bytes@, 0, 1, Seq::empty(), path@) == Err::<
                Seq<FormSpan>,
                Seq<char>,
            >(m@),
        }),
{
    let n: usize = bytes.len();
    let ghost want = forms_in(bytes@, 0, 1, Seq::empty(), path@);
    let mut spans: Vec<FormSpan> = Vec::new();
    let mut pos: usize = 0;
    let mut line: usize = 1;
    assert(spans@ =~= Seq::<FormSpan>::empty());
    loop
        invariant
            n == bytes@.len(),
            n < usize::MAX,
            pos <= n,
            line <= pos + 1,
            spans_fit(spans@, n as int),
            want == forms_in(bytes@, 0, 1, Seq::empty(), path@),
            want == forms_in(bytes@, pos as int, line as int, spans@, path@),
        decreases n - pos,
    {
        let (p, l) = skip_file_ws(bytes, pos, line);
        if p >= n {
            return Ok(spans);
        }
        let bang: bool = bytes[p] == 0x21;
        let (q, m) = if bang {
            skip_file_ws(bytes, p + 1, l)
        } else {
            (p, l)
        };
        if q >= n {
            return Ok(spans);
        }
        if bytes[q] != 0x28 {
            return Err(say_expected(path, m, bytes[q]));
        }
        match find_form_end(bytes, q, m) {
            None => {
                return Err(say_unclosed(path, m));
            },
            Some((e, k)) => {
                spans.push(FormSpan { start: q, end: e, is_bang: bang, start_line: m });
                pos = e;
                line = k;
            },
        }
    }
}

/// The position of the first byte that is not white space.
pub open spec fn first_token(b: Seq<u8>, i: int) -> int
    decreases b.len() - i,
{
    if i < 0 || i >= b.len() || !is_ascii_space(b[i]) {
        i
    } else {
        first_token(b, i + 1)
    }
}

/// Whether the form that opens at a position is a data fact: its first token is
/// not a standalone `=`.
pub open spec fn is_data(b: Seq<u8>, pos: int) -> bool {
    let i = first_token(b, pos + 1);
    if i >= b.len() || b[i] != 0x3d {
        true
    } else if i + 1 >= b.len() {
        false
    } else {
        !(is_ascii_space(b[i + 1]) || b[i + 1] == 0x28 || b[i + 1] == 0x29)
    }
}

/// Test whether the form that opens at a position is a data fact.
pub fn is_data_form(bytes: &[u8], pos: usize) -> (r: bool)
    requires
        pos < bytes@.len(),
    ensures
        r == is_data(bytes@, pos as int),
{
    let n: usize = bytes.len();
    let mut i: usize = pos + 1;
    while i < n && ascii_space(bytes[i])
        invariant
            n == bytes@.len(),
            pos < i <= n,
            first_token(bytes@, i as int) == first_token(bytes@, pos + 1),
        decreases n - i,
    {
        i = i + 1;
    }
    if i >= n {
        return true;
    }
    if bytes[i] != 0x3d {
        return true;
    }
    if i + 1 >= n {
        return false;
    }
    let b: u8 = bytes[i + 1];
    !(ascii_space(b) || b == 0x28 || b == 0x29)
}

/// Whether a form is parsed and inserted together with others.
pub open spec fn is_bulk(b: Seq<u8>, s: FormSpan) -> bool {
    !s.is_bang && is_data(b, s.start as int)
}

/// The forms that are, or are not, inserted together.
pub open spec fn picked(b: Seq<u8>, spans: Seq<FormSpan>, bulk: bool) -> Seq<FormSpan>
    decreases spans.len(),
{
    if spans.len() == 0 {
        Seq::empty()
    } else {
        let before = picked(b, spans.drop_last(), bulk);
        if is_bulk(b, spans.last()) == bulk {
            before.push(spans.last())
        } else {
            before
        }
    }
}

/// Pick the forms that are, or are not, inserted together.
pub fn pick_forms(bytes: &[u8], spans: &Vec<FormSpan>, bulk: bool) -> (r: Vec<FormSpan>)
    requires
        spans_fit(spans@, bytes@.len() as int),
    ensures
        r@ == picked(bytes@, spans@, bulk),
        spans_fit(r@, bytes@.len() as int),
{
    let mut out: Vec<FormSpan> = Vec::new();
    let mut i: usize = 0;
    assert(spans@.take(0) =~= Seq::<FormSpan>::empty());
    assert(out@ =~= Seq::<FormSpan>::empty());
    while i < spans.len()
        invariant
            i <= spans@.len(),
            spans_fit(spans@, bytes@.len() as int),
            spans_fit(out@, bytes@.len() as int),
            out@ == picked(bytes@, spans@.take(i as int), bulk),
        decreases spans@.len() - i,
    {
        assert(spans@.take(i + 1).drop_last() =~= spans@.take(i as int));
        let s: FormSpan = spans[i];
        let one: bool = !s.is_bang && is_data_form(bytes, s.start);
        if one == bulk {
            out.push(s);
        }
        i += 1;
    }
    assert(spans@.take(spans@.len() as int) =~= spans@);
    out
}

/// What `std::str::from_utf8` says of bytes that are not UTF-8.
pub uninterp spec fn utf8_complaint(bytes: Seq<u8>) -> Seq<char>;

/// Decode bytes with `std::str::from_utf8`.
///
/// Bytes that are UTF-8 give the characters they encode, and only those. For
/// other bytes the text of the error is named, not described.
#[verifier::external_body]
fn utf8_text(bytes: &[u8]) -> (r: Result<String, String>)
    ensures
        r is Ok <==> valid_utf8(bytes@),
        r is Ok ==> r->Ok_0@ == decode_utf8(bytes@),
        r is Err ==> r->Err_0@ == utf8_complaint(bytes@),
{
    match std::str::from_utf8(bytes) {
        Ok(s) => Ok(s.to_owned()),
        Err(e) => Err(e.to_string()),
    }
}

/// The text of bytes, or what is wrong with them.
pub open spec fn decoded(b: Seq<u8>) -> Result<Seq<char>, Seq<char>> {
    if valid_utf8(b) {
        Ok(decode_utf8(b))
    } else {
        Err(utf8_complaint(b))
    }
}

/// The text of a form.
pub open spec fn form_text(b: Seq<u8>, s: FormSpan) -> Result<Seq<char>, Seq<char>> {
    decoded(b.subrange(s.start as int, s.end as int))
}

/// Decode a form.
fn decode_form(bytes: &[u8], s: FormSpan) -> (r: Result<String, String>)
    requires
        s.start < s.end <= bytes@.len(),
    ensures
        (match r {
            Ok(t) => form_text(bytes@, s) == Ok::<Seq<char>, Seq<char>>(t@),
            Err(m) => form_text(bytes@, s) == Err::<Seq<char>, Seq<char>>(m@),
        }),
{
    utf8_text(slice_subrange(bytes, s.start, s.end))
}

/// The value of a data form.
pub open spec fn data_value(b: Seq<u8>, s: FormSpan) -> Result<AtomV, Seq<char>> {
    match form_text(b, s) {
        Err(m) => Err(m),
        Ok(t) => data_read(t),
    }
}

/// The value that the text of a data form starts with.
pub open spec fn data_read(t: Seq<char>) -> Result<AtomV, Seq<char>> {
    match atom_in(t) {
        Ok(p) => Ok(p.0),
        Err(m) => Err(m),
    }
}

/// Read the value that the text of a data form starts with.
pub fn read_data(text: &str) -> (r: Result<Atom, String>)
    ensures
        (match r {
            Ok(a) => data_read(text@) == Ok::<AtomV, Seq<char>>(a@),
            Err(m) => data_read(text@) == Err::<AtomV, Seq<char>>(m@),
        }),
{
    match parse_atom_bytes(text) {
        Ok((a, _)) => Ok(a),
        Err(m) => Err(m),
    }
}

/// Parse a data form.
pub fn parse_data(bytes: &[u8], s: FormSpan) -> (r: Result<Atom, String>)
    requires
        s.start < s.end <= bytes@.len(),
    ensures
        (match r {
            Ok(a) => data_value(bytes@, s) == Ok::<AtomV, Seq<char>>(a@),
            Err(m) => data_value(bytes@, s) == Err::<AtomV, Seq<char>>(m@),
        }),
{
    match decode_form(bytes, s) {
        Err(m) => Err(m),
        Ok(t) => read_data(t.as_str()),
    }
}

/// A complaint with the place it is about.
pub open spec fn located(m: Seq<char>, path: Seq<char>, line: int) -> Seq<char> {
    m + " (in '"@ + path + "' near line "@ + nat_digits(line as nat) + ")"@
}

/// Say what a complaint is about.
pub fn locate(m: &str, path: &str, line: usize) -> (r: String)
    ensures
        r@ == located(m@, path@, line as int),
{
    let mut s: String = joined3(m, " (in '", path);
    s.append("' near line ");
    let d = usize_text(line);
    s.append(d.as_str());
    s.append(")");
    s
}

/// The values of data forms, or the first complaint.
pub open spec fn data_values(b: Seq<u8>, spans: Seq<FormSpan>, path: Seq<char>) -> Result<
    Seq<AtomV>,
    Seq<char>,
>
    decreases spans.len(),
{
    if spans.len() == 0 {
        Ok(Seq::empty())
    } else {
        match data_values(b, spans.drop_last(), path) {
            Err(m) => Err(m),
            Ok(vs) => match data_value(b, spans.last()) {
                Err(m) => Err(located(m, path, spans.last().start_line as int)),
                Ok(a) => Ok(vs.push(a)),
            },
        }
    }
}

/// A complaint about an initial part is a complaint about the whole.
proof fn lemma_data_stops(b: Seq<u8>, spans: Seq<FormSpan>, path: Seq<char>, n: int)
    requires
        0 <= n <= spans.len(),
        data_values(b, spans.take(n), path) is Err,
    ensures
        data_values(b, spans, path) == data_values(b, spans.take(n), path),
    decreases spans.len() - n,
{
    if n == spans.len() {
        assert(spans.take(n) =~= spans);
    } else {
        assert(spans.take(n + 1).drop_last() =~= spans.take(n));
        lemma_data_stops(b, spans, path, n + 1);
    }
}

/// Parse data forms.
pub fn parse_data_forms(bytes: &[u8], spans: &Vec<FormSpan>, path: &str) -> (r: Result<
    Vec<Atom>,
    String,
>)
    requires
        spans_fit(spans@, bytes@.len() as int),
    ensures
        (match r {
            Ok(v) => data_values(bytes@, spans@, path@) == Ok::<Seq<AtomV>, Seq<char>>(atoms(v@)),
            Err(m) => data_values(bytes@, spans@, path@) == Err::<Seq<AtomV>, Seq<char>>(m@),
        }),
{
    broadcast use group_atoms;

    let mut out: Vec<Atom> = Vec::new();
    let mut i: usize = 0;
    assert(spans@.take(0) =~= Seq::<FormSpan>::empty());
    assert(atoms(out@) =~= Seq::<AtomV>::empty());
    while i < spans.len()
        invariant
            i <= spans@.len(),
            spans_fit(spans@, bytes@.len() as int),
            data_values(bytes@, spans@.take(i as int), path@) == Ok::<Seq<AtomV>, Seq<char>>(
                atoms(out@),
            ),
        decreases spans@.len() - i,
    {
        assert(spans@.take(i + 1).drop_last() =~= spans@.take(i as int));
        let s: FormSpan = spans[i];
        match parse_data(bytes, s) {
            Err(m) => {
                proof {
                    lemma_data_stops(bytes@, spans@, path@, i + 1);
                }
                return Err(locate(m.as_str(), path, s.start_line));
            },
            Ok(a) => {
                let ghost before = out@;
                out.push(a);
                assert(atoms(out@) =~= atoms(before).push(a@));
            },
        }
        i += 1;
    }
    assert(spans@.take(spans@.len() as int) =~= spans@);
    Ok(out)
}

/// Inserting data forms into a space.
pub open spec fn with_data(t: TableV, space: AtomV, vs: Seq<AtomV>) -> Result<TableV, Seq<char>> {
    if vs.len() == 0 {
        Ok(t)
    } else {
        match space_name(space) {
            Ok(name) => Ok(with_atoms(t, name, vs)),
            Err(m) => Err(m),
        }
    }
}

/// Insert data forms into a space.
pub fn insert_data(table: &mut FnTable, space: &Atom, list: &Vec<Atom>) -> (r: Result<(), String>)
    ensures
        (match with_data(old(table)@, space@, atoms(list@)) {
            Ok(t) => r is Ok && final(table)@ == t,
            Err(m) => r is Err && r->Err_0@ == m && final(table)@ == old(table)@,
        }),
{
    assert(atoms(list@).len() == list@.len());
    if list.len() == 0 {
        return Ok(());
    }
    add_atoms_bulk(table, space, list)
}

/// The text that a form to process is parsed from.
pub open spec fn form_source(form: Seq<char>, bang: bool) -> Seq<char> {
    if bang {
        "!"@ + form
    } else {
        form
    }
}

/// Parse a form to process.
pub fn parse_form(form: &str, is_runnable: bool) -> (r: Result<Vec<TopForm>, String>)
    ensures
        (match r {
            Ok(v) => forms_from(form_source(form@, is_runnable), 0, Seq::empty()) == Ok::<
                Seq<TopFormV>,
                Seq<char>,
            >(form_values(v@)),
            Err(m) => forms_from(form_source(form@, is_runnable), 0, Seq::empty()) == Err::<
                Seq<TopFormV>,
                Seq<char>,
            >(m@),
        }),
{
    if is_runnable {
        let s = joined("!", form);
        parse_forms(s.as_str())
    } else {
        parse_forms(form)
    }
}

/// Storing a top-level form, or the expression to run.
pub open spec fn form_stored(f: TopFormV, space: AtomV, t: TableV) -> (
    Result<Option<ExprV>, Seq<char>>,
    TableV,
) {
    match f {
        TopFormV::Definition(e) => match space_name(space) {
            Ok(name) => (Ok(None), with_atom(t, name, to_atom(e))),
            Err(m) => (Err(m), t),
        },
        TopFormV::Runnable(e) => (Ok(Some(e)), t),
    }
}

/// Process a single top-level form: store and compile definitions, hand out
/// expressions to run.
pub fn process_top_form(form: TopForm, space: &Atom, table: &mut FnTable) -> (r: Result<
    Option<Expr>,
    String,
>)
    ensures
        ({
            let (want, t) = form_stored(form@, space@, old(table)@);
            final(table)@ == t && match r {
                Ok(x) => want == Ok::<Option<ExprV>, Seq<char>>(optional_expr(x)),
                Err(m) => want == Err::<Option<ExprV>, Seq<char>>(m@),
            }
        }),
{
    match form {
        TopForm::Definition(e) => {
            let a = expr_to_atom(&e);
            match add_atom(table, space, &a) {
                Ok(()) => Ok(None),
                Err(m) => Err(m),
            }
        },
        TopForm::Runnable(e) => Ok(Some(e)),
    }
}

/// A value that was typed in: one item stands for itself, several are a list.
pub open spec fn typed_value(input: Seq<char>) -> Result<AtomV, Seq<char>> {
    match forms_from("("@ + input + ")"@, 0, Seq::empty()) {
        Err(m) => Err("readln!: Parse error: "@ + m),
        Ok(forms) => if forms.len() > 0 && forms[0] is Definition
            && forms[0]->Definition_0 is List {
            let items = forms[0]->Definition_0->List_0;
            Ok(
                if items.len() == 1 {
                    to_atom(items[0])
                } else {
                    AtomV::Expr(Seq::new(items.len(), |i: int| to_atom(items[i])))
                },
            )
        } else {
            Err("readln!: Could not parse input"@)
        },
    }
}

/// Read a line that was typed in.
pub fn eval_readln(input: &str) -> (r: Result<Atom, String>)
    ensures
        (match r {
            Ok(a) => typed_value(input@) == Ok::<AtomV, Seq<char>>(a@),
            Err(m) => typed_value(input@) == Err::<AtomV, Seq<char>>(m@),
        }),
{
    broadcast use {group_exprs, group_atoms};

    let wrapped = joined3("(", input, ")");
    match parse_forms(wrapped.as_str()) {
        Err(m) => Err(joined("readln!: Parse error: ", m.as_str())),
        Ok(forms) => {
            let ghost fv = form_values(forms@);
            assert(fv.len() == forms@.len());
            if forms.len() > 0 {
                assert(fv[0] == forms@[0]@);
                match &forms[0] {
                    TopForm::Definition(e) => match e {
                        Expr::List(items) => {
                            assert(exprs(items@).len() == items@.len());
                            if items.len() == 1 {
                                assert(exprs(items@)[0] == items@[0]@);
                                return Ok(expr_to_atom(&items[0]));
                            }
                            let ghost iv = exprs(items@);
                            let ghost want = Seq::new(iv.len(), |i: int| to_atom(iv[i]));
                            let mut out: Vec<Atom> = Vec::new();
                            let mut i: usize = 0;
                            assert(atoms(out@) =~= want.take(0));
                            while i < items.len()
                                invariant
                                    i <= items@.len(),
                                    iv == exprs(items@),
                                    iv.len() == items@.len(),
                                    want == Seq::new(iv.len(), |i: int| to_atom(iv[i])),
                                    atoms(out@) == want.take(i as int),
                                decreases items@.len() - i,
                            {
                                assert(iv[i as int] == items@[i as int]@);
                                let ghost before = out@;
                                let a = expr_to_atom(&items[i]);
                                out.push(a);
                                assert(atoms(out@) =~= atoms(before).push(a@));
                                assert(want.take(i + 1) =~= want.take(i as int).push(
                                    want[i as int],
                                ));
                                i += 1;
                            }
                            assert(want.take(items@.len() as int) =~= want);
                            return Ok(Atom::expr(out));
                        },
                        _ => {},
                    },
                    _ => {},
                }
            }
            Err("readln!: Could not parse input".to_owned())
        },
    }
}

/// The complaint about a file that is not found.
pub open spec fn import_missing(path: Seq<char>, dir: Seq<char>) -> Seq<char> {
    "import!: cannot find '"@ + path + "' (searched CWD and '"@ + dir + "')"@
}

/// Say that a file is not found.
pub fn missing_import(path: &str, dir: &str) -> (r: String)
    ensures
        r@ == import_missing(path@, dir@),
{
    let mut s: String = joined3("import!: cannot find '", path, "' (searched CWD and '");
    s.append(dir);
    s.append("')");
    s
}

/// The complaint about a file that is not UTF-8.
pub open spec fn undecodable(path: Seq<char>, m: Seq<char>) -> Seq<char> {
    "UTF-8 error in '"@ + path + "': "@ + m
}

/// A file whose data forms were inserted.
pub struct Loading {
    /// The forms to process, in order.
    pub forms: Vec<FormSpan>,
    /// The position of the next one.
    pub next: usize,
    /// The expressions of the current form that are still to be run, the next
    /// one last.
    pub pending: Vec<TopForm>,
    /// The value of the current form so far.
    pub last: Option<Atom>,
    /// The values of the forms.
    pub out: Vec<Atom>,
}

/// The value of a file whose data forms were inserted.
#[verifier::ext_equal]
pub struct LoadingV {
    /// The forms to process.
    pub forms: Seq<FormSpan>,
    /// The position of the next one.
    pub next: nat,
    /// What is still to be processed of the current form, the next one last.
    pub pending: Seq<TopFormV>,
    /// The value of the current form so far.
    pub last: Option<AtomV>,
    /// The values of the forms.
    pub out: Seq<AtomV>,
}

impl View for Loading {
    type V = LoadingV;

    open spec fn view(&self) -> LoadingV {
        LoadingV {
            forms: self.forms@,
            next: self.next as nat,
            pending: form_values(self.pending@),
            last: optional_atom(self.last),
            out: atoms(self.out@),
        }
    }
}

/// Beginning with the forms that follow the data of a file, which must be UTF-8.
pub open spec fn forms_begun(b: Seq<u8>, path: Seq<char>, forms: Seq<FormSpan>) -> Result<
    LoadingV,
    Seq<char>,
> {
    match decoded(b) {
        Err(m) => Err(undecodable(path, m)),
        Ok(_) => Ok(
            LoadingV { forms, next: 0, pending: Seq::empty(), last: None, out: Seq::empty() },
        ),
    }
}

/// Begin with the forms that follow the data of a file.
pub fn begin_forms(bytes: &[u8], path: &str, forms: Vec<FormSpan>) -> (r: Result<Loading, String>)
    ensures
        (match r {
            Ok(l) => forms_begun(bytes@, path@, forms@) == Ok::<LoadingV, Seq<char>>(l@)
                && l.forms@ == forms@,
            Err(m) => forms_begun(bytes@, path@, forms@) == Err::<LoadingV, Seq<char>>(m@),
        }),
{
    match utf8_text(bytes) {
        Err(m) => {
            let mut s: String = joined3("UTF-8 error in '", path, "': ");
            s.append(m.as_str());
            return Err(s);
        },
        Ok(_) => {},
    }
    let l = Loading { forms, next: 0, pending: Vec::new(), last: None, out: Vec::new() };
    assert(form_values(l.pending@) =~= Seq::<TopFormV>::empty());
    assert(atoms(l.out@) =~= Seq::<AtomV>::empty());
    Ok(l)
}

/// Beginning to load a file: its data forms are inserted.
pub open spec fn load_begun(b: Seq<u8>, path: Seq<char>, space: AtomV, t: TableV) -> (
    Result<LoadingV, Seq<char>>,
    TableV,
) {
    match forms_in(b, 0, 1, Seq::empty(), path) {
        Err(m) => (Err(m), t),
        Ok(spans) => match data_values(b, picked(b, spans, true), path) {
            Err(m) => (Err(m), t),
            Ok(vs) => match with_data(t, space, vs) {
                Err(m) => (Err(m), t),
                Ok(t2) => (
                    forms_begun(b, path, picked(b, spans, false)),
                    t2,
                ),
            },
        },
    }
}

/// Begin to load a file.
pub fn begin_load(bytes: &[u8], path: &str, space: &Atom, table: &mut FnTable) -> (r: Result<
    Loading,
    String,
>)
    requires
        bytes@.len() < usize::MAX,
    ensures
        ({
            let (want, t) = load_begun(bytes@, path@, space@, old(table)@);
            final(table)@ == t && match r {
                Ok(l) => want == Ok::<LoadingV, Seq<char>>(l@) && spans_fit(
                    l.forms@,
                    bytes@.len() as int,
                ),
                Err(m) => want == Err::<LoadingV, Seq<char>>(m@),
            }
        }),
{
    let spans = match scan_forms(bytes, path) {
        Err(m) => {
            return Err(m);
        },
        Ok(v) => v,
    };
    let bulk = pick_forms(bytes, &spans, true);
    let forms = pick_forms(bytes, &spans, false);
    let data = match parse_data_forms(bytes, &bulk, path) {
        Err(m) => {
            return Err(m);
        },
        Ok(v) => v,
    };
    match insert_data(table, space, &data) {
        Err(m) => {
            return Err(m);
        },
        Ok(()) => {},
    }
    begin_forms(bytes, path, forms)
}

/// What loading comes to in one step.
pub enum LoadOut {
    /// It goes on.
    Next,
    /// An expression is evaluated first.
    Run(Expr),
    /// It is done: the values of the forms.
    Done(Vec<Atom>),
    /// An error.
    Fail(String),
}

/// The value of what loading comes to in one step.
pub enum LoadOutV {
    /// It goes on.
    Next,
    /// An expression is evaluated first.
    Run(ExprV),
    /// It is done.
    Done(Seq<AtomV>),
    /// An error.
    Fail(Seq<char>),
}

impl View for LoadOut {
    type V = LoadOutV;

    open spec fn view(&self) -> LoadOutV {
        match self {
            LoadOut::Next => LoadOutV::Next,
            LoadOut::Run(x) => LoadOutV::Run(x@),
            LoadOut::Done(v) => LoadOutV::Done(atoms(v@)),
            LoadOut::Fail(m) => LoadOutV::Fail(m@),
        }
    }
}

/// The line of the form that is processed.
pub open spec fn current_line(l: LoadingV) -> int {
    if 0 < l.next <= l.forms.len() {
        l.forms[l.next - 1].start_line as int
    } else {
        1
    }
}

/// The values with an optional one behind them.
pub open spec fn with_last(s: Seq<AtomV>, a: Option<AtomV>) -> Seq<AtomV> {
    match a {
        Some(x) => s.push(x),
        None => s,
    }
}

/// A step of loading: the next part of the current form, or the next form.
pub open spec fn load_stepped(l: LoadingV, b: Seq<u8>, path: Seq<char>, space: AtomV, t: TableV) -> (
    LoadOutV,
    LoadingV,
    TableV,
) {
    if l.pending.len() > 0 {
        let l2 = LoadingV { pending: l.pending.drop_last(), last: None, ..l };
        let (r, t2) = form_stored(l.pending.last(), space, t);
        match r {
            Err(m) => (LoadOutV::Fail(located(m, path, current_line(l))), l2, t2),
            Ok(None) => (LoadOutV::Next, l2, t2),
            Ok(Some(x)) => (LoadOutV::Run(x), l2, t2),
        }
    } else if l.next >= l.forms.len() {
        (LoadOutV::Done(with_last(l.out, l.last)), l, t)
    } else {
        let s = l.forms[l.next as int];
        let l2 = LoadingV { next: l.next + 1, last: None, out: with_last(l.out, l.last), ..l };
        let parsed = match form_text(b, s) {
            Err(m) => Err(m),
            Ok(text) => forms_from(form_source(text, s.is_bang), 0, Seq::empty()),
        };
        match parsed {
            Err(m) => (LoadOutV::Fail(located(m, path, s.start_line as int)), l2, t),
            Ok(fs) => (LoadOutV::Next, LoadingV { pending: fs.reverse(), ..l2 }, t),
        }
    }
}

/// Put forms in the opposite order.
pub fn reverse_forms(list: Vec<TopForm>) -> (r: Vec<TopForm>)
    ensures
        form_values(r@) == form_values(list@).reverse(),
{
    let ghost all = list@;
    let ghost want = form_values(all).reverse();
    let mut list = list;
    let mut out: Vec<TopForm> = Vec::new();
    assert(form_values(out@) =~= want.take(0));
    assert(all.take(all.len() as int) =~= all);
    while list.len() > 0
        invariant
            want == form_values(all).reverse(),
            list@.len() + out@.len() == all.len(),
            list@ == all.take(list@.len() as int),
            form_values(out@) == want.take(out@.len() as int),
        decreases list@.len(),
    {
        let ghost n = list@.len();
        let ghost k = out@.len() as int;
        let ghost before = out@;
        match list.pop() {
            Some(f) => {
                assert(f == all[n - 1]);
                out.push(f);
                assert(form_values(out@) =~= form_values(before).push(f@));
                assert(want[k] == f@);
                assert(want.take(k + 1) =~= want.take(k).push(want[k]));
                assert(list@ =~= all.take(n - 1));
            },
            None => {},
        }
    }
    assert(want.take(all.len() as int) =~= want);
    out
}

/// Whether two steps of loading agree; the state does not matter once loading
/// ended.
pub open spec fn load_agrees(
    x: (LoadOutV, LoadingV, TableV),
    y: (LoadOutV, LoadingV, TableV),
) -> bool {
    x.0 == y.0 && x.2 == y.2 && (y.0 is Done || y.0 is Fail || x.1 == y.1)
}

/// Make one step of loading.
pub fn load_step(l: &mut Loading, bytes: &[u8], path: &str, space: &Atom, table: &mut FnTable) -> (r:
    LoadOut)
    requires
        spans_fit(old(l).forms@, bytes@.len() as int),
    ensures
        load_agrees(
            (r@, final(l)@, final(table)@),
            load_stepped(old(l)@, bytes@, path@, space@, old(table)@),
        ),
        final(l).forms == old(l).forms,
{
    let ghost l0 = l@;
    let ghost pend = l.pending@;
    assert(l0.pending.len() == pend.len());
    match l.pending.pop() {
        Some(form) => {
            assert(l0.pending.last() == form@);
            l.last = None;
            assert(form_values(l.pending@) =~= l0.pending.drop_last());
            assert(l@ =~= (LoadingV { pending: l0.pending.drop_last(), last: None, ..l0 }));
            let line: usize = if 0 < l.next && l.next <= l.forms.len() {
                l.forms[l.next - 1].start_line
            } else {
                1
            };
            match process_top_form(form, space, table) {
                Err(m) => LoadOut::Fail(locate(m.as_str(), path, line)),
                Ok(None) => LoadOut::Next,
                Ok(Some(x)) => LoadOut::Run(x),
            }
        },
        None => {
            let n: usize = l.forms.len();
            let ghost o = l.out@;
            let mut last: Option<Atom> = None;
            std::mem::swap(&mut l.last, &mut last);
            match last {
                Some(a) => {
                    l.out.push(a);
                    assert(atoms(l.out@) =~= atoms(o).push(a@));
                },
                None => {},
            }
            assert(atoms(l.out@) =~= with_last(l0.out, l0.last));
            if l.next >= n {
                let mut out: Vec<Atom> = Vec::new();
                std::mem::swap(&mut l.out, &mut out);
                return LoadOut::Done(out);
            }
            let s: FormSpan = l.forms[l.next];
            l.next = l.next + 1;
            match decode_form(bytes, s) {
                Err(m) => LoadOut::Fail(locate(m.as_str(), path, s.start_line)),
                Ok(text) => match parse_form(text.as_str(), s.is_bang) {
                    Err(m) => LoadOut::Fail(locate(m.as_str(), path, s.start_line)),
                    Ok(fs) => {
                        l.pending = reverse_forms(fs);
                        assert(l@ =~= (LoadingV {
                            pending: form_values(fs@).reverse(),
                            next: l0.next + 1,
                            last: None,
                            out: with_last(l0.out, l0.last),
                            ..l0
                        }));
                        LoadOut::Next
                    },
                },
            }
        },
    }
}

/// Loading goes on with the values of an expression: the first one counts.
pub open spec fn load_supplied(l: LoadingV, vs: Seq<AtomV>) -> LoadingV {
    LoadingV { last: first_of(vs), ..l }
}

/// Hand the values of an expression to loading.
pub fn load_supply(l: &mut Loading, values: &Vec<Atom>)
    ensures
        final(l)@ == load_supplied(old(l)@, atoms(values@)),
        final(l).forms == old(l).forms,
{
    let ghost l0 = l@;
    assert(atoms(values@).len() == values@.len());
    if values.len() > 0 {
        l.last = Some(values[0].clone());
    } else {
        l.last = None;
    }
    assert(l@ =~= load_supplied(l0, atoms(values@)));
}

/// Say where an expression of a file failed.
pub fn load_refuse(l: &Loading, path: &str, m: &str) -> (r: String)
    ensures
        r@ == located(m@, path@, current_line(l@)),
{
    let line: usize = if 0 < l.next && l.next <= l.forms.len() {
        l.forms[l.next - 1].start_line
    } else {
        1
    };
    locate(m, path, line)
}

/// Whether forms lie one behind the other, each inside its bounds.
pub open spec fn in_order(spans: Seq<FormSpan>, n: int) -> bool {
    &&& forall|i: int| 0 <= i < spans.len() ==> (#[trigger] spans[i]).start < spans[i].end <= n
    &&& forall|i: int, j: int|
        0 <= i < j < spans.len() ==> (#[trigger] spans[i]).end <= (#[trigger] spans[j]).start
}

/// The forms that are found behind others in order are in order.
proof fn lemma_in_order(
    b: Seq<u8>,
    pos: int,
    line: int,
    before: Seq<FormSpan>,
    path: Seq<char>,
)
    requires
        0 <= pos <= b.len() < usize::MAX,
        in_order(before, pos),
    ensures
        forms_in(b, pos, line, before, path) matches Ok(v) ==> in_order(v, b.len() as int),
    decreases b.len() - pos,
{
    let (p, l) = after_space(b, pos, line, false);
    lemma_after_space(b, pos, line, false);
    if 0 <= p < b.len() {
        let bang = b[p] == 0x21;
        let (q, m) = if bang {
            after_space(b, p + 1, l, false)
        } else {
            (p, l)
        };
        if bang {
            lemma_after_space(b, p + 1, l, false);
        }
        if 0 <= q < b.len() && b[q] == 0x28 {
            match form_end(b, q, m, 0, ScanMode::Code) {
                Some((e, k)) => {
                    lemma_form_end(b, q, m, 0, ScanMode::Code);
                    if e <= b.len() {
                        let span = FormSpan {
                            start: q as usize,
                            end: e as usize,
                            is_bang: bang,
                            start_line: m as usize,
                        };
                        assert(in_order(before.push(span), e));
                        lemma_in_order(b, e, k, before.push(span), path);
                    }
                },
                None => {},
            }
        }
    }
}

/// Skipping blanks does not go back.
proof fn lemma_after_space(b: Seq<u8>, pos: int, line: int, comment: bool)
    requires
        0 <= pos,
    ensures
        after_space(b, pos, line, comment).0 >= pos,
    decreases b.len() - pos,
{
    if pos < b.len() {
        lemma_after_space(b, pos + 1, line, false);
        lemma_after_space(b, pos + 1, line, true);
        lemma_after_space(b, pos + 1, line + 1, false);
        lemma_after_space(b, pos + 1, line + 1, true);
    }
}

/// A form ends behind where it is looked for.
proof fn lemma_form_end(b: Seq<u8>, pos: int, line: int, depth: int, mode: ScanMode)
    requires
        0 <= pos,
    ensures
        form_end(b, pos, line, depth, mode) matches Some(p) ==> p.0 > pos,
    decreases b.len() + 1 - pos,
{
    if pos < b.len() {
        lemma_form_end(b, pos + 1, line, depth, ScanMode::Code);
        lemma_form_end(b, pos + 1, line, depth, ScanMode::Comment);
        lemma_form_end(b, pos + 1, line, depth, ScanMode::Literal);
        lemma_form_end(b, pos + 2, line, depth, ScanMode::Literal);
        lemma_form_end(b, pos + 1, line + 1, depth, ScanMode::Code);
        lemma_form_end(b, pos + 1, line + 1, depth, ScanMode::Literal);
        lemma_form_end(b, pos + 1, line, depth + 1, ScanMode::Code);
        lemma_form_end(b, pos + 1, line, depth - 1, ScanMode::Code);
    }
}

/// The forms of a file are found in the order in which they stand, and none
/// overlaps another.
pub proof fn forms_are_in_order(b: Seq<u8>, path: Seq<char>)
    requires
        b.len() < usize::MAX,
    ensures
        forms_in(b, 0, 1, Seq::empty(), path) matches Ok(v) ==> in_order(v, b.len() as int),
{
    lemma_in_order(b, 0, 1, Seq::empty(), path);
}

/// Every form of a file is taken as data or run, and none is both: together the
/// two parts hold the forms, with their order kept in each.
pub proof fn picking_splits(b: Seq<u8>, spans: Seq<FormSpan>)
    ensures
        picked(b, spans, true).to_multiset().add(picked(b, spans, false).to_multiset())
            =~= spans.to_multiset(),
        forall|i: int| 0 <= i < picked(b, spans, true).len() ==> is_bulk(b, #[trigger] picked(b, spans, true)[i]),
        forall|i: int| 0 <= i < picked(b, spans, false).len() ==> !is_bulk(b, #[trigger] picked(b, spans, false)[i]),
    decreases spans.len(),
{
    broadcast use vstd::seq_lib::group_to_multiset_ensures;

    if spans.len() > 0 {
        picking_splits(b, spans.drop_last());
        assert(spans.drop_last().push(spans.last()) =~= spans);
        assert(spans.to_multiset() =~= spans.drop_last().to_multiset().insert(spans.last()));
    }
}

} // verus!
