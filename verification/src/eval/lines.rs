//! Reading a program line by line.
//!
//! A program that comes in lines is split into its top-level forms as they are
//! closed, so that no more than one form is held at a time.
use crate::atom::Atom;
use crate::atom::AtomV;
use crate::atom::atoms;
use crate::atom::group_atoms;
use crate::atom::symbol;
use crate::builtins::loops::first_of;
use crate::eval::io::form_source;
use crate::eval::io::form_stored;
use crate::eval::io::parse_form;
use crate::eval::io::process_top_form;
use crate::eval::io::reverse_forms;
use crate::eval::shared::pattern::optional_atom;
use crate::expr::Expr;
use crate::expr::ExprV;
use crate::func::FnTable;
use crate::func::TableV;
use crate::parser::TopForm;
use crate::parser::TopFormV;
use crate::parser::form_values;
use crate::parser::forms_from;
use crate::text::chars_of;
use crate::text::joined3;
use crate::text::nat_digits;
use crate::text::text_between;
use crate::text::usize_text;
use vstd::prelude::*;
use vstd::string::*;

verus! {

/// What has been read of the form that is open.
pub struct LineScan {
    /// The characters of the form.
    pub form: Vec<char>,
    /// The number of open parentheses.
    pub depth: usize,
    /// Whether the form is marked with `!`.
    pub runnable: bool,
}

/// The value of what has been read.
pub struct LineScanV {
    /// The characters of the form.
    pub form: Seq<char>,
    /// The number of open parentheses.
    pub depth: nat,
    /// Whether the form is marked with `!`.
    pub runnable: bool,
}

impl View for LineScan {
    type V = LineScanV;

    open spec fn view(&self) -> LineScanV {
        LineScanV { form: self.form@, depth: self.depth as nat, runnable: self.runnable }
    }
}

/// What is met in a line.
pub enum LineStep {
    /// A form is closed: its text, whether it is marked with `!`, and the
    /// position after it.
    Form(String, bool, usize),
    /// The line ends.
    End,
    /// A parenthesis closes nothing.
    Unmatched,
}

/// The value of what is met in a line.
pub enum LineStepV {
    /// A form is closed.
    Form(Seq<char>, bool, nat),
    /// The line ends.
    End,
    /// A parenthesis closes nothing.
    Unmatched,
}

impl View for LineStep {
    type V = LineStepV;

    open spec fn view(&self) -> LineStepV {
        match self {
            LineStep::Form(s, b, p) => LineStepV::Form(s@, *b, *p as nat),
            LineStep::End => LineStepV::End,
            LineStep::Unmatched => LineStepV::Unmatched,
        }
    }
}

/// What is met in a line from a position on, and what has been read then. A
/// semicolon ends the line; between forms only `!` counts.
pub open spec fn line_scanned(st: LineScanV, line: Seq<char>, pos: nat) -> (LineStepV, LineScanV)
    decreases line.len() - pos,
{
    if pos >= line.len() || line[pos as int] == ';' {
        (LineStepV::End, st)
    } else {
        let c = line[pos as int];
        if c == '!' && st.depth == 0 {
            line_scanned(LineScanV { runnable: true, ..st }, line, pos + 1)
        } else if c == '(' {
            line_scanned(
                LineScanV { form: st.form.push(c), depth: st.depth + 1, ..st },
                line,
                pos + 1,
            )
        } else if c == ')' && st.depth == 0 {
            (LineStepV::Unmatched, st)
        } else if c == ')' && st.depth == 1 {
            (LineStepV::Form(st.form.push(c), st.runnable, pos + 1), nothing_read())
        } else if c == ')' {
            line_scanned(
                LineScanV { form: st.form.push(c), depth: (st.depth - 1) as nat, ..st },
                line,
                pos + 1,
            )
        } else if st.depth > 0 {
            line_scanned(LineScanV { form: st.form.push(c), ..st }, line, pos + 1)
        } else {
            line_scanned(st, line, pos + 1)
        }
    }
}

/// The state in which nothing has been read.
pub open spec fn nothing_read() -> LineScanV {
    LineScanV { form: Seq::empty(), depth: 0, runnable: false }
}

impl LineScan {
    /// Whether each open parenthesis is in the form.
    pub open spec fn wf(&self) -> bool {
        self.depth <= self.form@.len()
    }

    /// Nothing has been read.
    pub fn new() -> (r: LineScan)
        ensures
            r.wf(),
            r@ == nothing_read(),
    {
        LineScan { form: Vec::new(), depth: 0, runnable: false }
    }

    /// Whether a form is open.
    pub fn is_open(&self) -> (r: bool)
        ensures
            r == (self@.depth > 0),
    {
        self.depth > 0
    }

    /// Read a line from a position on, up to the end of a form or of the line.
    pub fn next_form(&mut self, line: &Vec<char>, pos: usize) -> (r: LineStep)
        requires
            old(self).wf(),
            pos <= line@.len(),
        ensures
            final(self).wf(),
            (r@, final(self)@) == line_scanned(old(self)@, line@, pos as nat),
            r matches LineStep::Form(_, _, p) ==> pos < p <= line@.len(),
    {
        let ghost want = line_scanned(self@, line@, pos as nat);
        let mut i: usize = pos;
        while i < line.len()
            invariant
                pos <= i <= line@.len(),
                self.wf(),
                want == line_scanned(old(self)@, line@, pos as nat),
                want == line_scanned(self@, line@, i as nat),
            decreases line@.len() - i,
        {
            let c = line[i];
            if c == ';' {
                return LineStep::End;
            }
            if c == '!' && self.depth == 0 {
                self.runnable = true;
            } else if c == '(' {
                self.form.push(c);
                let n: usize = self.form.len();
                assert(self.depth < n);
                self.depth = self.depth + 1;
            } else if c == ')' {
                if self.depth == 0 {
                    return LineStep::Unmatched;
                }
                self.form.push(c);
                if self.depth == 1 {
                    let text = text_between(&self.form, 0, self.form.len());
                    assert(self.form@.subrange(0, self.form@.len() as int) =~= self.form@);
                    let runnable = self.runnable;
                    self.form = Vec::new();
                    self.depth = 0;
                    self.runnable = false;
                    assert(self@ == nothing_read());
                    return LineStep::Form(text, runnable, i + 1);
                }
                self.depth = self.depth - 1;
            } else if self.depth > 0 {
                self.form.push(c);
            }
            i += 1;
        }
        LineStep::End
    }
}

/// The complaint about a parenthesis that closes nothing.
pub open spec fn unmatched_close(path: Seq<char>, line: nat) -> Seq<char> {
    "unmatched ')' in '"@ + path + "' at line "@ + nat_digits(line)
}

/// Complain about a parenthesis that closes nothing.
pub fn complain_unmatched(path: &str, line: usize) -> (r: String)
    ensures
        r@ == unmatched_close(path@, line as nat),
{
    let mut m: String = joined3("unmatched ')' in '", path, "' at line ");
    let d = usize_text(line);
    m.append(d.as_str());
    m
}

/// Complain about a form that is open at the end of a program.
pub fn complain_open(path: &str) -> (r: String)
    ensures
        r@ == "unclosed '(' in '"@ + path@ + "'"@,
{
    joined3("unclosed '(' in '", path, "'")
}

/// The complaint about a form, with its place.
pub open spec fn near_line(m: Seq<char>, path: Seq<char>, line: nat) -> Seq<char> {
    m + " (in '"@ + path + "' near line "@ + nat_digits(line) + ")"@
}

/// Say near which line a form is.
pub fn tell_line(m: &str, path: &str, line: usize) -> (r: String)
    ensures
        r@ == near_line(m@, path@, line as nat),
{
    let mut out: String = joined3(m, " (in '", path);
    out.append("' near line ");
    let d = usize_text(line);
    out.append(d.as_str());
    out.append(")");
    out
}

/// A line read in two parts gives the same as the whole line, when the first
/// part closes no form and has no comment.
pub proof fn reading_goes_on(st: LineScanV, a: Seq<char>, b: Seq<char>)
    requires
        !a.contains(';'),
        line_scanned(st, a, 0).0 is End,
    ensures
        line_scanned(st, a + b, 0) == ({
            let (step, after) = line_scanned(line_scanned(st, a, 0).1, b, 0);
            (
                match step {
                    LineStepV::Form(s, x, p) => LineStepV::Form(s, x, a.len() + p),
                    other => other,
                },
                after,
            )
        }),
{
    lemma_split(st, a, b, 0);
}

/// Reading the first part of a line and then the second.
proof fn lemma_split(st: LineScanV, a: Seq<char>, b: Seq<char>, pos: nat)
    requires
        pos <= a.len(),
        !a.contains(';'),
        line_scanned(st, a, pos).0 is End,
    ensures
        line_scanned(st, a + b, pos) == ({
            let (step, after) = line_scanned(line_scanned(st, a, pos).1, b, 0);
            (
                match step {
                    LineStepV::Form(s, x, p) => LineStepV::Form(s, x, a.len() + p),
                    other => other,
                },
                after,
            )
        }),
    decreases a.len() - pos,
{
    if pos < a.len() {
        assert((a + b)[pos as int] == a[pos as int]);
        assert(a.contains(a[pos as int]));
        let c = a[pos as int];
        if c == '!' && st.depth == 0 {
            lemma_split(LineScanV { runnable: true, ..st }, a, b, pos + 1);
        } else if c == '(' {
            lemma_split(
                LineScanV { form: st.form.push(c), depth: st.depth + 1, ..st },
                a,
                b,
                pos + 1,
            );
        } else if c == ')' {
            lemma_split(
                LineScanV { form: st.form.push(c), depth: (st.depth - 1) as nat, ..st },
                a,
                b,
                pos + 1,
            );
        } else if st.depth > 0 {
            lemma_split(LineScanV { form: st.form.push(c), ..st }, a, b, pos + 1);
        } else {
            lemma_split(st, a, b, pos + 1);
        }
    } else {
        lemma_shift(st, a, b, 0);
    }
}

/// Reading the second part of a line, as a part and by itself.
proof fn lemma_shift(st: LineScanV, a: Seq<char>, b: Seq<char>, pos: nat)
    requires
        pos <= b.len(),
    ensures
        line_scanned(st, a + b, a.len() + pos) == ({
            let (step, after) = line_scanned(st, b, pos);
            (
                match step {
                    LineStepV::Form(s, x, p) => LineStepV::Form(s, x, a.len() + p),
                    other => other,
                },
                after,
            )
        }),
    decreases b.len() - pos,
{
    if pos < b.len() {
        let c = b[pos as int];
        assert((a + b)[(a.len() + pos) as int] == c);
        if c == ';' {
        } else if c == '!' && st.depth == 0 {
            lemma_shift(LineScanV { runnable: true, ..st }, a, b, pos + 1);
        } else if c == '(' {
            lemma_shift(
                LineScanV { form: st.form.push(c), depth: st.depth + 1, ..st },
                a,
                b,
                pos + 1,
            );
        } else if c == ')' && st.depth > 1 {
            lemma_shift(
                LineScanV { form: st.form.push(c), depth: (st.depth - 1) as nat, ..st },
                a,
                b,
                pos + 1,
            );
        } else if c != ')' && st.depth > 0 {
            lemma_shift(LineScanV { form: st.form.push(c), ..st }, a, b, pos + 1);
        } else if c != ')' {
            lemma_shift(st, a, b, pos + 1);
        }
    }
}

/// A program that is run form by form as its lines come.
pub struct Streaming {
    /// What has been read of the form that is open.
    pub scan: LineScan,
    /// The line that is read.
    pub line: Vec<char>,
    /// The position in it.
    pub pos: usize,
    /// Its number.
    pub number: usize,
    /// What is still to be processed of the form that was closed, the next one
    /// last.
    pub pending: Vec<TopForm>,
    /// The value of the last form so far.
    pub last: Option<Atom>,
}

/// The value of a program that is run form by form.
#[verifier::ext_equal]
pub struct StreamingV {
    /// What has been read of the form that is open.
    pub scan: LineScanV,
    /// The line that is read.
    pub line: Seq<char>,
    /// The position in it.
    pub pos: nat,
    /// Its number.
    pub number: nat,
    /// What is still to be processed of the form that was closed.
    pub pending: Seq<TopFormV>,
    /// The value of the last form so far.
    pub last: Option<AtomV>,
}

impl View for Streaming {
    type V = StreamingV;

    open spec fn view(&self) -> StreamingV {
        StreamingV {
            scan: self.scan@,
            line: self.line@,
            pos: self.pos as nat,
            number: self.number as nat,
            pending: form_values(self.pending@),
            last: optional_atom(self.last),
        }
    }
}

/// What running a program comes to in one step.
pub enum StreamOut {
    /// It goes on.
    Next,
    /// The next line is needed.
    Line,
    /// An expression is evaluated first.
    Run(Expr),
    /// An error.
    Fail(String),
}

/// The value of what running a program comes to in one step.
pub enum StreamOutV {
    /// It goes on.
    Next,
    /// The next line is needed.
    Line,
    /// An expression is evaluated first.
    Run(ExprV),
    /// An error.
    Fail(Seq<char>),
}

impl View for StreamOut {
    type V = StreamOutV;

    open spec fn view(&self) -> StreamOutV {
        match self {
            StreamOut::Next => StreamOutV::Next,
            StreamOut::Line => StreamOutV::Line,
            StreamOut::Run(x) => StreamOutV::Run(x@),
            StreamOut::Fail(m) => StreamOutV::Fail(m@),
        }
    }
}

/// A program of which nothing has been read.
pub open spec fn stream_begun() -> StreamingV {
    StreamingV {
        scan: nothing_read(),
        line: Seq::empty(),
        pos: 0,
        number: 0,
        pending: Seq::empty(),
        last: None,
    }
}

/// A step of a program: the next part of the form that was closed, or the next
/// form of the line. Definitions are stored in the space of the program.
pub open spec fn stream_stepped(st: StreamingV, path: Seq<char>, t: TableV) -> (
    StreamOutV,
    StreamingV,
    TableV,
) {
    if st.pending.len() > 0 {
        let rest = StreamingV { pending: st.pending.drop_last(), last: None, ..st };
        let (r, t2) = form_stored(st.pending.last(), symbol("&self"@), t);
        match r {
            Err(m) => (StreamOutV::Fail(near_line(m, path, st.number)), rest, t2),
            Ok(None) => (StreamOutV::Next, rest, t2),
            Ok(Some(x)) => (StreamOutV::Run(x), rest, t2),
        }
    } else {
        let (step, scan) = line_scanned(st.scan, st.line, st.pos);
        match step {
            LineStepV::End => (
                StreamOutV::Line,
                StreamingV { scan, pos: st.line.len(), ..st },
                t,
            ),
            LineStepV::Unmatched => (
                StreamOutV::Fail(unmatched_close(path, st.number)),
                StreamingV { scan, ..st },
                t,
            ),
            LineStepV::Form(text, runnable, next) => {
                let after = StreamingV { scan, pos: next, last: None, ..st };
                match forms_from(form_source(text, runnable), 0, Seq::empty()) {
                    Err(m) => (StreamOutV::Fail(near_line(m, path, st.number)), after, t),
                    Ok(fs) => (
                        StreamOutV::Next,
                        StreamingV { pending: fs.reverse(), ..after },
                        t,
                    ),
                }
            },
        }
    }
}

/// The value of a program at its end: that of its last form, if it is run and
/// has one. A form that is still open is an error.
pub open spec fn stream_ended(st: StreamingV, path: Seq<char>) -> Result<
    Option<AtomV>,
    Seq<char>,
> {
    if st.scan.depth > 0 {
        Err("unclosed '(' in '"@ + path + "'"@)
    } else {
        Ok(st.last)
    }
}

/// Whether two steps of a program agree; the state does not matter after an
/// error.
pub open spec fn stream_agrees(
    x: (StreamOutV, StreamingV, TableV),
    y: (StreamOutV, StreamingV, TableV),
) -> bool {
    x.0 == y.0 && x.2 == y.2 && (y.0 is Fail || x.1 == y.1)
}

/// What a program came to, as a value.
pub open spec fn ended_value(r: Result<Option<Atom>, String>) -> Result<
    Option<AtomV>,
    Seq<char>,
> {
    match r {
        Ok(a) => Ok(optional_atom(a)),
        Err(m) => Err(m@),
    }
}

impl Streaming {
    /// Whether the position lies in the line.
    pub open spec fn wf(&self) -> bool {
        self.scan.wf() && self.pos <= self.line@.len()
    }

    /// Begin to run a program.
    pub fn new() -> (r: Streaming)
        ensures
            r.wf(),
            r@ == stream_begun(),
    {
        let r = Streaming {
            scan: LineScan::new(),
            line: Vec::new(),
            pos: 0,
            number: 0,
            pending: Vec::new(),
            last: None,
        };
        assert(r@ =~= stream_begun());
        r
    }

    /// Go on with the line of a number.
    pub fn supply_line(&mut self, line: &str, number: usize)
        requires
            old(self).wf(),
        ensures
            final(self).wf(),
            final(self)@ == (StreamingV {
                line: line@,
                pos: 0,
                number: number as nat,
                ..old(self)@
            }),
    {
        self.line = chars_of(line);
        self.pos = 0;
        self.number = number;
    }

    /// Make one step.
    pub fn step(&mut self, path: &str, table: &mut FnTable) -> (r: StreamOut)
        requires
            old(self).wf(),
        ensures
            final(self).wf(),
            stream_agrees(
                (r@, final(self)@, final(table)@),
                stream_stepped(old(self)@, path@, old(table)@),
            ),
    {
        let ghost s0 = self@;
        let ghost pend = self.pending@;
        assert(s0.pending.len() == pend.len());
        match self.pending.pop() {
            Some(form) => {
                assert(s0.pending.last() == form@);
                self.last = None;
                assert(form_values(self.pending@) =~= s0.pending.drop_last());
                let space = Atom::sym("&self");
                match process_top_form(form, &space, table) {
                    Err(m) => StreamOut::Fail(tell_line(m.as_str(), path, self.number)),
                    Ok(None) => StreamOut::Next,
                    Ok(Some(x)) => StreamOut::Run(x),
                }
            },
            None => {
                assert(form_values(self.pending@) =~= s0.pending);
                match self.scan.next_form(&self.line, self.pos) {
                    LineStep::End => {
                        self.pos = self.line.len();
                        StreamOut::Line
                    },
                    LineStep::Unmatched => StreamOut::Fail(complain_unmatched(path, self.number)),
                    LineStep::Form(text, runnable, next) => {
                        self.pos = next;
                        self.last = None;
                        match parse_form(text.as_str(), runnable) {
                            Err(m) => StreamOut::Fail(tell_line(m.as_str(), path, self.number)),
                            Ok(fs) => {
                                self.pending = reverse_forms(fs);
                                StreamOut::Next
                            },
                        }
                    },
                }
            },
        }
    }

    /// Hand over the values of an expression: the first one counts.
    pub fn supply(&mut self, values: &Vec<Atom>)
        requires
            old(self).wf(),
        ensures
            final(self).wf(),
            final(self)@ == (StreamingV { last: first_of(atoms(values@)), ..old(self)@ }),
    {
        broadcast use group_atoms;

        assert(atoms(values@).len() == values@.len());
        if values.len() > 0 {
            self.last = Some(values[0].clone());
        } else {
            self.last = None;
        }
    }

    /// Say near which line an expression failed.
    pub fn refuse(&self, path: &str, m: &str) -> (r: String)
        ensures
            r@ == near_line(m@, path@, self@.number),
    {
        tell_line(m, path, self.number)
    }

    /// End a program.
    pub fn end(self, path: &str) -> (r: Result<Option<Atom>, String>)
        ensures
            ended_value(r) == stream_ended(self@, path@),
    {
        if self.scan.is_open() {
            Err(complain_open(path))
        } else {
            Ok(self.last)
        }
    }
}

/// The value of a program is that of its last form: a definition leaves none, and
/// an expression that is run leaves the first of its values.
pub proof fn last_form_gives_the_value(
    st: StreamingV,
    path: Seq<char>,
    t: TableV,
    values: Seq<AtomV>,
)
    requires
        st.pending.len() == 1,
        st.scan.depth == 0,
    ensures
        ({
            let (out, after, t2) = stream_stepped(st, path, t);
            &&& st.pending[0] is Definition && out is Next ==> stream_ended(after, path) == Ok::<
                Option<AtomV>,
                Seq<char>,
            >(None)
            &&& st.pending[0] is Runnable ==> out is Run && stream_ended(
                (StreamingV { last: first_of(values), ..after }),
                path,
            ) == Ok::<Option<AtomV>, Seq<char>>(first_of(values))
        }),
{
}

} // verus!
