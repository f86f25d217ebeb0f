//! Core value type of the evaluator.
//!
//! Every value is an [`Atom`]: a symbol, a string, a number, an expression, a
//! closure, or an object of the host.
use crate::env::Env;
use crate::env::EnvNode;
use crate::env::EnvV;
use crate::env::env_view;
use crate::expr::Expr;
use crate::expr::ExprV;
use crate::expr::expr_same;
use crate::expr::expr_text;
use crate::expr::expr_texts;
use crate::expr::exprs;
use crate::expr::group_exprs;
use crate::numeric::Decimal;
use crate::numeric::Integer;
use crate::numeric::NumV;
use crate::numeric::Numeric;
use crate::numeric::decimal_of;
use crate::numeric::decimal_text;
use crate::text::int_text;
use crate::text::joined;
use crate::text::joined3;
use crate::text::lower_text;
use crate::text::push_char;
use crate::text::quote_text;
use crate::text::quoted;
use crate::text::same;
use crate::text::to_lower;
use std::sync::Arc;
use vstd::prelude::*;
use vstd::string::*;

verus! {

/// The fields of a closure.
pub struct ClosureData {
    /// Parameter patterns.
    pub params: Arc<Vec<Expr>>,
    /// The body.
    pub body: Expr,
    /// The captured environment.
    pub env: Env,
}

/// An object that lives outside the evaluator.
///
/// The host hands out the same key for objects it considers equal.
pub struct Grounded {
    /// Identifies the object.
    pub key: u64,
    /// How the object is shown.
    pub text: String,
}

/// A value.
pub enum Atom {
    /// A symbolic name: function names, variable names (with `$` prefix), data symbols.
    Sym(String),
    /// A string literal value, distinct from symbols.
    Str(String),
    /// An arbitrary-precision integer or decimal.
    Num(Numeric),
    /// An ordered list of atoms. Shared, so a clone is cheap.
    Expr(Arc<Vec<Atom>>),
    /// An anonymous function created by `|->`.
    Closure(Arc<ClosureData>),
    /// An object of the host.
    Gnd(Grounded),
}

/// The mathematical value of an atom.
pub enum AtomV {
    /// A symbol's name.
    Sym(Seq<char>),
    /// A string's content.
    Str(Seq<char>),
    /// A number's value.
    Num(NumV),
    /// A list's elements.
    Expr(Seq<AtomV>),
    /// A closure's parameters, body and environment.
    Closure(Seq<ExprV>, ExprV, Box<EnvV>),
    /// A host object's key and text.
    Gnd(u64, Seq<char>),
}

/// The value of an atom.
pub open spec fn atom_view(a: Atom) -> AtomV
    decreases a,
{
    match a {
        Atom::Sym(s) => AtomV::Sym(s@),
        Atom::Str(s) => AtomV::Str(s@),
        Atom::Num(n) => AtomV::Num(n@),
        Atom::Expr(v) => AtomV::Expr(atoms(v@)),
        Atom::Closure(c) => AtomV::Closure(exprs(c.params@), c.body@, Box::new(env_view(c.env))),
        Atom::Gnd(g) => AtomV::Gnd(g.key, g.text@),
    }
}

/// The values of a sequence of atoms.
pub open spec fn atoms(s: Seq<Atom>) -> Seq<AtomV>
    decreases s,
{
    Seq::new(
        s.len(),
        |i: int|
            if 0 <= i < s.len() {
                atom_view(s[i])
            } else {
                arbitrary()
            },
    )
}

impl View for Atom {
    type V = AtomV;

    open spec fn view(&self) -> AtomV {
        atom_view(*self)
    }
}

/// A sequence has as many values as atoms.
pub broadcast proof fn lemma_atoms_len(s: Seq<Atom>)
    ensures
        #[trigger] atoms(s).len() == s.len(),
{
}

/// The values stand in the order of the atoms.
pub broadcast proof fn lemma_atoms_index(s: Seq<Atom>, i: int)
    requires
        0 <= i < s.len(),
    ensures
        #[trigger] atoms(s)[i] == s[i]@,
{
}

/// Adding an atom adds its value.
pub broadcast proof fn lemma_atoms_push(s: Seq<Atom>, a: Atom)
    ensures
        #[trigger] atoms(s.push(a)) == atoms(s).push(a@),
{
    assert(atoms(s.push(a)) =~= atoms(s).push(a@));
}

/// The values of a part of a sequence.
pub broadcast proof fn lemma_atoms_subrange(s: Seq<Atom>, i: int, j: int)
    requires
        0 <= i <= j <= s.len(),
    ensures
        #[trigger] atoms(s.subrange(i, j)) == atoms(s).subrange(i, j),
{
    assert(atoms(s.subrange(i, j)) =~= atoms(s).subrange(i, j));
}

/// The facts on the values of sequences of atoms.
pub broadcast group group_atoms {
    lemma_atoms_len,
    lemma_atoms_index,
    lemma_atoms_push,
    lemma_atoms_subrange,
}

impl Clone for Grounded {
    fn clone(&self) -> (r: Grounded)
        ensures
            r == *self,
    {
        Grounded { key: self.key, text: self.text.clone() }
    }
}

impl Clone for Atom {
    fn clone(&self) -> (r: Atom)
        ensures
            r == *self,
    {
        match self {
            Atom::Sym(s) => Atom::Sym(s.clone()),
            Atom::Str(s) => Atom::Str(s.clone()),
            Atom::Num(n) => Atom::Num(n.clone()),
            Atom::Expr(v) => Atom::Expr(v.clone()),
            Atom::Closure(c) => Atom::Closure(c.clone()),
            Atom::Gnd(g) => Atom::Gnd(g.clone()),
        }
    }
}

/// Whether two sequences of expressions are the same.
pub fn exprs_same(x: &Vec<Expr>, y: &Vec<Expr>) -> (r: bool)
    ensures
        r == (exprs(x@) == exprs(y@)),
{
    broadcast use group_exprs;

    assert(exprs(x@).len() == x@.len() && exprs(y@).len() == y@.len());
    if x.len() != y.len() {
        return false;
    }
    let mut i: usize = 0;
    while i < x.len()
        invariant
            i <= x@.len(),
            x@.len() == y@.len(),
            forall|j: int| 0 <= j < i ==> exprs(x@)[j] == exprs(y@)[j],
        decreases x@.len() - i,
    {
        if !expr_same(&x[i], &y[i]) {
            assert(exprs(x@)[i as int] != exprs(y@)[i as int]);
            return false;
        }
        i += 1;
    }
    assert(exprs(x@) =~= exprs(y@));
    true
}

/// Whether two atoms are the same. Equality is structural; a string never
/// equals a symbol, and an integer never equals a decimal.
pub fn atom_same(a: &Atom, b: &Atom) -> (r: bool)
    ensures
        r == (a@ == b@),
    decreases a,
{
    broadcast use group_atoms;

    match (a, b) {
        (Atom::Sym(x), Atom::Sym(y)) => *x == *y,
        (Atom::Str(x), Atom::Str(y)) => *x == *y,
        (Atom::Num(x), Atom::Num(y)) => x.same(y),
        (Atom::Expr(x), Atom::Expr(y)) => {
            assert(atoms(x@).len() == x@.len() && atoms(y@).len() == y@.len());
            if x.len() != y.len() {
                return false;
            }
            let mut i: usize = 0;
            while i < x.len()
                invariant
                    i <= x@.len(),
                    x@.len() == y@.len(),
                    *a == Atom::Expr(*x),
                    *b == Atom::Expr(*y),
                    forall|j: int| 0 <= j < i ==> atoms(x@)[j] == atoms(y@)[j],
                decreases x@.len() - i,
            {
                assert(decreases_to!(a => a->Expr_0@[i as int]));
                if !atom_same(&x[i], &y[i]) {
                    assert(atoms(x@)[i as int] != atoms(y@)[i as int]);
                    return false;
                }
                i += 1;
            }
            assert(atoms(x@) =~= atoms(y@));
            true
        },
        (Atom::Closure(x), Atom::Closure(y)) => exprs_same(&x.params, &y.params) && expr_same(
            &x.body,
            &y.body,
        ) && env_same(&x.env, &y.env),
        (Atom::Gnd(x), Atom::Gnd(y)) => x.key == y.key && x.text == y.text,
        _ => false,
    }
}

/// Whether two environments are the same chain of bindings and links.
pub fn env_same(a: &Env, b: &Env) -> (r: bool)
    ensures
        r == (a@ == b@),
    decreases a,
{
    match (&*a.0, &*b.0) {
        (EnvNode::Empty, EnvNode::Empty) => true,
        (
            EnvNode::Cons { name: n, value: v, next: x },
            EnvNode::Cons { name: m, value: w, next: y },
        ) => *n == *m && atom_same(v, w) && env_same(x, y),
        (EnvNode::Link { prefix: p, base: x }, EnvNode::Link { prefix: q, base: y }) => env_same(
            p,
            q,
        ) && env_same(x, y),
        _ => false,
    }
}

/// The text of an atom.
pub open spec fn sexpr(a: AtomV) -> Seq<char>
    decreases a,
{
    match a {
        AtomV::Sym(s) => s,
        AtomV::Str(s) => quoted(s),
        AtomV::Num(n) => n.text(),
        AtomV::Expr(items) => seq!['('] + sexprs(items) + seq![')'],
        AtomV::Closure(params, body, env) => "(|-> ("@ + expr_texts(params) + ") "@ + expr_text(
            body,
        ) + seq![')'],
        AtomV::Gnd(key, text) => text,
    }
}

/// The texts of atoms with one space between each two of them.
pub open spec fn sexprs(s: Seq<AtomV>) -> Seq<char>
    decreases s,
{
    if s.len() == 0 {
        Seq::empty()
    } else if s.len() == 1 {
        sexpr(s[0])
    } else {
        sexprs(s.drop_last()) + seq![' '] + sexpr(s.last())
    }
}

/// The name a symbol gets: the two boolean names are put in lower case.
pub open spec fn canonical_name(s: Seq<char>) -> Seq<char> {
    if s == "True"@ {
        "true"@
    } else if s == "False"@ {
        "false"@
    } else {
        s
    }
}

/// The symbol with a name.
pub open spec fn symbol(s: Seq<char>) -> AtomV {
    AtomV::Sym(canonical_name(s))
}

/// Whether an atom counts as true: zero and the empty symbol do not.
pub open spec fn truthy(a: AtomV) -> bool {
    match a {
        AtomV::Num(n) => !n.is_zero(),
        AtomV::Sym(s) => s.len() != 0,
        _ => true,
    }
}

/// Whether an atom affirms a condition: it counts as true, and it is not the
/// symbol `false`, in which a comparison that does not hold results.
pub open spec fn affirms(a: AtomV) -> bool {
    truthy(a) && !(a is Sym && lower_text(a->Sym_0) == "false"@)
}

/// The texts of parameters with one space between each two of them.
fn params_text(params: &Vec<Expr>) -> (r: String)
    ensures
        r@ == expr_texts(exprs(params@)),
{
    let mut out: String = String::new();
    let mut i: usize = 0;
    while i < params.len()
        invariant
            i <= params@.len(),
            out@ == expr_texts(exprs(params@).take(i as int)),
        decreases params@.len() - i,
    {
        broadcast use group_exprs;

        if i > 0 {
            push_char(&mut out, ' ');
        }
        let t = params[i].to_text();
        out.append(t.as_str());
        assert(exprs(params@).take(i + 1).drop_last() =~= exprs(params@).take(i as int));
        assert(out@ =~= expr_texts(exprs(params@).take(i + 1)));
        i += 1;
    }
    assert(exprs(params@).take(params@.len() as int) =~= exprs(params@));
    out
}

impl Atom {
    /// Format the atom as an S-expression.
    pub fn to_sexpr_string(&self) -> (r: String)
        ensures
            r@ == sexpr(self@),
        decreases self,
    {
        match self {
            Atom::Sym(s) => s.clone(),
            Atom::Str(s) => quote_text(s.as_str()),
            Atom::Num(n) => n.to_text(),
            Atom::Expr(items) => {
                let mut out: String = String::new();
                push_char(&mut out, '(');
                let mut i: usize = 0;
                while i < items.len()
                    invariant
                        i <= items@.len(),
                        *self == Atom::Expr(*items),
                        out@ == seq!['('] + sexprs(atoms(items@).take(i as int)),
                    decreases items@.len() - i,
                {
                    broadcast use group_atoms;

                    if i > 0 {
                        push_char(&mut out, ' ');
                    }
                    assert(decreases_to!(self => self->Expr_0@[i as int]));
                    let t = items[i].to_sexpr_string();
                    out.append(t.as_str());
                    assert(atoms(items@).take(i + 1).drop_last() =~= atoms(items@).take(i as int));
                    assert(out@ =~= seq!['('] + sexprs(atoms(items@).take(i + 1)));
                    i += 1;
                }
                assert(atoms(items@).take(items@.len() as int) =~= atoms(items@));
                push_char(&mut out, ')');
                assert(out@ =~= sexpr(self@));
                out
            },
            Atom::Closure(c) => {
                let mut out: String = "(|-> (".to_owned();
                let p = params_text(&c.params);
                out.append(p.as_str());
                out.append(") ");
                let b = c.body.to_text();
                out.append(b.as_str());
                push_char(&mut out, ')');
                assert(out@ =~= sexpr(self@));
                out
            },
            Atom::Gnd(g) => g.text.clone(),
        }
    }

    /// Create a symbol atom, with the boolean names in lower case.
    pub fn sym(s: &str) -> (r: Atom)
        ensures
            r@ == symbol(s@),
    {
        if same(s, "True") {
            Atom::Sym("true".to_owned())
        } else if same(s, "False") {
            Atom::Sym("false".to_owned())
        } else {
            Atom::Sym(s.to_owned())
        }
    }

    /// Create a string atom.
    pub fn str_val(s: &str) -> (r: Atom)
        ensures
            r@ == AtomV::Str(s@),
    {
        Atom::Str(s.to_owned())
    }

    /// Create an integer atom.
    pub fn num(n: i128) -> (r: Atom)
        ensures
            r@ == AtomV::Num(NumV::Int(n as int)),
    {
        Atom::Num(Numeric::Int(Integer::from_i128(n)))
    }

    /// Create a decimal atom from its text, such as `3.14`.
    pub fn decimal(s: &str) -> (r: Result<Atom, String>)
        ensures
            (match r {
                Ok(a) => decimal_of(s@) is Ok && a@ == AtomV::Num(
                    NumV::Dec(decimal_of(s@)->Ok_0.0, decimal_of(s@)->Ok_0.1),
                ),
                Err(e) => decimal_of(s@) is Err && e@ == "invalid decimal '"@ + s@ + "': "@
                    + decimal_of(s@)->Err_0,
            }),
    {
        match Decimal::read(s) {
            Ok(d) => Ok(Atom::Num(Numeric::Dec(d))),
            Err(e) => {
                let mut out: String = joined3("invalid decimal '", s, "': ");
                out.append(e.as_str());
                Err(out)
            },
        }
    }

    /// Create an expression atom.
    pub fn expr(items: Vec<Atom>) -> (r: Atom)
        ensures
            r@ == AtomV::Expr(atoms(items@)),
    {
        Atom::Expr(Arc::new(items))
    }

    /// Extract the integer value as `i128`.
    pub fn as_num(&self) -> (r: Result<i128, String>)
        ensures
            r is Ok == (self@ matches AtomV::Num(NumV::Int(n)) && i128::MIN <= n <= i128::MAX),
            r matches Ok(n) ==> self@ == AtomV::Num(NumV::Int(n as int)),
            r matches Err(e) ==> e@ == (match self@ {
                AtomV::Num(NumV::Int(n)) => "integer "@ + int_text(n) + " overflows i128"@,
                AtomV::Num(NumV::Dec(s, x)) => "expected integer, got decimal "@ + decimal_text(
                    s,
                    x,
                ),
                _ => "expected number, got "@ + sexpr(self@),
            }),
    {
        match self {
            Atom::Num(Numeric::Int(n)) => match n.to_i128() {
                Some(v) => Ok(v),
                None => {
                    let t = n.to_text();
                    Err(joined3("integer ", t.as_str(), " overflows i128"))
                },
            },
            Atom::Num(Numeric::Dec(d)) => {
                let t = d.to_text();
                Err(joined("expected integer, got decimal ", t.as_str()))
            },
            other => {
                let t = other.to_sexpr_string();
                Err(joined("expected number, got ", t.as_str()))
            },
        }
    }

    /// Extract the number from a `Num` atom.
    pub fn as_numeric(&self) -> (r: Result<&Numeric, String>)
        ensures
            r is Ok == (self is Num),
            r matches Ok(n) ==> *self == Atom::Num(*n),
            r matches Err(e) ==> e@ == "expected number, got "@ + sexpr(self@),
    {
        match self {
            Atom::Num(n) => Ok(n),
            other => {
                let t = other.to_sexpr_string();
                Err(joined("expected number, got ", t.as_str()))
            },
        }
    }

    /// Extract the name from a `Sym` atom.
    pub fn as_sym(&self) -> (r: Result<&str, String>)
        ensures
            r is Ok == (self is Sym),
            r matches Ok(s) ==> self@ == AtomV::Sym(s@),
            r matches Err(e) ==> e@ == "expected symbol, got "@ + sexpr(self@),
    {
        match self {
            Atom::Sym(s) => Ok(s.as_str()),
            other => {
                let t = other.to_sexpr_string();
                Err(joined("expected symbol, got ", t.as_str()))
            },
        }
    }

    /// Extract the content from a `Str` atom.
    pub fn as_str_val(&self) -> (r: Result<&str, String>)
        ensures
            r is Ok == (self is Str),
            r matches Ok(s) ==> self@ == AtomV::Str(s@),
            r matches Err(e) ==> e@ == "expected string, got "@ + sexpr(self@),
    {
        match self {
            Atom::Str(s) => Ok(s.as_str()),
            other => {
                let t = other.to_sexpr_string();
                Err(joined("expected string, got ", t.as_str()))
            },
        }
    }

    /// Extract the elements from an `Expr` atom.
    pub fn as_expr(&self) -> (r: Result<&Vec<Atom>, String>)
        ensures
            r is Ok == (self is Expr),
            r matches Ok(items) ==> self@ == AtomV::Expr(atoms(items@)),
            r matches Err(e) ==> e@ == "expected expression, got "@ + sexpr(self@),
    {
        match self {
            Atom::Expr(items) => Ok(items),
            other => {
                let t = other.to_sexpr_string();
                Err(joined("expected expression, got ", t.as_str()))
            },
        }
    }

    /// Truth of an atom: the number zero and the empty symbol are false,
    /// everything else is true.
    pub fn is_truthy(&self) -> (r: bool)
        ensures
            r == truthy(self@),
    {
        match self {
            Atom::Num(n) => !n.is_zero(),
            Atom::Sym(s) => !s.as_str().is_empty(),
            _ => true,
        }
    }

    /// Whether the atom, as the value of a condition, affirms it.
    pub fn affirms(&self) -> (r: bool)
        ensures
            r == affirms(self@),
    {
        match self {
            Atom::Sym(s) => {
                let low = to_lower(s.as_str());
                !s.as_str().is_empty() && !same(low.as_str(), "false")
            },
            other => other.is_truthy(),
        }
    }
}

/// Copy the atoms from position `from` on.
pub fn copy_atoms(items: &Vec<Atom>, from: usize) -> (r: Vec<Atom>)
    requires
        from <= items@.len(),
    ensures
        r@ == items@.skip(from as int),
{
    let mut r: Vec<Atom> = Vec::new();
    let mut i: usize = from;
    while i < items.len()
        invariant
            from <= i <= items@.len(),
            r@ == items@.subrange(from as int, i as int),
        decreases items@.len() - i,
    {
        r.push(items[i].clone());
        assert(items@.subrange(from as int, i + 1) =~= items@.subrange(from as int, i as int).push(
            items@[i as int],
        ));
        i += 1;
    }
    assert(items@.subrange(from as int, items@.len() as int) =~= items@.skip(from as int));
    r
}

/// Lists, closures and strings are always true.
pub proof fn lists_closures_and_strings_are_true(a: AtomV)
    requires
        a is Expr || a is Closure || a is Str,
    ensures
        truthy(a),
{
}

} // verus!
