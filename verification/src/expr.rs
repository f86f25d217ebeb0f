//! Parsed expressions.
use crate::numeric::NumV;
use crate::numeric::Numeric;
use crate::text::push_char;
use crate::text::quote_text;
use crate::text::quoted;
use std::sync::Arc;
use vstd::prelude::*;
use vstd::string::*;

verus! {

/// A parsed expression.
pub enum Expr {
    /// A bare symbol or, when it starts with `$`, a variable.
    Symbol(String),
    /// A string literal.
    Str(String),
    /// A number.
    Number(Numeric),
    /// A parenthesized list.
    List(Arc<Vec<Expr>>),
}

/// The value of a parsed expression.
pub enum ExprV {
    /// A symbol's name.
    Symbol(Seq<char>),
    /// A string literal's content.
    Str(Seq<char>),
    /// A number's value.
    Number(NumV),
    /// A list's elements.
    List(Seq<ExprV>),
}

/// The value of an expression.
pub open spec fn expr_view(e: Expr) -> ExprV
    decreases e,
{
    match e {
        Expr::Symbol(s) => ExprV::Symbol(s@),
        Expr::Str(s) => ExprV::Str(s@),
        Expr::Number(n) => ExprV::Number(n@),
        Expr::List(v) => ExprV::List(exprs(v@)),
    }
}

/// The values of a sequence of expressions.
pub open spec fn exprs(s: Seq<Expr>) -> Seq<ExprV>
    decreases s,
{
    Seq::new(
        s.len(),
        |i: int|
            if 0 <= i < s.len() {
                expr_view(s[i])
            } else {
                arbitrary()
            },
    )
}

impl View for Expr {
    type V = ExprV;

    open spec fn view(&self) -> ExprV {
        expr_view(*self)
    }
}

/// A sequence has as many values as expressions.
pub broadcast proof fn lemma_exprs_len(s: Seq<Expr>)
    ensures
        #[trigger] exprs(s).len() == s.len(),
{
}

/// The values stand in the order of the expressions.
pub broadcast proof fn lemma_exprs_index(s: Seq<Expr>, i: int)
    requires
        0 <= i < s.len(),
    ensures
        #[trigger] exprs(s)[i] == s[i]@,
{
}

/// Adding an expression adds its value.
pub broadcast proof fn lemma_exprs_push(s: Seq<Expr>, e: Expr)
    ensures
        #[trigger] exprs(s.push(e)) == exprs(s).push(e@),
{
    assert(exprs(s.push(e)) =~= exprs(s).push(e@));
}

/// The values of a part of a sequence.
pub broadcast proof fn lemma_exprs_subrange(s: Seq<Expr>, i: int, j: int)
    requires
        0 <= i <= j <= s.len(),
    ensures
        #[trigger] exprs(s.subrange(i, j)) == exprs(s).subrange(i, j),
{
    assert(exprs(s.subrange(i, j)) =~= exprs(s).subrange(i, j));
}

/// The facts on the values of sequences of expressions.
pub broadcast group group_exprs {
    lemma_exprs_len,
    lemma_exprs_index,
    lemma_exprs_push,
    lemma_exprs_subrange,
}

impl Clone for Expr {
    fn clone(&self) -> (r: Expr)
        ensures
            r == *self,
    {
        match self {
            Expr::Symbol(s) => Expr::Symbol(s.clone()),
            Expr::Str(s) => Expr::Str(s.clone()),
            Expr::Number(n) => Expr::Number(n.clone()),
            Expr::List(v) => Expr::List(v.clone()),
        }
    }
}

/// The text of an expression.
pub open spec fn expr_text(e: ExprV) -> Seq<char>
    decreases e,
{
    match e {
        ExprV::Symbol(s) => s,
        ExprV::Str(s) => quoted(s),
        ExprV::Number(n) => n.text(),
        ExprV::List(items) => seq!['('] + expr_texts(items) + seq![')'],
    }
}

/// The texts of expressions with one space between each two of them.
pub open spec fn expr_texts(s: Seq<ExprV>) -> Seq<char>
    decreases s,
{
    if s.len() == 0 {
        Seq::empty()
    } else if s.len() == 1 {
        expr_text(s[0])
    } else {
        expr_texts(s.drop_last()) + seq![' '] + expr_text(s.last())
    }
}

/// The number of nodes of an expression: a measure for walks over it.
pub open spec fn expr_size(e: ExprV) -> nat
    decreases e,
{
    match e {
        ExprV::List(items) => 1 + exprs_size(items),
        _ => 1,
    }
}

/// The number of nodes of a sequence of expressions.
pub open spec fn exprs_size(s: Seq<ExprV>) -> nat
    decreases s,
{
    if s.len() == 0 {
        0
    } else {
        exprs_size(s.drop_last()) + expr_size(s.last())
    }
}

/// Whether two expressions are the same.
pub fn expr_same(a: &Expr, b: &Expr) -> (r: bool)
    ensures
        r == (a@ == b@),
    decreases a,
{
    broadcast use group_exprs;

    match (a, b) {
        (Expr::Symbol(x), Expr::Symbol(y)) => *x == *y,
        (Expr::Str(x), Expr::Str(y)) => *x == *y,
        (Expr::Number(x), Expr::Number(y)) => x.same(y),
        (Expr::List(x), Expr::List(y)) => {
            assert(exprs(x@).len() == x@.len() && exprs(y@).len() == y@.len());
            if x.len() != y.len() {
                return false;
            }
            let mut i: usize = 0;
            while i < x.len()
                invariant
                    i <= x@.len(),
                    x@.len() == y@.len(),
                    *a == Expr::List(*x),
                    *b == Expr::List(*y),
                    forall|j: int| 0 <= j < i ==> exprs(x@)[j] == exprs(y@)[j],
                decreases x@.len() - i,
            {
                assert(decreases_to!(a => a->List_0@[i as int]));
                if !expr_same(&x[i], &y[i]) {
                    assert(exprs(x@)[i as int] != exprs(y@)[i as int]);
                    return false;
                }
                i += 1;
            }
            assert(exprs(x@) =~= exprs(y@));
            true
        },
        _ => false,
    }
}

impl Expr {
    /// The text of the expression.
    pub fn to_text(&self) -> (r: String)
        ensures
            r@ == expr_text(self@),
        decreases self,
    {
        match self {
            Expr::Symbol(s) => s.clone(),
            Expr::Str(s) => quote_text(s.as_str()),
            Expr::Number(n) => n.to_text(),
            Expr::List(items) => {
                let mut out: String = String::new();
                push_char(&mut out, '(');
                let mut i: usize = 0;
                while i < items.len()
                    invariant
                        i <= items@.len(),
                        *self == Expr::List(*items),
                        out@ == seq!['('] + expr_texts(exprs(items@).take(i as int)),
                    decreases items@.len() - i,
                {
                    broadcast use group_exprs;

                    if i > 0 {
                        push_char(&mut out, ' ');
                    }
                    assert(decreases_to!(self => self->List_0@[i as int]));
                    let t = items[i].to_text();
                    out.append(t.as_str());
                    assert(exprs(items@).take(i + 1).drop_last() =~= exprs(items@).take(i as int));
                    assert(out@ =~= seq!['('] + expr_texts(exprs(items@).take(i + 1)));
                    i += 1;
                }
                assert(exprs(items@).take(items@.len() as int) =~= exprs(items@));
                push_char(&mut out, ')');
                assert(out@ =~= expr_text(self@));
                out
            },
        }
    }
}

/// Copy a sequence of expressions.
pub fn copy_exprs(items: &Vec<Expr>, from: usize) -> (r: Vec<Expr>)
    requires
        from <= items@.len(),
    ensures
        r@ == items@.skip(from as int),
{
    let mut r: Vec<Expr> = Vec::new();
    let mut i: usize = from;
    while i < items.len()
        invariant
            from <= i <= items@.len(),
            r@ == items@.subrange(from as int, i as int),
        decreases items@.len() - i,
    {
        r.push(items[i].clone());
        assert(items@.subrange(from as int, i + 1) =~= items@.subrange(from as int, i as int).push(
            items@[i as int],
        ));
        i += 1;
    }
    assert(items@.subrange(from as int, items@.len() as int) =~= items@.skip(from as int));
    r
}

/// Put two expressions into a list.
pub fn list2(a: Expr, b: Expr) -> (r: Expr)
    ensures
        r@ == ExprV::List(seq![a@, b@]),
{
    let mut v: Vec<Expr> = Vec::new();
    v.push(a);
    v.push(b);
    assert(exprs(v@) =~= seq![a@, b@]);
    Expr::List(Arc::new(v))
}

/// Put three expressions into a list.
pub fn list3(a: Expr, b: Expr, c: Expr) -> (r: Expr)
    ensures
        r@ == ExprV::List(seq![a@, b@, c@]),
{
    let mut v: Vec<Expr> = Vec::new();
    v.push(a);
    v.push(b);
    v.push(c);
    assert(exprs(v@) =~= seq![a@, b@, c@]);
    Expr::List(Arc::new(v))
}

/// Put four expressions into a list.
pub fn list4(a: Expr, b: Expr, c: Expr, d: Expr) -> (r: Expr)
    ensures
        r@ == ExprV::List(seq![a@, b@, c@, d@]),
{
    let mut v: Vec<Expr> = Vec::new();
    v.push(a);
    v.push(b);
    v.push(c);
    v.push(d);
    assert(exprs(v@) =~= seq![a@, b@, c@, d@]);
    Expr::List(Arc::new(v))
}

} // verus!
