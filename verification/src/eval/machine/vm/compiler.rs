//! Compiler from expressions to instructions.
//!
//! Variables of patterns become local variables, addressed by position; other
//! variables become free variables, addressed by the order in which they are
//! first met. Positions are kept in one byte each.
use crate::atom::Atom;
use crate::atom::AtomV;
use crate::atom::atoms;
use crate::atom::symbol;
use crate::compile::reify::expr_to_atom;
use crate::compile::reify::to_atom;
use crate::eval::machine::vm::op::Block;
use crate::eval::machine::vm::op::BlockV;
use crate::eval::machine::vm::op::CaseBranch;
use crate::eval::machine::vm::op::Opcode;
use crate::eval::machine::vm::op::OpcodeV;
use crate::eval::machine::vm::op::PatternBody;
use crate::eval::machine::vm::op::PatternBodyV;
use crate::eval::machine::vm::op::branches;
use crate::eval::machine::vm::op::group_ops;
use crate::eval::machine::vm::op::ops;
use crate::eval::shared::pattern::stands_in;
use crate::expr::Expr;
use crate::expr::ExprV;
use crate::expr::exprs;
use crate::expr::group_exprs;
use crate::text::add_missing;
use crate::text::copy_texts;
use crate::text::first_index;
use crate::text::first_position;
use crate::text::is_var;
use crate::text::is_var_name;
use crate::text::last_index;
use crate::text::last_position;
use crate::text::lemma_first_index;
use crate::text::lemma_texts_push;
use crate::text::same;
use crate::text::texts;
use crate::text::united;
use std::sync::Arc;
use vstd::prelude::*;
use vstd::string::*;

verus! {

/// The variables of a pattern in the order in which they are met, behind those
/// already met.
pub open spec fn noted(e: ExprV, seen: Seq<Seq<char>>) -> Seq<Seq<char>>
    decreases e,
{
    match e {
        ExprV::Symbol(s) => if is_var_name(s) && first_index(seen, s) is None {
            seen.push(s)
        } else {
            seen
        },
        ExprV::List(items) => all_noted(items, seen),
        _ => seen,
    }
}

/// The variables of patterns in the order in which they are met.
pub open spec fn all_noted(s: Seq<ExprV>, seen: Seq<Seq<char>>) -> Seq<Seq<char>>
    decreases s,
{
    if s.len() == 0 {
        seen
    } else {
        noted(s.last(), all_noted(s.drop_last(), seen))
    }
}

/// Collect the variables of a pattern in the order in which they are met.
pub fn collect_pattern_vars(expr: &Expr, set: &mut Vec<String>)
    ensures
        texts(final(set)@) == noted(expr@, texts(old(set)@)),
    decreases expr,
{
    broadcast use {group_exprs, lemma_texts_push};

    match expr {
        Expr::Symbol(s) => {
            if is_var(s.as_str()) {
                match first_position(set, s.as_str()) {
                    Some(_) => {},
                    None => {
                        set.push(s.clone());
                    },
                }
            }
        },
        Expr::List(items) => {
            let ghost es = exprs(items@);
            let ghost start = texts(set@);
            let mut i: usize = 0;
            assert(es.take(0) =~= Seq::<ExprV>::empty());
            while i < items.len()
                invariant
                    i <= items@.len(),
                    *expr == Expr::List(*items),
                    es == exprs(items@),
                    start == texts(old(set)@),
                    texts(set@) == all_noted(es.take(i as int), start),
                decreases items@.len() - i,
            {
                assert(decreases_to!(expr => expr->List_0@[i as int]));
                collect_pattern_vars(&items[i], set);
                assert(es.take(i + 1).drop_last() =~= es.take(i as int));
                i += 1;
            }
            assert(es.take(items@.len() as int) =~= es);
        },
        _ => {},
    }
}

/// The variables of a pattern.
pub open spec fn vars_of(e: ExprV) -> Seq<Seq<char>> {
    noted(e, Seq::empty())
}

/// Collect the variables of a pattern into a list of their own.
pub fn pattern_vars(expr: &Expr) -> (r: Vec<String>)
    ensures
        texts(r@) == vars_of(expr@),
{
    let mut v: Vec<String> = Vec::new();
    assert(texts(v@) =~= Seq::<Seq<char>>::empty());
    collect_pattern_vars(expr, &mut v);
    v
}

/// The forms that are compiled in a way of their own.
#[derive(Clone, Copy, PartialEq, Eq, Structural)]
pub enum Form {
    /// `(quote x)`
    Quote,
    /// `(empty)`
    Empty,
    /// `(cut)`
    Cut,
    /// `(println! x)`
    Println,
    /// `(readln!)`
    Readln,
    /// `(eval x)`
    Eval,
    /// `(call x)` and `(reduce x)`
    Direct,
    /// `(if c t e)`
    If,
    /// `(case x clauses)`
    Case,
    /// `(match space pattern body)`
    Match,
    /// `(collapse x)`
    Collapse,
    /// `(superpose x)`
    Superpose,
    /// `(let p v b)`
    Let,
    /// `(let* bindings b)`
    LetStar,
    /// `(foldall f g i)`
    Foldall,
    /// `(forall g c)`
    Forall,
    /// `(foldl-atom list acc f)`
    Foldl,
    /// `(foldl-atom list acc vars... body)`
    FoldlLambda,
    /// A form for the continuation machine.
    Fallback,
    /// An application.
    Apply,
}

/// The form of a list.
pub open spec fn form_of(items: Seq<ExprV>) -> Form {
    if items.len() == 0 || !(items[0] is Symbol) {
        Form::Apply
    } else {
        let h = items[0]->Symbol_0;
        let n = items.len();
        if h == "quote"@ && n == 2 {
            Form::Quote
        } else if h == "empty"@ && n == 1 {
            Form::Empty
        } else if h == "cut"@ && n == 1 {
            Form::Cut
        } else if h == "println!"@ && n == 2 {
            Form::Println
        } else if h == "readln!"@ && n == 1 {
            Form::Readln
        } else if h == "eval"@ && n == 2 {
            Form::Eval
        } else if (h == "call"@ || h == "reduce"@) && n == 2 {
            Form::Direct
        } else if h == "if"@ && (n == 3 || n == 4) {
            Form::If
        } else if h == "case"@ && n == 3 {
            Form::Case
        } else if h == "match"@ && n == 4 {
            Form::Match
        } else if h == "collapse"@ && n == 2 {
            Form::Collapse
        } else if h == "superpose"@ && n == 2 {
            Form::Superpose
        } else if h == "let"@ && n == 4 {
            Form::Let
        } else if h == "let*"@ && n == 3 {
            Form::LetStar
        } else if h == "foldall"@ && n == 4 {
            Form::Foldall
        } else if h == "forall"@ && n == 3 {
            Form::Forall
        } else if h == "foldl-atom"@ && n == 4 {
            Form::Foldl
        } else if h == "foldl-atom"@ && n >= 5 {
            Form::FoldlLambda
        } else if h == "|->"@ || h == "map-atom"@ || h == "filter-atom"@ || h == "within"@ || h
            == "once"@ || h == "progn"@ || h == "prog1"@ || h == "chain"@ || h == "add-atom"@ || h
            == "remove-atom"@ {
            Form::Fallback
        } else {
            Form::Apply
        }
    }
}

/// Find the form of a list.
fn find_form(items: &Vec<Expr>) -> (r: Form)
    ensures
        r == form_of(exprs(items@)),
{
    broadcast use group_exprs;

    if items.len() == 0 {
        return Form::Apply;
    }
    let h = match &items[0] {
        Expr::Symbol(s) => s.as_str(),
        _ => {
            return Form::Apply;
        },
    };
    let n: usize = items.len();
    if n == 2 && same(h, "quote") {
        Form::Quote
    } else if n == 1 && same(h, "empty") {
        Form::Empty
    } else if n == 1 && same(h, "cut") {
        Form::Cut
    } else if n == 2 && same(h, "println!") {
        Form::Println
    } else if n == 1 && same(h, "readln!") {
        Form::Readln
    } else if n == 2 && same(h, "eval") {
        Form::Eval
    } else if n == 2 && (same(h, "call") || same(h, "reduce")) {
        Form::Direct
    } else if (n == 3 || n == 4) && same(h, "if") {
        Form::If
    } else if n == 3 && same(h, "case") {
        Form::Case
    } else if n == 4 && same(h, "match") {
        Form::Match
    } else if n == 2 && same(h, "collapse") {
        Form::Collapse
    } else if n == 2 && same(h, "superpose") {
        Form::Superpose
    } else if n == 4 && same(h, "let") {
        Form::Let
    } else if n == 3 && same(h, "let*") {
        Form::LetStar
    } else if n == 4 && same(h, "foldall") {
        Form::Foldall
    } else if n == 3 && same(h, "forall") {
        Form::Forall
    } else if n == 4 && same(h, "foldl-atom") {
        Form::Foldl
    } else if n >= 5 && same(h, "foldl-atom") {
        Form::FoldlLambda
    } else if same(h, "|->") || same(h, "map-atom") || same(h, "filter-atom") || same(h, "within")
        || same(h, "once") || same(h, "progn") || same(h, "prog1") || same(h, "chain") || same(
        h,
        "add-atom",
    ) || same(h, "remove-atom") {
        Form::Fallback
    } else {
        Form::Apply
    }
}

/// What the compiler knows of the surroundings of an expression.
pub struct ScopeV {
    /// The names of the local variables, by position.
    pub locals: Seq<Seq<char>>,
    /// The names of the free variables met so far, by position.
    pub free: Seq<Seq<char>>,
    /// The function whose body is compiled, if calls of it in the last place
    /// become jumps.
    pub fname: Option<Seq<char>>,
    /// The number of arguments of that function.
    pub arity: nat,
}

/// Whether free variables are those met before, followed by other variables that
/// stand in an expression; if none was there twice, none is.
pub open spec fn has_met_more(e: ExprV, a: Seq<Seq<char>>, b: Seq<Seq<char>>) -> bool {
    &&& a.len() <= b.len()
    &&& forall|i: int| 0 <= i < a.len() ==> #[trigger] b[i] == a[i]
    &&& forall|i: int|
        a.len() <= i < b.len() ==> is_var_name(#[trigger] b[i]) && stands_in(e, b[i])
    &&& a.no_duplicates() ==> b.no_duplicates()
}

/// Meeting more variables twice is meeting more variables.
pub broadcast proof fn lemma_met_chain(
    e: ExprV,
    a: Seq<Seq<char>>,
    b: Seq<Seq<char>>,
    c: Seq<Seq<char>>,
)
    requires
        #[trigger] has_met_more(e, a, b),
        #[trigger] has_met_more(e, b, c),
    ensures
        has_met_more(e, a, c),
{
    assert forall|i: int| a.len() <= i < c.len() implies is_var_name(#[trigger] c[i]) && stands_in(
        e,
        c[i],
    ) by {
        if i < b.len() {
            assert(c[i] == b[i]);
        }
    }
    assert forall|i: int| 0 <= i < a.len() implies #[trigger] c[i] == a[i] by {
        assert(c[i] == b[i]);
    }
}

/// What is met in an item of a list is met in the list.
pub broadcast proof fn lemma_met_in_item(
    e: ExprV,
    i: int,
    a: Seq<Seq<char>>,
    b: Seq<Seq<char>>,
)
    requires
        e is List,
        0 <= i < e->List_0.len(),
        #[trigger] has_met_more(e->List_0[i], a, b),
    ensures
        has_met_more(e, a, b),
{
    assert forall|k: int| a.len() <= k < b.len() implies is_var_name(#[trigger] b[k]) && stands_in(
        e,
        b[k],
    ) by {
        assert(stands_in(e->List_0[i], b[k]));
    }
}

/// A variable that was not met before is one more.
pub broadcast proof fn lemma_met_one(a: Seq<Seq<char>>, s: Seq<char>)
    requires
        is_var_name(s),
        first_index(a, s) is None,
    ensures
        #[trigger] has_met_more(ExprV::Symbol(s), a, a.push(s)),
{
    lemma_first_index(a, s);
}

/// Adding variables that are missing is meeting more variables.
proof fn lemma_united_met(e: ExprV, a: Seq<Seq<char>>, t: Seq<Seq<char>>)
    requires
        forall|i: int|
            0 <= i < t.len() ==> a.contains(#[trigger] t[i]) || (is_var_name(t[i]) && stands_in(
                e,
                t[i],
            )),
    ensures
        has_met_more(e, a, united(a, t)),
    decreases t.len(),
{
    if t.len() > 0 {
        let before = united(a, t.drop_last());
        assert forall|i: int| 0 <= i < t.drop_last().len() implies a.contains(
            #[trigger] t.drop_last()[i],
        ) || (is_var_name(t.drop_last()[i]) && stands_in(e, t.drop_last()[i])) by {
            assert(t.drop_last()[i] == t[i]);
        }
        lemma_united_met(e, a, t.drop_last());
        if first_index(before, t.last()) is None {
            lemma_first_index(before, t.last());
            if a.contains(t.last()) {
                let i = choose|i: int| 0 <= i < a.len() && a[i] == t.last();
                assert(before[i] == t.last());
            }
            assert(t[t.len() - 1] == t.last());
            assert(has_met_more(e, before, before.push(t.last())));
            lemma_met_chain(e, a, before, before.push(t.last()));
        }
    }
}

/// Taking over the variables that a body has met is meeting more variables.
pub broadcast proof fn lemma_met_in_body(
    e: ExprV,
    x: Seq<Seq<char>>,
    a: Seq<Seq<char>>,
    b: Seq<Seq<char>>,
)
    requires
        has_met_more(e, x, a),
        #[trigger] has_met_more(e, x, b),
    ensures
        has_met_more(e, a, #[trigger] united(a, b)),
{
    assert forall|i: int| 0 <= i < b.len() implies a.contains(#[trigger] b[i]) || (is_var_name(
        b[i],
    ) && stands_in(e, b[i])) by {
        if i < x.len() {
            assert(b[i] == x[i] && a[i] == x[i]);
        }
    }
    lemma_united_met(e, a, b);
}

pub broadcast group group_met {
    lemma_met_chain,
    lemma_met_in_item,
    lemma_met_one,
    lemma_met_in_body,
}

impl ScopeV {
    /// The scope with other free variables.
    pub open spec fn knowing(self, free: Seq<Seq<char>>) -> ScopeV {
        ScopeV { free, ..self }
    }

    /// The scope of a body with more local variables.
    pub open spec fn inside(self, more: Seq<Seq<char>>) -> ScopeV {
        ScopeV { locals: self.locals + more, ..self }
    }

    /// The scope in which no call becomes a jump.
    pub open spec fn nameless(self) -> ScopeV {
        ScopeV { fname: None, ..self }
    }
}

/// Instructions and the free variables met, or why there are none.
pub type CodeV = Result<(Seq<OpcodeV>, Seq<Seq<char>>), Seq<char>>;

/// Instructions followed by one more.
pub open spec fn followed(c: CodeV, op: OpcodeV) -> CodeV {
    match c {
        Ok(x) => Ok((x.0.push(op), x.1)),
        Err(e) => Err(e),
    }
}

/// The bindings of a `let*`, where an expression is one.
pub open spec fn bindings_of(e: ExprV) -> Seq<ExprV> {
    if e is List && e->List_0.len() == 3 && e->List_0[1] is List {
        e->List_0[1]->List_0
    } else {
        Seq::empty()
    }
}

/// Whether an expression is a list of two.
pub open spec fn is_pair(e: ExprV) -> bool {
    e is List && e->List_0.len() == 2
}

/// The instructions of an expression.
pub open spec fn compiled(e: ExprV, c: ScopeV, tail: bool) -> CodeV
    decreases e, bindings_of(e).len() + 1,
{
    match e {
        ExprV::Symbol(s) => if is_var_name(s) {
            match last_index(c.locals, s) {
                Some(p) => Ok((seq![OpcodeV::Load(p as u8)], c.free)),
                None => match first_index(c.free, s) {
                    Some(p) => Ok((seq![OpcodeV::LoadFree(p as u8)], c.free)),
                    None => Ok(
                        (seq![OpcodeV::LoadFree(c.free.len() as u8)], c.free.push(s)),
                    ),
                },
            }
        } else {
            Ok((seq![OpcodeV::Const(symbol(s))], c.free))
        },
        ExprV::Str(s) => Ok((seq![OpcodeV::Const(AtomV::Str(s))], c.free)),
        ExprV::Number(n) => Ok((seq![OpcodeV::Const(AtomV::Num(n))], c.free)),
        ExprV::List(items) => if items.len() == 0 {
            Ok((seq![OpcodeV::Const(AtomV::Expr(Seq::empty()))], c.free))
        } else {
            match form_of(items) {
                Form::Quote => Ok((seq![OpcodeV::Const(to_atom(items[1]))], c.free)),
                Form::Empty => Ok((seq![OpcodeV::ConstEmpty], c.free)),
                Form::Cut => Ok((seq![OpcodeV::Cut], c.free)),
                Form::Println => followed(compiled(items[1], c, false), OpcodeV::Println),
                Form::Readln => Ok((seq![OpcodeV::Readln], c.free)),
                Form::Eval => followed(compiled(items[1], c, false), OpcodeV::Eval),
                Form::Direct => compiled(items[1], c, tail),
                Form::If => match compiled(items[1], c, false) {
                    Ok(cond) => match compiled(items[2], c.knowing(cond.1), tail) {
                        Ok(yes) => match (if items.len() == 4 {
                            compiled(items[3], c.knowing(cond.1), tail)
                        } else {
                            Ok((Seq::empty(), cond.1))
                        }) {
                            Ok(no) => {
                                let free = united(united(cond.1, yes.1), no.1);
                                Ok((cond.0.push(OpcodeV::If(yes.0, no.0, free)), free))
                            },
                            Err(m) => Err(m),
                        },
                        Err(m) => Err(m),
                    },
                    Err(m) => Err(m),
                },
                Form::Case => if items[2] is List {
                    match compiled(items[1], c, false) {
                        Ok(value) => match compiled_branches(
                            items[2]->List_0,
                            c.knowing(value.1),
                            tail,
                        ) {
                            Ok(bs) => Ok((value.0.push(OpcodeV::Case(bs.0)), bs.1)),
                            Err(m) => Err(m),
                        },
                        Err(m) => Err(m),
                    }
                } else {
                    Err("case clauses must be a list"@)
                },
                Form::Match => match compiled(items[1], c, false) {
                    Ok(space) => match compiled(
                        items[3],
                        c.knowing(space.1).inside(vars_of(items[2])).nameless(),
                        true,
                    ) {
                        Ok(body) => Ok(
                            (
                                space.0.push(
                                    OpcodeV::Match(with_body(items[2], body), c.locals),
                                ),
                                space.1,
                            ),
                        ),
                        Err(m) => Err(m),
                    },
                    Err(m) => Err(m),
                },
                Form::Collapse => followed(compiled(items[1], c, false), OpcodeV::Collapse),
                Form::Superpose => if items[1] is List {
                    followed(
                        all_compiled(items[1]->List_0, c),
                        OpcodeV::Superpose(items[1]->List_0.len() as u8),
                    )
                } else {
                    followed(compiled(items[1], c, false), OpcodeV::SuperposeUnpack)
                },
                Form::Let => match compiled(items[2], c, false) {
                    Ok(value) => match compiled(
                        items[3],
                        c.knowing(value.1).inside(vars_of(items[1])),
                        tail,
                    ) {
                        Ok(body) => Ok(
                            (
                                value.0.push(OpcodeV::Let(with_body(items[1], body))),
                                united(value.1, body.1),
                            ),
                        ),
                        Err(m) => Err(m),
                    },
                    Err(m) => Err(m),
                },
                Form::LetStar => if items[1] is List {
                    compiled_let_star(e, 0, c, tail)
                } else {
                    Err("let*: bindings must be a list"@)
                },
                Form::Foldall => match compiled(items[2], c, false) {
                    Ok(g) => match compiled(items[3], c.knowing(g.1), false) {
                        Ok(i) => match compiled(items[1], c.knowing(i.1), false) {
                            Ok(f) => Ok((g.0 + i.0 + f.0 + seq![OpcodeV::Foldall], f.1)),
                            Err(m) => Err(m),
                        },
                        Err(m) => Err(m),
                    },
                    Err(m) => Err(m),
                },
                Form::Forall => match compiled(items[1], c, false) {
                    Ok(g) => match compiled(items[2], c.knowing(g.1), false) {
                        Ok(f) => Ok((g.0 + f.0 + seq![OpcodeV::Forall], f.1)),
                        Err(m) => Err(m),
                    },
                    Err(m) => Err(m),
                },
                Form::Foldl => match compiled(items[1], c, false) {
                    Ok(l) => match compiled(items[2], c.knowing(l.1), false) {
                        Ok(a) => match compiled(items[3], c.knowing(a.1), false) {
                            Ok(f) => Ok((l.0 + a.0 + f.0 + seq![OpcodeV::Foldl], f.1)),
                            Err(m) => Err(m),
                        },
                        Err(m) => Err(m),
                    },
                    Err(m) => Err(m),
                },
                Form::FoldlLambda => match compiled(items[1], c, false) {
                    Ok(l) => match compiled(items[2], c.knowing(l.1), false) {
                        Ok(a) => if !all_symbols(items.subrange(3, items.len() - 1)) {
                            Err("foldl-atom: expected variable symbol"@)
                        } else {
                            let vars = symbol_names(items.subrange(3, items.len() - 1));
                            match compiled(
                                items[items.len() - 1],
                                c.knowing(a.1).inside(vars),
                                false,
                            ) {
                                Ok(body) => Ok(
                                    (
                                        l.0 + a.0 + seq![
                                            OpcodeV::FoldlLambda(
                                                vars,
                                                BlockV { code: body.0, free_vars: body.1 },
                                            ),
                                        ],
                                        united(a.1, body.1),
                                    ),
                                ),
                                Err(m) => Err(m),
                            }
                        },
                        Err(m) => Err(m),
                    },
                    Err(m) => Err(m),
                },
                Form::Fallback => Ok((seq![OpcodeV::EvalCEK(e, c.locals)], c.free)),
                Form::Apply => {
                    let n = (items.len() - 1) as nat;
                    match all_compiled(items.subrange(1, items.len() as int), c) {
                        Ok(args) => if tail && c.fname is Some && items[0] == ExprV::Symbol(
                            c.fname->Some_0,
                        ) && n == c.arity {
                            Ok((args.0 + stores(n) + seq![OpcodeV::TailCallSelf], args.1))
                        } else {
                            match compiled(items[0], c.knowing(args.1), false) {
                                Ok(head) => Ok(
                                    (args.0 + head.0 + seq![OpcodeV::Call(n as u8)], head.1),
                                ),
                                Err(m) => Err(m),
                            }
                        },
                        Err(m) => Err(m),
                    }
                },
            }
        },
    }
}

/// The instructions that store arguments, the last one first.
pub open spec fn stores(n: nat) -> Seq<OpcodeV> {
    Seq::new(n, |i: int| OpcodeV::Store((n - 1 - i) as u8))
}

/// Whether all expressions are symbols.
pub open spec fn all_symbols(s: Seq<ExprV>) -> bool {
    forall|i: int| 0 <= i < s.len() ==> (#[trigger] s[i]) is Symbol
}

/// The names of symbols.
pub open spec fn symbol_names(s: Seq<ExprV>) -> Seq<Seq<char>> {
    Seq::new(s.len(), |i: int| s[i]->Symbol_0)
}

/// A pattern with its compiled body.
pub open spec fn with_body(pattern: ExprV, body: (Seq<OpcodeV>, Seq<Seq<char>>)) -> PatternBodyV {
    PatternBodyV {
        pattern,
        body: BlockV { code: body.0, free_vars: body.1 },
        pattern_vars: vars_of(pattern),
    }
}

/// The instructions of expressions one after the other.
pub open spec fn all_compiled(s: Seq<ExprV>, c: ScopeV) -> CodeV
    decreases s, 0nat,
{
    if s.len() == 0 {
        Ok((Seq::empty(), c.free))
    } else {
        match all_compiled(s.drop_last(), c) {
            Ok(before) => match compiled(s.last(), c.knowing(before.1), false) {
                Ok(last) => Ok((before.0 + last.0, last.1)),
                Err(m) => Err(m),
            },
            Err(m) => Err(m),
        }
    }
}

/// The compiled branches of a `case`, and the free variables met.
pub open spec fn compiled_branches(s: Seq<ExprV>, c: ScopeV, tail: bool) -> Result<
    (Seq<PatternBodyV>, Seq<Seq<char>>),
    Seq<char>,
>
    decreases s, 0nat,
{
    if s.len() == 0 {
        Ok((Seq::empty(), c.free))
    } else {
        match compiled_branches(s.drop_last(), c, tail) {
            Ok(before) => {
                let b = s.last();
                if is_pair(b) {
                    match compiled(
                        b->List_0[1],
                        c.knowing(before.1).inside(vars_of(b->List_0[0])).nameless(),
                        tail,
                    ) {
                        Ok(body) => Ok(
                            (
                                before.0.push(with_body(b->List_0[0], body)),
                                united(before.1, body.1),
                            ),
                        ),
                        Err(m) => Err(m),
                    }
                } else {
                    Err("case clause must be a list of 2 items"@)
                }
            },
            Err(m) => Err(m),
        }
    }
}

/// The instructions of a `let*` from one of its bindings on.
pub open spec fn compiled_let_star(e: ExprV, k: nat, c: ScopeV, tail: bool) -> CodeV
    decreases e, bindings_of(e).len() - k,
{
    let bs = bindings_of(e);
    if !(e is List && e->List_0.len() == 3 && e->List_0[1] is List) {
        Err("let*: bindings must be a list"@)
    } else if k >= bs.len() {
        compiled(e->List_0[2], c, tail)
    } else if !is_pair(e->List_0[1]->List_0[k as int]) {
        Err("let*: each binding must be a list of 2 items"@)
    } else {
        let b = e->List_0[1]->List_0[k as int];
        match compiled(b->List_0[1], c, false) {
            Ok(value) => match compiled_let_star(
                e,
                k + 1,
                c.knowing(value.1).inside(vars_of(b->List_0[0])),
                tail,
            ) {
                Ok(body) => Ok(
                    (
                        value.0.push(OpcodeV::Let(with_body(b->List_0[0], body))),
                        united(value.1, body.1),
                    ),
                ),
                Err(m) => Err(m),
            },
            Err(m) => Err(m),
        }
    }
}

/// Compiles one body.
pub struct VMCompiler {
    /// The names of the local variables, by position.
    pub locals: Vec<String>,
    /// The names of the free variables met so far, by position.
    pub free_vars: Vec<String>,
    /// The function whose body is compiled.
    pub fn_name: Option<String>,
    /// The number of arguments of that function.
    pub arity: usize,
}

/// The result of compiling, as a value.
pub open spec fn code_value(r: Result<Vec<Opcode>, String>, free: Seq<String>) -> CodeV {
    match r {
        Ok(v) => Ok((ops(v@), texts(free))),
        Err(m) => Err(m@),
    }
}

/// Put two pieces of code together.
fn join_code(a: Vec<Opcode>, b: Vec<Opcode>) -> (r: Vec<Opcode>)
    ensures
        ops(r@) == ops(a@) + ops(b@),
{
    let mut a = a;
    let mut b = b;
    let ghost x = a@;
    let ghost y = b@;
    a.append(&mut b);
    assert(ops(a@) =~= ops(x) + ops(y));
    a
}

/// Code of one instruction.
fn one_op(op: Opcode) -> (r: Vec<Opcode>)
    ensures
        ops(r@) == seq![op@],
{
    let mut v: Vec<Opcode> = Vec::new();
    v.push(op);
    assert(ops(v@) =~= seq![op@]);
    v
}

/// Put a pattern and its compiled body together.
fn make_pattern(pattern: &Expr, code: Vec<Opcode>, free: &Vec<String>, vars: Vec<String>) -> (r:
    PatternBody)
    requires
        texts(vars@) == vars_of(pattern@),
    ensures
        r@ == with_body(pattern@, (ops(code@), texts(free@))),
{
    let body = Block { code: Arc::new(code), free_vars: Arc::new(copy_texts(free)) };
    assert(body@ == BlockV { code: ops(code@), free_vars: texts(free@) });
    PatternBody { pattern: pattern.clone(), body, pattern_vars: Arc::new(vars) }
}

impl VMCompiler {
    /// What the compiler knows.
    pub open spec fn scope(&self) -> ScopeV {
        ScopeV {
            locals: texts(self.locals@),
            free: texts(self.free_vars@),
            fname: (match self.fn_name {
                Some(n) => Some(n@),
                None => None,
            }),
            arity: self.arity as nat,
        }
    }

    /// The scope at the start of a body with parameter patterns.
    pub open spec fn initial(patterns: Seq<ExprV>, fname: Option<Seq<char>>) -> ScopeV {
        let locals = all_noted(patterns, Seq::empty());
        ScopeV { locals, free: Seq::empty(), fname, arity: locals.len() }
    }

    /// Start compiling a body with parameter patterns.
    pub fn new(patterns: &Vec<Expr>, fn_name: Option<String>) -> (r: VMCompiler)
        ensures
            r.scope() == Self::initial(
                exprs(patterns@),
                (match fn_name {
                    Some(n) => Some(n@),
                    None => None,
                }),
            ),
    {
        broadcast use group_exprs;

        let mut locals: Vec<String> = Vec::new();
        let ghost ps = exprs(patterns@);
        let mut i: usize = 0;
        assert(ps.take(0) =~= Seq::<ExprV>::empty());
        assert(texts(locals@) =~= Seq::<Seq<char>>::empty());
        while i < patterns.len()
            invariant
                i <= patterns@.len(),
                ps == exprs(patterns@),
                texts(locals@) == all_noted(ps.take(i as int), Seq::empty()),
            decreases patterns@.len() - i,
        {
            collect_pattern_vars(&patterns[i], &mut locals);
            assert(ps.take(i + 1).drop_last() =~= ps.take(i as int));
            i += 1;
        }
        assert(ps.take(patterns@.len() as int) =~= ps);
        let arity: usize = locals.len();
        let free_vars: Vec<String> = Vec::new();
        assert(texts(free_vars@) =~= Seq::<Seq<char>>::empty());
        assert(texts(locals@).len() == locals@.len());
        VMCompiler { locals, free_vars, fn_name, arity }
    }

    /// A compiler for a body inside, with more local variables.
    fn inner(&self, more: &Vec<String>, named: bool) -> (r: VMCompiler)
        ensures
            r.scope() == (if named {
                self.scope().inside(texts(more@))
            } else {
                self.scope().inside(texts(more@)).nameless()
            }),
    {
        let mut locals = copy_texts(&self.locals);
        let mut extra = copy_texts(more);
        let ghost a = locals@;
        let ghost b = extra@;
        locals.append(&mut extra);
        assert(texts(locals@) =~= texts(a) + texts(b));
        let fn_name = if named {
            self.fn_name.clone()
        } else {
            None
        };
        VMCompiler {
            locals,
            free_vars: copy_texts(&self.free_vars),
            fn_name,
            arity: self.arity,
        }
    }

    /// Compile an expression; the instructions are put behind the given ones.
    ///
    /// With `is_tail`, a call of the function itself stores its arguments in the
    /// locals and takes the place of the call that is running. An expression
    /// that is refused leaves the instructions as they were; of the compiler,
    /// only free variables of the expression that were met on the way are new.
    pub fn compile(&mut self, expr: &Expr, code: &mut Vec<Opcode>, is_tail: bool) -> (r: Result<
        (),
        String,
    >)
        ensures
            (match compiled(expr@, old(self).scope(), is_tail) {
                Ok(c) => r is Ok && ops(final(code)@) == ops(old(code)@) + c.0
                    && final(self).scope() == old(self).scope().knowing(c.1),
                Err(m) => r matches Err(e) && e@ == m && ops(final(code)@) == ops(old(code)@)
                    && final(self).scope() == old(self).scope().knowing(final(self).scope().free),
            }),
            has_met_more(expr@, old(self).scope().free, final(self).scope().free),
    {
        match self.code_of(expr, is_tail) {
            Ok(v) => {
                let mut v = v;
                let ghost a = code@;
                let ghost b = v@;
                code.append(&mut v);
                assert(ops(code@) =~= ops(a) + ops(b));
                Ok(())
            },
            Err(e) => Err(e),
        }
    }

    /// Compile a symbol.
    fn symbol_code(&mut self, s: &String) -> (r: Vec<Opcode>)
        ensures
            compiled(ExprV::Symbol(s@), old(self).scope(), false) == Ok::<
                (Seq<OpcodeV>, Seq<Seq<char>>),
                Seq<char>,
            >((ops(r@), final(self).scope().free)),
            compiled(ExprV::Symbol(s@), old(self).scope(), true) == Ok::<
                (Seq<OpcodeV>, Seq<Seq<char>>),
                Seq<char>,
            >((ops(r@), final(self).scope().free)),
            final(self).scope() == old(self).scope().knowing(final(self).scope().free),
            has_met_more(ExprV::Symbol(s@), old(self).scope().free, final(self).scope().free),
    {
        broadcast use {lemma_texts_push, group_met};

        if !is_var(s.as_str()) {
            return one_op(Opcode::Const(Atom::sym(s.as_str())));
        }
        match last_position(&self.locals, s.as_str()) {
            Some(p) => one_op(Opcode::Load(p as u8)),
            None => match first_position(&self.free_vars, s.as_str()) {
                Some(p) => one_op(Opcode::LoadFree(p as u8)),
                None => {
                    let p: usize = self.free_vars.len();
                    assert(texts(self.free_vars@).len() == p);
                    self.free_vars.push(s.clone());
                    one_op(Opcode::LoadFree(p as u8))
                },
            },
        }
    }

    /// The instructions of an expression.
    #[verifier::rlimit(60)]
    fn code_of(&mut self, expr: &Expr, tail: bool) -> (r: Result<Vec<Opcode>, String>)
        ensures
            code_value(r, final(self).free_vars@) == compiled(expr@, old(self).scope(), tail),
            final(self).scope() == old(self).scope().knowing(final(self).scope().free),
            has_met_more(expr@, old(self).scope().free, final(self).scope().free),
        decreases expr, bindings_of(expr@).len() + 2,
    {
        broadcast use {group_exprs, group_met, group_ops};

        let ghost c = self.scope();
        match expr {
            Expr::Symbol(s) => Ok(self.symbol_code(s)),
            Expr::Str(s) => Ok(one_op(Opcode::Const(Atom::str_val(s.as_str())))),
            Expr::Number(n) => Ok(one_op(Opcode::Const(Atom::Num(n.clone())))),
            Expr::List(items) => {
                let ghost es = exprs(items@);
                assert(es.len() == items@.len());
                if items.len() == 0 {
                    let v: Vec<Atom> = Vec::new();
                    assert(atoms(v@) =~= Seq::<AtomV>::empty());
                    return Ok(one_op(Opcode::Const(Atom::expr(v))));
                }
                match find_form(items) {
                    Form::Quote => Ok(one_op(Opcode::Const(expr_to_atom(&items[1])))),
                    Form::Empty => Ok(one_op(Opcode::ConstEmpty)),
                    Form::Cut => Ok(one_op(Opcode::Cut)),
                    Form::Println => self.then_op(expr, items, 1, Opcode::Println),
                    Form::Readln => Ok(one_op(Opcode::Readln)),
                    Form::Eval => self.then_op(expr, items, 1, Opcode::Eval),
                    Form::Direct => {
                        assert(decreases_to!(expr => expr->List_0@[1]));
                        self.code_of(&items[1], tail)
                    },
                    Form::If => self.if_code(expr, items, tail),
                    Form::Case => self.case_code(expr, items, tail),
                    Form::Match => self.match_code(expr, items),
                    Form::Collapse => self.then_op(expr, items, 1, Opcode::Collapse),
                    Form::Superpose => self.superpose_code(expr, items),
                    Form::Let => self.let_code(expr, items, tail),
                    Form::LetStar => {
                        let is_list = match &items[1] {
                            Expr::List(_) => true,
                            _ => false,
                        };
                        if is_list {
                            self.let_star_code(expr, items, 0, tail)
                        } else {
                            Err("let*: bindings must be a list".to_owned())
                        }
                    },
                    Form::Foldall => self.three_code(expr, items, 2, 3, 1, Opcode::Foldall),
                    Form::Forall => self.two_code(expr, items, 1, 2, Opcode::Forall),
                    Form::Foldl => self.three_code(expr, items, 1, 2, 3, Opcode::Foldl),
                    Form::FoldlLambda => self.fold_body_code(expr, items),
                    Form::Fallback => Ok(
                        one_op(
                            Opcode::EvalCEK {
                                expr: expr.clone(),
                                local_names: Arc::new(copy_texts(&self.locals)),
                            },
                        ),
                    ),
                    Form::Apply => self.apply_code(expr, items, tail),
                }
            },
        }
    }

    /// The instructions of one item, followed by one instruction.
    fn then_op(&mut self, expr: &Expr, items: &Vec<Expr>, i: usize, op: Opcode) -> (r: Result<
        Vec<Opcode>,
        String,
    >)
        requires
            expr matches Expr::List(v) && *v == *items,
            i < items@.len(),
        ensures
            code_value(r, final(self).free_vars@) == followed(
                compiled(exprs(items@)[i as int], old(self).scope(), false),
                op@,
            ),
            final(self).scope() == old(self).scope().knowing(final(self).scope().free),
            has_met_more(expr@, old(self).scope().free, final(self).scope().free),
        decreases expr, 0nat,
    {
        broadcast use {group_exprs, group_met, group_ops};

        assert(decreases_to!(expr => expr->List_0@[i as int]));
        match self.code_of(&items[i], false) {
            Ok(v) => {
                let mut v = v;
                v.push(op);
                Ok(v)
            },
            Err(m) => Err(m),
        }
    }

    /// The instructions of two items, followed by one instruction.
    fn two_code(&mut self, expr: &Expr, items: &Vec<Expr>, i: usize, j: usize, op: Opcode) -> (r:
        Result<Vec<Opcode>, String>)
        requires
            expr matches Expr::List(v) && *v == *items,
            i < items@.len(),
            j < items@.len(),
        ensures
            code_value(r, final(self).free_vars@) == (match compiled(
                exprs(items@)[i as int],
                old(self).scope(),
                false,
            ) {
                Ok(x) => match compiled(
                    exprs(items@)[j as int],
                    old(self).scope().knowing(x.1),
                    false,
                ) {
                    Ok(y) => Ok((x.0 + y.0 + seq![op@], y.1)),
                    Err(m) => Err(m),
                },
                Err(m) => Err(m),
            }),
            final(self).scope() == old(self).scope().knowing(final(self).scope().free),
            has_met_more(expr@, old(self).scope().free, final(self).scope().free),
        decreases expr, 0nat,
    {
        broadcast use {group_exprs, group_met, group_ops};

        assert(decreases_to!(expr => expr->List_0@[i as int]));
        assert(decreases_to!(expr => expr->List_0@[j as int]));
        let x = match self.code_of(&items[i], false) {
            Ok(v) => v,
            Err(m) => {
                return Err(m);
            },
        };
        let y = match self.code_of(&items[j], false) {
            Ok(v) => v,
            Err(m) => {
                return Err(m);
            },
        };
        let v = join_code(x, y);
        Ok(join_code(v, one_op(op)))
    }

    /// The instructions of three items, followed by one instruction.
    fn three_code(
        &mut self,
        expr: &Expr,
        items: &Vec<Expr>,
        i: usize,
        j: usize,
        k: usize,
        op: Opcode,
    ) -> (r: Result<Vec<Opcode>, String>)
        requires
            expr matches Expr::List(v) && *v == *items,
            i < items@.len(),
            j < items@.len(),
            k < items@.len(),
        ensures
            code_value(r, final(self).free_vars@) == (match compiled(
                exprs(items@)[i as int],
                old(self).scope(),
                false,
            ) {
                Ok(x) => match compiled(
                    exprs(items@)[j as int],
                    old(self).scope().knowing(x.1),
                    false,
                ) {
                    Ok(y) => match compiled(
                        exprs(items@)[k as int],
                        old(self).scope().knowing(y.1),
                        false,
                    ) {
                        Ok(z) => Ok((x.0 + y.0 + z.0 + seq![op@], z.1)),
                        Err(m) => Err(m),
                    },
                    Err(m) => Err(m),
                },
                Err(m) => Err(m),
            }),
            final(self).scope() == old(self).scope().knowing(final(self).scope().free),
            has_met_more(expr@, old(self).scope().free, final(self).scope().free),
        decreases expr, 0nat,
    {
        broadcast use {group_exprs, group_met, group_ops};

        assert(decreases_to!(expr => expr->List_0@[i as int]));
        assert(decreases_to!(expr => expr->List_0@[j as int]));
        assert(decreases_to!(expr => expr->List_0@[k as int]));
        let x = match self.code_of(&items[i], false) {
            Ok(v) => v,
            Err(m) => {
                return Err(m);
            },
        };
        let y = match self.code_of(&items[j], false) {
            Ok(v) => v,
            Err(m) => {
                return Err(m);
            },
        };
        let z = match self.code_of(&items[k], false) {
            Ok(v) => v,
            Err(m) => {
                return Err(m);
            },
        };
        let v = join_code(x, y);
        let v = join_code(v, z);
        Ok(join_code(v, one_op(op)))
    }

    /// The instructions of a conditional.
    fn if_code(&mut self, expr: &Expr, items: &Vec<Expr>, tail: bool) -> (r: Result<
        Vec<Opcode>,
        String,
    >)
        requires
            expr matches Expr::List(v) && *v == *items,
            form_of(exprs(items@)) == Form::If,
        ensures
            code_value(r, final(self).free_vars@) == compiled(expr@, old(self).scope(), tail),
            final(self).scope() == old(self).scope().knowing(final(self).scope().free),
            has_met_more(expr@, old(self).scope().free, final(self).scope().free),
        decreases expr, 0nat,
    {
        broadcast use {group_exprs, group_met, group_ops};

        let ghost c = self.scope();
        let ghost es = exprs(items@);
        assert(expr@ == ExprV::List(es));
        assert(es.len() == items@.len());
        assert(decreases_to!(expr => expr->List_0@[1]));
        assert(decreases_to!(expr => expr->List_0@[2]));
        let mut code = match self.code_of(&items[1], false) {
            Ok(v) => v,
            Err(m) => {
                return Err(m);
            },
        };
        let ghost cond = self.scope();
        let none: Vec<String> = Vec::new();
        assert(texts(none@) =~= Seq::<Seq<char>>::empty());
        let mut yes = self.inner(&none, true);
        assert(cond.locals + Seq::<Seq<char>>::empty() =~= cond.locals);
        let then_code = match yes.code_of(&items[2], tail) {
            Ok(v) => v,
            Err(m) => {
                return Err(m);
            },
        };
        let mut no = self.inner(&none, true);
        let mut else_code: Vec<Opcode> = Vec::new();
        assert(ops(else_code@) =~= Seq::<OpcodeV>::empty());
        if items.len() == 4 {
            assert(decreases_to!(expr => expr->List_0@[3]));
            match no.code_of(&items[3], tail) {
                Ok(v) => {
                    else_code = v;
                },
                Err(m) => {
                    return Err(m);
                },
            }
        }
        add_missing(&mut self.free_vars, &yes.free_vars);
        add_missing(&mut self.free_vars, &no.free_vars);
        code.push(
            Opcode::If {
                then_code: Arc::new(then_code),
                else_code: Arc::new(else_code),
                free_vars: Arc::new(copy_texts(&self.free_vars)),
            },
        );
        Ok(code)
    }

    /// The instructions of a `case`.
    fn case_code(&mut self, expr: &Expr, items: &Vec<Expr>, tail: bool) -> (r: Result<
        Vec<Opcode>,
        String,
    >)
        requires
            expr matches Expr::List(v) && *v == *items,
            form_of(exprs(items@)) == Form::Case,
        ensures
            code_value(r, final(self).free_vars@) == compiled(expr@, old(self).scope(), tail),
            final(self).scope() == old(self).scope().knowing(final(self).scope().free),
            has_met_more(expr@, old(self).scope().free, final(self).scope().free),
        decreases expr, 0nat,
    {
        broadcast use {group_exprs, group_ops, lemma_texts_push};

        let ghost c = self.scope();
        let ghost es = exprs(items@);
        assert(expr@ == ExprV::List(es));
        assert(es.len() == items@.len());
        match &items[2] {
            Expr::List(clauses) => {
                let ghost cs = exprs(clauses@);
                assert(es[2] == ExprV::List(cs));
                assert(decreases_to!(expr => expr->List_0@[1]));
                let mut code = match self.code_of(&items[1], false) {
                    Ok(v) => v,
                    Err(m) => {
                        return Err(m);
                    },
                };
                let ghost start = self.scope();
                let mut out: Vec<CaseBranch> = Vec::new();
                let mut i: usize = 0;
                assert(cs.take(0) =~= Seq::<ExprV>::empty());
                assert(branches(out@) =~= Seq::<PatternBodyV>::empty());
                while i < clauses.len()
                    invariant
                        i <= clauses@.len(),
                        expr matches Expr::List(v) && *v == *items,
                        items@.len() == 3,
                        items@[2] == Expr::List(*clauses),
                        cs == exprs(clauses@),
                        es == exprs(items@),
                        expr@ == ExprV::List(es),
                        es[2] == ExprV::List(cs),
                        form_of(es) == Form::Case,
                        compiled(es[1], c, false) == Ok::<
                            (Seq<OpcodeV>, Seq<Seq<char>>),
                            Seq<char>,
                        >((ops(code@), start.free)),
                        c == old(self).scope(),
                        start == c.knowing(start.free),
                        self.scope() == start.knowing(self.scope().free),
                        has_met_more(expr@, c.free, self.scope().free),
                        compiled_branches(cs.take(i as int), start, tail) == Ok::<
                            (Seq<PatternBodyV>, Seq<Seq<char>>),
                            Seq<char>,
                        >((branches(out@), self.scope().free)),
                    decreases clauses@.len() - i,
                {
                    assert(cs.take(i + 1).drop_last() =~= cs.take(i as int));
                    assert(cs.take(i + 1).last() == clauses@[i as int]@);
                    let pair: bool = match &clauses[i] {
                        Expr::List(p) => p.len() == 2,
                        _ => false,
                    };
                    if !pair {
                        proof {
                            lemma_branches_stop(cs, start, tail, i + 1);
                        }
                        return Err("case clause must be a list of 2 items".to_owned());
                    }
                    match &clauses[i] {
                        Expr::List(p) => {
                            let ghost b = clauses@[i as int];
                            assert(b@->List_0 == exprs(p@));
                            assert(decreases_to!(expr => expr->List_0@[2]));
                            assert(decreases_to!(items@[2] => items@[2]->List_0@[i as int]));
                            assert(decreases_to!(b => b->List_0@[1]));
                            let vars = pattern_vars(&p[0]);
                            let mut body = self.inner(&vars, false);
                            match body.code_of(&p[1], tail) {
                                Ok(v) => {
                                    let ghost before = branches(out@);
                                    let ghost met = self.scope().free;
                                    add_missing(&mut self.free_vars, &body.free_vars);
                                    proof {
                                        lemma_met_in_item(b@, 1, met, body.scope().free);
                                        lemma_met_in_item(es[2], i as int, met, body.scope().free);
                                        lemma_met_in_item(expr@, 2, met, body.scope().free);
                                        lemma_met_in_body(expr@, met, met, body.scope().free);
                                        lemma_met_chain(expr@, c.free, met, self.scope().free);
                                    }
                                    let branch = CaseBranch {
                                        pattern: p[0].clone(),
                                        body: Block {
                                            code: Arc::new(v),
                                            free_vars: Arc::new(copy_texts(&body.free_vars)),
                                        },
                                        pattern_vars: Arc::new(vars),
                                    };
                                    out.push(branch);
                                    assert(branches(out@) =~= before.push(
                                        crate::eval::machine::vm::op::branch_view(branch),
                                    ));
                                },
                                Err(m) => {
                                    proof {
                                        lemma_branches_stop(cs, start, tail, i + 1);
                                    }
                                    return Err(m);
                                },
                            }
                        },
                        _ => {},
                    }
                    i += 1;
                }
                assert(cs.take(clauses@.len() as int) =~= cs);
                code.push(Opcode::Case(Arc::new(out)));
                Ok(code)
            },
            _ => Err("case clauses must be a list".to_owned()),
        }
    }

    /// The instructions of a `match`.
    fn match_code(&mut self, expr: &Expr, items: &Vec<Expr>) -> (r: Result<Vec<Opcode>, String>)
        requires
            expr matches Expr::List(v) && *v == *items,
            form_of(exprs(items@)) == Form::Match,
        ensures
            code_value(r, final(self).free_vars@) == compiled(expr@, old(self).scope(), false),
            code_value(r, final(self).free_vars@) == compiled(expr@, old(self).scope(), true),
            final(self).scope() == old(self).scope().knowing(final(self).scope().free),
            has_met_more(expr@, old(self).scope().free, final(self).scope().free),
        decreases expr, 0nat,
    {
        broadcast use {group_exprs, group_met, group_ops};

        let ghost es = exprs(items@);
        assert(expr@ == ExprV::List(es));
        assert(es.len() == items@.len());
        assert(decreases_to!(expr => expr->List_0@[1]));
        assert(decreases_to!(expr => expr->List_0@[3]));
        let mut code = match self.code_of(&items[1], false) {
            Ok(v) => v,
            Err(m) => {
                return Err(m);
            },
        };
        let vars = pattern_vars(&items[2]);
        let mut body = self.inner(&vars, false);
        match body.code_of(&items[3], true) {
            Ok(v) => {
                code.push(
                    Opcode::Match {
                        pattern: make_pattern(&items[2], v, &body.free_vars, vars),
                        local_names: Arc::new(copy_texts(&self.locals)),
                    },
                );
                Ok(code)
            },
            Err(m) => Err(m),
        }
    }

    /// The instructions of a `superpose`.
    fn superpose_code(&mut self, expr: &Expr, items: &Vec<Expr>) -> (r: Result<
        Vec<Opcode>,
        String,
    >)
        requires
            expr matches Expr::List(v) && *v == *items,
            form_of(exprs(items@)) == Form::Superpose,
        ensures
            code_value(r, final(self).free_vars@) == compiled(expr@, old(self).scope(), false),
            code_value(r, final(self).free_vars@) == compiled(expr@, old(self).scope(), true),
            final(self).scope() == old(self).scope().knowing(final(self).scope().free),
            has_met_more(expr@, old(self).scope().free, final(self).scope().free),
        decreases expr, 1nat,
    {
        broadcast use {group_exprs, group_met, group_ops};

        let ghost es = exprs(items@);
        assert(expr@ == ExprV::List(es));
        assert(es.len() == items@.len());
        match &items[1] {
            Expr::List(elems) => {
                assert(es[1] == ExprV::List(exprs(elems@)));
                assert(decreases_to!(expr => expr->List_0@[1]));
                assert(exprs(elems@).subrange(0, elems@.len() as int) =~= exprs(elems@));
                match self.all_code(&items[1], elems, 0) {
                    Ok(v) => {
                        let mut v = v;
                        v.push(Opcode::Superpose(elems.len() as u8));
                        Ok(v)
                    },
                    Err(m) => Err(m),
                }
            },
            _ => self.then_op(expr, items, 1, Opcode::SuperposeUnpack),
        }
    }

    /// The instructions of the items of a list from a position on.
    fn all_code(&mut self, expr: &Expr, items: &Vec<Expr>, from: usize) -> (r: Result<
        Vec<Opcode>,
        String,
    >)
        requires
            expr matches Expr::List(v) && *v == *items,
            from <= items@.len(),
        ensures
            code_value(r, final(self).free_vars@) == all_compiled(
                exprs(items@).subrange(from as int, items@.len() as int),
                old(self).scope(),
            ),
            final(self).scope() == old(self).scope().knowing(final(self).scope().free),
            has_met_more(expr@, old(self).scope().free, final(self).scope().free),
        decreases expr, 0nat,
    {
        broadcast use {group_exprs, group_met, group_ops};

        let ghost c = self.scope();
        let ghost es = exprs(items@).subrange(from as int, items@.len() as int);
        let mut out: Vec<Opcode> = Vec::new();
        let mut i: usize = from;
        assert(es.take(0) =~= Seq::<ExprV>::empty());
        assert(ops(out@) =~= Seq::<OpcodeV>::empty());
        while i < items.len()
            invariant
                from <= i <= items@.len(),
                expr matches Expr::List(v) && *v == *items,
                es == exprs(items@).subrange(from as int, items@.len() as int),
                c == old(self).scope(),
                self.scope() == c.knowing(self.scope().free),
                has_met_more(expr@, c.free, self.scope().free),
                all_compiled(es.take(i - from), c) == Ok::<
                    (Seq<OpcodeV>, Seq<Seq<char>>),
                    Seq<char>,
                >((ops(out@), self.scope().free)),
            decreases items@.len() - i,
        {
            assert(decreases_to!(expr => expr->List_0@[i as int]));
            assert(es.take(i - from + 1).drop_last() =~= es.take(i - from));
            assert(es.take(i - from + 1).last() == items@[i as int]@);
            match self.code_of(&items[i], false) {
                Ok(v) => {
                    out = join_code(out, v);
                },
                Err(m) => {
                    proof {
                        lemma_all_stop(es, c, i - from + 1);
                    }
                    return Err(m);
                },
            }
            i += 1;
        }
        assert(es.take(items@.len() - from) =~= es);
        Ok(out)
    }

    /// The instructions of a `let`.
    fn let_code(&mut self, expr: &Expr, items: &Vec<Expr>, tail: bool) -> (r: Result<
        Vec<Opcode>,
        String,
    >)
        requires
            expr matches Expr::List(v) && *v == *items,
            form_of(exprs(items@)) == Form::Let,
        ensures
            code_value(r, final(self).free_vars@) == compiled(expr@, old(self).scope(), tail),
            final(self).scope() == old(self).scope().knowing(final(self).scope().free),
            has_met_more(expr@, old(self).scope().free, final(self).scope().free),
        decreases expr, 0nat,
    {
        broadcast use {group_exprs, group_met, group_ops};

        let ghost es = exprs(items@);
        assert(expr@ == ExprV::List(es));
        assert(es.len() == items@.len());
        assert(decreases_to!(expr => expr->List_0@[2]));
        assert(decreases_to!(expr => expr->List_0@[3]));
        let mut code = match self.code_of(&items[2], false) {
            Ok(v) => v,
            Err(m) => {
                return Err(m);
            },
        };
        let vars = pattern_vars(&items[1]);
        let mut body = self.inner(&vars, true);
        match body.code_of(&items[3], tail) {
            Ok(v) => {
                add_missing(&mut self.free_vars, &body.free_vars);
                code.push(Opcode::Let(make_pattern(&items[1], v, &body.free_vars, vars)));
                Ok(code)
            },
            Err(m) => Err(m),
        }
    }

    /// The instructions of a `let*` from one of its bindings on.
    fn let_star_code(&mut self, expr: &Expr, items: &Vec<Expr>, k: usize, tail: bool) -> (r: Result<
        Vec<Opcode>,
        String,
    >)
        requires
            expr matches Expr::List(v) && *v == *items,
            items@.len() == 3,
            exprs(items@)[1] is List,
            k <= exprs(items@)[1]->List_0.len(),
        ensures
            code_value(r, final(self).free_vars@) == compiled_let_star(
                expr@,
                k as nat,
                old(self).scope(),
                tail,
            ),
            final(self).scope() == old(self).scope().knowing(final(self).scope().free),
            has_met_more(expr@, old(self).scope().free, final(self).scope().free),
        decreases expr, bindings_of(expr@).len() - k,
    {
        broadcast use {group_exprs, group_met, group_ops};

        let ghost es = exprs(items@);
        assert(expr@ == ExprV::List(es));
        match &items[1] {
            Expr::List(bs) => {
                assert(es[1] == ExprV::List(exprs(bs@)));
                assert(bindings_of(expr@) == exprs(bs@));
                if k >= bs.len() {
                    assert(decreases_to!(expr => expr->List_0@[2]));
                    return self.code_of(&items[2], tail);
                }
                let ghost b = bs@[k as int];
                assert(exprs(bs@)[k as int] == b@);
                match &bs[k] {
                    Expr::List(pair) => {
                        assert(b@ == ExprV::List(exprs(pair@)));
                        if pair.len() != 2 {
                            return Err("let*: each binding must be a list of 2 items".to_owned());
                        }
                        assert(decreases_to!(expr => expr->List_0@[1]));
                        assert(decreases_to!(items@[1] => items@[1]->List_0@[k as int]));
                        assert(decreases_to!(b => b->List_0@[1]));
                        let mut code = match self.code_of(&pair[1], false) {
                            Ok(v) => v,
                            Err(m) => {
                                return Err(m);
                            },
                        };
                        let vars = pattern_vars(&pair[0]);
                        let mut body = self.inner(&vars, true);
                        match body.let_star_code(expr, items, k + 1, tail) {
                            Ok(v) => {
                                add_missing(&mut self.free_vars, &body.free_vars);
                                code.push(
                                    Opcode::Let(make_pattern(&pair[0], v, &body.free_vars, vars)),
                                );
                                Ok(code)
                            },
                            Err(m) => Err(m),
                        }
                    },
                    _ => Err("let*: each binding must be a list of 2 items".to_owned()),
                }
            },
            _ => Err("let*: bindings must be a list".to_owned()),
        }
    }

    /// The instructions of a fold with a body.
    fn fold_body_code(&mut self, expr: &Expr, items: &Vec<Expr>) -> (r: Result<
        Vec<Opcode>,
        String,
    >)
        requires
            expr matches Expr::List(v) && *v == *items,
            form_of(exprs(items@)) == Form::FoldlLambda,
        ensures
            code_value(r, final(self).free_vars@) == compiled(expr@, old(self).scope(), false),
            code_value(r, final(self).free_vars@) == compiled(expr@, old(self).scope(), true),
            final(self).scope() == old(self).scope().knowing(final(self).scope().free),
            has_met_more(expr@, old(self).scope().free, final(self).scope().free),
        decreases expr, 0nat,
    {
        broadcast use {group_exprs, group_met, group_ops, lemma_texts_push};

        let ghost es = exprs(items@);
        assert(expr@ == ExprV::List(es));
        assert(es.len() == items@.len());
        let n: usize = items.len();
        assert(decreases_to!(expr => expr->List_0@[1]));
        assert(decreases_to!(expr => expr->List_0@[2]));
        assert(decreases_to!(expr => expr->List_0@[n - 1]));
        let l = match self.code_of(&items[1], false) {
            Ok(v) => v,
            Err(m) => {
                return Err(m);
            },
        };
        let a = match self.code_of(&items[2], false) {
            Ok(v) => v,
            Err(m) => {
                return Err(m);
            },
        };
        let ghost mid = es.subrange(3, n - 1);
        let mut vars: Vec<String> = Vec::new();
        let mut i: usize = 3;
        assert(texts(vars@) =~= symbol_names(mid.take(0)));
        while i < n - 1
            invariant
                3 <= i <= n - 1,
                n == items@.len(),
                es == exprs(items@),
                mid == es.subrange(3, n - 1),
                texts(vars@) == symbol_names(mid.take(i - 3)),
                forall|j: int| 0 <= j < i - 3 ==> (#[trigger] mid[j]) is Symbol,
            ensures
                i == n - 1 || !all_symbols(mid),
            decreases n - i,
        {
            assert(mid[i - 3] == items@[i as int]@);
            match &items[i] {
                Expr::Symbol(s) => {
                    vars.push(s.clone());
                    assert(symbol_names(mid.take(i - 2)) =~= symbol_names(mid.take(i - 3)).push(
                        s@,
                    ));
                },
                _ => {
                    break;
                },
            }
            i += 1;
        }
        if i < n - 1 {
            return Err("foldl-atom: expected variable symbol".to_owned());
        }
        assert(mid.take(n - 4) =~= mid);
        let mut body = self.inner(&vars, true);
        match body.code_of(&items[n - 1], false) {
            Ok(v) => {
                add_missing(&mut self.free_vars, &body.free_vars);
                let op = Opcode::FoldlLambda {
                    var_names: Arc::new(vars),
                    body: Block {
                        code: Arc::new(v),
                        free_vars: Arc::new(copy_texts(&body.free_vars)),
                    },
                };
                let code = join_code(l, a);
                Ok(join_code(code, one_op(op)))
            },
            Err(m) => Err(m),
        }
    }

    /// The instructions of an application.
    fn apply_code(&mut self, expr: &Expr, items: &Vec<Expr>, tail: bool) -> (r: Result<
        Vec<Opcode>,
        String,
    >)
        requires
            expr matches Expr::List(v) && *v == *items,
            form_of(exprs(items@)) == Form::Apply,
            items@.len() > 0,
        ensures
            code_value(r, final(self).free_vars@) == compiled(expr@, old(self).scope(), tail),
            final(self).scope() == old(self).scope().knowing(final(self).scope().free),
            has_met_more(expr@, old(self).scope().free, final(self).scope().free),
        decreases expr, 1nat,
    {
        broadcast use {group_exprs, group_met, group_ops};

        let ghost es = exprs(items@);
        assert(expr@ == ExprV::List(es));
        assert(es.len() == items@.len());
        let n: usize = items.len() - 1;
        let args = match self.all_code(expr, items, 1) {
            Ok(v) => v,
            Err(m) => {
                return Err(m);
            },
        };
        let is_self: bool = tail && n == self.arity && (match (&self.fn_name, &items[0]) {
            (Some(f), Expr::Symbol(h)) => same(f.as_str(), h.as_str()),
            _ => false,
        });
        if is_self {
            let mut v: Vec<Opcode> = Vec::new();
            let ghost want = stores(n as nat);
            let mut i: usize = n;
            assert(ops(v@) =~= want.take(0));
            while i > 0
                invariant
                    i <= n,
                    want == stores(n as nat),
                    ops(v@) == want.take(n - i),
                decreases i,
            {
                v.push(Opcode::Store((i - 1) as u8));
                assert(want.take(n - i + 1) =~= want.take(n - i).push(want[n - i]));
                i -= 1;
            }
            assert(want.take(n as int) =~= want);
            let code = join_code(args, v);
            return Ok(join_code(code, one_op(Opcode::TailCallSelf)));
        }
        assert(decreases_to!(expr => expr->List_0@[0]));
        match self.code_of(&items[0], false) {
            Ok(head) => {
                let code = join_code(args, head);
                Ok(join_code(code, one_op(Opcode::Call(n as u8))))
            },
            Err(m) => Err(m),
        }
    }
}

/// Once a branch is wrong, all are.
proof fn lemma_branches_stop(s: Seq<ExprV>, c: ScopeV, tail: bool, n: int)
    requires
        0 <= n <= s.len(),
        compiled_branches(s.take(n), c, tail) is Err,
    ensures
        compiled_branches(s, c, tail) == compiled_branches(s.take(n), c, tail),
    decreases s.len() - n,
{
    if n == s.len() {
        assert(s.take(n) =~= s);
    } else {
        assert(s.take(n + 1).drop_last() =~= s.take(n));
        lemma_branches_stop(s, c, tail, n + 1);
    }
}

/// Once an expression is wrong, all are.
proof fn lemma_all_stop(s: Seq<ExprV>, c: ScopeV, n: int)
    requires
        0 <= n <= s.len(),
        all_compiled(s.take(n), c) is Err,
    ensures
        all_compiled(s, c) == all_compiled(s.take(n), c),
    decreases s.len() - n,
{
    if n == s.len() {
        assert(s.take(n) =~= s);
    } else {
        assert(s.take(n + 1).drop_last() =~= s.take(n));
        lemma_all_stop(s, c, n + 1);
    }
}

} // verus!
