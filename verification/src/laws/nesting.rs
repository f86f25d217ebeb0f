//! How forms with several bindings are made of forms with one.
use crate::eval::machine::vm::compiler::ScopeV;
use crate::eval::machine::vm::compiler::bindings_of;
use crate::eval::machine::vm::compiler::compiled;
use crate::eval::machine::vm::compiler::compiled_let_star;
use crate::eval::machine::vm::compiler::form_of;
use crate::eval::machine::vm::compiler::is_pair;
use crate::eval::machine::vm::compiler::vars_of;
use crate::expr::ExprV;
use crate::laws::branching::lemma_forms;
use vstd::prelude::*;

verus! {

/// A `let*` form.
pub open spec fn star_form(bs: Seq<ExprV>, body: ExprV) -> ExprV {
    ExprV::List(seq![ExprV::Symbol("let*"@), ExprV::List(bs), body])
}

proof fn lemma_star_form(bs: Seq<ExprV>, body: ExprV)
    ensures
        form_of(seq![ExprV::Symbol("let*"@), ExprV::List(bs), body]) is LetStar,
{
    reveal_strlit("let*");
    reveal_strlit("quote");
    reveal_strlit("empty");
    reveal_strlit("cut");
    reveal_strlit("println!");
    reveal_strlit("readln!");
    reveal_strlit("eval");
    reveal_strlit("if");
    reveal_strlit("case");
    assert("let*"@.len() == 4 && "if"@.len() == 2 && "case"@.len() == 4);
    assert("let*"@[0] == 'l' && "case"@[0] == 'c');
}

/// The rest of a `let*` is a `let*` of the rest.
proof fn lemma_rest(
    b: ExprV,
    bs: Seq<ExprV>,
    body: ExprV,
    k: nat,
    c: ScopeV,
    tail: bool,
)
    requires
        k <= bs.len(),
    ensures
        compiled_let_star(star_form(seq![b] + bs, body), k + 1, c, tail) == compiled_let_star(
            star_form(bs, body),
            k,
            c,
            tail,
        ),
    decreases bs.len() - k,
{
    let all = seq![b] + bs;
    let e = star_form(all, body);
    let d = star_form(bs, body);
    assert(bindings_of(e) == all);
    assert(bindings_of(d) == bs);
    if k < bs.len() {
        assert(all[k as int + 1] == bs[k as int]);
        let x = bs[k as int];
        if is_pair(x) {
            if let Ok(value) = compiled(x->List_0[1], c, false) {
                lemma_rest(
                    b,
                    bs,
                    body,
                    k + 1,
                    c.knowing(value.1).inside(vars_of(x->List_0[0])),
                    tail,
                );
            }
        }
    }
}

/// `(let* ((p v) more..) body)` is compiled as `(let p v (let* (more..) body))`, and
/// `(let* () body)` as its body.
pub proof fn several_bindings_are_nested(
    p: ExprV,
    v: ExprV,
    bs: Seq<ExprV>,
    body: ExprV,
    c: ScopeV,
    tail: bool,
)
    ensures
        compiled(star_form(seq![ExprV::List(seq![p, v])] + bs, body), c, tail) == compiled(
            ExprV::List(seq![ExprV::Symbol("let"@), p, v, star_form(bs, body)]),
            c,
            tail,
        ),
        compiled(star_form(Seq::empty(), body), c, tail) == compiled(body, c, tail),
{
    let b = ExprV::List(seq![p, v]);
    let all = seq![b] + bs;
    let e = star_form(all, body);
    let d = star_form(bs, body);
    lemma_star_form(all, body);
    lemma_star_form(bs, body);
    lemma_star_form(Seq::empty(), body);
    lemma_forms(p, v, d);
    assert(bindings_of(e) == all);
    assert(all[0] == b);
    assert(compiled(e, c, tail) == compiled_let_star(e, 0, c, tail));
    if let Ok(value) = compiled(v, c, false) {
        let inner = c.knowing(value.1).inside(vars_of(p));
        lemma_rest(b, bs, body, 0, inner, tail);
        assert(compiled(d, inner, tail) == compiled_let_star(d, 0, inner, tail));
    }
    let none = star_form(Seq::empty(), body);
    assert(bindings_of(none) =~= Seq::<ExprV>::empty());
    assert(compiled(none, c, tail) == compiled_let_star(none, 0, c, tail));
}

} // verus!
