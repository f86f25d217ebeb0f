//! The types of applications.
use crate::atom::AtomV;
use crate::atom::symbol;
use crate::builtins::types::applied_type;
use crate::builtins::types::declared_type;
use crate::builtins::types::declares;
use crate::builtins::types::inferred;
use crate::builtins::types::inferred_all;
use crate::builtins::types::is_function_type;
use crate::builtins::types::signatures;
use crate::expr::Expr;
use vstd::prelude::*;

verus! {

/// The declaration of a function with the types of its arguments and its result.
pub open spec fn function_declaration(f: AtomV, ts: Seq<AtomV>, r: AtomV) -> AtomV {
    AtomV::Expr(
        seq![
            AtomV::Sym(":"@),
            f,
            AtomV::Expr(seq![AtomV::Sym("->"@)] + ts + seq![r]),
        ],
    )
}

/// Whether an atom declares a function with types of its arguments.
pub open spec fn declares_function(a: AtomV, f: AtomV, ts: Seq<AtomV>) -> bool {
    exists|r: AtomV| a == #[trigger] function_declaration(f, ts, r)
}

proof fn lemma_marks()
    ensures
        symbol(":"@) == AtomV::Sym(":"@),
        symbol("->"@) == AtomV::Sym("->"@),
{
    reveal_strlit(":");
    reveal_strlit("->");
    reveal_strlit("True");
    reveal_strlit("False");
    assert(":"@.len() == 1 && "->"@.len() == 2 && "True"@.len() == 4 && "False"@.len() == 5);
}

/// A declaration that fits gives its result type, and one that does not fit none.
proof fn lemma_signature(a: AtomV, f: AtomV, ts: Seq<AtomV>)
    ensures
        ({
            let sig = a->Expr_0[2]->Expr_0.skip(1);
            let fits = declares(a, f) && is_function_type(a->Expr_0[2], ts.len()) && sig.len()
                == ts.len() + 1 && sig.drop_last() == ts;
            &&& fits ==> declares_function(a, f, ts) && a == function_declaration(
                f,
                ts,
                sig.last(),
            )
            &&& declares_function(a, f, ts) ==> fits
        }),
{
    lemma_marks();
    if a is Expr && a->Expr_0.len() == 3 && a->Expr_0[2] is Expr {
        let items = a->Expr_0[2]->Expr_0;
        let sig = items.skip(1);
        if declares(a, f) && is_function_type(a->Expr_0[2], ts.len()) && sig.len() == ts.len() + 1
            && sig.drop_last() == ts {
            assert(sig =~= ts + seq![sig.last()]);
            assert(items =~= seq![AtomV::Sym("->"@)] + ts + seq![sig.last()]);
            assert(a->Expr_0 =~= seq![AtomV::Sym(":"@), f, AtomV::Expr(items)]);
            assert(a == function_declaration(f, ts, sig.last()));
        }
        if declares_function(a, f, ts) {
            let r = choose|r: AtomV| a == #[trigger] function_declaration(f, ts, r);
            assert(items == seq![AtomV::Sym("->"@)] + ts + seq![r]);
            assert(sig =~= ts + seq![r]);
            assert(sig.drop_last() =~= ts);
        }
    }
}

proof fn lemma_applied_type(s: Seq<AtomV>, f: AtomV, ts: Seq<AtomV>, k: int, r: AtomV)
    requires
        forall|j: int| 0 <= j < s.len() && j < k ==> !declares_function(#[trigger] s[j], f, ts),
        k < s.len() ==> 0 <= k && s[k] == function_declaration(f, ts, r),
    ensures
        applied_type(signatures(s, f, ts.len()), ts) == if k < s.len() {
            Some(r)
        } else {
            None::<AtomV>
        },
    decreases s.len(),
{
    if s.len() > 0 {
        let d = s.drop_last();
        assert forall|j: int| 0 <= j < d.len() && j < k implies !declares_function(
            #[trigger] d[j],
            f,
            ts,
        ) by {
            assert(d[j] == s[j]);
        }
        if k < d.len() {
            assert(d[k] == s[k]);
        }
        lemma_applied_type(d, f, ts, k, r);
        let a = s.last();
        assert(a == s[s.len() - 1]);
        lemma_signature(a, f, ts);
        let before = signatures(d, f, ts.len());
        let sig = a->Expr_0[2]->Expr_0.skip(1);
        assert(before.push(sig).drop_last() =~= before);
        if k == s.len() - 1 {
            assert(declares_function(a, f, ts));
            assert(function_declaration(f, ts, sig.last()) == function_declaration(f, ts, r));
            assert(seq![AtomV::Sym("->"@)] + ts + seq![r] == a->Expr_0[2]->Expr_0);
            assert((seq![AtomV::Sym("->"@)] + ts + seq![r]).last() == r);
            assert(sig.last() == r);
        } else if k >= s.len() {
            assert(!declares_function(s[s.len() - 1], f, ts));
        }
    }
}

/// An application has the result type of the first declaration of its function
/// for arguments of the types that its arguments have, where no type is declared
/// for the application itself; and where no declaration fits, its type is not
/// known.
pub proof fn applications_have_declared_result_types(
    s: Seq<AtomV>,
    f: AtomV,
    xs: Seq<AtomV>,
    ts: Seq<AtomV>,
    k: int,
    r: AtomV,
)
    requires
        ts.len() == xs.len(),
        forall|i: int| 0 <= i < xs.len() ==> inferred(#[trigger] xs[i], s) == ts[i],
        declared_type(s, AtomV::Expr(seq![f] + xs)) is None,
        forall|j: int| 0 <= j < s.len() && j < k ==> !declares_function(#[trigger] s[j], f, ts),
        k < s.len() ==> 0 <= k && s[k] == function_declaration(f, ts, r),
    ensures
        k < s.len() ==> inferred(AtomV::Expr(seq![f] + xs), s) == r,
        k >= s.len() ==> inferred(AtomV::Expr(seq![f] + xs), s) == AtomV::Expr(
            seq![symbol("get-type"@), AtomV::Expr(seq![f] + xs)],
        ),
{
    let items = seq![f] + xs;
    lemma_applied_type(s, f, ts, k, r);
    let given = inferred_all(items, s).skip(1);
    assert forall|i: int| 0 <= i < xs.len() implies #[trigger] given[i] == ts[i] by {
        assert(items[i + 1] == xs[i]);
        assert(inferred(xs[i], s) == ts[i]);
    }
    assert(given =~= ts);
    assert(items[0] == f);
}

} // verus!
