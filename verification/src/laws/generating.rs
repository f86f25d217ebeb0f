//! The values that calls with unbound variables generate.
use crate::atom::AtomV;
use crate::atom::symbol;
use crate::env::EnvV;
use crate::env::env_get;
use crate::func::ClauseV;
use crate::eval::walker::StopV;
use crate::eval::walker::WalkV;
use crate::eval::walker::generate::clause_generated;
use crate::eval::walker::generate::clauses_generated;
use crate::eval::walker::generate::concrete_args;
use crate::eval::walker::generate::generated;
use crate::eval::walker::generate::head_generated;
use crate::eval::walker::generate::is_free;
use crate::eval::walker::generate::offered;
use crate::eval::walker::matching::clause_fit;
use crate::expr::ExprV;
use crate::laws::walking::walks;
use crate::text::is_var_name;
use vstd::prelude::*;

verus! {

/// The literal that a pattern offers for an unbound variable: itself, where it is
/// a number or a name.
pub open spec fn literal_of(p: ExprV) -> Option<AtomV> {
    match p {
        ExprV::Number(n) => Some(AtomV::Num(n)),
        ExprV::Symbol(s) => if is_var_name(s) {
            None
        } else {
            Some(symbol(s))
        },
        _ => None,
    }
}

/// Whether each of several clauses with one pattern has values for the literal
/// that its pattern offers.
pub open spec fn clauses_offer(
    cs: Seq<ClauseV>,
    env: EnvV,
    s: WalkV,
    f: nat,
    es: Seq<EnvV>,
    vss: Seq<Seq<AtomV>>,
) -> bool {
    &&& cs.len() == es.len()
    &&& cs.len() == vss.len()
    &&& forall|i: int|
        0 <= i < cs.len() ==> {
            let c = #[trigger] cs[i];
            &&& c.patterns.len() == 1
            &&& literal_of(c.patterns[0]) is Some
            &&& clause_fit(
                c.patterns,
                seq![literal_of(c.patterns[0])->Some_0],
                env,
                s,
                f,
            ) == (Ok::<Option<EnvV>, StopV>(Some(es[i])), s)
            &&& walks(c.body, es[i], s, f, vss[i], s)
        }
}

proof fn lemma_clause_generated(
    c: ClauseV,
    name: Seq<char>,
    v: Seq<char>,
    env: EnvV,
    s: WalkV,
    f: nat,
    e: EnvV,
    vs: Seq<AtomV>,
)
    requires
        is_var_name(v),
        env_get(env, v) is None,
        c.patterns.len() == 1,
        literal_of(c.patterns[0]) is Some,
        clause_fit(c.patterns, seq![literal_of(c.patterns[0])->Some_0], env, s, f) == (
            Ok::<Option<EnvV>, StopV>(Some(e)),
            s,
        ),
        walks(c.body, e, s, f, vs, s),
    ensures
        clause_generated(c, seq![ExprV::Symbol(name), ExprV::Symbol(v)], env, s, f) == (
            Ok::<Seq<AtomV>, StopV>(vs),
            s,
        ),
{
    let items = seq![ExprV::Symbol(name), ExprV::Symbol(v)];
    let a = literal_of(c.patterns[0])->Some_0;
    let none: Seq<AtomV> = Seq::empty();
    assert(offered(c.patterns[0]) == Some(a));
    assert(is_free(items[1], env));
    assert(none.push(a) =~= seq![a]);
    assert(concrete_args(items, c.patterns, 1, seq![a], true, env, s, f) == (
        Ok::<Option<(Seq<AtomV>, bool)>, StopV>(Some((seq![a], true))),
        s,
    ));
    assert(concrete_args(items, c.patterns, 0, none, false, env, s, f) == (
        Ok::<Option<(Seq<AtomV>, bool)>, StopV>(Some((seq![a], true))),
        s,
    ));
}

proof fn lemma_clauses_generated(
    cs: Seq<ClauseV>,
    i: nat,
    before: Seq<AtomV>,
    name: Seq<char>,
    v: Seq<char>,
    env: EnvV,
    s: WalkV,
    f: nat,
    es: Seq<EnvV>,
    vss: Seq<Seq<AtomV>>,
)
    requires
        is_var_name(v),
        env_get(env, v) is None,
        clauses_offer(cs, env, s, f, es, vss),
        i <= cs.len(),
    ensures
        clauses_generated(
            cs,
            i,
            seq![ExprV::Symbol(name), ExprV::Symbol(v)],
            before,
            env,
            s,
            f,
        ) == (Ok::<Seq<AtomV>, StopV>(before + vss.skip(i as int).flatten()), s),
    decreases cs.len() - i,
{
    let rest = vss.skip(i as int);
    if i < cs.len() {
        lemma_clause_generated(cs[i as int], name, v, env, s, f, es[i as int], vss[i as int]);
        lemma_clauses_generated(
            cs,
            i + 1,
            before + vss[i as int],
            name,
            v,
            env,
            s,
            f,
            es,
            vss,
        );
        assert(rest.drop_first() =~= vss.skip(i as int + 1));
        assert(rest.first() == vss[i as int]);
        assert(before + rest.flatten() =~= before + vss[i as int] + vss.skip(
            i as int + 1,
        ).flatten());
    } else {
        assert(rest.flatten() =~= Seq::<AtomV>::empty());
        assert(before + rest.flatten() =~= before);
    }
}

/// A call of a function on an unbound variable generates the values of all its
/// clauses with a literal for a pattern, each for its own literal, in the order of
/// the clauses.
pub proof fn unbound_variables_generate_all_clauses(
    name: Seq<char>,
    v: Seq<char>,
    cs: Seq<ClauseV>,
    env: EnvV,
    s: WalkV,
    f: nat,
    es: Seq<EnvV>,
    vss: Seq<Seq<AtomV>>,
)
    requires
        is_var_name(v),
        env_get(env, v) is None,
        walks(ExprV::Symbol(name), env, s, f, seq![AtomV::Sym(name)], s),
        !s.t.natives.contains_key((name, 1u8)),
        s.t.clauses_of(name, 1u8) == Some(cs),
        clauses_offer(cs, env, s, f, es, vss),
        vss.flatten().len() > 0,
    ensures
        generated(ExprV::List(seq![ExprV::Symbol(name), ExprV::Symbol(v)]), env, s, f + 1) == (
            Ok::<Seq<AtomV>, StopV>(vss.flatten()),
            s,
        ),
{
    let items = seq![ExprV::Symbol(name), ExprV::Symbol(v)];
    lemma_clauses_generated(cs, 0, Seq::empty(), name, v, env, s, f, es, vss);
    assert(vss.skip(0) =~= vss);
    assert(Seq::<AtomV>::empty() + vss.flatten() =~= vss.flatten());
    assert(head_generated(AtomV::Sym(name), items, env, s, f) == (
        Ok::<Seq<AtomV>, StopV>(vss.flatten()),
        s,
    ));
}

} // verus!
