//! The values of conditions, bindings and alternatives.
use crate::atom::AtomV;
use crate::env::EnvV;
use crate::env::env_get;
use crate::eval::machine::budget::ResultV;
use crate::eval::machine::budget::raw_atoms;
use crate::eval::machine::vm::call::local_values;
use crate::eval::machine::vm::compiler::ScopeV;
use crate::eval::machine::vm::compiler::compiled;
use crate::eval::machine::vm::compiler::form_of;
use crate::eval::machine::vm::compiler::vars_of;
use crate::eval::machine::vm::compiler::with_body;
use crate::eval::machine::vm::frames::code_ended;
use crate::eval::machine::vm::frames::over_env;
use crate::eval::machine::vm::iterate::FindV;
use crate::eval::machine::vm::iterate::holds;
use crate::eval::machine::vm::iterate::if_turn;
use crate::eval::machine::vm::iterate::let_turn;
use crate::eval::machine::vm::iterate::next_match;
use crate::eval::machine::vm::iterate::propagated;
use crate::eval::machine::vm::iterate::returned;
use crate::eval::machine::vm::iterate::turn;
use crate::eval::machine::vm::iterate::with_frame;
use crate::eval::machine::vm::op::OpcodeV;
use crate::eval::machine::vm::op::PatternBodyV;
use crate::eval::machine::vm::plain::popped;
use crate::eval::machine::vm::plain::top;
use crate::eval::machine::vm::state::FrameV;
use crate::eval::machine::vm::state::KindV;
use crate::eval::machine::vm::state::VmV;
use crate::eval::machine::vm::state::WaitV;
use crate::eval::machine::vm::state::at_fresh;
use crate::eval::machine::vm::state::inherited;
use crate::eval::shared::env::linked;
use crate::eval::shared::env::prepend_then_lookup;
use crate::eval::shared::pattern::KnownV;
use crate::eval::shared::pattern::MatchV;
use crate::eval::shared::pattern::all_ground;
use crate::eval::shared::pattern::is_ground;
use crate::eval::shared::pattern::is_plain;
use crate::eval::shared::pattern::match_one;
use crate::eval::shared::pattern::matching_is_substitution;
use crate::eval::shared::pattern::stands_in;
use crate::eval::shared::pattern::stands_in_one;
use crate::eval::shared::subst::substitution_of_ground;
use crate::expr::ExprV;
use crate::func::TableV;
use crate::laws::applying::lemma_at_split;
use crate::laws::applying::lemma_behind;
use crate::laws::meaning::code_leaves;
use crate::laws::meaning::gives;
use crate::laws::meaning::is_at;
use crate::laws::meaning::is_past;
use crate::laws::meaning::is_scope;
use crate::laws::meaning::leaves;
use crate::laws::meaning::lemma_at_op;
use crate::laws::meaning::lemma_ground_same;
use crate::laws::numbers::truth_atom;
use crate::laws::running::gets;
use crate::laws::running::lemma_gets_join;
use crate::laws::running::lemma_gets_step;
use crate::laws::running::makes;
use crate::laws::searching::all_values;
use crate::laws::searching::compiles;
use crate::laws::searching::lemma_vars_stand;
use crate::text::ascii_lower;
use crate::text::lower_text;
use crate::text::united;
use vstd::prelude::*;
use vstd::string::*;

verus! {

/// Whether a machine came back from the body of its topmost frame: the frame has
/// more results, and the stack is as it was.
pub open spec fn is_back(s: VmV, vs: Seq<AtomV>, s2: VmV) -> bool {
    let f = s.frames.last();
    let g = s2.frames.last();
    &&& s2.frames.len() == s.frames.len()
    &&& s2 == (VmV {
        ip: s2.ip,
        wait: WaitV::Iterate,
        locals: s2.locals,
        env: s2.env,
        frames: s.frames.drop_last().push(g),
        ..s
    })
    &&& g == (FrameV {
        out: g.out,
        locals_to_pop: if f.kind is Call || f.kind is Eval {
            f.locals_to_pop
        } else {
            0
        },
        ..f
    })
    &&& raw_atoms(g.out) == raw_atoms(f.out) + vs
    &&& if f.kind is Call || f.kind is Eval {
        s2.locals == f.saved_locals
    } else {
        raw_atoms(s2.locals) == raw_atoms(s.locals).take(s.locals.len() - f.locals_to_pop)
    }
}

/// The body of a frame.
pub proof fn lemma_frame_body(
    s: VmV,
    t: TableV,
    code: Seq<OpcodeV>,
    vals: Seq<AtomV>,
    vs: Seq<AtomV>,
)
    requires
        code_leaves(code, vals, t, vs),
        s.code == code,
        s.ip == 0,
        s.wait is Ready,
        s.known == Seq::<KnownV>::empty(),
        !s.cut,
        s.budget is None,
        s.frames.len() > 0,
        raw_atoms(s.locals) == vals,
        s.frames.last().locals_to_pop <= s.locals.len(),
    ensures
        exists|s2: VmV| #[trigger] gets(s, t, s2, t) && is_back(s, vs, s2),
{
    assert(s.code.subrange(0, code.len() as int) =~= code);
    assert(is_at(s, code, vals));
    let s1 = choose|s1: VmV| #[trigger] gets(s, t, s1, t) && is_past(s, code.len(), vs, s1);
    let step = code_ended(s1, t);
    assert(makes(s1, t) == step) by {
        reveal(makes);
    }
    let s2 = step.1;
    assert(step.0 is Next && step.2 == t);
    lemma_gets_step(s1, t, s2, t);
    lemma_gets_join(s, t, s1, t, s2, t);
    let f = s.frames.last();
    let g = s2.frames.last();
    let rs = s1.stack.last();
    assert(popped(s1, 1).stack =~= s.stack);
    assert(raw_atoms(over_env(rs, s1.env)) =~= raw_atoms(rs));
    assert(raw_atoms(g.out) =~= raw_atoms(f.out) + vs);
    assert(raw_atoms(s1.locals).len() == s1.locals.len());
    assert(raw_atoms(s.locals).len() == s.locals.len());
    if !(f.kind is Call || f.kind is Eval) {
        assert(raw_atoms(s2.locals) =~= raw_atoms(s.locals).take(
            s.locals.len() - f.locals_to_pop,
        ));
    }
    assert(s2.frames =~= s.frames.drop_last().push(g));
    assert(is_back(s, vs, s2));
}

/// The turn of a frame that a machine is at.
pub proof fn lemma_at_frame(s: VmV, t: TableV)
    requires
        s.wait is Iterate,
    ensures
        makes(s, t) == turn(s, t),
{
    reveal(makes);
}

/// Local variables without variables in them stay what they are.
pub proof fn lemma_propagated(locals: ResultV, env: EnvV)
    requires
        all_ground(raw_atoms(locals)),
    ensures
        raw_atoms(propagated(locals, env)) == raw_atoms(locals),
{
    assert forall|i: int| 0 <= i < locals.len() implies #[trigger] raw_atoms(
        propagated(locals, env),
    )[i] == raw_atoms(locals)[i] by {
        assert(is_ground(raw_atoms(locals)[i]));
        lemma_ground_same(locals[i].0);
        substitution_of_ground(locals[i].0, env);
    }
    assert(raw_atoms(propagated(locals, env)) =~= raw_atoms(locals));
}

/// Whether an atom is the symbol `true`, in whatever case it is written.
pub open spec fn reads_true(a: AtomV) -> bool {
    match a {
        AtomV::Sym(s) => s.len() == 4 && (s[0] == 't' || s[0] == 'T') && (s[1] == 'r' || s[1]
            == 'R') && (s[2] == 'u' || s[2] == 'U') && (s[3] == 'e' || s[3] == 'E'),
        _ => false,
    }
}

/// A condition holds where it reads `true`.
pub proof fn lemma_holds(a: AtomV)
    ensures
        holds(a) == reads_true(a),
{
    reveal_strlit("true");
    assert("true"@.len() == 4 && "true"@[0] == 't' && "true"@[1] == 'r' && "true"@[2] == 'u'
        && "true"@[3] == 'e');
    if let AtomV::Sym(s) = a {
        let l = lower_text(s);
        assert(l.len() == s.len());
        if s.len() == 4 {
            assert(l[0] == ascii_lower(s[0]) && l[1] == ascii_lower(s[1]) && l[2] == ascii_lower(
                s[2],
            ) && l[3] == ascii_lower(s[3]));
            if reads_true(a) {
                assert(l =~= "true"@);
            } else {
                assert(l != "true"@);
            }
        } else {
            assert(l != "true"@);
        }
    }
}

/// The values of the branches that values of a condition choose.
pub open spec fn branch_values(cs: Seq<AtomV>, x: Seq<AtomV>, y: Seq<AtomV>) -> Seq<AtomV>
    decreases cs.len(),
{
    if cs.len() == 0 {
        Seq::empty()
    } else {
        branch_values(cs.drop_last(), x, y) + if reads_true(cs.last()) {
            x
        } else {
            y
        }
    }
}

/// The rest of a condition.
proof fn lemma_if_goes_on(
    s: VmV,
    t: TableV,
    values: ResultV,
    yes: Seq<OpcodeV>,
    no: Seq<OpcodeV>,
    vals: Seq<AtomV>,
    x: Seq<AtomV>,
    y: Seq<AtomV>,
    k: nat,
)
    requires
        s.wait is Iterate,
        s.known == Seq::<KnownV>::empty(),
        !s.cut,
        s.budget is None,
        s.frames.len() > 0,
        s.frames.last().kind == KindV::If(values, yes, no, Seq::empty()),
        s.frames.last().next == k,
        s.frames.last().locals_to_pop == 0,
        k <= values.len(),
        raw_atoms(s.frames.last().out) == branch_values(raw_atoms(values).take(k as int), x, y),
        raw_atoms(s.locals) == vals,
        all_ground(vals),
        code_leaves(yes, vals, t, x),
        code_leaves(no, vals, t, y),
    ensures
        exists|s2: VmV| #[trigger]
            gets(s, t, s2, t) && is_returned(s, branch_values(raw_atoms(values), x, y), s2),
    decreases values.len() - k,
{
    lemma_at_frame(s, t);
    let f = s.frames.last();
    let cs = raw_atoms(values);
    if k == values.len() {
        assert(cs.take(k as int) =~= cs);
        let s2 = returned(s, f.out);
        lemma_gets_step(s, t, s2, t);
        assert(is_returned(s, branch_values(cs, x, y), s2));
    } else {
        let (a, e) = values[k as int];
        lemma_holds(a);
        lemma_propagated(s.locals, e);
        let code = if holds(a) {
            yes
        } else {
            no
        };
        let more = if holds(a) {
            x
        } else {
            y
        };
        let step = if_turn(s, t, values, yes, no, Seq::empty());
        let s1 = step.1;
        assert(at_fresh(t, t.fresh) == t);
        assert(step.2 == t);
        lemma_gets_step(s, t, s1, t);
        lemma_frame_body(s1, t, code, vals, more);
        let s2 = choose|s2: VmV| #[trigger] gets(s1, t, s2, t) && is_back(s1, more, s2);
        lemma_gets_join(s, t, s1, t, s2, t);
        assert(raw_atoms(s1.locals).take(s1.locals.len() as int) =~= raw_atoms(s1.locals)) by {
            assert(raw_atoms(s1.locals).len() == s1.locals.len());
        }
        assert(cs.take((k + 1) as int).drop_last() =~= cs.take(k as int));
        assert(cs.take((k + 1) as int).last() == a);
        lemma_if_goes_on(s2, t, values, yes, no, vals, x, y, k + 1);
        let s3 = choose|s3: VmV| #[trigger]
            gets(s2, t, s3, t) && is_returned(s2, branch_values(cs, x, y), s3);
        lemma_gets_join(s, t, s2, t, s3, t);
        assert(s2.frames.drop_last() =~= s.frames.drop_last());
        assert(is_returned(s, branch_values(cs, x, y), s3));
    }
}

/// Whether a machine came back to the code that opened its topmost frame, with
/// values on the stack.
pub open spec fn is_returned(s: VmV, vs: Seq<AtomV>, s2: VmV) -> bool {
    let f = s.frames.last();
    &&& s2.stack.len() > 0
    &&& s2 == (VmV {
        frames: s.frames.drop_last(),
        code: f.return_code,
        ip: f.return_ip,
        free_vars: f.saved_free,
        bindings: f.saved_bindings,
        stack: s.stack.push(s2.stack.last()),
        env: f.saved_env,
        locals: s2.locals,
        wait: WaitV::Ready,
        ..s
    })
    &&& raw_atoms(s2.stack.last()) == vs
    &&& raw_atoms(s2.locals) == (if f.kind is Call || f.kind is Eval {
        raw_atoms(f.saved_locals)
    } else {
        raw_atoms(s.locals)
    })
}

/// The scope of a list is one of its elements.
pub proof fn lemma_part_scope(
    c: ScopeV,
    items: Seq<ExprV>,
    i: int,
    names: Seq<Seq<char>>,
    tail: bool,
)
    requires
        is_scope(c, ExprV::List(items), names, tail),
        0 <= i < items.len(),
    ensures
        is_scope(c, items[i], names, tail),
        is_scope(c, items[i], names, false),
        c.knowing(c.free) == c,
{
    if tail && c.fname is Some && stands_in(items[i], c.fname->Some_0) {
        assert(stands_in_one(items, c.fname->Some_0));
        assert(stands_in(ExprV::List(items), c.fname->Some_0));
    }
}

/// The forms with a fixed head.
pub proof fn lemma_forms(x: ExprV, y: ExprV, z: ExprV)
    ensures
        form_of(seq![ExprV::Symbol("if"@), x, y, z]) is If,
        form_of(seq![ExprV::Symbol("let"@), x, y, z]) is Let,
        form_of(seq![ExprV::Symbol("case"@), x, y]) is Case,
        form_of(seq![ExprV::Symbol("collapse"@), x]) is Collapse,
        form_of(seq![ExprV::Symbol("superpose"@), x]) is Superpose,
        form_of(seq![ExprV::Symbol("quote"@), x]) is Quote,
        form_of(seq![ExprV::Symbol("call"@), x]) is Direct,
        form_of(seq![ExprV::Symbol("reduce"@), x]) is Direct,
        form_of(seq![ExprV::Symbol("eval"@), x]) is Eval,
        form_of(seq![ExprV::Symbol("empty"@)]) is Empty,
        form_of(seq![ExprV::Symbol("foldall"@), x, y, z]) is Foldall,
        form_of(seq![ExprV::Symbol("forall"@), x, y]) is Forall,
{
    reveal_strlit("if");
    reveal_strlit("let");
    reveal_strlit("case");
    reveal_strlit("collapse");
    reveal_strlit("superpose");
    reveal_strlit("quote");
    reveal_strlit("call");
    reveal_strlit("reduce");
    reveal_strlit("eval");
    reveal_strlit("empty");
    reveal_strlit("match");
    reveal_strlit("let*");
    reveal_strlit("println!");
    reveal_strlit("foldall");
    reveal_strlit("forall");
    assert("if"@.len() == 2 && "let"@.len() == 3 && "case"@.len() == 4 && "collapse"@.len() == 8);
    assert("superpose"@.len() == 9 && "quote"@.len() == 5 && "call"@.len() == 4 && "reduce"@.len()
        == 6);
    assert("eval"@.len() == 4 && "empty"@.len() == 5 && "match"@.len() == 5 && "let*"@.len() == 4);
    assert("println!"@.len() == 8 && "println!"@[0] == 'p' && "collapse"@[0] == 'c');
    assert("call"@[0] == 'c' && "eval"@[0] == 'e' && "case"@[1] == 'a' && "let*"@[0] == 'l');
    assert("case"@[0] == 'c');
    assert("foldall"@.len() == 7 && "forall"@.len() == 6);
}

/// `(if c x y)` has the values of `x` for each value of `c` that reads `true`, and
/// the values of `y` for each other one.
pub proof fn conditions_choose_branches(
    c: ExprV,
    x: ExprV,
    y: ExprV,
    names: Seq<Seq<char>>,
    vals: Seq<AtomV>,
    t: TableV,
    cs: Seq<AtomV>,
    vx: Seq<AtomV>,
    vy: Seq<AtomV>,
)
    requires
        gives(c, names, vals, t, cs),
        gives(x, names, vals, t, vx),
        gives(y, names, vals, t, vy),
        all_ground(vals),
    ensures
        gives(
            ExprV::List(seq![ExprV::Symbol("if"@), c, x, y]),
            names,
            vals,
            t,
            branch_values(cs, vx, vy),
        ),
        cs == seq![truth_atom(true)] ==> branch_values(cs, vx, vy) == vx,
        cs == seq![truth_atom(false)] ==> branch_values(cs, vx, vy) == vy,
{
    let items = seq![ExprV::Symbol("if"@), c, x, y];
    let e = ExprV::List(items);
    let want = branch_values(cs, vx, vy);
    lemma_forms(c, x, y);
    assert forall|sc: ScopeV, tail: bool|
        #![trigger compiled(e, sc, tail)]
        is_scope(sc, e, names, tail) implies {
        &&& compiled(e, sc, tail) is Ok
        &&& compiled(e, sc, tail)->Ok_0.1 == Seq::<Seq<char>>::empty()
        &&& code_leaves(compiled(e, sc, tail)->Ok_0.0, vals, t, want)
    } by {
        lemma_part_scope(sc, items, 1, names, tail);
        lemma_part_scope(sc, items, 2, names, tail);
        lemma_part_scope(sc, items, 3, names, tail);
        let a = compiled(c, sc, false)->Ok_0;
        let yes = compiled(x, sc, tail)->Ok_0;
        let no = compiled(y, sc, tail)->Ok_0;
        let free: Seq<Seq<char>> = Seq::empty();
        assert(united(united(a.1, yes.1), no.1) == free);
        let op = OpcodeV::If(yes.0, no.0, free);
        let code = a.0.push(op);
        assert(code =~= a.0 + seq![op]);
        assert forall|s: VmV| #[trigger] is_at(s, code, vals) implies leaves(
            s,
            t,
            code.len(),
            want,
        ) by {
            lemma_at_split(s, a.0, seq![op], vals);
            assert(leaves(s, t, a.0.len(), cs));
            let s1 = choose|s1: VmV| #[trigger] gets(s, t, s1, t) && is_past(s, a.0.len(), cs, s1);
            lemma_behind(s, a.0, seq![op], vals, s1);
            lemma_at_op(s1, t, op, vals);
            let values = s1.stack.last();
            let q = popped(s1, 1);
            assert(q.stack =~= s.stack);
            let none: ResultV = Seq::empty();
            let s2 = with_frame(q, KindV::If(values, yes.0, no.0, free), none);
            assert(top(s1, 0) == values);
            lemma_gets_step(s1, t, s2, t);
            lemma_gets_join(s, t, s1, t, s2, t);
            assert(raw_atoms(none) =~= Seq::<AtomV>::empty());
            assert(raw_atoms(values).take(0) =~= Seq::<AtomV>::empty());
            lemma_if_goes_on(s2, t, values, yes.0, no.0, vals, vx, vy, 0);
            let s3 = choose|s3: VmV| #[trigger] gets(s2, t, s3, t) && is_returned(s2, want, s3);
            lemma_gets_join(s, t, s2, t, s3, t);
            assert(s2.frames.drop_last() =~= s.frames);
            assert(is_past(s, code.len(), want, s3));
        }
    }
    lemma_truths_read();
    if cs.len() == 1 {
        assert(cs.drop_last() =~= Seq::<AtomV>::empty());
        assert(branch_values(cs.drop_last(), vx, vy) =~= Seq::<AtomV>::empty());
        assert(want =~= (if reads_true(cs[0]) {
            vx
        } else {
            vy
        }));
    }
}

/// Of the truth values, only the true one reads `true`.
pub proof fn lemma_truths_read()
    ensures
        reads_true(truth_atom(true)),
        !reads_true(truth_atom(false)),
{
    reveal_strlit("true");
    reveal_strlit("false");
    assert("true"@.len() == 4 && "true"@[0] == 't' && "true"@[1] == 'r' && "true"@[2] == 'u'
        && "true"@[3] == 'e');
    assert("false"@.len() == 5);
}

/// The values of a pattern's variables in an environment.
pub open spec fn values_in(p: ExprV, m: EnvV) -> Seq<AtomV> {
    Seq::new(vars_of(p).len(), |i: int| env_get(m, vars_of(p)[i])->Some_0)
}

/// Whether a body has a list of values for each of some values: for one that
/// matches the pattern those of the body with the pattern's variables bound, and
/// for another none.
pub open spec fn body_gives(
    p: ExprV,
    code: Seq<OpcodeV>,
    vals: Seq<AtomV>,
    t: TableV,
    vs: Seq<AtomV>,
    vss: Seq<Seq<AtomV>>,
) -> bool {
    &&& vss.len() == vs.len()
    &&& forall|k: int|
        0 <= k < vs.len() ==> match match_one(p, #[trigger] vs[k], EnvV::Empty, Seq::empty()) {
            MatchV::Yes(m) => code_leaves(code, vals + values_in(p, m), t, vss[k]),
            MatchV::No => vss[k] == Seq::<AtomV>::empty(),
            MatchV::Ask(_, _) => false,
        }
}

/// The next value that matches, if there is one, and those before it that do not.
proof fn lemma_next_match(
    values: ResultV,
    i: nat,
    p: ExprV,
    code: Seq<OpcodeV>,
    vals: Seq<AtomV>,
    t: TableV,
    vss: Seq<Seq<AtomV>>,
)
    requires
        i <= values.len(),
        body_gives(p, code, vals, t, raw_atoms(values), vss),
    ensures
        ({
            let r = next_match(values, i, p, Seq::empty());
            &&& !(r is Ask)
            &&& r is Nothing ==> all_values(vss.skip(i as int)) == Seq::<AtomV>::empty()
            &&& r matches FindV::Found(k, m) ==> {
                &&& i <= k < values.len()
                &&& match_one(p, values[k as int].0, EnvV::Empty, Seq::empty()) == MatchV::Yes(m)
                &&& all_values(vss.skip(i as int)) == vss[k as int] + all_values(
                    vss.skip(k as int + 1),
                )
            }
        }),
    decreases values.len() - i,
{
    let vs = raw_atoms(values);
    if i < values.len() {
        assert(vs[i as int] == values[i as int].0);
        let rest = vss.skip(i as int);
        assert(rest[0] == vss[i as int]);
        assert(rest.skip(1) =~= vss.skip(i as int + 1));
        match match_one(p, values[i as int].0, EnvV::Empty, Seq::empty()) {
            MatchV::No => {
                lemma_next_match(values, i + 1, p, code, vals, t, vss);
                assert(all_values(rest) =~= all_values(vss.skip(i as int + 1)));
            },
            _ => {},
        }
    } else {
        assert(vss.skip(i as int) =~= Seq::<Seq<AtomV>>::empty());
    }
}

/// The rest of a binding.
proof fn lemma_let_goes_on(
    s: VmV,
    t: TableV,
    values: ResultV,
    p: PatternBodyV,
    vals: Seq<AtomV>,
    vss: Seq<Seq<AtomV>>,
    k: nat,
    done: Seq<AtomV>,
)
    requires
        s.wait is Iterate,
        s.known == Seq::<KnownV>::empty(),
        !s.cut,
        s.budget is None,
        s.frames.len() > 0,
        s.frames.last().kind == KindV::Let(values, p),
        s.frames.last().next == k,
        s.frames.last().locals_to_pop == 0,
        k <= values.len(),
        raw_atoms(s.frames.last().out) == done,
        raw_atoms(s.locals) == vals,
        all_ground(vals),
        all_ground(raw_atoms(values)),
        is_plain(p.pattern),
        p.pattern_vars == vars_of(p.pattern),
        p.body.free_vars == Seq::<Seq<char>>::empty(),
        body_gives(p.pattern, p.body.code, vals, t, raw_atoms(values), vss),
    ensures
        exists|s2: VmV| #[trigger]
            gets(s, t, s2, t) && is_returned(s, done + all_values(vss.skip(k as int)), s2),
    decreases values.len() - k,
{
    lemma_at_frame(s, t);
    let f = s.frames.last();
    let want = done + all_values(vss.skip(k as int));
    lemma_next_match(values, k, p.pattern, p.body.code, vals, t, vss);
    match next_match(values, k, p.pattern, Seq::empty()) {
        FindV::Nothing => {
            let s2 = returned(s, f.out);
            lemma_gets_step(s, t, s2, t);
            assert(want =~= done);
            assert(is_returned(s, want, s2));
        },
        FindV::Found(i, m) => {
            let env = linked(m, values[i as int].1);
            let a = values[i as int].0;
            assert(raw_atoms(values)[i as int] == a);
            assert(is_ground(raw_atoms(values)[i as int]));
            matching_is_substitution(p.pattern, a, EnvV::Empty, Seq::empty());
            lemma_propagated(s.locals, env);
            lemma_vars_stand(p.pattern);
            let more = local_values(p.pattern_vars, env);
            let inner = propagated(s.locals, env) + more;
            let vars = vars_of(p.pattern);
            assert forall|j: int| 0 <= j < vars.len() implies #[trigger] raw_atoms(more)[j]
                == values_in(p.pattern, m)[j] by {
                assert(vars.contains(vars[j]));
                prepend_then_lookup(m, values[i as int].1, vars[j]);
                assert(env_get(m, vars[j]) is Some);
            }
            let outer = propagated(s.locals, env);
            assert(raw_atoms(more) =~= values_in(p.pattern, m));
            assert(raw_atoms(inner) =~= raw_atoms(outer) + raw_atoms(more));
            assert(raw_atoms(inner) =~= vals + values_in(p.pattern, m));
            let step = let_turn(s, t, values, p);
            let s1 = step.1;
            assert(at_fresh(t, t.fresh) == t);
            assert(inherited(p.body.free_vars, s.free_vars, s.bindings, t.fresh).1 == t.fresh);
            assert(step.2 == t);
            lemma_gets_step(s, t, s1, t);
            assert(raw_atoms(inner).len() == inner.len());
            lemma_frame_body(s1, t, p.body.code, vals + values_in(p.pattern, m), vss[i as int]);
            let s2 = choose|s2: VmV| #[trigger]
                gets(s1, t, s2, t) && is_back(s1, vss[i as int], s2);
            lemma_gets_join(s, t, s1, t, s2, t);
            assert(raw_atoms(s2.locals) =~= vals);
            lemma_let_goes_on(s2, t, values, p, vals, vss, i + 1, done + vss[i as int]);
            let rest = all_values(vss.skip(i as int + 1));
            let s3 = choose|s3: VmV| #[trigger]
                gets(s2, t, s3, t) && is_returned(s2, done + vss[i as int] + rest, s3);
            lemma_gets_join(s, t, s2, t, s3, t);
            assert(s2.frames.drop_last() =~= s.frames.drop_last());
            assert(done + vss[i as int] + rest =~= want);
            assert(is_returned(s, want, s3));
        },
        FindV::Ask(_, _) => {},
    }
}

/// `(let pattern v body)` has, for each value of `v` that matches the pattern, the
/// values of the body with the pattern's variables bound to what they stand for,
/// in the order of the values of `v`.
pub proof fn bindings_bind_variables(
    p: ExprV,
    v: ExprV,
    body: ExprV,
    names: Seq<Seq<char>>,
    vals: Seq<AtomV>,
    t: TableV,
    vs: Seq<AtomV>,
    vss: Seq<Seq<AtomV>>,
)
    requires
        is_plain(p),
        gives(v, names, vals, t, vs),
        all_ground(vals),
        all_ground(vs),
        compiles(body, names + vars_of(p)),
        vss.len() == vs.len(),
        forall|k: int|
            0 <= k < vs.len() ==> match match_one(
                p,
                #[trigger] vs[k],
                EnvV::Empty,
                Seq::empty(),
            ) {
                MatchV::Yes(m) => gives(
                    body,
                    names + vars_of(p),
                    vals + values_in(p, m),
                    t,
                    vss[k],
                ),
                _ => vss[k] == Seq::<AtomV>::empty(),
            },
    ensures
        gives(
            ExprV::List(seq![ExprV::Symbol("let"@), p, v, body]),
            names,
            vals,
            t,
            all_values(vss),
        ),
{
    let items = seq![ExprV::Symbol("let"@), p, v, body];
    let e = ExprV::List(items);
    let want = all_values(vss);
    lemma_forms(p, v, body);
    assert forall|sc: ScopeV, tail: bool|
        #![trigger compiled(e, sc, tail)]
        is_scope(sc, e, names, tail) implies {
        &&& compiled(e, sc, tail) is Ok
        &&& compiled(e, sc, tail)->Ok_0.1 == Seq::<Seq<char>>::empty()
        &&& code_leaves(compiled(e, sc, tail)->Ok_0.0, vals, t, want)
    } by {
        lemma_part_scope(sc, items, 2, names, tail);
        lemma_part_scope(sc, items, 3, names, tail);
        let a = compiled(v, sc, false)->Ok_0;
        let inner = sc.knowing(a.1).inside(vars_of(p));
        assert(is_scope(inner, body, names + vars_of(p), tail));
        let b = compiled(body, inner, tail)->Ok_0;
        assert(united(a.1, b.1) == Seq::<Seq<char>>::empty());
        let pb = with_body(p, b);
        let op = OpcodeV::Let(pb);
        let code = a.0.push(op);
        assert(code =~= a.0 + seq![op]);
        assert(body_gives(p, b.0, vals, t, vs, vss)) by {
            assert forall|k: int| 0 <= k < vs.len() implies match match_one(
                p,
                #[trigger] vs[k],
                EnvV::Empty,
                Seq::empty(),
            ) {
                MatchV::Yes(m) => code_leaves(b.0, vals + values_in(p, m), t, vss[k]),
                MatchV::No => vss[k] == Seq::<AtomV>::empty(),
                MatchV::Ask(_, _) => false,
            } by {
                assert(is_ground(vs[k]));
                matching_is_substitution(p, vs[k], EnvV::Empty, Seq::empty());
                if let MatchV::Yes(m) = match_one(p, vs[k], EnvV::Empty, Seq::empty()) {
                    assert(gives(body, names + vars_of(p), vals + values_in(p, m), t, vss[k]));
                }
            }
        }
        assert forall|s: VmV| #[trigger] is_at(s, code, vals) implies leaves(
            s,
            t,
            code.len(),
            want,
        ) by {
            lemma_at_split(s, a.0, seq![op], vals);
            assert(leaves(s, t, a.0.len(), vs));
            let s1 = choose|s1: VmV| #[trigger] gets(s, t, s1, t) && is_past(s, a.0.len(), vs, s1);
            lemma_behind(s, a.0, seq![op], vals, s1);
            lemma_at_op(s1, t, op, vals);
            let values = s1.stack.last();
            let q = popped(s1, 1);
            assert(q.stack =~= s.stack);
            let none: ResultV = Seq::empty();
            let s2 = with_frame(q, KindV::Let(values, pb), none);
            assert(top(s1, 0) == values);
            lemma_gets_step(s1, t, s2, t);
            lemma_gets_join(s, t, s1, t, s2, t);
            let done: Seq<AtomV> = Seq::empty();
            assert(raw_atoms(none) =~= done);
            lemma_let_goes_on(s2, t, values, pb, vals, vss, 0, done);
            assert(vss.skip(0) =~= vss);
            assert(done + want =~= want);
            let s3 = choose|s3: VmV| #[trigger] gets(s2, t, s3, t) && is_returned(s2, want, s3);
            lemma_gets_join(s, t, s2, t, s3, t);
            assert(s2.frames.drop_last() =~= s.frames);
            assert(is_past(s, code.len(), want, s3));
        }
    }
}

} // verus!
