//! Built-in functions on numbers.
//!
//! Sums, differences, products, remainders and comparisons of two numbers are
//! computed here. Whatever needs floating-point numbers is handed over to the
//! host.
use crate::atom::Atom;
use crate::atom::AtomV;
use crate::atom::atom_same;
use crate::atom::atoms;
use crate::atom::copy_atoms;
use crate::atom::group_atoms;
use crate::atom::symbol;
use crate::builtins::Answer;
use crate::builtins::AnswerV;
use crate::builtins::Row;
use crate::builtins::RowV;
use crate::builtins::add_row;
use crate::builtins::answer_one;
use crate::builtins::boolean::bool_atom;
use crate::builtins::boolean::truth;
use crate::builtins::one;
use crate::builtins::register_rows;
use crate::builtins::rows;
use crate::builtins::with_rows;
use crate::func::Builtin;
use crate::func::FloatFn;
use crate::func::FnTable;
use crate::func::TableV;
use crate::numeric::NumV;
use crate::numeric::num_difference;
use crate::numeric::num_less;
use crate::numeric::num_product;
use crate::numeric::num_remainder;
use crate::numeric::num_sum;
use crate::numeric::numeric_add;
use crate::numeric::numeric_below;
use crate::numeric::numeric_mul;
use crate::numeric::numeric_rem;
use crate::numeric::numeric_sub;
use crate::text::i64_text;
use crate::text::int_text;
use crate::text::is_var;
use crate::text::is_var_name;
use crate::text::nat_digits;
use crate::text::same;
use crate::text::usize_text;
use rand::Rng;
use vstd::prelude::*;
use vstd::string::*;

verus! {

/// The complaint about a wrong number of arguments.
pub open spec fn wrong_count(name: Seq<char>, n: nat, got: nat) -> Seq<char> {
    name + ": expected "@ + nat_digits(n) + " args, got "@ + nat_digits(got)
}

/// Check the expected arity for a builtin call.
pub fn expect_n_args(args: &Vec<Atom>, n: usize, name: &str) -> (r: Result<(), String>)
    ensures
        r is Ok == (args@.len() == n),
        r matches Err(e) ==> e@ == wrong_count(name@, n as nat, args@.len()),
{
    if args.len() != n {
        let mut out: String = name.to_owned();
        out.append(": expected ");
        let a = usize_text(n);
        out.append(a.as_str());
        out.append(" args, got ");
        let b = usize_text(args.len());
        out.append(b.as_str());
        return Err(out);
    }
    Ok(())
}

/// The answer of a function of two numbers: the result when both arguments are
/// numbers, and otherwise what the host makes of them.
pub open spec fn two_numbers(
    b: Builtin,
    name: Seq<char>,
    args: Seq<AtomV>,
    result: AnswerV,
) -> AnswerV {
    if args.len() != 2 {
        AnswerV::Fail(wrong_count(name, 2, args.len()))
    } else if args[0] is Num && args[1] is Num {
        result
    } else {
        AnswerV::Host(b, name, args)
    }
}

/// The answer of `+`.
pub open spec fn sum_answer(name: Seq<char>, args: Seq<AtomV>) -> AnswerV {
    two_numbers(
        Builtin::Add,
        name,
        args,
        one(AtomV::Num(num_sum(args[0]->Num_0, args[1]->Num_0))),
    )
}

/// The answer of `-`.
pub open spec fn difference_answer(name: Seq<char>, args: Seq<AtomV>) -> AnswerV {
    two_numbers(
        Builtin::Sub,
        name,
        args,
        one(AtomV::Num(num_difference(args[0]->Num_0, args[1]->Num_0))),
    )
}

/// The answer of `*`.
pub open spec fn product_answer(name: Seq<char>, args: Seq<AtomV>) -> AnswerV {
    two_numbers(
        Builtin::Mul,
        name,
        args,
        one(AtomV::Num(num_product(args[0]->Num_0, args[1]->Num_0))),
    )
}

/// The answer of `/`: the host divides.
pub open spec fn quotient_answer(name: Seq<char>, args: Seq<AtomV>) -> AnswerV {
    if args.len() != 2 {
        AnswerV::Fail(wrong_count(name, 2, args.len()))
    } else {
        AnswerV::Host(Builtin::Div, name, args)
    }
}

/// The answer of `%`: a refused remainder is a symbol that says why.
pub open spec fn remainder_answer(name: Seq<char>, args: Seq<AtomV>) -> AnswerV {
    two_numbers(
        Builtin::Rem,
        name,
        args,
        one(
            match num_remainder(args[0]->Num_0, args[1]->Num_0) {
                Ok(n) => AtomV::Num(n),
                Err(e) => symbol(e),
            },
        ),
    )
}

/// Whether two numbers compare as an operator asks.
pub open spec fn compares(b: Builtin, x: NumV, y: NumV) -> bool {
    match b {
        Builtin::Below => num_less(x, y),
        Builtin::Above => num_less(y, x),
        Builtin::AtMost => !num_less(y, x),
        _ => !num_less(x, y),
    }
}

/// The answer of `<`, `>`, `<=` and `>=`.
pub open spec fn order_answer(b: Builtin, name: Seq<char>, args: Seq<AtomV>) -> AnswerV {
    two_numbers(b, name, args, one(truth(compares(b, args[0]->Num_0, args[1]->Num_0))))
}

/// Leave a call to the host.
pub fn hand_over(b: Builtin, name: &str, args: &Vec<Atom>) -> (r: Answer)
    ensures
        r@ == AnswerV::Host(b, name@, atoms(args@)),
{
    let copy = copy_atoms(args, 0);
    assert(args@.skip(0) =~= args@);
    Answer::Host(b, name.to_owned(), copy)
}

/// Add two values.
pub fn plus(name: &str, args: &Vec<Atom>) -> (r: Answer)
    ensures
        r@ == sum_answer(name@, atoms(args@)),
{
    broadcast use group_atoms;

    match expect_n_args(args, 2, name) {
        Ok(_) => {},
        Err(e) => {
            return Answer::Fail(e);
        },
    }
    assert(atoms(args@)[0] == args@[0]@ && atoms(args@)[1] == args@[1]@);
    match (&args[0], &args[1]) {
        (Atom::Num(a), Atom::Num(b)) => answer_one(Atom::Num(numeric_add(a, b))),
        _ => hand_over(Builtin::Add, name, args),
    }
}

/// Subtract two values.
pub fn minus(name: &str, args: &Vec<Atom>) -> (r: Answer)
    ensures
        r@ == difference_answer(name@, atoms(args@)),
{
    broadcast use group_atoms;

    match expect_n_args(args, 2, name) {
        Ok(_) => {},
        Err(e) => {
            return Answer::Fail(e);
        },
    }
    assert(atoms(args@)[0] == args@[0]@ && atoms(args@)[1] == args@[1]@);
    match (&args[0], &args[1]) {
        (Atom::Num(a), Atom::Num(b)) => answer_one(Atom::Num(numeric_sub(a, b))),
        _ => hand_over(Builtin::Sub, name, args),
    }
}

/// Multiply two values.
pub fn times(name: &str, args: &Vec<Atom>) -> (r: Answer)
    ensures
        r@ == product_answer(name@, atoms(args@)),
{
    broadcast use group_atoms;

    match expect_n_args(args, 2, name) {
        Ok(_) => {},
        Err(e) => {
            return Answer::Fail(e);
        },
    }
    assert(atoms(args@)[0] == args@[0]@ && atoms(args@)[1] == args@[1]@);
    match (&args[0], &args[1]) {
        (Atom::Num(a), Atom::Num(b)) => answer_one(Atom::Num(numeric_mul(a, b))),
        _ => hand_over(Builtin::Mul, name, args),
    }
}

/// Divide two values.
pub fn divide(name: &str, args: &Vec<Atom>) -> (r: Answer)
    ensures
        r@ == quotient_answer(name@, atoms(args@)),
{
    broadcast use group_atoms;

    match expect_n_args(args, 2, name) {
        Ok(_) => hand_over(Builtin::Div, name, args),
        Err(e) => Answer::Fail(e),
    }
}

/// Take the remainder of two values.
pub fn remainder(name: &str, args: &Vec<Atom>) -> (r: Answer)
    ensures
        r@ == remainder_answer(name@, atoms(args@)),
{
    broadcast use group_atoms;

    match expect_n_args(args, 2, name) {
        Ok(_) => {},
        Err(e) => {
            return Answer::Fail(e);
        },
    }
    assert(atoms(args@)[0] == args@[0]@ && atoms(args@)[1] == args@[1]@);
    match (&args[0], &args[1]) {
        (Atom::Num(a), Atom::Num(b)) => match numeric_rem(a, b) {
            Ok(n) => answer_one(Atom::Num(n)),
            Err(e) => answer_one(Atom::sym(e.as_str())),
        },
        _ => hand_over(Builtin::Rem, name, args),
    }
}

/// Compare two values.
pub fn order(b: Builtin, name: &str, args: &Vec<Atom>) -> (r: Answer)
    ensures
        r@ == order_answer(b, name@, atoms(args@)),
{
    broadcast use group_atoms;

    match expect_n_args(args, 2, name) {
        Ok(_) => {},
        Err(e) => {
            return Answer::Fail(e);
        },
    }
    assert(atoms(args@)[0] == args@[0]@ && atoms(args@)[1] == args@[1]@);
    match (&args[0], &args[1]) {
        (Atom::Num(x), Atom::Num(y)) => {
            let holds = match b {
                Builtin::Below => numeric_below(x, y),
                Builtin::Above => numeric_below(y, x),
                Builtin::AtMost => !numeric_below(y, x),
                _ => !numeric_below(x, y),
            };
            answer_one(bool_atom(holds))
        },
        _ => hand_over(b, name, args),
    }
}

/// Draw a random integer.
///
/// Calls `rand`'s `gen_range` on the thread's generator with an inclusive
/// range; the number drawn lies in the range. The call panics on an empty
/// range. Which number of the range comes is left open.
#[verifier::external_body]
fn draw_between(min: i64, max: i64) -> (r: i64)
    requires
        min <= max,
    ensures
        min <= r <= max,
{
    rand::thread_rng().gen_range(min..=max)
}

/// Draw a random integer from an inclusive range; an empty range is refused.
pub fn random_int(min: i64, max: i64) -> (r: Result<Atom, String>)
    ensures
        r is Ok == (min <= max),
        r matches Ok(a) ==> (a@ matches AtomV::Num(NumV::Int(n)) && min <= n <= max),
        r matches Err(e) ==> e@ == "random-int: min "@ + int_text(min as int) + " > max "@
            + int_text(max as int),
{
    if min > max {
        let mut out: String = "random-int: min ".to_owned();
        let a = i64_text(min);
        out.append(a.as_str());
        out.append(" > max ");
        let b = i64_text(max);
        out.append(b.as_str());
        return Err(out);
    }
    let n: i64 = draw_between(min, max);
    let a = Atom::num(n as i128);
    assert(a@ == AtomV::Num(NumV::Int(n as int)));
    Ok(a)
}

/// A pairing of the variables of two atoms.
pub type PairingV = Seq<(Seq<char>, Seq<char>)>;

/// Whether a pair of variables fits a pairing: each is paired with the other
/// wherever either occurs.
pub open spec fn fits(m: PairingV, x: Seq<char>, y: Seq<char>) -> bool {
    forall|i: int| 0 <= i < m.len() ==> ((#[trigger] m[i]).0 == x <==> m[i].1 == y)
}

/// The pairing under which two atoms are the same up to renaming of variables.
/// Variables are paired one to one.
pub open spec fn alpha(a: AtomV, b: AtomV, m: PairingV) -> Option<PairingV>
    decreases a,
{
    match (a, b) {
        (AtomV::Sym(x), AtomV::Sym(y)) => if is_var_name(x) && is_var_name(y) {
            if fits(m, x, y) {
                Some(m.push((x, y)))
            } else {
                None
            }
        } else if !is_var_name(x) && !is_var_name(y) && x == y {
            Some(m)
        } else {
            None
        },
        (AtomV::Num(x), AtomV::Num(y)) => if x == y {
            Some(m)
        } else {
            None
        },
        (AtomV::Expr(xs), AtomV::Expr(ys)) => if xs.len() == ys.len() {
            alpha_all(xs, ys, m)
        } else {
            None
        },
        _ => if a == b {
            Some(m)
        } else {
            None
        },
    }
}

/// The pairing under which two lists of atoms are the same.
pub open spec fn alpha_all(xs: Seq<AtomV>, ys: Seq<AtomV>, m: PairingV) -> Option<PairingV>
    decreases xs,
{
    if xs.len() == 0 {
        Some(m)
    } else {
        match alpha_all(xs.drop_last(), ys.drop_last(), m) {
            Some(n) => alpha(xs.last(), ys.last(), n),
            None => None,
        }
    }
}

/// Whether two atoms are the same up to renaming of variables.
pub open spec fn alpha_same(a: AtomV, b: AtomV) -> bool {
    alpha(a, b, Seq::empty()) is Some
}

/// Once a prefix differs, so does the whole.
proof fn lemma_alpha_stops(xs: Seq<AtomV>, ys: Seq<AtomV>, m: PairingV, n: int)
    requires
        0 <= n <= xs.len(),
        xs.len() == ys.len(),
        alpha_all(xs.take(n), ys.take(n), m) is None,
    ensures
        alpha_all(xs, ys, m) is None,
    decreases xs.len() - n,
{
    if n == xs.len() {
        assert(xs.take(n) =~= xs);
        assert(ys.take(n) =~= ys);
    } else {
        assert(xs.take(n + 1).drop_last() =~= xs.take(n));
        assert(ys.take(n + 1).drop_last() =~= ys.take(n));
        lemma_alpha_stops(xs, ys, m, n + 1);
    }
}

/// The values of a pairing.
pub open spec fn pairing(s: Seq<(String, String)>) -> PairingV {
    Seq::new(s.len(), |i: int| (s[i].0@, s[i].1@))
}

/// Two atoms are alpha-equivalent if they are structurally identical up to
/// consistent variable renaming. The pairing of variables is extended.
pub fn alpha_equiv(a: &Atom, b: &Atom, m: &mut Vec<(String, String)>) -> (r: bool)
    ensures
        (match alpha(a@, b@, pairing(old(m)@)) {
            Some(n) => r && pairing(final(m)@) == n,
            None => !r,
        }),
    decreases a,
{
    broadcast use group_atoms;

    match (a, b) {
        (Atom::Sym(x), Atom::Sym(y)) => {
            let xv = is_var(x.as_str());
            let yv = is_var(y.as_str());
            if xv && yv {
                let ghost p = pairing(m@);
                let mut i: usize = 0;
                while i < m.len()
                    invariant
                        i <= m@.len(),
                        p == pairing(m@),
                        m@ == old(m)@,
                        a@ == AtomV::Sym(x@),
                        b@ == AtomV::Sym(y@),
                        is_var_name(x@),
                        is_var_name(y@),
                        forall|j: int| 0 <= j < i ==> ((#[trigger] p[j]).0 == x@ <==> p[j].1 == y@),
                    decreases m@.len() - i,
                {
                    let fx = same(m[i].0.as_str(), x.as_str());
                    let fy = same(m[i].1.as_str(), y.as_str());
                    assert(p[i as int] == (m@[i as int].0@, m@[i as int].1@));
                    if fx != fy {
                        assert(!fits(p, x@, y@));
                        return false;
                    }
                    i += 1;
                }
                assert(fits(p, x@, y@));
                let ghost before = m@;
                m.push((x.clone(), y.clone()));
                assert(pairing(m@) =~= pairing(before).push((x@, y@)));
                true
            } else {
                !xv && !yv && *x == *y
            }
        },
        (Atom::Num(x), Atom::Num(y)) => x.same(y),
        (Atom::Expr(xs), Atom::Expr(ys)) => {
            if xs.len() != ys.len() {
                return false;
            }
            let ghost xv = atoms(xs@);
            let ghost yv = atoms(ys@);
            let ghost m0 = pairing(m@);
            let mut i: usize = 0;
            assert(xv.take(0) =~= Seq::<AtomV>::empty());
            while i < xs.len()
                invariant
                    i <= xs@.len(),
                    xs@.len() == ys@.len(),
                    *a == Atom::Expr(*xs),
                    *b == Atom::Expr(*ys),
                    xv == atoms(xs@),
                    yv == atoms(ys@),
                    m0 == pairing(old(m)@),
                    alpha_all(xv.take(i as int), yv.take(i as int), m0) == Some(pairing(m@)),
                decreases xs@.len() - i,
            {
                assert(decreases_to!(a => a->Expr_0@[i as int]));
                assert(xv.take(i + 1).drop_last() =~= xv.take(i as int));
                assert(yv.take(i + 1).drop_last() =~= yv.take(i as int));
                if !alpha_equiv(&xs[i], &ys[i], m) {
                    proof {
                        lemma_alpha_stops(xv, yv, m0, i + 1);
                    }
                    return false;
                }
                i += 1;
            }
            assert(xv.take(i as int) =~= xv);
            assert(yv.take(i as int) =~= yv);
            true
        },
        _ => atom_same(a, b),
    }
}

/// Compare two atoms up to renaming of variables, without paired variables to
/// start from.
pub fn alpha_eq(a: &Atom, b: &Atom) -> (r: bool)
    ensures
        r == alpha_same(a@, b@),
{
    let mut m: Vec<(String, String)> = Vec::new();
    assert(pairing(m@) =~= Seq::<(Seq<char>, Seq<char>)>::empty());
    alpha_equiv(a, b, &mut m)
}

/// A pairing the other way round.
pub open spec fn flipped(m: PairingV) -> PairingV {
    Seq::new(m.len(), |i: int| (m[i].1, m[i].0))
}

/// Pairing works the same from either side.
proof fn lemma_alpha_flips(a: AtomV, b: AtomV, m: PairingV)
    ensures
        (match alpha(a, b, m) {
            Some(n) => alpha(b, a, flipped(m)) == Some(flipped(n)),
            None => alpha(b, a, flipped(m)) is None,
        }),
    decreases a, 0nat,
{
    match (a, b) {
        (AtomV::Sym(x), AtomV::Sym(y)) => {
            let f = flipped(m);
            assert(fits(m, x, y) == fits(f, y, x)) by {
                if fits(m, x, y) {
                    assert forall|i: int| 0 <= i < f.len() implies ((#[trigger] f[i]).0 == y
                        <==> f[i].1 == x) by {
                        assert(m[i].0 == x <==> m[i].1 == y);
                    }
                }
                if fits(f, y, x) {
                    assert forall|i: int| 0 <= i < m.len() implies ((#[trigger] m[i]).0 == x
                        <==> m[i].1 == y) by {
                        assert(f[i].0 == y <==> f[i].1 == x);
                    }
                }
            }
            assert(flipped(m.push((x, y))) =~= f.push((y, x)));
        },
        (AtomV::Expr(xs), AtomV::Expr(ys)) => {
            if xs.len() == ys.len() {
                lemma_alpha_all_flips(xs, ys, m);
            }
        },
        _ => {},
    }
}

/// Pairing lists works the same from either side.
proof fn lemma_alpha_all_flips(xs: Seq<AtomV>, ys: Seq<AtomV>, m: PairingV)
    requires
        xs.len() == ys.len(),
    ensures
        (match alpha_all(xs, ys, m) {
            Some(n) => alpha_all(ys, xs, flipped(m)) == Some(flipped(n)),
            None => alpha_all(ys, xs, flipped(m)) is None,
        }),
    decreases xs, 0nat,
{
    if xs.len() > 0 {
        lemma_alpha_all_flips(xs.drop_last(), ys.drop_last(), m);
        match alpha_all(xs.drop_last(), ys.drop_last(), m) {
            Some(n) => {
                lemma_alpha_flips(xs.last(), ys.last(), n);
            },
            None => {},
        }
    }
}

/// Equality up to renaming of variables is symmetric.
pub proof fn alpha_is_symmetric(a: AtomV, b: AtomV)
    ensures
        alpha_same(a, b) == alpha_same(b, a),
{
    lemma_alpha_flips(a, b, Seq::empty());
    assert(flipped(Seq::empty()) =~= Seq::<(Seq<char>, Seq<char>)>::empty());
}

/// Whether every variable is paired with itself.
pub open spec fn is_identity(m: PairingV) -> bool {
    forall|i: int| 0 <= i < m.len() ==> (#[trigger] m[i]).0 == m[i].1
}

/// An atom is the same as itself under an identity pairing, which it keeps.
proof fn lemma_alpha_reflexive(a: AtomV, m: PairingV)
    requires
        is_identity(m),
    ensures
        alpha(a, a, m) is Some,
        is_identity(alpha(a, a, m)->0),
    decreases a, 0nat,
{
    if let AtomV::Expr(items) = a {
        lemma_alpha_all_reflexive(items, m);
    }
}

/// A list of atoms is the same as itself under an identity pairing.
proof fn lemma_alpha_all_reflexive(xs: Seq<AtomV>, m: PairingV)
    requires
        is_identity(m),
    ensures
        alpha_all(xs, xs, m) is Some,
        is_identity(alpha_all(xs, xs, m)->0),
    decreases xs, 0nat,
{
    if xs.len() > 0 {
        lemma_alpha_all_reflexive(xs.drop_last(), m);
        lemma_alpha_reflexive(xs.last(), alpha_all(xs.drop_last(), xs.drop_last(), m)->0);
    }
}

/// Equality up to renaming of variables is reflexive.
pub proof fn alpha_is_reflexive(a: AtomV)
    ensures
        alpha_same(a, a),
{
    lemma_alpha_reflexive(a, Seq::empty());
}

/// The built-in functions on numbers.
pub open spec fn arithmetic_rows() -> Seq<RowV> {
    seq![
        ("+"@, 2u8, Builtin::Add, true),
        ("-"@, 2u8, Builtin::Sub, true),
        ("*"@, 2u8, Builtin::Mul, true),
        ("/"@, 2u8, Builtin::Div, true),
        ("%"@, 2u8, Builtin::Rem, true),
        ("<"@, 2u8, Builtin::Below, true),
        (">"@, 2u8, Builtin::Above, true),
        ("<="@, 2u8, Builtin::AtMost, true),
        (">="@, 2u8, Builtin::AtLeast, true),
        ("sqrt-math"@, 1u8, Builtin::Float(FloatFn::Sqrt), true),
        ("abs-math"@, 1u8, Builtin::Float(FloatFn::Abs), true),
        ("trunc-math"@, 1u8, Builtin::Float(FloatFn::Trunc), true),
        ("ceil-math"@, 1u8, Builtin::Float(FloatFn::Ceil), true),
        ("floor-math"@, 1u8, Builtin::Float(FloatFn::Floor), true),
        ("round-math"@, 1u8, Builtin::Float(FloatFn::Round), true),
        ("sin-math"@, 1u8, Builtin::Float(FloatFn::Sin), true),
        ("asin-math"@, 1u8, Builtin::Float(FloatFn::Asin), true),
        ("cos-math"@, 1u8, Builtin::Float(FloatFn::Cos), true),
        ("acos-math"@, 1u8, Builtin::Float(FloatFn::Acos), true),
        ("tan-math"@, 1u8, Builtin::Float(FloatFn::Tan), true),
        ("atan-math"@, 1u8, Builtin::Float(FloatFn::Atan), true),
        ("exp"@, 1u8, Builtin::Float(FloatFn::Exp), true),
        ("pow-math"@, 2u8, Builtin::Float(FloatFn::Pow), true),
        ("log-math"@, 2u8, Builtin::Float(FloatFn::Log), true),
        ("min"@, 2u8, Builtin::Float(FloatFn::Min), true),
        ("max"@, 2u8, Builtin::Float(FloatFn::Max), true),
        ("isnan-math"@, 1u8, Builtin::Float(FloatFn::IsNan), true),
        ("isinf-math"@, 1u8, Builtin::Float(FloatFn::IsInf), true),
        ("min-atom"@, 1u8, Builtin::Float(FloatFn::MinAtom), true),
        ("max-atom"@, 1u8, Builtin::Float(FloatFn::MaxAtom), true),
        ("sort-math"@, 1u8, Builtin::Float(FloatFn::SortMath), true),
        ("random-int"@, 2u8, Builtin::Float(FloatFn::RandomInt), false),
        ("random-int"@, 3u8, Builtin::Float(FloatFn::RandomInt), false),
        ("random-float"@, 2u8, Builtin::Float(FloatFn::RandomFloat), false),
        ("random-float"@, 3u8, Builtin::Float(FloatFn::RandomFloat), false),
    ]
}

/// The table with the built-in functions on numbers.
pub open spec fn with_arithmetic_builtins(t: TableV) -> TableV {
    with_rows(t, arithmetic_rows())
}

/// Register arithmetic builtins.
pub fn register_arithmetic_builtins(funcs: &mut FnTable)
    ensures
        final(funcs)@ == with_arithmetic_builtins(old(funcs)@),
{
    let mut v: Vec<Row> = Vec::new();
    add_row(&mut v, "+", 2, Builtin::Add, true);
    add_row(&mut v, "-", 2, Builtin::Sub, true);
    add_row(&mut v, "*", 2, Builtin::Mul, true);
    add_row(&mut v, "/", 2, Builtin::Div, true);
    add_row(&mut v, "%", 2, Builtin::Rem, true);
    add_row(&mut v, "<", 2, Builtin::Below, true);
    add_row(&mut v, ">", 2, Builtin::Above, true);
    add_row(&mut v, "<=", 2, Builtin::AtMost, true);
    add_row(&mut v, ">=", 2, Builtin::AtLeast, true);
    add_row(&mut v, "sqrt-math", 1, Builtin::Float(FloatFn::Sqrt), true);
    add_row(&mut v, "abs-math", 1, Builtin::Float(FloatFn::Abs), true);
    add_row(&mut v, "trunc-math", 1, Builtin::Float(FloatFn::Trunc), true);
    add_row(&mut v, "ceil-math", 1, Builtin::Float(FloatFn::Ceil), true);
    add_row(&mut v, "floor-math", 1, Builtin::Float(FloatFn::Floor), true);
    add_row(&mut v, "round-math", 1, Builtin::Float(FloatFn::Round), true);
    add_row(&mut v, "sin-math", 1, Builtin::Float(FloatFn::Sin), true);
    add_row(&mut v, "asin-math", 1, Builtin::Float(FloatFn::Asin), true);
    add_row(&mut v, "cos-math", 1, Builtin::Float(FloatFn::Cos), true);
    add_row(&mut v, "acos-math", 1, Builtin::Float(FloatFn::Acos), true);
    add_row(&mut v, "tan-math", 1, Builtin::Float(FloatFn::Tan), true);
    add_row(&mut v, "atan-math", 1, Builtin::Float(FloatFn::Atan), true);
    add_row(&mut v, "exp", 1, Builtin::Float(FloatFn::Exp), true);
    add_row(&mut v, "pow-math", 2, Builtin::Float(FloatFn::Pow), true);
    add_row(&mut v, "log-math", 2, Builtin::Float(FloatFn::Log), true);
    add_row(&mut v, "min", 2, Builtin::Float(FloatFn::Min), true);
    add_row(&mut v, "max", 2, Builtin::Float(FloatFn::Max), true);
    add_row(&mut v, "isnan-math", 1, Builtin::Float(FloatFn::IsNan), true);
    add_row(&mut v, "isinf-math", 1, Builtin::Float(FloatFn::IsInf), true);
    add_row(&mut v, "min-atom", 1, Builtin::Float(FloatFn::MinAtom), true);
    add_row(&mut v, "max-atom", 1, Builtin::Float(FloatFn::MaxAtom), true);
    add_row(&mut v, "sort-math", 1, Builtin::Float(FloatFn::SortMath), true);
    add_row(&mut v, "random-int", 2, Builtin::Float(FloatFn::RandomInt), false);
    add_row(&mut v, "random-int", 3, Builtin::Float(FloatFn::RandomInt), false);
    add_row(&mut v, "random-float", 2, Builtin::Float(FloatFn::RandomFloat), false);
    add_row(&mut v, "random-float", 3, Builtin::Float(FloatFn::RandomFloat), false);
    assert(rows(v@) =~= arithmetic_rows());
    register_rows(funcs, &v);
}

} // verus!
