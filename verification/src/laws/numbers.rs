//! What the functions on numbers compute.
use crate::atom::AtomV;
use crate::builtins::AnswerV;
use crate::builtins::arithmetic::with_arithmetic_builtins;
use crate::builtins::boolean::truth;
use crate::builtins::called;
use crate::builtins::collections::named_answer;
use crate::eval::shared::pattern::is_ground;
use crate::func::Builtin;
use crate::func::TableV;
use crate::laws::naming::arithmetic_names_are_bound;
use crate::numeric::NumV;
use crate::numeric::num_difference;
use crate::numeric::num_less;
use crate::numeric::num_product;
use crate::numeric::num_remainder;
use crate::numeric::num_sum;
use crate::numeric::truncated_rem;
use crate::text::nat_digits;
use vstd::arithmetic::power::lemma_pow_adds;
use vstd::arithmetic::power::lemma_pow_positive;
use vstd::arithmetic::power::pow;
use vstd::prelude::*;
use vstd::string::*;

verus! {

/// The atom of an integer.
pub open spec fn int_atom(n: int) -> AtomV {
    AtomV::Num(NumV::Int(n))
}

/// The symbol of a truth value.
pub open spec fn truth_atom(b: bool) -> AtomV {
    AtomV::Sym(
        if b {
            "true"@
        } else {
            "false"@
        },
    )
}

/// The truth values that functions answer with are the symbols `true` and
/// `false`, which differ.
pub proof fn truth_values_are_symbols(b: bool)
    ensures
        truth(b) == truth_atom(b),
        truth_atom(true) != truth_atom(false),
        is_ground(truth_atom(b)),
{
    reveal_strlit("True");
    reveal_strlit("False");
    reveal_strlit("true");
    reveal_strlit("false");
    assert("true"@.len() != "false"@.len());
    assert("True"@.len() != "False"@.len());
}

/// Called by name on integers, `+`, `-` and `*` give the sum, the difference and
/// the product, and `<`, `>`, `<=` and `>=` tell how the integers are ordered.
pub proof fn integers_are_computed_exactly(t: TableV, x: int, y: int)
    ensures
        ({
            let u = with_arithmetic_builtins(t);
            let args = seq![int_atom(x), int_atom(y)];
            &&& named_answer(u, "+"@, args) == AnswerV::Values(seq![int_atom(x + y)])
            &&& named_answer(u, "-"@, args) == AnswerV::Values(seq![int_atom(x - y)])
            &&& named_answer(u, "*"@, args) == AnswerV::Values(seq![int_atom(x * y)])
            &&& named_answer(u, "<"@, args) == AnswerV::Values(seq![truth_atom(x < y)])
            &&& named_answer(u, ">"@, args) == AnswerV::Values(seq![truth_atom(x > y)])
            &&& named_answer(u, "<="@, args) == AnswerV::Values(seq![truth_atom(x <= y)])
            &&& named_answer(u, ">="@, args) == AnswerV::Values(seq![truth_atom(x >= y)])
        }),
{
    arithmetic_names_are_bound(t);
    truth_values_are_symbols(true);
    truth_values_are_symbols(false);
}

/// Called by name on integers, `%` gives what is left of the first one after a
/// multiple of the second one is taken away: less than the second one in size,
/// and with the sign of the first one. There is no remainder by zero.
pub proof fn remainders_are_what_is_left(t: TableV, x: int, y: int)
    ensures
        ({
            let u = with_arithmetic_builtins(t);
            let r = named_answer(u, "%"@, seq![int_atom(x), int_atom(y)]);
            &&& y != 0 ==> exists|n: int, q: int|
                #![trigger int_atom(n), y * q]
                {
                    &&& r == AnswerV::Values(seq![int_atom(n)])
                    &&& x == y * q + n
                    &&& -n < y && n < y || -n < -y && n < -y
                    &&& x >= 0 ==> n >= 0
                    &&& x <= 0 ==> n <= 0
                }
            &&& y == 0 ==> r == AnswerV::Values(seq![AtomV::Sym("% by zero"@)])
        }),
{
    arithmetic_names_are_bound(t);
    reveal_strlit("% by zero");
    reveal_strlit("True");
    reveal_strlit("False");
    assert("% by zero"@.len() == 9 && "True"@.len() == 4 && "False"@.len() == 5);
    if y != 0 {
        let a = if x < 0 {
            -x
        } else {
            x
        };
        let b = if y < 0 {
            -y
        } else {
            y
        };
        let k = a / b;
        let m = a % b;
        vstd::arithmetic::div_mod::lemma_fundamental_div_mod(a, b);
        vstd::arithmetic::div_mod::lemma_mod_bound(a, b);
        let n = if x < 0 {
            -m
        } else {
            m
        };
        let q = if (x < 0) == (y < 0) {
            k
        } else {
            -k
        };
        assert(y * q + n == x) by (nonlinear_arith)
            requires
                a == b * k + m,
                a == (if x < 0 { -x } else { x }),
                b == (if y < 0 { -y } else { y }),
                n == (if x < 0 { -m } else { m }),
                q == (if (x < 0) == (y < 0) { k } else { -k }),
        ;
        assert(int_atom(n) == AtomV::Num(NumV::Int(truncated_rem(x, y))));
    }
}

/// A number at a scale no finer than its own, in units of that scale.
pub open spec fn scaled(a: NumV, scale: int) -> int {
    a.parts().0 * pow(10, (a.parts().1 - scale) as nat)
}

/// One number is less than another exactly where it is less at a common scale.
pub proof fn numbers_are_ordered_by_value(a: NumV, b: NumV, scale: int)
    requires
        scale <= a.parts().1,
        scale <= b.parts().1,
    ensures
        num_less(a, b) == (scaled(a, scale) < scaled(b, scale)),
{
    let (xs, xe) = a.parts();
    let (ys, ye) = b.parts();
    let m = if xe <= ye {
        xe
    } else {
        ye
    };
    let k = (m - scale) as nat;
    lemma_pow_positive(10, k);
    lemma_pow_adds(10, (xe - m) as nat, k);
    lemma_pow_adds(10, (ye - m) as nat, k);
    assert(pow(10, 0) == 1) by {
        vstd::arithmetic::power::lemma_pow0(10);
    }
    let p = pow(10, k);
    let u = xs * pow(10, (xe - m) as nat);
    let v = ys * pow(10, (ye - m) as nat);
    assert((xe - m) as nat + k == (xe - scale) as nat);
    assert((ye - m) as nat + k == (ye - scale) as nat);
    vstd::arithmetic::mul::lemma_mul_is_associative(xs, pow(10, (xe - m) as nat), p);
    vstd::arithmetic::mul::lemma_mul_is_associative(ys, pow(10, (ye - m) as nat), p);
    assert(scaled(a, scale) == u * p);
    assert(scaled(b, scale) == v * p);
    assert((u * p < v * p) == (u < v)) by (nonlinear_arith)
        requires
            p > 0,
    ;
    assert(num_less(a, b) == (u < v));
}

/// Called by name on any two numbers, `<` and `>` tell which one is less, `>=`
/// and `<=` say the opposite, and every number is at most and at least itself.
pub proof fn comparisons_agree(t: TableV, a: NumV, b: NumV, scale: int)
    requires
        scale <= a.parts().1,
        scale <= b.parts().1,
    ensures
        ({
            let u = with_arithmetic_builtins(t);
            let args = seq![AtomV::Num(a), AtomV::Num(b)];
            let x = scaled(a, scale);
            let y = scaled(b, scale);
            &&& named_answer(u, "<"@, args) == AnswerV::Values(seq![truth_atom(x < y)])
            &&& named_answer(u, ">"@, args) == AnswerV::Values(seq![truth_atom(x > y)])
            &&& named_answer(u, "<="@, args) == AnswerV::Values(seq![truth_atom(x <= y)])
            &&& named_answer(u, ">="@, args) == AnswerV::Values(seq![truth_atom(x >= y)])
        }),
{
    arithmetic_names_are_bound(t);
    truth_values_are_symbols(true);
    truth_values_are_symbols(false);
    numbers_are_ordered_by_value(a, b, scale);
    numbers_are_ordered_by_value(b, a, scale);
}

/// An integer among decimals counts as the decimal without a fraction: the
/// functions on two numbers take it for that one, in either place.
pub proof fn integers_count_as_decimals(n: int, b: NumV)
    requires
        b is Dec,
    ensures
        num_sum(NumV::Int(n), b) == num_sum(NumV::Dec(n, 0), b),
        num_sum(b, NumV::Int(n)) == num_sum(b, NumV::Dec(n, 0)),
        num_difference(NumV::Int(n), b) == num_difference(NumV::Dec(n, 0), b),
        num_difference(b, NumV::Int(n)) == num_difference(b, NumV::Dec(n, 0)),
        num_product(NumV::Int(n), b) == num_product(NumV::Dec(n, 0), b),
        num_product(b, NumV::Int(n)) == num_product(b, NumV::Dec(n, 0)),
        num_less(NumV::Int(n), b) == num_less(NumV::Dec(n, 0), b),
        num_less(b, NumV::Int(n)) == num_less(b, NumV::Dec(n, 0)),
        num_remainder(NumV::Int(n), b) is Err,
        num_remainder(b, NumV::Int(n)) is Err,
        b.parts() == (b->Dec_0, b->Dec_1),
        num_sum(NumV::Int(n), b) is Dec,
        num_sum(b, NumV::Int(n)) is Dec,
{
}

/// Called by name on something else than two numbers, the functions on numbers
/// leave the call to the host as it is; called on another number of arguments,
/// they fail.
pub proof fn other_arguments_are_left_to_the_host(t: TableV, a: AtomV, b: AtomV)
    requires
        !(a is Num && b is Num),
    ensures
        ({
            let u = with_arithmetic_builtins(t);
            let args = seq![a, b];
            &&& named_answer(u, "+"@, args) == AnswerV::Host(Builtin::Add, "+"@, args)
            &&& named_answer(u, "-"@, args) == AnswerV::Host(Builtin::Sub, "-"@, args)
            &&& named_answer(u, "*"@, args) == AnswerV::Host(Builtin::Mul, "*"@, args)
            &&& named_answer(u, "/"@, args) == AnswerV::Host(Builtin::Div, "/"@, args)
            &&& named_answer(u, "%"@, args) == AnswerV::Host(Builtin::Rem, "%"@, args)
            &&& named_answer(u, "<"@, args) == AnswerV::Host(Builtin::Below, "<"@, args)
            &&& named_answer(u, ">"@, args) == AnswerV::Host(Builtin::Above, ">"@, args)
            &&& named_answer(u, "<="@, args) == AnswerV::Host(Builtin::AtMost, "<="@, args)
            &&& named_answer(u, ">="@, args) == AnswerV::Host(Builtin::AtLeast, ">="@, args)
        }),
{
    arithmetic_names_are_bound(t);
}

/// A function of two numbers fails on another number of arguments.
pub proof fn functions_of_two_take_two(b: Builtin, name: Seq<char>, args: Seq<AtomV>, t: TableV)
    requires
        b is Add || b is Sub || b is Mul || b is Div || b is Rem || b is Below || b is Above || b
            is AtMost || b is AtLeast,
        args.len() != 2,
    ensures
        called(b, name, args, t) == (
            AnswerV::Fail(
                name + ": expected 2 args, got "@ + nat_digits(args.len()),
            ),
            t,
        ),
{
    reveal_strlit(": expected ");
    reveal_strlit(" args, got ");
    reveal_strlit(": expected 2 args, got ");
    assert(nat_digits(2) =~= seq!['2']);
    let x = name + ": expected "@ + nat_digits(2) + " args, got "@;
    assert(x =~= name + ": expected 2 args, got "@);
}

} // verus!
