//! Arbitrary-precision numbers.
//!
//! An integer is held as its decimal text and a decimal as a significand and a
//! power of ten. The arithmetic itself is `dashu`'s.
use crate::parser::all_digits;
use crate::text::chars_of;
use crate::text::digit;
use crate::text::int_text;
use crate::text::lemma_digits_are_digits;
use crate::text::nat_digits;
use crate::text::lemma_int_text_injective;
use crate::text::optional_text;
use vstd::arithmetic::power::pow;
use vstd::prelude::*;
use vstd::string::*;

verus! {

/// Whether a text is the decimal text of an integer.
pub open spec fn is_int_text(s: Seq<char>) -> bool {
    exists|v: int| #[trigger] int_text(v) == s
}

/// The integer whose decimal text is given.
pub open spec fn text_value(s: Seq<char>) -> int {
    choose|v: int| #[trigger] int_text(v) == s
}

/// A decimal text gives back the integer it was made from.
pub proof fn lemma_text_value(v: int)
    ensures
        is_int_text(int_text(v)),
        text_value(int_text(v)) == v,
{
    lemma_int_text_injective(text_value(int_text(v)), v);
}

/// The remainder of a division that rounds towards zero: it has the sign of the
/// dividend.
pub open spec fn truncated_rem(a: int, b: int) -> int {
    let m = (if a < 0 { -a } else { a }) % (if b < 0 { -b } else { b });
    if a < 0 {
        -m
    } else {
        m
    }
}

/// Add two integers given by their decimal texts.
///
/// Calls `dashu::Integer`'s `+`, which is exact.
#[verifier::external_body]
fn integer_sum(a: &str, b: &str) -> (r: String)
    requires
        is_int_text(a@),
        is_int_text(b@),
    ensures
        r@ == int_text(text_value(a@) + text_value(b@)),
{
    let x: dashu::Integer = a.parse().unwrap();
    let y: dashu::Integer = b.parse().unwrap();
    (x + y).to_string()
}

/// Subtract two integers given by their decimal texts.
///
/// Calls `dashu::Integer`'s `-`, which is exact.
#[verifier::external_body]
fn integer_difference(a: &str, b: &str) -> (r: String)
    requires
        is_int_text(a@),
        is_int_text(b@),
    ensures
        r@ == int_text(text_value(a@) - text_value(b@)),
{
    let x: dashu::Integer = a.parse().unwrap();
    let y: dashu::Integer = b.parse().unwrap();
    (x - y).to_string()
}

/// Multiply two integers given by their decimal texts.
///
/// Calls `dashu::Integer`'s `*`, which is exact.
#[verifier::external_body]
fn integer_product(a: &str, b: &str) -> (r: String)
    requires
        is_int_text(a@),
        is_int_text(b@),
    ensures
        r@ == int_text(text_value(a@) * text_value(b@)),
{
    let x: dashu::Integer = a.parse().unwrap();
    let y: dashu::Integer = b.parse().unwrap();
    (x * y).to_string()
}

/// Take the remainder of two integers given by their decimal texts.
///
/// Calls `dashu::Integer`'s `%`, the remainder of a division that truncates
/// towards zero. That operator panics when the divisor is zero.
#[verifier::external_body]
fn integer_remainder(a: &str, b: &str) -> (r: String)
    requires
        is_int_text(a@),
        is_int_text(b@),
        text_value(b@) != 0,
    ensures
        r@ == int_text(truncated_rem(text_value(a@), text_value(b@))),
{
    let x: dashu::Integer = a.parse().unwrap();
    let y: dashu::Integer = b.parse().unwrap();
    (x % y).to_string()
}

/// Whether the first integer is below the second, both given by decimal texts.
///
/// Calls `dashu::Integer`'s `<`, the order of the integers.
#[verifier::external_body]
fn integer_below(a: &str, b: &str) -> (r: bool)
    requires
        is_int_text(a@),
        is_int_text(b@),
    ensures
        r == (text_value(a@) < text_value(b@)),
{
    let x: dashu::Integer = a.parse().unwrap();
    let y: dashu::Integer = b.parse().unwrap();
    x < y
}

/// The decimal text of a machine integer.
///
/// Calls `dashu::Integer`'s `From<i128>` and its `Display`, the usual decimal
/// notation.
#[verifier::external_body]
fn integer_from_i128(n: i128) -> (r: String)
    ensures
        r@ == int_text(n as int),
{
    dashu::Integer::from(n).to_string()
}

/// The machine integer equal to an integer given by its decimal text.
///
/// Calls `dashu::Integer`'s conversion to `i128`, which succeeds exactly when
/// the value is in range.
#[verifier::external_body]
fn integer_to_i128(a: &str) -> (r: Option<i128>)
    requires
        is_int_text(a@),
    ensures
        r is Some == (i128::MIN <= text_value(a@) <= i128::MAX),
        r matches Some(n) ==> n as int == text_value(a@),
{
    let x: dashu::Integer = a.parse().unwrap();
    i128::try_from(x).ok()
}

/// A text behind its sign, where it has one.
pub open spec fn unsigned_part(s: Seq<char>) -> Seq<char> {
    if s.len() > 0 && (s[0] == '-' || s[0] == '+') {
        s.skip(1)
    } else {
        s
    }
}

/// The number that decimal digits write; underscores between them do not count.
pub open spec fn spaced_value(s: Seq<char>) -> nat
    decreases s.len(),
{
    if s.len() == 0 {
        0
    } else if s.last() == '_' {
        spaced_value(s.drop_last())
    } else {
        10 * spaced_value(s.drop_last()) + (s.last() as nat - '0' as nat) as nat
    }
}

/// The integer that a text denotes: an optional sign, and then at least one
/// character, each of them a decimal digit or an underscore.
pub open spec fn integer_value(s: Seq<char>) -> Option<int> {
    let t = unsigned_part(s);
    if t.len() > 0 && forall|i: int|
        0 <= i < t.len() ==> '0' <= #[trigger] t[i] <= '9' || t[i] == '_' {
        if s[0] == '-' {
            Some(-(spaced_value(t) as int))
        } else {
            Some(spaced_value(t) as int)
        }
    } else {
        None
    }
}

/// Read an integer.
///
/// Calls `dashu::Integer`'s `FromStr`, which takes an optional sign and decimal
/// digits, in which it passes over underscores, and its `Display`, the usual
/// decimal notation.
#[verifier::external_body]
fn integer_read(s: &str) -> (r: Option<String>)
    ensures
        optional_text(r) == (match integer_value(s@) {
            Some(n) => Some(int_text(n)),
            None => None,
        }),
{
    s.parse::<dashu::Integer>().ok().map(|n| n.to_string())
}

/// The digits of a number write the number.
proof fn lemma_spaced_digits(n: nat)
    ensures
        spaced_value(nat_digits(n)) == n,
    decreases n,
{
    lemma_digits_are_digits(n);
    let d = nat_digits(n);
    if n < 10 {
        assert(d.drop_last() =~= Seq::<char>::empty());
        assert(spaced_value(d.drop_last()) == 0);
    } else {
        lemma_spaced_digits(n / 10);
        assert(d.drop_last() =~= nat_digits(n / 10));
    }
    assert(d.last() == digit((n % 10) as int));
    assert(d[d.len() - 1] == d.last());
}

/// The decimal text of an integer denotes the integer.
pub proof fn integers_denote_themselves(n: int)
    ensures
        integer_value(int_text(n)) == Some(n),
{
    let m = (if n < 0 { -n } else { n }) as nat;
    let s = int_text(n);
    lemma_digits_are_digits(m);
    lemma_spaced_digits(m);
    assert(nat_digits(m)[0] != '-' && nat_digits(m)[0] != '+');
    assert(unsigned_part(s) =~= nat_digits(m));
}

/// Whether a character introduces the scale of a decimal.
pub open spec fn is_scale_mark(c: char) -> bool {
    c == 'e' || c == 'E' || c == '@'
}

/// The position behind the last mark of a scale, or 0 where there is none.
pub open spec fn scale_start(s: Seq<char>) -> nat
    decreases s.len(),
{
    if s.len() == 0 {
        0
    } else if is_scale_mark(s.last()) {
        s.len()
    } else {
        scale_start(s.drop_last())
    }
}

/// The number that decimal digits write.
pub open spec fn digits_value(s: Seq<char>) -> nat
    decreases s.len(),
{
    if s.len() == 0 {
        0
    } else {
        10 * digits_value(s.drop_last()) + (s.last() as nat - '0' as nat) as nat
    }
}

/// Whether a text of a decimal is of a size, and writes a scale, for which every
/// exponent on the way to its value fits in 32 bits.
pub open spec fn has_small_scale(s: Seq<char>) -> bool {
    let t = unsigned_part(s.skip(scale_start(s) as int));
    &&& s.len() <= 100_000_000
    &&& scale_start(s) > 0 && all_digits(t) ==> digits_value(t) <= 1_000_000_000
}

/// Test the scale that a text of a decimal writes.
fn scale_is_small(s: &str) -> (r: bool)
    ensures
        r == has_small_scale(s@),
{
    let v = chars_of(s);
    if v.len() > 100_000_000 {
        return false;
    }
    let mut start: usize = v.len();
    assert(s@.take(start as int) =~= s@);
    while start > 0 && !(v[start - 1] == 'e' || v[start - 1] == 'E' || v[start - 1] == '@')
        invariant
            v@ == s@,
            start <= v@.len(),
            scale_start(s@) == scale_start(s@.take(start as int)),
        decreases start,
    {
        start -= 1;
        assert(s@.take(start + 1).drop_last() =~= s@.take(start as int));
    }
    assert(scale_start(s@) == start);
    if start == 0 {
        return true;
    }
    let ghost rest = s@.skip(start as int);
    let mut from: usize = start;
    if start < v.len() && (v[start] == '-' || v[start] == '+') {
        from = start + 1;
    }
    let ghost t = unsigned_part(rest);
    assert(t =~= s@.skip(from as int));
    if from == v.len() {
        return true;
    }
    let mut total: u64 = 0;
    let mut i: usize = from;
    assert(t.take(0) =~= Seq::<char>::empty());
    while i < v.len()
        invariant
            v@ == s@,
            from <= i <= v@.len(),
            t == s@.skip(from as int),
            t == unsigned_part(s@.skip(start as int)),
            start == scale_start(s@),
            v@.len() <= 100_000_000,
            forall|k: int| 0 <= k < i - from ==> '0' <= #[trigger] t[k] <= '9',
            total <= 10_000_000_009,
            total <= 1_000_000_000 ==> total == digits_value(t.take(i - from)),
            total > 1_000_000_000 ==> digits_value(t.take(i - from)) > 1_000_000_000,
        decreases v@.len() - i,
    {
        let c = v[i];
        assert(t[i - from] == c);
        if !('0' <= c && c <= '9') {
            assert(!all_digits(t));
            return true;
        }
        assert(t.take(i - from + 1).drop_last() =~= t.take(i - from));
        assert(t.take(i - from + 1).last() == c);
        if total <= 1_000_000_000 {
            total = 10 * total + (c as u64 - '0' as u64);
        }
        i += 1;
    }
    assert(t.take(i - from) =~= t);
    total <= 1_000_000_000
}

/// The machine integer that a text of an optional sign and digits writes.
pub open spec fn whole_value(s: Seq<char>) -> Option<int> {
    let t = unsigned_part(s);
    let v = if s.len() > 0 && s[0] == '-' {
        -(digits_value(t) as int)
    } else {
        digits_value(t) as int
    };
    if all_digits(t) && i128::MIN <= v <= i128::MAX {
        Some(v)
    } else {
        None
    }
}

/// The value of what was read, if anything was.
pub open spec fn optional_int(r: Option<i128>) -> Option<int> {
    match r {
        Some(n) => Some(n as int),
        None => None,
    }
}

/// Read a machine integer between two positions of a text.
pub fn read_whole(v: &Vec<char>, from: usize, to: usize) -> (r: Option<i128>)
    requires
        from <= to <= v@.len(),
    ensures
        optional_int(r) == whole_value(v@.subrange(from as int, to as int)),
{
    let ghost s = v@.subrange(from as int, to as int);
    let ghost t = unsigned_part(s);
    if from == to {
        return None;
    }
    let negative = v[from] == '-';
    let start: usize = if v[from] == '-' || v[from] == '+' {
        from + 1
    } else {
        from
    };
    assert(t =~= v@.subrange(start as int, to as int));
    if start == to {
        return None;
    }
    let mut total: u128 = 0;
    let mut big: bool = false;
    let mut i: usize = start;
    assert(t.take(0) =~= Seq::<char>::empty());
    while i < to
        invariant
            start <= i <= to <= v@.len(),
            from <= to,
            s == v@.subrange(from as int, to as int),
            t == v@.subrange(start as int, to as int),
            t == unsigned_part(s),
            forall|k: int| 0 <= k < i - start ==> '0' <= #[trigger] t[k] <= '9',
            !big ==> total == digits_value(t.take(i - start)),
            big ==> digits_value(t.take(i - start))
                > 170141183460469231731687303715884105728,
        decreases to - i,
    {
        let c = v[i];
        assert(t[i - start] == c);
        if !('0' <= c && c <= '9') {
            assert(!all_digits(t));
            return None;
        }
        assert(t.take(i - start + 1).drop_last() =~= t.take(i - start));
        assert(t.take(i - start + 1).last() == c);
        if !big {
            if total <= 17014118346046923173168730371588410573 {
                total = 10 * total + (c as u128 - '0' as u128);
            } else {
                big = true;
            }
        }
        i += 1;
    }
    assert(t.take(i - start) =~= t);
    if big || total > 170141183460469231731687303715884105728 {
        None
    } else if total == 170141183460469231731687303715884105728 {
        if negative {
            Some(i128::MIN)
        } else {
            None
        }
    } else if negative {
        Some(-(total as i128))
    } else {
        Some(total as i128)
    }
}

/// The decimal that a text denotes, as a significand and a power of ten, or the
/// text of the reader's complaint. It speaks of texts with a small scale.
pub uninterp spec fn decimal_reading(s: Seq<char>) -> Result<(int, int), Seq<char>>;

/// What a reader of decimals returned: the value's parts, or the complaint.
pub open spec fn read_parts(r: Result<(String, isize), String>) -> Result<(int, int), Seq<char>> {
    match r {
        Ok(d) => Ok((text_value(d.0@), d.1 as int)),
        Err(e) => Err(e@),
    }
}

/// Read a decimal.
///
/// Calls `dashu::Decimal`'s `FromStr` and names what it returns: the
/// significand and exponent of the value's normalized representation, in which
/// the significand is not a multiple of ten and zero has exponent zero, or the
/// error's text. The exponent of a text with a larger scale can overflow there.
#[verifier::external_body]
fn decimal_read(s: &str) -> (r: Result<(String, isize), String>)
    requires
        has_small_scale(s@),
    ensures
        read_parts(r) == decimal_reading(s@),
        r is Ok ==> is_int_text(r->Ok_0.0@),
        r is Ok ==> is_normalized(text_value(r->Ok_0.0@), r->Ok_0.1 as int),
{
    match s.parse::<dashu::Decimal>() {
        Ok(d) => Ok((d.repr().significand().to_string(), d.repr().exponent())),
        Err(e) => Err(e.to_string()),
    }
}

/// Whether a significand and an exponent are the normalized form of a decimal.
pub open spec fn is_normalized(significand: int, exponent: int) -> bool {
    if significand == 0 {
        exponent == 0
    } else {
        significand % 10 != 0
    }
}

/// The decimal that a text denotes, or why it denotes none.
pub open spec fn decimal_of(s: Seq<char>) -> Result<(int, int), Seq<char>> {
    if has_small_scale(s) {
        decimal_reading(s)
    } else {
        Err("scale out of range"@)
    }
}

/// The sum of two decimals, each a significand and a power of ten.
pub uninterp spec fn decimal_sum(xs: int, xe: int, ys: int, ye: int) -> (int, int);

/// Add two decimals.
///
/// Prints both operands, reads them back as `dashu::Decimal` and calls its `+`,
/// which rounds to the longer operand's number of digits. The result is named.
#[verifier::external_body]
fn decimal_plus(xs: &str, xe: isize, ys: &str, ye: isize) -> (r: (String, isize))
    requires
        is_int_text(xs@),
        is_int_text(ys@),
    ensures
        is_int_text(r.0@),
        is_normalized(text_value(r.0@), r.1 as int),
        (text_value(r.0@), r.1 as int) == decimal_sum(
            text_value(xs@),
            xe as int,
            text_value(ys@),
            ye as int,
        ),
{
    let a = dashu::Decimal::from_parts(xs.parse().unwrap(), xe).to_string();
    let b = dashu::Decimal::from_parts(ys.parse().unwrap(), ye).to_string();
    let x: dashu::Decimal = a.parse().unwrap();
    let y: dashu::Decimal = b.parse().unwrap();
    let d = x + y;
    (d.repr().significand().to_string(), d.repr().exponent())
}

/// The difference of two decimals, each a significand and a power of ten.
pub uninterp spec fn decimal_difference(xs: int, xe: int, ys: int, ye: int) -> (int, int);

/// Subtract two decimals.
///
/// Prints both operands, reads them back as `dashu::Decimal` and calls its `-`,
/// which rounds to the longer operand's number of digits. The result is named.
#[verifier::external_body]
fn decimal_minus(xs: &str, xe: isize, ys: &str, ye: isize) -> (r: (String, isize))
    requires
        is_int_text(xs@),
        is_int_text(ys@),
    ensures
        is_int_text(r.0@),
        is_normalized(text_value(r.0@), r.1 as int),
        (text_value(r.0@), r.1 as int) == decimal_difference(
            text_value(xs@),
            xe as int,
            text_value(ys@),
            ye as int,
        ),
{
    let a = dashu::Decimal::from_parts(xs.parse().unwrap(), xe).to_string();
    let b = dashu::Decimal::from_parts(ys.parse().unwrap(), ye).to_string();
    let x: dashu::Decimal = a.parse().unwrap();
    let y: dashu::Decimal = b.parse().unwrap();
    let d = x - y;
    (d.repr().significand().to_string(), d.repr().exponent())
}

/// The product of two decimals, each a significand and a power of ten.
pub uninterp spec fn decimal_product(xs: int, xe: int, ys: int, ye: int) -> (int, int);

/// Multiply two decimals.
///
/// Prints both operands, reads them back as `dashu::Decimal` and calls its `*`,
/// which rounds to the longer operand's number of digits. The result is named.
#[verifier::external_body]
fn decimal_times(xs: &str, xe: isize, ys: &str, ye: isize) -> (r: (String, isize))
    requires
        is_int_text(xs@),
        is_int_text(ys@),
    ensures
        is_int_text(r.0@),
        is_normalized(text_value(r.0@), r.1 as int),
        (text_value(r.0@), r.1 as int) == decimal_product(
            text_value(xs@),
            xe as int,
            text_value(ys@),
            ye as int,
        ),
{
    let a = dashu::Decimal::from_parts(xs.parse().unwrap(), xe).to_string();
    let b = dashu::Decimal::from_parts(ys.parse().unwrap(), ye).to_string();
    let x: dashu::Decimal = a.parse().unwrap();
    let y: dashu::Decimal = b.parse().unwrap();
    let d = x * y;
    (d.repr().significand().to_string(), d.repr().exponent())
}

/// Whether `xs * 10^xe` is below `ys * 10^ye`.
pub open spec fn decimal_less(xs: int, xe: int, ys: int, ye: int) -> bool {
    if xe >= ye {
        xs * pow(10, (xe - ye) as nat) < ys
    } else {
        xs < ys * pow(10, (ye - xe) as nat)
    }
}

/// Whether the first decimal is below the second.
///
/// Calls `dashu::Decimal`'s `<`, the order of the numbers that the two
/// decimals denote.
#[verifier::external_body]
fn decimal_below(xs: &str, xe: isize, ys: &str, ye: isize) -> (r: bool)
    requires
        is_int_text(xs@),
        is_int_text(ys@),
    ensures
        r == decimal_less(text_value(xs@), xe as int, text_value(ys@), ye as int),
{
    let a = dashu::Decimal::from_parts(xs.parse().unwrap(), xe).to_string();
    let b = dashu::Decimal::from_parts(ys.parse().unwrap(), ye).to_string();
    let x: dashu::Decimal = a.parse().unwrap();
    let y: dashu::Decimal = b.parse().unwrap();
    x < y
}

/// `n` zero digits.
pub open spec fn zeros(n: int) -> Seq<char> {
    Seq::new((if n < 0 { 0 } else { n }) as nat, |i: int| '0')
}

/// The text of a decimal: positional notation, without an exponent.
pub open spec fn decimal_text(significand: int, exponent: int) -> Seq<char> {
    let sign = if significand < 0 {
        seq!['-']
    } else {
        Seq::empty()
    };
    let d = int_text(if significand < 0 { -significand } else { significand });
    if exponent >= 0 {
        sign + d + zeros(exponent)
    } else if d.len() > -exponent {
        sign + d.take(d.len() + exponent) + seq!['.'] + d.skip(d.len() + exponent)
    } else {
        sign + seq!['0', '.'] + zeros(-exponent - d.len()) + d
    }
}

/// Print a decimal.
///
/// Calls `dashu::Decimal`'s `Display`, which writes the number in positional
/// notation.
#[verifier::external_body]
fn decimal_display(significand: &str, exponent: isize) -> (r: String)
    requires
        is_int_text(significand@),
        is_normalized(text_value(significand@), exponent as int),
    ensures
        r@ == decimal_text(text_value(significand@), exponent as int),
{
    dashu::Decimal::from_parts(significand.parse().unwrap(), exponent).to_string()
}

/// An arbitrary-precision signed integer.
pub struct Integer {
    text: String,
}

impl View for Integer {
    type V = int;

    closed spec fn view(&self) -> int {
        text_value(self.text@)
    }
}

impl Integer {
    #[verifier::type_invariant]
    spec fn canonical(self) -> bool {
        is_int_text(self.text@)
    }

    /// The integer equal to a machine integer.
    pub fn from_i128(n: i128) -> (r: Integer)
        ensures
            r@ == n as int,
    {
        proof {
            lemma_text_value(n as int);
        }
        Integer { text: integer_from_i128(n) }
    }

    /// The integer that a text denotes, if it denotes one.
    pub fn read(s: &str) -> (r: Option<Integer>)
        ensures
            (match r {
                Some(n) => integer_value(s@) == Some(n@),
                None => integer_value(s@) is None,
            }),
    {
        match integer_read(s) {
            Some(t) => {
                proof {
                    lemma_text_value(integer_value(s@)->0);
                }
                Some(Integer { text: t })
            },
            None => None,
        }
    }

    /// The machine integer of the same value, where there is one.
    pub fn to_i128(&self) -> (r: Option<i128>)
        ensures
            r is Some == (i128::MIN <= self@ <= i128::MAX),
            r matches Some(n) ==> n as int == self@,
    {
        proof {
            use_type_invariant(self);
        }
        integer_to_i128(self.text.as_str())
    }

    /// The decimal text.
    pub fn to_text(&self) -> (r: String)
        ensures
            r@ == int_text(self@),
    {
        proof {
            use_type_invariant(self);
        }
        self.text.clone()
    }

    /// Whether the two integers are the same.
    pub fn same(&self, other: &Integer) -> (r: bool)
        ensures
            r == (self@ == other@),
    {
        proof {
            use_type_invariant(self);
            use_type_invariant(other);
        }
        self.text == other.text
    }

    fn copy(&self) -> (r: Integer)
        ensures
            r == *self,
    {
        proof {
            use_type_invariant(self);
        }
        Integer { text: self.text.clone() }
    }
}

impl Clone for Integer {
    fn clone(&self) -> (r: Integer)
        ensures
            r == *self,
    {
        self.copy()
    }
}

/// An arbitrary-precision signed decimal, `significand * 10^exponent`.
pub struct Decimal {
    significand: Integer,
    exponent: isize,
}

impl View for Decimal {
    type V = (int, int);

    closed spec fn view(&self) -> (int, int) {
        (self.significand@, self.exponent as int)
    }
}

impl Decimal {
    #[verifier::type_invariant]
    spec fn normalized(self) -> bool {
        is_normalized(self.significand@, self.exponent as int)
    }

    /// The decimal that a text denotes, or the reader's complaint. A text whose
    /// scale is too large for a portable exponent is refused.
    pub fn read(s: &str) -> (r: Result<Decimal, String>)
        ensures
            (match r {
                Ok(d) => decimal_of(s@) == Ok::<(int, int), Seq<char>>(d@),
                Err(e) => decimal_of(s@) == Err::<(int, int), Seq<char>>(e@),
            }),
    {
        if !scale_is_small(s) {
            return Err("scale out of range".to_owned());
        }
        match decimal_read(s) {
            Ok((t, exponent)) => Ok(Decimal { significand: Integer { text: t }, exponent }),
            Err(e) => Err(e),
        }
    }

    /// The text in positional notation.
    pub fn to_text(&self) -> (r: String)
        ensures
            r@ == decimal_text(self@.0, self@.1),
    {
        proof {
            use_type_invariant(self);
            use_type_invariant(&self.significand);
        }
        decimal_display(self.significand.text.as_str(), self.exponent)
    }

    fn copy(&self) -> (r: Decimal)
        ensures
            r == *self,
    {
        proof {
            use_type_invariant(self);
        }
        Decimal { significand: self.significand.copy(), exponent: self.exponent }
    }
}

impl Clone for Decimal {
    fn clone(&self) -> (r: Decimal)
        ensures
            r == *self,
    {
        self.copy()
    }
}

/// The value of a number: an integer, or a decimal as a significand and a power
/// of ten.
pub enum NumV {
    /// An integer.
    Int(int),
    /// A decimal: significand and exponent.
    Dec(int, int),
}

impl NumV {
    /// The significand and exponent of the number taken as a decimal.
    pub open spec fn parts(self) -> (int, int) {
        match self {
            NumV::Int(n) => (n, 0),
            NumV::Dec(s, e) => (s, e),
        }
    }

    /// The number's text.
    pub open spec fn text(self) -> Seq<char> {
        match self {
            NumV::Int(n) => int_text(n),
            NumV::Dec(s, e) => decimal_text(s, e),
        }
    }

    /// Whether the number is zero.
    pub open spec fn is_zero(self) -> bool {
        self.parts().0 == 0
    }
}

/// A number: an arbitrary-precision integer or decimal.
pub enum Numeric {
    /// Arbitrary-precision signed integer.
    Int(Integer),
    /// Arbitrary-precision signed decimal.
    Dec(Decimal),
}

impl View for Numeric {
    type V = NumV;

    open spec fn view(&self) -> NumV {
        match self {
            Numeric::Int(n) => NumV::Int(n@),
            Numeric::Dec(d) => NumV::Dec(d@.0, d@.1),
        }
    }
}

impl Clone for Numeric {
    fn clone(&self) -> (r: Numeric)
        ensures
            r == *self,
    {
        match self {
            Numeric::Int(n) => Numeric::Int(n.copy()),
            Numeric::Dec(d) => Numeric::Dec(d.copy()),
        }
    }
}

impl Numeric {
    /// True if the value is zero.
    pub fn is_zero(&self) -> (r: bool)
        ensures
            r == self@.is_zero(),
    {
        match self {
            Numeric::Int(n) => n.same(&Integer::from_i128(0)),
            Numeric::Dec(d) => d.significand.same(&Integer::from_i128(0)),
        }
    }

    /// Whether two numbers are the same: an integer and a decimal never are.
    pub fn same(&self, other: &Numeric) -> (r: bool)
        ensures
            r == (self@ == other@),
    {
        match (self, other) {
            (Numeric::Int(a), Numeric::Int(b)) => a.same(b),
            (Numeric::Dec(a), Numeric::Dec(b)) => a.significand.same(&b.significand) && a.exponent
                == b.exponent,
            _ => false,
        }
    }

    /// The number's text.
    pub fn to_text(&self) -> (r: String)
        ensures
            r@ == self@.text(),
    {
        match self {
            Numeric::Int(n) => n.to_text(),
            Numeric::Dec(d) => d.to_text(),
        }
    }

    /// The significand's text and the exponent of the number taken as a decimal.
    fn as_parts(&self) -> (r: (String, isize))
        ensures
            is_int_text(r.0@),
            text_value(r.0@) == self@.parts().0,
            r.1 as int == self@.parts().1,
    {
        match self {
            Numeric::Int(n) => {
                proof {
                    use_type_invariant(n);
                }
                (n.text.clone(), 0)
            },
            Numeric::Dec(d) => {
                proof {
                    use_type_invariant(&d.significand);
                }
                (d.significand.text.clone(), d.exponent)
            },
        }
    }
}

/// The sum of two numbers: exact on integers, a decimal otherwise.
pub open spec fn num_sum(a: NumV, b: NumV) -> NumV {
    if a is Int && b is Int {
        NumV::Int(a->Int_0 + b->Int_0)
    } else {
        let r = decimal_sum(a.parts().0, a.parts().1, b.parts().0, b.parts().1);
        NumV::Dec(r.0, r.1)
    }
}

/// The difference of two numbers: exact on integers, a decimal otherwise.
pub open spec fn num_difference(a: NumV, b: NumV) -> NumV {
    if a is Int && b is Int {
        NumV::Int(a->Int_0 - b->Int_0)
    } else {
        let r = decimal_difference(a.parts().0, a.parts().1, b.parts().0, b.parts().1);
        NumV::Dec(r.0, r.1)
    }
}

/// The product of two numbers: exact on integers, a decimal otherwise.
pub open spec fn num_product(a: NumV, b: NumV) -> NumV {
    if a is Int && b is Int {
        NumV::Int(a->Int_0 * b->Int_0)
    } else {
        let r = decimal_product(a.parts().0, a.parts().1, b.parts().0, b.parts().1);
        NumV::Dec(r.0, r.1)
    }
}

/// Whether a number is below another one.
pub open spec fn num_less(a: NumV, b: NumV) -> bool {
    if a is Int && b is Int {
        a->Int_0 < b->Int_0
    } else {
        decimal_less(a.parts().0, a.parts().1, b.parts().0, b.parts().1)
    }
}

/// Add two numbers, promoting to a decimal when either operand is one.
pub fn numeric_add(a: &Numeric, b: &Numeric) -> (r: Numeric)
    ensures
        r@ == num_sum(a@, b@),
{
    match (a, b) {
        (Numeric::Int(x), Numeric::Int(y)) => {
            proof {
                use_type_invariant(x);
                use_type_invariant(y);
                lemma_text_value(x@ + y@);
            }
            Numeric::Int(Integer { text: integer_sum(x.text.as_str(), y.text.as_str()) })
        },
        _ => {
            let (xs, xe) = a.as_parts();
            let (ys, ye) = b.as_parts();
            let (t, exponent) = decimal_plus(xs.as_str(), xe, ys.as_str(), ye);
            Numeric::Dec(Decimal { significand: Integer { text: t }, exponent })
        },
    }
}

/// Subtract two numbers, promoting to a decimal when either operand is one.
pub fn numeric_sub(a: &Numeric, b: &Numeric) -> (r: Numeric)
    ensures
        r@ == num_difference(a@, b@),
{
    match (a, b) {
        (Numeric::Int(x), Numeric::Int(y)) => {
            proof {
                use_type_invariant(x);
                use_type_invariant(y);
                lemma_text_value(x@ - y@);
            }
            Numeric::Int(Integer { text: integer_difference(x.text.as_str(), y.text.as_str()) })
        },
        _ => {
            let (xs, xe) = a.as_parts();
            let (ys, ye) = b.as_parts();
            let (t, exponent) = decimal_minus(xs.as_str(), xe, ys.as_str(), ye);
            Numeric::Dec(Decimal { significand: Integer { text: t }, exponent })
        },
    }
}

/// Multiply two numbers, promoting to a decimal when either operand is one.
pub fn numeric_mul(a: &Numeric, b: &Numeric) -> (r: Numeric)
    ensures
        r@ == num_product(a@, b@),
{
    match (a, b) {
        (Numeric::Int(x), Numeric::Int(y)) => {
            proof {
                use_type_invariant(x);
                use_type_invariant(y);
                lemma_text_value(x@ * y@);
            }
            Numeric::Int(Integer { text: integer_product(x.text.as_str(), y.text.as_str()) })
        },
        _ => {
            let (xs, xe) = a.as_parts();
            let (ys, ye) = b.as_parts();
            let (t, exponent) = decimal_times(xs.as_str(), xe, ys.as_str(), ye);
            Numeric::Dec(Decimal { significand: Integer { text: t }, exponent })
        },
    }
}

/// The remainder of two numbers, or why there is none.
pub open spec fn num_remainder(a: NumV, b: NumV) -> Result<NumV, Seq<char>> {
    if a is Int && b is Int {
        if b->Int_0 == 0 {
            Err("% by zero"@)
        } else {
            Ok(NumV::Int(truncated_rem(a->Int_0, b->Int_0)))
        }
    } else {
        Err("% requires integers"@)
    }
}

/// Take the remainder of two integers; decimals and a zero divisor are refused.
pub fn numeric_rem(a: &Numeric, b: &Numeric) -> (r: Result<Numeric, String>)
    ensures
        (match r {
            Ok(n) => num_remainder(a@, b@) == Ok::<NumV, Seq<char>>(n@),
            Err(e) => num_remainder(a@, b@) == Err::<NumV, Seq<char>>(e@),
        }),
{
    match (a, b) {
        (Numeric::Int(x), Numeric::Int(y)) => {
            if b.is_zero() {
                Err("% by zero".to_owned())
            } else {
                proof {
                    use_type_invariant(x);
                    use_type_invariant(y);
                    lemma_text_value(truncated_rem(x@, y@));
                }
                Ok(
                    Numeric::Int(
                        Integer { text: integer_remainder(x.text.as_str(), y.text.as_str()) },
                    ),
                )
            }
        },
        _ => Err("% requires integers".to_owned()),
    }
}

/// Whether the first number is below the second. Compares as decimals unless
/// both are integers.
pub fn numeric_below(a: &Numeric, b: &Numeric) -> (r: bool)
    ensures
        r == num_less(a@, b@),
{
    match (a, b) {
        (Numeric::Int(x), Numeric::Int(y)) => {
            proof {
                use_type_invariant(x);
                use_type_invariant(y);
            }
            integer_below(x.text.as_str(), y.text.as_str())
        },
        _ => {
            let (xs, xe) = a.as_parts();
            let (ys, ye) = b.as_parts();
            decimal_below(xs.as_str(), xe, ys.as_str(), ye)
        },
    }
}

} // verus!
