//! Text helpers shared by the reader, the printer and the evaluator.
//!
//! Text is modelled as `Seq<char>`. The executable functions here are the few
//! string operations the rest of the library is built from.
use vstd::prelude::*;
use vstd::string::*;

verus! {

/// Compare two string slices.
///
/// Calls `str`'s own `==`; the contract says that it compares the characters.
#[verifier::external_body]
pub(crate) fn same(a: &str, b: &str) -> (r: bool)
    ensures
        r == (a@ == b@),
{
    a == b
}

/// Append one character to a string.
///
/// Calls `String::push`; the contract says that the character comes last and
/// nothing else changes.
#[verifier::external_body]
pub(crate) fn push_char(s: &mut String, c: char)
    ensures
        final(s)@ == old(s)@.push(c),
{
    s.push(c)
}

/// The text that an optional string holds.
pub open spec fn optional_text(o: Option<String>) -> Option<Seq<char>> {
    match o {
        Some(t) => Some(t@),
        None => None,
    }
}

/// The texts of a list of strings.
pub open spec fn texts(s: Seq<String>) -> Seq<Seq<char>> {
    Seq::new(s.len(), |i: int| s[i]@)
}

/// Adding a string adds its text.
pub broadcast proof fn lemma_texts_push(s: Seq<String>, x: String)
    ensures
        #[trigger] texts(s.push(x)) == texts(s).push(x@),
{
    assert(texts(s.push(x)) =~= texts(s).push(x@));
}

/// Find the first position of a text in a list of strings.
pub fn first_position(list: &Vec<String>, name: &str) -> (r: Option<usize>)
    ensures
        (match r {
            Some(i) => first_index(texts(list@), name@) == Some(i as int) && i < list@.len(),
            None => first_index(texts(list@), name@) is None,
        }),
{
    let ghost ts = texts(list@);
    let mut i: usize = 0;
    assert(ts.skip(0) =~= ts);
    while i < list.len()
        invariant
            i <= list@.len(),
            ts == texts(list@),
            first_index(ts, name@) == (match first_index(ts.skip(i as int), name@) {
                Some(k) => Some(k + i),
                None => None::<int>,
            }),
        decreases list@.len() - i,
    {
        assert(ts.skip(i as int)[0] == list@[i as int]@);
        assert(ts.skip(i as int).skip(1) =~= ts.skip(i + 1));
        if same(list[i].as_str(), name) {
            return Some(i);
        }
        i += 1;
    }
    None
}

/// The first position of a text.
pub open spec fn first_index(s: Seq<Seq<char>>, name: Seq<char>) -> Option<int>
    decreases s.len(),
{
    if s.len() == 0 {
        None
    } else if s[0] == name {
        Some(0)
    } else {
        match first_index(s.skip(1), name) {
            Some(k) => Some(k + 1),
            None => None,
        }
    }
}

/// A text without a first position is not in the list.
pub proof fn lemma_first_index(s: Seq<Seq<char>>, name: Seq<char>)
    ensures
        first_index(s, name) is Some == s.contains(name),
    decreases s.len(),
{
    if s.len() > 0 {
        lemma_first_index(s.skip(1), name);
        if s.contains(name) && s[0] != name {
            let i = choose|i: int| 0 <= i < s.len() && s[i] == name;
            assert(s.skip(1)[i - 1] == name);
        }
        if s.skip(1).contains(name) {
            let i = choose|i: int| 0 <= i < s.skip(1).len() && s.skip(1)[i] == name;
            assert(s[i + 1] == name);
        }
    }
}

/// The last position of a text.
pub open spec fn last_index(s: Seq<Seq<char>>, name: Seq<char>) -> Option<int>
    decreases s.len(),
{
    if s.len() == 0 {
        None
    } else if s.last() == name {
        Some(s.len() - 1)
    } else {
        last_index(s.drop_last(), name)
    }
}

/// Find the last position of a text in a list of strings.
pub fn last_position(list: &Vec<String>, name: &str) -> (r: Option<usize>)
    ensures
        (match r {
            Some(i) => last_index(texts(list@), name@) == Some(i as int) && i < list@.len(),
            None => last_index(texts(list@), name@) is None,
        }),
{
    let ghost ts = texts(list@);
    let mut i: usize = list.len();
    assert(ts.take(list@.len() as int) =~= ts);
    while i > 0
        invariant
            i <= list@.len(),
            ts == texts(list@),
            last_index(ts, name@) == last_index(ts.take(i as int), name@),
        decreases i,
    {
        assert(ts.take(i as int).last() == list@[i - 1]@);
        assert(ts.take(i as int).drop_last() =~= ts.take(i - 1));
        i -= 1;
        if same(list[i].as_str(), name) {
            return Some(i);
        }
    }
    None
}

/// Copy a list of strings.
pub fn copy_texts(list: &Vec<String>) -> (r: Vec<String>)
    ensures
        r@ == list@,
{
    let mut out: Vec<String> = Vec::new();
    let mut i: usize = 0;
    while i < list.len()
        invariant
            i <= list@.len(),
            out@ == list@.take(i as int),
        decreases list@.len() - i,
    {
        out.push(list[i].clone());
        assert(list@.take(i + 1) =~= list@.take(i as int).push(list@[i as int]));
        i += 1;
    }
    assert(list@.take(list@.len() as int) =~= list@);
    out
}

/// A list of texts with those of another list added that are missing.
pub open spec fn united(s: Seq<Seq<char>>, t: Seq<Seq<char>>) -> Seq<Seq<char>>
    decreases t.len(),
{
    if t.len() == 0 {
        s
    } else {
        let before = united(s, t.drop_last());
        if first_index(before, t.last()) is Some {
            before
        } else {
            before.push(t.last())
        }
    }
}

/// Add the strings of another list that are missing.
pub fn add_missing(list: &mut Vec<String>, other: &Vec<String>)
    ensures
        texts(final(list)@) == united(texts(old(list)@), texts(other@)),
{
    broadcast use lemma_texts_push;

    let ghost ts = texts(other@);
    let mut i: usize = 0;
    assert(ts.take(0) =~= Seq::<Seq<char>>::empty());
    while i < other.len()
        invariant
            i <= other@.len(),
            ts == texts(other@),
            texts(list@) == united(texts(old(list)@), ts.take(i as int)),
        decreases other@.len() - i,
    {
        assert(ts.take(i + 1).drop_last() =~= ts.take(i as int));
        match first_position(list, other[i].as_str()) {
            Some(_) => {},
            None => {
                list.push(other[i].clone());
            },
        }
        i += 1;
    }
    assert(ts.take(other@.len() as int) =~= ts);
}

/// Whether a name is a variable name: it starts with `$`.
pub open spec fn is_var_name(s: Seq<char>) -> bool {
    s.len() > 0 && s[0] == '$'
}

/// Whether a name starts with `$`.
pub fn is_var(s: &str) -> (r: bool)
    ensures
        r == is_var_name(s@),
{
    !s.is_empty() && s.get_char(0) == '$'
}

/// The characters of a string, in order.
pub fn chars_of(s: &str) -> (v: Vec<char>)
    ensures
        v@ == s@,
{
    let mut v: Vec<char> = Vec::new();
    for c in it: s.chars()
        invariant
            it.seq() == s@,
            v@ == s@.take(it.index()),
    {
        v.push(c);
        assert(s@.take(it.index() + 1) =~= s@.take(it.index()).push(c));
    }
    assert(s@.take(s@.len() as int) =~= s@);
    v
}

/// The string made of the characters from `from` up to, not including, `to`.
pub fn text_between(v: &Vec<char>, from: usize, to: usize) -> (s: String)
    requires
        from <= to <= v@.len(),
    ensures
        s@ == v@.subrange(from as int, to as int),
{
    let mut s: String = String::new();
    let mut i: usize = from;
    while i < to
        invariant
            from <= i <= to <= v@.len(),
            s@ == v@.subrange(from as int, i as int),
        decreases to - i,
    {
        push_char(&mut s, v[i]);
        assert(v@.subrange(from as int, i + 1) =~= v@.subrange(from as int, i as int).push(
            v@[i as int],
        ));
        i += 1;
    }
    s
}

/// The decimal digit character of a number below ten.
pub open spec fn digit(d: int) -> char {
    (48 + d) as char
}

/// The decimal digits of a natural number, most significant first.
pub open spec fn nat_digits(n: nat) -> Seq<char>
    decreases n,
{
    if n < 10 {
        seq![digit(n as int)]
    } else {
        nat_digits(n / 10).push(digit((n % 10) as int))
    }
}

/// The decimal text of an integer.
pub open spec fn int_text(v: int) -> Seq<char> {
    if v < 0 {
        seq!['-'] + nat_digits((-v) as nat)
    } else {
        nat_digits(v as nat)
    }
}

/// Render a machine integer in decimal.
pub fn u64_text(n: u64) -> (s: String)
    ensures
        s@ == nat_digits(n as nat),
    decreases n,
{
    let d: u8 = (n % 10) as u8;
    let c: char = (48u8 + d) as char;
    if n < 10 {
        let mut s: String = String::new();
        push_char(&mut s, c);
        assert(s@ =~= nat_digits(n as nat));
        s
    } else {
        let mut s: String = u64_text(n / 10);
        push_char(&mut s, c);
        s
    }
}

/// Render a count in decimal.
pub fn usize_text(n: usize) -> (s: String)
    ensures
        s@ == nat_digits(n as nat),
{
    u64_text(n as u64)
}

/// Render a signed machine integer in decimal.
pub fn i64_text(n: i64) -> (s: String)
    ensures
        s@ == int_text(n as int),
{
    if n < 0 {
        let m: i128 = -(n as i128);
        let mut s: String = String::from_str("-");
        proof {
            reveal_strlit("-");
        }
        let t: String = u64_text(m as u64);
        s.append(t.as_str());
        assert(s@ =~= int_text(n as int));
        s
    } else {
        u64_text(n as u64)
    }
}

/// Two texts put together.
pub fn joined(a: &str, b: &str) -> (s: String)
    ensures
        s@ == a@ + b@,
{
    let mut s: String = a.to_owned();
    s.append(b);
    s
}

/// Three texts put together.
pub fn joined3(a: &str, b: &str, c: &str) -> (s: String)
    ensures
        s@ == a@ + b@ + c@,
{
    let mut s: String = a.to_owned();
    s.append(b);
    s.append(c);
    s
}

/// The lower-case form of an ASCII letter; other characters stay.
pub open spec fn ascii_lower(c: char) -> char {
    if 'A' <= c && c <= 'Z' {
        (c as int + 32) as char
    } else {
        c
    }
}

/// A text with its ASCII letters in lower case.
pub open spec fn lower_text(s: Seq<char>) -> Seq<char> {
    s.map_values(|c: char| ascii_lower(c))
}

/// Put the ASCII letters of a text in lower case.
pub fn to_lower(s: &str) -> (r: String)
    ensures
        r@ == lower_text(s@),
{
    let v = chars_of(s);
    let mut r: String = String::new();
    let mut i: usize = 0;
    while i < v.len()
        invariant
            i <= v@.len(),
            v@ == s@,
            r@ == lower_text(s@.take(i as int)),
        decreases v@.len() - i,
    {
        let c: char = v[i];
        let l: char = if 'A' <= c && c <= 'Z' {
            ((c as u8) + 32) as char
        } else {
            c
        };
        push_char(&mut r, l);
        assert(lower_text(s@.take(i + 1)) =~= lower_text(s@.take(i as int)).push(
            ascii_lower(s@[i as int]),
        ));
        i += 1;
    }
    assert(s@.take(s@.len() as int) =~= s@);
    r
}

/// One character of a string literal's escaped form.
pub open spec fn escaped_char(c: char) -> Seq<char> {
    if c == '\\' || c == '"' {
        seq!['\\', c]
    } else {
        seq![c]
    }
}

/// A text with every backslash and double quote preceded by a backslash.
pub open spec fn escaped(s: Seq<char>) -> Seq<char>
    decreases s.len(),
{
    if s.len() == 0 {
        Seq::empty()
    } else {
        escaped(s.drop_last()) + escaped_char(s.last())
    }
}

/// A text between double quotes, escaped.
pub open spec fn quoted(s: Seq<char>) -> Seq<char> {
    seq!['"'] + escaped(s) + seq!['"']
}

/// Render a text as a string literal.
pub fn quote_text(s: &str) -> (r: String)
    ensures
        r@ == quoted(s@),
{
    let v = chars_of(s);
    let mut r: String = String::new();
    push_char(&mut r, '"');
    let mut i: usize = 0;
    while i < v.len()
        invariant
            i <= v@.len(),
            v@ == s@,
            r@ == seq!['"'] + escaped(s@.take(i as int)),
        decreases v@.len() - i,
    {
        let c: char = v[i];
        if c == '\\' || c == '"' {
            push_char(&mut r, '\\');
        }
        push_char(&mut r, c);
        assert(s@.take(i + 1).drop_last() =~= s@.take(i as int));
        assert(r@ =~= seq!['"'] + escaped(s@.take(i + 1)));
        i += 1;
    }
    assert(s@.take(s@.len() as int) =~= s@);
    push_char(&mut r, '"');
    assert(r@ =~= quoted(s@));
    r
}

/// Parts put together with one space between each two of them.
pub open spec fn spaced(parts: Seq<Seq<char>>) -> Seq<char>
    decreases parts.len(),
{
    if parts.len() == 0 {
        Seq::empty()
    } else if parts.len() == 1 {
        parts[0]
    } else {
        spaced(parts.drop_last()) + seq![' '] + parts.last()
    }
}

/// Lexicographic order of texts by character.
pub open spec fn text_before(a: Seq<char>, b: Seq<char>) -> bool
    decreases a.len(),
{
    if b.len() == 0 {
        false
    } else if a.len() == 0 {
        true
    } else if a[0] != b[0] {
        a[0] < b[0]
    } else {
        text_before(a.drop_first(), b.drop_first())
    }
}

/// Whether `a` comes strictly before `b` in lexicographic order.
pub fn comes_before(a: &str, b: &str) -> (r: bool)
    ensures
        r == text_before(a@, b@),
{
    let x = chars_of(a);
    let y = chars_of(b);
    let mut i: usize = 0;
    assert(a@.skip(0) =~= a@);
    assert(b@.skip(0) =~= b@);
    while i < x.len() && i < y.len()
        invariant
            i <= x@.len(),
            i <= y@.len(),
            x@ == a@,
            y@ == b@,
            text_before(a@, b@) == text_before(a@.skip(i as int), b@.skip(i as int)),
        decreases x@.len() - i,
    {
        if x[i] != y[i] {
            return x[i] < y[i];
        }
        assert(a@.skip(i as int).drop_first() =~= a@.skip(i + 1));
        assert(b@.skip(i as int).drop_first() =~= b@.skip(i + 1));
        i += 1;
    }
    i < y.len()
}

/// Every character of a decimal text is a digit.
pub proof fn lemma_digits_are_digits(n: nat)
    ensures
        nat_digits(n).len() > 0,
        forall|i: int|
            0 <= i < nat_digits(n).len() ==> '0' <= #[trigger] nat_digits(n)[i]
                && nat_digits(n)[i] <= '9',
    decreases n,
{
    if n >= 10 {
        lemma_digits_are_digits(n / 10);
    }
}

/// Different natural numbers have different decimal texts.
pub proof fn lemma_nat_digits_injective(m: nat, n: nat)
    requires
        nat_digits(m) == nat_digits(n),
    ensures
        m == n,
    decreases m,
{
    lemma_digits_are_digits(m / 10);
    lemma_digits_are_digits(n / 10);
    let a = nat_digits(m);
    let b = nat_digits(n);
    assert(digit((m % 10) as int) as int == 48 + m % 10);
    assert(digit((n % 10) as int) as int == 48 + n % 10);
    if m < 10 && n < 10 {
        assert(a[0] == b[0]);
        assert(a[0] == digit(m as int) && b[0] == digit(n as int));
        assert(m % 10 == m && n % 10 == n);
    } else if m >= 10 && n >= 10 {
        assert(a.last() == digit((m % 10) as int) && b.last() == digit((n % 10) as int));
        assert(m % 10 == n % 10);
        assert(a.drop_last() =~= nat_digits(m / 10));
        assert(b.drop_last() =~= nat_digits(n / 10));
        lemma_nat_digits_injective(m / 10, n / 10);
        assert(m == 10 * (m / 10) + m % 10 && n == 10 * (n / 10) + n % 10);
    } else {
        assert(m >= 10 ==> a.len() == nat_digits(m / 10).len() + 1 && b.len() == 1);
        assert(n >= 10 ==> b.len() == nat_digits(n / 10).len() + 1 && a.len() == 1);
    }
}

/// Different integers have different decimal texts.
pub proof fn lemma_int_text_injective(v: int, w: int)
    requires
        int_text(v) == int_text(w),
    ensures
        v == w,
{
    lemma_digits_are_digits((if v < 0 { -v } else { v }) as nat);
    lemma_digits_are_digits((if w < 0 { -w } else { w }) as nat);
    assert(v < 0 ==> int_text(v)[0] == '-');
    assert(w < 0 ==> int_text(w)[0] == '-');
    if v < 0 && w < 0 {
        assert(int_text(v).drop_first() =~= nat_digits((-v) as nat));
        assert(int_text(w).drop_first() =~= nat_digits((-w) as nat));
        lemma_nat_digits_injective((-v) as nat, (-w) as nat);
    } else if v >= 0 && w >= 0 {
        lemma_nat_digits_injective(v as nat, w as nat);
    }
}

/// No lines.
pub fn no_lines() -> (r: Vec<String>)
    ensures
        texts(r@) == Seq::<Seq<char>>::empty(),
{
    let none: Vec<String> = Vec::new();
    assert(texts(none@) =~= Seq::<Seq<char>>::empty());
    none
}

} // verus!
