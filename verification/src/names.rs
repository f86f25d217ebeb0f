//! A table keyed by a name and a number of arguments.
use crate::text::same;
use std::sync::Arc;
use vstd::prelude::*;
use vstd::string::*;

verus! {

/// A key: a name and a number of arguments.
pub type Key = (Seq<char>, u8);

/// The table that a list of entries amounts to: a later entry replaces an
/// earlier one with the same key.
pub open spec fn table_of<V>(s: Seq<(String, u8, V)>) -> Map<Key, V>
    decreases s.len(),
{
    if s.len() == 0 {
        Map::empty()
    } else {
        table_of(s.drop_last()).insert((s.last().0@, s.last().1), s.last().2)
    }
}

/// A table keyed by a name and a number of arguments, held as a list of
/// entries.
pub struct NameMap<V> {
    entries: Vec<(String, u8, V)>,
}

impl<V> View for NameMap<V> {
    type V = Map<Key, V>;

    closed spec fn view(&self) -> Map<Key, V> {
        table_of(self.entries@)
    }
}

/// A key is in the table when some entry has it.
proof fn lemma_table_dom<V>(s: Seq<(String, u8, V)>, k: Key)
    ensures
        table_of(s).contains_key(k) == exists|i: int|
            0 <= i < s.len() && (#[trigger] s[i]).0@ == k.0 && s[i].1 == k.1,
    decreases s.len(),
{
    if s.len() > 0 {
        lemma_table_dom(s.drop_last(), k);
        let d = s.drop_last();
        if table_of(d).contains_key(k) {
            let i = choose|i: int| 0 <= i < d.len() && (#[trigger] d[i]).0@ == k.0 && d[i].1 == k.1;
            assert(s[i] == d[i]);
        }
        if s.last().0@ == k.0 && s.last().1 == k.1 {
            assert(s[s.len() - 1] == s.last());
        }
        if exists|i: int| 0 <= i < s.len() && (#[trigger] s[i]).0@ == k.0 && s[i].1 == k.1 {
            let i = choose|i: int| 0 <= i < s.len() && (#[trigger] s[i]).0@ == k.0 && s[i].1 == k.1;
            if i < s.len() - 1 {
                assert(d[i] == s[i]);
            }
        }
    }
}

/// Entries with other keys at the end do not matter to a key.
proof fn lemma_table_prefix<V>(s: Seq<(String, u8, V)>, n: int, k: Key)
    requires
        0 <= n <= s.len(),
        forall|i: int| n <= i < s.len() ==> !((#[trigger] s[i]).0@ == k.0 && s[i].1 == k.1),
    ensures
        table_of(s).contains_key(k) == table_of(s.take(n)).contains_key(k),
        table_of(s).contains_key(k) ==> table_of(s)[k] == table_of(s.take(n))[k],
    decreases s.len(),
{
    if n == s.len() {
        assert(s.take(n) =~= s);
    } else {
        let d = s.drop_last();
        assert(d.take(n) =~= s.take(n));
        assert forall|i: int| n <= i < d.len() implies !((#[trigger] d[i]).0@ == k.0 && d[i].1
            == k.1) by {
            assert(d[i] == s[i]);
        }
        lemma_table_prefix(d, n, k);
        assert(s[s.len() - 1] == s.last());
    }
}

/// Taking an entry out only affects its key.
proof fn lemma_table_remove<V>(s: Seq<(String, u8, V)>, n: int, v: V)
    requires
        0 <= n < s.len(),
    ensures
        table_of(s.remove(n)).insert((s[n].0@, s[n].1), v) == table_of(s).insert(
            (s[n].0@, s[n].1),
            v,
        ),
    decreases s.len(),
{
    let k = (s[n].0@, s[n].1);
    if n == s.len() - 1 {
        assert(s.remove(n) =~= s.drop_last());
        assert(table_of(s.remove(n)).insert(k, v) =~= table_of(s).insert(k, v));
    } else {
        assert(s.remove(n).drop_last() =~= s.drop_last().remove(n));
        assert(s.remove(n).last() == s.last());
        assert(s.drop_last()[n] == s[n]);
        lemma_table_remove(s.drop_last(), n, v);
        let a = table_of(s.drop_last().remove(n)).insert(k, v);
        let b = table_of(s.drop_last()).insert(k, v);
        assert(a == b);
        assert(table_of(s.remove(n)).insert(k, v) =~= table_of(s).insert(k, v)) by {
            let last = (s.last().0@, s.last().1);
            let left = table_of(s.remove(n)).insert(k, v);
            let right = table_of(s).insert(k, v);
            assert forall|q: Key| #[trigger] left.contains_key(q) == right.contains_key(q) && (
            left.contains_key(q) ==> left[q] == right[q]) by {
                assert(a.contains_key(q) == b.contains_key(q));
                if q != k && q != last {
                    assert(a.contains_key(q) ==> a[q] == b[q]);
                }
            }
        }
    }
}

impl<V> NameMap<V> {
    /// An empty table.
    pub fn new() -> (r: NameMap<V>)
        ensures
            r@ == Map::<Key, V>::empty(),
    {
        NameMap { entries: Vec::new() }
    }

    /// The position of the entry that counts for a key.
    fn position(&self, name: &str, arity: u8) -> (r: Option<usize>)
        ensures
            (match r {
                Some(i) => i < self.entries@.len() && self.entries@[i as int].0@ == name@
                    && self.entries@[i as int].1 == arity && self@.contains_key((name@, arity))
                    && self@[(name@, arity)] == self.entries@[i as int].2,
                None => !self@.contains_key((name@, arity)),
            }),
    {
        let ghost k = (name@, arity);
        let mut i: usize = self.entries.len();
        while i > 0
            invariant
                i <= self.entries@.len(),
                k == (name@, arity),
                forall|j: int|
                    i <= j < self.entries@.len() ==> !((#[trigger] self.entries@[j]).0@ == k.0
                        && self.entries@[j].1 == k.1),
            decreases i,
        {
            i -= 1;
            if self.entries[i].1 == arity && same(self.entries[i].0.as_str(), name) {
                proof {
                    let s = self.entries@;
                    lemma_table_prefix(s, i + 1, k);
                    assert(s.take(i + 1).drop_last() =~= s.take(i as int));
                    assert(s.take(i + 1).last() == s[i as int]);
                }
                return Some(i);
            }
        }
        proof {
            lemma_table_dom(self.entries@, k);
        }
        None
    }

    /// Give a key a value, replacing what it had.
    pub fn insert(&mut self, name: &str, arity: u8, value: V)
        ensures
            final(self)@ == old(self)@.insert((name@, arity), value),
    {
        match self.position(name, arity) {
            Some(i) => {
                proof {
                    lemma_table_remove(self.entries@, i as int, value);
                }
                let gone = self.entries.remove(i);
            },
            None => {},
        }
        let ghost before = self.entries@;
        self.entries.push((name.to_owned(), arity, value));
        assert(self.entries@.drop_last() =~= before);
    }

    /// The value of a key.
    pub fn get(&self, name: &str, arity: u8) -> (r: Option<&V>)
        ensures
            (match r {
                Some(v) => self@.contains_key((name@, arity)) && self@[(name@, arity)] == *v,
                None => !self@.contains_key((name@, arity)),
            }),
    {
        match self.position(name, arity) {
            Some(i) => Some(&self.entries[i].2),
            None => None,
        }
    }

    /// Whether a key has a value.
    pub fn contains(&self, name: &str, arity: u8) -> (r: bool)
        ensures
            r == self@.contains_key((name@, arity)),
    {
        self.position(name, arity).is_some()
    }

    /// Whether a name has a value for more arguments than given.
    pub fn has_more(&self, name: &str, arity: usize) -> (r: bool)
        ensures
            r == exists|n: u8| n > arity && #[trigger] self@.contains_key((name@, n)),
    {
        let mut i: usize = 0;
        while i < self.entries.len()
            invariant
                i <= self.entries@.len(),
                forall|j: int|
                    0 <= j < i ==> !((#[trigger] self.entries@[j]).0@ == name@
                        && self.entries@[j].1 > arity),
            decreases self.entries@.len() - i,
        {
            if self.entries[i].1 as usize > arity && same(self.entries[i].0.as_str(), name) {
                proof {
                    lemma_table_dom(self.entries@, (name@, self.entries@[i as int].1));
                    assert(self@.contains_key((name@, self.entries@[i as int].1)));
                }
                return true;
            }
            i += 1;
        }
        proof {
            assert forall|n: u8| n > arity implies !#[trigger] self@.contains_key((name@, n)) by {
                lemma_table_dom(self.entries@, (name@, n));
            }
        }
        false
    }
}

impl<T> NameMap<Arc<T>> {
    /// A table with the same, shared values.
    pub fn share(&self) -> (r: NameMap<Arc<T>>)
        ensures
            r@ == self@,
    {
        let mut entries: Vec<(String, u8, Arc<T>)> = Vec::new();
        let mut i: usize = 0;
        while i < self.entries.len()
            invariant
                i <= self.entries@.len(),
                entries@ == self.entries@.take(i as int),
            decreases self.entries@.len() - i,
        {
            let e = &self.entries[i];
            entries.push((e.0.clone(), e.1, e.2.clone()));
            assert(self.entries@.take(i + 1) =~= self.entries@.take(i as int).push(
                self.entries@[i as int],
            ));
            i += 1;
        }
        assert(self.entries@.take(self.entries@.len() as int) =~= self.entries@);
        NameMap { entries }
    }
}

} // verus!
