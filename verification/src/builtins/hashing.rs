//! What a hasher is fed with.
//!
//! The hash of a value is the host's: its hasher's numbers are not specified.
//! Which words the hasher gets, and in which order, is decided here.
use crate::atom::Atom;
use crate::atom::AtomV;
use crate::atom::atoms;
use crate::atom::group_atoms;
use crate::expr::expr_text;
use vstd::prelude::*;

verus! {

/// A word that a hasher is fed with.
pub enum HashWord {
    /// The kind of an atom.
    Kind(u8),
    /// A text.
    Text(String),
    /// A number of elements.
    Count(usize),
    /// The key of an object of the host.
    Key(u64),
}

/// The value of a word that a hasher is fed with.
pub enum HashWordV {
    /// The kind of an atom.
    Kind(u8),
    /// A text.
    Text(Seq<char>),
    /// A number of elements.
    Count(nat),
    /// The key of an object of the host.
    Key(u64),
}

impl View for HashWord {
    type V = HashWordV;

    open spec fn view(&self) -> HashWordV {
        match self {
            HashWord::Kind(k) => HashWordV::Kind(*k),
            HashWord::Text(s) => HashWordV::Text(s@),
            HashWord::Count(n) => HashWordV::Count(*n as nat),
            HashWord::Key(k) => HashWordV::Key(*k),
        }
    }
}

/// The values of words.
pub open spec fn words(s: Seq<HashWord>) -> Seq<HashWordV> {
    Seq::new(s.len(), |i: int| s[i]@)
}

/// The words of an atom: its kind, and then what it holds. Of a list, that is
/// its length and the words of its elements; of an anonymous function, the text
/// of its body.
pub open spec fn atom_words(a: AtomV) -> Seq<HashWordV>
    decreases a,
{
    match a {
        AtomV::Sym(s) => seq![HashWordV::Kind(0), HashWordV::Text(s)],
        AtomV::Str(s) => seq![HashWordV::Kind(1), HashWordV::Text(s)],
        AtomV::Num(n) => seq![HashWordV::Kind(2), HashWordV::Text(n.text())],
        AtomV::Expr(items) => seq![HashWordV::Kind(3), HashWordV::Count(items.len())] + list_words(
            items,
        ),
        AtomV::Closure(params, body, env) => seq![
            HashWordV::Kind(4),
            HashWordV::Text(expr_text(body)),
        ],
        AtomV::Gnd(key, text) => seq![HashWordV::Kind(5), HashWordV::Key(key)],
    }
}

/// The words of the atoms of a list.
pub open spec fn list_words(s: Seq<AtomV>) -> Seq<HashWordV>
    decreases s,
{
    if s.len() == 0 {
        Seq::empty()
    } else {
        list_words(s.drop_last()) + atom_words(s.last())
    }
}

/// Two words as a list.
fn word_pair(a: HashWord, b: HashWord) -> (r: Vec<HashWord>)
    ensures
        words(r@) == seq![a@, b@],
{
    let mut v: Vec<HashWord> = Vec::new();
    v.push(a);
    v.push(b);
    assert(words(v@) =~= seq![a@, b@]);
    v
}

/// List the words of an atom.
pub fn hash_words(a: &Atom) -> (r: Vec<HashWord>)
    ensures
        words(r@) == atom_words(a@),
    decreases a,
{
    broadcast use group_atoms;

    match a {
        Atom::Sym(s) => word_pair(HashWord::Kind(0), HashWord::Text(s.clone())),
        Atom::Str(s) => word_pair(HashWord::Kind(1), HashWord::Text(s.clone())),
        Atom::Num(n) => word_pair(HashWord::Kind(2), HashWord::Text(n.to_text())),
        Atom::Expr(items) => {
            let ghost xs = atoms(items@);
            assert(xs.len() == items@.len());
            let mut out = word_pair(HashWord::Kind(3), HashWord::Count(items.len()));
            let ghost start = words(out@);
            let mut i: usize = 0;
            assert(xs.take(0) =~= Seq::<AtomV>::empty());
            assert(start + Seq::<HashWordV>::empty() =~= start);
            while i < items.len()
                invariant
                    i <= items@.len(),
                    *a == Atom::Expr(*items),
                    xs == atoms(items@),
                    words(out@) == start + list_words(xs.take(i as int)),
                decreases items@.len() - i,
            {
                assert(decreases_to!(a => a->Expr_0@[i as int]));
                assert(xs.take(i + 1).drop_last() =~= xs.take(i as int));
                assert(xs.take(i + 1).last() == items@[i as int]@);
                let mut more = hash_words(&items[i]);
                let ghost x = out@;
                let ghost y = more@;
                out.append(&mut more);
                assert(words(out@) =~= words(x) + words(y));
                assert(words(out@) =~= start + list_words(xs.take(i + 1)));
                i += 1;
            }
            assert(xs.take(items@.len() as int) =~= xs);
            out
        },
        Atom::Closure(c) => word_pair(HashWord::Kind(4), HashWord::Text(c.body.to_text())),
        Atom::Gnd(g) => word_pair(HashWord::Kind(5), HashWord::Key(g.key)),
    }
}

} // verus!
