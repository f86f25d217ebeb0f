//! Function clauses and the table of functions.
use crate::atom::Atom;
use crate::atom::AtomV;
use crate::atom::atom_same;
use crate::atom::atoms;
use crate::atom::copy_atoms;
use crate::atom::group_atoms;
use crate::expr::Expr;
use crate::expr::ExprV;
use crate::expr::copy_exprs;
use crate::expr::exprs;
use crate::names::Key;
use crate::names::NameMap;
use crate::text::same;
use std::sync::Arc;
use vstd::prelude::*;
use vstd::string::*;

verus! {

/// One clause of a user-defined function.
pub struct Clause {
    /// The argument patterns.
    pub patterns: Vec<Expr>,
    /// The body.
    pub body: Expr,
}

/// The value of a clause.
pub struct ClauseV {
    /// The argument patterns.
    pub patterns: Seq<ExprV>,
    /// The body.
    pub body: ExprV,
}

impl View for Clause {
    type V = ClauseV;

    open spec fn view(&self) -> ClauseV {
        ClauseV { patterns: exprs(self.patterns@), body: self.body@ }
    }
}

/// The values of a sequence of clauses.
pub open spec fn clauses(s: Seq<Clause>) -> Seq<ClauseV> {
    Seq::new(s.len(), |i: int| s[i]@)
}

/// Copy a list of clauses.
pub fn copy_clauses(list: &Vec<Clause>) -> (r: Vec<Clause>)
    ensures
        clauses(r@) == clauses(list@),
{
    let mut out: Vec<Clause> = Vec::new();
    let mut i: usize = 0;
    while i < list.len()
        invariant
            i <= list@.len(),
            clauses(out@) == clauses(list@).take(i as int),
        decreases list@.len() - i,
    {
        let patterns = copy_exprs(&list[i].patterns, 0);
        assert(list@[i as int].patterns@.skip(0) =~= list@[i as int].patterns@);
        let ghost before = out@;
        out.push(Clause { patterns, body: list[i].body.clone() });
        assert(clauses(out@) =~= clauses(before).push(list@[i as int]@));
        assert(clauses(list@).take(i + 1) =~= clauses(list@).take(i as int).push(
            clauses(list@)[i as int],
        ));
        i += 1;
    }
    assert(clauses(list@).take(list@.len() as int) =~= clauses(list@));
    out
}

/// The functions that the host computes with floating-point numbers.
#[derive(Clone, Copy, PartialEq, Eq, Structural)]
pub enum FloatFn {
    /// Square root.
    Sqrt,
    /// Absolute value.
    Abs,
    /// Integer part.
    Trunc,
    /// Smallest integer not below.
    Ceil,
    /// Largest integer not above.
    Floor,
    /// Nearest integer.
    Round,
    /// Sine.
    Sin,
    /// Arc sine.
    Asin,
    /// Cosine.
    Cos,
    /// Arc cosine.
    Acos,
    /// Tangent.
    Tan,
    /// Arc tangent.
    Atan,
    /// Exponential.
    Exp,
    /// Power.
    Pow,
    /// Logarithm.
    Log,
    /// Smaller of two numbers.
    Min,
    /// Larger of two numbers.
    Max,
    /// Whether a number is not a number.
    IsNan,
    /// Whether a number is infinite.
    IsInf,
    /// Smallest element.
    MinAtom,
    /// Largest element.
    MaxAtom,
    /// Elements in numeric order.
    SortMath,
    /// A random integer in a range.
    RandomInt,
    /// A random number in a range.
    RandomFloat,
}

/// The functions of the compact set of built-in functions that differ from those
/// of the same name in the large set.
#[derive(Clone, Copy, PartialEq, Eq, Structural)]
pub enum CompactFn {
    /// Sum.
    Add,
    /// Difference.
    Sub,
    /// Product.
    Mul,
    /// Quotient.
    Div,
    /// Remainder.
    Rem,
    /// Less than.
    Below,
    /// Greater than.
    Above,
    /// Less than or equal.
    AtMost,
    /// Greater than or equal.
    AtLeast,
    /// Computed with floating-point numbers.
    Float(FloatFn),
    /// The contents of the space of the program.
    GetAtoms,
    /// Compare two values; a difference is an error.
    Test,
    /// The text of a value, as a symbol.
    Repr,
    /// Split into first element and rest.
    Decons,
    /// The elements of two lists, each once.
    Union,
    /// The elements that two lists share, each once.
    Intersect,
    /// The elements that do not occur in another list.
    Subtract,
    /// Fold from the left with a built-in function.
    Foldl,
    /// Apply a built-in function to each element.
    MapList,
    /// Keep the elements for which a built-in function says `True`.
    Filter,
    /// Read a value from text.
    Read,
}

/// The built-in functions.
#[derive(Clone, Copy, PartialEq, Eq, Structural)]
pub enum Builtin {
    /// Sum.
    Add,
    /// Difference.
    Sub,
    /// Product.
    Mul,
    /// Quotient.
    Div,
    /// Remainder.
    Rem,
    /// Less than.
    Below,
    /// Greater than.
    Above,
    /// Less than or equal.
    AtMost,
    /// Greater than or equal.
    AtLeast,
    /// Computed with floating-point numbers.
    Float(FloatFn),
    /// Structural equality.
    Equal,
    /// Structural inequality.
    NotEqual,
    /// Equality up to renaming of variables.
    AlphaEqual,
    /// Number of elements.
    Size,
    /// First element, or nothing.
    HeadOrNone,
    /// First element, or an error.
    Head,
    /// All but the first element, or nothing.
    TailOrNone,
    /// All but the first element, or an error.
    Tail,
    /// Put an element in front.
    Cons,
    /// Split into first element and rest.
    Decons,
    /// Put two lists together.
    Append,
    /// Turn a list round.
    Reverse,
    /// Element at a position.
    Index,
    /// The argument itself.
    Id,
    /// Second element.
    Second,
    /// Last element.
    Last,
    /// Elements in the order of their texts.
    SortText,
    /// Elements in the order of their texts, each once.
    SortUnique,
    /// Whether an element occurs.
    Member,
    /// Leave out an element.
    Exclude,
    /// Leave out later occurrences.
    Unique,
    /// Leave out later occurrences up to renaming of variables.
    AlphaUnique,
    /// Elements that also occur in another list.
    Intersect,
    /// Elements that do not occur in another list.
    Subtract,
    /// Fold from the left.
    Foldl,
    /// Apply to each element.
    MapAtom,
    /// Apply a built-in function to each element.
    MapList,
    /// Keep the elements that satisfy a predicate.
    FilterAtom,
    /// Put two values together.
    Concat,
    /// Put two texts together.
    AtomConcat,
    /// The characters of a text.
    AtomChars,
    /// A hash of a value.
    TermHash,
    /// The text of a value.
    Repr,
    /// Read a value from text.
    Parse,
    /// Check that a value is true.
    Assert,
    /// Compare two values and report.
    Test,
    /// The contents of a space.
    GetAtoms,
    /// Set a state value.
    ChangeState,
    /// Read a state value.
    GetState,
    /// Set an initial state value.
    BindState,
    /// Whether a value is a variable.
    IsVar,
    /// Whether a value is an expression.
    IsExpr,
    /// Whether a value names a space.
    IsSpace,
    /// The declared type of a value.
    GetType,
    /// The kind of a value.
    GetMetatype,
    /// One of the compact set.
    Compact(CompactFn),
}

/// A remembered result of a pure function.
pub struct MemoEntry {
    /// The function's name.
    pub name: String,
    /// The arguments.
    pub args: Vec<Atom>,
    /// The result.
    pub values: Vec<Atom>,
}

/// The value of a remembered result.
pub type MemoV = (Seq<char>, Seq<AtomV>, Seq<AtomV>);

/// The values of remembered results.
pub open spec fn memo_values(s: Seq<MemoEntry>) -> Seq<MemoV> {
    Seq::new(s.len(), |i: int| (s[i].name@, atoms(s[i].args@), atoms(s[i].values@)))
}

/// The remembered result of a call: the latest one.
pub open spec fn remembered(m: Seq<MemoV>, name: Seq<char>, args: Seq<AtomV>) -> Option<Seq<AtomV>>
    decreases m.len(),
{
    if m.len() == 0 {
        None
    } else if m.last().0 == name && m.last().1 == args {
        Some(m.last().2)
    } else {
        remembered(m.drop_last(), name, args)
    }
}

/// The table of functions, with the spaces and the state that functions use.
pub struct FnTable {
    natives: NameMap<Builtin>,
    pure_fns: NameMap<bool>,
    readers: NameMap<bool>,
    fns: NameMap<Arc<Vec<Clause>>>,
    spaces: NameMap<Arc<Vec<Atom>>>,
    state: NameMap<Arc<Atom>>,
    memo: Vec<MemoEntry>,
    fresh: u64,
    renames: u64,
}

/// The value of a table.
#[verifier::ext_equal]
pub struct TableV {
    /// The built-in functions.
    pub natives: Map<Key, Builtin>,
    /// The functions without side effects.
    pub pure_fns: Set<Key>,
    /// The functions that only read spaces.
    pub readers: Set<Key>,
    /// The clauses of user-defined functions.
    pub fns: Map<Key, Seq<ClauseV>>,
    /// The contents of the spaces.
    pub spaces: Map<Key, Seq<AtomV>>,
    /// The state values.
    pub state: Map<Key, AtomV>,
    /// The remembered results.
    pub memo: Seq<MemoV>,
    /// The number the next fresh name gets.
    pub fresh: u64,
    /// The number the next renamed variable gets.
    pub renames: u64,
}

/// The clauses of user-defined functions.
pub open spec fn fn_values(m: Map<Key, Arc<Vec<Clause>>>) -> Map<Key, Seq<ClauseV>> {
    m.map_values(|v: Arc<Vec<Clause>>| clauses(v@))
}

/// The contents of spaces.
pub open spec fn space_values(m: Map<Key, Arc<Vec<Atom>>>) -> Map<Key, Seq<AtomV>> {
    m.map_values(|v: Arc<Vec<Atom>>| atoms(v@))
}

/// The state values.
pub open spec fn state_values(m: Map<Key, Arc<Atom>>) -> Map<Key, AtomV> {
    m.map_values(|a: Arc<Atom>| a@)
}

/// What a transaction can bring back: functions, spaces and state.
pub struct Snapshot {
    fns: NameMap<Arc<Vec<Clause>>>,
    spaces: NameMap<Arc<Vec<Atom>>>,
    state: NameMap<Arc<Atom>>,
}

/// The value of a snapshot.
pub struct SnapshotV {
    /// The clauses of user-defined functions.
    pub fns: Map<Key, Seq<ClauseV>>,
    /// The contents of the spaces.
    pub spaces: Map<Key, Seq<AtomV>>,
    /// The state values.
    pub state: Map<Key, AtomV>,
}

impl View for Snapshot {
    type V = SnapshotV;

    closed spec fn view(&self) -> SnapshotV {
        SnapshotV {
            fns: fn_values(self.fns@),
            spaces: space_values(self.spaces@),
            state: state_values(self.state@),
        }
    }
}

impl View for FnTable {
    type V = TableV;

    closed spec fn view(&self) -> TableV {
        TableV {
            natives: self.natives@,
            pure_fns: self.pure_fns@.dom(),
            readers: self.readers@.dom(),
            fns: fn_values(self.fns@),
            spaces: space_values(self.spaces@),
            state: state_values(self.state@),
            memo: memo_values(self.memo@),
            fresh: self.fresh,
            renames: self.renames,
        }
    }
}

impl TableV {
    /// The contents of the space with a name.
    pub open spec fn space(self, name: Seq<char>) -> Seq<AtomV> {
        if self.spaces.contains_key((name, 0)) {
            self.spaces[(name, 0)]
        } else {
            Seq::empty()
        }
    }

    /// The clauses of a function, if it has any.
    pub open spec fn clauses_of(self, name: Seq<char>, arity: u8) -> Option<Seq<ClauseV>> {
        if self.fns.contains_key((name, arity)) {
            Some(self.fns[(name, arity)])
        } else {
            None
        }
    }

    /// Whether a function takes more arguments than given.
    pub open spec fn takes_more(self, name: Seq<char>, arity: int) -> bool {
        (exists|n: u8| n > arity && #[trigger] self.natives.contains_key((name, n))) || (exists|n: u8|
            n > arity && #[trigger] self.fns.contains_key((name, n)))
    }

    /// The table with one more clause of a function.
    pub open spec fn with_clause(self, name: Seq<char>, arity: u8, c: ClauseV) -> TableV {
        TableV {
            fns: self.fns.insert(
                (name, arity),
                (match self.clauses_of(name, arity) {
                    Some(cs) => cs,
                    None => Seq::empty(),
                }).push(c),
            ),
            memo: Seq::empty(),
            ..self
        }
    }

    /// The table with a different list of clauses for a function.
    pub open spec fn with_clauses(self, name: Seq<char>, arity: u8, cs: Seq<ClauseV>) -> TableV {
        TableV { fns: self.fns.insert((name, arity), cs), memo: Seq::empty(), ..self }
    }

    /// The table with different contents of a space.
    pub open spec fn with_space(self, name: Seq<char>, s: Seq<AtomV>) -> TableV {
        TableV { spaces: self.spaces.insert((name, 0), s), memo: Seq::empty(), ..self }
    }
}

impl FnTable {
    /// An empty table. Fresh names are numbered from 100000.
    pub fn new() -> (r: FnTable)
        ensures
            r@ == empty_table(100000),
    {
        FnTable::numbered_from(100000)
    }

    /// An empty table whose fresh names are numbered from a number on. Tables
    /// that share a process are kept apart by the numbers they start from.
    pub fn numbered_from(first: u64) -> (r: FnTable)
        ensures
            r@ == empty_table(first),
    {
        let r = FnTable {
            natives: NameMap::new(),
            pure_fns: NameMap::new(),
            readers: NameMap::new(),
            fns: NameMap::new(),
            spaces: NameMap::new(),
            state: NameMap::new(),
            memo: Vec::new(),
            fresh: first,
            renames: 1,
        };
        assert(r@ =~= empty_table(first));
        r
    }

    /// Register a built-in function.
    pub fn insert_native(&mut self, name: &str, arity: u8, builtin: Builtin)
        ensures
            final(self)@ == (TableV {
                natives: old(self)@.natives.insert((name@, arity), builtin),
                ..old(self)@
            }),
    {
        self.natives.insert(name, arity, builtin);
    }

    /// Mark a function as having no side effects.
    pub fn mark_pure(&mut self, name: &str, arity: u8)
        ensures
            final(self)@ == (TableV {
                pure_fns: old(self)@.pure_fns.insert((name@, arity)),
                ..old(self)@
            }),
    {
        let ghost before = self.pure_fns@;
        self.pure_fns.insert(name, arity, true);
        assert(self.pure_fns@.dom() =~= before.dom().insert((name@, arity)));
    }

    /// Mark a function as only reading spaces.
    pub fn mark_reader(&mut self, name: &str, arity: u8)
        ensures
            final(self)@ == (TableV {
                readers: old(self)@.readers.insert((name@, arity)),
                ..old(self)@
            }),
    {
        let ghost before = self.readers@;
        self.readers.insert(name, arity, true);
        assert(self.readers@.dom() =~= before.dom().insert((name@, arity)));
    }

    /// The built-in function with a name and a number of arguments.
    pub fn get(&self, name: &str, arity: u8) -> (r: Option<Builtin>)
        ensures
            r == (if self@.natives.contains_key((name@, arity)) {
                Some(self@.natives[(name@, arity)])
            } else {
                None
            }),
    {
        match self.natives.get(name, arity) {
            Some(b) => Some(*b),
            None => None,
        }
    }

    /// Whether a function is marked as having no side effects.
    pub fn is_pure_fn(&self, name: &str, arity: u8) -> (r: bool)
        ensures
            r == self@.pure_fns.contains((name@, arity)),
    {
        self.pure_fns.contains(name, arity)
    }

    /// Whether calls of a function can run side by side: it is marked as having
    /// no side effects or as only reading spaces.
    pub fn is_parallelizable(&self, name: &str, arity: u8) -> (r: bool)
        ensures
            r == (self@.pure_fns.contains((name@, arity)) || self@.readers.contains(
                (name@, arity),
            )),
    {
        self.pure_fns.contains(name, arity) || self.readers.contains(name, arity)
    }

    /// The clauses of a user-defined function.
    pub fn clauses_of(&self, name: &str, arity: u8) -> (r: Option<&Vec<Clause>>)
        ensures
            (match r {
                Some(cs) => self@.clauses_of(name@, arity) == Some(clauses(cs@)),
                None => self@.clauses_of(name@, arity) is None,
            }),
    {
        match self.fns.get(name, arity) {
            Some(cs) => Some(cs),
            None => None,
        }
    }

    /// Whether a function takes more arguments than given.
    pub fn has_higher_arity(&self, name: &str, arity: usize) -> (r: bool)
        ensures
            r == self@.takes_more(name@, arity as int),
    {
        let a = self.natives.has_more(name, arity);
        let b = self.fns.has_more(name, arity);
        proof {
            let t = self@;
            assert(t.natives == self.natives@);
            assert(a == exists|n: u8| n > arity && #[trigger] t.natives.contains_key((name@, n)));
            assert(t.fns.dom() =~= self.fns@.dom());
            if b {
                let n = choose|n: u8| n > arity && #[trigger] self.fns@.contains_key((name@, n));
                assert(t.fns.contains_key((name@, n)));
            }
            if exists|n: u8| n > arity && #[trigger] t.fns.contains_key((name@, n)) {
                let n = choose|n: u8| n > arity && #[trigger] t.fns.contains_key((name@, n));
                assert(self.fns@.contains_key((name@, n)));
            }
            assert(b == exists|n: u8| n > arity && #[trigger] t.fns.contains_key((name@, n)));
        }
        a || b
    }

    /// Forget the remembered results.
    fn bump_memo_stamp(&mut self)
        ensures
            final(self)@ == (TableV { memo: Seq::empty(), ..old(self)@ }),
    {
        self.memo.clear();
        assert(memo_values(self.memo@) =~= Seq::<MemoV>::empty());
    }

    /// Add a clause to a user-defined function.
    pub fn cache_fn(&mut self, name: &str, arity: u8, clause: Clause)
        ensures
            final(self)@ == old(self)@.with_clause(name@, arity, clause@),
    {
        let ghost before = self.fns@;
        let ghost cs0 = match self@.clauses_of(name@, arity) {
            Some(cs) => cs,
            None => Seq::empty(),
        };
        let mut list = match self.fns.get(name, arity) {
            Some(cs) => copy_clauses(cs),
            None => Vec::new(),
        };
        assert(clauses(list@) =~= cs0);
        list.push(clause);
        assert(clauses(list@) =~= cs0.push(clause@));
        self.set_clauses(name, arity, list);
    }

    /// Give a user-defined function its clauses.
    pub fn set_clauses(&mut self, name: &str, arity: u8, list: Vec<Clause>)
        ensures
            final(self)@ == old(self)@.with_clauses(name@, arity, clauses(list@)),
    {
        let ghost before = self.fns@;
        self.fns.insert(name, arity, Arc::new(list));
        assert(fn_values(self.fns@) =~= fn_values(before).insert((name@, arity), clauses(list@)));
        self.bump_memo_stamp();
    }

    /// The contents of the space with a name.
    pub fn space_atoms(&self, name: &str) -> (r: Vec<Atom>)
        ensures
            atoms(r@) == self@.space(name@),
    {
        broadcast use group_atoms;

        match self.spaces.get(name, 0) {
            Some(v) => {
                let r = copy_atoms(v, 0);
                assert(v@.skip(0) =~= v@);
                r
            },
            None => {
                let r: Vec<Atom> = Vec::new();
                assert(atoms(r@) =~= Seq::<AtomV>::empty());
                r
            },
        }
    }

    /// Replace the contents of the space with a name.
    pub fn set_space(&mut self, name: &str, list: Vec<Atom>)
        ensures
            final(self)@ == old(self)@.with_space(name@, atoms(list@)),
    {
        let ghost before = self.spaces@;
        self.spaces.insert(name, 0, Arc::new(list));
        assert(space_values(self.spaces@) =~= space_values(before).insert(
            (name@, 0),
            atoms(list@),
        ));
        self.bump_memo_stamp();
    }

    /// Set a state value.
    pub fn set_state(&mut self, key: &str, value: Atom)
        ensures
            final(self)@ == (TableV {
                state: old(self)@.state.insert((key@, 0), value@),
                ..old(self)@
            }),
    {
        let ghost before = self.state@;
        self.state.insert(key, 0, Arc::new(value));
        assert(state_values(self.state@) =~= state_values(before).insert((key@, 0), value@));
    }

    /// Read a state value.
    pub fn get_state(&self, key: &str) -> (r: Option<Atom>)
        ensures
            (match r {
                Some(a) => self@.state.contains_key((key@, 0)) && self@.state[(key@, 0)] == a@,
                None => !self@.state.contains_key((key@, 0)),
            }),
    {
        match self.state.get(key, 0) {
            Some(a) => Some((**a).clone()),
            None => None,
        }
    }

    /// Take a snapshot of functions, spaces and state.
    pub fn snapshot(&self) -> (r: Snapshot)
        ensures
            r@.fns == self@.fns,
            r@.spaces == self@.spaces,
            r@.state == self@.state,
    {
        Snapshot {
            fns: self.fns.share(),
            spaces: self.spaces.share(),
            state: self.state.share(),
        }
    }

    /// Bring back the functions, spaces and state of a snapshot.
    pub fn restore(&mut self, snapshot: Snapshot)
        ensures
            final(self)@ == (TableV {
                fns: snapshot@.fns,
                spaces: snapshot@.spaces,
                state: snapshot@.state,
                memo: Seq::empty(),
                ..old(self)@
            }),
    {
        self.fns = snapshot.fns;
        self.spaces = snapshot.spaces;
        self.state = snapshot.state;
        self.bump_memo_stamp();
    }

    /// The remembered result of a call.
    pub fn memo_get(&self, name: &str, args: &Vec<Atom>) -> (r: Option<Vec<Atom>>)
        ensures
            (match r {
                Some(v) => remembered(self@.memo, name@, atoms(args@)) == Some(atoms(v@)),
                None => remembered(self@.memo, name@, atoms(args@)) is None,
            }),
    {
        let ghost all = memo_values(self.memo@);
        let mut i: usize = self.memo.len();
        assert(all.take(i as int) =~= all);
        while i > 0
            invariant
                i <= self.memo@.len(),
                all == memo_values(self.memo@),
                remembered(all.take(i as int), name@, atoms(args@)) == remembered(
                    all,
                    name@,
                    atoms(args@),
                ),
            decreases i,
        {
            let ghost part = all.take(i as int);
            i -= 1;
            assert(part.drop_last() =~= all.take(i as int));
            assert(part.last() == all[i as int]);
            let e = &self.memo[i];
            if same(e.name.as_str(), name) && atoms_same(&e.args, args) {
                let r = copy_atoms(&e.values, 0);
                assert(e.values@.skip(0) =~= e.values@);
                return Some(r);
            }
        }
        None
    }

    /// Remember the result of a call.
    pub fn memo_set(&mut self, name: &str, args: Vec<Atom>, values: Vec<Atom>)
        ensures
            final(self)@ == (TableV {
                memo: old(self)@.memo.push((name@, atoms(args@), atoms(values@))),
                ..old(self)@
            }),
    {
        let ghost before = self.memo@;
        self.memo.push(MemoEntry { name: name.to_owned(), args, values });
        assert(memo_values(self.memo@) =~= memo_values(before).push(
            (name@, atoms(args@), atoms(values@)),
        ));
    }

    /// The number the next renamed variable gets.
    pub fn rename_count(&self) -> (r: u64)
        ensures
            r == self@.renames,
    {
        self.renames
    }

    /// Set the number the next renamed variable gets.
    pub fn set_rename_count(&mut self, n: u64)
        ensures
            final(self)@ == (TableV { renames: n, ..old(self)@ }),
    {
        self.renames = n;
    }

    /// Draw the number of a fresh name.
    pub fn next_fresh_id(&mut self) -> (r: u64)
        ensures
            r == old(self)@.fresh,
            final(self)@ == (TableV { fresh: next_id(old(self)@.fresh), ..old(self)@ }),
    {
        let r: u64 = self.fresh;
        if r == u64::MAX {
            self.fresh = 0;
        } else {
            self.fresh = r + 1;
        }
        r
    }
}

/// The number after a number; the largest is followed by zero.
pub open spec fn next_id(n: u64) -> u64 {
    if n == u64::MAX {
        0
    } else {
        (n + 1) as u64
    }
}

/// The table without functions, spaces and state, whose fresh names are numbered
/// from a number on.
pub open spec fn empty_table(first: u64) -> TableV {
    TableV {
        natives: Map::empty(),
        pure_fns: Set::empty(),
        readers: Set::empty(),
        fns: Map::empty(),
        spaces: Map::empty(),
        state: Map::empty(),
        memo: Seq::empty(),
        fresh: first,
        renames: 1,
    }
}

/// The table after a number of draws of fresh names.
pub open spec fn after_draws(t: TableV, n: nat) -> TableV
    decreases n,
{
    if n == 0 {
        t
    } else {
        let before = after_draws(t, (n - 1) as nat);
        TableV { fresh: next_id(before.fresh), ..before }
    }
}

/// The numbers of fresh names grow from draw to draw, so that no number is drawn
/// twice, as long as the largest number has not been drawn. Those of a new
/// table start at 100000.
pub proof fn fresh_ids_grow(t: TableV, i: nat, j: nat)
    requires
        i < j,
        t.fresh + j <= u64::MAX,
    ensures
        after_draws(t, i).fresh == t.fresh + i,
        after_draws(t, i).fresh < after_draws(t, j).fresh,
        t.fresh >= 100000 ==> after_draws(t, i).fresh >= 100000,
{
    lemma_draws(t, j);
    lemma_draws(t, i);
}

/// Two tables draw different numbers as long as the one that started lower has
/// not come up to where the other started.
pub proof fn tables_draw_different_ids(t: TableV, u: TableV, i: nat, j: nat)
    requires
        t.fresh + i < u.fresh,
        u.fresh + j <= u64::MAX,
    ensures
        after_draws(t, i).fresh < after_draws(u, j).fresh,
{
    lemma_draws(t, i);
    lemma_draws(u, j);
}

/// Each draw adds one to the number.
proof fn lemma_draws(t: TableV, n: nat)
    requires
        t.fresh + n <= u64::MAX,
    ensures
        after_draws(t, n).fresh == t.fresh + n,
    decreases n,
{
    if n > 0 {
        lemma_draws(t, (n - 1) as nat);
    }
}

/// Whether two lists of atoms are the same.
pub fn atoms_same(x: &Vec<Atom>, y: &Vec<Atom>) -> (r: bool)
    ensures
        r == (atoms(x@) == atoms(y@)),
{
    broadcast use group_atoms;

    assert(atoms(x@).len() == x@.len() && atoms(y@).len() == y@.len());
    if x.len() != y.len() {
        return false;
    }
    let mut i: usize = 0;
    while i < x.len()
        invariant
            i <= x@.len(),
            x@.len() == y@.len(),
            forall|j: int| 0 <= j < i ==> atoms(x@)[j] == atoms(y@)[j],
        decreases x@.len() - i,
    {
        if !atom_same(&x[i], &y[i]) {
            assert(atoms(x@)[i as int] != atoms(y@)[i as int]);
            return false;
        }
        i += 1;
    }
    assert(atoms(x@) =~= atoms(y@));
    true
}

} // verus!
