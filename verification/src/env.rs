//! Lexical environment for variable bindings.
//!
//! An environment is an immutable, shared chain of bindings. `extend` returns a
//! new environment and leaves the one it extends alone, so each call has a scope of
//! its own. Lookup walks the chain from the most recent binding to the oldest.
use crate::atom::Atom;
use crate::atom::AtomV;
use crate::atom::atom_view;
use crate::atom::env_same;
use crate::text::same;
use std::sync::Arc;
use vstd::prelude::*;
use vstd::string::*;

verus! {

/// Inner node of the environment chain.
pub enum EnvNode {
    /// No bindings.
    Empty,
    /// One variable mapped to an atom, in front of the outer environment.
    Cons {
        /// The variable's name, with its `$` prefix.
        name: String,
        /// The bound value.
        value: Arc<Atom>,
        /// The outer environment.
        next: Env,
    },
    /// One environment in front of another.
    Link {
        /// The environment looked at first.
        prefix: Env,
        /// The environment looked at afterwards.
        base: Env,
    },
}

/// A lexical environment mapping variable names to atoms.
pub struct Env(pub Arc<EnvNode>);

/// The shape of an environment chain.
pub enum EnvV {
    /// No bindings.
    Empty,
    /// A binding in front of an environment.
    Cons(Seq<char>, Box<AtomV>, Box<EnvV>),
    /// One environment in front of another.
    Link(Box<EnvV>, Box<EnvV>),
}

/// One binding: a name and its value.
pub type Binding = (Seq<char>, AtomV);

/// The shape of an environment.
pub open spec fn env_view(e: Env) -> EnvV
    decreases e,
{
    match *e.0 {
        EnvNode::Empty => EnvV::Empty,
        EnvNode::Cons { name, value, next } => EnvV::Cons(
            name@,
            Box::new(atom_view(*value)),
            Box::new(env_view(next)),
        ),
        EnvNode::Link { prefix, base } => EnvV::Link(
            Box::new(env_view(prefix)),
            Box::new(env_view(base)),
        ),
    }
}

impl View for Env {
    type V = EnvV;

    open spec fn view(&self) -> EnvV {
        env_view(*self)
    }
}

/// The bindings of an environment, the most recent first.
pub open spec fn bindings(e: EnvV) -> Seq<Binding>
    decreases e,
{
    match e {
        EnvV::Empty => Seq::empty(),
        EnvV::Cons(name, value, next) => seq![(name, *value)] + bindings(*next),
        EnvV::Link(prefix, base) => bindings(*prefix) + bindings(*base),
    }
}

/// The value of the first binding of a name.
pub open spec fn first_bound(b: Seq<Binding>, name: Seq<char>) -> Option<AtomV>
    decreases b.len(),
{
    if b.len() == 0 {
        None
    } else if b[0].0 == name {
        Some(b[0].1)
    } else {
        first_bound(b.drop_first(), name)
    }
}

/// The value that an environment gives a name.
pub open spec fn env_get(e: EnvV, name: Seq<char>) -> Option<AtomV> {
    first_bound(bindings(e), name)
}

/// The number of nodes of an environment: a measure for walks over it.
pub open spec fn env_nodes(e: EnvV) -> nat
    decreases e,
{
    match e {
        EnvV::Empty => 1,
        EnvV::Cons(name, value, next) => 1 + env_nodes(*next),
        EnvV::Link(prefix, base) => 1 + env_nodes(*prefix) + env_nodes(*base),
    }
}

/// The bindings of environments still to be walked; the last one comes first.
pub open spec fn pending(todo: Seq<Env>) -> Seq<Binding>
    decreases todo.len(),
{
    if todo.len() == 0 {
        Seq::empty()
    } else {
        bindings(todo.last()@) + pending(todo.drop_last())
    }
}

/// The nodes of environments still to be walked.
pub open spec fn pending_nodes(todo: Seq<Env>) -> nat
    decreases todo.len(),
{
    if todo.len() == 0 {
        0
    } else {
        env_nodes(todo.last()@) + pending_nodes(todo.drop_last())
    }
}

/// Looking a name up in two lists of bindings, one after the other.
pub proof fn lemma_first_bound_append(a: Seq<Binding>, b: Seq<Binding>, name: Seq<char>)
    ensures
        first_bound(a + b, name) == (match first_bound(a, name) {
            Some(v) => Some(v),
            None => first_bound(b, name),
        }),
    decreases a.len(),
{
    if a.len() == 0 {
        assert(a + b =~= b);
    } else {
        assert((a + b).drop_first() =~= a.drop_first() + b);
        lemma_first_bound_append(a.drop_first(), b, name);
    }
}

impl Clone for Env {
    fn clone(&self) -> (r: Env)
        ensures
            r == *self,
    {
        Env(self.0.clone())
    }
}

/// A slot of the lookup cache.
pub struct CacheSlot {
    /// Identifies the environment that was looked in.
    pub env_id: usize,
    /// The name that was looked up.
    pub name: String,
    /// What the lookup gave.
    pub found: Option<Atom>,
}

/// Clear an environment lookup cache: every slot becomes empty.
pub fn clear_lookup_cache(cache: &mut Vec<Option<CacheSlot>>)
    ensures
        final(cache)@.len() == old(cache)@.len(),
        forall|i: int| 0 <= i < final(cache)@.len() ==> final(cache)@[i] is None,
{
    let n: usize = cache.len();
    let mut i: usize = 0;
    while i < n
        invariant
            i <= n,
            n == cache@.len(),
            n == old(cache)@.len(),
            forall|j: int| 0 <= j < i ==> cache@[j] is None,
        decreases n - i,
    {
        cache.set(i, None);
        i += 1;
    }
}

/// Whether a name is among the given ones.
pub open spec fn is_listed(names: Seq<String>, name: Seq<char>) -> bool {
    exists|i: int| 0 <= i < names.len() && #[trigger] names[i]@ == name
}

/// Whether a name is among the given ones.
pub fn listed(names: &Vec<String>, name: &str) -> (r: bool)
    ensures
        r == is_listed(names@, name@),
{
    let mut i: usize = 0;
    while i < names.len()
        invariant
            i <= names@.len(),
            forall|j: int| 0 <= j < i ==> names@[j]@ != name@,
        decreases names@.len() - i,
    {
        if same(names[i].as_str(), name) {
            return true;
        }
        i += 1;
    }
    false
}

/// The bindings whose names are not among the given ones.
pub open spec fn without(b: Seq<Binding>, names: Seq<String>) -> Seq<Binding>
    decreases b.len(),
{
    if b.len() == 0 {
        Seq::empty()
    } else if is_listed(names, b[0].0) {
        without(b.drop_first(), names)
    } else {
        seq![b[0]] + without(b.drop_first(), names)
    }
}

/// Leaving names out of two lists of bindings, one after the other.
pub proof fn lemma_without_append(a: Seq<Binding>, b: Seq<Binding>, names: Seq<String>)
    ensures
        without(a + b, names) == without(a, names) + without(b, names),
    decreases a.len(),
{
    if a.len() == 0 {
        assert(a + b =~= b);
        assert(without(a, names) + without(b, names) =~= without(b, names));
    } else {
        assert((a + b).drop_first() =~= a.drop_first() + b);
        lemma_without_append(a.drop_first(), b, names);
        assert(without(a + b, names) =~= without(a, names) + without(b, names));
    }
}

/// The values of a list of named atoms.
pub open spec fn pairs(s: Seq<(String, Arc<Atom>)>) -> Seq<Binding> {
    Seq::new(s.len(), |i: int| (s[i].0@, s[i].1@))
}

impl Env {
    /// Create an empty environment.
    pub fn new() -> (r: Env)
        ensures
            r@ == EnvV::Empty,
    {
        Env(Arc::new(EnvNode::Empty))
    }

    /// True if this environment has no bindings.
    pub fn is_empty_env(&self) -> (r: bool)
        ensures
            r == (self@ is Empty),
    {
        matches!(&*self.0, EnvNode::Empty)
    }

    /// Look up a variable by name (including the `$` prefix).
    ///
    /// Walks from the most recent binding outward, over an explicit stack of
    /// the environments still to be visited.
    pub fn get(&self, name: &str) -> (r: Option<Atom>)
        ensures
            (match r {
                Some(a) => env_get(self@, name@) == Some(a@),
                None => env_get(self@, name@) is None,
            }),
    {
        let mut curr: Env = self.clone();
        let mut todo: Vec<Env> = Vec::new();
        assert(bindings(curr@) + pending(todo@) =~= bindings(self@));
        loop
            invariant
                first_bound(bindings(curr@) + pending(todo@), name@) == env_get(self@, name@),
            decreases env_nodes(curr@) + pending_nodes(todo@),
        {
            let node: Arc<EnvNode> = curr.0.clone();
            match &*node {
                EnvNode::Empty => {
                    assert(bindings(curr@) + pending(todo@) =~= pending(todo@));
                    match todo.pop() {
                        Some(e) => {
                            curr = e;
                        },
                        None => {
                            return None;
                        },
                    }
                },
                EnvNode::Cons { name: n, value, next } => {
                    proof {
                        let all = bindings(curr@) + pending(todo@);
                        assert(all[0] == (n@, value@));
                        assert(all.drop_first() =~= bindings(next@) + pending(todo@));
                    }
                    if same(n.as_str(), name) {
                        return Some((**value).clone());
                    }
                    curr = next.clone();
                },
                EnvNode::Link { prefix, base } => {
                    let ghost before = todo@;
                    todo.push(base.clone());
                    assert(todo@.drop_last() =~= before);
                    assert(bindings(curr@) + pending(before) =~= bindings(prefix@) + pending(
                        todo@,
                    ));
                    curr = prefix.clone();
                },
            }
        }
    }

    /// Return a new environment with one additional binding in front.
    pub fn extend(&self, name: &str, value: Atom) -> (r: Env)
        ensures
            r@ == EnvV::Cons(name@, Box::new(value@), Box::new(self@)),
    {
        Env(
            Arc::new(
                EnvNode::Cons {
                    name: name.to_owned(),
                    value: Arc::new(value),
                    next: self.clone(),
                },
            ),
        )
    }

    /// Return a new environment with several bindings in front.
    ///
    /// They are put in front in order, so later pairs hide earlier ones with the
    /// same name.
    pub fn extend_all(&self, pairs_: &Vec<(String, Arc<Atom>)>) -> (r: Env)
        ensures
            r@ == stacked(pairs(pairs_@), self@),
            bindings(r@) == pairs(pairs_@).reverse() + bindings(self@),
    {
        let ghost all = pairs(pairs_@);
        let mut env: Env = self.clone();
        let mut i: usize = 0;
        assert(all.take(0) =~= Seq::<Binding>::empty());
        while i < pairs_.len()
            invariant
                i <= pairs_@.len(),
                all == pairs(pairs_@),
                env@ == stacked(all.take(i as int), self@),
            decreases pairs_@.len() - i,
        {
            env =
            Env(
                Arc::new(
                    EnvNode::Cons {
                        name: pairs_[i].0.clone(),
                        value: pairs_[i].1.clone(),
                        next: env,
                    },
                ),
            );
            proof {
                let s = all.take(i + 1);
                assert(s.drop_last() =~= all.take(i as int));
                assert(s.last() == (pairs_@[i as int].0@, pairs_@[i as int].1@));
            }
            i += 1;
        }
        assert(all.take(i as int) =~= all);
        proof {
            lemma_stacked_bindings(all, self@);
        }
        env
    }

    /// Collect all bindings whose names are not to be skipped, the most recent
    /// first, over an explicit worklist.
    pub fn collect_all_bindings(
        &self,
        skip_names: &Vec<String>,
        out: &mut Vec<(String, Arc<Atom>)>,
    )
        ensures
            pairs(final(out)@) == pairs(old(out)@) + without(bindings(self@), skip_names@),
    {
        let mut worklist: Vec<Env> = Vec::new();
        let mut curr: Env = self.clone();
        proof {
            assert(bindings(curr@) + pending(worklist@) =~= bindings(self@));
            assert(pairs(out@) + without(bindings(self@), skip_names@) =~= pairs(old(out)@)
                + without(bindings(self@), skip_names@));
        }
        loop
            invariant
                pairs(out@) + without(bindings(curr@) + pending(worklist@), skip_names@) == pairs(
                    old(out)@,
                ) + without(bindings(self@), skip_names@),
            decreases env_nodes(curr@) + pending_nodes(worklist@),
        {
            let node: Arc<EnvNode> = curr.0.clone();
            match &*node {
                EnvNode::Empty => {
                    assert(bindings(curr@) + pending(worklist@) =~= pending(worklist@));
                    match worklist.pop() {
                        Some(e) => {
                            curr = e;
                        },
                        None => {
                            assert(pairs(out@) + without(pending(worklist@), skip_names@) =~= pairs(
                                out@,
                            ));
                            return ;
                        },
                    }
                },
                EnvNode::Cons { name, value, next } => {
                    let ghost before = out@;
                    let ghost all = bindings(curr@) + pending(worklist@);
                    proof {
                        assert(all[0] == (name@, value@));
                        assert(all.drop_first() =~= bindings(next@) + pending(worklist@));
                    }
                    if !listed(skip_names, name.as_str()) {
                        out.push((name.clone(), value.clone()));
                        assert(pairs(out@) =~= pairs(before).push((name@, value@)));
                        assert(pairs(out@) + without(all.drop_first(), skip_names@) =~= pairs(
                            before,
                        ) + without(all, skip_names@));
                    }
                    curr = next.clone();
                },
                EnvNode::Link { prefix, base } => {
                    let ghost before = worklist@;
                    worklist.push(base.clone());
                    assert(worklist@.drop_last() =~= before);
                    assert(bindings(curr@) + pending(before) =~= bindings(prefix@) + pending(
                        worklist@,
                    ));
                    curr = prefix.clone();
                },
            }
        }
    }
}

/// The nodes of a stack of environments.
pub open spec fn stack_nodes(stack: Seq<EnvV>) -> nat
    decreases stack.len(),
{
    if stack.len() == 0 {
        0
    } else {
        env_nodes(stack.last()) + stack_nodes(stack.drop_last())
    }
}

/// Pushing an environment on a stack adds its nodes.
pub proof fn lemma_stack_nodes_push(stack: Seq<EnvV>, e: EnvV)
    ensures
        stack_nodes(stack.push(e)) == stack_nodes(stack) + env_nodes(e),
{
    assert(stack.push(e).drop_last() =~= stack);
}

/// The bindings on a stack of environments that stand above the boundary and
/// are not to be skipped. The last environment is walked first; where a walk
/// meets the boundary, it goes on with the next environment.
pub open spec fn added_above(stack: Seq<EnvV>, boundary: EnvV, names: Seq<String>) -> Seq<Binding>
    decreases stack_nodes(stack),
{
    if stack.len() == 0 {
        Seq::empty()
    } else {
        let rest = stack.drop_last();
        if stack.last() == boundary {
            proof {
                lemma_env_nodes_positive(stack.last());
            }
            added_above(rest, boundary, names)
        } else {
            match stack.last() {
                EnvV::Empty => added_above(rest, boundary, names),
                EnvV::Cons(name, value, next) => {
                    proof {
                        lemma_stack_nodes_push(rest, *next);
                    }
                    let below = added_above(rest.push(*next), boundary, names);
                    if is_listed(names, name) {
                        below
                    } else {
                        seq![(name, *value)] + below
                    }
                },
                EnvV::Link(prefix, base) => {
                    proof {
                        lemma_stack_nodes_push(rest, *base);
                        lemma_stack_nodes_push(rest.push(*base), *prefix);
                    }
                    added_above(rest.push(*base).push(*prefix), boundary, names)
                },
            }
        }
    }
}

/// Every environment has a node.
pub proof fn lemma_env_nodes_positive(e: EnvV)
    ensures
        env_nodes(e) > 0,
{
}

/// The values of a stack of environments.
pub open spec fn env_views(s: Seq<Env>) -> Seq<EnvV> {
    Seq::new(s.len(), |i: int| s[i]@)
}

impl Env {
    /// Filter out bindings of names in `skip_names` that were added on top of
    /// `boundary`.
    ///
    /// The boundary is recognized by its content.
    pub fn clean_and_merge(&self, boundary: &Env, skip_names: &Vec<String>) -> (r: Env)
        ensures
            r@ == stacked(
                added_above(seq![self@], boundary@, skip_names@).reverse(),
                boundary@,
            ),
    {
        let mut found: Vec<(String, Arc<Atom>)> = Vec::new();
        self.collect_new_bindings(boundary, skip_names, &mut found);
        assert(pairs(Seq::<(String, Arc<Atom>)>::empty()) + added_above(
            seq![self@],
            boundary@,
            skip_names@,
        ) =~= added_above(seq![self@], boundary@, skip_names@));
        let ghost all = pairs(found@);
        let mut env: Env = boundary.clone();
        let mut i: usize = found.len();
        assert(all.skip(i as int).reverse() =~= Seq::<Binding>::empty());
        while i > 0
            invariant
                i <= found@.len(),
                all == pairs(found@),
                env@ == stacked(all.skip(i as int).reverse(), boundary@),
            decreases i,
        {
            i -= 1;
            env =
            Env(
                Arc::new(
                    EnvNode::Cons {
                        name: found[i].0.clone(),
                        value: found[i].1.clone(),
                        next: env,
                    },
                ),
            );
            proof {
                let s = all.skip(i as int).reverse();
                assert(s.drop_last() =~= all.skip(i + 1).reverse());
                assert(s.last() == (found@[i as int].0@, found@[i as int].1@));
            }
        }
        assert(all.skip(0) =~= all);
        env
    }

    /// Collect the bindings added above `boundary`, walking links over an
    /// explicit worklist.
    pub fn collect_new_bindings(
        &self,
        boundary: &Env,
        skip_names: &Vec<String>,
        out: &mut Vec<(String, Arc<Atom>)>,
    )
        ensures
            pairs(final(out)@) == pairs(old(out)@) + added_above(
                seq![self@],
                boundary@,
                skip_names@,
            ),
    {
        let mut worklist: Vec<Env> = Vec::new();
        let mut curr: Env = self.clone();
        proof {
            assert(env_views(worklist@).push(curr@) =~= seq![self@]);
        }
        loop
            invariant
                pairs(out@) + added_above(
                    env_views(worklist@).push(curr@),
                    boundary@,
                    skip_names@,
                ) == pairs(old(out)@) + added_above(seq![self@], boundary@, skip_names@),
            decreases stack_nodes(env_views(worklist@).push(curr@)),
        {
            let ghost stack = env_views(worklist@).push(curr@);
            assert(stack.drop_last() =~= env_views(worklist@));
            proof {
                lemma_env_nodes_positive(curr@);
                lemma_stack_nodes_push(env_views(worklist@), curr@);
            }
            let ghost before = worklist@;
            let node: Arc<EnvNode> = curr.0.clone();
            let at_boundary = env_same(&curr, boundary);
            if at_boundary || matches!(&*node, EnvNode::Empty) {
                match worklist.pop() {
                    Some(e) => {
                        curr = e;
                        assert(env_views(worklist@).push(curr@) =~= env_views(before));
                    },
                    None => {
                        assert(env_views(before) =~= Seq::<EnvV>::empty());
                        assert(added_above(stack, boundary@, skip_names@) == added_above(
                            env_views(before),
                            boundary@,
                            skip_names@,
                        ));
                        assert(added_above(env_views(before), boundary@, skip_names@)
                            =~= Seq::<Binding>::empty());
                        assert(pairs(out@) + Seq::<Binding>::empty() =~= pairs(out@));
                        return ;
                    },
                }
                continue ;
            }
            match &*node {
                EnvNode::Empty => {
                    return ;
                },
                EnvNode::Cons { name, value, next } => {
                    let ghost kept = out@;
                    let ghost below = added_above(
                        env_views(before).push(next@),
                        boundary@,
                        skip_names@,
                    );
                    proof {
                        lemma_stack_nodes_push(env_views(before), next@);
                    }
                    if !listed(skip_names, name.as_str()) {
                        out.push((name.clone(), value.clone()));
                        assert(pairs(out@) =~= pairs(kept).push((name@, value@)));
                        assert(pairs(out@) + below =~= pairs(kept) + added_above(
                            stack,
                            boundary@,
                            skip_names@,
                        ));
                    }
                    curr = next.clone();
                },
                EnvNode::Link { prefix, base } => {
                    proof {
                        lemma_stack_nodes_push(env_views(before), base@);
                        lemma_stack_nodes_push(env_views(before).push(base@), prefix@);
                    }
                    worklist.push(base.clone());
                    assert(env_views(worklist@) =~= env_views(before).push(base@));
                    curr = prefix.clone();
                },
            }
        }
    }
}

/// On a chain built by binding names in front of the boundary, exactly the
/// bindings with skipped names are taken out and the boundary stays as it is.
pub proof fn clean_keeps_boundary(b: Seq<Binding>, boundary: EnvV, names: Seq<String>)
    ensures
        added_above(seq![stacked(b, boundary)], boundary, names) == without(b.reverse(), names),
    decreases b.len(),
{
    let e = stacked(b, boundary);
    let stack = seq![e];
    assert(stack.drop_last() =~= Seq::<EnvV>::empty());
    lemma_stacked_nodes(b, boundary);
    let nothing = Seq::<EnvV>::empty();
    if b.len() == 0 {
        assert(added_above(stack, boundary, names) == added_above(nothing, boundary, names));
    } else {
        assert(env_nodes(e) != env_nodes(boundary));
        let rest = stacked(b.drop_last(), boundary);
        assert(stack.drop_last().push(rest) =~= seq![rest]);
        clean_keeps_boundary(b.drop_last(), boundary, names);
        assert(b.reverse().drop_first() =~= b.drop_last().reverse());
        assert(added_above(stack, boundary, names) == (if is_listed(names, b.last().0) {
            added_above(seq![rest], boundary, names)
        } else {
            seq![b.last()] + added_above(seq![rest], boundary, names)
        }));
    }
}

/// Every binding put in front adds one node.
pub proof fn lemma_stacked_nodes(b: Seq<Binding>, base: EnvV)
    ensures
        env_nodes(stacked(b, base)) == env_nodes(base) + b.len(),
    decreases b.len(),
{
    if b.len() > 0 {
        lemma_stacked_nodes(b.drop_last(), base);
    }
}

/// Bindings put in front of an environment one by one, the last one outermost.
pub open spec fn stacked(b: Seq<Binding>, base: EnvV) -> EnvV
    decreases b.len(),
{
    if b.len() == 0 {
        base
    } else {
        EnvV::Cons(b.last().0, Box::new(b.last().1), Box::new(stacked(b.drop_last(), base)))
    }
}

/// Bindings put in front are found in front, the last one first.
pub proof fn lemma_stacked_bindings(b: Seq<Binding>, base: EnvV)
    ensures
        bindings(stacked(b, base)) == b.reverse() + bindings(base),
    decreases b.len(),
{
    if b.len() > 0 {
        lemma_stacked_bindings(b.drop_last(), base);
        assert(b.reverse() =~= seq![b.last()] + b.drop_last().reverse());
        assert(seq![b.last()] + (b.drop_last().reverse() + bindings(base)) =~= b.reverse()
            + bindings(base));
    } else {
        assert(b.reverse() + bindings(base) =~= bindings(base));
    }
}

/// Of several pairs with one name, the last one is found.
pub proof fn later_pairs_win(b: Seq<Binding>, base: EnvV, i: int)
    requires
        0 <= i < b.len(),
        forall|j: int| i < j < b.len() ==> (#[trigger] b[j]).0 != b[i].0,
    ensures
        env_get(stacked(b, base), b[i].0) == Some(b[i].1),
    decreases b.len(),
{
    let e = stacked(b, base);
    let rest = stacked(b.drop_last(), base);
    assert(bindings(e)[0] == b.last());
    assert(bindings(e).drop_first() =~= bindings(rest));
    if i < b.len() - 1 {
        later_pairs_win(b.drop_last(), base, i);
    }
}

/// A name just bound is found with its value, and other names are found as
/// before.
pub proof fn extend_then_get(e: EnvV, name: Seq<char>, value: AtomV, other: Seq<char>)
    ensures
        env_get(EnvV::Cons(name, Box::new(value), Box::new(e)), name) == Some(value),
        other != name ==> env_get(EnvV::Cons(name, Box::new(value), Box::new(e)), other)
            == env_get(e, other),
{
    let b = bindings(EnvV::Cons(name, Box::new(value), Box::new(e)));
    assert(b[0] == (name, value));
    assert(b.drop_first() =~= bindings(e));
}

} // verus!
