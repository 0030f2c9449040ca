//! An enumeration of kitties with constant-time append, lookup and removal.

use vstd::prelude::*;
use std::collections::HashMap;
use crate::types::{Error, KittyId};

verus! {

broadcast use vstd::std_specs::hash::group_hash_axioms;

/// What an enumeration holds after `id` has left it by swap-and-pop: the last
/// entry takes the place of `id`, and the enumeration is one shorter.
pub open spec fn swap_removed(s: Seq<KittyId>, id: KittyId) -> Seq<KittyId> {
    s.update(s.index_of(id), s.last()).drop_last()
}

/// Swap-and-pop takes out `id` and nothing else: the result is one shorter,
/// still lists no kitty twice, no longer lists `id`, and lists every other
/// kitty exactly when it was listed before.
pub proof fn lemma_swap_removed(s: Seq<KittyId>, id: KittyId)
    requires
        s.no_duplicates(),
        s.contains(id),
    ensures
        swap_removed(s, id).len() == s.len() - 1,
        swap_removed(s, id).no_duplicates(),
        !swap_removed(s, id).contains(id),
        forall|other: KittyId|
            other != id ==> (swap_removed(s, id).contains(other) <==> s.contains(other)),
{
    let p = s.index_of(id);
    let r = swap_removed(s, id);
    let last = s.len() - 1;
    assert(0 <= p < s.len() && s[p] == id);
    assert forall|i: int| 0 <= i < r.len() implies r[i] == (if i == p {
        s[last]
    } else {
        s[i]
    }) by {}
    assert forall|other: KittyId| other != id && s.contains(other) implies r.contains(other) by {
        let i = s.index_of(other);
        assert(0 <= i < s.len() && s[i] == other);
        if i == last {
            assert(r[p] == other);
        } else {
            assert(r[i] == other);
        }
    }
}

/// A dense list of distinct kitties together with the position of each.
///
/// Its view is the list itself, in enumeration order.
pub struct EnumerationIndex {
    forward: Vec<KittyId>,
    reverse: HashMap<KittyId, u64>,
}

impl View for EnumerationIndex {
    type V = Seq<KittyId>;

    closed spec fn view(&self) -> Seq<KittyId> {
        self.forward@
    }
}

impl EnumerationIndex {
    /// The list and the positions are inverse to each other.
    pub closed spec fn wf(&self) -> bool {
        &&& self.forward@.len() <= u64::MAX
        &&& forall|i: int|
            0 <= i < self.forward@.len() ==> self.reverse@.contains_key(#[trigger] self.forward@[i])
                && self.reverse@[self.forward@[i]] == i
        &&& forall|id: KittyId| #[trigger]
            self.reverse@.contains_key(id) ==> self.reverse@[id] < self.forward@.len()
                && self.forward@[self.reverse@[id] as int] == id
    }

    /// An enumeration with nothing in it.
    pub fn new() -> (r: Self)
        ensures
            r.wf(),
            r@ == Seq::<KittyId>::empty(),
    {
        EnumerationIndex { forward: Vec::new(), reverse: HashMap::new() }
    }

    /// A well-formed enumeration lists no kitty twice and fits a `u64` count.
    pub proof fn lemma_wf_distinct(&self)
        requires
            self.wf(),
        ensures
            self@.no_duplicates(),
            self@.len() <= u64::MAX,
    {
        assert forall|i: int, j: int| 0 <= i < self@.len() && 0 <= j < self@.len() && i != j implies self@[i]
            != self@[j] by {
            assert(self.reverse@[self.forward@[i]] == i);
            assert(self.reverse@[self.forward@[j]] == j);
        }
    }

    /// The number of kitties listed.
    pub fn count(&self) -> (n: u64)
        requires
            self.wf(),
        ensures
            n == self@.len(),
    {
        self.forward.len() as u64
    }

    /// The kitty at `position`, if the enumeration is that long.
    pub fn at(&self, position: u64) -> (r: Option<KittyId>)
        requires
            self.wf(),
        ensures
            r == (if position < self@.len() {
                Some(self@[position as int])
            } else {
                None
            }),
    {
        if position < self.forward.len() as u64 {
            Some(self.forward[position as usize])
        } else {
            None
        }
    }

    /// Where `id` stands in the enumeration, if it is listed.
    pub fn position_of(&self, id: KittyId) -> (r: Option<u64>)
        requires
            self.wf(),
        ensures
            match r {
                Some(p) => p < self@.len() && self@[p as int] == id && p == self@.index_of(id),
                None => !self@.contains(id),
            },
    {
        proof {
            self.lemma_wf_distinct();
        }
        match self.reverse.get(&id) {
            Some(p) => {
                proof {
                    self@.index_of_first_ensures(id);
                    assert(self@.contains(id));
                    let q = self@.index_of(id);
                    assert(self@[q] == id);
                    assert(q == *p as int);
                }
                Some(*p)
            },
            None => None,
        }
    }

    /// Whether `id` is listed.
    pub fn contains(&self, id: KittyId) -> (b: bool)
        requires
            self.wf(),
        ensures
            b == self@.contains(id),
    {
        self.position_of(id).is_some()
    }

    /// Lists `id` at the end, unless the count is at its largest value.
    pub fn append(&mut self, id: KittyId) -> (r: Result<(), Error>)
        requires
            old(self).wf(),
            !old(self)@.contains(id),
        ensures
            final(self).wf(),
            match r {
                Ok(_) => old(self)@.len() < u64::MAX && final(self)@ == old(self)@.push(id),
                Err(e) => e == Error::Overflow && old(self)@.len() == u64::MAX && final(self)@ == old(
                    self,
                )@,
            },
    {
        let count: u64 = self.count();
        match count.checked_add(1) {
            None => Err(Error::Overflow),
            Some(_) => {
                assert(!self.reverse@.contains_key(id)) by {
                    if self.reverse@.contains_key(id) {
                        assert(self.forward@[self.reverse@[id] as int] == id);
                    }
                }
                self.forward.push(id);
                self.reverse.insert(id, count);
                Ok(())
            },
        }
    }

    /// Takes `id` out by swap-and-pop: the last kitty moves into its place.
    pub fn remove(&mut self, id: KittyId)
        requires
            old(self).wf(),
            old(self)@.contains(id),
        ensures
            final(self).wf(),
            final(self)@ == swap_removed(old(self)@, id),
            final(self)@.len() == old(self)@.len() - 1,
            !final(self)@.contains(id),
            forall|other: KittyId|
                other != id ==> (final(self)@.contains(other) <==> old(self)@.contains(other)),
    {
        let position: u64 = match self.position_of(id) {
            Some(p) => p,
            None => { return ; },
        };
        let last: usize = self.forward.len() - 1;
        let last_id: KittyId = self.forward[last];
        proof {
            self.lemma_wf_distinct();
            lemma_swap_removed(self@, id);
        }
        self.forward.swap_remove(position as usize);
        if position as usize != last {
            self.reverse.insert(last_id, position);
        }
        self.reverse.remove(&id);
    }
}

/// After a push a sequence holds what it held, and what was pushed.
pub proof fn lemma_push_contains(s: Seq<KittyId>, id: KittyId, x: KittyId)
    ensures
        s.push(id).contains(x) <==> (x == id || s.contains(x)),
{
    let t = s.push(id);
    if s.contains(x) {
        let i = s.index_of(x);
        assert(t[i] == x);
    }
    if x == id {
        assert(t[s.len() as int] == x);
    }
    if t.contains(x) {
        let i = t.index_of(x);
        if i < s.len() {
            assert(s[i] == x);
        }
    }
}

/// Pushing what a sequence of distinct items lacks leaves them distinct.
pub proof fn lemma_push_distinct(s: Seq<KittyId>, id: KittyId)
    requires
        s.no_duplicates(),
        !s.contains(id),
    ensures
        s.push(id).no_duplicates(),
{
    let t = s.push(id);
    assert forall|i: int, j: int| 0 <= i < t.len() && 0 <= j < t.len() && i != j implies t[i]
        != t[j] by {
        if i < s.len() && j < s.len() {
        } else if i < s.len() {
            assert(s.contains(s[i]));
        } else {
            assert(s.contains(s[j]));
        }
    }
}

} // verus!
