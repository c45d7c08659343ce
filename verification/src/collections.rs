//! Verified collections for the engine's bookkeeping: duplicate-free vectors
//! of peer identities and broadcast identifiers, and specification helpers
//! for sequences of key/value entries with unique keys.

use vstd::prelude::*;
use crate::message::{BroadcastId, PeerId};

verus! {

/// A sequence with `a` appended, unless `a` is already present.
pub open spec fn push_unique<A>(s: Seq<A>, a: A) -> Seq<A> {
    if s.contains(a) {
        s
    } else {
        s.push(a)
    }
}

/// `push_unique` keeps a sequence duplicate-free and adds exactly the given
/// member.
pub proof fn lemma_push_unique<A>(s: Seq<A>, a: A)
    requires
        s.no_duplicates(),
    ensures
        push_unique(s, a).no_duplicates(),
        forall|x: A| #[trigger] push_unique(s, a).contains(x) <==> (s.contains(x) || x == a),
        s.contains(a) ==> push_unique(s, a).len() == s.len(),
        !s.contains(a) ==> push_unique(s, a).len() == s.len() + 1,
{
    if !s.contains(a) {
        assert forall|x: A| #[trigger] s.push(a).contains(x) <==> (s.contains(x) || x == a) by {
            if s.contains(x) {
                let i = choose|i: int| 0 <= i < s.len() && s[i] == x;
                assert(s.push(a)[i] == x);
            }
            if x == a {
                assert(s.push(a)[s.len() as int] == x);
            }
            if s.push(a).contains(x) {
                let i = choose|i: int| 0 <= i < s.push(a).len() && s.push(a)[i] == x;
                if i < s.len() {
                    assert(s[i] == x);
                }
            }
        }
    }
}

/// Whether the entries of `s` carry pairwise distinct keys.
pub open spec fn keys_unique<V>(s: Seq<(BroadcastId, V)>) -> bool {
    forall|i: int, j: int| 0 <= i < j < s.len() ==> s[i].0 != s[j].0
}

/// Whether some entry of `s` carries the key `id`.
pub open spec fn has_key<V>(s: Seq<(BroadcastId, V)>, id: BroadcastId) -> bool {
    exists|i: int| 0 <= i < s.len() && s[i].0 == id
}

/// The index of the entry carrying `id`; meaningful only when `has_key` holds,
/// and unique when `keys_unique` holds.
pub open spec fn key_index<V>(s: Seq<(BroadcastId, V)>, id: BroadcastId) -> int {
    choose|i: int| 0 <= i < s.len() && s[i].0 == id
}

/// The value stored under `id`; meaningful only when `has_key` holds.
pub open spec fn lookup<V>(s: Seq<(BroadcastId, V)>, id: BroadcastId) -> V {
    s[key_index(s, id)].1
}

/// `s` with the entry carrying `id` removed (the first such entry; under
/// `keys_unique` there is at most one).
pub open spec fn remove_key<V>(s: Seq<(BroadcastId, V)>, id: BroadcastId) -> Seq<(BroadcastId, V)>
    decreases s.len(),
{
    if s.len() == 0 {
        Seq::empty()
    } else if s[0].0 == id {
        s.drop_first()
    } else {
        seq![s[0]] + remove_key(s.drop_first(), id)
    }
}

/// Under unique keys, the index found for a key is the only one carrying it.
pub proof fn lemma_key_index_unique<V>(s: Seq<(BroadcastId, V)>, id: BroadcastId, i: int)
    requires
        keys_unique(s),
        0 <= i < s.len(),
        s[i].0 == id,
    ensures
        has_key(s, id),
        key_index(s, id) == i,
        lookup(s, id) == s[i].1,
{
    assert(has_key(s, id));
    let j = key_index(s, id);
    assert(0 <= j < s.len() && s[j].0 == id);
    if i < j {
        assert(s[i].0 != s[j].0);
    } else if j < i {
        assert(s[j].0 != s[i].0);
    }
}

/// Removing the entry at the key's own index computes `remove_key`.
pub proof fn lemma_remove_key_at<V>(s: Seq<(BroadcastId, V)>, id: BroadcastId, i: int)
    requires
        keys_unique(s),
        0 <= i < s.len(),
        s[i].0 == id,
        forall|j: int| 0 <= j < i ==> s[j].0 != id,
    ensures
        remove_key(s, id) =~= s.remove(i),
    decreases s.len(),
{
    if i == 0 {
        assert(remove_key(s, id) == s.drop_first());
        assert(s.drop_first() =~= s.remove(0));
    } else {
        let t = s.drop_first();
        assert(keys_unique(t)) by {
            assert(forall|p: int, q: int|
                0 <= p < q < t.len() ==> t[p] == s[p + 1] && t[q] == s[q + 1]);
        }
        assert(t[i - 1].0 == id);
        assert(forall|j: int| 0 <= j < i - 1 ==> t[j] == s[j + 1] && s[j + 1].0 != id);
        lemma_remove_key_at(t, id, i - 1);
        assert(remove_key(s, id) == seq![s[0]] + remove_key(t, id));
        assert(seq![s[0]] + t.remove(i - 1) =~= s.remove(i));
    }
}

/// Appending an entry adds exactly its key.
pub proof fn lemma_has_key_push<V>(s: Seq<(BroadcastId, V)>, p: (BroadcastId, V), x: BroadcastId)
    ensures
        has_key(s.push(p), x) <==> (has_key(s, x) || p.0 == x),
{
    if has_key(s, x) {
        let i = choose|i: int| 0 <= i < s.len() && s[i].0 == x;
        assert(s.push(p)[i].0 == x);
    }
    if p.0 == x {
        assert(s.push(p)[s.len() as int].0 == x);
    }
    if has_key(s.push(p), x) {
        let i = choose|i: int| 0 <= i < s.push(p).len() && s.push(p)[i].0 == x;
        if i < s.len() {
            assert(s[i].0 == x);
        }
    }
}

/// Appending an entry under a fresh key keeps the keys unique and leaves
/// every other lookup unchanged.
pub proof fn lemma_push_fresh<V>(s: Seq<(BroadcastId, V)>, p: (BroadcastId, V))
    requires
        keys_unique(s),
        !has_key(s, p.0),
    ensures
        keys_unique(s.push(p)),
        lookup(s.push(p), p.0) == p.1,
        forall|x: BroadcastId|
            has_key(s, x) ==> #[trigger] lookup(s.push(p), x) == lookup(s, x),
        forall|x: BroadcastId|
            #[trigger] has_key(s.push(p), x) <==> (has_key(s, x) || p.0 == x),
{
    let t = s.push(p);
    assert forall|i: int, j: int| 0 <= i < j < t.len() implies t[i].0 != t[j].0 by {
        if j < s.len() {
            assert(s[i].0 != s[j].0);
        } else {
            assert(t[j] == p);
            if t[i].0 == p.0 {
                assert(has_key(s, p.0));
            }
        }
    }
    lemma_key_index_unique(t, p.0, s.len() as int);
    assert forall|x: BroadcastId| has_key(s, x) implies #[trigger] lookup(t, x) == lookup(
        s,
        x,
    ) by {
        let i = key_index(s, x);
        assert(0 <= i < s.len() && s[i].0 == x);
        lemma_key_index_unique(t, x, i);
    }
    assert forall|x: BroadcastId| #[trigger] has_key(t, x) <==> (has_key(s, x) || p.0 == x) by {
        lemma_has_key_push(s, p, x);
    }
}

/// Replacing the entry at the key's own index keeps the keys unique, keeps
/// the key population, and changes only that key's lookup.
pub proof fn lemma_update_key<V>(s: Seq<(BroadcastId, V)>, i: int, p: (BroadcastId, V))
    requires
        keys_unique(s),
        0 <= i < s.len(),
        s[i].0 == p.0,
    ensures
        keys_unique(s.update(i, p)),
        lookup(s.update(i, p), p.0) == p.1,
        forall|x: BroadcastId| #[trigger] has_key(s.update(i, p), x) <==> has_key(s, x),
        forall|x: BroadcastId|
            has_key(s, x) && x != p.0 ==> #[trigger] lookup(s.update(i, p), x) == lookup(s, x),
{
    let t = s.update(i, p);
    assert forall|a: int, b: int| 0 <= a < b < t.len() implies t[a].0 != t[b].0 by {
        assert(s[a].0 != s[b].0);
    }
    lemma_key_index_unique(t, p.0, i);
    assert forall|x: BroadcastId| #[trigger] has_key(t, x) <==> has_key(s, x) by {
        if has_key(s, x) {
            let j = key_index(s, x);
            lemma_key_index_unique(s, x, j);
            if j == i {
                assert(t[i].0 == x);
            } else {
                assert(t[j].0 == x);
            }
        }
        if has_key(t, x) {
            let j = choose|j: int| 0 <= j < t.len() && t[j].0 == x;
            if j == i {
                assert(s[i].0 == x);
            } else {
                assert(s[j].0 == x);
            }
        }
    }
    assert forall|x: BroadcastId| has_key(s, x) && x != p.0 implies #[trigger] lookup(t, x)
        == lookup(s, x) by {
        let j = key_index(s, x);
        lemma_key_index_unique(s, x, j);
        assert(j != i);
        lemma_key_index_unique(t, x, j);
    }
}

/// Removing a key keeps the keys unique, removes exactly that key, and
/// leaves every other lookup unchanged.
pub proof fn lemma_remove_key_all<V>(s: Seq<(BroadcastId, V)>, id: BroadcastId, i: int)
    requires
        keys_unique(s),
        0 <= i < s.len(),
        s[i].0 == id,
    ensures
        keys_unique(remove_key(s, id)),
        !has_key(remove_key(s, id), id),
        forall|x: BroadcastId|
            x != id ==> (#[trigger] has_key(remove_key(s, id), x) <==> has_key(s, x)),
        forall|x: BroadcastId|
            x != id && has_key(s, x) ==> #[trigger] lookup(remove_key(s, id), x) == lookup(s, x),
        forall|j: int|
            0 <= j < remove_key(s, id).len() ==> exists|j0: int|
                0 <= j0 < s.len() && #[trigger] remove_key(s, id)[j] == s[j0],
{
    lemma_key_index_unique(s, id, i);
    assert(forall|j: int| 0 <= j < i ==> s[j].0 != id);
    lemma_remove_key_at(s, id, i);
    let t = s.remove(i);
    assert(remove_key(s, id) == t);
    assert forall|a: int, b: int| 0 <= a < b < t.len() implies t[a].0 != t[b].0 by {
        let a0 = if a < i {
            a
        } else {
            a + 1
        };
        let b0 = if b < i {
            b
        } else {
            b + 1
        };
        assert(t[a] == s[a0] && t[b] == s[b0]);
        assert(s[a0].0 != s[b0].0);
    }
    assert forall|j: int| 0 <= j < t.len() implies t[j].0 != id by {
        let j0 = if j < i {
            j
        } else {
            j + 1
        };
        assert(t[j] == s[j0]);
        assert(j0 != i);
    }
    assert forall|x: BroadcastId| x != id implies (#[trigger] has_key(t, x) <==> has_key(
        s,
        x,
    )) by {
        if has_key(s, x) {
            let j = key_index(s, x);
            lemma_key_index_unique(s, x, j);
            assert(j != i);
            let j1 = if j < i {
                j
            } else {
                j - 1
            };
            assert(t[j1].0 == x);
        }
        if has_key(t, x) {
            let j = choose|j: int| 0 <= j < t.len() && t[j].0 == x;
            let j0 = if j < i {
                j
            } else {
                j + 1
            };
            assert(s[j0].0 == x);
        }
    }
    assert forall|x: BroadcastId| x != id && has_key(s, x) implies #[trigger] lookup(t, x)
        == lookup(s, x) by {
        let j = key_index(s, x);
        lemma_key_index_unique(s, x, j);
        assert(j != i);
        let j1 = if j < i {
            j
        } else {
            j - 1
        };
        assert(t[j1] == s[j]);
        lemma_key_index_unique(t, x, j1);
    }
    assert forall|j: int| 0 <= j < t.len() implies exists|j0: int|
        0 <= j0 < s.len() && #[trigger] t[j] == s[j0] by {
        let j0 = if j < i {
            j
        } else {
            j + 1
        };
        assert(t[j] == s[j0]);
    }
}

/// A key absent from `s` is untouched by `remove_key`.
pub proof fn lemma_remove_key_absent<V>(s: Seq<(BroadcastId, V)>, id: BroadcastId)
    requires
        !has_key(s, id),
    ensures
        remove_key(s, id) =~= s,
    decreases s.len(),
{
    if s.len() == 0 {
    } else {
        assert(s[0].0 != id);
        let t = s.drop_first();
        assert(!has_key(t, id)) by {
            assert(forall|i: int| 0 <= i < t.len() ==> t[i] == s[i + 1]);
        }
        lemma_remove_key_absent(t, id);
        assert(seq![s[0]] + t =~= s);
    }
}

/// The position of the first entry keyed by `id`, if any.
pub fn find_key<V>(v: &Vec<(BroadcastId, V)>, id: BroadcastId) -> (r: Option<usize>)
    ensures
        match r {
            Some(i) => i < v@.len() && v@[i as int].0 == id && forall|j: int|
                0 <= j < i ==> v@[j].0 != id,
            None => forall|j: int| 0 <= j < v@.len() ==> v@[j].0 != id,
        },
{
    let n = v.len();
    for i in 0..n
        invariant
            n == v@.len(),
            forall|j: int| 0 <= j < i ==> v@[j].0 != id,
    {
        if v[i].0 == id {
            return Some(i);
        }
    }
    None
}

/// A duplicate-free vector of peer identities, read as the set of peers it
/// holds; insertion preserves first-seen order.
#[derive(Debug, Clone)]
pub struct PeerSet {
    pub items: Vec<PeerId>,
}

impl View for PeerSet {
    type V = Seq<PeerId>;

    open spec fn view(&self) -> Seq<PeerId> {
        self.items@
    }
}

impl PeerSet {
    /// The members are pairwise distinct, so the length is the cardinality.
    pub open spec fn wf(&self) -> bool {
        self.items@.no_duplicates()
    }

    pub fn new() -> (s: Self)
        ensures
            s@ == Seq::<PeerId>::empty(),
            s.wf(),
    {
        PeerSet { items: Vec::new() }
    }

    pub fn contains(&self, p: PeerId) -> (r: bool)
        ensures
            r == self@.contains(p),
    {
        let n = self.items.len();
        for i in 0..n
            invariant
                n == self.items.len(),
                forall|j: int| 0 <= j < i ==> self.items@[j] != p,
        {
            if self.items[i] == p {
                return true;
            }
        }
        false
    }

    pub fn insert(&mut self, p: PeerId)
        requires
            old(self).wf(),
        ensures
            final(self).wf(),
            final(self)@ == push_unique(old(self)@, p),
    {
        if !self.contains(p) {
            self.items.push(p);
        }
    }

    pub fn len(&self) -> (n: usize)
        ensures
            n == self@.len(),
    {
        self.items.len()
    }
}

/// A duplicate-free vector of broadcast identifiers; insertion preserves
/// first-seen order.
#[derive(Debug, Clone)]
pub struct IdSet {
    pub items: Vec<BroadcastId>,
}

impl View for IdSet {
    type V = Seq<BroadcastId>;

    open spec fn view(&self) -> Seq<BroadcastId> {
        self.items@
    }
}

impl IdSet {
    /// The members are pairwise distinct.
    pub open spec fn wf(&self) -> bool {
        self.items@.no_duplicates()
    }

    pub fn new() -> (s: Self)
        ensures
            s@ == Seq::<BroadcastId>::empty(),
            s.wf(),
    {
        IdSet { items: Vec::new() }
    }

    pub fn contains(&self, id: BroadcastId) -> (r: bool)
        ensures
            r == self@.contains(id),
    {
        let n = self.items.len();
        for i in 0..n
            invariant
                n == self.items.len(),
                forall|j: int| 0 <= j < i ==> self.items@[j] != id,
        {
            if self.items[i] == id {
                return true;
            }
        }
        false
    }

    pub fn insert(&mut self, id: BroadcastId)
        requires
            old(self).wf(),
        ensures
            final(self).wf(),
            final(self)@ == push_unique(old(self)@, id),
    {
        if !self.contains(id) {
            self.items.push(id);
        }
    }

    /// Hand the collected identifiers out and leave the set empty.
    pub fn take_all(&mut self) -> (r: Vec<BroadcastId>)
        ensures
            r@ == old(self)@,
            final(self)@ == Seq::<BroadcastId>::empty(),
            final(self).wf(),
    {
        let mut out: Vec<BroadcastId> = Vec::new();
        std::mem::swap(&mut out, &mut self.items);
        out
    }

    pub fn len(&self) -> (n: usize)
        ensures
            n == self@.len(),
    {
        self.items.len()
    }
}

} // verus!
