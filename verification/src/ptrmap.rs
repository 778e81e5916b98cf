//! The insertion-order pointer map at the heart of every shadow: an arena of
//! slots whose index is handed out as a stable token on insert, beside a
//! key-based view.  A key occupies at most one live slot; inserting an
//! already-present key tombstones the old slot and returns its value for
//! supersede handling.  Tokens are never reused within one map's lifetime.

use vstd::prelude::*;
use crate::bytes_eq;
use crate::ident::Identity;

verus! {

/// One live entry of a `PtrMap`: the key and its value.
pub struct Entry<V> {
    pub key: Identity,
    pub val: V,
}

/// Insertion-order map from identities to values, with stable integer
/// tokens: a vector of optional slots where a removed entry leaves a
/// tombstone, so a token (slot index) stays valid for the map's lifetime.
pub struct PtrMap<V> {
    pub slots: Vec<Option<Entry<V>>>,
}

impl<V: View> View for PtrMap<V> {
    type V = Seq<Option<(Seq<u8>, V::V)>>;

    open spec fn view(&self) -> Seq<Option<(Seq<u8>, V::V)>> {
        Seq::new(
            self.slots@.len(),
            |i: int|
                match self.slots@[i] {
                    Option::Some(e) => Option::Some((e.key@, e.val@)),
                    Option::None => Option::None,
                },
        )
    }
}

/// The key held by slot `i`, for a live slot.
pub open spec fn key_at<V>(v: Seq<Option<(Seq<u8>, V)>>, i: int) -> Seq<u8> {
    match v[i] {
        Option::Some(e) => e.0,
        Option::None => Seq::empty(),
    }
}

/// The value held by slot `i`, for a live slot.
pub open spec fn val_at<V>(v: Seq<Option<(Seq<u8>, V)>>, i: int) -> V
    recommends
        v[i] is Some,
{
    v[i]->Some_0.1
}

/// No key occupies two live slots.
pub open spec fn unique_keys<V>(v: Seq<Option<(Seq<u8>, V)>>) -> bool {
    forall|i: int, j: int|
        0 <= i < v.len() && 0 <= j < v.len() && i != j && v[i] is Some && v[j] is Some
            ==> #[trigger] key_at(v, i) != #[trigger] key_at(v, j)
}

/// How many slots are live.
pub open spec fn count_live<V>(v: Seq<Option<(Seq<u8>, V)>>) -> nat
    decreases v.len(),
{
    if v.len() == 0 {
        0
    } else {
        count_live(v.drop_last()) + (if v.last() is Some {
            1nat
        } else {
            0nat
        })
    }
}

/// The lowest live slot at or after `lo` holding `key`, if any.
pub open spec fn find_live_from<V>(v: Seq<Option<(Seq<u8>, V)>>, key: Seq<u8>, lo: int) -> Option<
    int,
>
    decreases v.len() - lo,
{
    if lo < 0 || lo >= v.len() {
        Option::None
    } else if v[lo] is Some && key_at(v, lo) == key {
        Option::Some(lo)
    } else {
        find_live_from(v, key, lo + 1)
    }
}

/// The live slot holding `key`, if any.
pub open spec fn find_live<V>(v: Seq<Option<(Seq<u8>, V)>>, key: Seq<u8>) -> Option<int> {
    find_live_from(v, key, 0)
}

/// What an insert does to the slots: the entry that was live under the key,
/// if any, is tombstoned, and the new entry takes a fresh slot at the end.
/// Yields the new slots and the displaced value.
pub open spec fn spec_insert<V>(v: Seq<Option<(Seq<u8>, V)>>, key: Seq<u8>, val: V) -> (
    Seq<Option<(Seq<u8>, V)>>,
    Option<V>,
) {
    match find_live(v, key) {
        Option::None => (v.push(Option::Some((key, val))), Option::None),
        Option::Some(j) => (
            v.update(j, Option::None).push(Option::Some((key, val))),
            Option::Some(val_at(v, j)),
        ),
    }
}

/// An insert always leaves at least one live slot: the fresh entry.
pub proof fn lemma_spec_insert_live<V>(v: Seq<Option<(Seq<u8>, V)>>, key: Seq<u8>, val: V)
    ensures
        count_live(spec_insert(v, key, val).0) > 0,
{
    let w = spec_insert(v, key, val).0;
    assert(w.last() == Option::Some((key, val)));
    assert(w.drop_last() =~= (match find_live(v, key) {
        Option::None => v,
        Option::Some(j) => v.update(j, Option::None),
    }));
}

/// What a remove-by-token does to the slots: a live slot is tombstoned, any
/// other token leaves the map as it was.
pub open spec fn spec_remove_ptr<V>(v: Seq<Option<(Seq<u8>, V)>>, ptr: int) -> Seq<
    Option<(Seq<u8>, V)>,
> {
    if 0 <= ptr < v.len() && v[ptr] is Some {
        v.update(ptr, Option::None)
    } else {
        v
    }
}

/// What `find_live_from` returns: a live slot holding the key, or a pledge
/// that no live slot at or after `lo` holds it.
pub proof fn lemma_find_live_from<V>(v: Seq<Option<(Seq<u8>, V)>>, key: Seq<u8>, lo: int)
    requires
        0 <= lo,
    ensures
        match find_live_from(v, key, lo) {
            Option::Some(j) => lo <= j < v.len() && v[j] is Some && key_at(v, j) == key,
            Option::None => forall|i: int|
                lo <= i < v.len() && #[trigger] v[i] is Some ==> key_at(v, i) != key,
        },
    decreases v.len() - lo,
{
    if 0 <= lo && lo < v.len() {
        if !(v[lo] is Some && key_at(v, lo) == key) {
            lemma_find_live_from(v, key, lo + 1);
        }
    }
}

/// What `find_live` returns: the live slot holding the key, or a pledge that
/// no live slot holds it.
pub proof fn lemma_find_live<V>(v: Seq<Option<(Seq<u8>, V)>>, key: Seq<u8>)
    ensures
        match find_live(v, key) {
            Option::Some(j) => 0 <= j < v.len() && v[j] is Some && key_at(v, j) == key,
            Option::None => forall|i: int|
                0 <= i < v.len() && #[trigger] v[i] is Some ==> key_at(v, i) != key,
        },
{
    lemma_find_live_from(v, key, 0);
}

impl<V: View> PtrMap<V> {
    /// Every well-formed map keeps each key in at most one live slot.
    pub open spec fn wf(&self) -> bool {
        unique_keys(self@)
    }

    /// An empty map.
    pub fn new() -> (r: PtrMap<V>)
        ensures
            r@ =~= Seq::<Option<(Seq<u8>, V::V)>>::empty(),
            r.wf(),
    {
        PtrMap { slots: Vec::new() }
    }

    /// How many slots have ever been allocated; equal to the next token.
    pub fn num_slots(&self) -> (n: usize)
        ensures
            n == self@.len(),
    {
        self.slots.len()
    }

    /// How many entries are live.
    pub fn len(&self) -> (n: usize)
        ensures
            n == count_live(self@),
    {
        let mut n: usize = 0;
        let mut i: usize = 0;
        while i < self.slots.len()
            invariant
                i <= self@.len(),
                n <= i,
                n == count_live(self@.take(i as int)),
            decreases self@.len() - i,
        {
            match &self.slots[i] {
                Some(_) => {
                    n = n + 1;
                },
                None => {},
            }
            proof {
                assert(self@.take(i as int + 1).drop_last() =~= self@.take(i as int));
                assert(self@.take(i as int + 1).last() == self@[i as int]);
            }
            i = i + 1;
        }
        proof {
            assert(self@.take(self@.len() as int) =~= self@);
        }
        n
    }

    /// The token of the live entry holding `key`, if any.
    pub fn find(&self, key: &Identity) -> (r: Option<usize>)
        ensures
            match find_live(self@, key@) {
                Option::Some(j) => (r matches Some(u) && u as int == j),
                Option::None => r is None,
            },
    {
        let mut i: usize = 0;
        while i < self.slots.len()
            invariant
                i <= self@.len(),
                find_live(self@, key@) == find_live_from(self@, key@, i as int),
            decreases self@.len() - i,
        {
            match &self.slots[i] {
                Some(e) => {
                    if bytes_eq(&e.key.bytes, &key.bytes) {
                        return Some(i);
                    }
                },
                None => {},
            }
            i = i + 1;
        }
        None
    }

    /// Inserts `val` under `key`: the new entry always takes a fresh slot at
    /// the end (its index is the returned token), and a previously live
    /// entry under the same key is tombstoned and its value handed back for
    /// supersede handling.
    pub fn insert(&mut self, key: Identity, val: V) -> (r: (usize, Option<V>))
        requires
            old(self).wf(),
        ensures
            final(self).wf(),
            r.0 == old(self)@.len(),
            final(self)@.len() == old(self)@.len() + 1,
            match find_live(old(self)@, key@) {
                Option::None => r.1 is None && final(self)@ =~= old(self)@.push(
                    Option::Some((key@, val@)),
                ),
                Option::Some(j) => (r.1 matches Some(x) && x@ == val_at(old(self)@, j))
                    && final(self)@ =~= old(self)@.update(j, Option::None).push(
                    Option::Some((key@, val@)),
                ),
            },
    {
        let ghost v0 = self@;
        let ghost gkey = key@;
        let ghost gval = val@;
        let ptr = self.slots.len();
        let found = self.find(&key);
        proof {
            lemma_find_live(v0, gkey);
        }
        let displaced: Option<V> = match found {
            Some(j) => {
                let e = self.slots.remove(j);
                self.slots.insert(j, None);
                proof {
                    assert(self@ =~= v0.update(j as int, Option::None));
                }
                match e {
                    Some(en) => Some(en.val),
                    None => {
                        proof {
                            assert(false);
                        }
                        None
                    },
                }
            },
            None => None,
        };
        let ghost v1 = self@;
        self.slots.push(Some(Entry { key, val }));
        proof {
            assert(self@ =~= v1.push(Option::Some((gkey, gval))));
            assert forall|a: int, b: int|
                0 <= a < self@.len() && 0 <= b < self@.len() && a != b && self@[a] is Some
                    && self@[b] is Some implies #[trigger] key_at(self@, a) != #[trigger] key_at(
                self@,
                b,
            ) by {
                let n = v0.len() as int;
                if a < n && b < n {
                    assert(key_at(self@, a) == key_at(v0, a));
                    assert(key_at(self@, b) == key_at(v0, b));
                } else if a == n && b < n {
                    assert(key_at(self@, a) == gkey);
                    assert(key_at(self@, b) == key_at(v0, b));
                    assert(v0[b] is Some);
                } else if b == n && a < n {
                    assert(key_at(self@, b) == gkey);
                    assert(key_at(self@, a) == key_at(v0, a));
                    assert(v0[a] is Some);
                }
            }
        }
        (ptr, displaced)
    }

    /// Removes the entry whose token is `ptr`, handing back its key and
    /// value; a token that is out of range or already tombstoned removes
    /// nothing.
    pub fn remove_ptr(&mut self, ptr: usize) -> (r: Option<Entry<V>>)
        requires
            old(self).wf(),
        ensures
            final(self).wf(),
            ptr < old(self)@.len() && old(self)@[ptr as int] is Some ==> (old(self)@[ptr as int]
                matches Some(p) && r matches Some(en) && en.key@ == p.0 && en.val@ == p.1
                && final(self)@ =~= old(self)@.update(ptr as int, Option::None)),
            !(ptr < old(self)@.len() && old(self)@[ptr as int] is Some) ==> r is None
                && final(self)@ =~= old(self)@,
    {
        let ghost v0 = self@;
        if ptr >= self.slots.len() {
            return None;
        }
        let e = self.slots.remove(ptr);
        self.slots.insert(ptr, None);
        proof {
            if v0[ptr as int] is Some {
                assert(self@ =~= v0.update(ptr as int, Option::None));
            } else {
                assert(self@ =~= v0);
            }
            assert forall|a: int, b: int|
                0 <= a < self@.len() && 0 <= b < self@.len() && a != b && self@[a] is Some
                    && self@[b] is Some implies #[trigger] key_at(self@, a) != #[trigger] key_at(
                self@,
                b,
            ) by {
                assert(v0[a] is Some && key_at(self@, a) == key_at(v0, a));
                assert(v0[b] is Some && key_at(self@, b) == key_at(v0, b));
            }
        }
        e
    }

    /// Removes the live entry holding `key`, handing back its value.
    pub fn remove_key(&mut self, key: &Identity) -> (r: Option<V>)
        requires
            old(self).wf(),
        ensures
            final(self).wf(),
            match find_live(old(self)@, key@) {
                Option::Some(j) => (r matches Some(x) && x@ == val_at(old(self)@, j))
                    && final(self)@ =~= old(self)@.update(j, Option::None),
                Option::None => r is None && final(self)@ =~= old(self)@,
            },
    {
        proof {
            lemma_find_live(self@, key@);
        }
        match self.find(key) {
            Some(j) => {
                match self.remove_ptr(j) {
                    Some(en) => Some(en.val),
                    None => {
                        proof {
                            assert(false);
                        }
                        None
                    },
                }
            },
            None => None,
        }
    }
}

} // verus!
