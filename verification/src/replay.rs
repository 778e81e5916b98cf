//! The connect replay guard: a per-identity monotone clock.  A connect
//! handshake carries a timestamp, and the broker accepts it only when it is
//! strictly newer than the last one accepted from the same caller, so a
//! recorded handshake cannot be replayed.

use vstd::prelude::*;
use crate::bytes_eq;
use crate::ident::Identity;

verus! {

/// One identity's clock: the newest timestamp accepted from it.
#[derive(Debug)]
pub struct ClockEntry {
    pub identity: Identity,
    pub timestamp: u64,
}

/// The mathematical image of a `ClockEntry`.
#[verifier::ext_equal]
pub struct ClockEntryV {
    pub identity: Seq<u8>,
    pub timestamp: u64,
}

impl View for ClockEntry {
    type V = ClockEntryV;

    open spec fn view(&self) -> ClockEntryV {
        ClockEntryV { identity: self.identity@, timestamp: self.timestamp }
    }
}

/// The mathematical image of the clock store.
pub open spec fn clocks_view(s: Seq<ClockEntry>) -> Seq<ClockEntryV> {
    s.map_values(|e: ClockEntry| e@)
}

/// The lowest index at or after `lo` holding the identity, if any.
pub open spec fn clock_find_from(s: Seq<ClockEntryV>, id: Seq<u8>, lo: int) -> Option<int>
    decreases s.len() - lo,
{
    if lo < 0 || lo >= s.len() {
        Option::None
    } else if s[lo].identity == id {
        Option::Some(lo)
    } else {
        clock_find_from(s, id, lo + 1)
    }
}

/// The index of an identity's clock, if it has one.
pub open spec fn clock_find(s: Seq<ClockEntryV>, id: Seq<u8>) -> Option<int> {
    clock_find_from(s, id, 0)
}

/// What `clock_find_from` returns: an index holding the identity, or a
/// pledge that no index at or after `lo` holds it.
pub proof fn lemma_clock_find_from(s: Seq<ClockEntryV>, id: Seq<u8>, lo: int)
    requires
        0 <= lo,
    ensures
        match clock_find_from(s, id, lo) {
            Option::Some(j) => lo <= j < s.len() && s[j].identity == id,
            Option::None => forall|i: int|
                lo <= i < s.len() ==> (#[trigger] s[i]).identity != id,
        },
    decreases s.len() - lo,
{
    if 0 <= lo && lo < s.len() {
        if s[lo].identity != id {
            lemma_clock_find_from(s, id, lo + 1);
        }
    }
}

/// What `clock_find` returns.
pub proof fn lemma_clock_find(s: Seq<ClockEntryV>, id: Seq<u8>)
    ensures
        match clock_find(s, id) {
            Option::Some(j) => 0 <= j < s.len() && s[j].identity == id,
            Option::None => forall|i: int|
                0 <= i < s.len() ==> (#[trigger] s[i]).identity != id,
        },
{
    lemma_clock_find_from(s, id, 0);
}

/// What `advance` does to the store and what it answers: a first-seen
/// identity is recorded and accepted; a known one is accepted exactly when
/// the timestamp is strictly newer, which also moves its clock forward.
pub open spec fn spec_advance(s: Seq<ClockEntryV>, id: Seq<u8>, ts: u64) -> (
    Seq<ClockEntryV>,
    bool,
) {
    match clock_find(s, id) {
        Option::None => (s.push((ClockEntryV { identity: id, timestamp: ts })), true),
        Option::Some(j) => if ts > s[j].timestamp {
            (s.update(j, (ClockEntryV { identity: id, timestamp: ts })), true)
        } else {
            (s, false)
        },
    }
}

/// The per-identity monotone clock store.
#[derive(Debug)]
pub struct ReplayGuard {
    pub clocks: Vec<ClockEntry>,
}

impl ReplayGuard {
    /// A well-formed store keeps at most one clock per identity.
    pub open spec fn wf(&self) -> bool {
        forall|i: int, j: int|
            0 <= i < self.clocks@.len() && 0 <= j < self.clocks@.len() && i != j
                ==> (#[trigger] self.clocks@[i]).identity@ != (#[trigger] self.clocks@[j]).identity@
    }

    /// An empty store: every identity's first timestamp will be accepted.
    pub fn new() -> (r: ReplayGuard)
        ensures
            r.wf(),
            r.clocks@.len() == 0,
    {
        ReplayGuard { clocks: Vec::new() }
    }

    /// Accepts or rejects a caller's timestamp, moving its clock forward on
    /// acceptance.
    pub fn advance(&mut self, identity: &Identity, timestamp: u64) -> (accepted: bool)
        requires
            old(self).wf(),
        ensures
            final(self).wf(),
            ({
                let av = spec_advance(clocks_view(old(self).clocks@), identity@, timestamp);
                accepted == av.1 && clocks_view(final(self).clocks@) =~~= av.0
            }),
    {
        let ghost views0 = clocks_view(self.clocks@);
        let ghost clocks0 = self.clocks@;
        let mut i: usize = 0;
        while i < self.clocks.len()
            invariant
                i <= self.clocks@.len(),
                self.wf(),
                clocks0 == old(self).clocks@,
                self.clocks@ == clocks0,
                views0 == clocks_view(clocks0),
                clock_find(views0, identity@) == clock_find_from(views0, identity@, i as int),
            decreases self.clocks@.len() - i,
        {
            if bytes_eq(&self.clocks[i].identity.bytes, &identity.bytes) {
                let last = self.clocks[i].timestamp;
                if timestamp > last {
                    let entry = ClockEntry { identity: identity.dup(), timestamp };
                    self.clocks.set(i, entry);
                    proof {
                        assert forall|a: int, b: int|
                            0 <= a < self.clocks@.len() && 0 <= b < self.clocks@.len() && a
                                != b implies (#[trigger] self.clocks@[a]).identity@
                            != (#[trigger] self.clocks@[b]).identity@ by {
                            assert(self.clocks@[a].identity@ == clocks0[a].identity@);
                            assert(self.clocks@[b].identity@ == clocks0[b].identity@);
                        }
                        assert(clocks_view(self.clocks@) =~~= views0.update(
                            i as int,
                            (ClockEntryV { identity: identity@, timestamp: timestamp }),
                        ));
                    }
                    return true;
                } else {
                    return false;
                }
            }
            i = i + 1;
        }
        let entry = ClockEntry { identity: identity.dup(), timestamp };
        self.clocks.push(entry);
        proof {
            lemma_clock_find(views0, identity@);
            assert forall|a: int, b: int|
                0 <= a < self.clocks@.len() && 0 <= b < self.clocks@.len() && a
                    != b implies (#[trigger] self.clocks@[a]).identity@
                != (#[trigger] self.clocks@[b]).identity@ by {
                let n = clocks0.len() as int;
                if a < n && b < n {
                    assert(self.clocks@[a] == clocks0[a] && self.clocks@[b] == clocks0[b]);
                } else if a == n && b < n {
                    assert(views0[b] == clocks0[b]@);
                    assert(views0[b].identity != identity@);
                } else if b == n && a < n {
                    assert(views0[a] == clocks0[a]@);
                    assert(views0[a].identity != identity@);
                }
            }
            assert(clocks_view(self.clocks@) =~~= views0.push(
                (ClockEntryV { identity: identity@, timestamp: timestamp }),
            ));
        }
        true
    }
}

} // verus!
