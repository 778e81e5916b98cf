//! The top-level broker actor: it owns the table of live shadows and the
//! global identity-to-peer table, creates shadows on demand, garbage-collects
//! a shadow once its population reaches zero, and resolves identities for
//! connect.
//!
//! Subscribe and publish hand back small handle values in place of the
//! stream-scoped drop hooks of a running deployment: the embedding program
//! calls `unsubscribe`, `unpublish` and `release_peer` with them when the
//! matching stream closes.

use vstd::prelude::*;
use crate::BrokerError;
use crate::bytes_clone;
use crate::bytes_eq;
use crate::ident::Address;
use crate::ident::Identity;
use crate::ident::KEY_LEN;
use crate::ident::XADDR_LEN;
use crate::proto::Emission;
use crate::proto::PublishRequest;
use crate::proto::SubscribeRequest;
use crate::proto::emissions_view;
use crate::ptrmap::PtrMap;
use crate::ptrmap::count_live;
use crate::ptrmap::find_live;
use crate::ptrmap::lemma_find_live;
use crate::ptrmap::lemma_spec_insert_live;
use crate::ptrmap::spec_insert;
use crate::ptrmap::spec_remove_ptr;
use crate::ptrmap::val_at;
use crate::shadow::Shadow;
use crate::shadow::ShadowV;
use crate::shadow::Subscriber;
use crate::shadow::PublisherV;
use crate::shadow::publish_events;
use crate::shadow::subscribe_events;
use crate::shadow::unpublish_events;

verus! {

/// What the broker keeps per publishing identity: the handle of the peer's
/// signalling session and the network endpoint it was observed on.
#[derive(Debug)]
pub struct PeerInfo {
    pub peer: u64,
    pub ipaddr: Vec<u8>,
}

/// The mathematical image of a `PeerInfo`.
#[verifier::ext_equal]
pub struct PeerInfoV {
    pub peer: u64,
    pub ipaddr: Seq<u8>,
}

impl View for PeerInfo {
    type V = PeerInfoV;

    open spec fn view(&self) -> PeerInfoV {
        PeerInfoV { peer: self.peer, ipaddr: self.ipaddr@ }
    }
}

/// The commands the broker's mailbox accepts.
#[allow(inconsistent_fields)]
pub enum Command {
    Subscribe { identity: Identity, msg: SubscribeRequest, sink: u64 },
    Publish { identity: Identity, peer: u64, msg: PublishRequest, sink: u64, ipaddr: Vec<u8> },
    GetPeer { identity: Identity },
}

/// What handling one broker command reports back to its sender.
#[derive(Debug)]
pub enum Outcome {
    /// A subscription was registered; its drop hook.
    Subscribed { hook: SubHandle },
    /// A publication was registered; its peer-table mark and drop hook.
    Published { mark: PeerMark, hook: PubHandle },
    /// The identity's registered peer session and endpoint, if any.
    Peer { found: Option<(u64, Vec<u8>)> },
    /// The command was refused.
    Failed { err: BrokerError },
}

/// The drop hook a subscribe returns: where the registration lives.  Its
/// owner must call `Broker::unsubscribe` with it when the subscriber's
/// stream closes.
#[derive(Debug)]
pub struct SubHandle {
    pub shadow: Address,
    pub ptr: usize,
}

/// The drop hook a publish returns.  Its owner must call
/// `Broker::unpublish` with it when the publisher's stream closes.
#[derive(Debug)]
pub struct PubHandle {
    pub shadow: Address,
    pub ptr: usize,
}

/// The garbage-collection mark for one row of the identity-to-peer table.
/// Its owner must call `Broker::release_peer` with it when the publisher's
/// stream closes; a row superseded in the meantime is left alone.
#[derive(Debug)]
pub struct PeerMark {
    pub ptr: usize,
}

/// The mathematical image of the shadow table.
pub open spec fn shadow_views(s: Seq<Shadow>) -> Seq<ShadowV> {
    s.map_values(|sh: Shadow| sh@)
}

/// The lowest index at or after `lo` holding the address, if any.
pub open spec fn shadow_find_from(s: Seq<ShadowV>, addr: Seq<u8>, lo: int) -> Option<int>
    decreases s.len() - lo,
{
    if lo < 0 || lo >= s.len() {
        Option::None
    } else if s[lo].address == addr {
        Option::Some(lo)
    } else {
        shadow_find_from(s, addr, lo + 1)
    }
}

/// The index of the shadow registered for an address, if any.
pub open spec fn shadow_find(s: Seq<ShadowV>, addr: Seq<u8>) -> Option<int> {
    shadow_find_from(s, addr, 0)
}

/// What `shadow_find_from` returns: an index holding the address, or a
/// pledge that no index at or after `lo` holds it.
pub proof fn lemma_shadow_find_from(s: Seq<ShadowV>, addr: Seq<u8>, lo: int)
    requires
        0 <= lo,
    ensures
        match shadow_find_from(s, addr, lo) {
            Option::Some(j) => lo <= j < s.len() && s[j].address == addr,
            Option::None => forall|i: int|
                lo <= i < s.len() ==> (#[trigger] s[i]).address != addr,
        },
    decreases s.len() - lo,
{
    if 0 <= lo && lo < s.len() {
        if s[lo].address != addr {
            lemma_shadow_find_from(s, addr, lo + 1);
        }
    }
}

/// What `shadow_find` returns.
pub proof fn lemma_shadow_find(s: Seq<ShadowV>, addr: Seq<u8>)
    ensures
        match shadow_find(s, addr) {
            Option::Some(j) => 0 <= j < s.len() && s[j].address == addr,
            Option::None => forall|i: int|
                0 <= i < s.len() ==> (#[trigger] s[i]).address != addr,
        },
{
    lemma_shadow_find_from(s, addr, 0);
}

/// A shadow with no registrations yet.
pub open spec fn empty_shadow(addr: Seq<u8>) -> ShadowV {
    ShadowV { address: addr, subscribers: Seq::empty(), publishers: Seq::empty() }
}

/// What obtain-or-create does to the table: an address already registered
/// keeps the table as it is, a fresh one is appended empty.  Yields the new
/// table and the index of the address's shadow.
pub open spec fn spec_ensure_shadow(views: Seq<ShadowV>, addr: Seq<u8>) -> (Seq<ShadowV>, int) {
    match shadow_find(views, addr) {
        Option::Some(j) => (views, j),
        Option::None => (views.push(empty_shadow(addr)), views.len() as int),
    }
}

/// Every shadow well formed, their addresses pairwise distinct.
pub open spec fn shadows_wf_basic(s: Seq<Shadow>) -> bool {
    (forall|i: int| 0 <= i < s.len() ==> (#[trigger] s[i]).wf()) && (forall|i: int, j: int|
        0 <= i < s.len() && 0 <= j < s.len() && i != j ==> (#[trigger] s[i]).address@
            != (#[trigger] s[j]).address@)
}

/// The shadow table's full invariant: beside the basic one, no retained
/// shadow is empty — a shadow whose population drops to zero is removed by
/// the same operation.
pub open spec fn shadows_wf(s: Seq<Shadow>) -> bool {
    shadows_wf_basic(s) && (forall|i: int|
        0 <= i < s.len() ==> (#[trigger] s[i]).population() > 0)
}

/// The full invariant, except that the shadow at one index may be empty:
/// what obtain-or-create leaves until its caller populates the shadow.
pub open spec fn shadows_wf_except(s: Seq<Shadow>, idx: int) -> bool {
    shadows_wf_basic(s) && (forall|i: int|
        0 <= i < s.len() && i != idx ==> (#[trigger] s[i]).population() > 0)
}

/// Replacing the one possibly-empty shadow with a well-formed, populated
/// one under the same address makes the table fully well formed.
proof fn lemma_shadows_wf_update(s0: Seq<Shadow>, s1: Seq<Shadow>, idx: int)
    requires
        shadows_wf_except(s0, idx),
        0 <= idx < s0.len(),
        s1.len() == s0.len(),
        forall|k: int| 0 <= k < s0.len() && k != idx ==> s1[k] == s0[k],
        s1[idx].wf(),
        s1[idx].address@ == s0[idx].address@,
        s1[idx].population() > 0,
    ensures
        shadows_wf(s1),
{
    assert forall|a: int| 0 <= a < s1.len() implies (#[trigger] s1[a]).wf() by {
        if a != idx {
            assert(s1[a] == s0[a]);
        }
    }
    assert forall|a: int, b: int|
        0 <= a < s1.len() && 0 <= b < s1.len() && a != b implies (#[trigger] s1[a]).address@
        != (#[trigger] s1[b]).address@ by {
        assert(s1[a].address@ == s0[a].address@);
        assert(s1[b].address@ == s0[b].address@);
    }
    assert forall|a: int| 0 <= a < s1.len() implies (#[trigger] s1[a]).population() > 0 by {
        if a != idx {
            assert(s1[a] == s0[a]);
        }
    }
}

/// Dropping the one possibly-empty shadow makes the table fully well
/// formed.
proof fn lemma_shadows_wf_remove(s0: Seq<Shadow>, idx: int)
    requires
        shadows_wf_except(s0, idx),
        0 <= idx < s0.len(),
    ensures
        shadows_wf(s0.remove(idx)),
{
    let s1 = s0.remove(idx);
    assert forall|a: int| 0 <= a < s1.len() implies (#[trigger] s1[a]).wf()
        && (#[trigger] s1[a]).population() > 0 by {
        if a < idx {
            assert(s1[a] == s0[a]);
        } else {
            assert(s1[a] == s0[a + 1]);
        }
    }
    assert forall|a: int, b: int|
        0 <= a < s1.len() && 0 <= b < s1.len() && a != b implies (#[trigger] s1[a]).address@
        != (#[trigger] s1[b]).address@ by {
        let a0: int = if a < idx { a } else { a + 1 };
        let b0: int = if b < idx { b } else { b + 1 };
        assert(s1[a] == s0[a0]);
        assert(s1[b] == s0[b0]);
    }
}

/// Appending a well-formed shadow under a fresh address keeps the table
/// well formed, except that the appended shadow may still be empty.
proof fn lemma_shadows_wf_push(s0: Seq<Shadow>, sh: Shadow)
    requires
        shadows_wf(s0),
        sh.wf(),
        forall|k: int| 0 <= k < s0.len() ==> (#[trigger] s0[k]).address@ != sh.address@,
    ensures
        shadows_wf_except(s0.push(sh), s0.len() as int),
{
    let s1 = s0.push(sh);
    assert forall|a: int| 0 <= a < s1.len() implies (#[trigger] s1[a]).wf() by {
        if a < s0.len() {
            assert(s1[a] == s0[a]);
        } else {
            assert(s1[a] == sh);
        }
    }
    assert forall|a: int|
        0 <= a < s1.len() && a != s0.len() as int implies (#[trigger] s1[a]).population() > 0 by {
        assert(s1[a] == s0[a]);
    }
    assert forall|a: int, b: int|
        0 <= a < s1.len() && 0 <= b < s1.len() && a != b implies (#[trigger] s1[a]).address@
        != (#[trigger] s1[b]).address@ by {
        let n = s0.len() as int;
        if a < n && b < n {
            assert(s1[a] == s0[a] && s1[b] == s0[b]);
        } else if a == n && b < n {
            assert(s1[a] == sh && s1[b] == s0[b]);
        } else if b == n && a < n {
            assert(s1[b] == sh && s1[a] == s0[a]);
        }
    }
}

/// The broker's whole state: the shadow table and the identity-to-peer
/// table.
pub struct Broker {
    pub shadows: Vec<Shadow>,
    pub peers: PtrMap<PeerInfo>,
}

impl Broker {
    /// A well-formed broker holds well-formed shadows under pairwise
    /// distinct addresses, and a well-formed peer table.
    pub open spec fn wf(&self) -> bool {
        shadows_wf(self.shadows@) && self.peers.wf()
    }

    /// A broker with no shadows and no peers.
    pub fn new() -> (r: Broker)
        ensures
            r.wf(),
            r.shadows@.len() == 0,
            r.peers@.len() == 0,
    {
        Broker { shadows: Vec::new(), peers: PtrMap::new() }
    }

    /// The index of the shadow registered for an address, if any.
    fn find_shadow(&self, addr: &Vec<u8>) -> (r: Option<usize>)
        ensures
            match shadow_find(shadow_views(self.shadows@), addr@) {
                Option::Some(j) => (r matches Some(u) && u as int == j),
                Option::None => r is None,
            },
    {
        let ghost views = shadow_views(self.shadows@);
        let mut i: usize = 0;
        while i < self.shadows.len()
            invariant
                i <= self.shadows@.len(),
                views == shadow_views(self.shadows@),
                shadow_find(views, addr@) == shadow_find_from(views, addr@, i as int),
            decreases self.shadows@.len() - i,
        {
            if bytes_eq(&self.shadows[i].address.bytes, addr) {
                return Some(i);
            }
            i = i + 1;
        }
        None
    }

    /// Obtain-or-create: hands back the index of the shadow for an address,
    /// appending a fresh empty shadow when the address has none.
    fn shadow(&mut self, address: Address) -> (idx: usize)
        requires
            old(self).wf(),
            address.wf(),
        ensures
            shadows_wf_except(final(self).shadows@, idx as int),
            final(self).peers.wf(),
            final(self).peers == old(self).peers,
            ({
                let vj = spec_ensure_shadow(shadow_views(old(self).shadows@), address@);
                idx == vj.1 && shadow_views(final(self).shadows@) =~~= vj.0
            }),
            idx < final(self).shadows@.len(),
            final(self).shadows@[idx as int].wf(),
            final(self).shadows@[idx as int].address@ == address@,
    {
        let ghost views0 = shadow_views(self.shadows@);
        proof {
            lemma_shadow_find(views0, address@);
        }
        match self.find_shadow(&address.bytes) {
            Some(i) => i,
            None => {
                let ghost gaddr = address@;
                let ghost shadows0 = self.shadows@;
                let idx = self.shadows.len();
                let sh = Shadow::new(address);
                proof {
                    assert forall|k: int|
                        0 <= k < shadows0.len() implies (#[trigger] shadows0[k]).address@
                        != gaddr by {
                        assert(views0[k] == shadows0[k]@);
                    }
                    lemma_shadows_wf_push(shadows0, sh);
                }
                self.shadows.push(sh);
                proof {
                    assert(shadow_views(self.shadows@) =~~= views0.push(empty_shadow(gaddr)));
                }
                idx
            },
        }
    }

    /// Registers a subscriber for a shadow address: the address must hold 32
    /// bytes, else the request fails with `BadAddress` and nothing changes.
    /// The shadow is created on demand and its subscribe runs; the returned
    /// drop hook names the registration, beside the events to deliver.
    pub fn subscribe(&mut self, identity: Identity, msg: SubscribeRequest, sink: u64) -> (r:
        Result<(SubHandle, Vec<Emission>), BrokerError>)
        requires
            old(self).wf(),
        ensures
            final(self).wf(),
            final(self).peers == old(self).peers,
            msg.shadow@.len() != KEY_LEN as int ==> (r matches Err(e) && e
                == BrokerError::BadAddress && final(self).shadows == old(self).shadows),
            msg.shadow@.len() == KEY_LEN as int ==> (r matches Ok(pr) && ({
                let vj = spec_ensure_shadow(shadow_views(old(self).shadows@), msg.shadow@);
                let sh = vj.0[vj.1];
                pr.0.shadow@ == msg.shadow@ && pr.0.ptr == sh.subscribers.len()
                    && shadow_views(final(self).shadows@) =~~= vj.0.update(
                    vj.1,
                    (ShadowV {
                        address: sh.address,
                        subscribers: spec_insert(sh.subscribers, identity@, (Subscriber { sink })).0,
                        publishers: sh.publishers,
                    }),
                ) && emissions_view(pr.1@) =~~= subscribe_events(
                    sh.subscribers,
                    sh.publishers,
                    identity@,
                    sink,
                )
            })),
    {
        let address = match Address::from_bytes(&msg.shadow) {
            Ok(a) => a,
            Err(e) => {
                return Err(e);
            },
        };
        let hook_addr = address.dup();
        let ghost gid = identity@;
        let idx = self.shadow(address);
        let ghost views1 = shadow_views(self.shadows@);
        let ghost shadows1 = self.shadows@;
        let ghost subs1 = self.shadows@[idx as int].subscribers@;
        let mut sh = self.shadows.remove(idx);
        let (ptr, out) = sh.subscribe(identity, msg, sink);
        self.shadows.insert(idx, sh);
        proof {
            assert forall|k: int|
                0 <= k < shadows1.len() && k != idx as int implies self.shadows@[k]
                == shadows1[k] by {}
            lemma_spec_insert_live(subs1, gid, (Subscriber { sink }));
            lemma_shadows_wf_update(shadows1, self.shadows@, idx as int);
            assert(shadow_views(self.shadows@) =~~= views1.update(
                idx as int,
                self.shadows@[idx as int]@,
            ));
        }
        Ok((SubHandle { shadow: hook_addr, ptr }, out))
    }

    /// Registers a publisher for a shadow address: the address must hold 32
    /// bytes (`BadAddress`) and the signed address 96 (`BadSignature`), else
    /// the request fails and nothing changes.  The shadow is created on
    /// demand, the identity-to-peer table takes the caller's session and
    /// endpoint (superseding any previous row for the identity), and the
    /// shadow's publish runs.  Returns the peer-table mark and the drop
    /// hook, beside the events to deliver.
    pub fn publish(
        &mut self,
        identity: Identity,
        peer: u64,
        msg: PublishRequest,
        sink: u64,
        ipaddr: Vec<u8>,
    ) -> (r: Result<((PeerMark, PubHandle), Vec<Emission>), BrokerError>)
        requires
            old(self).wf(),
        ensures
            final(self).wf(),
            msg.shadow@.len() != KEY_LEN as int ==> (r matches Err(e) && e
                == BrokerError::BadAddress && final(self).shadows == old(self).shadows && final(self).peers == old(self).peers),
            msg.shadow@.len() == KEY_LEN as int && msg.xaddr@.len() != XADDR_LEN as int ==> (r
                matches Err(e) && e == BrokerError::BadSignature && final(self).shadows == old(self).shadows && final(self).peers == old(self).peers),
            msg.shadow@.len() == KEY_LEN as int && msg.xaddr@.len() == XADDR_LEN as int ==> (r
                matches Ok(pr) && ({
                let vj = spec_ensure_shadow(shadow_views(old(self).shadows@), msg.shadow@);
                let sh = vj.0[vj.1];
                pr.0.0.ptr == old(self).peers@.len() && final(self).peers@ =~~= spec_insert(
                    old(self).peers@,
                    identity@,
                    (PeerInfoV { peer: peer, ipaddr: ipaddr@ }),
                ).0 && pr.0.1.shadow@ == msg.shadow@ && pr.0.1.ptr == sh.publishers.len()
                    && shadow_views(final(self).shadows@) =~~= vj.0.update(
                    vj.1,
                    (ShadowV {
                        address: sh.address,
                        subscribers: sh.subscribers,
                        publishers: spec_insert(
                            sh.publishers,
                            identity@,
                            (PublisherV { sink: sink, xaddr: msg.xaddr@, ipaddr: ipaddr@ }),
                        ).0,
                    }),
                ) && emissions_view(pr.1@) =~~= publish_events(
                    sh.subscribers,
                    sh.publishers,
                    identity@,
                    msg.xaddr@,
                )
            })),
    {
        let address = match Address::from_bytes(&msg.shadow) {
            Ok(a) => a,
            Err(e) => {
                return Err(e);
            },
        };
        match crate::ident::SignedAddress::from_bytes(&msg.xaddr) {
            Ok(_) => {},
            Err(e) => {
                return Err(e);
            },
        };
        let hook_addr = address.dup();
        let ghost gid = identity@;
        let ghost gxaddr = msg.xaddr@;
        let ghost gip = ipaddr@;
        let idx = self.shadow(address);
        let ghost views1 = shadow_views(self.shadows@);
        let ghost shadows1 = self.shadows@;
        let ghost pubs1 = self.shadows@[idx as int].publishers@;
        let (mark_ptr, _displaced) = self.peers.insert(
            identity.dup(),
            PeerInfo { peer, ipaddr: bytes_clone(&ipaddr) },
        );
        let mut sh = self.shadows.remove(idx);
        match sh.publish(identity, msg, sink, ipaddr) {
            Ok((ptr, out)) => {
                self.shadows.insert(idx, sh);
                proof {
                    assert forall|k: int|
                        0 <= k < shadows1.len() && k != idx as int implies self.shadows@[k]
                        == shadows1[k] by {}
                    lemma_spec_insert_live(
                        pubs1,
                        gid,
                        (PublisherV { sink: sink, xaddr: gxaddr, ipaddr: gip }),
                    );
                    lemma_shadows_wf_update(shadows1, self.shadows@, idx as int);
                    assert(shadow_views(self.shadows@) =~~= views1.update(
                        idx as int,
                        self.shadows@[idx as int]@,
                    ));
                }
                Ok(((PeerMark { ptr: mark_ptr }, PubHandle { shadow: hook_addr, ptr }), out))
            },
            Err(e) => {
                self.shadows.insert(idx, sh);
                proof {
                    assert(false);
                }
                Err(e)
            },
        }
    }

    /// Resolves an identity to its registered peer session and endpoint, as
    /// a copy.
    pub fn get_peer(&self, identity: &Identity) -> (r: Option<(u64, Vec<u8>)>)
        ensures
            match find_live(self.peers@, identity@) {
                Option::Some(j) => (r matches Some(p) && p.0 == val_at(self.peers@, j).peer && p.1@
                    == val_at(self.peers@, j).ipaddr),
                Option::None => r is None,
            },
    {
        proof {
            lemma_find_live(self.peers@, identity@);
        }
        match self.peers.find(identity) {
            Some(j) => {
                match &self.peers.slots[j] {
                    Some(e) => Some((e.val.peer, bytes_clone(&e.val.ipaddr))),
                    None => {
                        proof {
                            assert(false);
                        }
                        None
                    },
                }
            },
            None => None,
        }
    }

    /// The drop-hook path of a subscriber stream: removes the registration
    /// the hook names, and drops the whole shadow once its population
    /// reaches zero.  A hook for a shadow that is already gone does nothing.
    pub fn unsubscribe(&mut self, hook: SubHandle)
        requires
            old(self).wf(),
        ensures
            final(self).wf(),
            final(self).peers == old(self).peers,
            ({
                let views0 = shadow_views(old(self).shadows@);
                match shadow_find(views0, hook.shadow@) {
                    Option::None => shadow_views(final(self).shadows@) =~~= views0,
                    Option::Some(j) => ({
                        let subs1 = spec_remove_ptr(views0[j].subscribers, hook.ptr as int);
                        if count_live(subs1) == 0 && count_live(views0[j].publishers) == 0 {
                            shadow_views(final(self).shadows@) =~~= views0.remove(j)
                        } else {
                            shadow_views(final(self).shadows@) =~~= views0.update(
                                j,
                                (ShadowV {
                                    address: views0[j].address,
                                    subscribers: subs1,
                                    publishers: views0[j].publishers,
                                }),
                            )
                        }
                    }),
                }
            }),
    {
        let ghost views0 = shadow_views(self.shadows@);
        let ghost shadows0 = self.shadows@;
        proof {
            lemma_shadow_find(views0, hook.shadow@);
        }
        match self.find_shadow(&hook.shadow.bytes) {
            Some(idx) => {
                proof {
                    assert(self.shadows@[idx as int].wf());
                }
                let mut sh = self.shadows.remove(idx);
                let stop = sh.unsubscribe(hook.ptr);
                if stop {
                    proof {
                        lemma_shadows_wf_remove(shadows0, idx as int);
                        assert(shadow_views(self.shadows@) =~~= views0.remove(idx as int));
                    }
                } else {
                    self.shadows.insert(idx, sh);
                    proof {
                        assert forall|k: int|
                            0 <= k < shadows0.len() && k != idx as int implies self.shadows@[k]
                            == shadows0[k] by {}
                        lemma_shadows_wf_update(shadows0, self.shadows@, idx as int);
                        assert(shadow_views(self.shadows@) =~~= views0.update(
                            idx as int,
                            self.shadows@[idx as int]@,
                        ));
                    }
                }
            },
            None => {},
        }
    }

    /// The drop-hook path of a publisher stream: removes the registration
    /// the hook names, fanning the `Unpublish` out to the shadow's current
    /// subscribers, and drops the whole shadow once its population reaches
    /// zero.  Returns the events to deliver.
    pub fn unpublish(&mut self, hook: PubHandle) -> (out: Vec<Emission>)
        requires
            old(self).wf(),
        ensures
            final(self).wf(),
            final(self).peers == old(self).peers,
            ({
                let views0 = shadow_views(old(self).shadows@);
                match shadow_find(views0, hook.shadow@) {
                    Option::None => shadow_views(final(self).shadows@) =~~= views0 && out@.len()
                        == 0,
                    Option::Some(j) => ({
                        let pubs1 = spec_remove_ptr(views0[j].publishers, hook.ptr as int);
                        emissions_view(out@) =~~= unpublish_events(
                            views0[j].subscribers,
                            views0[j].publishers,
                            hook.ptr as int,
                        ) && if count_live(views0[j].subscribers) == 0 && count_live(pubs1) == 0 {
                            shadow_views(final(self).shadows@) =~~= views0.remove(j)
                        } else {
                            shadow_views(final(self).shadows@) =~~= views0.update(
                                j,
                                (ShadowV {
                                    address: views0[j].address,
                                    subscribers: views0[j].subscribers,
                                    publishers: pubs1,
                                }),
                            )
                        }
                    }),
                }
            }),
    {
        let ghost views0 = shadow_views(self.shadows@);
        let ghost shadows0 = self.shadows@;
        proof {
            lemma_shadow_find(views0, hook.shadow@);
        }
        match self.find_shadow(&hook.shadow.bytes) {
            Some(idx) => {
                proof {
                    assert(self.shadows@[idx as int].wf());
                }
                let mut sh = self.shadows.remove(idx);
                let (out, stop) = sh.unpublish(hook.ptr);
                if stop {
                    proof {
                        lemma_shadows_wf_remove(shadows0, idx as int);
                        assert(shadow_views(self.shadows@) =~~= views0.remove(idx as int));
                    }
                } else {
                    self.shadows.insert(idx, sh);
                    proof {
                        assert forall|k: int|
                            0 <= k < shadows0.len() && k != idx as int implies self.shadows@[k]
                            == shadows0[k] by {}
                        lemma_shadows_wf_update(shadows0, self.shadows@, idx as int);
                        assert(shadow_views(self.shadows@) =~~= views0.update(
                            idx as int,
                            self.shadows@[idx as int]@,
                        ));
                    }
                }
                out
            },
            None => Vec::new(),
        }
    }

    /// The garbage-collection path of one identity-to-peer row: the row the
    /// mark names is removed; a mark whose row was superseded does nothing.
    pub fn release_peer(&mut self, mark: PeerMark)
        requires
            old(self).wf(),
        ensures
            final(self).wf(),
            final(self).shadows == old(self).shadows,
            final(self).peers@ =~~= spec_remove_ptr(old(self).peers@, mark.ptr as int),
    {
        let _ = self.peers.remove_ptr(mark.ptr);
    }

    /// Routes one mailbox command to its handler.  Yields the outcome for
    /// the command's sender and the events to deliver.
    pub fn handle(&mut self, cmd: Command) -> (r: (Outcome, Vec<Emission>))
        requires
            old(self).wf(),
        ensures
            final(self).wf(),
            match cmd {
                Command::Subscribe { identity, msg, sink } => final(self).peers == old(self).peers
                    && if msg.shadow@.len() != KEY_LEN as int {
                    (r.0 matches Outcome::Failed { err } && err == BrokerError::BadAddress)
                        && final(self).shadows == old(self).shadows && r.1@.len() == 0
                } else {
                    r.0 matches Outcome::Subscribed { hook } && ({
                        let vj = spec_ensure_shadow(shadow_views(old(self).shadows@), msg.shadow@);
                        let sh = vj.0[vj.1];
                        hook.shadow@ == msg.shadow@ && hook.ptr == sh.subscribers.len()
                            && shadow_views(final(self).shadows@) =~~= vj.0.update(
                            vj.1,
                            (ShadowV {
                                address: sh.address,
                                subscribers: spec_insert(
                                    sh.subscribers,
                                    identity@,
                                    (Subscriber { sink }),
                                ).0,
                                publishers: sh.publishers,
                            }),
                        ) && emissions_view(r.1@) =~~= subscribe_events(
                            sh.subscribers,
                            sh.publishers,
                            identity@,
                            sink,
                        )
                    })
                },
                Command::Publish { identity, peer, msg, sink, ipaddr } => if msg.shadow@.len()
                    != KEY_LEN as int {
                    (r.0 matches Outcome::Failed { err } && err == BrokerError::BadAddress)
                        && final(self).shadows == old(self).shadows && final(self).peers == old(self).peers && r.1@.len() == 0
                } else if msg.xaddr@.len() != XADDR_LEN as int {
                    (r.0 matches Outcome::Failed { err } && err == BrokerError::BadSignature)
                        && final(self).shadows == old(self).shadows && final(self).peers == old(self).peers && r.1@.len() == 0
                } else {
                    r.0 matches Outcome::Published { mark, hook } && ({
                        let vj = spec_ensure_shadow(shadow_views(old(self).shadows@), msg.shadow@);
                        let sh = vj.0[vj.1];
                        mark.ptr == old(self).peers@.len() && final(self).peers@ =~~= spec_insert(
                            old(self).peers@,
                            identity@,
                            (PeerInfoV { peer: peer, ipaddr: ipaddr@ }),
                        ).0 && hook.shadow@ == msg.shadow@ && hook.ptr == sh.publishers.len()
                            && shadow_views(final(self).shadows@) =~~= vj.0.update(
                            vj.1,
                            (ShadowV {
                                address: sh.address,
                                subscribers: sh.subscribers,
                                publishers: spec_insert(
                                    sh.publishers,
                                    identity@,
                                    (PublisherV { sink: sink, xaddr: msg.xaddr@, ipaddr: ipaddr@ }),
                                ).0,
                            }),
                        ) && emissions_view(r.1@) =~~= publish_events(
                            sh.subscribers,
                            sh.publishers,
                            identity@,
                            msg.xaddr@,
                        )
                    })
                },
                Command::GetPeer { identity } => final(self).shadows == old(self).shadows && final(self).peers == old(self).peers && r.1@.len() == 0 && (r.0 matches Outcome::Peer {
                    found,
                } && (match find_live(old(self).peers@, identity@) {
                    Option::Some(j) => found matches Some(p) && p.0 == val_at(
                        old(self).peers@,
                        j,
                    ).peer && p.1@ == val_at(old(self).peers@, j).ipaddr,
                    Option::None => found is None,
                })),
            },
    {
        match cmd {
            Command::Subscribe { identity, msg, sink } => {
                match self.subscribe(identity, msg, sink) {
                    Ok((hook, out)) => ((Outcome::Subscribed { hook }), out),
                    Err(err) => ((Outcome::Failed { err }), Vec::new()),
                }
            },
            Command::Publish { identity, peer, msg, sink, ipaddr } => {
                match self.publish(identity, peer, msg, sink, ipaddr) {
                    Ok(((mark, hook), out)) => ((Outcome::Published { mark, hook }), out),
                    Err(err) => ((Outcome::Failed { err }), Vec::new()),
                }
            },
            Command::GetPeer { identity } => {
                let found = self.get_peer(&identity);
                ((Outcome::Peer { found }), Vec::new())
            },
        }
    }
}

} // verus!
