//! The per-shadow actor: it holds the live subscribers and publishers of one
//! shadow address, fans change events out to the affected streams, and
//! reports when its population reaches zero so its owner can drop it.
//!
//! Every operation returns the events to deliver as an explicit list, in the
//! order the streams must observe them.

use vstd::prelude::*;
use crate::BrokerError;
use crate::bytes_clone;
use crate::ident::Address;
use crate::ident::Identity;
use crate::ident::SignedAddress;
use crate::ident::XADDR_LEN;
use crate::proto::Change;
use crate::proto::ChangeV;
use crate::proto::Emission;
use crate::proto::EmissionV;
use crate::proto::PublishRequest;
use crate::proto::SubscribeRequest;
use crate::proto::emissions_view;
use crate::ptrmap::PtrMap;
use crate::ptrmap::count_live;
use crate::ptrmap::find_live;
use crate::ptrmap::key_at;
use crate::ptrmap::lemma_find_live;
use crate::ptrmap::unique_keys;
use crate::ptrmap::spec_insert;
use crate::ptrmap::spec_remove_ptr;
use crate::ptrmap::val_at;

verus! {

/// A live watcher of a shadow: the sink of its change stream.
#[derive(Clone, Copy, Debug)]
pub struct Subscriber {
    pub sink: u64,
}

impl View for Subscriber {
    type V = Subscriber;

    open spec fn view(&self) -> Subscriber {
        *self
    }
}

/// A live advertiser on a shadow: its change-stream sink, its signed
/// address, and the network endpoint the broker observed it on.
#[derive(Debug)]
pub struct Publisher {
    pub sink: u64,
    pub xaddr: SignedAddress,
    pub ipaddr: Vec<u8>,
}

/// The mathematical image of a `Publisher`.
#[verifier::ext_equal]
pub struct PublisherV {
    pub sink: u64,
    pub xaddr: Seq<u8>,
    pub ipaddr: Seq<u8>,
}

impl View for Publisher {
    type V = PublisherV;

    open spec fn view(&self) -> PublisherV {
        PublisherV { sink: self.sink, xaddr: self.xaddr@, ipaddr: self.ipaddr@ }
    }
}

/// The commands a shadow's mailbox accepts, one per operation.
#[allow(inconsistent_fields)]
pub enum Command {
    Subscribe { identity: Identity, msg: SubscribeRequest, sink: u64 },
    Publish { identity: Identity, msg: PublishRequest, sink: u64, ipaddr: Vec<u8> },
    Unsubscribe { ptr: usize },
    Unpublish { ptr: usize },
}

/// What handling one command reports back to its sender.
#[derive(Debug)]
pub enum Outcome {
    /// A subscription was registered under this token.
    Subscribed { ptr: usize },
    /// A publication was registered under this token.
    Published { ptr: usize },
    /// A removal was processed.
    Removed,
    /// The command was refused.
    Failed { err: BrokerError },
}

/// One shadow's state: its address and the two registration maps.
pub struct Shadow {
    pub address: Address,
    pub subscribers: PtrMap<Subscriber>,
    pub publishers: PtrMap<Publisher>,
}

/// The mathematical image of a `Shadow`.
#[verifier::ext_equal]
pub struct ShadowV {
    pub address: Seq<u8>,
    pub subscribers: Seq<Option<(Seq<u8>, Subscriber)>>,
    pub publishers: Seq<Option<(Seq<u8>, PublisherV)>>,
}

impl View for Shadow {
    type V = ShadowV;

    open spec fn view(&self) -> ShadowV {
        ShadowV {
            address: self.address@,
            subscribers: self.subscribers@,
            publishers: self.publishers@,
        }
    }
}

/// One `Publish` event per live publisher, in slot order, all addressed to
/// the sink of a freshly joined subscriber.
pub open spec fn backlog_events(pubs: Seq<Option<(Seq<u8>, PublisherV)>>, sink: u64) -> Seq<
    EmissionV,
>
    decreases pubs.len(),
{
    if pubs.len() == 0 {
        Seq::empty()
    } else {
        backlog_events(pubs.drop_last(), sink) + (match pubs.last() {
            Option::Some(p) => seq![
                EmissionV {
                    sink: sink,
                    change: (ChangeV::Publish { identity: p.0, xaddr: p.1.xaddr }),
                },
            ],
            Option::None => Seq::empty(),
        })
    }
}

/// One `Publish{identity, xaddr}` event per live subscriber, in slot order.
pub open spec fn publish_to_subs(
    subs: Seq<Option<(Seq<u8>, Subscriber)>>,
    identity: Seq<u8>,
    xaddr: Seq<u8>,
) -> Seq<EmissionV>
    decreases subs.len(),
{
    if subs.len() == 0 {
        Seq::empty()
    } else {
        publish_to_subs(subs.drop_last(), identity, xaddr) + (match subs.last() {
            Option::Some(s) => seq![
                EmissionV {
                    sink: s.1.sink,
                    change: (ChangeV::Publish { identity: identity, xaddr: xaddr }),
                },
            ],
            Option::None => Seq::empty(),
        })
    }
}

/// One `Unpublish{identity}` event per live subscriber, in slot order.
pub open spec fn unpublish_to_subs(
    subs: Seq<Option<(Seq<u8>, Subscriber)>>,
    identity: Seq<u8>,
) -> Seq<EmissionV>
    decreases subs.len(),
{
    if subs.len() == 0 {
        Seq::empty()
    } else {
        unpublish_to_subs(subs.drop_last(), identity) + (match subs.last() {
            Option::Some(s) => seq![
                EmissionV { sink: s.1.sink, change: (ChangeV::Unpublish { identity: identity }) },
            ],
            Option::None => Seq::empty(),
        })
    }
}

/// Everything a subscribe emits: a `Supersede` to a displaced subscriber
/// under the same identity, then the backlog of current publishers to the
/// new sink.
pub open spec fn subscribe_events(
    subs: Seq<Option<(Seq<u8>, Subscriber)>>,
    pubs: Seq<Option<(Seq<u8>, PublisherV)>>,
    identity: Seq<u8>,
    sink: u64,
) -> Seq<EmissionV> {
    (match find_live(subs, identity) {
        Option::Some(j) => seq![
            EmissionV { sink: val_at(subs, j).sink, change: ChangeV::Supersede },
        ],
        Option::None => Seq::empty(),
    }) + backlog_events(pubs, sink)
}

/// Everything a publish emits: on supersede, an `Unpublish` to every current
/// subscriber and a `Supersede` to the displaced publisher; then a `Publish`
/// to every current subscriber.
pub open spec fn publish_events(
    subs: Seq<Option<(Seq<u8>, Subscriber)>>,
    pubs: Seq<Option<(Seq<u8>, PublisherV)>>,
    identity: Seq<u8>,
    xaddr: Seq<u8>,
) -> Seq<EmissionV> {
    (match find_live(pubs, identity) {
        Option::Some(j) => unpublish_to_subs(subs, identity) + seq![
            EmissionV { sink: val_at(pubs, j).sink, change: ChangeV::Supersede },
        ],
        Option::None => Seq::empty(),
    }) + publish_to_subs(subs, identity, xaddr)
}

/// Everything an unpublish emits: an `Unpublish` to every current subscriber
/// when the token named a live publisher, and nothing otherwise.
pub open spec fn unpublish_events(
    subs: Seq<Option<(Seq<u8>, Subscriber)>>,
    pubs: Seq<Option<(Seq<u8>, PublisherV)>>,
    ptr: int,
) -> Seq<EmissionV> {
    if 0 <= ptr < pubs.len() && pubs[ptr] is Some {
        unpublish_to_subs(subs, key_at(pubs, ptr))
    } else {
        Seq::empty()
    }
}

/// Whether an event is a `Publish{identity, ..}` addressed to `sink`.
pub open spec fn is_publish_to(ev: EmissionV, identity: Seq<u8>, sink: u64) -> bool {
    ev.sink == sink && (ev.change matches ChangeV::Publish { identity: id2, xaddr } && id2
        == identity)
}

/// How many events of a list are a `Publish{identity, ..}` addressed to
/// `sink`.
pub open spec fn count_publish_to(evs: Seq<EmissionV>, identity: Seq<u8>, sink: u64) -> nat
    decreases evs.len(),
{
    if evs.len() == 0 {
        0
    } else {
        count_publish_to(evs.drop_last(), identity, sink) + (if is_publish_to(
            evs.last(),
            identity,
            sink,
        ) {
            1nat
        } else {
            0nat
        })
    }
}

/// How many live slots of a map hold `key`.
pub open spec fn count_key<V>(v: Seq<Option<(Seq<u8>, V)>>, key: Seq<u8>) -> nat
    decreases v.len(),
{
    if v.len() == 0 {
        0
    } else {
        count_key(v.drop_last(), key) + (match v.last() {
            Option::Some(p) => if p.0 == key {
                1nat
            } else {
                0nat
            },
            Option::None => 0nat,
        })
    }
}

/// How many live slots of a subscriber map listen on `sink`.
pub open spec fn count_sink(subs: Seq<Option<(Seq<u8>, Subscriber)>>, sink: u64) -> nat
    decreases subs.len(),
{
    if subs.len() == 0 {
        0
    } else {
        count_sink(subs.drop_last(), sink) + (match subs.last() {
            Option::Some(p) => if p.1.sink == sink {
                1nat
            } else {
                0nat
            },
            Option::None => 0nat,
        })
    }
}

/// The publish count of a concatenation is the sum of the parts' counts.
proof fn lemma_count_publish_concat(a: Seq<EmissionV>, b: Seq<EmissionV>, identity: Seq<u8>, sink: u64)
    ensures
        count_publish_to(a + b, identity, sink) == count_publish_to(a, identity, sink)
            + count_publish_to(b, identity, sink),
    decreases b.len(),
{
    if b.len() == 0 {
        assert(a + b =~= a);
    } else {
        lemma_count_publish_concat(a, b.drop_last(), identity, sink);
        assert((a + b).drop_last() =~= a + b.drop_last());
        assert((a + b).last() == b.last());
    }
}

/// In a map with unique keys, a live slot's key occupies exactly one live
/// slot.
proof fn lemma_count_key_unique<V>(v: Seq<Option<(Seq<u8>, V)>>, j: int)
    requires
        unique_keys(v),
        0 <= j < v.len(),
        v[j] is Some,
    ensures
        count_key(v, key_at(v, j)) == 1,
    decreases v.len(),
{
    let key = key_at(v, j);
    let w = v.drop_last();
    assert(forall|k: int| 0 <= k < w.len() ==> w[k] == v[k]);
    assert forall|a: int, b: int|
        0 <= a < w.len() && 0 <= b < w.len() && a != b && w[a] is Some && w[b]
            is Some implies #[trigger] key_at(w, a) != #[trigger] key_at(w, b) by {
        assert(key_at(w, a) == key_at(v, a) && key_at(w, b) == key_at(v, b));
        assert(key_at(v, a) != key_at(v, b));
    }
    if j == v.len() - 1 {
        assert forall|k: int| 0 <= k < w.len() && (#[trigger] w[k]) is Some implies key_at(w, k)
            != key by {
            assert(key_at(v, k) != key_at(v, j));
            assert(key_at(w, k) == key_at(v, k));
        }
        lemma_count_key_absent(w, key);
        assert(v.last() == v[j]);
    } else {
        assert(w[j] == v[j]);
        assert(key_at(w, j) == key_at(v, j));
        lemma_count_key_unique(w, j);
        if v.last() is Some {
            assert(key_at(v, v.len() - 1) != key_at(v, j));
        }
    }
}

/// A key no live slot holds occupies no live slot.
proof fn lemma_count_key_absent<V>(v: Seq<Option<(Seq<u8>, V)>>, key: Seq<u8>)
    requires
        forall|k: int| 0 <= k < v.len() && (#[trigger] v[k]) is Some ==> key_at(v, k) != key,
    ensures
        count_key(v, key) == 0,
    decreases v.len(),
{
    if v.len() > 0 {
        let w = v.drop_last();
        assert(forall|k: int| 0 <= k < w.len() ==> w[k] == v[k]);
        lemma_count_key_absent(w, key);
        if v.last() is Some {
            assert(key_at(v, v.len() - 1) != key);
        }
    }
}

/// The backlog holds one `Publish` per live slot with the key, all to the
/// new sink.
proof fn lemma_backlog_count(pubs: Seq<Option<(Seq<u8>, PublisherV)>>, sink: u64, id: Seq<u8>)
    ensures
        count_publish_to(backlog_events(pubs, sink), id, sink) == count_key(pubs, id),
    decreases pubs.len(),
{
    if pubs.len() > 0 {
        let w = pubs.drop_last();
        let c = match pubs.last() {
            Option::Some(p) => seq![
                EmissionV {
                    sink: sink,
                    change: (ChangeV::Publish { identity: p.0, xaddr: p.1.xaddr }),
                },
            ],
            Option::None => Seq::empty(),
        };
        assert(backlog_events(pubs, sink) == backlog_events(w, sink) + c);
        lemma_backlog_count(w, sink, id);
        lemma_count_publish_concat(backlog_events(w, sink), c, id, sink);
        match pubs.last() {
            Option::Some(p) => {
                assert(c.drop_last() =~= Seq::<EmissionV>::empty());
                assert(count_publish_to(Seq::<EmissionV>::empty(), id, sink) == 0);
                assert(c.last() == (EmissionV {
                    sink: sink,
                    change: (ChangeV::Publish { identity: p.0, xaddr: p.1.xaddr }),
                }));
                assert(count_publish_to(c, id, sink) == (if p.0 == id {
                    1nat
                } else {
                    0nat
                }));
            },
            Option::None => {
                assert(count_publish_to(c, id, sink) == 0);
            },
        }
    }
}

/// The publish fan-out holds one `Publish` per live subscriber on the
/// sink.
proof fn lemma_publish_to_subs_count(
    subs: Seq<Option<(Seq<u8>, Subscriber)>>,
    identity: Seq<u8>,
    xaddr: Seq<u8>,
    sink: u64,
)
    ensures
        count_publish_to(publish_to_subs(subs, identity, xaddr), identity, sink) == count_sink(
            subs,
            sink,
        ),
    decreases subs.len(),
{
    if subs.len() > 0 {
        let w = subs.drop_last();
        let c = match subs.last() {
            Option::Some(p) => seq![
                EmissionV {
                    sink: p.1.sink,
                    change: (ChangeV::Publish { identity: identity, xaddr: xaddr }),
                },
            ],
            Option::None => Seq::empty(),
        };
        assert(publish_to_subs(subs, identity, xaddr) == publish_to_subs(w, identity, xaddr) + c);
        lemma_publish_to_subs_count(w, identity, xaddr, sink);
        lemma_count_publish_concat(publish_to_subs(w, identity, xaddr), c, identity, sink);
        match subs.last() {
            Option::Some(p) => {
                assert(c.drop_last() =~= Seq::<EmissionV>::empty());
                assert(count_publish_to(Seq::<EmissionV>::empty(), identity, sink) == 0);
                assert(c.last() == (EmissionV {
                    sink: p.1.sink,
                    change: (ChangeV::Publish { identity: identity, xaddr: xaddr }),
                }));
                assert(count_publish_to(c, identity, sink) == (if p.1.sink == sink {
                    1nat
                } else {
                    0nat
                }));
            },
            Option::None => {
                assert(count_publish_to(c, identity, sink) == 0);
            },
        }
    }
}

/// The unpublish fan-out holds no `Publish` at all.
proof fn lemma_unpublish_no_publish(
    subs: Seq<Option<(Seq<u8>, Subscriber)>>,
    identity: Seq<u8>,
    id: Seq<u8>,
    sink: u64,
)
    ensures
        count_publish_to(unpublish_to_subs(subs, identity), id, sink) == 0,
    decreases subs.len(),
{
    if subs.len() > 0 {
        let w = subs.drop_last();
        let c = match subs.last() {
            Option::Some(p) => seq![
                EmissionV { sink: p.1.sink, change: (ChangeV::Unpublish { identity: identity }) },
            ],
            Option::None => Seq::empty(),
        };
        assert(unpublish_to_subs(subs, identity) == unpublish_to_subs(w, identity) + c);
        lemma_unpublish_no_publish(w, identity, id, sink);
        lemma_count_publish_concat(unpublish_to_subs(w, identity), c, id, sink);
        match subs.last() {
            Option::Some(p) => {
                assert(c.drop_last() =~= Seq::<EmissionV>::empty());
                assert(count_publish_to(Seq::<EmissionV>::empty(), id, sink) == 0);
                assert(c.last() == (EmissionV {
                    sink: p.1.sink,
                    change: (ChangeV::Unpublish { identity: identity }),
                }));
                assert(count_publish_to(c, id, sink) == 0);
            },
            Option::None => {
                assert(count_publish_to(c, id, sink) == 0);
            },
        }
    }
}

/// A live subscriber's sink, among pairwise distinct sinks, is listened on
/// by exactly one live slot.
proof fn lemma_count_sink_unique(subs: Seq<Option<(Seq<u8>, Subscriber)>>, j: int)
    requires
        forall|a: int, b: int|
            0 <= a < subs.len() && 0 <= b < subs.len() && a != b && subs[a] is Some && subs[b]
                is Some ==> #[trigger] val_at(subs, a).sink != #[trigger] val_at(subs, b).sink,
        0 <= j < subs.len(),
        subs[j] is Some,
    ensures
        count_sink(subs, val_at(subs, j).sink) == 1,
    decreases subs.len(),
{
    let sink = val_at(subs, j).sink;
    let w = subs.drop_last();
    assert(forall|k: int| 0 <= k < w.len() ==> w[k] == subs[k]);
    if j == subs.len() - 1 {
        lemma_count_sink_prefix(subs, j, j);
        assert(w =~= subs.take(j));
        assert(subs.last() == subs[j]);
    } else {
        assert(w[j] == subs[j]);
        assert(val_at(w, j) == val_at(subs, j));
        assert forall|a: int, b: int|
            0 <= a < w.len() && 0 <= b < w.len() && a != b && w[a] is Some && w[b]
                is Some implies #[trigger] val_at(w, a).sink != #[trigger] val_at(w, b).sink by {
            assert(val_at(w, a) == val_at(subs, a) && val_at(w, b) == val_at(subs, b));
            assert(val_at(subs, a).sink != val_at(subs, b).sink);
        }
        lemma_count_sink_unique(w, j);
        if subs.last() is Some {
            assert(val_at(subs, subs.len() - 1).sink != val_at(subs, j).sink);
        }
    }
}

/// No live slot strictly before a distinguished slot listens on its sink,
/// when sinks are pairwise distinct.
proof fn lemma_count_sink_prefix(subs: Seq<Option<(Seq<u8>, Subscriber)>>, j: int, m: int)
    requires
        forall|a: int, b: int|
            0 <= a < subs.len() && 0 <= b < subs.len() && a != b && subs[a] is Some && subs[b]
                is Some ==> #[trigger] val_at(subs, a).sink != #[trigger] val_at(subs, b).sink,
        0 <= j < subs.len(),
        subs[j] is Some,
        0 <= m <= j,
    ensures
        count_sink(subs.take(m), val_at(subs, j).sink) == 0,
    decreases m,
{
    if m > 0 {
        lemma_count_sink_prefix(subs, j, m - 1);
        assert(subs.take(m).drop_last() =~= subs.take(m - 1));
        assert(subs.take(m).last() == subs[m - 1]);
        if subs[m - 1] is Some {
            assert(val_at(subs, m - 1).sink != val_at(subs, j).sink);
        }
    }
}

/// Appends the backlog events for `pubs` to `out`.
fn fanout_backlog(pubs: &PtrMap<Publisher>, sink: u64, out: &mut Vec<Emission>)
    ensures
        emissions_view(final(out)@) =~~= emissions_view(old(out)@) + backlog_events(pubs@, sink),
{
    let ghost base = emissions_view(old(out)@);
    let mut i: usize = 0;
    while i < pubs.slots.len()
        invariant
            i <= pubs@.len(),
            emissions_view(out@) =~~= base + backlog_events(pubs@.take(i as int), sink),
        decreases pubs@.len() - i,
    {
        match &pubs.slots[i] {
            Some(e) => {
                let em = Emission {
                    sink: sink,
                    change: Change::Publish {
                        identity: bytes_clone(&e.key.bytes),
                        xaddr: e.val.xaddr.to_vec(),
                    },
                };
                let ghost gem = em@;
                let ghost prev = out@;
                out.push(em);
                proof {
                    assert(pubs@[i as int] matches Option::Some(p) && gem == (EmissionV {
                        sink: sink,
                        change: (ChangeV::Publish { identity: p.0, xaddr: p.1.xaddr }),
                    }));
                    assert(emissions_view(out@) =~~= emissions_view(prev).push(gem));
                }
            },
            None => {},
        }
        proof {
            assert(pubs@.take(i as int + 1).drop_last() =~= pubs@.take(i as int));
            assert(pubs@.take(i as int + 1).last() == pubs@[i as int]);
            assert(backlog_events(pubs@.take(i as int + 1), sink) == backlog_events(
                pubs@.take(i as int),
                sink,
            ) + (match pubs@[i as int] {
                Option::Some(p) => seq![
                    EmissionV {
                        sink: sink,
                        change: (ChangeV::Publish { identity: p.0, xaddr: p.1.xaddr }),
                    },
                ],
                Option::None => Seq::empty(),
            }));
            assert(emissions_view(out@) =~~= base + backlog_events(
                pubs@.take(i as int + 1),
                sink,
            ));
        }
        i = i + 1;
    }
    proof {
        assert(pubs@.take(pubs@.len() as int) =~= pubs@);
    }
}

/// Appends a `Publish{identity, xaddr}` event for every live subscriber to
/// `out`.
fn fanout_publish(subs: &PtrMap<Subscriber>, identity: &Vec<u8>, xaddr: &Vec<u8>, out: &mut Vec<
    Emission,
>)
    ensures
        emissions_view(final(out)@) =~~= emissions_view(old(out)@) + publish_to_subs(
            subs@,
            identity@,
            xaddr@,
        ),
{
    let ghost base = emissions_view(old(out)@);
    let mut i: usize = 0;
    while i < subs.slots.len()
        invariant
            i <= subs@.len(),
            emissions_view(out@) =~~= base + publish_to_subs(
                subs@.take(i as int),
                identity@,
                xaddr@,
            ),
        decreases subs@.len() - i,
    {
        match &subs.slots[i] {
            Some(e) => {
                let em = Emission {
                    sink: e.val.sink,
                    change: Change::Publish {
                        identity: bytes_clone(identity),
                        xaddr: bytes_clone(xaddr),
                    },
                };
                let ghost gem = em@;
                let ghost prev = out@;
                out.push(em);
                proof {
                    assert(subs@[i as int] matches Option::Some(s) && gem == (EmissionV {
                        sink: s.1.sink,
                        change: (ChangeV::Publish { identity: identity@, xaddr: xaddr@ }),
                    }));
                    assert(emissions_view(out@) =~~= emissions_view(prev).push(gem));
                }
            },
            None => {},
        }
        proof {
            assert(subs@.take(i as int + 1).drop_last() =~= subs@.take(i as int));
            assert(subs@.take(i as int + 1).last() == subs@[i as int]);
            assert(emissions_view(out@) =~~= base + publish_to_subs(
                subs@.take(i as int + 1),
                identity@,
                xaddr@,
            ));
        }
        i = i + 1;
    }
    proof {
        assert(subs@.take(subs@.len() as int) =~= subs@);
    }
}

/// Appends an `Unpublish{identity}` event for every live subscriber to
/// `out`.
fn fanout_unpublish(subs: &PtrMap<Subscriber>, identity: &Vec<u8>, out: &mut Vec<Emission>)
    ensures
        emissions_view(final(out)@) =~~= emissions_view(old(out)@) + unpublish_to_subs(
            subs@,
            identity@,
        ),
{
    let ghost base = emissions_view(old(out)@);
    let mut i: usize = 0;
    while i < subs.slots.len()
        invariant
            i <= subs@.len(),
            emissions_view(out@) =~~= base + unpublish_to_subs(subs@.take(i as int), identity@),
        decreases subs@.len() - i,
    {
        match &subs.slots[i] {
            Some(e) => {
                let em = Emission {
                    sink: e.val.sink,
                    change: Change::Unpublish { identity: bytes_clone(identity) },
                };
                let ghost gem = em@;
                let ghost prev = out@;
                out.push(em);
                proof {
                    assert(subs@[i as int] matches Option::Some(s) && gem == (EmissionV {
                        sink: s.1.sink,
                        change: (ChangeV::Unpublish { identity: identity@ }),
                    }));
                    assert(emissions_view(out@) =~~= emissions_view(prev).push(gem));
                }
            },
            None => {},
        }
        proof {
            assert(subs@.take(i as int + 1).drop_last() =~= subs@.take(i as int));
            assert(subs@.take(i as int + 1).last() == subs@[i as int]);
            assert(emissions_view(out@) =~~= base + unpublish_to_subs(
                subs@.take(i as int + 1),
                identity@,
            ));
        }
        i = i + 1;
    }
    proof {
        assert(subs@.take(subs@.len() as int) =~= subs@);
    }
}

impl Shadow {
    /// A well-formed shadow has a well-formed address and keeps each
    /// identity in at most one live subscriber slot and at most one live
    /// publisher slot.
    pub open spec fn wf(&self) -> bool {
        self.address.wf() && self.subscribers.wf() && self.publishers.wf()
    }

    /// How many registrations, subscriber or publisher, are live.
    pub open spec fn population(&self) -> nat {
        count_live(self.subscribers@) + count_live(self.publishers@)
    }

    /// A fresh, empty shadow for an address.
    pub fn new(address: Address) -> (r: Shadow)
        requires
            address.wf(),
        ensures
            r.wf(),
            r.address@ == address@,
            r.subscribers@ =~= Seq::<Option<(Seq<u8>, Subscriber)>>::empty(),
            r.publishers@ =~= Seq::<Option<(Seq<u8>, PublisherV)>>::empty(),
    {
        Shadow { address, subscribers: PtrMap::new(), publishers: PtrMap::new() }
    }

    /// Registers a subscriber stream under an identity: a subscriber the
    /// identity displaces is told `Supersede`, and the new sink is sent one
    /// `Publish` per current publisher.  Returns the registration token and
    /// the events to deliver.
    pub fn subscribe(&mut self, identity: Identity, _msg: SubscribeRequest, sink: u64) -> (r: (
        usize,
        Vec<Emission>,
    ))
        requires
            old(self).wf(),
        ensures
            final(self).wf(),
            final(self).address == old(self).address,
            final(self).publishers == old(self).publishers,
            final(self).subscribers@ =~= spec_insert(
                old(self).subscribers@,
                identity@,
                (Subscriber { sink }),
            ).0,
            r.0 == old(self).subscribers@.len(),
            emissions_view(r.1@) =~= subscribe_events(
                old(self).subscribers@,
                old(self).publishers@,
                identity@,
                sink,
            ),
    {
        let ghost gid = identity@;
        let ghost subs0 = self.subscribers@;
        proof {
            lemma_find_live(subs0, gid);
        }
        let (ptr, displaced) = self.subscribers.insert(identity, Subscriber { sink });
        let mut out: Vec<Emission> = Vec::new();
        match displaced {
            Some(olds) => {
                out.push(Emission { sink: olds.sink, change: Change::Supersede });
            },
            None => {},
        }
        proof {
            assert(emissions_view(out@) =~= (match find_live(subs0, gid) {
                Option::Some(j) => seq![
                    EmissionV { sink: val_at(subs0, j).sink, change: ChangeV::Supersede },
                ],
                Option::None => Seq::<EmissionV>::empty(),
            }));
        }
        fanout_backlog(&self.publishers, sink, &mut out);
        (ptr, out)
    }

    /// Registers a publisher stream under an identity.  The signed address
    /// must parse, else the request fails with `BadSignature` and nothing
    /// changes.  A publisher the identity displaces costs every current
    /// subscriber an `Unpublish` and the displaced stream a `Supersede`;
    /// every current subscriber is then sent the new `Publish`.  Returns the
    /// registration token and the events to deliver.
    pub fn publish(&mut self, identity: Identity, msg: PublishRequest, sink: u64, ipaddr: Vec<
        u8,
    >) -> (r: Result<(usize, Vec<Emission>), BrokerError>)
        requires
            old(self).wf(),
        ensures
            final(self).wf(),
            final(self).address == old(self).address,
            msg.xaddr@.len() != XADDR_LEN as int ==> (r matches Err(e) && e
                == BrokerError::BadSignature && final(self).subscribers == old(self).subscribers
                && final(self).publishers == old(self).publishers),
            msg.xaddr@.len() == XADDR_LEN as int ==> (r matches Ok(pr) && pr.0 == old(self).publishers@.len() && final(self).subscribers == old(self).subscribers && final(self).publishers@ =~= spec_insert(
                old(self).publishers@,
                identity@,
                (PublisherV { sink: sink, xaddr: msg.xaddr@, ipaddr: ipaddr@ }),
            ).0 && emissions_view(pr.1@) =~= publish_events(
                old(self).subscribers@,
                old(self).publishers@,
                identity@,
                msg.xaddr@,
            )),
    {
        let xaddr = match SignedAddress::from_bytes(&msg.xaddr) {
            Ok(x) => x,
            Err(e) => {
                return Err(e);
            },
        };
        let ghost gid = identity@;
        let ghost subs0 = self.subscribers@;
        let ghost pubs0 = self.publishers@;
        proof {
            lemma_find_live(pubs0, gid);
        }
        let idbytes = bytes_clone(&identity.bytes);
        let (ptr, displaced) = self.publishers.insert(
            identity,
            Publisher { sink, xaddr, ipaddr },
        );
        let mut out: Vec<Emission> = Vec::new();
        match displaced {
            Some(oldpub) => {
                fanout_unpublish(&self.subscribers, &idbytes, &mut out);
                out.push(Emission { sink: oldpub.sink, change: Change::Supersede });
                proof {
                    assert(emissions_view(out@) =~= unpublish_to_subs(subs0, gid) + seq![
                        EmissionV {
                            sink: val_at(pubs0, find_live(pubs0, gid)->Some_0).sink,
                            change: ChangeV::Supersede,
                        },
                    ]);
                }
            },
            None => {},
        }
        let ghost pre = emissions_view(out@);
        fanout_publish(&self.subscribers, &idbytes, &msg.xaddr, &mut out);
        proof {
            assert(emissions_view(out@) =~= publish_events(subs0, pubs0, gid, msg.xaddr@));
        }
        Ok((ptr, out))
    }

    /// Drops the subscriber registered under a token.  Reports whether the
    /// shadow's population reached zero, at which point its owner must drop
    /// it.
    pub fn unsubscribe(&mut self, ptr: usize) -> (stop: bool)
        requires
            old(self).wf(),
        ensures
            final(self).wf(),
            final(self).address == old(self).address,
            final(self).publishers == old(self).publishers,
            final(self).subscribers@ =~= spec_remove_ptr(old(self).subscribers@, ptr as int),
            stop == (count_live(spec_remove_ptr(old(self).subscribers@, ptr as int)) == 0
                && count_live(old(self).publishers@) == 0),
    {
        let _ = self.subscribers.remove_ptr(ptr);
        self.subscribers.len() == 0 && self.publishers.len() == 0
    }

    /// Drops the publisher registered under a token; if the token named a
    /// live publisher, every current subscriber is sent an `Unpublish`.
    /// Returns the events to deliver and whether the shadow's population
    /// reached zero.
    pub fn unpublish(&mut self, ptr: usize) -> (r: (Vec<Emission>, bool))
        requires
            old(self).wf(),
        ensures
            final(self).wf(),
            final(self).address == old(self).address,
            final(self).subscribers == old(self).subscribers,
            final(self).publishers@ =~= spec_remove_ptr(old(self).publishers@, ptr as int),
            emissions_view(r.0@) =~= unpublish_events(
                old(self).subscribers@,
                old(self).publishers@,
                ptr as int,
            ),
            r.1 == (count_live(old(self).subscribers@) == 0 && count_live(
                spec_remove_ptr(old(self).publishers@, ptr as int),
            ) == 0),
    {
        let mut out: Vec<Emission> = Vec::new();
        match self.publishers.remove_ptr(ptr) {
            Some(en) => {
                fanout_unpublish(&self.subscribers, &en.key.bytes, &mut out);
            },
            None => {
                proof {
                    assert(emissions_view(out@) =~= Seq::<EmissionV>::empty());
                }
            },
        }
        let stop = self.subscribers.len() == 0 && self.publishers.len() == 0;
        (out, stop)
    }

    /// Routes one mailbox command to its handler.  Yields the outcome for
    /// the command's sender, whether the shadow must now be dropped, and the
    /// events to deliver.
    pub fn handle(&mut self, cmd: Command) -> (r: (Outcome, bool, Vec<Emission>))
        requires
            old(self).wf(),
        ensures
            final(self).wf(),
            final(self).address == old(self).address,
            match cmd {
                Command::Subscribe { identity, msg, sink } => (r.0 matches Outcome::Subscribed {
                    ptr,
                } && ptr == old(self).subscribers@.len()) && r.1 == false && final(self).publishers == old(self).publishers && final(self).subscribers@ =~= spec_insert(
                    old(self).subscribers@,
                    identity@,
                    (Subscriber { sink }),
                ).0 && emissions_view(r.2@) =~= subscribe_events(
                    old(self).subscribers@,
                    old(self).publishers@,
                    identity@,
                    sink,
                ),
                Command::Publish { identity, msg, sink, ipaddr } => if msg.xaddr@.len()
                    != XADDR_LEN as int {
                    (r.0 matches Outcome::Failed { err } && err == BrokerError::BadSignature)
                        && r.1 == false && final(self).subscribers == old(self).subscribers
                        && final(self).publishers == old(self).publishers && r.2@.len() == 0
                } else {
                    (r.0 matches Outcome::Published { ptr } && ptr == old(self).publishers@.len()) && r.1 == false && final(self).subscribers == old(self).subscribers && final(self).publishers@ =~= spec_insert(
                        old(self).publishers@,
                        identity@,
                        (PublisherV { sink: sink, xaddr: msg.xaddr@, ipaddr: ipaddr@ }),
                    ).0 && emissions_view(r.2@) =~= publish_events(
                        old(self).subscribers@,
                        old(self).publishers@,
                        identity@,
                        msg.xaddr@,
                    )
                },
                Command::Unsubscribe { ptr } => r.0 == Outcome::Removed && final(self).publishers == old(self).publishers && final(self).subscribers@
                    =~= spec_remove_ptr(old(self).subscribers@, ptr as int) && r.1 == (count_live(
                    spec_remove_ptr(old(self).subscribers@, ptr as int),
                ) == 0 && count_live(old(self).publishers@) == 0) && r.2@.len() == 0,
                Command::Unpublish { ptr } => r.0 == Outcome::Removed && final(self).subscribers
                    == old(self).subscribers && final(self).publishers@ =~= spec_remove_ptr(
                    old(self).publishers@,
                    ptr as int,
                ) && emissions_view(r.2@) =~= unpublish_events(
                    old(self).subscribers@,
                    old(self).publishers@,
                    ptr as int,
                ) && r.1 == (count_live(old(self).subscribers@) == 0 && count_live(
                    spec_remove_ptr(old(self).publishers@, ptr as int),
                ) == 0),
            },
    {
        match cmd {
            Command::Subscribe { identity, msg, sink } => {
                let (ptr, out) = self.subscribe(identity, msg, sink);
                (Outcome::Subscribed { ptr }, false, out)
            },
            Command::Publish { identity, msg, sink, ipaddr } => {
                match self.publish(identity, msg, sink, ipaddr) {
                    Ok((ptr, out)) => (Outcome::Published { ptr }, false, out),
                    Err(err) => (Outcome::Failed { err }, false, Vec::new()),
                }
            },
            Command::Unsubscribe { ptr } => {
                let stop = self.unsubscribe(ptr);
                (Outcome::Removed, stop, Vec::new())
            },
            Command::Unpublish { ptr } => {
                let (out, stop) = self.unpublish(ptr);
                (Outcome::Removed, stop, out)
            },
        }
    }
}

/// Every backlog event is a `Publish`.
proof fn lemma_backlog_all_publish(pubs: Seq<Option<(Seq<u8>, PublisherV)>>, sink: u64)
    ensures
        forall|k: int|
            0 <= k < backlog_events(pubs, sink).len() ==> (#[trigger] backlog_events(
                pubs,
                sink,
            )[k]).change is Publish,
    decreases pubs.len(),
{
    if pubs.len() > 0 {
        let w = pubs.drop_last();
        let c = match pubs.last() {
            Option::Some(p) => seq![
                EmissionV {
                    sink: sink,
                    change: (ChangeV::Publish { identity: p.0, xaddr: p.1.xaddr }),
                },
            ],
            Option::None => Seq::empty(),
        };
        assert(backlog_events(pubs, sink) == backlog_events(w, sink) + c);
        lemma_backlog_all_publish(w, sink);
        let n = backlog_events(w, sink).len() as int;
        assert forall|k: int|
            0 <= k < backlog_events(pubs, sink).len() implies (#[trigger] backlog_events(
            pubs,
            sink,
        )[k]).change is Publish by {
            if k < n {
                assert(backlog_events(pubs, sink)[k] == backlog_events(w, sink)[k]);
            } else {
                assert(backlog_events(pubs, sink)[k] == c[k - n]);
            }
        }
    }
}

/// Law: for one shadow and one identity, there is at most one live
/// subscriber and at most one live publisher at any observation point — two
/// live slots of either map holding the same identity are the same slot.
pub proof fn lemma_at_most_one_registration(sh: Shadow, i: int, j: int)
    requires
        sh.wf(),
    ensures
        0 <= i < sh.subscribers@.len() && 0 <= j < sh.subscribers@.len() && sh.subscribers@[i]
            is Some && sh.subscribers@[j] is Some && key_at(sh.subscribers@, i) == key_at(
            sh.subscribers@,
            j,
        ) ==> i == j,
        0 <= i < sh.publishers@.len() && 0 <= j < sh.publishers@.len() && sh.publishers@[i]
            is Some && sh.publishers@[j] is Some && key_at(sh.publishers@, i) == key_at(
            sh.publishers@,
            j,
        ) ==> i == j,
{
}

/// Law: a subscriber joining a shadow is sent, for every publisher present
/// at that moment, exactly one `Publish` of it, and the join's event list
/// holds no `Unpublish` at all.
pub proof fn lemma_join_sees_each_publisher_once(
    subs: Seq<Option<(Seq<u8>, Subscriber)>>,
    pubs: Seq<Option<(Seq<u8>, PublisherV)>>,
    identity: Seq<u8>,
    sink: u64,
    j: int,
)
    requires
        unique_keys(pubs),
        0 <= j < pubs.len(),
        pubs[j] is Some,
    ensures
        count_publish_to(subscribe_events(subs, pubs, identity, sink), key_at(pubs, j), sink) == 1,
        forall|k: int|
            0 <= k < subscribe_events(subs, pubs, identity, sink).len() ==> !((
            #[trigger] subscribe_events(subs, pubs, identity, sink)[k]).change is Unpublish),
{
    let id = key_at(pubs, j);
    let pre = match find_live(subs, identity) {
        Option::Some(js) => seq![
            EmissionV { sink: val_at(subs, js).sink, change: ChangeV::Supersede },
        ],
        Option::None => Seq::empty(),
    };
    assert(subscribe_events(subs, pubs, identity, sink) == pre + backlog_events(pubs, sink));
    lemma_count_key_unique(pubs, j);
    lemma_backlog_count(pubs, sink, id);
    lemma_count_publish_concat(pre, backlog_events(pubs, sink), id, sink);
    match find_live(subs, identity) {
        Option::Some(js) => {
            assert(pre.drop_last() =~= Seq::<EmissionV>::empty());
            assert(count_publish_to(Seq::<EmissionV>::empty(), id, sink) == 0);
            assert(pre.last() == (EmissionV {
                sink: val_at(subs, js).sink,
                change: ChangeV::Supersede,
            }));
            assert(count_publish_to(pre, id, sink) == 0);
        },
        Option::None => {
            assert(count_publish_to(pre, id, sink) == 0);
        },
    }
    lemma_backlog_all_publish(pubs, sink);
    let n = pre.len() as int;
    assert forall|k: int|
        0 <= k < subscribe_events(subs, pubs, identity, sink).len() implies !((
    #[trigger] subscribe_events(subs, pubs, identity, sink)[k]).change is Unpublish) by {
        if k < n {
            assert(subscribe_events(subs, pubs, identity, sink)[k] == pre[k]);
            assert(pre[k].change is Supersede);
        } else {
            assert(subscribe_events(subs, pubs, identity, sink)[k] == backlog_events(
                pubs,
                sink,
            )[k - n]);
        }
    }
}

/// Law: a publisher joining a shadow earns every subscriber present at that
/// moment — their stream sinks pairwise distinct — exactly one `Publish` of
/// it on its own stream.
pub proof fn lemma_publish_reaches_each_subscriber_once(
    subs: Seq<Option<(Seq<u8>, Subscriber)>>,
    pubs: Seq<Option<(Seq<u8>, PublisherV)>>,
    identity: Seq<u8>,
    xaddr: Seq<u8>,
    j: int,
)
    requires
        forall|a: int, b: int|
            0 <= a < subs.len() && 0 <= b < subs.len() && a != b && subs[a] is Some && subs[b]
                is Some ==> #[trigger] val_at(subs, a).sink != #[trigger] val_at(subs, b).sink,
        0 <= j < subs.len(),
        subs[j] is Some,
    ensures
        count_publish_to(
            publish_events(subs, pubs, identity, xaddr),
            identity,
            val_at(subs, j).sink,
        ) == 1,
{
    let sink = val_at(subs, j).sink;
    let pre = match find_live(pubs, identity) {
        Option::Some(jp) => unpublish_to_subs(subs, identity) + seq![
            EmissionV { sink: val_at(pubs, jp).sink, change: ChangeV::Supersede },
        ],
        Option::None => Seq::empty(),
    };
    assert(publish_events(subs, pubs, identity, xaddr) == pre + publish_to_subs(
        subs,
        identity,
        xaddr,
    ));
    lemma_count_sink_unique(subs, j);
    lemma_publish_to_subs_count(subs, identity, xaddr, sink);
    lemma_count_publish_concat(pre, publish_to_subs(subs, identity, xaddr), identity, sink);
    match find_live(pubs, identity) {
        Option::Some(jp) => {
            let c = seq![EmissionV { sink: val_at(pubs, jp).sink, change: ChangeV::Supersede }];
            lemma_unpublish_no_publish(subs, identity, identity, sink);
            lemma_count_publish_concat(unpublish_to_subs(subs, identity), c, identity, sink);
            assert(c.drop_last() =~= Seq::<EmissionV>::empty());
            assert(count_publish_to(Seq::<EmissionV>::empty(), identity, sink) == 0);
            assert(c.last() == c[0]);
            assert(count_publish_to(c, identity, sink) == 0);
            assert(count_publish_to(pre, identity, sink) == 0);
        },
        Option::None => {
            assert(count_publish_to(pre, identity, sink) == 0);
        },
    }
}

} // verus!
