//! One inbound session's service context: the RPC dispatcher that routes
//! the four broker methods.  It holds the caller's authenticated identity,
//! the endpoint the session was observed on, the handle of the session's
//! peer actor, the trusted coordinator set, and the session's epoch.
//!
//! The connect path is a little state machine: `connect` decides,
//! before any outside work, whether to answer a deny or to forward; the
//! embedding program then allocates the proxy route and performs the
//! peer-connect RPC; `peer_connect_request` and `connect_resolve` pin down
//! what is sent and what the caller is answered.

use vstd::prelude::*;
use crate::BrokerError;
use crate::bytes_clone;
use crate::bytes_eq;
use crate::broker::Broker;
use crate::broker::PeerMark;
use crate::broker::PubHandle;
use crate::broker::SubHandle;
use crate::broker::shadow_views;
use crate::broker::spec_ensure_shadow;
use crate::ident::Identity;
use crate::ident::KEY_LEN;
use crate::ident::XADDR_LEN;
use crate::peer::internet_path;
use crate::peer::push_internet_path;
use crate::proto::ConnectRequest;
use crate::proto::ConnectResponse;
use crate::proto::Emission;
use crate::proto::EpochSyncRequest;
use crate::proto::Path;
use crate::proto::PeerConnectRequest;
use crate::proto::PeerConnectResponse;
use crate::proto::PublishRequest;
use crate::proto::SubscribeRequest;
use crate::proto::emissions_view;
use crate::proto::paths_view;
use crate::proto::spec_deny_response;
use crate::ptrmap::find_live;
use crate::ptrmap::spec_insert;
use crate::ptrmap::val_at;
use crate::replay::ReplayGuard;
use crate::replay::clocks_view;
use crate::replay::spec_advance;
use crate::shadow::PublisherV;
use crate::shadow::ShadowV;
use crate::shadow::Subscriber;
use crate::shadow::publish_events;
use crate::shadow::subscribe_events;
use crate::broker::PeerInfoV;

verus! {

/// Whether an identity is in the trusted coordinator set.
pub open spec fn is_coordinator(coords: Seq<Identity>, id: Seq<u8>) -> bool {
    exists|i: int| 0 <= i < coords.len() && (#[trigger] coords[i])@ == id
}

/// Whether the set holds the identity, byte-wise.
pub fn contains_identity(coords: &Vec<Identity>, id: &Identity) -> (r: bool)
    ensures
        r == is_coordinator(coords@, id@),
{
    let mut i: usize = 0;
    while i < coords.len()
        invariant
            i <= coords@.len(),
            forall|k: int| 0 <= k < i ==> (#[trigger] coords@[k])@ != id@,
        decreases coords@.len() - i,
    {
        if bytes_eq(&coords[i].bytes, &id.bytes) {
            return true;
        }
        i = i + 1;
    }
    false
}

/// What an epochsync asks of the transport endpoint.
#[derive(Clone, Copy, Debug, PartialEq, Eq, Structural)]
pub enum EpochAction {
    /// The caller is no coordinator: answer the default empty response and
    /// touch nothing — membership is not revealed.
    Denied,
    /// Dump the endpoint's packet statistics; `clear` says whether the
    /// epoch advanced and the counters must roll over.
    Dump { clear: bool },
}

/// What the connect path decides before any outside work.
#[derive(Debug)]
pub enum ConnectStep {
    /// The replay guard rejected the timestamp: answer the deny response
    /// and end the stream without contacting anyone.
    Reject { resp: ConnectResponse },
    /// The target has no live publisher: answer the deny response,
    /// indistinguishable from a target-side reject.
    Deny { resp: ConnectResponse },
    /// Introduce the caller: allocate a proxy route from `caller_addr` to
    /// `target_addr`, then send the peer-connect to session `peer`.
    Forward {
        peer: u64,
        caller_addr: Vec<u8>,
        target_addr: Vec<u8>,
        target: Identity,
        timestamp: u64,
        handshake: Vec<u8>,
        paths: Vec<Path>,
    },
}

/// What becomes of the proxy route once the peer has answered.
#[derive(Clone, Copy, Debug, PartialEq, Eq, Structural)]
pub enum RoutePin {
    /// The response stream keeps the route alive until the caller drops
    /// its subscription.
    Pin,
    /// The peer refused: release the route at once.
    Release,
}

/// One inbound session's service context.
pub struct Srv {
    pub identity: Identity,
    pub peer: u64,
    pub ipaddr: Vec<u8>,
    pub coordinators: Vec<Identity>,
    pub epoch: u64,
}

impl Srv {
    /// Binds a freshly authenticated session: its identity, the handle of
    /// its peer actor, its observed endpoint and the coordinator set; the
    /// session's epoch starts at zero.
    pub fn new(identity: Identity, peer: u64, ipaddr: Vec<u8>, coordinators: Vec<Identity>) -> (r:
        Srv)
        ensures
            r.identity@ == identity@,
            r.peer == peer,
            r.ipaddr@ == ipaddr@,
            r.coordinators == coordinators,
            r.epoch == 0,
    {
        Srv { identity, peer, ipaddr, coordinators, epoch: 0 }
    }

    /// The epochsync RPC: a non-coordinator gets the empty answer and
    /// changes nothing; a coordinator moves the session to the requested
    /// epoch, and the statistics are cleared exactly when the epoch
    /// changed, so the returned dump covers the previous window.
    pub fn epochsync(&mut self, msg: EpochSyncRequest) -> (r: EpochAction)
        ensures
            final(self).identity == old(self).identity,
            final(self).peer == old(self).peer,
            final(self).ipaddr == old(self).ipaddr,
            final(self).coordinators == old(self).coordinators,
            !is_coordinator(old(self).coordinators@, old(self).identity@) ==> r
                == EpochAction::Denied && final(self).epoch == old(self).epoch,
            is_coordinator(old(self).coordinators@, old(self).identity@) ==> (r
                == (EpochAction::Dump { clear: old(self).epoch != msg.epoch }) && final(self).epoch
                == msg.epoch),
    {
        if !contains_identity(&self.coordinators, &self.identity) {
            return EpochAction::Denied;
        }
        let clear: bool = if self.epoch != msg.epoch {
            self.epoch = msg.epoch;
            true
        } else {
            false
        };
        EpochAction::Dump { clear }
    }

    /// The subscribe RPC: routes to the broker under the session's
    /// authenticated identity.
    pub fn subscribe(&self, broker: &mut Broker, msg: SubscribeRequest, sink: u64) -> (r: Result<
        (SubHandle, Vec<Emission>),
        BrokerError,
    >)
        requires
            old(broker).wf(),
        ensures
            final(broker).wf(),
            final(broker).peers == old(broker).peers,
            msg.shadow@.len() != KEY_LEN as int ==> (r matches Err(e) && e
                == BrokerError::BadAddress && final(broker).shadows == old(broker).shadows),
            msg.shadow@.len() == KEY_LEN as int ==> (r matches Ok(pr) && ({
                let vj = spec_ensure_shadow(shadow_views(old(broker).shadows@), msg.shadow@);
                let sh = vj.0[vj.1];
                pr.0.shadow@ == msg.shadow@ && pr.0.ptr == sh.subscribers.len()
                    && shadow_views(final(broker).shadows@) =~~= vj.0.update(
                    vj.1,
                    (ShadowV {
                        address: sh.address,
                        subscribers: spec_insert(
                            sh.subscribers,
                            self.identity@,
                            (Subscriber { sink }),
                        ).0,
                        publishers: sh.publishers,
                    }),
                ) && emissions_view(pr.1@) =~~= subscribe_events(
                    sh.subscribers,
                    sh.publishers,
                    self.identity@,
                    sink,
                )
            })),
    {
        broker.subscribe(self.identity.dup(), msg, sink)
    }

    /// The publish RPC: routes to the broker under the session's
    /// authenticated identity, peer handle and observed endpoint.
    pub fn publish(&self, broker: &mut Broker, msg: PublishRequest, sink: u64) -> (r: Result<
        ((PeerMark, PubHandle), Vec<Emission>),
        BrokerError,
    >)
        requires
            old(broker).wf(),
        ensures
            final(broker).wf(),
            msg.shadow@.len() != KEY_LEN as int ==> (r matches Err(e) && e
                == BrokerError::BadAddress && final(broker).shadows == old(broker).shadows && final(broker).peers == old(broker).peers),
            msg.shadow@.len() == KEY_LEN as int && msg.xaddr@.len() != XADDR_LEN as int ==> (r
                matches Err(e) && e == BrokerError::BadSignature && final(broker).shadows == old(broker).shadows && final(broker).peers == old(broker).peers),
            msg.shadow@.len() == KEY_LEN as int && msg.xaddr@.len() == XADDR_LEN as int ==> (r
                matches Ok(pr) && ({
                let vj = spec_ensure_shadow(shadow_views(old(broker).shadows@), msg.shadow@);
                let sh = vj.0[vj.1];
                pr.0.0.ptr == old(broker).peers@.len() && final(broker).peers@ =~~= spec_insert(
                    old(broker).peers@,
                    self.identity@,
                    (PeerInfoV { peer: self.peer, ipaddr: self.ipaddr@ }),
                ).0 && pr.0.1.shadow@ == msg.shadow@ && pr.0.1.ptr == sh.publishers.len()
                    && shadow_views(final(broker).shadows@) =~~= vj.0.update(
                    vj.1,
                    (ShadowV {
                        address: sh.address,
                        subscribers: sh.subscribers,
                        publishers: spec_insert(
                            sh.publishers,
                            self.identity@,
                            (PublisherV { sink: sink, xaddr: msg.xaddr@, ipaddr: self.ipaddr@ }),
                        ).0,
                    }),
                ) && emissions_view(pr.1@) =~~= publish_events(
                    sh.subscribers,
                    sh.publishers,
                    self.identity@,
                    msg.xaddr@,
                )
            })),
    {
        broker.publish(
            self.identity.dup(),
            self.peer,
            msg,
            sink,
            bytes_clone(&self.ipaddr),
        )
    }

    /// The first half of the connect RPC, before any outside work: the
    /// replay guard must accept the timestamp, else the caller is answered
    /// the deny response outright; the broker's observed address of the
    /// caller is appended to the candidate paths; a malformed target
    /// identity fails the RPC; a target without a live publisher earns the
    /// deny response; otherwise everything the outside steps need is handed
    /// back.
    pub fn connect(
        &self,
        guard: &mut ReplayGuard,
        broker: &Broker,
        msg: ConnectRequest,
    ) -> (r: Result<ConnectStep, BrokerError>)
        requires
            old(guard).wf(),
        ensures
            final(guard).wf(),
            ({
                let av = spec_advance(
                    clocks_view(old(guard).clocks@),
                    self.identity@,
                    msg.timestamp,
                );
                clocks_view(final(guard).clocks@) =~~= av.0 && if !av.1 {
                    r matches Ok(step) && (step matches ConnectStep::Reject { resp } && resp@
                        == spec_deny_response())
                } else if msg.identity@.len() != KEY_LEN as int {
                    r matches Err(e) && e == BrokerError::BadAddress
                } else {
                    match find_live(broker.peers@, msg.identity@) {
                        Option::None => r matches Ok(step) && (step matches ConnectStep::Deny {
                            resp,
                        } && resp@ == spec_deny_response()),
                        Option::Some(j) => r matches Ok(step) && (step
                            matches ConnectStep::Forward {
                            peer,
                            caller_addr,
                            target_addr,
                            target,
                            timestamp,
                            handshake,
                            paths,
                        } && peer == val_at(broker.peers@, j).peer && caller_addr@ == self.ipaddr@
                            && target_addr@ == val_at(broker.peers@, j).ipaddr && target@
                            == msg.identity@ && timestamp == msg.timestamp && handshake@
                            == msg.handshake@ && paths_view(paths@) =~~= paths_view(
                            msg.paths@,
                        ).push(internet_path(self.ipaddr@))),
                    }
                }
            }),
    {
        if !guard.advance(&self.identity, msg.timestamp) {
            return Ok(ConnectStep::Reject { resp: ConnectResponse::deny() });
        }
        let mut paths = msg.paths;
        push_internet_path(&mut paths, &self.ipaddr);
        let target = match Identity::from_bytes(&msg.identity) {
            Ok(t) => t,
            Err(e) => {
                return Err(e);
            },
        };
        match broker.get_peer(&target) {
            Some((peer, target_addr)) => Ok(
                ConnectStep::Forward {
                    peer,
                    caller_addr: bytes_clone(&self.ipaddr),
                    target_addr,
                    target,
                    timestamp: msg.timestamp,
                    handshake: msg.handshake,
                    paths,
                },
            ),
            None => Ok(ConnectStep::Deny { resp: ConnectResponse::deny() }),
        }
    }

    /// The peer-connect the target's session is sent once the proxy route
    /// is allocated: the caller's identity, its timestamp and handshake,
    /// the fresh route, and the candidate paths.
    pub fn peer_connect_request(&self, timestamp: u64, handshake: Vec<u8>, route: u64, paths: Vec<
        Path,
    >) -> (r: PeerConnectRequest)
        ensures
            r.identity@ == self.identity@,
            r.timestamp == timestamp,
            r.handshake@ == handshake@,
            r.route == route,
            r.paths@ == paths@,
    {
        PeerConnectRequest {
            identity: bytes_clone(&self.identity.bytes),
            timestamp,
            handshake,
            route,
            paths,
        }
    }
}

/// The last step of the connect RPC: an accepting peer earns the caller a
/// response carrying the peer's handshake and paths and the proxied route,
/// and the route stays pinned by the response stream; a refusing peer earns
/// the deny response and the route is released at once.
pub fn connect_resolve(resp: PeerConnectResponse, route: u64) -> (r: (ConnectResponse, RoutePin))
    ensures
        resp.ok ==> r.0.ok == true && r.0.handshake@ == resp.handshake@ && r.0.route == route
            && r.0.paths@ == resp.paths@ && r.1 == RoutePin::Pin,
        !resp.ok ==> r.0@ == spec_deny_response() && r.1 == RoutePin::Release,
{
    if resp.ok {
        (
            ConnectResponse { ok: true, handshake: resp.handshake, route, paths: resp.paths },
            RoutePin::Pin,
        )
    } else {
        (ConnectResponse::deny(), RoutePin::Release)
    }
}

} // verus!
