//! The broker's wire-level vocabulary: the four RPC request shapes, the
//! connect responses, and the change events that subscribe and publish
//! streams carry.  Byte fields are kept as plain byte strings; their
//! protobuf framing is the transport's concern.

use vstd::prelude::*;

verus! {

/// Where a candidate path to a peer was observed.
#[derive(Clone, Copy, Debug, PartialEq, Eq, Structural)]
pub enum PathCategory {
    /// A peer-local interface address.
    Local,
    /// The public-reflexive address the broker observed.
    Internet,
    /// The broker's own address, appended by the connecting client.
    BrokerOrigin,
}

/// A candidate network path to a peer: a category and a textual socket
/// address.
#[derive(Debug)]
pub struct Path {
    pub category: PathCategory,
    pub ipaddr: Vec<u8>,
}

/// The mathematical image of a `Path`.
#[verifier::ext_equal]
pub struct PathV {
    pub category: PathCategory,
    pub ipaddr: Seq<u8>,
}

impl View for Path {
    type V = PathV;

    open spec fn view(&self) -> PathV {
        PathV { category: self.category, ipaddr: self.ipaddr@ }
    }
}

/// The mathematical image of a list of paths.
pub open spec fn paths_view(s: Seq<Path>) -> Seq<PathV> {
    s.map_values(|p: Path| p@)
}

/// One notification on a change stream.
#[derive(Debug)]
pub enum Change {
    /// A publisher is present on the shadow, with its signed address.
    Publish { identity: Vec<u8>, xaddr: Vec<u8> },
    /// A publisher has left the shadow.
    Unpublish { identity: Vec<u8> },
    /// A newer registration under the same identity replaced this stream's.
    Supersede,
}

/// The mathematical image of a `Change`.
#[verifier::ext_equal]
pub enum ChangeV {
    Publish { identity: Seq<u8>, xaddr: Seq<u8> },
    Unpublish { identity: Seq<u8> },
    Supersede,
}

impl View for Change {
    type V = ChangeV;

    open spec fn view(&self) -> ChangeV {
        match self {
            Change::Publish { identity, xaddr } => ChangeV::Publish {
                identity: identity@,
                xaddr: xaddr@,
            },
            Change::Unpublish { identity } => ChangeV::Unpublish { identity: identity@ },
            Change::Supersede => ChangeV::Supersede,
        }
    }
}

/// A change event addressed to one stream sink.
#[derive(Debug)]
pub struct Emission {
    pub sink: u64,
    pub change: Change,
}

/// The mathematical image of an `Emission`.
#[verifier::ext_equal]
pub struct EmissionV {
    pub sink: u64,
    pub change: ChangeV,
}

impl View for Emission {
    type V = EmissionV;

    open spec fn view(&self) -> EmissionV {
        EmissionV { sink: self.sink, change: self.change@ }
    }
}

/// The mathematical image of a list of emissions.
pub open spec fn emissions_view(s: Seq<Emission>) -> Seq<EmissionV> {
    s.map_values(|e: Emission| e@)
}

/// Asks to watch a shadow; the filter is accepted but reserved.
#[derive(Debug)]
pub struct SubscribeRequest {
    pub shadow: Vec<u8>,
    pub filter: Vec<u8>,
}

/// Asks to advertise availability on a shadow under a signed address.
#[derive(Debug)]
pub struct PublishRequest {
    pub shadow: Vec<u8>,
    pub xaddr: Vec<u8>,
}

/// Asks the broker to introduce the caller to a named publisher.
#[derive(Debug)]
pub struct ConnectRequest {
    pub identity: Vec<u8>,
    pub timestamp: u64,
    pub handshake: Vec<u8>,
    pub paths: Vec<Path>,
}

/// The single head item of a connect stream.
#[derive(Debug)]
pub struct ConnectResponse {
    pub ok: bool,
    pub handshake: Vec<u8>,
    pub route: u64,
    pub paths: Vec<Path>,
}

/// The mathematical image of a `ConnectResponse`.
#[verifier::ext_equal]
pub struct ConnectResponseV {
    pub ok: bool,
    pub handshake: Seq<u8>,
    pub route: u64,
    pub paths: Seq<PathV>,
}

impl View for ConnectResponse {
    type V = ConnectResponseV;

    open spec fn view(&self) -> ConnectResponseV {
        ConnectResponseV {
            ok: self.ok,
            handshake: self.handshake@,
            route: self.route,
            paths: paths_view(self.paths@),
        }
    }
}

/// The deny answer: `ok` false with every other field empty, used both for
/// a rejected replay and for an unknown or refusing peer so that callers
/// cannot tell the cases apart.
pub open spec fn spec_deny_response() -> ConnectResponseV {
    ConnectResponseV { ok: false, handshake: Seq::empty(), route: 0, paths: Seq::empty() }
}

impl ConnectResponse {
    /// Builds the deny answer.
    pub fn deny() -> (r: ConnectResponse)
        ensures
            r@ =~= spec_deny_response(),
    {
        let r = ConnectResponse { ok: false, handshake: Vec::new(), route: 0, paths: Vec::new() };
        proof {
            assert(paths_view(r.paths@) =~= Seq::<PathV>::empty());
        }
        r
    }
}

/// The broker-to-publisher side of connect: who is calling, the replayed
/// handshake, the proxied route, and the caller's candidate paths.
#[derive(Debug)]
pub struct PeerConnectRequest {
    pub identity: Vec<u8>,
    pub timestamp: u64,
    pub handshake: Vec<u8>,
    pub route: u64,
    pub paths: Vec<Path>,
}

/// The mathematical image of a `PeerConnectRequest`.
#[verifier::ext_equal]
pub struct PeerConnectRequestV {
    pub identity: Seq<u8>,
    pub timestamp: u64,
    pub handshake: Seq<u8>,
    pub route: u64,
    pub paths: Seq<PathV>,
}

impl View for PeerConnectRequest {
    type V = PeerConnectRequestV;

    open spec fn view(&self) -> PeerConnectRequestV {
        PeerConnectRequestV {
            identity: self.identity@,
            timestamp: self.timestamp,
            handshake: self.handshake@,
            route: self.route,
            paths: paths_view(self.paths@),
        }
    }
}

/// The publisher's answer to a peer-connect, relayed back to the caller.
#[derive(Debug)]
pub struct PeerConnectResponse {
    pub ok: bool,
    pub handshake: Vec<u8>,
    pub paths: Vec<Path>,
}

/// The mathematical image of a `PeerConnectResponse`.
#[verifier::ext_equal]
pub struct PeerConnectResponseV {
    pub ok: bool,
    pub handshake: Seq<u8>,
    pub paths: Seq<PathV>,
}

impl View for PeerConnectResponse {
    type V = PeerConnectResponseV;

    open spec fn view(&self) -> PeerConnectResponseV {
        PeerConnectResponseV {
            ok: self.ok,
            handshake: self.handshake@,
            paths: paths_view(self.paths@),
        }
    }
}

/// Asks the broker to advance the statistics epoch.
#[derive(Debug)]
pub struct EpochSyncRequest {
    pub epoch: u64,
}

} // verus!
