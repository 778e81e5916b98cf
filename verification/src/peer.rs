//! The per-connected-peer actor: it wraps the peer's signalling channel and
//! performs the outbound peer-connect RPC.  Sending on the channel is the
//! embedding program's work; this module owns what the broker promises about
//! the exchange: the response handed back to the caller carries, appended
//! under `Internet`, the broker's own observed address of the peer, which
//! the remote side cannot otherwise know.

use vstd::prelude::*;
use crate::bytes_clone;
use crate::proto::Path;
use crate::proto::PathCategory;
use crate::proto::PathV;
use crate::proto::PeerConnectRequest;
use crate::proto::PeerConnectResponse;
use crate::proto::paths_view;

verus! {

/// The commands a peer session's mailbox accepts.
pub enum Command {
    Connect { req: PeerConnectRequest },
}

/// The broker-side state of one connected peer: the endpoint the broker
/// observed the peer's session on.
#[derive(Debug)]
pub struct Peer {
    pub ipaddr: Vec<u8>,
}

/// A path entry carrying an observed address under `Internet`.
pub open spec fn internet_path(addr: Seq<u8>) -> PathV {
    PathV { category: PathCategory::Internet, ipaddr: addr }
}

/// Appends a path with the given address under `Internet`.
pub fn push_internet_path(paths: &mut Vec<Path>, addr: &Vec<u8>)
    ensures
        paths_view(final(paths)@) =~~= paths_view(old(paths)@).push(internet_path(addr@)),
{
    let p = Path { category: PathCategory::Internet, ipaddr: bytes_clone(addr) };
    let ghost gp = p@;
    paths.push(p);
    proof {
        assert(paths_view(paths@) =~~= paths_view(old(paths)@).push(gp));
    }
}

impl Peer {
    /// A session observed on this endpoint.
    pub fn new(ipaddr: Vec<u8>) -> (r: Peer)
        ensures
            r.ipaddr@ == ipaddr@,
    {
        Peer { ipaddr }
    }

    /// Completes an outbound peer-connect: before the response returns to
    /// the caller, the broker's observed address of this peer is appended
    /// to the path list under `Internet`.
    pub fn accept_connect_response(&self, resp: PeerConnectResponse) -> (r: PeerConnectResponse)
        ensures
            r.ok == resp.ok,
            r.handshake@ == resp.handshake@,
            paths_view(r.paths@) =~~= paths_view(resp.paths@).push(internet_path(self.ipaddr@)),
    {
        let mut resp = resp;
        push_internet_path(&mut resp.paths, &self.ipaddr);
        resp
    }
}

} // verus!
