//! A rendezvous and connection-brokering service for a peer-to-peer overlay:
//! peers publish themselves on, or subscribe to, anonymous 32-byte "shadow"
//! addresses, and the broker introduces subscribers to publishers and relays
//! their handshake over a proxied route.
//!
//! The crate models every broker actor (shadow registry, broker table, peer
//! session, RPC service) as a state machine over plain values: each operation
//! mutates the actor's state and returns the change events that have to be
//! delivered to the affected streams.  Delivery itself (sockets, channels,
//! timers) is left to the embedding program.

pub mod broker;
pub mod ident;
pub mod peer;
pub mod proto;
pub mod ptrmap;
pub mod replay;
pub mod service;
pub mod shadow;

use vstd::prelude::*;

verus! {

/// The error kinds a broker request can surface.
#[derive(Clone, Copy, Debug, PartialEq, Eq, Structural)]
pub enum BrokerError {
    /// A shadow address or identity field does not hold exactly 32 bytes.
    BadAddress,
    /// A publisher's signed address is structurally invalid.
    BadSignature,
    /// The connect replay guard rejected a stale timestamp.  On the wire
    /// this is folded into the deny response, never surfaced as an error.
    ReplayedTimestamp,
    /// The connect target has no live publish registration.  Folded into
    /// the deny response as well, so the two cases read the same.
    PeerUnavailable,
    /// A change-stream sink has gone away.  Raised by the embedding
    /// program's delivery loop; fan-out itself never aborts on it.
    DownstreamChannelClosed,
    /// An opaque failure reported by the transport endpoint.
    TransportError,
}

/// Byte-wise equality of two byte strings.
pub fn bytes_eq(a: &Vec<u8>, b: &Vec<u8>) -> (r: bool)
    ensures
        r == (a@ == b@),
{
    if a.len() != b.len() {
        return false;
    }
    let mut i: usize = 0;
    while i < a.len()
        invariant
            i <= a@.len(),
            a@.len() == b@.len(),
            forall|k: int| 0 <= k < i ==> a@[k] == b@[k],
        decreases a@.len() - i,
    {
        if a[i] != b[i] {
            return false;
        }
        i = i + 1;
    }
    proof {
        assert(a@ =~= b@);
    }
    true
}

/// An element-by-element copy of a byte string.
pub fn bytes_clone(a: &Vec<u8>) -> (r: Vec<u8>)
    ensures
        r@ == a@,
{
    let mut r: Vec<u8> = Vec::new();
    let mut i: usize = 0;
    while i < a.len()
        invariant
            i <= a@.len(),
            r@ == a@.take(i as int),
        decreases a@.len() - i,
    {
        r.push(a[i]);
        proof {
            assert(a@.take(i + 1 as int) =~= a@.take(i as int).push(a@[i as int]));
        }
        i = i + 1;
    }
    proof {
        assert(a@.take(a@.len() as int) =~= a@);
    }
    r
}

} // verus!
