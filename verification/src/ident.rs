//! The key material the broker routes by: identities (peer public keys),
//! shadow addresses, and signed shadow addresses.  The broker treats all of
//! them as opaque byte strings of a fixed shape; the cryptography that
//! produces and verifies them belongs to the identity layer outside this
//! crate.

use vstd::prelude::*;
use crate::BrokerError;
use crate::bytes_clone;

verus! {

/// The number of bytes in an identity or a shadow address.
pub const KEY_LEN: usize = 32;

/// The number of bytes in a signed shadow address: the 32-byte address
/// followed by a 64-byte signature over it.
pub const XADDR_LEN: usize = 96;

/// A peer's long-term public key.  Equality is byte-wise.
#[derive(Debug)]
pub struct Identity {
    pub bytes: Vec<u8>,
}

/// A 32-byte opaque rendezvous topic.  Equality is byte-wise.
#[derive(Debug)]
pub struct Address {
    pub bytes: Vec<u8>,
}

/// A publisher's signed assertion of membership on a shadow: the shadow
/// address followed by a signature.  The broker only checks the shape and
/// forwards the blob; signature verification is the subscribers' concern.
#[derive(Debug)]
pub struct SignedAddress {
    pub bytes: Vec<u8>,
}

impl View for Identity {
    type V = Seq<u8>;

    open spec fn view(&self) -> Seq<u8> {
        self.bytes@
    }
}

impl View for Address {
    type V = Seq<u8>;

    open spec fn view(&self) -> Seq<u8> {
        self.bytes@
    }
}

impl View for SignedAddress {
    type V = Seq<u8>;

    open spec fn view(&self) -> Seq<u8> {
        self.bytes@
    }
}

impl Identity {
    /// A well-formed identity holds exactly 32 bytes.
    pub open spec fn wf(&self) -> bool {
        self@.len() == KEY_LEN
    }

    /// Parses an identity from raw bytes; any length but 32 is refused.
    pub fn from_bytes(b: &Vec<u8>) -> (r: Result<Identity, BrokerError>)
        ensures
            b@.len() == KEY_LEN as int ==> (r matches Ok(id) && id@ == b@ && id.wf()),
            b@.len() != KEY_LEN as int ==> (r matches Err(e) && e == BrokerError::BadAddress),
    {
        if b.len() == KEY_LEN {
            Ok(Identity { bytes: bytes_clone(b) })
        } else {
            Err(BrokerError::BadAddress)
        }
    }

    /// A byte-for-byte copy.
    pub fn dup(&self) -> (r: Identity)
        ensures
            r@ == self@,
    {
        Identity { bytes: bytes_clone(&self.bytes) }
    }
}

impl Address {
    /// A well-formed address holds exactly 32 bytes.
    pub open spec fn wf(&self) -> bool {
        self@.len() == KEY_LEN
    }

    /// Parses a shadow address from raw bytes; any length but 32 is refused.
    pub fn from_bytes(b: &Vec<u8>) -> (r: Result<Address, BrokerError>)
        ensures
            b@.len() == KEY_LEN as int ==> (r matches Ok(a) && a@ == b@ && a.wf()),
            b@.len() != KEY_LEN as int ==> (r matches Err(e) && e == BrokerError::BadAddress),
    {
        if b.len() == KEY_LEN {
            Ok(Address { bytes: bytes_clone(b) })
        } else {
            Err(BrokerError::BadAddress)
        }
    }

    /// A byte-for-byte copy.
    pub fn dup(&self) -> (r: Address)
        ensures
            r@ == self@,
    {
        Address { bytes: bytes_clone(&self.bytes) }
    }
}

impl SignedAddress {
    /// A well-formed signed address holds the address and its signature.
    pub open spec fn wf(&self) -> bool {
        self@.len() == XADDR_LEN
    }

    /// Parses a signed address from raw bytes; only the shape is checked,
    /// and a blob of the wrong size fails with `BadSignature`.
    pub fn from_bytes(b: &Vec<u8>) -> (r: Result<SignedAddress, BrokerError>)
        ensures
            b@.len() == XADDR_LEN as int ==> (r matches Ok(x) && x@ == b@ && x.wf()),
            b@.len() != XADDR_LEN as int ==> (r matches Err(e) && e == BrokerError::BadSignature),
    {
        if b.len() == XADDR_LEN {
            Ok(SignedAddress { bytes: bytes_clone(b) })
        } else {
            Err(BrokerError::BadSignature)
        }
    }

    /// The wire form of the signed address.
    pub fn to_vec(&self) -> (r: Vec<u8>)
        ensures
            r@ == self@,
    {
        bytes_clone(&self.bytes)
    }
}

} // verus!
