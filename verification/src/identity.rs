//! Identifier types: node addresses, network ids, fingerprints, and
//! the transport endpoint a request arrived from.

use vstd::prelude::*;

verus! {

/// Number of bytes in a fingerprint.
pub const FINGERPRINT_SIZE: usize = 48;

/// Opaque node identifier derived from a node's public identity.
/// Stable and globally unique within the identity namespace; the
/// value fits in 40 bits.
#[derive(Clone, Copy, PartialEq, Eq, Structural, Debug, Hash)]
pub struct Address {
    pub value: u64,
}

impl Address {
    /// A valid address fits in 40 bits.
    pub open spec fn wf(self) -> bool {
        self.value < 0x100_0000_0000u64
    }

    /// Runtime form of `wf`.
    pub fn is_wf(&self) -> (r: bool)
        ensures
            r == self.wf(),
    {
        self.value < 0x100_0000_0000u64
    }
}

/// Opaque 64-bit identifier of a virtual network.  Immutable once
/// assigned.
#[derive(Clone, Copy, PartialEq, Eq, Structural, Debug, Hash)]
pub struct NetworkId {
    pub value: u64,
}

/// Fixed-length content hash binding an `Address` to the full public
/// identity material presented by a node.  The digest itself is
/// computed by the cryptographic primitive layer below this core;
/// this type carries its bytes.
///
/// Fingerprints are identity material: compare them only through
/// `crate::secure_eq`, never with `==`.
#[derive(Clone, PartialEq, Eq, Debug)]
pub struct Fingerprint {
    pub bytes: Vec<u8>,
}

impl View for Fingerprint {
    type V = Seq<u8>;

    open spec fn view(&self) -> Seq<u8> {
        self.bytes@
    }
}

impl Fingerprint {
    /// A well-formed fingerprint holds exactly `FINGERPRINT_SIZE` bytes.
    pub open spec fn wf(self) -> bool {
        self@.len() == FINGERPRINT_SIZE
    }

    /// Runtime form of `wf`.
    pub fn is_wf(&self) -> (r: bool)
        ensures
            r == self.wf(),
    {
        self.bytes.len() == FINGERPRINT_SIZE
    }

    /// A fresh fingerprint holding the same bytes.
    pub fn duplicate(&self) -> (r: Fingerprint)
        ensures
            r@ == self@,
    {
        Fingerprint { bytes: crate::util::copy_bytes(&self.bytes) }
    }
}

/// The transport endpoint a request arrived from, in plain form: an
/// IPv4 address and a port.  The transport collaborator, which owns
/// the real socket types, converts to and from this form.
#[derive(Clone, Copy, PartialEq, Eq, Structural, Debug)]
pub struct Endpoint {
    pub ip0: u8,
    pub ip1: u8,
    pub ip2: u8,
    pub ip3: u8,
    pub port: u16,
}

} // verus!
