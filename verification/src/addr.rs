//! The bind target and the address-class check made before any socket
//! exists.
//!
//! The engine only ever binds to a multicast group address. The check is
//! pure arithmetic on the address bytes, so it is stated and proved here;
//! the caller that owns the socket converts its address into [`PeerAddr`]
//! and rejects a non-multicast target before creating anything.

use vstd::prelude::*;

verus! {

/// An IPv4 or IPv6 socket address, held as plain values.
#[derive(Clone, Copy, Debug)]
pub enum PeerAddr {
    /// Four address octets and a port.
    V4 { octets: [u8; 4], port: u16 },
    /// Eight sixteen-bit address segments and a port.
    V6 { segments: [u16; 8], port: u16 },
}

/// An error the engine reports to its caller.
#[derive(Clone, Copy, Debug, PartialEq, Eq, Structural)]
pub enum PeerError {
    /// The bind target is not in the multicast address class.
    NotMulticast,
}

impl PeerAddr {
    /// Whether the address lies in the multicast class: first octet 224
    /// through 239 for IPv4, first byte 0xff for IPv6.
    pub open spec fn is_multicast_spec(self) -> bool {
        match self {
            PeerAddr::V4 { octets, .. } => 224 <= octets[0] <= 239,
            PeerAddr::V6 { segments, .. } => segments[0] & 0xff00 == 0xff00,
        }
    }

    /// Decides membership in the multicast address class.
    pub fn is_multicast(&self) -> (r: bool)
        ensures
            r == self.is_multicast_spec(),
    {
        match self {
            PeerAddr::V4 { octets, .. } => {
                let first = octets[0];
                224 <= first && first <= 239
            },
            PeerAddr::V6 { segments, .. } => {
                let first = segments[0];
                first & 0xff00 == 0xff00
            },
        }
    }
}

/// Accepts a bind target exactly when it is a multicast address; a
/// non-multicast target is rejected with the address-class error before
/// any socket work starts.
pub fn validate_bind_addr(addr: &PeerAddr) -> (r: Result<(), PeerError>)
    ensures
        r is Ok <==> addr.is_multicast_spec(),
        !addr.is_multicast_spec() ==> r == Err::<(), PeerError>(PeerError::NotMulticast),
{
    if addr.is_multicast() {
        Ok(())
    } else {
        Err(PeerError::NotMulticast)
    }
}

} // verus!
