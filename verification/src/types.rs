//! The data the derivation works over: IPv6 addresses as their eight 16-bit
//! segments, the derived parameter set, and the error taxonomy.

use vstd::prelude::*;

verus! {

/// An IPv6 address, held as its eight 16-bit segments in order.
#[derive(Clone, Copy, Debug, PartialEq, Eq)]
pub struct Ipv6Address {
    pub segments: [u16; 8],
}

impl View for Ipv6Address {
    type V = Seq<u16>;

    open spec fn view(&self) -> Seq<u16> {
        self.segments@
    }
}

impl Ipv6Address {
    pub fn new(segments: [u16; 8]) -> (r: Ipv6Address)
        ensures
            r@ == segments@,
    {
        Ipv6Address { segments }
    }

    /// The byte at octet position `i` (big-endian within each segment),
    /// as the textual form of the address orders its bytes.
    pub open spec fn spec_octet(self, i: int) -> u8
        recommends
            0 <= i < 16,
    {
        if i % 2 == 0 {
            (self@[i / 2] / 0x100) as u8
        } else {
            (self@[i / 2] % 0x100) as u8
        }
    }
}

/// Why a derivation or an exclusion request was rejected.
#[derive(Clone, Copy, Debug, PartialEq, Eq, Structural)]
pub enum MapEError {
    /// The leading two segments match no known provider prefix.
    UnknownPrefix { segment0: u16, segment1: u16 },
    /// No border-relay range covers the address's /31-aligned prefix.
    UnrecognizedPrefix,
    /// A port requested for exclusion lies in none of the current ranges.
    PortNotInRange { port: u16 },
}

} // verus!
