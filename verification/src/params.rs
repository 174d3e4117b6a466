//! The parameter deriver: from a full customer IPv6 address to the complete
//! MAP-E parameter set, and exclusion of ports from a derived set.

use vstd::prelude::*;

use crate::ports::default_port_ranges;
use crate::ports::exclude_port;
use crate::ports::in_ranges;
use crate::ports::ranges_wf;
use crate::ports::spec_exclude;
use crate::ports::spec_port_ranges;
use crate::resolve::br_address;
use crate::resolve::ipv4_prefix;
use crate::resolve::spec_br_segments;
use crate::resolve::spec_ipv4_prefix;
use crate::types::Ipv6Address;
use crate::types::MapEError;

verus! {

/// The Port Set Identifier: octet 6 of the source address, the high byte
/// of its fourth segment.
pub open spec fn spec_psid(segs: Seq<u16>) -> u8 {
    (segs[3] / 0x100) as u8
}

/// The mapped IPv4 address: the table's two prefix octets, then octets 4
/// and 5 of the source address (its third segment, split into bytes).
pub open spec fn spec_ipv4_octets(segs: Seq<u16>, prefix: (u8, u8)) -> Seq<u8> {
    seq![prefix.0, prefix.1, (segs[2] / 0x100) as u8, (segs[2] % 0x100) as u8]
}

/// The CE address: the source's two leading segments, then the derived
/// IPv4 address and PSID re-embedded into the interface identifier per the
/// provider's convention (octets 2 and 3 of the IPv4 address appear twice;
/// that repetition is the convention, not an accident).
pub open spec fn spec_edge_segments(segs: Seq<u16>, ip: Seq<u8>, psid: u8) -> Seq<u16> {
    seq![
        segs[0],
        segs[1],
        (ip[2] * 0x100 + ip[3]) as u16,
        (psid * 0x100) as u16,
        ip[0] as u16,
        (ip[1] * 0x100 + ip[2]) as u16,
        (ip[3] * 0x100) as u16,
        (psid * 0x100) as u16,
    ]
}

/// Everything MAP-E needs to configure the tunnel, derived once from one
/// source address; only `port_ranges` is ever replaced afterwards.
#[derive(Clone, Debug)]
pub struct MapEParameters {
    /// The input address, unmodified.
    pub source_address: Ipv6Address,
    /// The customer's public IPv4 address.
    pub ipv4_address: [u8; 4],
    /// The IPv6 endpoint the tunnel is built toward.
    pub border_relay_address: Ipv6Address,
    /// The CE address: the local tunnel endpoint's IPv6 address.
    pub edge_address: Ipv6Address,
    /// The Port Set Identifier.
    pub psid: u8,
    /// The allowed external port ranges, inclusive on both ends.
    pub port_ranges: Vec<(u16, u16)>,
}

impl MapEParameters {
    /// A parameter set is well formed when its port ranges are.
    pub open spec fn wf(self) -> bool {
        ranges_wf(self.port_ranges@)
    }

    /// What a correctly derived parameter set for `addr` holds, given the
    /// resolver's outputs for its leading segments.
    pub open spec fn derived_from(self, addr: Ipv6Address, prefix: (u8, u8), br: Seq<u16>) -> bool {
        &&& self.source_address == addr
        &&& self.psid == spec_psid(addr@)
        &&& self.ipv4_address@ == spec_ipv4_octets(addr@, prefix)
        &&& self.border_relay_address@ == br
        &&& self.edge_address@ == spec_edge_segments(
            addr@,
            spec_ipv4_octets(addr@, prefix),
            spec_psid(addr@),
        )
        &&& self.port_ranges@ == spec_port_ranges(spec_psid(addr@))
    }

    /// Replaces the port ranges with the result of excluding `port`, or
    /// reports `PortNotInRange` and leaves the whole value untouched.
    pub fn exclude_port(&mut self, port: u16) -> (r: Result<(), MapEError>)
        requires
            old(self).wf(),
        ensures
            final(self).wf(),
            in_ranges(old(self).port_ranges@, port) ==> (r is Ok && final(self).port_ranges@
                == spec_exclude(old(self).port_ranges@, port)),
            !in_ranges(old(self).port_ranges@, port) ==> (r == Err::<(), MapEError>(
                MapEError::PortNotInRange { port },
            ) && *final(self) == *old(self)),
            final(self).source_address == old(self).source_address,
            final(self).ipv4_address == old(self).ipv4_address,
            final(self).border_relay_address == old(self).border_relay_address,
            final(self).edge_address == old(self).edge_address,
            final(self).psid == old(self).psid,
    {
        match exclude_port(&self.port_ranges, port) {
            Ok(next) => {
                self.port_ranges = next;
                Ok(())
            },
            Err(e) => Err(e),
        }
    }
}

/// Law: for any address whose leading segments match the prefix table,
/// the derived IPv4 address opens with the table's two configured octets
/// and closes with octets 4 and 5 of the source address.
pub proof fn lemma_ipv4_address_shape(addr: Ipv6Address, prefix: (u8, u8))
    requires
        spec_ipv4_prefix(addr@[0], addr@[1]) == Some(prefix),
    ensures
        spec_ipv4_octets(addr@, prefix).len() == 4,
        spec_ipv4_octets(addr@, prefix)[0] == prefix.0,
        spec_ipv4_octets(addr@, prefix)[1] == prefix.1,
        spec_ipv4_octets(addr@, prefix)[2] == addr.spec_octet(4),
        spec_ipv4_octets(addr@, prefix)[3] == addr.spec_octet(5),
{
}

/// Law: the PSID is octet 6 of the source address, for every address,
/// whether or not either table lookup would succeed for it.
pub proof fn lemma_psid_is_octet_six(addr: Ipv6Address)
    ensures
        spec_psid(addr@) == addr.spec_octet(6),
{
}

/// Derives the full parameter set for `addr`, or fails with
/// `UnknownPrefix` when the leading segments match no table entry, else
/// with `UnrecognizedPrefix` when no border-relay range covers them.
pub fn calculate(addr: Ipv6Address) -> (r: Result<MapEParameters, MapEError>)
    ensures
        match spec_ipv4_prefix(addr@[0], addr@[1]) {
            None => r == Err::<MapEParameters, MapEError>(
                MapEError::UnknownPrefix { segment0: addr@[0], segment1: addr@[1] },
            ),
            Some(prefix) => match spec_br_segments(addr@[0], addr@[1]) {
                None => r == Err::<MapEParameters, MapEError>(MapEError::UnrecognizedPrefix),
                Some(br) => r matches Ok(p) && p.derived_from(addr, prefix, br) && p.wf(),
            },
        },
{
    let seg0: u16 = addr.segments[0];
    let seg1: u16 = addr.segments[1];
    let prefix = match ipv4_prefix(seg0, seg1) {
        Ok(p) => p,
        Err(e) => {
            return Err(e);
        },
    };
    let br = match br_address(seg0, seg1) {
        Ok(b) => b,
        Err(e) => {
            return Err(e);
        },
    };
    let seg2: u16 = addr.segments[2];
    let seg3: u16 = addr.segments[3];
    let psid: u8 = (seg3 / 0x100) as u8;
    let oct4: u8 = (seg2 / 0x100) as u8;
    let oct5: u8 = (seg2 % 0x100) as u8;
    let ipv4: [u8; 4] = [prefix.0, prefix.1, oct4, oct5];
    let edge = Ipv6Address::new(
        [
            seg0,
            seg1,
            (oct4 as u16) * 0x100 + (oct5 as u16),
            (psid as u16) * 0x100,
            prefix.0 as u16,
            (prefix.1 as u16) * 0x100 + (oct4 as u16),
            (oct5 as u16) * 0x100,
            (psid as u16) * 0x100,
        ],
    );
    let port_ranges = default_port_ranges(psid);
    proof {
        assert(ipv4@ =~= spec_ipv4_octets(addr@, prefix));
        assert(edge@ =~= spec_edge_segments(addr@, spec_ipv4_octets(addr@, prefix), psid));
        crate::ports::lemma_port_ranges_wf(psid);
    }
    Ok(
        MapEParameters {
            source_address: addr,
            ipv4_address: ipv4,
            border_relay_address: br,
            edge_address: edge,
            psid,
            port_ranges,
        },
    )
}

} // verus!
