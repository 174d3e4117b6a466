//! The prefix resolver: static provisioning tables that map the leading two
//! segments of a customer IPv6 address to a two-octet IPv4 prefix and,
//! independently, to a border-relay IPv6 address.

use vstd::prelude::*;

use crate::types::Ipv6Address;
use crate::types::MapEError;

verus! {

/// The IPv4-prefix table: an exact match on the first two segments yields
/// the two most-significant octets of the mapped IPv4 address.
pub open spec fn spec_ipv4_prefix(seg0: u16, seg1: u16) -> Option<(u8, u8)> {
    if seg0 == 0x2404 && seg1 == 0x7a80 {
        Some((133u8, 200u8))
    } else if seg0 == 0x2404 && seg1 == 0x7a84 {
        Some((133u8, 206u8))
    } else if seg0 == 0x240b && seg1 == 0x10 {
        Some((106u8, 72u8))
    } else if seg0 == 0x240b && seg1 == 0x11 {
        Some((106u8, 73u8))
    } else if seg0 == 0x240b && seg1 == 0x12 {
        Some((14u8, 8u8))
    } else if seg0 == 0x240b && seg1 == 0x250 {
        Some((14u8, 10u8))
    } else if seg0 == 0x240b && seg1 == 0x251 {
        Some((14u8, 11u8))
    } else if seg0 == 0x240b && seg1 == 0x252 {
        Some((14u8, 12u8))
    } else if seg0 == 0x240b && seg1 == 0x253 {
        Some((14u8, 13u8))
    } else {
        None
    }
}

/// The first two segments concatenated into a 32-bit value with its least
/// significant bit cleared: border-relay assignment is defined over
/// /31-aligned prefixes.
pub open spec fn spec_prefix31(seg0: u16, seg1: u16) -> int {
    seg0 * 0x10000 + (seg1 - seg1 % 2)
}

/// The border-relay table: each /30-equivalent range of aligned prefixes
/// maps to one fixed relay address.
pub open spec fn spec_br_segments(seg0: u16, seg1: u16) -> Option<Seq<u16>> {
    let p = spec_prefix31(seg0, seg1);
    if 0x24047a80 <= p < 0x24047a84 {
        Some(seq![0x2001u16, 0x260, 0x700, 0x1, 0, 0, 0x1, 0x275])
    } else if 0x24047a84 <= p < 0x24047a88 {
        Some(seq![0x2001u16, 0x260, 0x700, 0x1, 0, 0, 0x1, 0x276])
    } else if (0x240b0010 <= p < 0x240b0014) || (0x240b0250 <= p < 0x240b0254) {
        Some(seq![0x2404u16, 0x9200, 0x225, 0x100, 0, 0, 0, 0x64])
    } else {
        None
    }
}

/// Looks the leading two segments up in the IPv4-prefix table.
pub fn ipv4_prefix(seg0: u16, seg1: u16) -> (r: Result<(u8, u8), MapEError>)
    ensures
        spec_ipv4_prefix(seg0, seg1) matches Some(p) ==> r == Ok::<(u8, u8), MapEError>(p),
        spec_ipv4_prefix(seg0, seg1) is None ==> r == Err::<(u8, u8), MapEError>(
            MapEError::UnknownPrefix { segment0: seg0, segment1: seg1 },
        ),
{
    match (seg0, seg1) {
        (0x2404, 0x7a80) => Ok((133, 200)),
        (0x2404, 0x7a84) => Ok((133, 206)),
        (0x240b, 0x10) => Ok((106, 72)),
        (0x240b, 0x11) => Ok((106, 73)),
        (0x240b, 0x12) => Ok((14, 8)),
        (0x240b, 0x250) => Ok((14, 10)),
        (0x240b, 0x251) => Ok((14, 11)),
        (0x240b, 0x252) => Ok((14, 12)),
        (0x240b, 0x253) => Ok((14, 13)),
        _ => Err(MapEError::UnknownPrefix { segment0: seg0, segment1: seg1 }),
    }
}

/// Looks the address's /31-aligned prefix up in the border-relay table.
pub fn br_address(seg0: u16, seg1: u16) -> (r: Result<Ipv6Address, MapEError>)
    ensures
        spec_br_segments(seg0, seg1) matches Some(br) ==> (r matches Ok(a) && a@ == br),
        spec_br_segments(seg0, seg1) is None ==> r == Err::<Ipv6Address, MapEError>(
            MapEError::UnrecognizedPrefix,
        ),
{
    let low: u16 = seg1 - seg1 % 2;
    let p: u32 = (seg0 as u32) * 0x10000 + (low as u32);
    assert(p == spec_prefix31(seg0, seg1));
    let r = if 0x24047a80 <= p && p < 0x24047a84 {
        Ok(Ipv6Address::new([0x2001, 0x260, 0x700, 0x1, 0, 0, 0x1, 0x275]))
    } else if 0x24047a84 <= p && p < 0x24047a88 {
        Ok(Ipv6Address::new([0x2001, 0x260, 0x700, 0x1, 0, 0, 0x1, 0x276]))
    } else if (0x240b0010 <= p && p < 0x240b0014) || (0x240b0250 <= p && p < 0x240b0254) {
        Ok(Ipv6Address::new([0x2404, 0x9200, 0x225, 0x100, 0, 0, 0, 0x64]))
    } else {
        Err(MapEError::UnrecognizedPrefix)
    };
    proof {
        if let Ok(a) = r {
            assert(a@ =~= spec_br_segments(seg0, seg1)->Some_0);
        }
    }
    r
}

} // verus!
