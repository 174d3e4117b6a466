//! The derivation end to end: table lookups, address packing, PSID, and
//! the default port-range set.

use mape::br_address;
use mape::calculate;
use mape::default_port_ranges;
use mape::ipv4_prefix;
use mape::Ipv6Address;
use mape::MapEError;

fn addr(segments: [u16; 8]) -> Ipv6Address {
    Ipv6Address::new(segments)
}

#[test]
fn known_address_concrete() {
    // Segments 0x2404:0x7a80, octets 4..6 = (0x01, 0x02), octet 6 = 0x05.
    let a = addr([0x2404, 0x7a80, 0x0102, 0x0500, 0, 0, 0, 0x1]);
    let p = calculate(a).unwrap();
    assert_eq!(p.ipv4_address, [133, 200, 1, 2]);
    assert_eq!(p.psid, 0x05);
    assert_eq!(p.port_ranges.len(), 15);
    assert_eq!(p.port_ranges[0], (0x1050, 0x105f));
    assert_eq!(p.port_ranges[0], (4176, 4191));
    // 2001:260:700:1::1:275
    assert_eq!(p.border_relay_address.segments, [0x2001, 0x260, 0x700, 0x1, 0, 0, 0x1, 0x275]);
    assert_eq!(p.source_address, a);
    // CE packing: segment 2 re-embeds IPv4 octets 2 and 3, segment 3 the
    // PSID, and the interface identifier repeats them per the convention.
    assert_eq!(
        p.edge_address.segments,
        [0x2404, 0x7a80, 0x0102, 0x0500, 0x0085, 0xc801, 0x0200, 0x0500]
    );
}

#[test]
fn unknown_prefix_fails() {
    let a = addr([0x1234, 0x5678, 0x0102, 0x0500, 0, 0, 0, 0x1]);
    let e = calculate(a).unwrap_err();
    assert_eq!(e, MapEError::UnknownPrefix { segment0: 0x1234, segment1: 0x5678 });
}

#[test]
fn every_table_entry_resolves() {
    let relay_a = [0x2001, 0x260, 0x700, 0x1, 0, 0, 0x1, 0x275];
    let relay_b = [0x2001, 0x260, 0x700, 0x1, 0, 0, 0x1, 0x276];
    let relay_c = [0x2404, 0x9200, 0x225, 0x100, 0, 0, 0, 0x64];
    let table: [(u16, u16, u8, u8, [u16; 8]); 9] = [
        (0x2404, 0x7a80, 133, 200, relay_a),
        (0x2404, 0x7a84, 133, 206, relay_b),
        (0x240b, 0x10, 106, 72, relay_c),
        (0x240b, 0x11, 106, 73, relay_c),
        (0x240b, 0x12, 14, 8, relay_c),
        (0x240b, 0x250, 14, 10, relay_c),
        (0x240b, 0x251, 14, 11, relay_c),
        (0x240b, 0x252, 14, 12, relay_c),
        (0x240b, 0x253, 14, 13, relay_c),
    ];
    for &(seg0, seg1, o0, o1, relay) in table.iter() {
        let a = addr([seg0, seg1, 0xbeef, 0x2a00, 0, 0, 0, 0x1]);
        let p = calculate(a).unwrap();
        // The first two octets come from the table, the last two verbatim
        // from octets 4 and 5 of the source address.
        assert_eq!(p.ipv4_address, [o0, o1, 0xbe, 0xef]);
        assert_eq!(p.border_relay_address.segments, relay);
        assert_eq!(p.psid, 0x2a);
    }
}

#[test]
fn prefix_lookup_alone() {
    assert_eq!(ipv4_prefix(0x240b, 0x12), Ok((14, 8)));
    assert_eq!(
        ipv4_prefix(0x240b, 0x14),
        Err(MapEError::UnknownPrefix { segment0: 0x240b, segment1: 0x14 })
    );
}

#[test]
fn br_lookup_alone() {
    let b = br_address(0x2404, 0x7a85).unwrap();
    // 0x24047a85 aligns down to 0x24047a84, the second relay's range.
    assert_eq!(b.segments, [0x2001, 0x260, 0x700, 0x1, 0, 0, 0x1, 0x276]);
    assert_eq!(br_address(0x9999, 0x0), Err(MapEError::UnrecognizedPrefix));
    assert_eq!(br_address(0x240b, 0x14), Err(MapEError::UnrecognizedPrefix));
}

#[test]
fn default_ranges_shape() {
    for psid in [0u8, 5, 0x2a, 255] {
        let v = default_port_ranges(psid);
        assert_eq!(v.len(), 15);
        for (k, &(start, end)) in v.iter().enumerate() {
            let i = (k + 1) as u16;
            assert_eq!(start, (i << 12) + ((psid as u16) << 4));
            assert_eq!(end - start, 15);
            assert!(start >= 0x1000);
            if k + 1 < v.len() {
                assert!(end < v[k + 1].0);
            }
        }
    }
    assert_eq!(default_port_ranges(0)[0], (0x1000, 0x100f));
    assert_eq!(default_port_ranges(255)[14], (0xfff0, 0xffff));
}
