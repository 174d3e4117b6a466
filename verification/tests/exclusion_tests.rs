//! Carving ports out of a range sequence: edge shrinks, splits, removals,
//! the speculative commit, and the error for a port in no range.

use mape::calculate;
use mape::default_port_ranges;
use mape::exclude_port;
use mape::exclude_ports;
use mape::Ipv6Address;
use mape::MapEError;

#[test]
fn exclude_start_shrinks() {
    let rs = default_port_ranges(5);
    let out = exclude_port(&rs, 4176).unwrap();
    assert_eq!(out.len(), 15);
    assert_eq!(out[0], (4177, 4191));
    for k in 1..15 {
        assert_eq!(out[k], rs[k]);
    }
}

#[test]
fn exclude_end_shrinks() {
    let rs = default_port_ranges(5);
    let out = exclude_port(&rs, 4191).unwrap();
    assert_eq!(out.len(), 15);
    assert_eq!(out[0], (4176, 4190));
}

#[test]
fn exclude_interior_splits() {
    let rs = default_port_ranges(5);
    let out = exclude_port(&rs, 4184).unwrap();
    assert_eq!(out.len(), 16);
    assert_eq!(out[0], (4176, 4183));
    assert_eq!(out[1], (4185, 4191));
    // The split halves plus the excluded port cover the original exactly.
    assert_eq!(out[0].0, rs[0].0);
    assert_eq!(out[0].1 + 1, 4184);
    assert_eq!(out[1].0 - 1, 4184);
    assert_eq!(out[1].1, rs[0].1);
    assert_eq!(out[2], rs[1]);
}

#[test]
fn exclude_sole_port_removes_range() {
    let rs = vec![(100u16, 100u16), (200, 300)];
    let out = exclude_port(&rs, 100).unwrap();
    assert_eq!(out, vec![(200, 300)]);
}

#[test]
fn exclude_shrink_then_remove() {
    let rs = vec![(10u16, 11u16)];
    let out = exclude_port(&rs, 10).unwrap();
    assert_eq!(out, vec![(11, 11)]);
    let out2 = exclude_port(&out, 11).unwrap();
    assert_eq!(out2, vec![]);
}

#[test]
fn exclude_twice_fails() {
    let rs = default_port_ranges(5);
    let once = exclude_port(&rs, 4176).unwrap();
    let e = exclude_port(&once, 4176).unwrap_err();
    assert_eq!(e, MapEError::PortNotInRange { port: 4176 });
}

#[test]
fn exclude_port_in_no_range_fails() {
    let rs = default_port_ranges(5);
    let e = exclude_port(&rs, 80).unwrap_err();
    assert_eq!(e, MapEError::PortNotInRange { port: 80 });
}

#[test]
fn exclude_ports_in_sequence() {
    let rs = default_port_ranges(5);
    let out = exclude_ports(rs, &vec![4176, 4177, 4184]).unwrap();
    // Two start shrinks, then an interior split of what remains.
    assert_eq!(out.len(), 16);
    assert_eq!(out[0], (4178, 4183));
    assert_eq!(out[1], (4185, 4191));
}

#[test]
fn exclude_ports_stops_at_first_bad_port() {
    let rs = default_port_ranges(5);
    let e = exclude_ports(rs, &vec![4176, 9, 4177]).unwrap_err();
    assert_eq!(e, MapEError::PortNotInRange { port: 9 });
}

#[test]
fn parameters_exclude_method_commits_or_leaves() {
    let a = Ipv6Address::new([0x2404, 0x7a80, 0x0102, 0x0500, 0, 0, 0, 0x1]);
    let mut p = calculate(a).unwrap();
    assert!(p.exclude_port(4176).is_ok());
    assert_eq!(p.port_ranges[0], (4177, 4191));
    assert_eq!(p.port_ranges.len(), 15);
    let before = p.port_ranges.clone();
    let e = p.exclude_port(1).unwrap_err();
    assert_eq!(e, MapEError::PortNotInRange { port: 1 });
    assert_eq!(p.port_ranges, before);
    assert_eq!(p.psid, 5);
}
