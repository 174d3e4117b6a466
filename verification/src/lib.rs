//! Derivation of MAP-E (RFC 7597) tunnel parameters from a customer IPv6
//! address: the mapped IPv4 address, PSID, CE and border-relay IPv6
//! addresses, and the set of external port ranges the customer may use,
//! together with carving caller-chosen ports out of those ranges.

mod params;
mod ports;
mod resolve;
mod types;

pub use params::calculate;
pub use params::MapEParameters;
pub use ports::default_port_ranges;
pub use ports::exclude_port;
pub use ports::exclude_ports;
pub use resolve::br_address;
pub use resolve::ipv4_prefix;
pub use types::Ipv6Address;
pub use types::MapEError;
