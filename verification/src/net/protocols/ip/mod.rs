//! L2: IPv4/v6 implementation

pub mod v4;
pub mod v6;
pub mod ip;

pub use v4::{ParsedV4, ParsedV4View, BuilderV4, spec_parse_ipv4, v4_header_template, v4_finalized_header};
pub use v6::{ParsedV6, ParsedV6View, BuilderV6, spec_parse_ipv6, v6_header_template, v6_finalized_header};
pub use ip::{TransportProtocol, Parsed, ParsedView, Builder, spec_parse_ip};
