//! Interfaces for the seamless usage of ipv4/ipv6 parsers and builders

use vstd::prelude::*;
use crate::net::{IpAddr, Ipv4Addr, Ipv6Addr};
use crate::net::packet::{Packet, ParseError, PacketCursor, MAX_PACKET_LEN};
use crate::net::protocols::eth;
use crate::net::protocols::eth::EthView;
use crate::net::protocols::ip::v4::{
    ParsedV4, ParsedV4View, BuilderV4, spec_parse_ipv4, v4_finalized_header, v4_header_template,
    splice, IPV4_HEADER_LEN, ETH_TYPE_IPV4,
};
use crate::net::protocols::ip::v6::{
    ParsedV6, ParsedV6View, BuilderV6, spec_parse_ipv6, v6_finalized_header, v6_header_template,
    IPV6_HEADER_LEN, ETH_TYPE_IPV6,
};
use crate::bytes::u16_bytes;

verus! {

/// IP transport protocol
#[derive(Debug, PartialEq, Eq, Copy, Clone, Structural)]
pub enum TransportProtocol {
    Icmp,
    Tcp,
    Udp,
}

impl TransportProtocol {
    /// The protocol number carried in IP headers
    pub open spec fn value(self) -> u8 {
        match self {
            TransportProtocol::Icmp => 0x01,
            TransportProtocol::Tcp => 0x06,
            TransportProtocol::Udp => 0x11,
        }
    }

    /// The protocol number carried in IP headers
    pub fn to_u8(self) -> (r: u8)
        ensures
            r == self.value(),
    {
        match self {
            TransportProtocol::Icmp => 0x01,
            TransportProtocol::Tcp => 0x06,
            TransportProtocol::Udp => 0x11,
        }
    }
}

/// Unified representation of parsed IP headers
#[derive(Debug)]
pub enum Parsed<'a> {
    V4(ParsedV4<'a>),
    V6(ParsedV6<'a>),
}

/// The fields of a parsed IP header of either version
pub enum ParsedView {
    V4(ParsedV4View),
    V6(ParsedV6View),
}

impl ParsedView {
    /// The transport protocol of the payload
    pub open spec fn protocol(self) -> u8 {
        match self {
            ParsedView::V4(p) => p.protocol,
            ParsedView::V6(p) => p.next_header,
        }
    }

    /// The IP payload
    pub open spec fn payload(self) -> Seq<u8> {
        match self {
            ParsedView::V4(p) => p.payload,
            ParsedView::V6(p) => p.payload,
        }
    }

    /// The Ethernet header
    pub open spec fn eth(self) -> EthView {
        match self {
            ParsedView::V4(p) => p.eth,
            ParsedView::V6(p) => p.eth,
        }
    }
}

impl<'a> View for Parsed<'a> {
    type V = ParsedView;

    open spec fn view(&self) -> ParsedView {
        match self {
            Parsed::V4(p) => ParsedView::V4(p@),
            Parsed::V6(p) => ParsedView::V6(p@),
        }
    }
}

/// The IP packet that `s` holds, read as IPv4 and else as IPv6, or the IPv6
/// error when it is neither
pub open spec fn spec_parse_ip(s: Seq<u8>) -> Result<ParsedView, ParseError> {
    match spec_parse_ipv4(s) {
        Ok(p) => Ok(ParsedView::V4(p)),
        Err(_) => match spec_parse_ipv6(s) {
            Ok(p) => Ok(ParsedView::V6(p)),
            Err(e) => Err(e),
        },
    }
}

impl Packet {
    /// Parse the packet as IPv4, and failing that as IPv6
    pub fn parse_ip(&self) -> (r: Result<Parsed<'_>, ParseError>)
        requires
            self.wf(),
        ensures
            match r {
                Ok(p) => spec_parse_ip(self@) == Ok::<ParsedView, ParseError>(p@),
                Err(e) => spec_parse_ip(self@) == Err::<ParsedView, ParseError>(e),
            },
    {
        match self.parse_ipv4() {
            Ok(p) => Ok(Parsed::V4(p)),
            Err(_) => match self.parse_ipv6() {
                Ok(p) => Ok(Parsed::V6(p)),
                Err(e) => Err(e),
            },
        }
    }
}

impl<'a> Parsed<'a> {
    /// Get the parsed ethernet header
    pub fn eth(&self) -> (r: &eth::Parsed<'a>)
        ensures
            r@ == self@.eth(),
    {
        match self {
            Parsed::V4(p) => &p.eth,
            Parsed::V6(p) => &p.eth,
        }
    }

    /// Get the source IP address
    pub fn src_ip(&self) -> (r: IpAddr)
        ensures
            match (self, r) {
                (Parsed::V4(p), IpAddr::V4(a)) => a == p.src_ip,
                (Parsed::V6(p), IpAddr::V6(a)) => a.0@ == p.src_ip.0@,
                _ => false,
            },
    {
        match self {
            Parsed::V4(p) => IpAddr::V4(p.src_ip),
            Parsed::V6(p) => IpAddr::V6(p.src_ip),
        }
    }

    /// Get the destination IP address
    pub fn dst_ip(&self) -> (r: IpAddr)
        ensures
            match (self, r) {
                (Parsed::V4(p), IpAddr::V4(a)) => a == p.dst_ip,
                (Parsed::V6(p), IpAddr::V6(a)) => a.0@ == p.dst_ip.0@,
                _ => false,
            },
    {
        match self {
            Parsed::V4(p) => IpAddr::V4(p.dst_ip),
            Parsed::V6(p) => IpAddr::V6(p.dst_ip),
        }
    }

    /// Get the transport protocol
    pub fn protocol(&self) -> (r: u8)
        ensures
            r == self@.protocol(),
    {
        match self {
            Parsed::V4(p) => p.protocol,
            Parsed::V6(p) => p.next_header,
        }
    }

    /// Get the IP payload
    pub fn payload(&self) -> (r: &'a [u8])
        ensures
            r@ == self@.payload(),
    {
        match self {
            Parsed::V4(p) => p.payload,
            Parsed::V6(p) => p.payload,
        }
    }
}

/// Unified representation of the IP builders
pub enum Builder {
    V4(BuilderV4),
    V6(BuilderV6),
}

impl Builder {
    /// The builder of the chosen version is well formed
    pub open spec fn wf(&self) -> bool {
        match self {
            Builder::V4(b) => b.wf(),
            Builder::V6(b) => b.wf(),
        }
    }

    /// A held cursor is well formed and starts after the header
    pub proof fn lemma_wf(&self)
        requires
            self.wf(),
        ensures
            self.cursor() matches Some(c) ==> c.wf() && c.base() == self.hdr_start() + self.hdr_len(),
    {
        match self {
            Builder::V4(b) => b.lemma_wf(),
            Builder::V6(b) => b.lemma_wf(),
        }
    }

    /// Offset of the header in the packet
    pub open spec fn hdr_start(&self) -> nat {
        match self {
            Builder::V4(b) => b.hdr_start(),
            Builder::V6(b) => b.hdr_start(),
        }
    }

    /// Length of the header
    pub open spec fn hdr_len(&self) -> nat {
        match self {
            Builder::V4(_) => IPV4_HEADER_LEN as nat,
            Builder::V6(_) => IPV6_HEADER_LEN as nat,
        }
    }

    /// The cursor after the header, if not taken out yet
    pub open spec fn cursor(&self) -> Option<PacketCursor> {
        match self {
            Builder::V4(b) => b.cursor(),
            Builder::V6(b) => b.cursor(),
        }
    }

    /// The source address the builder was created with
    pub open spec fn src_addr(&self) -> IpAddr {
        match self {
            Builder::V4(b) => IpAddr::V4(b.src()),
            Builder::V6(b) => IpAddr::V6(b.src()),
        }
    }

    /// The destination address the builder was created with
    pub open spec fn dst_addr(&self) -> IpAddr {
        match self {
            Builder::V4(b) => IpAddr::V4(b.dst()),
            Builder::V6(b) => IpAddr::V6(b.dst()),
        }
    }

    /// Offset of the transport protocol field within the header
    pub open spec fn prot_offset(&self) -> nat {
        match self {
            Builder::V4(_) => 9,
            Builder::V6(_) => 6,
        }
    }

    /// The header `h` as `finalize()` leaves it for a payload of `len` bytes
    pub open spec fn finalized_header(&self, h: Seq<u8>, len: u16) -> Seq<u8> {
        match self {
            Builder::V4(_) => v4_finalized_header(h, len),
            Builder::V6(_) => v6_finalized_header(h, len),
        }
    }

    /// Set the transport protocol of the payload in the packet of `cursor`
    pub fn set_protocol(&self, cursor: &mut PacketCursor, protocol: TransportProtocol)
        requires
            self.wf(),
            old(cursor).wf(),
            self.hdr_start() + self.hdr_len() <= old(cursor)@.len(),
        ensures
            final(cursor).wf(),
            final(cursor).base() == old(cursor).base(),
            final(cursor)@ == old(cursor)@.update(
                (self.hdr_start() + self.prot_offset()) as int,
                protocol.value(),
            ),
    {
        match self {
            Builder::V4(b) => b.set_protocol(cursor, protocol),
            Builder::V6(b) => b.set_protocol(cursor, protocol),
        }
    }

    /// Take out the cursor out of the builder
    pub fn take_cursor(&mut self) -> (r: Option<PacketCursor>)
        requires
            old(self).wf(),
        ensures
            final(self).wf(),
            r == old(self).cursor(),
            final(self).cursor() is None,
            final(self).hdr_start() == old(self).hdr_start(),
            final(self).hdr_len() == old(self).hdr_len(),
            final(self).prot_offset() == old(self).prot_offset(),
            final(self).src_addr() == old(self).src_addr(),
            final(self).dst_addr() == old(self).dst_addr(),
            *old(self) is V4 <==> *final(self) is V4,
    {
        match self {
            Builder::V4(b) => b.take_cursor(),
            Builder::V6(b) => b.take_cursor(),
        }
    }

    /// Finalize the IP header, writing in the `payload_len` and calculating the
    /// crc (if applicable). This `payload_len` does not include the IP header
    /// size, only the tranport layer size
    pub fn finalize(&self, cursor: &mut PacketCursor, payload_len: u16)
        requires
            self.wf(),
            old(cursor).wf(),
            self.hdr_start() + self.hdr_len() <= old(cursor)@.len(),
            self is V4 ==> IPV4_HEADER_LEN + payload_len <= u16::MAX,
        ensures
            final(cursor).wf(),
            final(cursor).base() == old(cursor).base(),
            final(cursor)@ == splice(
                old(cursor)@,
                self.hdr_start() as int,
                self.finalized_header(
                    old(cursor)@.subrange(
                        self.hdr_start() as int,
                        (self.hdr_start() + self.hdr_len()) as int,
                    ),
                    payload_len,
                ),
            ),
    {
        match self {
            Builder::V4(b) => b.finalize(cursor, payload_len),
            Builder::V6(b) => b.finalize(cursor, payload_len),
        }
    }
}

/// The bytes the IP builder writes after the Ethernet MACs for the addresses
/// `src` and `dst`: the Ethernet type and the IP header template
pub open spec fn ip_header_bytes(src: IpAddr, dst: IpAddr) -> Seq<u8> {
    match (src, dst) {
        (IpAddr::V4(s), IpAddr::V4(d)) => u16_bytes(ETH_TYPE_IPV4) + v4_header_template(s.0, d.0),
        (IpAddr::V6(s), IpAddr::V6(d)) => u16_bytes(ETH_TYPE_IPV6) + v6_header_template(
            s.0@,
            d.0@,
        ),
        _ => Seq::empty(),
    }
}

/// Whether both addresses are of the same IP version
pub open spec fn same_version(src: IpAddr, dst: IpAddr) -> bool {
    match (src, dst) {
        (IpAddr::V4(_), IpAddr::V4(_)) => true,
        (IpAddr::V6(_), IpAddr::V6(_)) => true,
        _ => false,
    }
}

impl eth::Builder {
    /// Creates a new IP builder of the version of the addresses from this
    /// Ethernet builder. Fails when the versions differ or there is no room.
    pub fn ip(self, src: &IpAddr, dst: &IpAddr) -> (r: Option<Builder>)
        requires
            self.cursor.wf(),
        ensures
            same_version(*src, *dst) && self.cursor@.len() + ip_header_bytes(*src, *dst).len()
                <= MAX_PACKET_LEN <==> r is Some,
            r matches Some(b) ==> {
                &&& b.wf()
                &&& (b is V4 <==> src is V4)
                &&& b.src_addr() == *src
                &&& b.dst_addr() == *dst
                &&& b.hdr_start() == self.cursor@.len() + 2
                &&& b.cursor() matches Some(c) && c@ == self.cursor@ + ip_header_bytes(*src, *dst)
            },
    {
        proof {
            self.cursor.lemma_view();
        }
        match (src, dst) {
            (IpAddr::V4(s), IpAddr::V4(d)) => {
                let r = self.ipv4(s, d);
                match r {
                    Some(b) => Some(Builder::V4(b)),
                    None => None,
                }
            },
            (IpAddr::V6(s), IpAddr::V6(d)) => {
                let r = self.ipv6(s, d);
                match r {
                    Some(b) => Some(Builder::V6(b)),
                    None => None,
                }
            },
            _ => None,
        }
    }
}

} // verus!
