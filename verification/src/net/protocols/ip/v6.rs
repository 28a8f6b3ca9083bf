//! L2: IPv6 implementation

use vstd::prelude::*;
use crate::bytes::{be_u16, u16_bytes, get_range, read_be_u16};
use crate::net::Ipv6Addr;
use crate::net::packet::{Packet, ParseError, PacketCursor, MAX_PACKET_LEN};
use crate::net::protocols::eth;
use crate::net::protocols::eth::{EthView, spec_parse_eth};
use crate::net::protocols::ip::TransportProtocol;
use crate::net::protocols::ip::v4::{put_u16, splice};

verus! {

/// Ethernet type for IPv6
pub const ETH_TYPE_IPV6: u16 = 0x86DD;

/// Size of an IPv6 header
pub const IPV6_HEADER_LEN: usize = 40;

/// A parsed IPv6 header and payload
#[derive(Debug)]
pub struct ParsedV6<'a> {
    /// Ethernet header
    pub eth: eth::Parsed<'a>,
    /// Source IP address
    pub src_ip: Ipv6Addr,
    /// Destination IP address
    pub dst_ip: Ipv6Addr,
    /// Next header protocol
    pub next_header: u8,
    /// Payload
    pub payload: &'a [u8],
}

/// The fields of a parsed IPv6 header
pub struct ParsedV6View {
    pub eth: EthView,
    pub src_ip: Seq<u8>,
    pub dst_ip: Seq<u8>,
    pub next_header: u8,
    pub payload: Seq<u8>,
}

impl<'a> View for ParsedV6<'a> {
    type V = ParsedV6View;

    open spec fn view(&self) -> ParsedV6View {
        ParsedV6View {
            eth: self.eth@,
            src_ip: self.src_ip.0@,
            dst_ip: self.dst_ip.0@,
            next_header: self.next_header,
            payload: self.payload@,
        }
    }
}

/// The IPv6 packet that `s` holds, or the error returned for it
pub open spec fn spec_parse_ipv6(s: Seq<u8>) -> Result<ParsedV6View, ParseError> {
    match spec_parse_eth(s) {
        Err(e) => Err(e),
        Ok(eth) => {
            let p = eth.payload;
            if eth.eth_type != ETH_TYPE_IPV6 {
                Err(ParseError::UnsupportedVersion)
            } else if p.len() < IPV6_HEADER_LEN {
                Err(ParseError::InvalidIpHeader)
            } else if p[0] / 16 != 6 {
                Err(ParseError::UnsupportedVersion)
            } else {
                let payload_len = be_u16(p.subrange(4, 6));
                if payload_len + IPV6_HEADER_LEN > p.len() {
                    Err(ParseError::InvalidLength)
                } else {
                    Ok(
                        ParsedV6View {
                            eth,
                            src_ip: p.subrange(8, 24),
                            dst_ip: p.subrange(24, 40),
                            next_header: p[6],
                            payload: p.subrange(40, 40 + payload_len),
                        },
                    )
                }
            }
        },
    }
}

/// The 16 bytes of `s` starting at `at`, as an address
fn address_at(s: &[u8], at: usize) -> (a: Ipv6Addr)
    requires
        at + 16 <= s@.len(),
    ensures
        a.0@ == s@.subrange(at as int, at + 16),
{
    let _n = s.len();
    let a = Ipv6Addr(
        [
            s[at],
            s[at + 1],
            s[at + 2],
            s[at + 3],
            s[at + 4],
            s[at + 5],
            s[at + 6],
            s[at + 7],
            s[at + 8],
            s[at + 9],
            s[at + 10],
            s[at + 11],
            s[at + 12],
            s[at + 13],
            s[at + 14],
            s[at + 15],
        ],
    );
    assert(a.0@ =~= s@.subrange(at as int, at + 16));
    a
}

impl Packet {
    /// Parse the IPv6 header
    pub fn parse_ipv6(&self) -> (r: Result<ParsedV6<'_>, ParseError>)
        requires
            self.wf(),
        ensures
            match r {
                Ok(p) => spec_parse_ipv6(self@) == Ok::<ParsedV6View, ParseError>(p@),
                Err(e) => spec_parse_ipv6(self@) == Err::<ParsedV6View, ParseError>(e),
            },
    {
        let eth = self.parse_eth()?;

        // Handle the ethernet type
        if eth.eth_type != ETH_TYPE_IPV6 {
            return Err(ParseError::UnsupportedVersion);
        }

        // Get the header. This will always be at least 40 bytes
        let header = match get_range(eth.payload, 0, IPV6_HEADER_LEN) {
            Some(h) => h,
            None => return Err(ParseError::InvalidIpHeader),
        };

        // Verify the version and the header length
        if header[0] / 16 != 6 {
            return Err(ParseError::UnsupportedVersion);
        }

        // Parse out everything we can get
        let payload_len = read_be_u16(header, 4) as usize;
        let next_header = header[6];
        let src_ip = address_at(header, 8);
        let dst_ip = address_at(header, 24);

        // Validate the total length
        if payload_len + header.len() > eth.payload.len() {
            return Err(ParseError::InvalidLength);
        }

        proof {
            let p = eth.payload@;
            assert(header@.subrange(4, 6) =~= p.subrange(4, 6));
            assert(header@.subrange(8, 24) =~= p.subrange(8, 24));
            assert(header@.subrange(24, 40) =~= p.subrange(24, 40));
        }

        let payload = vstd::slice::slice_subrange(
            eth.payload,
            IPV6_HEADER_LEN,
            IPV6_HEADER_LEN + payload_len,
        );
        Ok(ParsedV6 { src_ip, dst_ip, next_header, payload, eth })
    }
}

/// The IPv6 header written by the builder before it is finalized: version 6,
/// no traffic class or flow label, zero payload length and next header, 64
/// hop limit and the addresses
pub open spec fn v6_header_template(src: Seq<u8>, dst: Seq<u8>) -> Seq<u8> {
    seq![0x60u8, 0, 0, 0, 0, 0, 0, 64] + src + dst
}

/// The header `h` with its payload length set to `payload_len`
pub open spec fn v6_finalized_header(h: Seq<u8>, payload_len: u16) -> Seq<u8> {
    put_u16(h, 4, payload_len)
}

impl eth::Builder {
    /// Creates a new IPv6 builder from this Ethernet builder, writing the
    /// Ethernet type and the IPv6 header
    pub fn ipv6(self, src: &Ipv6Addr, dst: &Ipv6Addr) -> (r: Option<BuilderV6>)
        requires
            self.cursor.wf(),
        ensures
            self.cursor@.len() + 42 <= MAX_PACKET_LEN <==> r is Some,
            r matches Some(b) ==> {
                &&& b.wf()
                &&& b.hdr_start() == self.cursor@.len() + 2
                &&& b.cursor() matches Some(c) && c@ == self.cursor@ + u16_bytes(ETH_TYPE_IPV6)
                    + v6_header_template(src.0@, dst.0@)
                &&& b.src() == *src
                &&& b.dst() == *dst
            },
    {
        let mut cursor = self.cursor;
        proof {
            cursor.lemma_view();
        }

        // Write in the type
        let _ = cursor.write_u16(ETH_TYPE_IPV6);

        // Split the cursor and save the ethernet header
        let (_, cursor) = cursor.split_at_current();
        proof {
            cursor.lemma_view();
        }
        BuilderV6::new(cursor, src, dst)
    }
}

/// Indexes to fields which must be filled in when the packet is finalized,
/// relative to the start of the header
pub struct ToFillV6 {
    pub len: usize,
    pub prot: usize,
}

/// Builder for IPv6 headers
pub struct BuilderV6 {
    /// Offsets `(start, end)` of the header in the packet
    hdr: (usize, usize),
    /// Source address
    src: Ipv6Addr,
    /// Destination address
    dst: Ipv6Addr,
    /// Fields to fill in later
    to_fill: ToFillV6,
    /// The cursor positioned after the header, until it is taken out
    cursor: Option<PacketCursor>,
}

impl BuilderV6 {
    /// The header is 40 bytes long and the cursor, while held, starts after it
    pub closed spec fn wf(&self) -> bool {
        &&& self.hdr.1 == self.hdr.0 + IPV6_HEADER_LEN
        &&& self.to_fill.len == 4
        &&& self.to_fill.prot == 6
        &&& self.cursor matches Some(c) ==> c.wf() && c.base() == self.hdr.1
    }

    /// A held cursor is well formed and starts after the header
    pub proof fn lemma_wf(&self)
        requires
            self.wf(),
        ensures
            self.cursor() matches Some(c) ==> c.wf() && c.base() == self.hdr_start() + IPV6_HEADER_LEN,
    {
    }

    /// Offset of the header in the packet
    pub closed spec fn hdr_start(&self) -> nat {
        self.hdr.0 as nat
    }

    /// The cursor after the header, if not taken out yet
    pub closed spec fn cursor(&self) -> Option<PacketCursor> {
        self.cursor
    }

    /// Source address the builder was created with
    pub closed spec fn src(&self) -> Ipv6Addr {
        self.src
    }

    /// Destination address the builder was created with
    pub closed spec fn dst(&self) -> Ipv6Addr {
        self.dst
    }

    /// Creates a new IPv6 builder, writing the header
    pub fn new(cursor: PacketCursor, src: &Ipv6Addr, dst: &Ipv6Addr) -> (r: Option<BuilderV6>)
        requires
            cursor.wf(),
            cursor.base() == cursor@.len(),
        ensures
            cursor@.len() + 40 <= MAX_PACKET_LEN <==> r is Some,
            r matches Some(b) ==> {
                &&& b.wf()
                &&& b.hdr_start() == cursor@.len()
                &&& b.cursor() matches Some(c) && c@ == cursor@ + v6_header_template(
                    src.0@,
                    dst.0@,
                )
                &&& b.src() == *src
                &&& b.dst() == *dst
            },
    {
        let mut cursor = cursor;
        let ghost c0 = cursor@;
        proof {
            cursor.lemma_view();
        }
        if cursor.overall_position() > MAX_PACKET_LEN - IPV6_HEADER_LEN {
            return None;
        }

        // Version + traffic class
        cursor.write_u8(0x60)?;
        cursor.write_u8(0)?;
        // Flow label
        cursor.write_u16(0)?;
        // Payload length
        cursor.write_u16(0)?;
        // Next header/transport protocol
        cursor.write_u8(0)?;
        // 64 TTL
        cursor.write_u8(64)?;
        // Source and destination IPs
        cursor.write(src.0.as_slice())?;
        cursor.write(dst.0.as_slice())?;

        proof {
            assert(cursor@ =~= c0 + v6_header_template(src.0@, dst.0@));
        }

        // Save off the indexes of the fields which we'll edit later
        let to_fill = ToFillV6 { len: 4, prot: 6 };

        // Split off the header
        proof {
            cursor.lemma_view();
        }
        let (hdr, cursor) = cursor.split_at_current();
        Some(BuilderV6 { hdr, to_fill, cursor: Some(cursor), src: *src, dst: *dst })
    }

    /// Gets the source IP address this builder was called with
    pub fn src_addr(&self) -> (r: Ipv6Addr)
        ensures
            r == self.src(),
    {
        self.src
    }

    /// Gets the destination IP address this builder was called with
    pub fn dst_addr(&self) -> (r: Ipv6Addr)
        ensures
            r == self.dst(),
    {
        self.dst
    }

    /// Offset of the header in the packet
    pub fn header_start(&self) -> (r: usize)
        ensures
            r == self.hdr_start(),
    {
        self.hdr.0
    }

    /// Sets the next header field of the header in the packet of `cursor`
    pub fn set_protocol(&self, cursor: &mut PacketCursor, prot: TransportProtocol)
        requires
            self.wf(),
            old(cursor).wf(),
            self.hdr_start() + IPV6_HEADER_LEN <= old(cursor)@.len(),
        ensures
            final(cursor).wf(),
            final(cursor).base() == old(cursor).base(),
            final(cursor)@ == old(cursor)@.update(self.hdr_start() + 6int, prot.value()),
    {
        let b = [prot.to_u8()];
        cursor.write_at(self.hdr.0 + self.to_fill.prot, b.as_slice());
        proof {
            assert(b@ =~= seq![prot.value()]);
            let o = old(cursor)@;
            let at = self.hdr_start() + 6int;
            assert(cursor@ =~= o.update(at, prot.value()));
        }
    }

    /// Take out the cursor out of the builder
    pub fn take_cursor(&mut self) -> (r: Option<PacketCursor>)
        requires
            old(self).wf(),
        ensures
            final(self).wf(),
            r == old(self).cursor(),
            final(self).cursor() is None,
            final(self).hdr_start() == old(self).hdr_start(),
            final(self).src() == old(self).src(),
            final(self).dst() == old(self).dst(),
    {
        self.cursor.take()
    }

    /// Finalize the IP header in the packet of `cursor`, writing the payload
    /// length
    pub fn finalize(&self, cursor: &mut PacketCursor, payload_len: u16)
        requires
            self.wf(),
            old(cursor).wf(),
            self.hdr_start() + IPV6_HEADER_LEN <= old(cursor)@.len(),
        ensures
            final(cursor).wf(),
            final(cursor).base() == old(cursor).base(),
            final(cursor)@ == splice(
                old(cursor)@,
                self.hdr_start() as int,
                v6_finalized_header(
                    old(cursor)@.subrange(
                        self.hdr_start() as int,
                        self.hdr_start() + IPV6_HEADER_LEN,
                    ),
                    payload_len,
                ),
            ),
    {
        let ghost o = cursor@;
        let ghost hs = self.hdr.0 as int;
        let len_bytes = [(payload_len / 0x100) as u8, (payload_len % 0x100) as u8];
        assert(len_bytes@ =~= u16_bytes(payload_len));
        cursor.write_at(self.hdr.0 + self.to_fill.len, len_bytes.as_slice());
        proof {
            let h0 = o.subrange(hs, hs + 40);
            assert(cursor@ =~= splice(o, hs, v6_finalized_header(h0, payload_len)));
        }
    }
}

} // verus!
