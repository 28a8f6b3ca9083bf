//! L2: IPv4 implementation

use vstd::prelude::*;
use crate::bytes::{be_u16, be_u32, u16_bytes, u32_bytes, get_range, read_be_u16, read_be_u32};
use crate::net::Ipv4Addr;
use crate::net::packet::{Packet, ParseError, PacketCursor, MAX_PACKET_LEN, spec_checksum, raw_sum, words_sum, fold16};
use crate::net::protocols::eth;
use crate::net::protocols::eth::{EthView, spec_parse_eth};
use crate::net::protocols::ip::TransportProtocol;

verus! {

/// Ethernet type for IPv4
pub const ETH_TYPE_IPV4: u16 = 0x0800;

/// Size of an IPv4 header without options
pub const IPV4_HEADER_LEN: usize = 20;

/// A parsed IPv4 header and payload
#[derive(Debug)]
pub struct ParsedV4<'a> {
    /// Ethernet header
    pub eth: eth::Parsed<'a>,
    /// Source IP address
    pub src_ip: Ipv4Addr,
    /// Destination IP address
    pub dst_ip: Ipv4Addr,
    /// IP payload protocol
    pub protocol: u8,
    /// Raw byte payload of the IP packet
    pub payload: &'a [u8],
}

/// The fields of a parsed IPv4 header
pub struct ParsedV4View {
    pub eth: EthView,
    pub src_ip: u32,
    pub dst_ip: u32,
    pub protocol: u8,
    pub payload: Seq<u8>,
}

impl<'a> View for ParsedV4<'a> {
    type V = ParsedV4View;

    open spec fn view(&self) -> ParsedV4View {
        ParsedV4View {
            eth: self.eth@,
            src_ip: self.src_ip.0,
            dst_ip: self.dst_ip.0,
            protocol: self.protocol,
            payload: self.payload@,
        }
    }
}

/// Whether the flags of an IPv4 header, in its 7th byte, have the reserved
/// bit or the more-fragments bit set
pub open spec fn v4_flags_rejected(b: u8) -> bool {
    (b / 32) % 2 == 1 || b / 128 == 1
}

/// The IPv4 packet that `s` holds, or the error returned for it
pub open spec fn spec_parse_ipv4(s: Seq<u8>) -> Result<ParsedV4View, ParseError> {
    match spec_parse_eth(s) {
        Err(e) => Err(e),
        Ok(eth) => {
            let p = eth.payload;
            if eth.eth_type != ETH_TYPE_IPV4 {
                Err(ParseError::UnsupportedVersion)
            } else if p.len() < IPV4_HEADER_LEN {
                Err(ParseError::InvalidIpHeader)
            } else if p[0] / 16 != 4 {
                Err(ParseError::UnsupportedVersion)
            } else if p[0] % 16 != 5 {
                Err(ParseError::IpOptionsUnsupported)
            } else if v4_flags_rejected(p[6]) {
                Err(ParseError::FragmentationUnsupported)
            } else if be_u16(p.subrange(6, 8)) % 0x2000 != 0 {
                Err(ParseError::FragmentationUnsupported)
            } else {
                let total = be_u16(p.subrange(2, 4));
                if total < IPV4_HEADER_LEN || total > p.len() {
                    Err(ParseError::InvalidLength)
                } else {
                    Ok(
                        ParsedV4View {
                            eth,
                            src_ip: be_u32(p.subrange(12, 16)),
                            dst_ip: be_u32(p.subrange(16, 20)),
                            protocol: p[9],
                            payload: p.subrange(20, total as int),
                        },
                    )
                }
            }
        },
    }
}

impl Packet {
    /// Parse the IP header
    pub fn parse_ipv4(&self) -> (r: Result<ParsedV4<'_>, ParseError>)
        requires
            self.wf(),
        ensures
            match r {
                Ok(p) => spec_parse_ipv4(self@) == Ok::<ParsedV4View, ParseError>(p@),
                Err(e) => spec_parse_ipv4(self@) == Err::<ParsedV4View, ParseError>(e),
            },
    {
        // Parse the Ethernet header
        let eth = self.parse_eth()?;

        // Handle the ethernet type
        if eth.eth_type != ETH_TYPE_IPV4 {
            return Err(ParseError::UnsupportedVersion);
        }

        // Get the header. This will always be at least 20 bytes without options
        let header = match get_range(eth.payload, 0, IPV4_HEADER_LEN) {
            Some(h) => h,
            None => return Err(ParseError::InvalidIpHeader),
        };

        // Verify the version and the header length
        if header[0] / 16 != 4 {
            return Err(ParseError::UnsupportedVersion);
        }
        if header[0] % 16 != 5 {
            return Err(ParseError::IpOptionsUnsupported);
        }

        // Get the total length of the header and the payload
        let total_length = read_be_u16(header, 2) as usize;

        // Get the flags and make sure the reserved bit and fragments are clear
        // as we do not support fragmentation yet
        let flags = header[6] / 32;
        if flags % 2 == 1 || flags / 4 == 1 {
            return Err(ParseError::FragmentationUnsupported);
        }

        // Make sure there's actually no fragmentation
        let frag_offset = read_be_u16(header, 6);
        if frag_offset % 0x2000 != 0 {
            return Err(ParseError::FragmentationUnsupported);
        }

        // Get the protocol
        let protocol = header[9];

        // Get the source and destination IPs
        let src_ip = Ipv4Addr(read_be_u32(header, 12));
        let dst_ip = Ipv4Addr(read_be_u32(header, 16));

        // Validate the total length
        if total_length < header.len() || total_length > eth.payload.len() {
            return Err(ParseError::InvalidLength);
        }

        proof {
            let p = eth.payload@;
            assert(header@.subrange(2, 4) =~= p.subrange(2, 4));
            assert(header@.subrange(6, 8) =~= p.subrange(6, 8));
            assert(header@.subrange(12, 16) =~= p.subrange(12, 16));
            assert(header@.subrange(16, 20) =~= p.subrange(16, 20));
        }

        let payload = vstd::slice::slice_subrange(eth.payload, IPV4_HEADER_LEN, total_length);
        Ok(ParsedV4 { src_ip, dst_ip, protocol, payload, eth })
    }
}

/// The IPv4 header written by the builder before it is finalized: version 4,
/// 20 byte header, no DSCP/ECN, zero length, zero identification, flags and
/// fragment offset, 64 TTL, zero protocol and checksum, and the addresses
pub open spec fn v4_header_template(src: u32, dst: u32) -> Seq<u8> {
    seq![0x45u8, 0, 0, 0, 0, 0, 0, 0, 64, 0, 0, 0] + u32_bytes(src) + u32_bytes(dst)
}

/// Replace the two bytes at `at` in `s` with the big-endian `v`
pub open spec fn put_u16(s: Seq<u8>, at: int, v: u16) -> Seq<u8> {
    s.subrange(0, at) + u16_bytes(v) + s.subrange(at + 2, s.len() as int)
}

/// The header `h` with its total length set for a payload of `payload_len`
/// bytes and its checksum filled in
pub open spec fn v4_finalized_header(h: Seq<u8>, payload_len: u16) -> Seq<u8> {
    let with_len = put_u16(h, 2, (IPV4_HEADER_LEN + payload_len) as u16);
    put_u16(with_len, 10, !spec_checksum(with_len))
}

/// Replace `s[at..at + r.len()]` with `r`
pub open spec fn splice(s: Seq<u8>, at: int, r: Seq<u8>) -> Seq<u8> {
    s.subrange(0, at) + r + s.subrange(at + r.len(), s.len() as int)
}

impl eth::Builder {
    /// Creates a new IPv4 builder from this Ethernet builder, writing the
    /// Ethernet type and the IPv4 header
    pub fn ipv4(self, src: &Ipv4Addr, dst: &Ipv4Addr) -> (r: Option<BuilderV4>)
        requires
            self.cursor.wf(),
        ensures
            self.cursor@.len() + 22 <= MAX_PACKET_LEN <==> r is Some,
            r matches Some(b) ==> {
                &&& b.wf()
                &&& b.hdr_start() == self.cursor@.len() + 2
                &&& b.cursor() matches Some(c) && c@ == self.cursor@ + u16_bytes(ETH_TYPE_IPV4)
                    + v4_header_template(src.0, dst.0)
                &&& b.src() == *src
                &&& b.dst() == *dst
            },
    {
        let mut cursor = self.cursor;
        proof {
            cursor.lemma_view();
        }

        // Write in the type
        let _ = cursor.write_u16(ETH_TYPE_IPV4);

        // Split the cursor and save the Ethernet header
        let (_, cursor) = cursor.split_at_current();
        proof {
            cursor.lemma_view();
        }
        BuilderV4::new(cursor, src, dst)
    }
}

/// Indexes to fields which must be filled in when the packet is finalized,
/// relative to the start of the header
pub struct ToFill {
    pub len: usize,
    pub prot: usize,
    pub crc: usize,
}

/// Builder for IPv4 headers
pub struct BuilderV4 {
    /// Offsets `(start, end)` of the header in the packet
    hdr: (usize, usize),
    /// Fields to fill in later
    to_fill: ToFill,
    /// The cursor positioned after the header, until it is taken out
    cursor: Option<PacketCursor>,
    /// Source address
    src: Ipv4Addr,
    /// Destination address
    dst: Ipv4Addr,
}

impl BuilderV4 {
    /// The header is 20 bytes long and the cursor, while held, starts after it
    pub closed spec fn wf(&self) -> bool {
        &&& self.hdr.1 == self.hdr.0 + IPV4_HEADER_LEN
        &&& self.to_fill.len == 2
        &&& self.to_fill.prot == 9
        &&& self.to_fill.crc == 10
        &&& self.cursor matches Some(c) ==> c.wf() && c.base() == self.hdr.1
    }

    /// A held cursor is well formed and starts after the header
    pub proof fn lemma_wf(&self)
        requires
            self.wf(),
        ensures
            self.cursor() matches Some(c) ==> c.wf() && c.base() == self.hdr_start() + IPV4_HEADER_LEN,
    {
    }

    /// Offset of the header in the packet
    pub closed spec fn hdr_start(&self) -> nat {
        self.hdr.0 as nat
    }

    /// The cursor after the header, if not taken out yet
    pub closed spec fn cursor(&self) -> Option<PacketCursor> {
        self.cursor
    }

    /// Source address the builder was created with
    pub closed spec fn src(&self) -> Ipv4Addr {
        self.src
    }

    /// Destination address the builder was created with
    pub closed spec fn dst(&self) -> Ipv4Addr {
        self.dst
    }

    /// Creates a new IPv4 builder, writing the header
    pub fn new(cursor: PacketCursor, src: &Ipv4Addr, dst: &Ipv4Addr) -> (r: Option<BuilderV4>)
        requires
            cursor.wf(),
            cursor.base() == cursor@.len(),
        ensures
            cursor@.len() + 20 <= MAX_PACKET_LEN <==> r is Some,
            r matches Some(b) ==> {
                &&& b.wf()
                &&& b.hdr_start() == cursor@.len()
                &&& b.cursor() matches Some(c) && c@ == cursor@ + v4_header_template(src.0, dst.0)
                &&& b.src() == *src
                &&& b.dst() == *dst
            },
    {
        let mut cursor = cursor;
        let ghost c0 = cursor@;
        proof {
            cursor.lemma_view();
        }
        if cursor.overall_position() > MAX_PACKET_LEN - IPV4_HEADER_LEN {
            return None;
        }
        let start = cursor.overall_position();

        // Ip version 4 and 20 byte header length
        cursor.write_u8(0x45)?;
        // No DSCP or ECN
        cursor.write_u8(0)?;
        // Zero out the length for now
        cursor.write_u16(0)?;
        // Identification, flags and fragment offset are all zero
        cursor.write_u32(0)?;
        // 64 TTL
        cursor.write_u8(64)?;
        // Zero out the protocol. We'll fill this in when the protocol is chosen
        cursor.write_u8(0)?;
        // Zero out the checksum. Likewise will be filled in later
        cursor.write_u16(0)?;
        // Source and destination IPs
        cursor.write_u32(src.0)?;
        cursor.write_u32(dst.0)?;

        proof {
            assert(cursor@ =~= c0 + v4_header_template(src.0, dst.0));
        }

        // Save off the indexes of the fields which we'll edit later
        let to_fill = ToFill { len: 2, prot: 9, crc: 10 };

        // Split off the header
        proof {
            cursor.lemma_view();
        }
        let (hdr, cursor) = cursor.split_at_current();
        Some(BuilderV4 { hdr, to_fill, cursor: Some(cursor), src: *src, dst: *dst })
    }

    /// Gets the source IP address this builder was called with
    pub fn src_addr(&self) -> (r: Ipv4Addr)
        ensures
            r == self.src(),
    {
        self.src
    }

    /// Gets the destination IP address this builder was called with
    pub fn dst_addr(&self) -> (r: Ipv4Addr)
        ensures
            r == self.dst(),
    {
        self.dst
    }

    /// Offset of the header in the packet
    pub fn header_start(&self) -> (r: usize)
        ensures
            r == self.hdr_start(),
    {
        self.hdr.0
    }

    /// Sets the transport protocol field of the header in the packet of
    /// `cursor`
    pub fn set_protocol(&self, cursor: &mut PacketCursor, prot: TransportProtocol)
        requires
            self.wf(),
            old(cursor).wf(),
            self.hdr_start() + IPV4_HEADER_LEN <= old(cursor)@.len(),
        ensures
            final(cursor).wf(),
            final(cursor).base() == old(cursor).base(),
            final(cursor)@ == old(cursor)@.update(self.hdr_start() + 9int, prot.value()),
    {
        let b = [prot.to_u8()];
        cursor.write_at(self.hdr.0 + self.to_fill.prot, b.as_slice());
        proof {
            assert(b@ =~= seq![prot.value()]);
            let o = old(cursor)@;
            let at = self.hdr_start() + 9int;
            assert(cursor@ =~= o.update(at, prot.value()));
        }
    }

    /// Take out the cursor out of the builder
    pub fn take_cursor(&mut self) -> (r: Option<PacketCursor>)
        requires
            old(self).wf(),
        ensures
            final(self).wf(),
            r == old(self).cursor(),
            final(self).cursor() is None,
            final(self).hdr_start() == old(self).hdr_start(),
            final(self).src() == old(self).src(),
            final(self).dst() == old(self).dst(),
    {
        self.cursor.take()
    }

    /// Finalize the IP header in the packet of `cursor`: write the total
    /// length of the header and `payload_len` bytes of payload, then the
    /// checksum
    pub fn finalize(&self, cursor: &mut PacketCursor, payload_len: u16)
        requires
            self.wf(),
            old(cursor).wf(),
            self.hdr_start() + IPV4_HEADER_LEN <= old(cursor)@.len(),
            IPV4_HEADER_LEN + payload_len <= u16::MAX,
        ensures
            final(cursor).wf(),
            final(cursor).base() == old(cursor).base(),
            final(cursor)@ == splice(
                old(cursor)@,
                self.hdr_start() as int,
                v4_finalized_header(
                    old(cursor)@.subrange(
                        self.hdr_start() as int,
                        self.hdr_start() + IPV4_HEADER_LEN,
                    ),
                    payload_len,
                ),
            ),
    {
        let ghost o = cursor@;
        let ghost hs = self.hdr.0 as int;
        let ghost h0 = o.subrange(hs, hs + 20);

        // Sets the size of this IP header + `len` as the total packet size
        let size = IPV4_HEADER_LEN as u16 + payload_len;
        let len_bytes = [(size / 0x100) as u8, (size % 0x100) as u8];
        assert(len_bytes@ =~= u16_bytes(size));
        cursor.write_at(self.hdr.0 + self.to_fill.len, len_bytes.as_slice());
        let ghost h1 = put_u16(h0, 2, size);
        assert(cursor@.subrange(hs, hs + 20) =~= h1);

        // Calculates and sets the CRC field of this IP header
        let checksum = !Packet::checksum(cursor.region(self.hdr.0, self.hdr.1));
        let crc_bytes = [(checksum / 0x100) as u8, (checksum % 0x100) as u8];
        assert(crc_bytes@ =~= u16_bytes(checksum));
        cursor.write_at(self.hdr.0 + self.to_fill.crc, crc_bytes.as_slice());
        proof {
            let h2 = put_u16(h1, 10, checksum);
            assert(h2 == v4_finalized_header(h0, payload_len));
            assert(cursor@ =~= splice(o, hs, h2));
        }
    }
}


/// Folding a non-zero 32-bit sum twice gives a non-zero 16-bit value that is
/// congruent to it modulo 0xFFFF
pub proof fn lemma_fold_twice(x: nat)
    requires
        0 < x < 0x1_0000_0000,
    ensures
        1 <= fold16(fold16(x)) <= 0xFFFF,
        fold16(fold16(x)) % 0xFFFF == x % 0xFFFF,
{
    let q1 = x / 0x1_0000;
    let r1 = x % 0x1_0000;
    let y = fold16(x);
    assert(y == r1 + q1);
    assert(x == q1 * 0x1_0000 + r1) by (nonlinear_arith)
        requires
            q1 == x / 0x1_0000,
            r1 == x % 0x1_0000,
    ;
    assert(q1 < 0x1_0000) by (nonlinear_arith)
        requires
            q1 == x / 0x1_0000,
            x < 0x1_0000_0000,
    ;
    assert(y % 0xFFFF == x % 0xFFFF) by (nonlinear_arith)
        requires
            x == q1 * 0x1_0000 + r1,
            y == r1 + q1,
            0 <= q1,
            0 <= r1,
    ;
    assert(0 < y <= 0x1_FFFE);
    let q2 = y / 0x1_0000;
    let r2 = y % 0x1_0000;
    let z = fold16(y);
    assert(z == r2 + q2);
    assert(y == q2 * 0x1_0000 + r2) by (nonlinear_arith)
        requires
            q2 == y / 0x1_0000,
            r2 == y % 0x1_0000,
    ;
    assert(q2 <= 1);
    assert(z % 0xFFFF == y % 0xFFFF) by (nonlinear_arith)
        requires
            y == q2 * 0x1_0000 + r2,
            z == r2 + q2,
            0 <= q2,
            0 <= r2,
    ;
    assert(1 <= z <= 0xFFFF);
}

/// Filling the zero checksum field of a 20-byte header adds the checksum
/// word to the header's word sum, which stays below 2^32
proof fn lemma_header_sum(h: Seq<u8>, v: u16)
    requires
        h.len() == IPV4_HEADER_LEN,
        h[10] == 0,
        h[11] == 0,
    ensures
        raw_sum(put_u16(h, 10, v)) == raw_sum(h) + v,
        raw_sum(h) < 0x1_0000_0000,
{
    let f = put_u16(h, 10, v);
    reveal_with_fuel(words_sum, 11);
    assert(f.len() == 20);
    assert(f[10] as nat * 256 + f[11] as nat == v);
    assert(forall|i: int| 0 <= i < 20 && i != 10 && i != 11 ==> f[i] == h[i]);
}

/// A header whose checksum field is zero, once finalized, passes the
/// checksum check: the one's complement sum of all its words is all ones
pub proof fn lemma_finalized_header_checksum(h: Seq<u8>, payload_len: u16)
    requires
        h.len() == IPV4_HEADER_LEN,
        h[10] == 0,
        h[11] == 0,
    ensures
        v4_finalized_header(h, payload_len).len() == IPV4_HEADER_LEN,
        spec_checksum(v4_finalized_header(h, payload_len)) == 0xFFFF,
{
    let with_len = put_u16(h, 2, (IPV4_HEADER_LEN + payload_len) as u16);
    let c = spec_checksum(with_len);
    let nc: u16 = !c;
    assert(nc == 0xFFFF - c) by (bit_vector)
        requires
            nc == !c,
    ;
    let f = put_u16(with_len, 10, nc);
    assert(with_len.len() == 20);
    assert(with_len[10] == 0 && with_len[11] == 0);
    let sw = raw_sum(with_len);
    let sf = raw_sum(f);
    lemma_header_sum(with_len, nc);
    assert(sw < 0x1_0000_0000);
    assert(sw % 0x1_0000_0000 == sw);
    if sw == 0 {
        assert(c == 0);
        assert(sf == 0xFFFF);
        assert(spec_checksum(f) == 0xFFFF) by {
            assert(sf % 0x1_0000_0000 == 0xFFFF);
            assert(fold16(0xFFFF) == 0xFFFF);
        }
    } else {
        lemma_fold_twice(sw);
        assert(c as nat == fold16(fold16(sw)));
        assert(0 < sf < 0x1_0000_0000);
        assert(sf % 0xFFFF == 0) by (nonlinear_arith)
            requires
                sf == sw + (0xFFFF - c),
                c % 0xFFFF == sw % 0xFFFF,
                1 <= c <= 0xFFFF,
        ;
        lemma_fold_twice(sf);
        assert(sf % 0x1_0000_0000 == sf);
    }
}


/// What finalizing an IPv4 header changes: the total length and the
/// checksum, nothing else
pub proof fn lemma_finalized_fields(h: Seq<u8>, payload_len: u16)
    requires
        h.len() == IPV4_HEADER_LEN,
        IPV4_HEADER_LEN + payload_len <= 0xFFFF,
    ensures
        v4_finalized_header(h, payload_len).len() == IPV4_HEADER_LEN,
        v4_finalized_header(h, payload_len).subrange(2, 4) == u16_bytes(
            (IPV4_HEADER_LEN + payload_len) as u16,
        ),
        forall|i: int|
            0 <= i < IPV4_HEADER_LEN && i != 2 && i != 3 && i != 10 && i != 11 ==> #[trigger] v4_finalized_header(
                h,
                payload_len,
            )[i] == h[i],
{
    let with_len = put_u16(h, 2, (IPV4_HEADER_LEN + payload_len) as u16);
    let f = v4_finalized_header(h, payload_len);
    assert(f.subrange(2, 4) =~= u16_bytes((IPV4_HEADER_LEN + payload_len) as u16));
}


/// The IPv4 flags refused by the parser are exactly the reserved bit (0x80)
/// and the more-fragments bit (0x20); the Don't Fragment bit (0x40) is not
/// refused
pub proof fn lemma_v4_flags_rejected_bits(b: u8)
    ensures
        v4_flags_rejected(b) == (b & 0xA0 != 0),
{
    assert(((b / 32) % 2 == 1 || b / 128 == 1) == (b & 0xA0 != 0)) by (bit_vector);
}

/// The Don't Fragment bit (0x40 of the IPv4 flags byte) never decides the
/// parse: with the bit cleared, a packet parses, or is refused with the same
/// error, exactly as it was, and gives the same addresses, protocol and
/// payload
pub proof fn lemma_dont_fragment_ignored(s: Seq<u8>)
    requires
        s.len() > 20,
    ensures
        ({
            let t = s.update(20, s[20] & 0xBF);
            &&& (spec_parse_ipv4(s) is Ok <==> spec_parse_ipv4(t) is Ok)
            &&& spec_parse_ipv4(s) is Err ==> spec_parse_ipv4(s) == spec_parse_ipv4(t)
            &&& spec_parse_ipv4(s) is Ok ==> {
                let a = spec_parse_ipv4(s)->Ok_0;
                let b = spec_parse_ipv4(t)->Ok_0;
                &&& a.src_ip == b.src_ip
                &&& a.dst_ip == b.dst_ip
                &&& a.protocol == b.protocol
                &&& a.payload == b.payload
                &&& a.eth.eth_type == b.eth.eth_type
                &&& a.eth.src_mac == b.eth.src_mac
                &&& a.eth.dst_mac == b.eth.dst_mac
            }
        }),
{
    let t = s.update(20, s[20] & 0xBF);
    let p = s.subrange(14, s.len() as int);
    let q = t.subrange(14, t.len() as int);
    assert(q =~= p.update(6, p[6] & 0xBF));
    assert(t.subrange(0, 6) =~= s.subrange(0, 6));
    assert(t.subrange(6, 12) =~= s.subrange(6, 12));
    assert(t.subrange(12, 14) =~= s.subrange(12, 14));
    if p.len() >= IPV4_HEADER_LEN {
        assert(q.subrange(2, 4) =~= p.subrange(2, 4));
        assert(q.subrange(12, 16) =~= p.subrange(12, 16));
        assert(q.subrange(16, 20) =~= p.subrange(16, 20));
        let x = p[6];
        let y = p[7];
        let x2: u8 = x & 0xBF;
        assert(((x2 / 32) % 2 == 1 || x2 / 128 == 1) == ((x / 32) % 2 == 1 || x / 128 == 1)
            && x2 % 32 == x % 32) by (bit_vector)
            requires
                x2 == x & 0xBF,
        ;
        assert(q.subrange(6, 8) =~= seq![x2, y]);
        assert(p.subrange(6, 8) =~= seq![x, y]);
        assert(be_u16(seq![x2, y]) % 0x2000 == be_u16(seq![x, y]) % 0x2000) by {
            assert(x as int * 0x100 + y as int == (x / 32) as int * 0x2000 + ((x % 32) as int
                * 0x100 + y as int)) by (nonlinear_arith);
            assert(x2 as int * 0x100 + y as int == (x2 / 32) as int * 0x2000 + ((x2 % 32) as int
                * 0x100 + y as int)) by (nonlinear_arith);
            vstd::arithmetic::div_mod::lemma_mod_multiples_vanish(
                (x / 32) as int,
                (x % 32) as int * 0x100 + y as int,
                0x2000,
            );
            vstd::arithmetic::div_mod::lemma_mod_multiples_vanish(
                (x2 / 32) as int,
                (x2 % 32) as int * 0x100 + y as int,
                0x2000,
            );
        }
    }
}

} // verus!
