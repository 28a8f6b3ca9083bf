//! L3: UDP implementation

use vstd::prelude::*;
use crate::bytes::{be_u16, be_u32, u16_bytes, u32_bytes, get_range, read_be_u16, lemma_u16_roundtrip, lemma_u32_roundtrip};
use crate::net::{Port, NetAddress, Ipv6Addr, IpAddr};
use crate::net::packet::{Packet, PacketCursor, ParseError, MAX_PACKET_LEN, spec_checksum, fold16, raw_sum, words_sum};
use crate::net::protocols::{ip, eth};
use crate::net::protocols::ip::{ParsedView, spec_parse_ip, TransportProtocol};
use crate::net::protocols::ip::ip::{ip_header_bytes, same_version};
use crate::net::protocols::ip::v4::{splice, put_u16, lemma_fold_twice, v4_finalized_header, v4_header_template, lemma_finalized_fields, IPV4_HEADER_LEN, ETH_TYPE_IPV4};
use crate::net::protocols::ip::v6::{v6_finalized_header, v6_header_template, IPV6_HEADER_LEN, ETH_TYPE_IPV6};

verus! {

/// UDP protocol for the IP header
pub const IP_PROT_UDP: u8 = 0x11;

/// Size of a UDP header
pub const UDP_HEADER_LEN: usize = 8;

/// A parsed UDP header and payload
#[derive(Debug)]
pub struct Parsed<'a> {
    /// IP header
    pub ip: ip::Parsed<'a>,
    /// Source port
    pub src_port: Port,
    /// Destination port
    pub dst_port: Port,
    /// Raw byte payload
    pub payload: &'a [u8],
}

/// The fields of a parsed UDP packet
pub struct UdpView {
    pub ip: ParsedView,
    pub src_port: u16,
    pub dst_port: u16,
    pub payload: Seq<u8>,
}

impl<'a> View for Parsed<'a> {
    type V = UdpView;

    open spec fn view(&self) -> UdpView {
        UdpView {
            ip: self.ip@,
            src_port: self.src_port.0,
            dst_port: self.dst_port.0,
            payload: self.payload@,
        }
    }
}

/// The UDP packet that `s` holds, or the error returned for it
pub open spec fn spec_parse_udp(s: Seq<u8>) -> Result<UdpView, ParseError> {
    match spec_parse_ip(s) {
        Err(e) => Err(e),
        Ok(ip) => {
            let p = ip.payload();
            if ip.protocol() != IP_PROT_UDP {
                Err(ParseError::InvalidIpProtocol)
            } else if p.len() < UDP_HEADER_LEN {
                Err(ParseError::TruncatedPacket)
            } else {
                let length = be_u16(p.subrange(4, 6));
                if length < UDP_HEADER_LEN || length > p.len() {
                    Err(ParseError::InvalidLength)
                } else {
                    Ok(
                        UdpView {
                            ip,
                            src_port: be_u16(p.subrange(0, 2)),
                            dst_port: be_u16(p.subrange(2, 4)),
                            payload: p.subrange(8, length as int),
                        },
                    )
                }
            }
        },
    }
}

impl Packet {
    /// Parse UDP information from the packet
    pub fn parse_udp(&self) -> (r: Result<Parsed<'_>, ParseError>)
        requires
            self.wf(),
        ensures
            match r {
                Ok(p) => spec_parse_udp(self@) == Ok::<UdpView, ParseError>(p@),
                Err(e) => spec_parse_udp(self@) == Err::<UdpView, ParseError>(e),
            },
    {
        // Parse the IP information header
        let ip = self.parse_ip()?;

        // Check that we're parsing a UDP packet
        if ip.protocol() != IP_PROT_UDP {
            return Err(ParseError::InvalidIpProtocol);
        }

        // Parse the header
        let payload = ip.payload();
        let header = match get_range(payload, 0, UDP_HEADER_LEN) {
            Some(h) => h,
            None => return Err(ParseError::TruncatedPacket),
        };
        let src_port = Port(read_be_u16(header, 0));
        let dst_port = Port(read_be_u16(header, 2));
        let length = read_be_u16(header, 4) as usize;

        // Validate the length
        if length < header.len() || length > payload.len() {
            return Err(ParseError::InvalidLength);
        }

        proof {
            let p = payload@;
            assert(header@.subrange(0, 2) =~= p.subrange(0, 2));
            assert(header@.subrange(2, 4) =~= p.subrange(2, 4));
            assert(header@.subrange(4, 6) =~= p.subrange(4, 6));
        }

        let payload = vstd::slice::slice_subrange(payload, UDP_HEADER_LEN, length);
        Ok(Parsed { payload, src_port, dst_port, ip })
    }

    /// Create a UDP packet builder out of this packet
    ///
    /// Panics if the builder can't be created
    pub fn create_udp(self, addr: &NetAddress) -> (b: Builder)
        requires
            self.wf(),
            same_version(addr.src_ip, addr.dst_ip),
            self@.len() + 12 + ip_header_bytes(addr.src_ip, addr.dst_ip).len() + UDP_HEADER_LEN
                <= MAX_PACKET_LEN,
        ensures
            b.wf(),
            b.ip().hdr_start() == self@.len() + 14,
            b.hdr_start() == self@.len() + 14 + ip_header_len(addr.src_ip),
            b.ip().src_addr() == addr.src_ip,
            b.ip().dst_addr() == addr.dst_ip,
            b.ip().prot_offset() == ip_prot_offset(addr.src_ip),
            b.payload()@ == self@ + addr.dst_mac.0@ + addr.src_mac.0@ + ip_header_bytes(
                addr.src_ip,
                addr.dst_ip,
            ).update(2 + b.ip().prot_offset() as int, IP_PROT_UDP) + udp_header_template(
                addr.src_port.0,
                addr.dst_port.0,
            ),
    {
        proof {
            self.lemma_view();
        }
        match Builder::from_packet(self.cursor(), addr) {
            Some(b) => b,
            None => {
                proof {
                    assert(false);
                }
                unreached()
            },
        }
    }
}

/// The UDP header written by the builder before it is finalized
pub open spec fn udp_header_template(src: u16, dst: u16) -> Seq<u8> {
    u16_bytes(src) + u16_bytes(dst) + seq![0u8, 0, 0, 0]
}

impl ip::Builder {
    /// Creates a new UDP builder out of this IP builder
    pub fn udp(self, src: &Port, dst: &Port) -> (r: Option<Builder>)
        requires
            self.wf(),
            self.cursor() matches Some(c) && c.base() == c@.len() && c.base() == self.hdr_start()
                + self.hdr_len(),
        ensures
            self.cursor().unwrap()@.len() + UDP_HEADER_LEN <= MAX_PACKET_LEN <==> r is Some,
            r matches Some(b) ==> {
                &&& b.wf()
                &&& b.ip().hdr_start() == self.hdr_start()
                &&& b.hdr_start() == self.hdr_start() + self.hdr_len()
                &&& b.ip().prot_offset() == self.prot_offset()
                &&& b.ip().src_addr() == self.src_addr()
                &&& b.ip().dst_addr() == self.dst_addr()
                &&& (b.ip() is V4 <==> self is V4)
                &&& b.payload()@ == self.cursor().unwrap()@.update(
                    (self.hdr_start() + self.prot_offset()) as int,
                    IP_PROT_UDP,
                ) + udp_header_template(src.0, dst.0)
            },
    {
        let mut ip = self;
        proof {
            ip.lemma_wf();
        }
        // Take out the cursor as we're no longer gonna need it
        let cursor = match ip.take_cursor() {
            Some(c) => c,
            None => {
                proof {
                    assert(false);
                }
                unreached()
            },
        };
        proof {
            cursor.lemma_view();
        }
        Builder::new(ip, cursor, src, dst)
    }
}

/// Indexes of the UDP fields which have to be filled in when the packet is
/// finalized, relative to the start of the UDP header
pub struct ToFill {
    pub len: usize,
    pub crc: usize,
}

/// Builder for UDP packets
pub struct Builder {
    /// The IP header builder
    ip: ip::Builder,
    /// Offsets `(start, end)` of the UDP header in the packet
    hdr: (usize, usize),
    /// The cursor writing the UDP payload
    payload: PacketCursor,
    /// Fields to fill in later
    to_fill: ToFill,
}

/// The checksum of a transport layer packet: the one's complement sum of the
/// checksums of the pseudo-header, the header and the payload, complemented,
/// with a zero result sent as `0xFFFF`
pub open spec fn transport_checksum(pseudo: Seq<u8>, hdr: Seq<u8>, payload: Seq<u8>) -> u16 {
    let acc = spec_checksum(pseudo) as nat + spec_checksum(hdr) as nat + spec_checksum(
        payload,
    ) as nat;
    let sum = !(fold16(fold16(acc)) as u16);
    if sum == 0 {
        0xFFFF
    } else {
        sum
    }
}

/// The IPv6 pseudo-header for the addresses `src` and `dst`, a transport
/// packet of `len` bytes and the protocol `prot`
pub open spec fn v6_pseudo_header(src: Seq<u8>, dst: Seq<u8>, len: u32, prot: u8) -> Seq<u8> {
    src + dst + u32_bytes(len) + seq![0u8, 0, 0, prot]
}

/// The UDP checksum over an IPv6 pseudo-header for the addresses `src` and
/// `dst`, the UDP header `hdr` and the UDP payload
pub open spec fn udp_checksum_v6(src: Seq<u8>, dst: Seq<u8>, hdr: Seq<u8>, payload: Seq<u8>) -> u16 {
    transport_checksum(
        v6_pseudo_header(src, dst, (hdr.len() + payload.len()) as u32, IP_PROT_UDP),
        hdr,
        payload,
    )
}

/// Offset of the transport protocol field in the IP header of the version of
/// `a`
pub open spec fn ip_prot_offset(a: IpAddr) -> nat {
    match a {
        IpAddr::V4(_) => 9,
        IpAddr::V6(_) => 6,
    }
}

/// Length of the IP header of the version of `a`
pub open spec fn ip_header_len(a: IpAddr) -> nat {
    match a {
        IpAddr::V4(_) => IPV4_HEADER_LEN as nat,
        IpAddr::V6(_) => IPV6_HEADER_LEN as nat,
    }
}

/// The packet bytes `s0`, holding an IP header at `ihs` for the addresses
/// `src` and `dst` and a UDP header at `hs` followed by the payload, once the
/// UDP length, the IP header and (over IPv6) the UDP checksum are filled in
pub open spec fn udp_finalized(src: IpAddr, dst: IpAddr, ihs: int, hs: int, s0: Seq<u8>) -> Seq<u8> {
    let ps = hs + UDP_HEADER_LEN;
    let udp_len = (s0.len() - hs) as u16;
    let s1 = splice(s0, hs + 4, u16_bytes(udp_len));
    let h = s1.subrange(ihs, ihs + ip_header_len(src));
    let s2 = splice(
        s1,
        ihs,
        match src {
            IpAddr::V4(_) => v4_finalized_header(h, udp_len),
            IpAddr::V6(_) => v6_finalized_header(h, udp_len),
        },
    );
    match (src, dst) {
        (IpAddr::V6(sa), IpAddr::V6(da)) => splice(
            s2,
            hs + 6,
            u16_bytes(
                udp_checksum_v6(
                    sa.0@,
                    da.0@,
                    s2.subrange(hs, ps),
                    s2.subrange(ps, s2.len() as int),
                ),
            ),
        ),
        _ => s2,
    }
}

/// The bytes of a finalized UDP packet built after `prefix` for the address
/// `addr` with the payload `payload`
pub open spec fn udp_frame(prefix: Seq<u8>, addr: NetAddress, payload: Seq<u8>) -> Seq<u8> {
    let ihs = prefix.len() + 14;
    let hs = ihs + ip_header_len(addr.src_ip);
    let s0 = prefix + addr.dst_mac.0@ + addr.src_mac.0@ + ip_header_bytes(
        addr.src_ip,
        addr.dst_ip,
    ).update(2 + ip_prot_offset(addr.src_ip) as int, IP_PROT_UDP) + udp_header_template(
        addr.src_port.0,
        addr.dst_port.0,
    ) + payload;
    udp_finalized(addr.src_ip, addr.dst_ip, ihs as int, hs as int, s0)
}

impl Builder {
    /// The headers lie before the payload cursor, which starts after the UDP
    /// header
    pub closed spec fn wf(&self) -> bool {
        &&& self.ip.wf()
        &&& self.ip.cursor() is None
        &&& self.ip.hdr_start() + self.ip.hdr_len() <= self.hdr.0
        &&& self.hdr.1 == self.hdr.0 + UDP_HEADER_LEN
        &&& self.to_fill.len == 4
        &&& self.to_fill.crc == 6
        &&& self.payload.wf()
        &&& self.payload.base() == self.hdr.1
        &&& self.payload@.len() <= MAX_PACKET_LEN
    }

    /// What a well formed builder guarantees of its parts
    pub proof fn lemma_wf(&self)
        requires
            self.wf(),
        ensures
            self.payload().wf(),
            self.payload().base() == self.hdr_start() + UDP_HEADER_LEN,
            self.payload()@.len() <= MAX_PACKET_LEN,
            self.ip().wf(),
            self.ip().hdr_start() + self.ip().hdr_len() <= self.hdr_start(),
    {
    }

    /// The IP header builder
    pub closed spec fn ip(&self) -> ip::Builder {
        self.ip
    }

    /// Offset of the UDP header in the packet
    pub closed spec fn hdr_start(&self) -> nat {
        self.hdr.0 as nat
    }

    /// The cursor writing the payload
    pub closed spec fn payload(&self) -> PacketCursor {
        self.payload
    }

    /// The packet's bytes as `finalize()` leaves them
    pub open spec fn finalized(&self) -> Seq<u8> {
        udp_finalized(
            self.ip().src_addr(),
            self.ip().dst_addr(),
            self.ip().hdr_start() as int,
            self.hdr_start() as int,
            self.payload()@,
        )
    }

    /// Creates a new UDP builder, setting the IP protocol and writing the
    /// ports and zeroed length and checksum fields
    pub fn new(ip: ip::Builder, cursor: PacketCursor, src: &Port, dst: &Port) -> (r: Option<Builder>)
        requires
            ip.wf(),
            ip.cursor() is None,
            cursor.wf(),
            cursor.base() == cursor@.len(),
            ip.hdr_start() + ip.hdr_len() <= cursor.base(),
        ensures
            cursor@.len() + UDP_HEADER_LEN <= MAX_PACKET_LEN <==> r is Some,
            r matches Some(b) ==> {
                &&& b.wf()
                &&& b.ip() == ip
                &&& b.hdr_start() == cursor@.len()
                &&& b.payload()@ == cursor@.update(
                    (ip.hdr_start() + ip.prot_offset()) as int,
                    IP_PROT_UDP,
                ) + udp_header_template(src.0, dst.0)
            },
    {
        let mut cursor = cursor;
        proof {
            cursor.lemma_view();
        }
        if cursor.overall_position() > MAX_PACKET_LEN - UDP_HEADER_LEN {
            return None;
        }

        // Set the protocol
        ip.set_protocol(&mut cursor, TransportProtocol::Udp);
        let ghost c1 = cursor@;
        proof {
            cursor.lemma_view();
        }

        // Write down the ports
        cursor.write_u16(src.0)?;
        cursor.write_u16(dst.0)?;

        // Zero out the fields which have to be filled in later
        cursor.write_u16(0)?;
        cursor.write_u16(0)?;

        proof {
            cursor.lemma_view();
            assert(cursor@ =~= c1 + udp_header_template(src.0, dst.0));
        }

        // Split the header and the payload
        let (hdr, payload) = cursor.split_at_current();

        // Write down the fields that will have to be filled in later
        let to_fill = ToFill { len: 4, crc: 6 };

        Some(Builder { ip, hdr, payload, to_fill })
    }

    /// Creates a new UDP builder from this `cursor`
    pub fn from_packet(cursor: PacketCursor, addr: &NetAddress) -> (r: Option<Builder>)
        requires
            cursor.wf(),
            cursor.base() == 0,
        ensures
            same_version(addr.src_ip, addr.dst_ip) && cursor@.len() + 12 + ip_header_bytes(
                addr.src_ip,
                addr.dst_ip,
            ).len() + UDP_HEADER_LEN <= MAX_PACKET_LEN <==> r is Some,
            r matches Some(b) ==> {
                &&& b.wf()
                &&& b.ip().hdr_start() == cursor@.len() + 14
                &&& b.hdr_start() == cursor@.len() + 14 + ip_header_len(addr.src_ip)
                &&& b.ip().src_addr() == addr.src_ip
                &&& b.ip().dst_addr() == addr.dst_ip
                &&& (b.ip() is V4 <==> addr.src_ip is V4)
                &&& b.payload()@ == cursor@ + addr.dst_mac.0@ + addr.src_mac.0@ + ip_header_bytes(
                    addr.src_ip,
                    addr.dst_ip,
                ).update(2 + b.ip().prot_offset() as int, IP_PROT_UDP) + udp_header_template(
                    addr.src_port.0,
                    addr.dst_port.0,
                )
            },
    {
        let ghost c0 = cursor@;
        proof {
            cursor.lemma_view();
        }
        let e = eth::Builder::new(cursor, &addr.src_mac, &addr.dst_mac)?;
        proof {
            e.cursor.lemma_view();
        }
        let ipb = e.ip(&addr.src_ip, &addr.dst_ip)?;
        let ghost ic = ipb.cursor().unwrap()@;
        proof {
            ipb.lemma_wf();
            ipb.cursor().unwrap().lemma_view();
        }
        let r = ipb.udp(&addr.src_port, &addr.dst_port);
        proof {
            if let Some(b) = &r {
                let whole = c0 + addr.dst_mac.0@ + addr.src_mac.0@ + ip_header_bytes(
                    addr.src_ip,
                    addr.dst_ip,
                );
                assert(ic == whole);
                assert(whole.update((b.ip().hdr_start() + b.ip().prot_offset()) as int, IP_PROT_UDP)
                    =~= c0 + addr.dst_mac.0@ + addr.src_mac.0@ + ip_header_bytes(
                    addr.src_ip,
                    addr.dst_ip,
                ).update(2 + b.ip().prot_offset() as int, IP_PROT_UDP));
            }
        }
        r
    }

    /// Writes to the UDP payload if possible, as defined by the
    /// `PacketCursor::write()` spec
    pub fn write(&mut self, buf: &[u8]) -> (r: Option<(usize, usize)>)
        requires
            old(self).wf(),
        ensures
            final(self).wf(),
            final(self).ip() == old(self).ip(),
            final(self).hdr_start() == old(self).hdr_start(),
            old(self).payload()@.len() + buf@.len() <= MAX_PACKET_LEN ==> r is Some
                && final(self).payload()@ == old(self).payload()@ + buf@,
            old(self).payload()@.len() + buf@.len() > MAX_PACKET_LEN ==> r is None
                && final(self).payload()@ == old(self).payload()@,
    {
        self.payload.write(buf)
    }

    /// Finalizes the UDP packet, writing in all checksums and lengths, and
    /// gives back the packet
    pub fn finalize(self) -> (p: Packet)
        requires
            self.wf(),
        ensures
            p.wf(),
            p@ == self.finalized(),
    {
        let ghost spec_result = self.finalized();
        let ghost s0 = self.payload()@;
        let Builder { ip, hdr, mut payload, to_fill } = self;
        proof {
            payload.lemma_view();
        }

        // Get and write the UDP size
        let udp_len = write_len(&mut payload, hdr.0);
        let ghost s1 = payload@;

        // Finalize the IP header
        ip.finalize(&mut payload, udp_len);
        let ghost s2 = payload@;
        proof {
            payload.lemma_view();
        }

        // Calculates and writes the CRC if the IP layer uses IPv6, otherwise
        // keeps the CRC as 0, because IPv4 doesn't require it.
        match &ip {
            ip::Builder::V4(_) => {},
            ip::Builder::V6(ipv6) => {
                let src = ipv6.src_addr();
                let dst = ipv6.dst_addr();
                let checksum = checksum_v6(
                    &src,
                    &dst,
                    payload.region(hdr.0, hdr.1),
                    payload.get(),
                );
                let crc_bytes = [(checksum / 0x100) as u8, (checksum % 0x100) as u8];
                assert(crc_bytes@ =~= u16_bytes(checksum));
                payload.write_at(hdr.0 + to_fill.crc, crc_bytes.as_slice());
            },
        }
        proof {
            payload.lemma_view();
            assert(payload@ =~= spec_result);
        }
        payload.into_packet()
    }
}

/// Writes down the size of the UDP header at `hs` and the payload after it
/// into the header, and returns the size
fn write_len(cursor: &mut PacketCursor, hs: usize) -> (size: u16)
    requires
        old(cursor).wf(),
        hs + UDP_HEADER_LEN <= old(cursor)@.len() <= MAX_PACKET_LEN,
    ensures
        final(cursor).wf(),
        final(cursor).base() == old(cursor).base(),
        size == old(cursor)@.len() - hs,
        final(cursor)@ == splice(old(cursor)@, hs + 4, u16_bytes(size)),
{
    proof {
        cursor.lemma_view();
    }
    let size = (cursor.overall_position() - hs) as u16;
    let len_bytes = [(size / 0x100) as u8, (size % 0x100) as u8];
    assert(len_bytes@ =~= u16_bytes(size));
    cursor.write_at(hs + 4, len_bytes.as_slice());
    size
}

/// Calculates the UDP checksum over the IPv6 pseudo-header for `src` and
/// `dst`, the UDP header and the payload
fn checksum_v6(src: &Ipv6Addr, dst: &Ipv6Addr, hdr: &[u8], payload: &[u8]) -> (c: u16)
    requires
        hdr@.len() + payload@.len() <= MAX_PACKET_LEN,
    ensures
        c == udp_checksum_v6(src.0@, dst.0@, hdr@, payload@),
{
    // UDP length (header + payload)
    let udp_len = (hdr.len() + payload.len()) as u32;
    let pseudo_header = v6_pseudo_header_bytes(src, dst, udp_len, IP_PROT_UDP);
    transport_checksum_of(pseudo_header.as_slice(), hdr, payload)
}

/// The IPv6 pseudo-header for `src`, `dst`, a length and a protocol
pub fn v6_pseudo_header_bytes(src: &Ipv6Addr, dst: &Ipv6Addr, len: u32, prot: u8) -> (r: [u8; 40])
    ensures
        r@ == v6_pseudo_header(src.0@, dst.0@, len, prot),
{
    let lb = [
        (len / 0x100_0000) as u8,
        ((len / 0x1_0000) % 0x100) as u8,
        ((len / 0x100) % 0x100) as u8,
        (len % 0x100) as u8,
    ];
    let s = &src.0;
    let d = &dst.0;
    let ph = [
        s[0], s[1], s[2], s[3], s[4], s[5], s[6], s[7], s[8], s[9], s[10], s[11], s[12], s[13],
        s[14], s[15], d[0], d[1], d[2], d[3], d[4], d[5], d[6], d[7], d[8], d[9], d[10], d[11],
        d[12], d[13], d[14], d[15], lb[0], lb[1], lb[2], lb[3], 0, 0, 0, prot,
    ];
    assert(ph@ =~= v6_pseudo_header(src.0@, dst.0@, len, prot));
    ph
}

/// Calculates the transport checksum over a pseudo-header, a header and a
/// payload
pub fn transport_checksum_of(pseudo: &[u8], hdr: &[u8], payload: &[u8]) -> (c: u16)
    ensures
        c == transport_checksum(pseudo@, hdr@, payload@),
{
    // Start with an empty checksum accumulator
    let c1 = Packet::checksum(pseudo);
    let c2 = Packet::checksum(hdr);
    let c3 = Packet::checksum(payload);
    let acc: u32 = c1 as u32 + c2 as u32 + c3 as u32;

    // Final fold and complement
    let mut final_sum = acc % 0x1_0000 + acc / 0x1_0000;
    final_sum = final_sum % 0x1_0000 + final_sum / 0x1_0000;
    let checksum = !(final_sum as u16);
    if checksum == 0 {
        0xFFFF
    } else {
        checksum
    }
}


/// The UDP header once its length is filled in
pub open spec fn udp_header_with_len(src: u16, dst: u16, len: u16) -> Seq<u8> {
    u16_bytes(src) + u16_bytes(dst) + u16_bytes(len) + seq![0u8, 0]
}

/// The IPv4 header template of a UDP packet between `src` and `dst`
pub open spec fn udp_v4_template(src: u32, dst: u32) -> Seq<u8> {
    v4_header_template(src, dst).update(9int, IP_PROT_UDP)
}

/// Over IPv4 a finalized UDP frame is the MACs, the IPv4 ether type, the
/// finalized IPv4 header, the UDP header with its length and the payload
proof fn lemma_udp_v4_frame(addr: NetAddress, payload: Seq<u8>)
    requires
        addr.src_ip is V4,
        addr.dst_ip is V4,
        IPV4_HEADER_LEN + UDP_HEADER_LEN + payload.len() <= 0xFFFF,
    ensures
        udp_frame(Seq::empty(), addr, payload) == addr.dst_mac.0@ + addr.src_mac.0@ + u16_bytes(
            ETH_TYPE_IPV4,
        ) + v4_finalized_header(
            udp_v4_template(addr.src_ip->V4_0.0, addr.dst_ip->V4_0.0),
            (UDP_HEADER_LEN + payload.len()) as u16,
        ) + udp_header_with_len(
            addr.src_port.0,
            addr.dst_port.0,
            (UDP_HEADER_LEN + payload.len()) as u16,
        ) + payload,
{
    let n = payload.len();
    let udp_len = (UDP_HEADER_LEN + n) as u16;
    let e = u16_bytes(ETH_TYPE_IPV4);
    let t = udp_v4_template(addr.src_ip->V4_0.0, addr.dst_ip->V4_0.0);
    let u = udp_header_template(addr.src_port.0, addr.dst_port.0);
    let ihb = ip_header_bytes(addr.src_ip, addr.dst_ip).update(11int, IP_PROT_UDP);
    assert(ihb =~= e + t);
    let s0 = Seq::<u8>::empty() + addr.dst_mac.0@ + addr.src_mac.0@ + ihb + u + payload;
    let s1 = splice(s0, 38, u16_bytes(udp_len));
    let h = s1.subrange(14, 34);
    assert(h =~= t);
    let f = v4_finalized_header(h, udp_len);
    lemma_finalized_fields(h, udp_len);
    let u2 = udp_header_with_len(addr.src_port.0, addr.dst_port.0, udp_len);
    assert(s1 =~= addr.dst_mac.0@ + addr.src_mac.0@ + e + t + u2 + payload);
    assert(splice(s1, 14, f) =~= addr.dst_mac.0@ + addr.src_mac.0@ + e + f + u2 + payload);
}

/// Parsing the bytes of a UDP-over-IPv4 frame gives back its fields
#[verifier::rlimit(40)]
proof fn lemma_parse_udp_v4_bytes(
    dst_mac: Seq<u8>,
    src_mac: Seq<u8>,
    src: u32,
    dst: u32,
    sp: u16,
    dp: u16,
    payload: Seq<u8>,
)
    requires
        dst_mac.len() == 6,
        src_mac.len() == 6,
        IPV4_HEADER_LEN + UDP_HEADER_LEN + payload.len() <= 0xFFFF,
    ensures
        ({
            let udp_len = (UDP_HEADER_LEN + payload.len()) as u16;
            let s = dst_mac + src_mac + u16_bytes(ETH_TYPE_IPV4) + v4_finalized_header(
                udp_v4_template(src, dst),
                udp_len,
            ) + udp_header_with_len(sp, dp, udp_len) + payload;
            &&& spec_parse_udp(s) is Ok
            &&& spec_parse_udp(s)->Ok_0.src_port == sp
            &&& spec_parse_udp(s)->Ok_0.dst_port == dp
            &&& spec_parse_udp(s)->Ok_0.payload == payload
            &&& spec_parse_udp(s)->Ok_0.ip is V4
            &&& spec_parse_udp(s)->Ok_0.ip->V4_0.src_ip == src
            &&& spec_parse_udp(s)->Ok_0.ip->V4_0.dst_ip == dst
            &&& spec_parse_udp(s)->Ok_0.ip->V4_0.eth.dst_mac == dst_mac
            &&& spec_parse_udp(s)->Ok_0.ip->V4_0.eth.src_mac == src_mac
        }),
{
    let n = payload.len();
    let udp_len = (UDP_HEADER_LEN + n) as u16;
    let e = u16_bytes(ETH_TYPE_IPV4);
    let t = udp_v4_template(src, dst);
    let f = v4_finalized_header(t, udp_len);
    lemma_finalized_fields(t, udp_len);
    let u2 = udp_header_with_len(sp, dp, udp_len);
    let s = dst_mac + src_mac + e + f + u2 + payload;

    // Ethernet
    lemma_u16_roundtrip(ETH_TYPE_IPV4);
    assert(s.subrange(0, 6) =~= dst_mac);
    assert(s.subrange(6, 12) =~= src_mac);
    assert(s.subrange(12, 14) =~= e);
    let p = s.subrange(14, s.len() as int);
    assert(p =~= f + u2 + payload);

    // IPv4
    assert(p.subrange(6, 8) =~= seq![0u8, 0u8]);
    assert(p.subrange(2, 4) =~= f.subrange(2, 4));
    lemma_u16_roundtrip((IPV4_HEADER_LEN + udp_len) as u16);
    lemma_u32_roundtrip(src);
    lemma_u32_roundtrip(dst);
    assert(p.subrange(12, 16) =~= u32_bytes(src));
    assert(p.subrange(16, 20) =~= u32_bytes(dst));
    let ipp = p.subrange(20, (IPV4_HEADER_LEN + udp_len) as int);
    assert(ipp =~= u2 + payload);

    // UDP
    lemma_u16_roundtrip(udp_len);
    lemma_u16_roundtrip(sp);
    lemma_u16_roundtrip(dp);
    assert(ipp.subrange(4, 6) =~= u16_bytes(udp_len));
    assert(ipp.subrange(0, 2) =~= u16_bytes(sp));
    assert(ipp.subrange(2, 4) =~= u16_bytes(dp));
    assert(ipp.subrange(8, udp_len as int) =~= payload);
}

/// Over IPv4, parsing a finalized UDP frame gives back the ports, the
/// addresses and the payload it was built with
pub proof fn lemma_udp_v4_roundtrip(addr: NetAddress, payload: Seq<u8>)
    requires
        addr.src_ip is V4,
        addr.dst_ip is V4,
        IPV4_HEADER_LEN + UDP_HEADER_LEN + payload.len() <= 0xFFFF,
    ensures
        spec_parse_udp(udp_frame(Seq::empty(), addr, payload)) is Ok,
        spec_parse_udp(udp_frame(Seq::empty(), addr, payload))->Ok_0.src_port == addr.src_port.0,
        spec_parse_udp(udp_frame(Seq::empty(), addr, payload))->Ok_0.dst_port == addr.dst_port.0,
        spec_parse_udp(udp_frame(Seq::empty(), addr, payload))->Ok_0.payload == payload,
        spec_parse_udp(udp_frame(Seq::empty(), addr, payload))->Ok_0.ip is V4,
        spec_parse_udp(udp_frame(Seq::empty(), addr, payload))->Ok_0.ip->V4_0.src_ip
            == addr.src_ip->V4_0.0,
        spec_parse_udp(udp_frame(Seq::empty(), addr, payload))->Ok_0.ip->V4_0.dst_ip
            == addr.dst_ip->V4_0.0,
        spec_parse_udp(udp_frame(Seq::empty(), addr, payload))->Ok_0.ip->V4_0.eth.dst_mac
            == addr.dst_mac.0@,
        spec_parse_udp(udp_frame(Seq::empty(), addr, payload))->Ok_0.ip->V4_0.eth.src_mac
            == addr.src_mac.0@,
{
    lemma_udp_v4_frame(addr, payload);
    lemma_parse_udp_v4_bytes(
        addr.dst_mac.0@,
        addr.src_mac.0@,
        addr.src_ip->V4_0.0,
        addr.dst_ip->V4_0.0,
        addr.src_port.0,
        addr.dst_port.0,
        payload,
    );
}

/// The IPv6 header template of a UDP packet between `src` and `dst`
pub open spec fn udp_v6_template(src: Seq<u8>, dst: Seq<u8>) -> Seq<u8> {
    v6_header_template(src, dst).update(6int, IP_PROT_UDP)
}

/// The UDP header once its length and its checksum are filled in
pub open spec fn udp_header_full(src: u16, dst: u16, len: u16, checksum: u16) -> Seq<u8> {
    u16_bytes(src) + u16_bytes(dst) + u16_bytes(len) + u16_bytes(checksum)
}

/// Over IPv6 a finalized UDP frame is the MACs, the IPv6 ether type, the
/// finalized IPv6 header, the UDP header with its length and its checksum
/// over the pseudo-header, and the payload
proof fn lemma_udp_v6_frame(addr: NetAddress, payload: Seq<u8>)
    requires
        addr.src_ip is V6,
        addr.dst_ip is V6,
        UDP_HEADER_LEN + payload.len() <= 0xFFFF,
    ensures
        ({
            let udp_len = (UDP_HEADER_LEN + payload.len()) as u16;
            let src = addr.src_ip->V6_0.0@;
            let dst = addr.dst_ip->V6_0.0@;
            udp_frame(Seq::empty(), addr, payload) == addr.dst_mac.0@ + addr.src_mac.0@
                + u16_bytes(ETH_TYPE_IPV6) + v6_finalized_header(udp_v6_template(src, dst), udp_len)
                + udp_header_full(
                addr.src_port.0,
                addr.dst_port.0,
                udp_len,
                udp_checksum_v6(
                    src,
                    dst,
                    udp_header_with_len(addr.src_port.0, addr.dst_port.0, udp_len),
                    payload,
                ),
            ) + payload
        }),
{
    let n = payload.len();
    let udp_len = (UDP_HEADER_LEN + n) as u16;
    let src = addr.src_ip->V6_0.0@;
    let dst = addr.dst_ip->V6_0.0@;
    let e = u16_bytes(ETH_TYPE_IPV6);
    let t = udp_v6_template(src, dst);
    let u = udp_header_template(addr.src_port.0, addr.dst_port.0);
    let ihb = ip_header_bytes(addr.src_ip, addr.dst_ip).update(8int, IP_PROT_UDP);
    assert(ihb =~= e + t);
    let s0 = Seq::<u8>::empty() + addr.dst_mac.0@ + addr.src_mac.0@ + ihb + u + payload;
    let s1 = splice(s0, 58, u16_bytes(udp_len));
    let h = s1.subrange(14, 54);
    assert(h =~= t);
    let f = v6_finalized_header(h, udp_len);
    assert(f.len() == 40);
    let u2 = udp_header_with_len(addr.src_port.0, addr.dst_port.0, udp_len);
    assert(s1 =~= addr.dst_mac.0@ + addr.src_mac.0@ + e + t + u2 + payload);
    let s2 = splice(s1, 14, f);
    assert(s2 =~= addr.dst_mac.0@ + addr.src_mac.0@ + e + f + u2 + payload);
    assert(s2.subrange(54, 62) =~= u2);
    assert(s2.subrange(62, s2.len() as int) =~= payload);
    let c = udp_checksum_v6(src, dst, u2, payload);
    let u3 = udp_header_full(addr.src_port.0, addr.dst_port.0, udp_len, c);
    assert(splice(s2, 60, u16_bytes(c)) =~= addr.dst_mac.0@ + addr.src_mac.0@ + e + f + u3
        + payload);
}

/// Parsing the bytes of a UDP-over-IPv6 frame gives back its fields,
/// whatever its checksum
#[verifier::rlimit(40)]
proof fn lemma_parse_udp_v6_bytes(
    dst_mac: Seq<u8>,
    src_mac: Seq<u8>,
    src: Seq<u8>,
    dst: Seq<u8>,
    sp: u16,
    dp: u16,
    checksum: u16,
    payload: Seq<u8>,
)
    requires
        dst_mac.len() == 6,
        src_mac.len() == 6,
        src.len() == 16,
        dst.len() == 16,
        UDP_HEADER_LEN + payload.len() <= 0xFFFF,
    ensures
        ({
            let udp_len = (UDP_HEADER_LEN + payload.len()) as u16;
            let s = dst_mac + src_mac + u16_bytes(ETH_TYPE_IPV6) + v6_finalized_header(
                udp_v6_template(src, dst),
                udp_len,
            ) + udp_header_full(sp, dp, udp_len, checksum) + payload;
            &&& spec_parse_udp(s) is Ok
            &&& spec_parse_udp(s)->Ok_0.src_port == sp
            &&& spec_parse_udp(s)->Ok_0.dst_port == dp
            &&& spec_parse_udp(s)->Ok_0.payload == payload
            &&& spec_parse_udp(s)->Ok_0.ip is V6
            &&& spec_parse_udp(s)->Ok_0.ip->V6_0.src_ip == src
            &&& spec_parse_udp(s)->Ok_0.ip->V6_0.dst_ip == dst
            &&& spec_parse_udp(s)->Ok_0.ip->V6_0.eth.dst_mac == dst_mac
            &&& spec_parse_udp(s)->Ok_0.ip->V6_0.eth.src_mac == src_mac
        }),
{
    let n = payload.len();
    let udp_len = (UDP_HEADER_LEN + n) as u16;
    let e = u16_bytes(ETH_TYPE_IPV6);
    let t = udp_v6_template(src, dst);
    let f = v6_finalized_header(t, udp_len);
    let u3 = udp_header_full(sp, dp, udp_len, checksum);
    let s = dst_mac + src_mac + e + f + u3 + payload;

    // Ethernet, which is no IPv4
    lemma_u16_roundtrip(ETH_TYPE_IPV6);
    assert(s.subrange(0, 6) =~= dst_mac);
    assert(s.subrange(6, 12) =~= src_mac);
    assert(s.subrange(12, 14) =~= e);
    let p = s.subrange(14, s.len() as int);
    assert(p =~= f + u3 + payload);

    // IPv6
    assert(f.len() == 40);
    assert(p[0] == 0x60u8);
    assert(p[6] == IP_PROT_UDP);
    assert(p.subrange(4, 6) =~= u16_bytes(udp_len));
    lemma_u16_roundtrip(udp_len);
    assert(p.subrange(8, 24) =~= src);
    assert(p.subrange(24, 40) =~= dst);
    let ipp = p.subrange(40, 40 + udp_len);
    assert(ipp =~= u3 + payload);

    // UDP
    lemma_u16_roundtrip(sp);
    lemma_u16_roundtrip(dp);
    assert(ipp.subrange(4, 6) =~= u16_bytes(udp_len));
    assert(ipp.subrange(0, 2) =~= u16_bytes(sp));
    assert(ipp.subrange(2, 4) =~= u16_bytes(dp));
    assert(ipp.subrange(8, udp_len as int) =~= payload);
}

/// Over IPv6, parsing a finalized UDP frame gives back the ports, the
/// addresses and the payload it was built with
pub proof fn lemma_udp_v6_roundtrip(addr: NetAddress, payload: Seq<u8>)
    requires
        addr.src_ip is V6,
        addr.dst_ip is V6,
        UDP_HEADER_LEN + payload.len() <= 0xFFFF,
    ensures
        spec_parse_udp(udp_frame(Seq::empty(), addr, payload)) is Ok,
        spec_parse_udp(udp_frame(Seq::empty(), addr, payload))->Ok_0.src_port == addr.src_port.0,
        spec_parse_udp(udp_frame(Seq::empty(), addr, payload))->Ok_0.dst_port == addr.dst_port.0,
        spec_parse_udp(udp_frame(Seq::empty(), addr, payload))->Ok_0.payload == payload,
        spec_parse_udp(udp_frame(Seq::empty(), addr, payload))->Ok_0.ip is V6,
        spec_parse_udp(udp_frame(Seq::empty(), addr, payload))->Ok_0.ip->V6_0.src_ip
            == addr.src_ip->V6_0.0@,
        spec_parse_udp(udp_frame(Seq::empty(), addr, payload))->Ok_0.ip->V6_0.dst_ip
            == addr.dst_ip->V6_0.0@,
        spec_parse_udp(udp_frame(Seq::empty(), addr, payload))->Ok_0.ip->V6_0.eth.dst_mac
            == addr.dst_mac.0@,
        spec_parse_udp(udp_frame(Seq::empty(), addr, payload))->Ok_0.ip->V6_0.eth.src_mac
            == addr.src_mac.0@,
{
    let udp_len = (UDP_HEADER_LEN + payload.len()) as u16;
    let src = addr.src_ip->V6_0.0@;
    let dst = addr.dst_ip->V6_0.0@;
    lemma_udp_v6_frame(addr, payload);
    lemma_parse_udp_v6_bytes(
        addr.dst_mac.0@,
        addr.src_mac.0@,
        src,
        dst,
        addr.src_port.0,
        addr.dst_port.0,
        udp_checksum_v6(
            src,
            dst,
            udp_header_with_len(addr.src_port.0, addr.dst_port.0, udp_len),
            payload,
        ),
        payload,
    );
}

/// The sum of the first `n` words of `s` is at most `n` times the largest
/// word
proof fn lemma_words_sum_bound(s: Seq<u8>, n: nat)
    requires
        2 * n <= s.len(),
    ensures
        words_sum(s, n) <= n * 0xFFFF,
    decreases n,
{
    if n > 0 {
        lemma_words_sum_bound(s, (n - 1) as nat);
    }
}

/// The word sum of a sequence of fewer than 131072 bytes leaves room in 32
/// bits for one more word
proof fn lemma_raw_sum_bound(s: Seq<u8>)
    requires
        s.len() < 0x2_0000,
    ensures
        raw_sum(s) + 0xFFFF < 0x1_0000_0000,
{
    lemma_words_sum_bound(s, s.len() / 2);
    assert((s.len() / 2) * 0xFFFF <= 0xFFFF * 0xFFFF) by (nonlinear_arith)
        requires
            s.len() < 0x2_0000,
    ;
    if s.len() % 2 == 1 {
        assert(s.len() / 2 <= 0xFFFF);
        assert(s[s.len() - 1] as nat * 256 <= 0xFF00);
    }
}

/// Writing the word `v` over a zero word at the even offset `off` adds `v` to
/// the sums of the words from there on
proof fn lemma_words_sum_put(h: Seq<u8>, off: int, v: u16, n: nat)
    requires
        0 <= off,
        off % 2 == 0,
        off + 2 <= h.len(),
        h[off] == 0,
        h[off + 1] == 0,
        2 * n <= h.len(),
    ensures
        words_sum(put_u16(h, off, v), n) == words_sum(h, n) + if n > off / 2 {
            v as nat
        } else {
            0
        },
    decreases n,
{
    let f = put_u16(h, off, v);
    if n > 0 {
        lemma_words_sum_put(h, off, v, (n - 1) as nat);
        let i = 2 * (n - 1);
        if n - 1 == off / 2 {
            assert(i == off);
            assert(f[i] as nat * 256 + f[i + 1] as nat == v);
        } else {
            assert(i != off && i + 1 != off && i != off + 1 && i + 1 != off + 1);
            assert(f[i] == h[i]);
            assert(f[i + 1] == h[i + 1]);
        }
    }
}

/// Writing the word `v` over a zero word at the even offset `off` adds `v` to
/// the word sum
proof fn lemma_raw_sum_put(h: Seq<u8>, off: int, v: u16)
    requires
        0 <= off,
        off % 2 == 0,
        off + 2 <= h.len(),
        h[off] == 0,
        h[off + 1] == 0,
    ensures
        raw_sum(put_u16(h, off, v)) == raw_sum(h) + v,
{
    let f = put_u16(h, off, v);
    assert(f.len() == h.len());
    lemma_words_sum_put(h, off, v, h.len() / 2);
    if h.len() % 2 == 1 {
        assert(f[h.len() - 1] == h[h.len() - 1]);
    }
}

/// Folding a 32-bit sum twice keeps it modulo 0xFFFF, and keeps it non-zero
proof fn lemma_fold_twice_any(x: nat)
    requires
        x < 0x1_0000_0000,
    ensures
        fold16(fold16(x)) <= 0xFFFF,
        fold16(fold16(x)) % 0xFFFF == x % 0xFFFF,
        x > 0 ==> fold16(fold16(x)) >= 1,
{
    if x > 0 {
        lemma_fold_twice(x);
    }
}

/// The complement of the folded sum `a` as a transport checksum is sent:
/// non-zero, and completing `a` to a multiple of 0xFFFF
proof fn lemma_complement_completes(a: nat)
    requires
        a < 0x1_0000_0000,
    ensures
        ({
            let sum = !(fold16(fold16(a)) as u16);
            let c: u16 = if sum == 0 { 0xFFFF } else { sum };
            c >= 1 && (a + c) % 0xFFFF == 0
        }),
{
    let f = fold16(fold16(a));
    lemma_fold_twice_any(a);
    let fu = f as u16;
    let sum: u16 = !fu;
    assert(sum == 0xFFFF - fu) by (bit_vector)
        requires
            sum == !fu,
    ;
    let c: u16 = if sum == 0 { 0xFFFF } else { sum };
    assert((a + c) % 0xFFFF == 0) by (nonlinear_arith)
        requires
            f % 0xFFFF == a % 0xFFFF,
            f <= 0xFFFF,
            fu == f,
            sum == 0xFFFF - fu,
            c == (if sum == 0 { 0xFFFF } else { sum }),
    ;
}

/// The checksum of a header whose zero word at `off` is replaced by `c` is
/// non-zero and congruent to the header's checksum plus `c`
proof fn lemma_checksum_put(hdr: Seq<u8>, off: int, c: u16)
    requires
        hdr.len() < 0x2_0000,
        0 <= off,
        off % 2 == 0,
        off + 2 <= hdr.len(),
        hdr[off] == 0,
        hdr[off + 1] == 0,
        c >= 1,
    ensures
        spec_checksum(put_u16(hdr, off, c)) >= 1,
        spec_checksum(put_u16(hdr, off, c)) as nat % 0xFFFF == (spec_checksum(hdr) as nat + c)
            % 0xFFFF,
{
    let h2 = put_u16(hdr, off, c);
    lemma_raw_sum_put(hdr, off, c);
    lemma_raw_sum_bound(hdr);
    let rh = raw_sum(hdr);
    let rh2 = raw_sum(h2);
    assert(rh % 0x1_0000_0000 == rh);
    assert(rh2 % 0x1_0000_0000 == rh2);
    lemma_fold_twice_any(rh);
    lemma_fold_twice_any(rh2);
    let ch = spec_checksum(hdr) as nat;
    let ch2 = spec_checksum(h2) as nat;
    assert(ch2 % 0xFFFF == (ch + c) % 0xFFFF) by (nonlinear_arith)
        requires
            ch2 % 0xFFFF == rh2 % 0xFFFF,
            ch % 0xFFFF == rh % 0xFFFF,
            rh2 == rh + c,
    ;
}

/// Storing the complement of the checksum of a buffer of fewer than 131072
/// bytes over a zero word at an even offset makes the buffer verify: its
/// checksum becomes all ones. (Past that size the 32-bit sum may wrap, and
/// the wrapped carry is lost.)
pub proof fn lemma_checksum_complement_verifies(b: Seq<u8>, k: int)
    requires
        b.len() < 0x2_0000,
        0 <= k,
        k % 2 == 0,
        k + 2 <= b.len(),
        b[k] == 0,
        b[k + 1] == 0,
    ensures
        spec_checksum(put_u16(b, k, !spec_checksum(b))) == 0xFFFF,
{
    let x = raw_sum(b);
    lemma_raw_sum_bound(b);
    assert(x % 0x1_0000_0000 == x);
    lemma_fold_twice_any(x);
    let f = spec_checksum(b);
    let c: u16 = !f;
    assert(c == 0xFFFF - f) by (bit_vector)
        requires
            c == !f,
    ;
    lemma_raw_sum_put(b, k, c);
    let x2 = raw_sum(put_u16(b, k, c));
    assert(x2 % 0x1_0000_0000 == x2);
    if x == 0 {
        assert(x2 == 0xFFFF);
        assert(fold16(0xFFFF) == 0xFFFF);
    } else {
        assert(x2 % 0xFFFF == 0) by (nonlinear_arith)
            requires
                x2 == x + c,
                c == 0xFFFF - f,
                f % 0xFFFF == x % 0xFFFF,
                f <= 0xFFFF,
        ;
        lemma_fold_twice_any(x2);
    }
}

/// A transport checksum written over the zero checksum word of its header
/// verifies: the one's complement sum of the checksums of the
/// pseudo-header, the finished header and the payload is all ones
pub proof fn lemma_transport_checksum_verifies(
    pseudo: Seq<u8>,
    hdr: Seq<u8>,
    payload: Seq<u8>,
    off: int,
)
    requires
        hdr.len() < 0x2_0000,
        0 <= off,
        off % 2 == 0,
        off + 2 <= hdr.len(),
        hdr[off] == 0,
        hdr[off + 1] == 0,
    ensures
        fold16(
            fold16(
                spec_checksum(pseudo) as nat + spec_checksum(
                    put_u16(hdr, off, transport_checksum(pseudo, hdr, payload)),
                ) as nat + spec_checksum(payload) as nat,
            ),
        ) == 0xFFFF,
{
    let cp = spec_checksum(pseudo) as nat;
    let ch = spec_checksum(hdr) as nat;
    let cl = spec_checksum(payload) as nat;
    let a = cp + ch + cl;
    let c = transport_checksum(pseudo, hdr, payload);
    lemma_complement_completes(a);
    lemma_checksum_put(hdr, off, c);
    let ch2 = spec_checksum(put_u16(hdr, off, c)) as nat;
    let a2 = cp + ch2 + cl;
    assert(a2 % 0xFFFF == 0) by (nonlinear_arith)
        requires
            ch2 % 0xFFFF == (ch + c) % 0xFFFF,
            a == cp + ch + cl,
            a2 == cp + ch2 + cl,
            (a + c) % 0xFFFF == 0,
    ;
    lemma_fold_twice_any(a2);
}

/// The first `m` words of `a + b` are those of `a`, while they lie in `a`
proof fn lemma_words_sum_prefix(a: Seq<u8>, b: Seq<u8>, m: nat)
    requires
        2 * m <= a.len(),
    ensures
        words_sum(a + b, m) == words_sum(a, m),
    decreases m,
{
    if m > 0 {
        lemma_words_sum_prefix(a, b, (m - 1) as nat);
    }
}

/// Past an even-length `a`, the words of `a + b` are those of `b`
proof fn lemma_words_sum_shift(a: Seq<u8>, b: Seq<u8>, n: nat)
    requires
        a.len() % 2 == 0,
        2 * n <= b.len(),
    ensures
        words_sum(a + b, a.len() / 2 + n) == words_sum(a, a.len() / 2) + words_sum(b, n),
    decreases n,
{
    if n == 0 {
        lemma_words_sum_prefix(a, b, a.len() / 2);
    } else {
        lemma_words_sum_shift(a, b, (n - 1) as nat);
        let i = 2 * (a.len() / 2 + n - 1);
        assert((a + b)[i] == b[2 * (n - 1)]);
        assert((a + b)[i + 1] == b[2 * (n - 1) + 1]);
    }
}

/// The word sum of an even-length `a` followed by `b` is the sum of theirs
pub proof fn lemma_raw_sum_concat(a: Seq<u8>, b: Seq<u8>)
    requires
        a.len() % 2 == 0,
    ensures
        raw_sum(a + b) == raw_sum(a) + raw_sum(b),
{
    let ab = a + b;
    assert(ab.len() / 2 == a.len() / 2 + b.len() / 2);
    lemma_words_sum_shift(a, b, b.len() / 2);
    if b.len() % 2 == 1 {
        assert(ab[ab.len() - 1] == b[b.len() - 1]);
    }
}

/// A transport packet verifies over its bytes: the checksum of the
/// pseudo-header, the header with the transport checksum written over its
/// zero checksum word, and the payload, one after the other, is all ones,
/// when the pseudo-header and the header have even lengths and the whole is
/// shorter than 131072 bytes
pub proof fn lemma_transport_checksum_verifies_bytes(
    pseudo: Seq<u8>,
    hdr: Seq<u8>,
    payload: Seq<u8>,
    off: int,
)
    requires
        pseudo.len() % 2 == 0,
        hdr.len() % 2 == 0,
        pseudo.len() + hdr.len() + payload.len() < 0x2_0000,
        0 <= off,
        off % 2 == 0,
        off + 2 <= hdr.len(),
        hdr[off] == 0,
        hdr[off + 1] == 0,
    ensures
        spec_checksum(
            pseudo + put_u16(hdr, off, transport_checksum(pseudo, hdr, payload)) + payload,
        ) == 0xFFFF,
{
    let c = transport_checksum(pseudo, hdr, payload);
    let h2 = put_u16(hdr, off, c);
    let whole = pseudo + h2 + payload;
    assert(h2.len() == hdr.len());
    lemma_raw_sum_concat(pseudo, h2);
    lemma_raw_sum_concat(pseudo + h2, payload);
    lemma_raw_sum_put(hdr, off, c);
    lemma_raw_sum_bound(whole);
    let rp = raw_sum(pseudo);
    let rh = raw_sum(hdr);
    let rl = raw_sum(payload);
    let t = raw_sum(whole);
    assert(t == rp + rh + c + rl);
    assert(rp % 0x1_0000_0000 == rp);
    assert(rh % 0x1_0000_0000 == rh);
    assert(rl % 0x1_0000_0000 == rl);
    assert(t % 0x1_0000_0000 == t);
    lemma_fold_twice_any(rp);
    lemma_fold_twice_any(rh);
    lemma_fold_twice_any(rl);
    let cp = spec_checksum(pseudo) as nat;
    let ch = spec_checksum(hdr) as nat;
    let cl = spec_checksum(payload) as nat;
    lemma_complement_completes(cp + ch + cl);
    assert(t % 0xFFFF == 0) by (nonlinear_arith)
        requires
            t == rp + rh + c + rl,
            cp % 0xFFFF == rp % 0xFFFF,
            ch % 0xFFFF == rh % 0xFFFF,
            cl % 0xFFFF == rl % 0xFFFF,
            (cp + ch + cl + c) % 0xFFFF == 0,
    ;
    lemma_fold_twice_any(t);
}

} // verus!
