//! L3: TCP implementation

use vstd::prelude::*;
use crate::bytes::{be_u16, be_u32, u16_bytes, u32_bytes, read_be_u16, read_be_u32, lemma_u16_roundtrip, lemma_u32_roundtrip};
use crate::net::{Port, NetAddress, Ipv4Addr, IpAddr};
use crate::net::packet::{Packet, PacketCursor, ParseError, MAX_PACKET_LEN};
use crate::net::protocols::{ip, eth};
use crate::net::protocols::ip::{ParsedView, spec_parse_ip, TransportProtocol};
use crate::net::protocols::ip::ip::{ip_header_bytes, same_version};
use crate::net::protocols::ip::v4::{splice, put_u16, v4_finalized_header, v4_header_template, lemma_finalized_fields, IPV4_HEADER_LEN, ETH_TYPE_IPV4};
use crate::net::protocols::ip::v6::{v6_finalized_header, v6_header_template, ETH_TYPE_IPV6};
use crate::net::protocols::udp::{
    transport_checksum, v6_pseudo_header, v6_pseudo_header_bytes, transport_checksum_of,
    ip_header_len, ip_prot_offset,
};

verus! {

/// Maximum number of bytes to use for TCP windows
pub const WINDOW_SIZE: usize = 0xFFFF;

/// TCP protocol for the IP header
pub const IP_PROT_TCP: u8 = 0x6;

/// Maximum MSS the TCP stack will use
pub const MAX_MSS: usize = 1420;

/// TCP synchronize flag (indicates a request to sync sequence numbers)
pub const TCP_SYN: u8 = 1 << 1;

/// TCP reset flag (resets a TCP connection)
pub const TCP_RST: u8 = 1 << 2;

/// TCP acknowledge
pub const TCP_ACK: u8 = 1 << 4;

/// Minimum TCP header size in bytes
pub const TCP_MIN_HEADER_LEN: usize = 20;

/// A parsed TCP header and payload
#[derive(Debug)]
pub struct Parsed<'a> {
    /// IP header
    pub ip: ip::Parsed<'a>,
    /// Source port
    pub src_port: Port,
    /// Destination port
    pub dst_port: Port,
    /// Sequence identifier
    pub seq: u32,
    /// ACK number
    pub ack: u32,
    /// Size of the receive window
    pub window: u16,
    /// TCP flags
    pub flags: u8,
    /// Raw byte payload
    pub payload: &'a [u8],
}

/// The fields of a parsed TCP packet
pub struct TcpView {
    pub ip: ParsedView,
    pub src_port: u16,
    pub dst_port: u16,
    pub seq: u32,
    pub ack: u32,
    pub window: u16,
    pub flags: u8,
    pub payload: Seq<u8>,
}

impl<'a> View for Parsed<'a> {
    type V = TcpView;

    open spec fn view(&self) -> TcpView {
        TcpView {
            ip: self.ip@,
            src_port: self.src_port.0,
            dst_port: self.dst_port.0,
            seq: self.seq,
            ack: self.ack,
            window: self.window,
            flags: self.flags,
            payload: self.payload@,
        }
    }
}

/// The TCP packet that `s` holds, or the error returned for it
pub open spec fn spec_parse_tcp(s: Seq<u8>) -> Result<TcpView, ParseError> {
    match spec_parse_ip(s) {
        Err(e) => Err(e),
        Ok(ip) => {
            let p = ip.payload();
            if ip.protocol() != IP_PROT_TCP {
                Err(ParseError::InvalidIpProtocol)
            } else if p.len() < TCP_MIN_HEADER_LEN {
                Err(ParseError::InvalidLength)
            } else {
                let doffset = (p[12] / 16) * 4;
                if doffset < TCP_MIN_HEADER_LEN || doffset > p.len() {
                    Err(ParseError::InvalidLength)
                } else {
                    Ok(
                        TcpView {
                            ip,
                            src_port: be_u16(p.subrange(0, 2)),
                            dst_port: be_u16(p.subrange(2, 4)),
                            seq: be_u32(p.subrange(4, 8)),
                            ack: be_u32(p.subrange(8, 12)),
                            window: be_u16(p.subrange(14, 16)),
                            flags: p[13],
                            payload: p.subrange(doffset as int, p.len() as int),
                        },
                    )
                }
            }
        },
    }
}

impl Packet {
    /// Parse TCP information from the packet
    pub fn parse_tcp(&self) -> (r: Result<Parsed<'_>, ParseError>)
        requires
            self.wf(),
        ensures
            match r {
                Ok(p) => spec_parse_tcp(self@) == Ok::<TcpView, ParseError>(p@),
                Err(e) => spec_parse_tcp(self@) == Err::<TcpView, ParseError>(e),
            },
    {
        // Parse the IP information header
        let ip = self.parse_ip()?;

        // Check the protocol
        if ip.protocol() != IP_PROT_TCP {
            return Err(ParseError::InvalidIpProtocol);
        }

        // Check the length
        let p = ip.payload();
        if p.len() < TCP_MIN_HEADER_LEN {
            return Err(ParseError::InvalidLength);
        }

        // Make sure data offset makes sense
        let doffset = ((p[0xC] / 16) * 4) as usize;
        if doffset < TCP_MIN_HEADER_LEN || doffset > p.len() {
            return Err(ParseError::InvalidLength);
        }

        // Parse the header
        let payload = vstd::slice::slice_subrange(p, doffset, p.len());
        Ok(
            Parsed {
                src_port: Port(read_be_u16(p, 0)),
                dst_port: Port(read_be_u16(p, 2)),
                seq: read_be_u32(p, 4),
                ack: read_be_u32(p, 8),
                window: read_be_u16(p, 14),
                flags: p[13],
                payload,
                ip,
            },
        )
    }

    /// Create a TCP builder out of this packet
    ///
    /// Panics if the builder can't be created
    pub fn create_tcp(self, addr: &NetAddress, flags: u8, seq: u32, ack: u32, window: u16) -> (b:
        Builder)
        requires
            self.wf(),
            same_version(addr.src_ip, addr.dst_ip),
            self@.len() + 12 + ip_header_bytes(addr.src_ip, addr.dst_ip).len() + 20
                <= MAX_PACKET_LEN,
        ensures
            b.wf(),
            b.ip().hdr_start() == self@.len() + 14,
            b.ip().src_addr() == addr.src_ip,
            b.ip().dst_addr() == addr.dst_ip,
            b.ip().prot_offset() == ip_prot_offset(addr.src_ip),
            b.hdr().0 == self@.len() + 14 + ip_header_len(addr.src_ip),
            b.hdr().1 == b.hdr().0 + 20,
            b.payload()@ == self@ + addr.dst_mac.0@ + addr.src_mac.0@ + ip_header_bytes(
                addr.src_ip,
                addr.dst_ip,
            ).update(2 + b.ip().prot_offset() as int, IP_PROT_TCP) + tcp_header_template(
                addr.src_port.0,
                addr.dst_port.0,
                seq,
                ack,
                flags,
                window,
                Seq::empty(),
            ),
    {
        let opts: [u8; 0] = [];
        assert(opts@ =~= Seq::<u8>::empty());
        self.create_tcp_options(addr, flags, seq, ack, window, opts.as_slice())
    }

    /// Create a TCP builder out of this packet, setting `options` as TCP opts
    ///
    /// Panics if the builder can't be created
    pub fn create_tcp_options(
        self,
        addr: &NetAddress,
        flags: u8,
        seq: u32,
        ack: u32,
        window: u16,
        options: &[u8],
    ) -> (b: Builder)
        requires
            self.wf(),
            same_version(addr.src_ip, addr.dst_ip),
            self@.len() + 12 + ip_header_bytes(addr.src_ip, addr.dst_ip).len() + 20 + options@.len()
                <= MAX_PACKET_LEN,
            (20 + options@.len()) / 4 <= 15,
        ensures
            b.wf(),
            b.ip().hdr_start() == self@.len() + 14,
            b.ip().src_addr() == addr.src_ip,
            b.ip().dst_addr() == addr.dst_ip,
            b.ip().prot_offset() == ip_prot_offset(addr.src_ip),
            b.hdr().0 == self@.len() + 14 + ip_header_len(addr.src_ip),
            b.hdr().1 == b.hdr().0 + 20 + options@.len(),
            b.payload()@ == self@ + addr.dst_mac.0@ + addr.src_mac.0@ + ip_header_bytes(
                addr.src_ip,
                addr.dst_ip,
            ).update(2 + b.ip().prot_offset() as int, IP_PROT_TCP) + tcp_header_template(
                addr.src_port.0,
                addr.dst_port.0,
                seq,
                ack,
                flags,
                window,
                options@,
            ),
    {
        proof {
            self.lemma_view();
        }
        match Builder::from_packet(self.cursor(), addr, flags, seq, ack, window, options) {
            Some(b) => b,
            None => {
                proof {
                    assert(false);
                }
                unreached()
            },
        }
    }
}

/// The TCP header written by the builder before it is finalized: the
/// ports, sequence and acknowledgement numbers, the data offset in 32-bit
/// words, the flags, the window, a zero checksum, a zero urgent
/// pointer and the options
pub open spec fn tcp_header_template(
    src: u16,
    dst: u16,
    seq: u32,
    ack: u32,
    flags: u8,
    window: u16,
    opts: Seq<u8>,
) -> Seq<u8> {
    u16_bytes(src) + u16_bytes(dst) + u32_bytes(seq) + u32_bytes(ack) + seq![
        (((20 + opts.len()) / 4) * 16) as u8,
        flags,
    ] + u16_bytes(window) + seq![0u8, 0, 0, 0] + opts
}

impl ip::Builder {
    /// Creates a new TCP builder out of this IP builder
    pub fn tcp(
        self,
        src: &Port,
        dst: &Port,
        flags: u8,
        seq: u32,
        ack: u32,
        window: u16,
        opts: &[u8],
    ) -> (r: Option<Builder>)
        requires
            self.wf(),
            self.cursor() matches Some(c) && c.base() == c@.len() && c.base() == self.hdr_start()
                + self.hdr_len(),
            (20 + opts@.len()) / 4 <= 15,
        ensures
            self.cursor().unwrap()@.len() + 20 + opts@.len() <= MAX_PACKET_LEN <==> r is Some,
            r matches Some(b) ==> {
                &&& b.wf()
                &&& b.ip().hdr_start() == self.hdr_start()
                &&& b.ip().prot_offset() == self.prot_offset()
                &&& b.ip().src_addr() == self.src_addr()
                &&& b.ip().dst_addr() == self.dst_addr()
                &&& b.hdr().0 == self.hdr_start() + self.hdr_len()
                &&& b.hdr().1 == b.hdr().0 + 20 + opts@.len()
                &&& (b.ip() is V4 <==> self is V4)
                &&& b.payload()@ == self.cursor().unwrap()@.update(
                    (self.hdr_start() + self.prot_offset()) as int,
                    IP_PROT_TCP,
                ) + tcp_header_template(src.0, dst.0, seq, ack, flags, window, opts@)
            },
    {
        let mut ip = self;
        proof {
            ip.lemma_wf();
        }
        // Take out the cursor as we're no longer gonna need it
        let cursor = match ip.take_cursor() {
            Some(c) => c,
            None => {
                proof {
                    assert(false);
                }
                unreached()
            },
        };
        proof {
            cursor.lemma_view();
        }
        Builder::new(ip, cursor, src, dst, flags, seq, ack, window, opts)
    }
}

/// Indexes of TCP fields which have to be filled in when the packet is
/// finalized, relative to the start of the TCP header
pub struct ToFill {
    pub crc: usize,
}

/// Builder for TCP packets
pub struct Builder {
    /// The IP header builder
    ip: ip::Builder,
    /// Offsets `(start, end)` of the TCP header in the packet
    hdr: (usize, usize),
    /// The cursor writing the TCP payload
    payload: PacketCursor,
    /// Fields to fill in later
    to_fill: ToFill,
}

/// The IPv4 pseudo-header for the addresses `src` and `dst` and a TCP packet
/// of `len` bytes
pub open spec fn tcp_v4_pseudo_header(src: u32, dst: u32, len: u16) -> Seq<u8> {
    u32_bytes(src) + u32_bytes(dst) + seq![0u8, IP_PROT_TCP] + u16_bytes(len)
}

/// The pseudo-header of a TCP packet of `len` bytes between `src` and `dst`
pub open spec fn tcp_pseudo_header(src: IpAddr, dst: IpAddr, len: u16) -> Seq<u8> {
    match (src, dst) {
        (IpAddr::V4(s), IpAddr::V4(d)) => tcp_v4_pseudo_header(s.0, d.0, len),
        (IpAddr::V6(s), IpAddr::V6(d)) => v6_pseudo_header(s.0@, d.0@, len as u32, IP_PROT_TCP),
        _ => Seq::empty(),
    }
}

/// The packet bytes `s0`, holding an IP header at `ihs` for the addresses
/// `src` and `dst` and a TCP header from `hs` to `he` followed by the
/// payload, once the IP header and the TCP checksum are filled in
pub open spec fn tcp_finalized(src: IpAddr, dst: IpAddr, ihs: int, hs: int, he: int, s0: Seq<u8>) -> Seq<u8> {
    let tcp_len = (s0.len() - hs) as u16;
    let h = s0.subrange(ihs, ihs + ip_header_len(src));
    let s1 = splice(
        s0,
        ihs,
        match src {
            IpAddr::V4(_) => v4_finalized_header(h, tcp_len),
            IpAddr::V6(_) => v6_finalized_header(h, tcp_len),
        },
    );
    splice(
        s1,
        hs + 16,
        u16_bytes(
            transport_checksum(
                tcp_pseudo_header(src, dst, tcp_len),
                s1.subrange(hs, he),
                s1.subrange(he, s1.len() as int),
            ),
        ),
    )
}

/// The bytes of a finalized TCP packet built after `prefix` for the address
/// `addr`, with the flags, numbers, window and options given, and the payload
/// `payload`
pub open spec fn tcp_frame(
    prefix: Seq<u8>,
    addr: NetAddress,
    flags: u8,
    seq: u32,
    ack: u32,
    window: u16,
    opts: Seq<u8>,
    payload: Seq<u8>,
) -> Seq<u8> {
    let ihs = prefix.len() + 14;
    let hs = ihs + ip_header_len(addr.src_ip);
    let he = hs + 20 + opts.len();
    let s0 = prefix + addr.dst_mac.0@ + addr.src_mac.0@ + ip_header_bytes(
        addr.src_ip,
        addr.dst_ip,
    ).update(2 + ip_prot_offset(addr.src_ip) as int, IP_PROT_TCP) + tcp_header_template(
        addr.src_port.0,
        addr.dst_port.0,
        seq,
        ack,
        flags,
        window,
        opts,
    ) + payload;
    tcp_finalized(addr.src_ip, addr.dst_ip, ihs as int, hs as int, he as int, s0)
}

impl Builder {
    /// The headers lie before the payload cursor, which starts after the TCP
    /// header
    pub closed spec fn wf(&self) -> bool {
        &&& self.ip.wf()
        &&& self.ip.cursor() is None
        &&& self.ip.hdr_start() + self.ip.hdr_len() <= self.hdr.0
        &&& self.hdr.0 + TCP_MIN_HEADER_LEN <= self.hdr.1
        &&& self.to_fill.crc == 16
        &&& self.payload.wf()
        &&& self.payload.base() == self.hdr.1
        &&& self.payload@.len() <= MAX_PACKET_LEN
    }

    /// The IP header builder
    pub closed spec fn ip(&self) -> ip::Builder {
        self.ip
    }

    /// Offsets of the TCP header in the packet
    pub closed spec fn hdr(&self) -> (usize, usize) {
        self.hdr
    }

    /// The cursor writing the payload
    pub closed spec fn payload(&self) -> PacketCursor {
        self.payload
    }

    /// The packet's bytes as `finalize()` leaves them
    pub open spec fn finalized(&self) -> Seq<u8> {
        tcp_finalized(
            self.ip().src_addr(),
            self.ip().dst_addr(),
            self.ip().hdr_start() as int,
            self.hdr().0 as int,
            self.hdr().1 as int,
            self.payload()@,
        )
    }

    /// Creates a new TCP builder, setting the IP protocol and writing the
    /// header
    pub fn new(
        ip: ip::Builder,
        cursor: PacketCursor,
        src: &Port,
        dst: &Port,
        flags: u8,
        seq: u32,
        ack: u32,
        window: u16,
        opts: &[u8],
    ) -> (r: Option<Builder>)
        requires
            ip.wf(),
            ip.cursor() is None,
            cursor.wf(),
            cursor.base() == cursor@.len(),
            ip.hdr_start() + ip.hdr_len() <= cursor.base(),
            (20 + opts@.len()) / 4 <= 15,
        ensures
            cursor@.len() + 20 + opts@.len() <= MAX_PACKET_LEN <==> r is Some,
            r matches Some(b) ==> {
                &&& b.wf()
                &&& b.ip() == ip
                &&& b.hdr().0 == cursor@.len()
                &&& b.hdr().1 == cursor@.len() + 20 + opts@.len()
                &&& b.payload()@ == cursor@.update(
                    (ip.hdr_start() + ip.prot_offset()) as int,
                    IP_PROT_TCP,
                ) + tcp_header_template(src.0, dst.0, seq, ack, flags, window, opts@)
            },
    {
        let mut cursor = cursor;
        proof {
            cursor.lemma_view();
        }
        if opts.len() > MAX_PACKET_LEN || cursor.overall_position() > MAX_PACKET_LEN - 20
            - opts.len() {
            return None;
        }

        // Set the protocol
        ip.set_protocol(&mut cursor, TransportProtocol::Tcp);
        let ghost c1 = cursor@;
        proof {
            cursor.lemma_view();
        }

        // Write down everything as it was given to us
        cursor.write_u16(src.0)?;
        cursor.write_u16(dst.0)?;
        cursor.write_u32(seq)?;
        cursor.write_u32(ack)?;
        let (data_offset, _) = cursor.write_u8(0)?;
        cursor.write_u8(flags)?;
        cursor.write_u16(window)?;
        cursor.write_u16(0)?;
        // Urgent pointer
        cursor.write_u16(0)?;
        cursor.write(opts)?;
        let ghost c2 = cursor@;
        proof {
            cursor.lemma_view();
        }

        // Split the header and the payload
        let (hdr, mut payload) = cursor.split_at_current();

        // Set the data offset
        let offset = ((hdr.1 - hdr.0) / 4) as u8;
        let ob = [offset * 16];
        payload.write_at(hdr.0 + data_offset, ob.as_slice());
        proof {
            payload.lemma_view();
            assert(ob@ =~= seq![(((20 + opts@.len()) / 4) * 16) as u8]);
            assert(payload@ =~= c1 + tcp_header_template(src.0, dst.0, seq, ack, flags, window, opts@));
        }

        // Save off the indexes of fields which we'll edit later
        let to_fill = ToFill { crc: 16 };

        Some(Builder { ip, hdr, payload, to_fill })
    }

    /// Create a new TCP builder from the provided packet
    pub fn from_packet(
        cursor: PacketCursor,
        addr: &NetAddress,
        flags: u8,
        seq: u32,
        ack: u32,
        window: u16,
        opts: &[u8],
    ) -> (r: Option<Builder>)
        requires
            cursor.wf(),
            cursor.base() == 0,
            (20 + opts@.len()) / 4 <= 15,
        ensures
            same_version(addr.src_ip, addr.dst_ip) && cursor@.len() + 12 + ip_header_bytes(
                addr.src_ip,
                addr.dst_ip,
            ).len() + 20 + opts@.len() <= MAX_PACKET_LEN <==> r is Some,
            r matches Some(b) ==> {
                &&& b.wf()
                &&& b.ip().hdr_start() == cursor@.len() + 14
                &&& b.ip().src_addr() == addr.src_ip
                &&& b.ip().dst_addr() == addr.dst_ip
                &&& b.ip().prot_offset() == ip_prot_offset(addr.src_ip)
                &&& b.hdr().0 == cursor@.len() + 14 + ip_header_len(addr.src_ip)
                &&& b.hdr().1 == b.hdr().0 + 20 + opts@.len()
                &&& (b.ip() is V4 <==> addr.src_ip is V4)
                &&& b.payload()@ == cursor@ + addr.dst_mac.0@ + addr.src_mac.0@ + ip_header_bytes(
                    addr.src_ip,
                    addr.dst_ip,
                ).update(2 + b.ip().prot_offset() as int, IP_PROT_TCP) + tcp_header_template(
                    addr.src_port.0,
                    addr.dst_port.0,
                    seq,
                    ack,
                    flags,
                    window,
                    opts@,
                )
            },
    {
        let ghost c0 = cursor@;
        proof {
            cursor.lemma_view();
        }
        let e = eth::Builder::new(cursor, &addr.src_mac, &addr.dst_mac)?;
        proof {
            e.cursor.lemma_view();
        }
        let ipb = e.ip(&addr.src_ip, &addr.dst_ip)?;
        let ghost ic = ipb.cursor().unwrap()@;
        proof {
            ipb.lemma_wf();
            ipb.cursor().unwrap().lemma_view();
        }
        let r = ipb.tcp(&addr.src_port, &addr.dst_port, flags, seq, ack, window, opts);
        proof {
            if let Some(b) = &r {
                let whole = c0 + addr.dst_mac.0@ + addr.src_mac.0@ + ip_header_bytes(
                    addr.src_ip,
                    addr.dst_ip,
                );
                assert(ic == whole);
                assert(whole.update((b.ip().hdr_start() + b.ip().prot_offset()) as int, IP_PROT_TCP)
                    =~= c0 + addr.dst_mac.0@ + addr.src_mac.0@ + ip_header_bytes(
                    addr.src_ip,
                    addr.dst_ip,
                ).update(2 + b.ip().prot_offset() as int, IP_PROT_TCP));
            }
        }
        r
    }

    /// Writes to the TCP payload if possible, as defined by the
    /// `PacketCursor::write()` spec
    pub fn write(&mut self, buf: &[u8]) -> (r: Option<(usize, usize)>)
        requires
            old(self).wf(),
        ensures
            final(self).wf(),
            final(self).ip() == old(self).ip(),
            final(self).hdr() == old(self).hdr(),
            old(self).payload()@.len() + buf@.len() <= MAX_PACKET_LEN ==> r is Some
                && final(self).payload()@ == old(self).payload()@ + buf@,
            old(self).payload()@.len() + buf@.len() > MAX_PACKET_LEN ==> r is None
                && final(self).payload()@ == old(self).payload()@,
    {
        self.payload.write(buf)
    }

    /// Finalizes the TCP packet, writing in the lengths and the checksum, and
    /// gives back the packet
    pub fn finalize(self) -> (p: Packet)
        requires
            self.wf(),
        ensures
            p.wf(),
            p@ == self.finalized(),
    {
        let ghost spec_result = self.finalized();
        let Builder { ip, hdr, mut payload, to_fill } = self;
        proof {
            payload.lemma_view();
        }

        // Get the size of the header and the payload and write it down
        let tcp_len = (payload.overall_position() - hdr.0) as u16;
        ip.finalize(&mut payload, tcp_len);
        proof {
            payload.lemma_view();
        }

        // Calculate the CRC
        let checksum = match &ip {
            ip::Builder::V4(ipv4) => {
                let ph = v4_pseudo_header_bytes(&ipv4.src_addr(), &ipv4.dst_addr(), tcp_len);
                transport_checksum_of(ph.as_slice(), payload.region(hdr.0, hdr.1), payload.get())
            },
            ip::Builder::V6(ipv6) => {
                let ph = v6_pseudo_header_bytes(
                    &ipv6.src_addr(),
                    &ipv6.dst_addr(),
                    tcp_len as u32,
                    IP_PROT_TCP,
                );
                transport_checksum_of(ph.as_slice(), payload.region(hdr.0, hdr.1), payload.get())
            },
        };

        // Write checksum to TCP header
        let crc_bytes = [(checksum / 0x100) as u8, (checksum % 0x100) as u8];
        assert(crc_bytes@ =~= u16_bytes(checksum));
        payload.write_at(hdr.0 + to_fill.crc, crc_bytes.as_slice());
        proof {
            payload.lemma_view();
            assert(payload@ =~= spec_result);
        }
        payload.into_packet()
    }
}

/// The IPv4 pseudo-header for `src`, `dst` and a TCP packet of `len` bytes
fn v4_pseudo_header_bytes(src: &Ipv4Addr, dst: &Ipv4Addr, len: u16) -> (r: [u8; 12])
    ensures
        r@ == tcp_v4_pseudo_header(src.0, dst.0, len),
{
    let s = src.0;
    let d = dst.0;
    let ph = [
        (s / 0x100_0000) as u8,
        ((s / 0x1_0000) % 0x100) as u8,
        ((s / 0x100) % 0x100) as u8,
        (s % 0x100) as u8,
        (d / 0x100_0000) as u8,
        ((d / 0x1_0000) % 0x100) as u8,
        ((d / 0x100) % 0x100) as u8,
        (d % 0x100) as u8,
        0,
        IP_PROT_TCP,
        (len / 0x100) as u8,
        (len % 0x100) as u8,
    ];
    assert(ph@ =~= tcp_v4_pseudo_header(src.0, dst.0, len));
    ph
}

/// The IPv4 header template of a TCP packet between `src` and `dst`
pub open spec fn tcp_v4_template(src: u32, dst: u32) -> Seq<u8> {
    v4_header_template(src, dst).update(9int, IP_PROT_TCP)
}

/// Over IPv4 a finalized TCP frame is the MACs, the IPv4 ether type, the
/// finalized IPv4 header, the TCP header with its checksum over the
/// pseudo-header, and the payload
proof fn lemma_tcp_v4_frame(
    addr: NetAddress,
    flags: u8,
    seq: u32,
    ack: u32,
    window: u16,
    opts: Seq<u8>,
    payload: Seq<u8>,
)
    requires
        addr.src_ip is V4,
        addr.dst_ip is V4,
        IPV4_HEADER_LEN + 20 + opts.len() + payload.len() <= 0xFFFF,
    ensures
        ({
            let tcp_len = (20 + opts.len() + payload.len()) as u16;
            let src = addr.src_ip->V4_0.0;
            let dst = addr.dst_ip->V4_0.0;
            let t = tcp_header_template(
                addr.src_port.0,
                addr.dst_port.0,
                seq,
                ack,
                flags,
                window,
                opts,
            );
            tcp_frame(Seq::empty(), addr, flags, seq, ack, window, opts, payload) == addr.dst_mac.0@
                + addr.src_mac.0@ + u16_bytes(ETH_TYPE_IPV4) + v4_finalized_header(
                tcp_v4_template(src, dst),
                tcp_len,
            ) + put_u16(
                t,
                16,
                transport_checksum(tcp_v4_pseudo_header(src, dst, tcp_len), t, payload),
            ) + payload
        }),
{
    let k = opts.len();
    let tcp_len = (20 + k + payload.len()) as u16;
    let src = addr.src_ip->V4_0.0;
    let dst = addr.dst_ip->V4_0.0;
    let e = u16_bytes(ETH_TYPE_IPV4);
    let iht = tcp_v4_template(src, dst);
    let t = tcp_header_template(addr.src_port.0, addr.dst_port.0, seq, ack, flags, window, opts);
    let ihb = ip_header_bytes(addr.src_ip, addr.dst_ip).update(11int, IP_PROT_TCP);
    assert(ihb =~= e + iht);
    let s0 = Seq::<u8>::empty() + addr.dst_mac.0@ + addr.src_mac.0@ + ihb + t + payload;
    let h = s0.subrange(14, 34);
    assert(h =~= iht);
    let f = v4_finalized_header(h, tcp_len);
    lemma_finalized_fields(h, tcp_len);
    let s1 = splice(s0, 14, f);
    assert(s1 =~= addr.dst_mac.0@ + addr.src_mac.0@ + e + f + t + payload);
    assert(s1.subrange(34, 54 + k as int) =~= t);
    assert(s1.subrange(54 + k as int, s1.len() as int) =~= payload);
    let c = transport_checksum(tcp_v4_pseudo_header(src, dst, tcp_len), t, payload);
    assert(splice(s1, 50, u16_bytes(c)) =~= addr.dst_mac.0@ + addr.src_mac.0@ + e + f + put_u16(
        t,
        16,
        c,
    ) + payload);
}

/// Parsing the bytes of a TCP-over-IPv4 frame whose header is a whole
/// number of 32-bit words gives back its fields, whatever its checksum
#[verifier::rlimit(60)]
proof fn lemma_parse_tcp_v4_bytes(
    dst_mac: Seq<u8>,
    src_mac: Seq<u8>,
    src: u32,
    dst: u32,
    sp: u16,
    dp: u16,
    seq: u32,
    ack: u32,
    flags: u8,
    window: u16,
    opts: Seq<u8>,
    checksum: u16,
    payload: Seq<u8>,
)
    requires
        dst_mac.len() == 6,
        src_mac.len() == 6,
        (20 + opts.len()) % 4 == 0,
        (20 + opts.len()) / 4 <= 15,
        IPV4_HEADER_LEN + 20 + opts.len() + payload.len() <= 0xFFFF,
    ensures
        ({
            let tcp_len = (20 + opts.len() + payload.len()) as u16;
            let s = dst_mac + src_mac + u16_bytes(ETH_TYPE_IPV4) + v4_finalized_header(
                tcp_v4_template(src, dst),
                tcp_len,
            ) + put_u16(tcp_header_template(sp, dp, seq, ack, flags, window, opts), 16, checksum)
                + payload;
            &&& spec_parse_tcp(s) is Ok
            &&& spec_parse_tcp(s)->Ok_0.src_port == sp
            &&& spec_parse_tcp(s)->Ok_0.dst_port == dp
            &&& spec_parse_tcp(s)->Ok_0.seq == seq
            &&& spec_parse_tcp(s)->Ok_0.ack == ack
            &&& spec_parse_tcp(s)->Ok_0.flags == flags
            &&& spec_parse_tcp(s)->Ok_0.window == window
            &&& spec_parse_tcp(s)->Ok_0.payload == payload
            &&& spec_parse_tcp(s)->Ok_0.ip is V4
            &&& spec_parse_tcp(s)->Ok_0.ip->V4_0.src_ip == src
            &&& spec_parse_tcp(s)->Ok_0.ip->V4_0.dst_ip == dst
            &&& spec_parse_tcp(s)->Ok_0.ip->V4_0.eth.dst_mac == dst_mac
            &&& spec_parse_tcp(s)->Ok_0.ip->V4_0.eth.src_mac == src_mac
        }),
{
    let k = opts.len();
    let n = payload.len();
    let tcp_len = (20 + k + n) as u16;
    let e = u16_bytes(ETH_TYPE_IPV4);
    let iht = tcp_v4_template(src, dst);
    let f = v4_finalized_header(iht, tcp_len);
    lemma_finalized_fields(iht, tcp_len);
    let t = tcp_header_template(sp, dp, seq, ack, flags, window, opts);
    let t2 = put_u16(t, 16, checksum);
    let s = dst_mac + src_mac + e + f + t2 + payload;

    // Ethernet
    lemma_u16_roundtrip(ETH_TYPE_IPV4);
    assert(s.subrange(0, 6) =~= dst_mac);
    assert(s.subrange(6, 12) =~= src_mac);
    assert(s.subrange(12, 14) =~= e);
    let p = s.subrange(14, s.len() as int);
    assert(p =~= f + t2 + payload);

    // IPv4
    assert(p.subrange(6, 8) =~= seq![0u8, 0u8]);
    assert(p.subrange(2, 4) =~= f.subrange(2, 4));
    lemma_u16_roundtrip((IPV4_HEADER_LEN + tcp_len) as u16);
    lemma_u32_roundtrip(src);
    lemma_u32_roundtrip(dst);
    assert(p.subrange(12, 16) =~= u32_bytes(src));
    assert(p.subrange(16, 20) =~= u32_bytes(dst));
    let ipp = p.subrange(20, (IPV4_HEADER_LEN + tcp_len) as int);
    assert(ipp =~= t2 + payload);

    // TCP
    assert(t2.len() == 20 + k);
    assert(ipp[12] == (((20 + k) / 4) * 16) as u8);
    assert((ipp[12] / 16) * 4 == 20 + k);
    lemma_u16_roundtrip(sp);
    lemma_u16_roundtrip(dp);
    lemma_u16_roundtrip(window);
    lemma_u32_roundtrip(seq);
    lemma_u32_roundtrip(ack);
    assert(ipp.subrange(0, 2) =~= u16_bytes(sp));
    assert(ipp.subrange(2, 4) =~= u16_bytes(dp));
    assert(ipp.subrange(4, 8) =~= u32_bytes(seq));
    assert(ipp.subrange(8, 12) =~= u32_bytes(ack));
    assert(ipp[13] == flags);
    assert(ipp.subrange(14, 16) =~= u16_bytes(window));
    assert(ipp.subrange(20 + k as int, ipp.len() as int) =~= payload);
}

/// Over IPv4, parsing a finalized TCP frame whose header (20 bytes and the
/// options) is a whole number of 32-bit words gives back
/// the ports, numbers, flags, window, addresses and payload it was built with
pub proof fn lemma_tcp_v4_roundtrip(
    addr: NetAddress,
    flags: u8,
    seq: u32,
    ack: u32,
    window: u16,
    opts: Seq<u8>,
    payload: Seq<u8>,
)
    requires
        addr.src_ip is V4,
        addr.dst_ip is V4,
        (20 + opts.len()) % 4 == 0,
        (20 + opts.len()) / 4 <= 15,
        IPV4_HEADER_LEN + 20 + opts.len() + payload.len() <= 0xFFFF,
    ensures
        ({
            let s = tcp_frame(Seq::empty(), addr, flags, seq, ack, window, opts, payload);
            &&& spec_parse_tcp(s) is Ok
            &&& spec_parse_tcp(s)->Ok_0.src_port == addr.src_port.0
            &&& spec_parse_tcp(s)->Ok_0.dst_port == addr.dst_port.0
            &&& spec_parse_tcp(s)->Ok_0.seq == seq
            &&& spec_parse_tcp(s)->Ok_0.ack == ack
            &&& spec_parse_tcp(s)->Ok_0.flags == flags
            &&& spec_parse_tcp(s)->Ok_0.window == window
            &&& spec_parse_tcp(s)->Ok_0.payload == payload
            &&& spec_parse_tcp(s)->Ok_0.ip is V4
            &&& spec_parse_tcp(s)->Ok_0.ip->V4_0.src_ip == addr.src_ip->V4_0.0
            &&& spec_parse_tcp(s)->Ok_0.ip->V4_0.dst_ip == addr.dst_ip->V4_0.0
            &&& spec_parse_tcp(s)->Ok_0.ip->V4_0.eth.dst_mac == addr.dst_mac.0@
            &&& spec_parse_tcp(s)->Ok_0.ip->V4_0.eth.src_mac == addr.src_mac.0@
        }),
{
    let tcp_len = (20 + opts.len() + payload.len()) as u16;
    let src = addr.src_ip->V4_0.0;
    let dst = addr.dst_ip->V4_0.0;
    let t = tcp_header_template(addr.src_port.0, addr.dst_port.0, seq, ack, flags, window, opts);
    lemma_tcp_v4_frame(addr, flags, seq, ack, window, opts, payload);
    lemma_parse_tcp_v4_bytes(
        addr.dst_mac.0@,
        addr.src_mac.0@,
        src,
        dst,
        addr.src_port.0,
        addr.dst_port.0,
        seq,
        ack,
        flags,
        window,
        opts,
        transport_checksum(tcp_v4_pseudo_header(src, dst, tcp_len), t, payload),
        payload,
    );
}

/// The IPv6 header template of a TCP packet between `src` and `dst`
pub open spec fn tcp_v6_template(src: Seq<u8>, dst: Seq<u8>) -> Seq<u8> {
    v6_header_template(src, dst).update(6int, IP_PROT_TCP)
}

/// Over IPv6 a finalized TCP frame is the MACs, the IPv6 ether type, the
/// finalized IPv6 header, the TCP header with its checksum over the
/// pseudo-header, and the payload
proof fn lemma_tcp_v6_frame(
    addr: NetAddress,
    flags: u8,
    seq: u32,
    ack: u32,
    window: u16,
    opts: Seq<u8>,
    payload: Seq<u8>,
)
    requires
        addr.src_ip is V6,
        addr.dst_ip is V6,
        20 + opts.len() + payload.len() <= 0xFFFF,
    ensures
        ({
            let tcp_len = (20 + opts.len() + payload.len()) as u16;
            let src = addr.src_ip->V6_0.0@;
            let dst = addr.dst_ip->V6_0.0@;
            let t = tcp_header_template(
                addr.src_port.0,
                addr.dst_port.0,
                seq,
                ack,
                flags,
                window,
                opts,
            );
            tcp_frame(Seq::empty(), addr, flags, seq, ack, window, opts, payload) == addr.dst_mac.0@
                + addr.src_mac.0@ + u16_bytes(ETH_TYPE_IPV6) + v6_finalized_header(
                tcp_v6_template(src, dst),
                tcp_len,
            ) + put_u16(
                t,
                16,
                transport_checksum(
                    v6_pseudo_header(src, dst, tcp_len as u32, IP_PROT_TCP),
                    t,
                    payload,
                ),
            ) + payload
        }),
{
    let k = opts.len();
    let tcp_len = (20 + k + payload.len()) as u16;
    let src = addr.src_ip->V6_0.0@;
    let dst = addr.dst_ip->V6_0.0@;
    let e = u16_bytes(ETH_TYPE_IPV6);
    let iht = tcp_v6_template(src, dst);
    let t = tcp_header_template(addr.src_port.0, addr.dst_port.0, seq, ack, flags, window, opts);
    let ihb = ip_header_bytes(addr.src_ip, addr.dst_ip).update(8int, IP_PROT_TCP);
    assert(ihb =~= e + iht);
    let s0 = Seq::<u8>::empty() + addr.dst_mac.0@ + addr.src_mac.0@ + ihb + t + payload;
    let h = s0.subrange(14, 54);
    assert(h =~= iht);
    let f = v6_finalized_header(h, tcp_len);
    assert(f.len() == 40);
    let s1 = splice(s0, 14, f);
    assert(s1 =~= addr.dst_mac.0@ + addr.src_mac.0@ + e + f + t + payload);
    assert(s1.subrange(54, 74 + k as int) =~= t);
    assert(s1.subrange(74 + k as int, s1.len() as int) =~= payload);
    let c = transport_checksum(
        v6_pseudo_header(src, dst, tcp_len as u32, IP_PROT_TCP),
        t,
        payload,
    );
    assert(splice(s1, 70, u16_bytes(c)) =~= addr.dst_mac.0@ + addr.src_mac.0@ + e + f + put_u16(
        t,
        16,
        c,
    ) + payload);
}

/// Parsing the bytes of a TCP-over-IPv6 frame whose header is a whole
/// number of 32-bit words gives back its fields, whatever its checksum
#[verifier::rlimit(60)]
proof fn lemma_parse_tcp_v6_bytes(
    dst_mac: Seq<u8>,
    src_mac: Seq<u8>,
    src: Seq<u8>,
    dst: Seq<u8>,
    sp: u16,
    dp: u16,
    seq: u32,
    ack: u32,
    flags: u8,
    window: u16,
    opts: Seq<u8>,
    checksum: u16,
    payload: Seq<u8>,
)
    requires
        dst_mac.len() == 6,
        src_mac.len() == 6,
        src.len() == 16,
        dst.len() == 16,
        (20 + opts.len()) % 4 == 0,
        (20 + opts.len()) / 4 <= 15,
        20 + opts.len() + payload.len() <= 0xFFFF,
    ensures
        ({
            let tcp_len = (20 + opts.len() + payload.len()) as u16;
            let s = dst_mac + src_mac + u16_bytes(ETH_TYPE_IPV6) + v6_finalized_header(
                tcp_v6_template(src, dst),
                tcp_len,
            ) + put_u16(tcp_header_template(sp, dp, seq, ack, flags, window, opts), 16, checksum)
                + payload;
            &&& spec_parse_tcp(s) is Ok
            &&& spec_parse_tcp(s)->Ok_0.src_port == sp
            &&& spec_parse_tcp(s)->Ok_0.dst_port == dp
            &&& spec_parse_tcp(s)->Ok_0.seq == seq
            &&& spec_parse_tcp(s)->Ok_0.ack == ack
            &&& spec_parse_tcp(s)->Ok_0.flags == flags
            &&& spec_parse_tcp(s)->Ok_0.window == window
            &&& spec_parse_tcp(s)->Ok_0.payload == payload
            &&& spec_parse_tcp(s)->Ok_0.ip is V6
            &&& spec_parse_tcp(s)->Ok_0.ip->V6_0.src_ip == src
            &&& spec_parse_tcp(s)->Ok_0.ip->V6_0.dst_ip == dst
            &&& spec_parse_tcp(s)->Ok_0.ip->V6_0.eth.dst_mac == dst_mac
            &&& spec_parse_tcp(s)->Ok_0.ip->V6_0.eth.src_mac == src_mac
        }),
{
    let k = opts.len();
    let n = payload.len();
    let tcp_len = (20 + k + n) as u16;
    let e = u16_bytes(ETH_TYPE_IPV6);
    let iht = tcp_v6_template(src, dst);
    let f = v6_finalized_header(iht, tcp_len);
    let t = tcp_header_template(sp, dp, seq, ack, flags, window, opts);
    let t2 = put_u16(t, 16, checksum);
    let s = dst_mac + src_mac + e + f + t2 + payload;

    // Ethernet, which is no IPv4
    lemma_u16_roundtrip(ETH_TYPE_IPV6);
    assert(s.subrange(0, 6) =~= dst_mac);
    assert(s.subrange(6, 12) =~= src_mac);
    assert(s.subrange(12, 14) =~= e);
    let p = s.subrange(14, s.len() as int);
    assert(p =~= f + t2 + payload);

    // IPv6
    assert(f.len() == 40);
    assert(p[0] == 0x60u8);
    assert(p[6] == IP_PROT_TCP);
    assert(p.subrange(4, 6) =~= u16_bytes(tcp_len));
    lemma_u16_roundtrip(tcp_len);
    assert(p.subrange(8, 24) =~= src);
    assert(p.subrange(24, 40) =~= dst);
    let ipp = p.subrange(40, 40 + tcp_len);
    assert(ipp =~= t2 + payload);

    // TCP
    assert(t2.len() == 20 + k);
    assert(ipp[12] == (((20 + k) / 4) * 16) as u8);
    assert((ipp[12] / 16) * 4 == 20 + k);
    lemma_u16_roundtrip(sp);
    lemma_u16_roundtrip(dp);
    lemma_u16_roundtrip(window);
    lemma_u32_roundtrip(seq);
    lemma_u32_roundtrip(ack);
    assert(ipp.subrange(0, 2) =~= u16_bytes(sp));
    assert(ipp.subrange(2, 4) =~= u16_bytes(dp));
    assert(ipp.subrange(4, 8) =~= u32_bytes(seq));
    assert(ipp.subrange(8, 12) =~= u32_bytes(ack));
    assert(ipp[13] == flags);
    assert(ipp.subrange(14, 16) =~= u16_bytes(window));
    assert(ipp.subrange(20 + k as int, ipp.len() as int) =~= payload);
}

/// Over IPv6, parsing a finalized TCP frame whose header (20 bytes and the
/// options) is a whole number of 32-bit words gives back
/// the ports, numbers, flags, window, addresses and payload it was built with
pub proof fn lemma_tcp_v6_roundtrip(
    addr: NetAddress,
    flags: u8,
    seq: u32,
    ack: u32,
    window: u16,
    opts: Seq<u8>,
    payload: Seq<u8>,
)
    requires
        addr.src_ip is V6,
        addr.dst_ip is V6,
        (20 + opts.len()) % 4 == 0,
        (20 + opts.len()) / 4 <= 15,
        20 + opts.len() + payload.len() <= 0xFFFF,
    ensures
        ({
            let s = tcp_frame(Seq::empty(), addr, flags, seq, ack, window, opts, payload);
            &&& spec_parse_tcp(s) is Ok
            &&& spec_parse_tcp(s)->Ok_0.src_port == addr.src_port.0
            &&& spec_parse_tcp(s)->Ok_0.dst_port == addr.dst_port.0
            &&& spec_parse_tcp(s)->Ok_0.seq == seq
            &&& spec_parse_tcp(s)->Ok_0.ack == ack
            &&& spec_parse_tcp(s)->Ok_0.flags == flags
            &&& spec_parse_tcp(s)->Ok_0.window == window
            &&& spec_parse_tcp(s)->Ok_0.payload == payload
            &&& spec_parse_tcp(s)->Ok_0.ip is V6
            &&& spec_parse_tcp(s)->Ok_0.ip->V6_0.src_ip == addr.src_ip->V6_0.0@
            &&& spec_parse_tcp(s)->Ok_0.ip->V6_0.dst_ip == addr.dst_ip->V6_0.0@
            &&& spec_parse_tcp(s)->Ok_0.ip->V6_0.eth.dst_mac == addr.dst_mac.0@
            &&& spec_parse_tcp(s)->Ok_0.ip->V6_0.eth.src_mac == addr.src_mac.0@
        }),
{
    let tcp_len = (20 + opts.len() + payload.len()) as u16;
    let src = addr.src_ip->V6_0.0@;
    let dst = addr.dst_ip->V6_0.0@;
    let t = tcp_header_template(addr.src_port.0, addr.dst_port.0, seq, ack, flags, window, opts);
    lemma_tcp_v6_frame(addr, flags, seq, ack, window, opts, payload);
    lemma_parse_tcp_v6_bytes(
        addr.dst_mac.0@,
        addr.src_mac.0@,
        src,
        dst,
        addr.src_port.0,
        addr.dst_port.0,
        seq,
        ack,
        flags,
        window,
        opts,
        transport_checksum(v6_pseudo_header(src, dst, tcp_len as u32, IP_PROT_TCP), t, payload),
        payload,
    );
}

} // verus!
