//! L1: ARP implementation

use vstd::prelude::*;
use crate::bytes::{be_u16, be_u32, u16_bytes, u32_bytes, read_be_u16, read_be_u32};
use crate::net::{Mac, Ipv4Addr};
use crate::net::packet::{Packet, ParseError, MAX_PACKET_LEN};
use crate::net::protocols::eth;
use crate::net::protocols::eth::{EthView, spec_parse_eth};

verus! {

/// Number of retries for ARP resolution
pub const N_RETRIES: usize = 1_000;

/// Time in microseconds to wait before timing out on an ARP reply
pub const TIMEOUT: u64 = 100_000;

/// Ethernet type for ARP
pub const ETH_TYPE_ARP: u16 = 0x0806;

/// Ethernet type for IPv4
pub const ETH_TYPE_IPV4: u16 = 0x0800;

/// Hardware type for Ethernet
pub const HW_TYPE_ETH: u16 = 1;

/// Size of an IPv4 Ethernet ARP packet
pub const ARP_LEN: usize = 28;

/// ARP opcodes
#[derive(Debug, Clone, Copy, PartialEq, Eq, Structural)]
pub enum Opcode {
    Request,
    Reply,
}

impl Opcode {
    /// The opcode's value in ARP packets
    pub open spec fn value(self) -> u16 {
        match self {
            Opcode::Request => 1,
            Opcode::Reply => 2,
        }
    }

    /// The opcode's value in ARP packets
    pub fn to_u16(self) -> (r: u16)
        ensures
            r == self.value(),
    {
        match self {
            Opcode::Request => 1,
            Opcode::Reply => 2,
        }
    }
}

/// A IPv4 ethernet ARP packet
#[derive(Debug)]
pub struct Parsed<'a> {
    pub eth: eth::Parsed<'a>,
    pub hw_type: u16,
    pub proto_type: u16,
    pub hw_size: u8,
    pub proto_size: u8,
    pub opcode: u16,
    pub sender_mac: Mac,
    pub sender_ip: Ipv4Addr,
    pub target_mac: Mac,
    pub target_ip: Ipv4Addr,
}

/// The fields of a parsed ARP packet
pub struct ArpView {
    pub eth: EthView,
    pub hw_type: u16,
    pub proto_type: u16,
    pub hw_size: u8,
    pub proto_size: u8,
    pub opcode: u16,
    pub sender_mac: Seq<u8>,
    pub sender_ip: u32,
    pub target_mac: Seq<u8>,
    pub target_ip: u32,
}

impl<'a> View for Parsed<'a> {
    type V = ArpView;

    open spec fn view(&self) -> ArpView {
        ArpView {
            eth: self.eth@,
            hw_type: self.hw_type,
            proto_type: self.proto_type,
            hw_size: self.hw_size,
            proto_size: self.proto_size,
            opcode: self.opcode,
            sender_mac: self.sender_mac.0@,
            sender_ip: self.sender_ip.0,
            target_mac: self.target_mac.0@,
            target_ip: self.target_ip.0,
        }
    }
}

/// The ARP packet that `s` holds, or the error returned for it
pub open spec fn spec_parse_arp(s: Seq<u8>) -> Result<ArpView, ParseError> {
    match spec_parse_eth(s) {
        Err(e) => Err(e),
        Ok(eth) => {
            let p = eth.payload;
            if eth.eth_type != ETH_TYPE_ARP {
                Err(ParseError::InvalidLength)
            } else if p.len() < ARP_LEN {
                Err(ParseError::TruncatedPacket)
            } else {
                Ok(
                    ArpView {
                        eth,
                        hw_type: be_u16(p.subrange(0, 2)),
                        proto_type: be_u16(p.subrange(2, 4)),
                        hw_size: p[4],
                        proto_size: p[5],
                        opcode: be_u16(p.subrange(6, 8)),
                        sender_mac: p.subrange(8, 14),
                        sender_ip: be_u32(p.subrange(14, 18)),
                        target_mac: p.subrange(18, 24),
                        target_ip: be_u32(p.subrange(24, 28)),
                    },
                )
            }
        },
    }
}

/// The six bytes of `s` starting at `at`, as a MAC address
fn mac_at(s: &[u8], at: usize) -> (m: Mac)
    requires
        at + 6 <= s@.len(),
    ensures
        m.0@ == s@.subrange(at as int, at + 6),
{
    let _n = s.len();
    let m = Mac([s[at], s[at + 1], s[at + 2], s[at + 3], s[at + 4], s[at + 5]]);
    assert(m.0@ =~= s@.subrange(at as int, at + 6));
    m
}

impl<'a> Parsed<'a> {
    /// Returns whether this parsed ARP packet is a valid reply with the
    /// expected parameters
    pub fn is_valid_reply(&self, sender_ip: Ipv4Addr, target_ip: Ipv4Addr, target_mac: Mac) -> (r:
        bool)
        ensures
            r == (self.hw_type == HW_TYPE_ETH && self.proto_type == ETH_TYPE_IPV4 && self.hw_size
                == 6 && self.proto_size == 4 && self.opcode == Opcode::Reply.value()
                && self.sender_ip == sender_ip && self.target_ip == target_ip && self.target_mac.0@
                == target_mac.0@),
    {
        self.hw_type == HW_TYPE_ETH && self.proto_type == ETH_TYPE_IPV4 && self.hw_size == 6
            && self.proto_size == 4 && self.opcode == Opcode::Reply.to_u16() && self.sender_ip
            == sender_ip && self.target_ip == target_ip && self.target_mac == target_mac
    }

    /// Returns whether this parsed ARP packet is a request, for an IPv4
    /// Ethernet address, that asks for `this_ip` and so must be replied to
    pub fn is_request_for(&self, this_ip: Ipv4Addr) -> (r: bool)
        ensures
            r == (self.opcode == Opcode::Request.value() && self.hw_type == HW_TYPE_ETH
                && self.proto_type == ETH_TYPE_IPV4 && self.hw_size == 6 && self.proto_size == 4
                && self.target_ip == this_ip),
    {
        self.opcode == Opcode::Request.to_u16() && self.hw_type == HW_TYPE_ETH && self.proto_type
            == ETH_TYPE_IPV4 && self.hw_size == 6 && self.proto_size == 4 && self.target_ip
            == this_ip
    }
}

impl Packet {
    /// Parse the packet into a `Parsed` ARP structure if it is a valid ARP packet.
    pub fn parse_arp(&self) -> (r: Result<Parsed<'_>, ParseError>)
        requires
            self.wf(),
        ensures
            match r {
                Ok(p) => spec_parse_arp(self@) == Ok::<ArpView, ParseError>(p@),
                Err(e) => spec_parse_arp(self@) == Err::<ArpView, ParseError>(e),
            },
    {
        let eth = self.parse_eth()?;

        if eth.eth_type != ETH_TYPE_ARP {
            return Err(ParseError::InvalidLength);
        }

        let pl = eth.payload;
        if pl.len() < ARP_LEN {
            return Err(ParseError::TruncatedPacket);
        }

        let hw_type = read_be_u16(pl, 0);
        let proto_type = read_be_u16(pl, 2);
        let hw_size = pl[4];
        let proto_size = pl[5];
        let opcode = read_be_u16(pl, 6);
        let sender_mac = mac_at(pl, 8);
        let sender_ip = Ipv4Addr(read_be_u32(pl, 14));
        let target_mac = mac_at(pl, 18);
        let target_ip = Ipv4Addr(read_be_u32(pl, 24));

        Ok(
            Parsed {
                eth,
                hw_type,
                proto_type,
                hw_size,
                proto_size,
                opcode,
                sender_mac,
                sender_ip,
                target_mac,
                target_ip,
            },
        )
    }
}

/// The ARP body the builder writes after the Ethernet MACs
pub open spec fn arp_body(
    opcode: Opcode,
    sender_mac: Seq<u8>,
    sender_ip: u32,
    target_mac: Seq<u8>,
    target_ip: u32,
) -> Seq<u8> {
    u16_bytes(HW_TYPE_ETH) + u16_bytes(ETH_TYPE_ARP) + seq![6u8, 4] + u16_bytes(opcode.value())
        + sender_mac + u32_bytes(sender_ip) + target_mac + u32_bytes(target_ip)
}

/// Append an ARP packet to `packet`: broadcast destination and `sender_mac`
/// source MACs, followed by the ARP body.
///
/// Fails, leaving the packet as it was, when it has no room for the
/// `12 + ARP_LEN` bytes.
pub fn build_arp_packet(
    packet: &mut Packet,
    opcode: Opcode,
    sender_mac: Mac,
    sender_ip: Ipv4Addr,
    target_mac: Mac,
    target_ip: Ipv4Addr,
) -> (r: Option<()>)
    requires
        old(packet).wf(),
    ensures
        final(packet).wf(),
        old(packet)@.len() + 12 + ARP_LEN <= MAX_PACKET_LEN <==> r is Some,
        r is Some ==> final(packet)@ == old(packet)@ + seq![0xffu8, 0xff, 0xff, 0xff, 0xff, 0xff]
            + sender_mac.0@ + arp_body(opcode, sender_mac.0@, sender_ip.0, target_mac.0@, target_ip.0),
        r is None ==> *final(packet) == *old(packet),
{
    proof {
        packet.lemma_view();
    }
    if packet.len() > MAX_PACKET_LEN - 12 - ARP_LEN {
        return None;
    }
    let mut p = Packet::new();
    core::mem::swap(&mut p, packet);
    let ghost p0 = p@;
    let cursor = p.cursor();
    let broadcast = Mac::broadcast();
    let mut cursor = match eth::Builder::new(cursor, &sender_mac, &broadcast) {
        Some(b) => b.take_cursor(),
        None => {
            proof {
                assert(false);
            }
            unreached()
        },
    };
    proof {
        cursor.lemma_view();
    }
    let _ = cursor.write_u16(HW_TYPE_ETH);
    let _ = cursor.write_u16(ETH_TYPE_ARP);
    let _ = cursor.write_u8(6);
    let _ = cursor.write_u8(4);
    let _ = cursor.write_u16(opcode.to_u16());
    let _ = cursor.write(sender_mac.0.as_slice());
    let _ = cursor.write_u32(sender_ip.0);
    let _ = cursor.write(target_mac.0.as_slice());
    let _ = cursor.write_u32(target_ip.0);
    proof {
        cursor.lemma_view();
        assert(cursor@ =~= p0 + seq![0xffu8, 0xff, 0xff, 0xff, 0xff, 0xff] + sender_mac.0@
            + arp_body(opcode, sender_mac.0@, sender_ip.0, target_mac.0@, target_ip.0));
    }
    *packet = cursor.into_packet();
    Some(())
}

} // verus!
