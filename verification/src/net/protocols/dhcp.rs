//! L4: DHCP implementation

use vstd::prelude::*;
use crate::bytes::{be_u16, be_u32, u32_bytes, read_be_u16, read_be_u32, lemma_u32_roundtrip, lemma_be_u32_bytes};
use crate::net::{Mac, Port, NetAddress, IpAddr, Ipv4Addr};
use crate::net::packet::{Packet, MAX_PACKET_LEN};
use crate::net::protocols::udp;
use crate::net::protocols::udp::{udp_frame, UDP_HEADER_LEN};
use crate::net::protocols::ip::ip::{ip_header_bytes, same_version};

verus! {

/// Amount of time in microseconds to wait for a DHCP response.
/// If a response doesn't come within this timeout, the process will be aborted
pub const DHCP_TIMEOUT: u64 = 5_000_000;

/// DHCP port of the client
pub const DHCP_CLIENT_PORT: u16 = 68;

/// DHCP port of the server
pub const DHCP_SERVER_PORT: u16 = 67;

/// The magic DHCP cookie
pub const DHCP_COOKIE: u32 = 0x63825363;

/// Size of a DHCP message header in bytes
pub const HEADER_LEN: usize = 240;

/// DHCP op code / message type
#[derive(Debug, Clone, Copy, PartialEq, Eq, Structural)]
pub enum Opcode {
    Request,
    Reply,
}

impl Opcode {
    /// The op code's value in DHCP headers
    pub open spec fn value(self) -> u8 {
        match self {
            Opcode::Request => 1,
            Opcode::Reply => 2,
        }
    }

    /// The op code's value in DHCP headers
    pub fn to_u8(self) -> (r: u8)
        ensures
            r == self.value(),
    {
        match self {
            Opcode::Request => 1,
            Opcode::Reply => 2,
        }
    }
}

/// ARP hardware type
#[derive(Debug, Clone, Copy, PartialEq, Eq, Structural)]
pub enum HardwareType {
    Ethernet,
}

impl HardwareType {
    /// The hardware type's value in DHCP headers
    pub open spec fn value(self) -> u8 {
        match self {
            HardwareType::Ethernet => 1,
        }
    }

    /// The hardware address length of this type
    pub open spec fn spec_hlen(self) -> u8 {
        match self {
            HardwareType::Ethernet => 6,
        }
    }

    /// The hardware type's value in DHCP headers
    pub fn to_u8(self) -> (r: u8)
        ensures
            r == self.value(),
    {
        match self {
            HardwareType::Ethernet => 1,
        }
    }

    /// Get the hardware address length based on this type
    pub fn hlen(&self) -> (r: u8)
        ensures
            r == self.spec_hlen(),
    {
        match self {
            Self::Ethernet => 6,
        }
    }
}

/// DHCP client-server message type
#[derive(Debug, Clone, Copy, PartialEq, Eq, Structural)]
pub enum MessageType {
    Discover,
    Offer,
    Request,
    Ack,
    Unsupported,
}

/// The message type that a raw byte stands for
pub open spec fn spec_message_type(val: u8) -> MessageType {
    if val == 1 {
        MessageType::Discover
    } else if val == 2 {
        MessageType::Offer
    } else if val == 3 {
        MessageType::Request
    } else if val == 5 {
        MessageType::Ack
    } else {
        MessageType::Unsupported
    }
}

impl MessageType {
    /// The message type's value in DHCP options
    pub open spec fn value(self) -> u8 {
        match self {
            MessageType::Discover => 1,
            MessageType::Offer => 2,
            MessageType::Request => 3,
            MessageType::Ack => 5,
            MessageType::Unsupported => 6,
        }
    }

    /// The message type's value in DHCP options
    pub fn to_u8(self) -> (r: u8)
        ensures
            r == self.value(),
    {
        match self {
            MessageType::Discover => 1,
            MessageType::Offer => 2,
            MessageType::Request => 3,
            MessageType::Ack => 5,
            MessageType::Unsupported => 6,
        }
    }

    /// Convert a raw byte into a message type
    pub fn from(val: u8) -> (r: MessageType)
        ensures
            r == spec_message_type(val),
    {
        match val {
            1 => Self::Discover,
            2 => Self::Offer,
            3 => Self::Request,
            5 => Self::Ack,
            _ => Self::Unsupported,
        }
    }
}

/// Mapping of DHCP options to their IDs
#[derive(Debug, Clone, Copy, PartialEq, Eq, Structural)]
pub enum DhcpOptionId {
    Pad,
    SubnetMask,
    BroadcastIp,
    RequestedIp,
    LeaseTime,
    MessageType,
    ServerIp,
    ParameterRequestList,
    RenewalTime,
    End,
}

/// The option id that a code stands for, if any
pub open spec fn spec_option_id(code: u8) -> Option<DhcpOptionId> {
    if code == 0 {
        Some(DhcpOptionId::Pad)
    } else if code == 1 {
        Some(DhcpOptionId::SubnetMask)
    } else if code == 28 {
        Some(DhcpOptionId::BroadcastIp)
    } else if code == 50 {
        Some(DhcpOptionId::RequestedIp)
    } else if code == 51 {
        Some(DhcpOptionId::LeaseTime)
    } else if code == 53 {
        Some(DhcpOptionId::MessageType)
    } else if code == 54 {
        Some(DhcpOptionId::ServerIp)
    } else if code == 55 {
        Some(DhcpOptionId::ParameterRequestList)
    } else if code == 58 {
        Some(DhcpOptionId::RenewalTime)
    } else if code == 255 {
        Some(DhcpOptionId::End)
    } else {
        None
    }
}

impl DhcpOptionId {
    /// The option's code
    pub open spec fn value(self) -> u8 {
        match self {
            DhcpOptionId::Pad => 0,
            DhcpOptionId::SubnetMask => 1,
            DhcpOptionId::BroadcastIp => 28,
            DhcpOptionId::RequestedIp => 50,
            DhcpOptionId::LeaseTime => 51,
            DhcpOptionId::MessageType => 53,
            DhcpOptionId::ServerIp => 54,
            DhcpOptionId::ParameterRequestList => 55,
            DhcpOptionId::RenewalTime => 58,
            DhcpOptionId::End => 255,
        }
    }

    /// The option's code
    pub fn to_u8(self) -> (r: u8)
        ensures
            r == self.value(),
    {
        match self {
            DhcpOptionId::Pad => 0,
            DhcpOptionId::SubnetMask => 1,
            DhcpOptionId::BroadcastIp => 28,
            DhcpOptionId::RequestedIp => 50,
            DhcpOptionId::LeaseTime => 51,
            DhcpOptionId::MessageType => 53,
            DhcpOptionId::ServerIp => 54,
            DhcpOptionId::ParameterRequestList => 55,
            DhcpOptionId::RenewalTime => 58,
            DhcpOptionId::End => 255,
        }
    }

    /// The option id for `value`, or an error for an unknown code
    pub fn try_from(value: u8) -> (r: Result<DhcpOptionId, ()>)
        ensures
            match spec_option_id(value) {
                Some(id) => r == Ok::<DhcpOptionId, ()>(id),
                None => r is Err,
            },
    {
        match value {
            0 => Ok(Self::Pad),
            1 => Ok(Self::SubnetMask),
            28 => Ok(Self::BroadcastIp),
            50 => Ok(Self::RequestedIp),
            51 => Ok(Self::LeaseTime),
            53 => Ok(Self::MessageType),
            54 => Ok(Self::ServerIp),
            55 => Ok(Self::ParameterRequestList),
            58 => Ok(Self::RenewalTime),
            255 => Ok(Self::End),
            _ => Err(()),
        }
    }
}

/// DHCP options
#[derive(Clone, Debug)]
pub enum DhcpOption {
    Pad,
    SubnetMask(Ipv4Addr),
    BroadcastIp(Ipv4Addr),
    RequestedIp(Ipv4Addr),
    LeaseTime(u32),
    MessageType(MessageType),
    ServerIp(Ipv4Addr),
    ParameterRequestList(Vec<u8>),
    RenewalTime(u32),
    Unknown(u8, Vec<u8>),
    End,
}

/// The contents of a DHCP option
pub enum OptionView {
    Pad,
    SubnetMask(u32),
    BroadcastIp(u32),
    RequestedIp(u32),
    LeaseTime(u32),
    MessageType(MessageType),
    ServerIp(u32),
    ParameterRequestList(Seq<u8>),
    RenewalTime(u32),
    Unknown(u8, Seq<u8>),
    End,
}

impl View for DhcpOption {
    type V = OptionView;

    open spec fn view(&self) -> OptionView {
        match self {
            DhcpOption::Pad => OptionView::Pad,
            DhcpOption::SubnetMask(a) => OptionView::SubnetMask(a.0),
            DhcpOption::BroadcastIp(a) => OptionView::BroadcastIp(a.0),
            DhcpOption::RequestedIp(a) => OptionView::RequestedIp(a.0),
            DhcpOption::LeaseTime(t) => OptionView::LeaseTime(*t),
            DhcpOption::MessageType(t) => OptionView::MessageType(*t),
            DhcpOption::ServerIp(a) => OptionView::ServerIp(a.0),
            DhcpOption::ParameterRequestList(d) => OptionView::ParameterRequestList(d@),
            DhcpOption::RenewalTime(t) => OptionView::RenewalTime(*t),
            DhcpOption::Unknown(c, d) => OptionView::Unknown(*c, d@),
            DhcpOption::End => OptionView::End,
        }
    }
}

/// The option with the known code `code` and the payload `p`, if the payload
/// fits the option
pub open spec fn spec_known_option(code: u8, p: Seq<u8>) -> Option<OptionView> {
    if code == 1 {
        if p.len() == 4 { Some(OptionView::SubnetMask(be_u32(p))) } else { None }
    } else if code == 28 {
        if p.len() == 4 { Some(OptionView::BroadcastIp(be_u32(p))) } else { None }
    } else if code == 50 {
        if p.len() == 4 { Some(OptionView::RequestedIp(be_u32(p))) } else { None }
    } else if code == 51 {
        if p.len() == 4 { Some(OptionView::LeaseTime(be_u32(p))) } else { None }
    } else if code == 53 {
        if p.len() >= 1 { Some(OptionView::MessageType(spec_message_type(p[0]))) } else { None }
    } else if code == 54 {
        if p.len() == 4 { Some(OptionView::ServerIp(be_u32(p))) } else { None }
    } else if code == 55 {
        Some(OptionView::ParameterRequestList(p))
    } else if code == 58 {
        if p.len() == 4 { Some(OptionView::RenewalTime(be_u32(p))) } else { None }
    } else {
        Some(OptionView::Unknown(code, p))
    }
}

/// The option that `s` starts with and its size in bytes, if `s` starts with
/// a well formed option
pub open spec fn spec_parse_option(s: Seq<u8>) -> Option<(OptionView, nat)> {
    if s.len() == 0 {
        None
    } else if s[0] == 0 {
        Some((OptionView::Pad, 1))
    } else if s[0] == 255 {
        Some((OptionView::End, 1))
    } else if s.len() < 2 || 2 + s[1] > s.len() {
        None
    } else {
        match spec_known_option(s[0], s.subrange(2, 2 + s[1])) {
            Some(o) => Some((o, (2 + s[1]) as nat)),
            None => None,
        }
    }
}

/// The bytes that the option `o` is serialized to
pub open spec fn spec_serialize_option(o: OptionView) -> Seq<u8> {
    match o {
        OptionView::Pad => seq![0u8],
        OptionView::End => seq![255u8],
        OptionView::SubnetMask(a) => seq![1u8, 4] + u32_bytes(a),
        OptionView::BroadcastIp(a) => seq![28u8, 4] + u32_bytes(a),
        OptionView::RequestedIp(a) => seq![50u8, 4] + u32_bytes(a),
        OptionView::ServerIp(a) => seq![54u8, 4] + u32_bytes(a),
        OptionView::LeaseTime(t) => seq![51u8, 4] + u32_bytes(t),
        OptionView::RenewalTime(t) => seq![58u8, 4] + u32_bytes(t),
        OptionView::MessageType(t) => seq![53u8, 1, t.value()],
        OptionView::ParameterRequestList(d) => seq![55u8, d.len() as u8] + d,
        OptionView::Unknown(c, d) => seq![c, d.len() as u8] + d,
    }
}

/// The options that `s` holds, up to the first byte that does not start a
/// well formed option
pub open spec fn spec_parse_options(s: Seq<u8>) -> Seq<OptionView>
    decreases s.len(),
{
    if s.len() == 0 {
        Seq::empty()
    } else {
        match spec_parse_option(s) {
            None => Seq::empty(),
            Some((o, n)) => if 0 < n <= s.len() {
                seq![o] + spec_parse_options(s.subrange(n as int, s.len() as int))
            } else {
                Seq::empty()
            },
        }
    }
}

/// The views of a sequence of options
pub open spec fn options_view(v: Seq<DhcpOption>) -> Seq<OptionView> {
    Seq::new(v.len(), |i: int| v[i]@)
}

/// Read the big-endian `u32` payload of an option as an address
fn ip_of(p: &[u8]) -> (a: Ipv4Addr)
    requires
        p@.len() == 4,
    ensures
        a.0 == be_u32(p@),
{
    let v = read_be_u32(p, 0);
    assert(p@.subrange(0, 4) =~= p@);
    Ipv4Addr(v)
}

/// Copy a slice into a new vector
fn to_vec(p: &[u8]) -> (v: Vec<u8>)
    ensures
        v@ == p@,
{
    let mut v = Vec::new();
    let mut i: usize = 0;
    while i < p.len()
        invariant
            i <= p@.len(),
            v@ == p@.take(i as int),
        decreases p@.len() - i,
    {
        v.push(p[i]);
        i = i + 1;
        assert(v@ =~= p@.take(i as int));
    }
    assert(p@.take(p@.len() as int) =~= p@);
    v
}

impl DhcpOption {
    /// Parse a DHCP option from the start of a raw message, returning it and
    /// the number of parsed bytes
    pub fn parse(ptr: &[u8]) -> (r: Option<(DhcpOption, usize)>)
        ensures
            match r {
                Some((o, n)) => spec_parse_option(ptr@) == Some((o@, n as nat)),
                None => spec_parse_option(ptr@) is None,
            },
    {
        if ptr.len() == 0 {
            return None;
        }
        let code = ptr[0];

        // Handle single-byte options first
        if let Ok(DhcpOptionId::Pad) = DhcpOptionId::try_from(code) {
            return Some((Self::Pad, 1));
        }
        if let Ok(DhcpOptionId::End) = DhcpOptionId::try_from(code) {
            return Some((Self::End, 1));
        }

        // Handle variable-length options
        if ptr.len() < 2 {
            return None;
        }
        let len = ptr[1] as usize;
        if 2 + len > ptr.len() {
            return None;
        }
        let payload = vstd::slice::slice_subrange(ptr, 2, 2 + len);

        let option = match DhcpOptionId::try_from(code) {
            Ok(id) => match id {
                DhcpOptionId::SubnetMask => {
                    if payload.len() != 4 {
                        return None;
                    }
                    Self::SubnetMask(ip_of(payload))
                },
                DhcpOptionId::BroadcastIp => {
                    if payload.len() != 4 {
                        return None;
                    }
                    Self::BroadcastIp(ip_of(payload))
                },
                DhcpOptionId::RequestedIp => {
                    if payload.len() != 4 {
                        return None;
                    }
                    Self::RequestedIp(ip_of(payload))
                },
                DhcpOptionId::LeaseTime => {
                    if payload.len() != 4 {
                        return None;
                    }
                    Self::LeaseTime(ip_of(payload).0)
                },
                DhcpOptionId::MessageType => {
                    if payload.len() == 0 {
                        return None;
                    }
                    Self::MessageType(MessageType::from(payload[0]))
                },
                DhcpOptionId::ServerIp => {
                    if payload.len() != 4 {
                        return None;
                    }
                    Self::ServerIp(ip_of(payload))
                },
                DhcpOptionId::ParameterRequestList => Self::ParameterRequestList(to_vec(payload)),
                DhcpOptionId::RenewalTime => {
                    if payload.len() != 4 {
                        return None;
                    }
                    Self::RenewalTime(ip_of(payload).0)
                },
                // Handled single-byte variants already
                _ => {
                    proof {
                        assert(false);
                    }
                    return None;
                },
            },
            Err(_) => Self::Unknown(code, to_vec(payload)),
        };

        Some((option, 2 + len))
    }

    /// Serialize a DHCP option by appending it to `buffer`
    pub fn serialize(&self, buffer: &mut Vec<u8>)
        ensures
            final(buffer)@ == old(buffer)@ + spec_serialize_option(self@),
    {
        match self {
            Self::Pad => buffer.push(DhcpOptionId::Pad.to_u8()),
            Self::End => buffer.push(DhcpOptionId::End.to_u8()),
            Self::SubnetMask(addr) => Self::push_ip_option(buffer, DhcpOptionId::SubnetMask, addr),
            Self::BroadcastIp(addr) => Self::push_ip_option(
                buffer,
                DhcpOptionId::BroadcastIp,
                addr,
            ),
            Self::RequestedIp(addr) => Self::push_ip_option(
                buffer,
                DhcpOptionId::RequestedIp,
                addr,
            ),
            Self::ServerIp(addr) => Self::push_ip_option(buffer, DhcpOptionId::ServerIp, addr),
            Self::LeaseTime(time) => Self::push_u32_option(
                buffer,
                DhcpOptionId::LeaseTime,
                *time,
            ),
            Self::RenewalTime(time) => Self::push_u32_option(
                buffer,
                DhcpOptionId::RenewalTime,
                *time,
            ),
            Self::MessageType(typ) => {
                buffer.push(DhcpOptionId::MessageType.to_u8());
                buffer.push(1);
                buffer.push(typ.to_u8());
            },
            Self::ParameterRequestList(data) => {
                buffer.push(DhcpOptionId::ParameterRequestList.to_u8());
                buffer.push(data.len() as u8);
                push_all(buffer, data.as_slice());
            },
            Self::Unknown(code, data) => {
                buffer.push(*code);
                buffer.push(data.len() as u8);
                push_all(buffer, data.as_slice());
            },
        }
        proof {
            assert(buffer@ =~= old(buffer)@ + spec_serialize_option(self@));
        }
    }

    /// Append an option whose payload is an IPv4 address
    pub fn push_ip_option(buffer: &mut Vec<u8>, code: DhcpOptionId, ip: &Ipv4Addr)
        ensures
            final(buffer)@ == old(buffer)@ + seq![code.value(), 4u8] + u32_bytes(ip.0),
    {
        Self::push_u32_option(buffer, code, ip.0);
    }

    /// Append an option whose payload is a big-endian `u32`
    pub fn push_u32_option(buffer: &mut Vec<u8>, code: DhcpOptionId, value: u32)
        ensures
            final(buffer)@ == old(buffer)@ + seq![code.value(), 4u8] + u32_bytes(value),
    {
        buffer.push(code.to_u8());
        buffer.push(4);
        buffer.push((value / 0x100_0000) as u8);
        buffer.push(((value / 0x1_0000) % 0x100) as u8);
        buffer.push(((value / 0x100) % 0x100) as u8);
        buffer.push((value % 0x100) as u8);
        assert(buffer@ =~= old(buffer)@ + seq![code.value(), 4u8] + u32_bytes(value));
    }
}

/// Append all of `data` to `buffer`
fn push_all(buffer: &mut Vec<u8>, data: &[u8])
    ensures
        final(buffer)@ == old(buffer)@ + data@,
{
    let mut i: usize = 0;
    while i < data.len()
        invariant
            i <= data@.len(),
            buffer@ == old(buffer)@ + data@.take(i as int),
        decreases data@.len() - i,
    {
        buffer.push(data[i]);
        i = i + 1;
        assert(buffer@ =~= old(buffer)@ + data@.take(i as int));
    }
    assert(data@.take(data@.len() as int) =~= data@);
}

/// Builder for a list of `DhcpOption`s
pub struct DhcpOptionsBuilder {
    inner: Vec<u8>,
}

impl View for DhcpOptionsBuilder {
    type V = Seq<u8>;

    /// The serialized options added so far
    closed spec fn view(&self) -> Seq<u8> {
        self.inner@
    }
}

impl DhcpOptionsBuilder {
    /// Creates a new options builder
    pub fn new() -> (b: DhcpOptionsBuilder)
        ensures
            b@ == Seq::<u8>::empty(),
    {
        Self { inner: Vec::new() }
    }

    /// Adds an option to this builder
    pub fn add(&mut self, option: DhcpOption)
        ensures
            final(self)@ == old(self)@ + spec_serialize_option(option@),
    {
        option.serialize(&mut self.inner);
    }

    /// Finishes building the options and returns the serialized bytes
    pub fn end(self) -> (r: Vec<u8>)
        ensures
            r@ == self@ + seq![255u8],
    {
        let mut inner = self.inner;
        DhcpOption::End.serialize(&mut inner);
        inner
    }
}

/// A DHCP message header, with its multi-byte fields in host order
#[derive(Debug)]
pub struct Header {
    /// Message opcode
    pub op: u8,
    /// Hardware address type
    pub htype: u8,
    /// Hardware address length
    pub hlen: u8,
    /// Optionally used by relay agents when booting via a relay agent
    pub hops: u8,
    /// Transaction ID
    pub xid: u32,
    /// Seconds elapsed since client began address acquisition or renewal
    /// process
    pub secs: u16,
    /// DHCP flags
    pub flags: u16,
    /// Client IP address
    pub ciaddr: u32,
    /// "Your" (client) IP address
    pub yiaddr: u32,
    /// IP address of the next server to use in bootstrap
    pub siaddr: u32,
    /// Relay agent IP address
    pub giaddr: u32,
    /// Client hardware address
    pub chaddr: Vec<u8>,
    /// Optional null-terminated server host name
    pub sname: Vec<u8>,
    /// Boot file name
    pub file: Vec<u8>,
    /// The magic DHCP cookie
    pub cookie: u32,
}

/// Whether `h` holds the fields of the 240-byte header at the start of `s`
pub open spec fn header_of(h: Header, s: Seq<u8>) -> bool {
    &&& h.op == s[0]
    &&& h.htype == s[1]
    &&& h.hlen == s[2]
    &&& h.hops == s[3]
    &&& h.xid == be_u32(s.subrange(4, 8))
    &&& h.secs == be_u16(s.subrange(8, 10))
    &&& h.flags == be_u16(s.subrange(10, 12))
    &&& h.ciaddr == be_u32(s.subrange(12, 16))
    &&& h.yiaddr == be_u32(s.subrange(16, 20))
    &&& h.siaddr == be_u32(s.subrange(20, 24))
    &&& h.giaddr == be_u32(s.subrange(24, 28))
    &&& h.chaddr@ == s.subrange(28, 44)
    &&& h.sname@ == s.subrange(44, 108)
    &&& h.file@ == s.subrange(108, 236)
    &&& h.cookie == be_u32(s.subrange(236, 240))
}

impl Header {
    /// Read a header from the first 240 bytes of `s`
    pub fn parse(s: &[u8]) -> (h: Header)
        requires
            s@.len() >= HEADER_LEN,
        ensures
            header_of(h, s@),
    {
        let h = Header {
            op: s[0],
            htype: s[1],
            hlen: s[2],
            hops: s[3],
            xid: read_be_u32(s, 4),
            secs: read_be_u16(s, 8),
            flags: read_be_u16(s, 10),
            ciaddr: read_be_u32(s, 12),
            yiaddr: read_be_u32(s, 16),
            siaddr: read_be_u32(s, 20),
            giaddr: read_be_u32(s, 24),
            chaddr: to_vec(vstd::slice::slice_subrange(s, 28, 44)),
            sname: to_vec(vstd::slice::slice_subrange(s, 44, 108)),
            file: to_vec(vstd::slice::slice_subrange(s, 108, 236)),
            cookie: read_be_u32(s, 236),
        };
        h
    }
}

/// Whether the 240-byte header at the start of `s` is a DHCP reply to the
/// transaction `xid` from an Ethernet server with the DHCP cookie
pub open spec fn is_reply_header(s: Seq<u8>, xid: u32) -> bool {
    &&& be_u32(s.subrange(4, 8)) == xid
    &&& s[0] == Opcode::Reply.value()
    &&& s[1] == HardwareType::Ethernet.value()
    &&& s[2] == HardwareType::Ethernet.spec_hlen()
    &&& be_u32(s.subrange(236, 240)) == DHCP_COOKIE
}

/// Parse the DHCP options held by `raw`, stopping at the first byte that does
/// not start a well formed option
pub fn parse_options(raw: &[u8]) -> (r: Vec<DhcpOption>)
    ensures
        options_view(r@) == spec_parse_options(raw@),
{
    let mut options: Vec<DhcpOption> = Vec::new();
    let mut pos: usize = 0;
    proof {
        assert(raw@.subrange(0, raw@.len() as int) =~= raw@);
        assert(options_view(options@) =~= Seq::<OptionView>::empty());
        assert(Seq::<OptionView>::empty() + spec_parse_options(raw@) =~= spec_parse_options(raw@));
    }
    while pos < raw.len()
        invariant
            pos <= raw@.len(),
            options_view(options@) + spec_parse_options(raw@.subrange(pos as int, raw@.len() as int))
                == spec_parse_options(raw@),
        decreases raw@.len() - pos,
    {
        let rest = vstd::slice::slice_subrange(raw, pos, raw.len());
        match DhcpOption::parse(rest) {
            Some((option, n)) => {
                proof {
                    let s = rest@;
                    assert(0 < n <= s.len());
                    assert(spec_parse_options(s) == seq![option@] + spec_parse_options(
                        s.subrange(n as int, s.len() as int),
                    ));
                    assert(s.subrange(n as int, s.len() as int) =~= raw@.subrange(
                        pos + n,
                        raw@.len() as int,
                    ));
                    let ov = options_view(options@);
                    let nv = options_view(options@.push(option));
                    assert(nv =~= ov + seq![option@]);
                }
                options.push(option);
                pos = pos + n;
            },
            None => {
                proof {
                    assert(spec_parse_options(rest@) =~= Seq::<OptionView>::empty());
                    assert(options_view(options@) + Seq::<OptionView>::empty() =~= options_view(
                        options@,
                    ));
                }
                return options;
            },
        }
    }
    proof {
        assert(raw@.subrange(pos as int, raw@.len() as int) =~= Seq::<u8>::empty());
        assert(options_view(options@) + Seq::<OptionView>::empty() =~= options_view(options@));
    }
    options
}

impl<'a> udp::Parsed<'a> {
    /// Attempt to parse a DHCPREPLY packet
    pub fn parse_dhcp_reply(&self, xid: u32) -> (r: Option<(Header, Vec<DhcpOption>)>)
        ensures
            self.payload@.len() >= HEADER_LEN && is_reply_header(self.payload@, xid) <==> r is Some,
            r matches Some((h, opts)) ==> header_of(h, self.payload@) && options_view(opts@)
                == spec_parse_options(
                self.payload@.subrange(HEADER_LEN as int, self.payload@.len() as int),
            ),
    {
        // Get the header and the options
        if self.payload.len() < HEADER_LEN {
            return None;
        }
        let header = Header::parse(self.payload);

        // Verify transaction ID matches
        if header.xid != xid {
            return None;
        }

        // Check header validity
        if header.op != Opcode::Reply.to_u8() || header.htype != HardwareType::Ethernet.to_u8()
            || header.hlen != HardwareType::Ethernet.hlen() || header.cookie != DHCP_COOKIE {
            return None;
        }

        // Parse DHCP options
        let raw_options = vstd::slice::slice_subrange(self.payload, HEADER_LEN, self.payload.len());
        let options = parse_options(raw_options);

        Some((header, options))
    }
}

/// A DHCP lease
#[derive(Debug, Clone, Copy)]
pub struct Lease {
    pub client_ip: Ipv4Addr,
    pub server_ip: Ipv4Addr,
    pub broadcast_ip: Option<Ipv4Addr>,
    pub subnet_mask: Option<Ipv4Addr>,
}

/// The broadcast MAC address, as bytes
pub open spec fn broadcast_mac() -> Seq<u8> {
    seq![0xffu8, 0xff, 0xff, 0xff, 0xff, 0xff]
}

/// Whether a frame sent to `dst` is destined for the device with MAC `mac`
pub open spec fn destined_for(dst: Seq<u8>, mac: Seq<u8>) -> bool {
    dst == mac || dst == broadcast_mac()
}

/// The first server IP option among `s`
pub open spec fn first_server_ip(s: Seq<OptionView>) -> Option<u32>
    decreases s.len(),
{
    if s.len() == 0 {
        None
    } else {
        match s[0] {
            OptionView::ServerIp(a) => Some(a),
            _ => first_server_ip(s.drop_first()),
        }
    }
}

/// The first broadcast IP option among `s`
pub open spec fn first_broadcast_ip(s: Seq<OptionView>) -> Option<u32>
    decreases s.len(),
{
    if s.len() == 0 {
        None
    } else {
        match s[0] {
            OptionView::BroadcastIp(a) => Some(a),
            _ => first_broadcast_ip(s.drop_first()),
        }
    }
}

/// The first subnet mask option among `s`
pub open spec fn first_subnet_mask(s: Seq<OptionView>) -> Option<u32>
    decreases s.len(),
{
    if s.len() == 0 {
        None
    } else {
        match s[0] {
            OptionView::SubnetMask(a) => Some(a),
            _ => first_subnet_mask(s.drop_first()),
        }
    }
}

/// Whether `s` holds a message type option of type `t`
pub open spec fn has_message_type(s: Seq<OptionView>, t: MessageType) -> bool {
    exists|i: int| 0 <= i < s.len() && s[i] == OptionView::MessageType(t)
}

/// The address that a view of an optional address stands for
pub open spec fn opt_addr(a: Option<Ipv4Addr>) -> Option<u32> {
    match a {
        Some(x) => Some(x.0),
        None => None,
    }
}

/// The options of the DHCP reply to `xid` that the UDP payload `p` holds
pub open spec fn reply_options(p: Seq<u8>) -> Seq<OptionView> {
    spec_parse_options(p.subrange(HEADER_LEN as int, p.len() as int))
}

/// Whether the options hold a message type option of type `t`
fn find_message_type(options: &Vec<DhcpOption>, t: MessageType) -> (r: bool)
    ensures
        r == has_message_type(options_view(options@), t),
{
    let ghost ov = options_view(options@);
    let mut i: usize = 0;
    while i < options.len()
        invariant
            i <= options@.len(),
            ov == options_view(options@),
            forall|j: int| 0 <= j < i ==> ov[j] != OptionView::MessageType(t),
        decreases options@.len() - i,
    {
        if let DhcpOption::MessageType(m) = &options[i] {
            if *m == t {
                assert(ov[i as int] == OptionView::MessageType(t));
                return true;
            }
        }
        i = i + 1;
    }
    false
}

/// The first address option of the kind `kind` among the options: `0` for
/// server IPs, `1` for broadcast IPs and `2` for subnet masks
fn find_address(options: &Vec<DhcpOption>, kind: u8) -> (r: Option<Ipv4Addr>)
    requires
        kind <= 2,
    ensures
        kind == 0 ==> opt_addr(r) == first_server_ip(options_view(options@)),
        kind == 1 ==> opt_addr(r) == first_broadcast_ip(options_view(options@)),
        kind == 2 ==> opt_addr(r) == first_subnet_mask(options_view(options@)),
{
    let ghost ov = options_view(options@);
    let mut i: usize = 0;
    assert(ov.subrange(0, ov.len() as int) =~= ov);
    while i < options.len()
        invariant
            i <= options@.len(),
            ov == options_view(options@),
            kind <= 2,
            kind == 0 ==> first_server_ip(ov) == first_server_ip(ov.subrange(i as int, ov.len() as int)),
            kind == 1 ==> first_broadcast_ip(ov) == first_broadcast_ip(
                ov.subrange(i as int, ov.len() as int),
            ),
            kind == 2 ==> first_subnet_mask(ov) == first_subnet_mask(
                ov.subrange(i as int, ov.len() as int),
            ),
        decreases options@.len() - i,
    {
        let ghost rest = ov.subrange(i as int, ov.len() as int);
        assert(rest.drop_first() =~= ov.subrange(i + 1, ov.len() as int));
        assert(rest[0] == options@[i as int]@);
        match &options[i] {
            DhcpOption::ServerIp(a) => {
                if kind == 0 {
                    return Some(*a);
                }
            },
            DhcpOption::BroadcastIp(a) => {
                if kind == 1 {
                    return Some(*a);
                }
            },
            DhcpOption::SubnetMask(a) => {
                if kind == 2 {
                    return Some(*a);
                }
            },
            _ => {},
        }
        i = i + 1;
    }
    proof {
        assert(ov.subrange(i as int, ov.len() as int) =~= Seq::<OptionView>::empty());
    }
    None
}

/// Handle a UDP packet received while waiting for a DHCP offer for the
/// transaction `xid` of the device with MAC `mac`.
///
/// Returns the offered IP and the server IP option, if the packet is an offer
/// for us.
pub fn handle_offer(udp: &udp::Parsed, xid: u32, mac: Mac) -> (r: Option<(Ipv4Addr, Option<Ipv4Addr>)>)
    ensures
        r is Some <==> destined_for(udp.ip@.eth().dst_mac, mac.0@) && udp.payload@.len()
            >= HEADER_LEN && is_reply_header(udp.payload@, xid) && has_message_type(
            reply_options(udp.payload@),
            MessageType::Offer,
        ),
        r matches Some((ip, server)) ==> ip.0 == be_u32(udp.payload@.subrange(16, 20))
            && opt_addr(server) == first_server_ip(reply_options(udp.payload@)),
{
    // Accept packets destined for us
    let dst_mac = udp.ip.eth().dst_mac;
    if dst_mac != mac && dst_mac != Mac::broadcast() {
        return None;
    }

    // Attempt to parse the packet as a DHCP reply
    let (header, options) = udp.parse_dhcp_reply(xid)?;

    // We're looking for an offer now
    if !find_message_type(&options, MessageType::Offer) {
        return None;
    }

    // Save the offered IP and the server IP
    let offered_ip = Ipv4Addr(header.yiaddr);
    let server_ip = find_address(&options, 0);
    Some((offered_ip, server_ip))
}

/// Handle a UDP packet received while waiting for a DHCP acknowledgement for
/// the transaction `xid` of the device with MAC `mac`.
///
/// Returns the broadcast IP and the subnet mask options, if the packet is an
/// acknowledgement for us.
pub fn handle_ack(udp: &udp::Parsed, xid: u32, mac: Mac) -> (r: Option<(Option<Ipv4Addr>, Option<Ipv4Addr>)>)
    ensures
        r is Some <==> destined_for(udp.ip@.eth().dst_mac, mac.0@) && udp.payload@.len()
            >= HEADER_LEN && is_reply_header(udp.payload@, xid) && has_message_type(
            reply_options(udp.payload@),
            MessageType::Ack,
        ),
        r matches Some((broadcast, mask)) ==> opt_addr(broadcast) == first_broadcast_ip(
            reply_options(udp.payload@),
        ) && opt_addr(mask) == first_subnet_mask(reply_options(udp.payload@)),
{
    // Accept packets destined for us
    let dst_mac = udp.ip.eth().dst_mac;
    if dst_mac != mac && dst_mac != Mac::broadcast() {
        return None;
    }

    // Attempt to parse the packet as a DHCP reply
    let (_header, options) = udp.parse_dhcp_reply(xid)?;

    // We're looking for an ACK now
    if !find_message_type(&options, MessageType::Ack) {
        return None;
    }

    // Save the broadcast IP and the subnet mask
    let broadcast_ip = find_address(&options, 1);
    let subnet_mask = find_address(&options, 2);
    Some((broadcast_ip, subnet_mask))
}

/// The bytes of a sequence of serialized options
pub open spec fn serialize_all(s: Seq<OptionView>) -> Seq<u8>
    decreases s.len(),
{
    if s.len() == 0 {
        Seq::empty()
    } else {
        serialize_all(s.drop_last()) + spec_serialize_option(s.last())
    }
}

/// The parameters the client asks the server for: message type, server IP,
/// broadcast IP and subnet mask
pub open spec fn requested_parameters() -> Seq<u8> {
    seq![53u8, 54, 28, 1]
}

/// The options sent with a DHCP request of type `msg_type`: the message type,
/// the parameter request list, the `extra` options and the end option
pub open spec fn spec_request_options(msg_type: MessageType, extra: Seq<OptionView>) -> Seq<u8> {
    spec_serialize_option(OptionView::MessageType(msg_type)) + spec_serialize_option(
        OptionView::ParameterRequestList(requested_parameters()),
    ) + serialize_all(extra) + seq![255u8]
}

impl DhcpOptionsBuilder {
    /// Adds a borrowed option to this builder
    fn add_ref(&mut self, option: &DhcpOption)
        ensures
            final(self)@ == old(self)@ + spec_serialize_option(option@),
    {
        option.serialize(&mut self.inner);
    }
}

/// Serialize the options of a DHCP request of type `msg_type` carrying the
/// `extra_opts`
pub fn request_options(msg_type: MessageType, extra_opts: &[DhcpOption]) -> (r: Vec<u8>)
    ensures
        r@ == spec_request_options(msg_type, options_view(extra_opts@)),
{
    let mut opts = DhcpOptionsBuilder::new();
    opts.add(DhcpOption::MessageType(msg_type));
    let mut params: Vec<u8> = Vec::new();
    params.push(DhcpOptionId::MessageType.to_u8());
    params.push(DhcpOptionId::ServerIp.to_u8());
    params.push(DhcpOptionId::BroadcastIp.to_u8());
    params.push(DhcpOptionId::SubnetMask.to_u8());
    assert(params@ =~= requested_parameters());
    opts.add(DhcpOption::ParameterRequestList(params));
    let ghost start = opts@;
    let mut i: usize = 0;
    while i < extra_opts.len()
        invariant
            i <= extra_opts@.len(),
            opts@ == start + serialize_all(options_view(extra_opts@.take(i as int))),
        decreases extra_opts@.len() - i,
    {
        opts.add_ref(&extra_opts[i]);
        proof {
            let v = options_view(extra_opts@.take(i + 1));
            assert(v.drop_last() =~= options_view(extra_opts@.take(i as int)));
            assert(v.last() == extra_opts@[i as int]@);
        }
        i = i + 1;
    }
    proof {
        assert(extra_opts@.take(extra_opts@.len() as int) =~= extra_opts@);
    }
    opts.end()
}

/// The DHCP header of a request for the transaction `xid` from the MAC `mac`
pub open spec fn request_header(xid: u32, mac: Seq<u8>) -> Seq<u8> {
    seq![Opcode::Request.value(), HardwareType::Ethernet.value(), 6u8, 0] + u32_bytes(xid) + Seq::new(
        20,
        |i: int| 0u8,
    ) + mac + Seq::new(202, |i: int| 0u8) + u32_bytes(DHCP_COOKIE)
}

/// The address DHCP requests are sent with from the MAC `mac`: from the
/// client port of `0.0.0.0` to the server port of the broadcast address
pub open spec fn request_address(mac: Mac) -> NetAddress {
    NetAddress {
        src_mac: mac,
        dst_mac: Mac([0xffu8, 0xff, 0xff, 0xff, 0xff, 0xff]),
        src_ip: IpAddr::V4(Ipv4Addr(0)),
        dst_ip: IpAddr::V4(Ipv4Addr(0xFFFF_FFFF)),
        src_port: Port(DHCP_CLIENT_PORT),
        dst_port: Port(DHCP_SERVER_PORT),
    }
}

/// Append `n` zero bytes to `buffer`
fn push_zeros(buffer: &mut Vec<u8>, n: usize)
    ensures
        final(buffer)@ == old(buffer)@ + Seq::new(n as nat, |i: int| 0u8),
{
    let mut i: usize = 0;
    while i < n
        invariant
            i <= n,
            buffer@ == old(buffer)@ + Seq::new(i as nat, |j: int| 0u8),
        decreases n - i,
    {
        buffer.push(0);
        i = i + 1;
        assert(buffer@ =~= old(buffer)@ + Seq::new(i as nat, |j: int| 0u8));
    }
}

/// The DHCP header of a request for the transaction `xid` from the MAC `mac`
pub fn request_header_bytes(xid: u32, mac: &Mac) -> (r: Vec<u8>)
    ensures
        r@ == request_header(xid, mac.0@),
        r@.len() == HEADER_LEN,
{
    let mut r: Vec<u8> = Vec::new();
    r.push(Opcode::Request.to_u8());
    r.push(HardwareType::Ethernet.to_u8());
    r.push(HardwareType::Ethernet.hlen());
    r.push(0);
    push_all_u32(&mut r, xid);
    push_zeros(&mut r, 20);
    push_all(&mut r, mac.0.as_slice());
    push_zeros(&mut r, 202);
    push_all_u32(&mut r, DHCP_COOKIE);
    assert(r@ =~= request_header(xid, mac.0@));
    r
}

/// Append the big-endian bytes of `value` to `buffer`
fn push_all_u32(buffer: &mut Vec<u8>, value: u32)
    ensures
        final(buffer)@ == old(buffer)@ + u32_bytes(value),
{
    buffer.push((value / 0x100_0000) as u8);
    buffer.push(((value / 0x1_0000) % 0x100) as u8);
    buffer.push(((value / 0x100) % 0x100) as u8);
    buffer.push((value % 0x100) as u8);
    assert(buffer@ =~= old(buffer)@ + u32_bytes(value));
}

impl Packet {
    /// Creates a finalized DHCPREQUEST out of this packet, using `mac` as the
    /// source MAC address: the DHCP header for `xid` followed by `options`,
    /// which are left out when the packet has no room for them
    pub fn create_dhcp_request(&mut self, xid: u32, mac: Mac, options: &[u8])
        requires
            old(self).wf(),
            old(self)@.len() + 42 + HEADER_LEN <= MAX_PACKET_LEN,
        ensures
            final(self).wf(),
            final(self)@ == udp_frame(
                old(self)@,
                request_address(mac),
                request_header(xid, mac.0@) + if old(self)@.len() + 42
                    + HEADER_LEN + options@.len() <= MAX_PACKET_LEN {
                    options@
                } else {
                    Seq::empty()
                },
            ),
    {
        // Initialize the address
        let addr = NetAddress {
            src_mac: mac,
            dst_mac: Mac([0xff, 0xff, 0xff, 0xff, 0xff, 0xff]),
            src_ip: IpAddr::V4(Ipv4Addr(0)),
            dst_ip: IpAddr::V4(Ipv4Addr(0xFFFF_FFFF)),
            src_port: Port(DHCP_CLIENT_PORT),
            dst_port: Port(DHCP_SERVER_PORT),
        };
        proof {
            self.lemma_view();
        }

        // Create a UDP builder
        let mut packet = Packet::new();
        core::mem::swap(&mut packet, self);
        let mut builder = packet.create_udp(&addr);
        let ghost p0 = builder.payload()@;
        proof {
            assert(builder.ip().prot_offset() == 9);
            builder.lemma_wf();
            builder.payload().lemma_view();
            assert(p0.len() == old(self)@.len() + 42) by {
                assert(ip_header_bytes(addr.src_ip, addr.dst_ip).len() == 22);
            }
        }

        // Write in the DHCP header
        let header = request_header_bytes(xid, &mac);
        let _ = builder.write(header.as_slice());
        let ghost p1 = builder.payload()@;
        assert(p1 == p0 + request_header(xid, mac.0@));

        // Write in the options
        let _ = builder.write(options);

        proof {
            let extra = if old(self)@.len() + 42 + HEADER_LEN + options@.len()
                <= MAX_PACKET_LEN {
                options@
            } else {
                Seq::empty()
            };
            assert(addr == request_address(mac));
            assert(builder.payload()@ =~= old(self)@ + addr.dst_mac.0@ + addr.src_mac.0@
                + ip_header_bytes(addr.src_ip, addr.dst_ip).update(11, 0x11u8)
                + crate::net::protocols::udp::udp_header_template(
                addr.src_port.0,
                addr.dst_port.0,
            ) + (request_header(xid, mac.0@) + extra));
        }
        *self = builder.finalize();
    }
}



/// Whether the UDP packet whose destination MAC is `dst` and whose payload
/// is `p` is a DHCP reply of type `t` to the transaction `xid` of the device
/// with MAC `mac`
pub open spec fn is_reply_of_type(dst: Seq<u8>, p: Seq<u8>, xid: u32, mac: Seq<u8>, t: MessageType) -> bool {
    &&& destined_for(dst, mac)
    &&& p.len() >= HEADER_LEN
    &&& is_reply_header(p, xid)
    &&& has_message_type(reply_options(p), t)
}

/// The phases of the acquisition of a lease
#[derive(Debug, Clone, Copy)]
pub enum DhcpPhase {
    /// Waiting for an offer to the discover that was sent
    AwaitOffer,
    /// Waiting for the acknowledgement of the request for `offered` sent to
    /// `server`
    AwaitAck { offered: Ipv4Addr, server: Ipv4Addr },
    /// The lease was acquired
    Leased(Lease),
    /// No lease could be acquired
    Failed,
}

/// The client side of the acquisition of a DHCP lease: the caller sends the
/// requests it hands out and feeds it the UDP packets received on the DHCP
/// client port, or the expiry of the wait
#[derive(Debug)]
pub struct DhcpClient {
    /// Transaction identifier
    pub xid: u32,
    /// MAC address of the device acquiring the lease
    pub mac: Mac,
    /// Where the acquisition stands
    pub phase: DhcpPhase,
}

impl DhcpClient {
    /// Start acquiring a lease: returns the client, waiting for an offer, and
    /// the options of the discover to send
    pub fn start(xid: u32, mac: Mac) -> (r: (DhcpClient, Vec<u8>))
        ensures
            r.0.xid == xid,
            r.0.mac == mac,
            r.0.phase is AwaitOffer,
            r.1@ == spec_request_options(MessageType::Discover, Seq::empty()),
    {
        let none: Vec<DhcpOption> = Vec::new();
        let opts = request_options(MessageType::Discover, none.as_slice());
        assert(options_view(none@) =~= Seq::<OptionView>::empty());
        (DhcpClient { xid, mac, phase: DhcpPhase::AwaitOffer }, opts)
    }

    /// Handle a UDP packet received on the DHCP client port: an offer to our
    /// discover moves on to the request, which is returned to be sent, or
    /// fails the acquisition when it names no server; an acknowledgement of
    /// our request yields the lease; anything else is ignored
    pub fn on_udp(&mut self, udp: &udp::Parsed) -> (r: Option<Vec<u8>>)
        ensures
            final(self).xid == old(self).xid,
            final(self).mac == old(self).mac,
            old(self).phase is AwaitOffer ==> {
                let p = udp.payload@;
                let ok = is_reply_of_type(
                    udp.ip@.eth().dst_mac,
                    p,
                    old(self).xid,
                    old(self).mac.0@,
                    MessageType::Offer,
                );
                let offered = Ipv4Addr(be_u32(p.subrange(16, 20)));
                &&& !ok ==> r is None && final(self).phase is AwaitOffer
                &&& ok && first_server_ip(reply_options(p)) is None ==> r is None
                    && final(self).phase is Failed
                &&& ok ==> (first_server_ip(reply_options(p)) matches Some(server) ==> {
                    &&& final(self).phase == (DhcpPhase::AwaitAck {
                        offered,
                        server: Ipv4Addr(server),
                    })
                    &&& (r matches Some(req) && req@ == spec_request_options(
                        MessageType::Request,
                        seq![OptionView::RequestedIp(offered.0), OptionView::ServerIp(server)],
                    ))
                })
            },
            old(self).phase matches DhcpPhase::AwaitAck { offered, server } ==> {
                let p = udp.payload@;
                let ok = is_reply_of_type(
                    udp.ip@.eth().dst_mac,
                    p,
                    old(self).xid,
                    old(self).mac.0@,
                    MessageType::Ack,
                );
                &&& r is None
                &&& !ok ==> final(self).phase == old(self).phase
                &&& ok ==> (final(self).phase matches DhcpPhase::Leased(lease) && lease.client_ip
                    == offered && lease.server_ip == server && opt_addr(lease.broadcast_ip)
                    == first_broadcast_ip(reply_options(p)) && opt_addr(lease.subnet_mask)
                    == first_subnet_mask(reply_options(p)))
            },
            (old(self).phase is Leased || old(self).phase is Failed) ==> r is None && final(self).phase == old(self).phase,
    {
        match self.phase {
            DhcpPhase::AwaitOffer => {
                match handle_offer(udp, self.xid, self.mac) {
                    None => None,
                    Some((offered, None)) => {
                        self.phase = DhcpPhase::Failed;
                        None
                    },
                    Some((offered, Some(server))) => {
                        self.phase = DhcpPhase::AwaitAck { offered, server };
                        let mut extra: Vec<DhcpOption> = Vec::new();
                        extra.push(DhcpOption::RequestedIp(offered));
                        extra.push(DhcpOption::ServerIp(server));
                        let req = request_options(MessageType::Request, extra.as_slice());
                        assert(options_view(extra@) =~= seq![
                            OptionView::RequestedIp(offered.0),
                            OptionView::ServerIp(server.0),
                        ]);
                        Some(req)
                    },
                }
            },
            DhcpPhase::AwaitAck { offered, server } => {
                match handle_ack(udp, self.xid, self.mac) {
                    None => None,
                    Some((broadcast_ip, subnet_mask)) => {
                        self.phase = DhcpPhase::Leased(
                            Lease { client_ip: offered, server_ip: server, broadcast_ip, subnet_mask },
                        );
                        None
                    },
                }
            },
            _ => None,
        }
    }

    /// The wait for a reply timed out: an acquisition under way fails
    pub fn on_timeout(&mut self)
        ensures
            final(self).xid == old(self).xid,
            final(self).mac == old(self).mac,
            (old(self).phase is AwaitOffer || old(self).phase is AwaitAck) ==> final(self).phase is Failed,
            (old(self).phase is Leased || old(self).phase is Failed) ==> final(self).phase == old(self).phase,
    {
        match self.phase {
            DhcpPhase::AwaitOffer | DhcpPhase::AwaitAck { .. } => {
                self.phase = DhcpPhase::Failed;
            },
            _ => {},
        }
    }

    /// The lease, once acquired
    pub fn lease(&self) -> (r: Option<Lease>)
        ensures
            self.phase matches DhcpPhase::Leased(l) ==> r == Some(l),
            !(self.phase is Leased) ==> r is None,
    {
        match self.phase {
            DhcpPhase::Leased(l) => Some(l),
            _ => None,
        }
    }

    /// Whether the acquisition is over, leased or failed
    pub fn is_done(&self) -> (r: bool)
        ensures
            r == (self.phase is Leased || self.phase is Failed),
    {
        match self.phase {
            DhcpPhase::Leased(_) | DhcpPhase::Failed => true,
            _ => false,
        }
    }
}

/// Whether the option `o` can be written and read back: its payload fits the
/// length byte, and an unknown option's code has no meaning of its own
pub open spec fn option_serializable(o: OptionView) -> bool {
    match o {
        OptionView::ParameterRequestList(d) => d.len() <= 255,
        OptionView::Unknown(c, d) => d.len() <= 255 && spec_option_id(c) is None,
        _ => true,
    }
}

/// Reading back a serialized option, whatever follows it, gives the option
/// and the number of bytes it was serialized to
pub proof fn lemma_parse_serialize_option(o: OptionView, rest: Seq<u8>)
    requires
        option_serializable(o),
    ensures
        spec_parse_option(spec_serialize_option(o) + rest) == Some(
            (o, spec_serialize_option(o).len()),
        ),
        spec_serialize_option(o).len() > 0,
{
    let b = spec_serialize_option(o);
    let s = b + rest;
    match o {
        OptionView::SubnetMask(a) => {
            lemma_u32_roundtrip(a);
            assert(s.subrange(2, 6) =~= u32_bytes(a));
        },
        OptionView::BroadcastIp(a) => {
            lemma_u32_roundtrip(a);
            assert(s.subrange(2, 6) =~= u32_bytes(a));
        },
        OptionView::RequestedIp(a) => {
            lemma_u32_roundtrip(a);
            assert(s.subrange(2, 6) =~= u32_bytes(a));
        },
        OptionView::ServerIp(a) => {
            lemma_u32_roundtrip(a);
            assert(s.subrange(2, 6) =~= u32_bytes(a));
        },
        OptionView::LeaseTime(t) => {
            lemma_u32_roundtrip(t);
            assert(s.subrange(2, 6) =~= u32_bytes(t));
        },
        OptionView::RenewalTime(t) => {
            lemma_u32_roundtrip(t);
            assert(s.subrange(2, 6) =~= u32_bytes(t));
        },
        OptionView::MessageType(t) => {
            assert(s.subrange(2, 3) =~= seq![t.value()]);
        },
        OptionView::ParameterRequestList(d) => {
            assert(s.subrange(2, 2 + d.len() as int) =~= d);
        },
        OptionView::Unknown(c, d) => {
            assert(s.subrange(2, 2 + d.len() as int) =~= d);
        },
        _ => {},
    }
}

/// Serializing an option read from bytes gives those bytes back, but for
/// message types, whose payload may be longer than the one byte read
pub proof fn lemma_serialize_parse_option(s: Seq<u8>)
    requires
        spec_parse_option(s) is Some,
        !(spec_parse_option(s).unwrap().0 is MessageType),
    ensures
        spec_serialize_option(spec_parse_option(s).unwrap().0) == s.take(
            spec_parse_option(s).unwrap().1 as int,
        ),
{
    let (o, n) = spec_parse_option(s).unwrap();
    if s[0] != 0 && s[0] != 255 {
        let p = s.subrange(2, 2 + s[1]);
        if p.len() == 4 {
            lemma_be_u32_bytes(p);
        }
        assert(s.take(n as int) =~= seq![s[0], s[1]] + p);
    }
    assert(spec_serialize_option(o) =~= s.take(n as int));
}

/// The serialization of a sequence of options starts with that of the first
pub proof fn lemma_serialize_all_front(s: Seq<OptionView>)
    requires
        s.len() > 0,
    ensures
        serialize_all(s) == spec_serialize_option(s[0]) + serialize_all(s.drop_first()),
    decreases s.len(),
{
    if s.len() == 1 {
        assert(s.drop_last().len() == 0);
        assert(s.drop_first().len() == 0);
        assert(serialize_all(s.drop_last()) == Seq::<u8>::empty());
        assert(serialize_all(s.drop_first()) == Seq::<u8>::empty());
        assert(s.last() == s[0]);
        assert(serialize_all(s) =~= spec_serialize_option(s[0]) + serialize_all(s.drop_first()));
    } else {
        lemma_serialize_all_front(s.drop_last());
        assert(s.drop_first().drop_last() =~= s.drop_last().drop_first());
        assert(s.drop_first().last() == s.last());
        assert(s.drop_last()[0] == s[0]);
        let a = spec_serialize_option(s[0]);
        let b = serialize_all(s.drop_last().drop_first());
        let c = spec_serialize_option(s.last());
        assert(serialize_all(s) == (a + b) + c);
        assert(serialize_all(s.drop_first()) == b + c);
        assert((a + b) + c =~= a + (b + c));
    }
}

/// Reading back serialized options gives the options
pub proof fn lemma_parse_serialize_all(s: Seq<OptionView>)
    requires
        forall|i: int| 0 <= i < s.len() ==> option_serializable(#[trigger] s[i]),
    ensures
        spec_parse_options(serialize_all(s)) == s,
    decreases s.len(),
{
    if s.len() == 0 {
        assert(serialize_all(s).len() == 0);
        assert(spec_parse_options(serialize_all(s)) =~= s);
    } else {
        let first = spec_serialize_option(s[0]);
        let rest = serialize_all(s.drop_first());
        lemma_serialize_all_front(s);
        lemma_parse_serialize_option(s[0], rest);
        assert forall|i: int| 0 <= i < s.drop_first().len() implies option_serializable(
            #[trigger] s.drop_first()[i],
        ) by {
            assert(s.drop_first()[i] == s[i + 1]);
        }
        lemma_parse_serialize_all(s.drop_first());
        let all = first + rest;
        assert(all.subrange(first.len() as int, all.len() as int) =~= rest);
        assert(spec_parse_options(all) =~= seq![s[0]] + s.drop_first());
        assert(seq![s[0]] + s.drop_first() =~= s);
    }
}

} // verus!
