//! Network addresses, ports and the packet-level protocol stack

pub mod packet;
pub mod drivers;
pub mod protocols;
pub mod route;

use vstd::prelude::*;

verus! {

/// The MAC address of a NIC
#[derive(Debug, Clone, Copy)]
pub struct Mac(pub [u8; 6]);

impl PartialEq for Mac {
    fn eq(&self, other: &Mac) -> (r: bool) {
        let a = &self.0;
        let b = &other.0;
        let r = a[0] == b[0] && a[1] == b[1] && a[2] == b[2] && a[3] == b[3] && a[4] == b[4]
            && a[5] == b[5];
        proof {
            if r {
                assert(a@ =~= b@);
            }
        }
        r
    }
}

impl vstd::std_specs::cmp::PartialEqSpecImpl for Mac {
    open spec fn obeys_eq_spec() -> bool {
        true
    }

    open spec fn eq_spec(&self, other: &Mac) -> bool {
        self.0@ == other.0@
    }
}

impl Eq for Mac {}

impl Mac {
    /// The all-zero MAC address
    pub fn zero() -> (m: Mac)
        ensures
            m.0@ == seq![0u8, 0, 0, 0, 0, 0],
    {
        let m = Mac([0, 0, 0, 0, 0, 0]);
        assert(m.0@ =~= seq![0u8, 0, 0, 0, 0, 0]);
        m
    }

    /// The broadcast MAC address
    pub fn broadcast() -> (m: Mac)
        ensures
            m.0@ == seq![0xffu8, 0xff, 0xff, 0xff, 0xff, 0xff],
    {
        let m = Mac([0xff, 0xff, 0xff, 0xff, 0xff, 0xff]);
        assert(m.0@ =~= seq![0xffu8, 0xff, 0xff, 0xff, 0xff, 0xff]);
        m
    }
}

/// A network port
#[derive(Debug, Clone, Copy, PartialEq, Eq, Structural)]
pub struct Port(pub u16);

/// This is the first port that has been specified by IANA as
/// ephemeral/dynamic.
pub const EPHEMERAL_START: u16 = 49152;

/// The port handed out after `prev` by the ephemeral port allocator: the
/// next one, wrapping around to the first ephemeral port before `u16::MAX`
pub open spec fn next_ephemeral(prev: u16) -> u16 {
    if prev + 1 >= u16::MAX {
        EPHEMERAL_START
    } else {
        (prev + 1) as u16
    }
}

/// The state of the allocator of ports within the IANA ephemeral/dynamic
/// range (`49152..u16::MAX`)
pub struct PortAllocator {
    /// The next free port that will be handed out
    next: u16,
}

impl PortAllocator {
    /// The port that will be handed out next
    pub closed spec fn next(&self) -> u16 {
        self.next
    }

    /// The next port is in the ephemeral range
    pub open spec fn wf(&self) -> bool {
        EPHEMERAL_START <= self.next() < u16::MAX
    }

    /// A fresh allocator, starting at the first ephemeral port
    pub fn new() -> (a: PortAllocator)
        ensures
            a.wf(),
            a.next() == EPHEMERAL_START,
    {
        PortAllocator { next: EPHEMERAL_START }
    }
}

impl Port {
    /// Allocates a new port within the IANA ephemeral/dynamic range
    /// (`49152..u16::MAX)`.
    ///
    /// Note: This is a logical allocation - it does not check actual port
    /// availability. That is, This port may be already bound if explicitly
    /// bound by the user, at which point this function should be called again
    /// to receive the next possibly still unbound port.
    pub fn next_free(ports: &mut PortAllocator) -> (p: Port)
        requires
            old(ports).wf(),
        ensures
            final(ports).wf(),
            EPHEMERAL_START <= p.0 < u16::MAX,
            p.0 == old(ports).next(),
            final(ports).next() == next_ephemeral(old(ports).next()),
    {
        let port = ports.next;
        ports.next = if port >= u16::MAX - 1 {
            EPHEMERAL_START
        } else {
            port + 1
        };
        Port(port)
    }
}

/// Every port handed out by an allocator that started at the first ephemeral
/// port is in the ephemeral range `49152..u16::MAX`, however many ports were
/// handed out before
pub proof fn lemma_next_free_stays_ephemeral(prev: u16)
    requires
        EPHEMERAL_START <= prev < u16::MAX,
    ensures
        EPHEMERAL_START <= next_ephemeral(prev) < u16::MAX,
{
}

/// An IPv4 address, held as its 32 bits in host order
#[derive(Debug, Clone, Copy, PartialEq, Eq, Structural)]
pub struct Ipv4Addr(pub u32);

impl Ipv4Addr {
    /// The address whose bits are `bits`
    pub fn from_bits(bits: u32) -> (a: Ipv4Addr)
        ensures
            a.0 == bits,
    {
        Ipv4Addr(bits)
    }

    /// The bits of the address
    pub fn to_bits(&self) -> (r: u32)
        ensures
            r == self.0,
    {
        self.0
    }
}

/// An IPv6 address, held as its 16 bytes in network order
#[derive(Debug, Clone, Copy)]
pub struct Ipv6Addr(pub [u8; 16]);

impl Ipv6Addr {
    /// The bytes of the address in network order
    pub fn octets(&self) -> (r: [u8; 16])
        ensures
            r@ == self.0@,
    {
        self.0
    }
}

/// An IP address of either version
#[derive(Debug, Clone, Copy)]
pub enum IpAddr {
    V4(Ipv4Addr),
    V6(Ipv6Addr),
}

/// UDP/TCP address
#[derive(Debug, Clone, Copy)]
#[allow(missing_docs)]
pub struct NetAddress {
    pub src_mac: Mac,
    pub src_ip: IpAddr,
    pub src_port: Port,
    pub dst_mac: Mac,
    pub dst_ip: IpAddr,
    pub dst_port: Port,
}

impl Default for NetAddress {
    /// The all-zero address: zero MACs, zero IPv4 addresses and zero ports
    fn default() -> (a: NetAddress)
        ensures
            a.src_mac.0@ == seq![0u8, 0, 0, 0, 0, 0],
            a.dst_mac.0@ == seq![0u8, 0, 0, 0, 0, 0],
            a.src_ip == IpAddr::V4(Ipv4Addr(0)),
            a.dst_ip == IpAddr::V4(Ipv4Addr(0)),
            a.src_port == Port(0),
            a.dst_port == Port(0),
    {
        NetAddress {
            src_mac: Mac::zero(),
            dst_mac: Mac::zero(),
            src_port: Port(0),
            dst_port: Port(0),
            src_ip: IpAddr::V4(Ipv4Addr::from_bits(0)),
            dst_ip: IpAddr::V4(Ipv4Addr::from_bits(0)),
        }
    }
}

/// The device to hand out among devices held `counts[i]` times each: the
/// first of the least held ones, or none when every count is `usize::MAX`
/// (which no device can be picked under)
pub fn least_contended(counts: &[usize]) -> (r: Option<usize>)
    ensures
        r is None <==> forall|i: int| 0 <= i < counts@.len() ==> counts@[i] == usize::MAX,
        r matches Some(i) ==> {
            &&& i < counts@.len()
            &&& counts@[i as int] < usize::MAX
            &&& forall|j: int| 0 <= j < counts@.len() ==> counts@[i as int] <= #[trigger] counts@[j]
            &&& forall|j: int| 0 <= j < i ==> counts@[i as int] < #[trigger] counts@[j]
        },
{
    let mut ret: Option<usize> = None;
    let mut best: usize = usize::MAX;
    let mut i: usize = 0;
    while i < counts.len()
        invariant
            i <= counts@.len(),
            ret is None <==> forall|j: int| 0 <= j < i ==> counts@[j] == usize::MAX,
            ret is None ==> best == usize::MAX,
            ret matches Some(k) ==> {
                &&& k < i
                &&& best == counts@[k as int]
                &&& best < usize::MAX
                &&& forall|j: int| 0 <= j < i ==> best <= #[trigger] counts@[j]
                &&& forall|j: int| 0 <= j < k ==> best < #[trigger] counts@[j]
            },
        decreases counts@.len() - i,
    {
        if counts[i] < best {
            best = counts[i];
            ret = Some(i);
        }
        i = i + 1;
    }
    ret
}

} // verus!
