//! What the network device does with an incoming packet no receive was
//! waiting for, and the table of the UDP ports bound on it

use vstd::prelude::*;
use crate::net::{Mac, Ipv4Addr};
use crate::net::packet::Packet;
use crate::net::protocols::udp::spec_parse_udp;
use crate::net::protocols::tcp::spec_parse_tcp;
use crate::net::protocols::arp::{spec_parse_arp, ArpView, Opcode, HW_TYPE_ETH, ETH_TYPE_IPV4};

verus! {

/// Where an incoming packet goes
#[derive(Debug, Clone, Copy)]
pub enum Route {
    /// A UDP datagram for this port
    Udp(u16),
    /// A TCP segment for this port
    Tcp(u16),
    /// An ARP request for our address: reply to this MAC and IP
    ArpReply(Mac, Ipv4Addr),
    /// Nothing is done with it
    Drop,
}

/// Whether the ARP packet `a` is a request, for an IPv4 Ethernet address,
/// that asks for `ip`
pub open spec fn arp_request_for(a: ArpView, ip: u32) -> bool {
    &&& a.opcode == Opcode::Request.value()
    &&& a.hw_type == HW_TYPE_ETH
    &&& a.proto_type == ETH_TYPE_IPV4
    &&& a.hw_size == 6
    &&& a.proto_size == 4
    &&& a.target_ip == ip
}

/// Route a packet nobody waited for: a UDP datagram to the bind of its
/// port, else a TCP segment to the connection of its port, else an ARP
/// request for `our_ip` (the address of our lease, if any) to a reply;
/// anything else is dropped
pub fn route_packet(packet: &Packet, our_ip: Option<Ipv4Addr>) -> (r: Route)
    requires
        packet.wf(),
    ensures
        spec_parse_udp(packet@) is Ok ==> (r matches Route::Udp(port) && port
            == spec_parse_udp(packet@)->Ok_0.dst_port),
        spec_parse_udp(packet@) is Err && spec_parse_tcp(packet@) is Ok ==> (r matches Route::Tcp(
            port,
        ) && port == spec_parse_tcp(packet@)->Ok_0.dst_port),
        spec_parse_udp(packet@) is Err && spec_parse_tcp(packet@) is Err ==> {
            let arp = spec_parse_arp(packet@);
            if arp is Ok && our_ip is Some && arp_request_for(arp->Ok_0, our_ip->Some_0.0) {
                (r matches Route::ArpReply(mac, ip) && mac.0@ == arp->Ok_0.sender_mac && ip.0
                    == arp->Ok_0.sender_ip)
            } else {
                r is Drop
            }
        },
{
    if let Ok(udp) = packet.parse_udp() {
        return Route::Udp(udp.dst_port.0);
    }
    if let Ok(tcp) = packet.parse_tcp() {
        return Route::Tcp(tcp.dst_port.0);
    }
    if let Ok(arp) = packet.parse_arp() {
        if let Some(ip) = our_ip {
            if arp.is_request_for(ip) {
                return Route::ArpReply(arp.sender_mac, arp.sender_ip);
            }
        }
    }
    Route::Drop
}

/// The UDP ports bound on a device
pub struct UdpBinds {
    /// The bound ports, each once
    ports: Vec<u16>,
}

impl UdpBinds {
    /// Each port is held once
    pub closed spec fn wf(&self) -> bool {
        forall|i: int, j: int|
            0 <= i < j < self.ports@.len() ==> #[trigger] self.ports@[i] != #[trigger] self.ports@[j]
    }

    /// Whether `port` is bound
    pub closed spec fn bound(&self, port: u16) -> bool {
        self.ports@.contains(port)
    }

    /// No port bound
    pub fn new() -> (b: UdpBinds)
        ensures
            b.wf(),
            forall|p: u16| !b.bound(p),
    {
        UdpBinds { ports: Vec::new() }
    }

    /// The index of `port`, if bound
    fn find(&self, port: u16) -> (r: Option<usize>)
        ensures
            r is None <==> !self.bound(port),
            r matches Some(i) ==> i < self.ports@.len() && self.ports@[i as int] == port,
    {
        let mut i: usize = 0;
        while i < self.ports.len()
            invariant
                i <= self.ports@.len(),
                forall|k: int| 0 <= k < i ==> self.ports@[k] != port,
            decreases self.ports@.len() - i,
        {
            if self.ports[i] == port {
                return Some(i);
            }
            i = i + 1;
        }
        None
    }

    /// Whether `port` is bound
    pub fn is_bound(&self, port: u16) -> (r: bool)
        ensures
            r == self.bound(port),
    {
        self.find(port).is_some()
    }

    /// Bind `port`, unless it is bound already: returns whether it was free
    pub fn bind(&mut self, port: u16) -> (r: bool)
        requires
            old(self).wf(),
        ensures
            final(self).wf(),
            r == !old(self).bound(port),
            final(self).bound(port),
            forall|p: u16| p != port ==> final(self).bound(p) == old(self).bound(p),
    {
        if self.find(port).is_some() {
            return false;
        }
        let ghost before = self.ports@;
        self.ports.push(port);
        proof {
            assert(self.ports@ == before.push(port));
            assert forall|p: u16| p != port implies self.bound(p) == before.contains(p) by {
                if before.contains(p) {
                    let k = choose|k: int| 0 <= k < before.len() && before[k] == p;
                    assert(self.ports@[k] == p);
                }
                if self.ports@.contains(p) {
                    let k = choose|k: int| 0 <= k < self.ports@.len() && self.ports@[k] == p;
                    assert(k < before.len());
                    assert(before[k] == p);
                }
            }
            assert(self.ports@[before.len() as int] == port);
        }
        true
    }

    /// Unbind `port`: returns whether it was bound
    pub fn unbind(&mut self, port: u16) -> (r: bool)
        requires
            old(self).wf(),
        ensures
            final(self).wf(),
            r == old(self).bound(port),
            !final(self).bound(port),
            forall|p: u16| p != port ==> final(self).bound(p) == old(self).bound(p),
    {
        match self.find(port) {
            None => false,
            Some(i) => {
                let ghost before = self.ports@;
                self.ports.remove(i);
                proof {
                    assert(self.ports@ == before.remove(i as int));
                    assert forall|p: u16| self.bound(p) == (before.contains(p) && p != port) by {
                        if before.contains(p) && p != port {
                            let k = choose|k: int| 0 <= k < before.len() && before[k] == p;
                            assert(k != i);
                            if k < i {
                                assert(self.ports@[k] == p);
                            } else {
                                assert(self.ports@[k - 1] == p);
                            }
                        }
                        if self.ports@.contains(p) {
                            let k = choose|k: int| 0 <= k < self.ports@.len() && self.ports@[k] == p;
                            if k < i {
                                assert(before[k] == p);
                                assert(k != i);
                            } else {
                                assert(before[k + 1] == p);
                                assert(k + 1 != i);
                            }
                        }
                    }
                }
                true
            },
        }
    }
}

} // verus!
