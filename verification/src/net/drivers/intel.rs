//! Intel e1000 driver: register layout, descriptor formats, the receive and
//! transmit rings and the packet free list
//!
//! The MMIO accesses and the volatile descriptor reads are done by the
//! caller; the ring indices, what is written where and when are decided
//! here.

use vstd::prelude::*;
use crate::net::Mac;
use crate::net::packet::{Packet, PACKET_BUFFER_SIZE};
use crate::pci::{DeviceConfig, BarBits, BarType, spec_bar_u64};

verus! {

/// The Intel NICs map in 128KiB of memory
pub const MMIO_SIZE: usize = 128 * 1024;

/// Number of receive descriptors to allocate for a NIC
pub const RX_DESCS_N: usize = 256;

/// Number of transmit descriptors to allocate for a NIC
pub const TX_DESCS_N: usize = 256;

/// The minimum packet size as specified by the IEEE spec
pub const PACKET_MIN_SIZE: usize = 64;

/// Vendor ID of the NICs this driver handles
pub const INTEL_VID: u16 = 0x8086;

/// Device ID of the NICs this driver handles
pub const E1000_DID: u16 = 0x100E;

/// Device control: reset bit
pub const CTRL_RESET: u32 = 1 << 26;

/// Receive control: enable receive, accept broadcast packets and set the
/// receive buffer size to 4 KiB
pub const RCTL_BITS: u32 = 0x0203_8002;

/// Transmit control: enable transmit
pub const TCTL_ENABLE: u32 = 1 << 1;

/// Transmit command: report status, insert FCS, end of packet
pub const TX_CMD: u8 = 0x0B;

/// NIC register offsets
#[derive(Debug, Clone, Copy, PartialEq, Eq, Structural)]
pub struct NicRegisters {
    /// Device control
    pub ctrl: usize,
    /// Interrupt mask clear
    pub imc: usize,
    /// Receive Control
    pub rctl: usize,
    /// Receive address low
    pub ral: usize,
    /// Receive address high
    pub rah: usize,
    /// Receive descriptor base low
    pub rdbal: usize,
    /// Receive descriptor base high
    pub rdbah: usize,
    /// Receive descriptor length
    pub rdlen: usize,
    /// Receive descriptor head
    pub rdh: usize,
    /// Receive descriptor tail
    pub rdt: usize,
    /// Transmit control
    pub tctl: usize,
    /// Transmit descriptor base low
    pub tdbal: usize,
    /// Transmit descriptor base high
    pub tdbah: usize,
    /// Transmit descriptor length
    pub tdlen: usize,
    /// Transmit descriptor head
    pub tdh: usize,
    /// Transmit descriptor tail
    pub tdt: usize,
}

impl Default for NicRegisters {
    /// The register offsets of the E1000
    fn default() -> (r: NicRegisters)
        ensures
            r == (NicRegisters {
                ctrl: 0x0000,
                imc: 0x00D8,
                rctl: 0x0100,
                ral: 0x5400,
                rah: 0x5404,
                rdbal: 0x2800,
                rdbah: 0x2804,
                rdlen: 0x2808,
                rdh: 0x2810,
                rdt: 0x2818,
                tctl: 0x0400,
                tdbal: 0x3800,
                tdbah: 0x3804,
                tdlen: 0x3808,
                tdh: 0x3810,
                tdt: 0x3818,
            }),
    {
        NicRegisters {
            ctrl: 0x0000,
            imc: 0x00D8,
            rctl: 0x0100,
            ral: 0x5400,
            rah: 0x5404,
            rdbal: 0x2800,
            rdbah: 0x2804,
            rdlen: 0x2808,
            rdh: 0x2810,
            rdt: 0x2818,
            tctl: 0x0400,
            tdbal: 0x3800,
            tdbah: 0x3804,
            tdlen: 0x3808,
            tdh: 0x3810,
            tdt: 0x3818,
        }
    }
}

/// Index of the `u32` of the MMIO space that the register at `reg_offset` is
pub fn mmio_index(reg_offset: usize) -> (i: usize)
    ensures
        i == reg_offset / 4,
{
    reg_offset / 4
}

/// The values written to the high and the low register of a 64-bit pair
pub fn split_high_low(val: u64) -> (r: (u32, u32))
    ensures
        r.0 == val / 0x1_0000_0000,
        r.1 == val % 0x1_0000_0000,
{
    let hi = (val >> 32) as u32;
    let lo = val as u32;
    assert(hi == val / 0x1_0000_0000) by (bit_vector)
        requires
            hi == (val >> 32) as u32,
    ;
    assert(lo == val % 0x1_0000_0000) by (bit_vector)
        requires
            lo == val as u32,
    ;
    (hi, lo)
}

/// Whether this driver handles the PCI device `cfg`
pub fn probe_matches(cfg: &DeviceConfig) -> (r: bool)
    ensures
        r == (cfg.header.vendor_id == INTEL_VID && cfg.header.device_id == E1000_DID),
{
    cfg.header.vendor_id == INTEL_VID && cfg.header.device_id == E1000_DID
}

/// The physical address of the MMIO space of the NIC `cfg`: `None` when
/// BAR0 is not a memory BAR or the address is not page aligned
pub fn mmio_phys_addr(cfg: &DeviceConfig) -> (r: Option<u64>)
    ensures
        r == (if cfg.bar0 % 2 != 0 {
            None::<u64>
        } else if spec_bar_u64(cfg.bar0, cfg.bar1) % 4096 != 0 {
            None::<u64>
        } else {
            Some(spec_bar_u64(cfg.bar0, cfg.bar1))
        }),
{
    // Make sure BAR0 is a memory bar
    if BarType::from_bar(cfg.bar0) != BarType::Memory {
        return None;
    }
    // Get the physical address from the BARs
    let addr = BarBits::u64(cfg.bar0, cfg.bar1);

    // Make sure it's aligned
    if addr % 4096 != 0 {
        return None;
    }
    Some(addr)
}

/// Whether the receive address high register marks its address valid
pub open spec fn mac_valid(rah: u32) -> bool {
    rah / 0x8000_0000 == 1
}

/// The MAC address held by the first entry of the receive address filter:
/// the four bytes of `ral` then the two low bytes of `rah`, lowest first
pub fn mac_from_receive_address(ral: u32, rah: u32) -> (m: Mac)
    requires
        mac_valid(rah),
    ensures
        m.0@ == seq![
            (ral % 0x100) as u8,
            ((ral / 0x100) % 0x100) as u8,
            ((ral / 0x1_0000) % 0x100) as u8,
            (ral / 0x100_0000) as u8,
            (rah % 0x100) as u8,
            ((rah / 0x100) % 0x100) as u8,
        ],
{
    let b0 = (ral & 0xFF) as u8;
    let b1 = ((ral >> 8) & 0xFF) as u8;
    let b2 = ((ral >> 16) & 0xFF) as u8;
    let b3 = ((ral >> 24) & 0xFF) as u8;
    let b4 = (rah & 0xFF) as u8;
    let b5 = ((rah >> 8) & 0xFF) as u8;
    assert(b0 == (ral % 0x100) as u8 && b1 == ((ral / 0x100) % 0x100) as u8) by (bit_vector)
        requires
            b0 == (ral & 0xFF) as u8,
            b1 == ((ral >> 8) & 0xFF) as u8,
    ;
    assert(b2 == ((ral / 0x1_0000) % 0x100) as u8 && b3 == (ral / 0x100_0000) as u8) by (bit_vector)
        requires
            b2 == ((ral >> 16) & 0xFF) as u8,
            b3 == ((ral >> 24) & 0xFF) as u8,
    ;
    assert(b4 == (rah % 0x100) as u8 && b5 == ((rah / 0x100) % 0x100) as u8) by (bit_vector)
        requires
            b4 == (rah & 0xFF) as u8,
            b5 == ((rah >> 8) & 0xFF) as u8,
    ;
    let m = Mac([b0, b1, b2, b3, b4, b5]);
    assert(m.0@ =~= seq![b0, b1, b2, b3, b4, b5]);
    m
}

/// Intel NIC receive descriptor
#[derive(Debug, Clone, Copy, PartialEq, Eq, Structural)]
pub struct RxDescriptor {
    pub addr: u64,
    pub len: u16,
    pub checksum: u16,
    pub status: u8,
    pub errors: u8,
    pub special: u16,
}

impl RxDescriptor {
    /// A descriptor handing the buffer at `addr` to the NIC
    pub fn new(addr: u64) -> (d: RxDescriptor)
        ensures
            d == (RxDescriptor { addr, len: 0, checksum: 0, status: 0, errors: 0, special: 0 }),
    {
        RxDescriptor { addr, len: 0, checksum: 0, status: 0, errors: 0, special: 0 }
    }
}

/// Intel NIC legacy transmit descriptor
#[derive(Debug, Clone, Copy, PartialEq, Eq, Structural)]
pub struct LegacyTxDescriptor {
    pub addr: u64,
    pub len: u16,
    pub cso: u8,
    pub cmd: u8,
    pub status: u8,
    pub css: u8,
    pub special: u16,
}

impl LegacyTxDescriptor {
    /// A descriptor sending the `len` bytes of the buffer at `addr`,
    /// reporting status and inserting the FCS
    pub fn new(addr: u64, len: u16) -> (d: LegacyTxDescriptor)
        ensures
            d == (LegacyTxDescriptor {
                addr,
                len,
                cso: 0,
                cmd: TX_CMD,
                status: 0,
                css: 0,
                special: 0,
            }),
    {
        LegacyTxDescriptor { addr, len, cso: 0, cmd: TX_CMD, status: 0, css: 0, special: 0 }
    }
}

/// Receive ring: the index of the next descriptor to get a packet from
#[derive(Debug)]
pub struct RxRing {
    head: usize,
}

/// What to do with a descriptor the NIC filled
#[derive(Debug, Clone, Copy, PartialEq, Eq, Structural)]
pub struct RxStep {
    /// Index of the descriptor holding the received packet
    pub index: usize,
    /// Length of the received packet
    pub len: usize,
    /// Value to write to the receive descriptor tail, handing the
    /// descriptor back to the NIC
    pub tail: u32,
}

impl RxRing {
    /// Index of the next descriptor to get a packet from
    pub closed spec fn spec_head(&self) -> nat {
        self.head as nat
    }

    /// A ring starting at its first descriptor
    pub fn new() -> (r: RxRing)
        ensures
            r.spec_head() == 0,
    {
        RxRing { head: 0 }
    }

    /// Index of the next descriptor to get a packet from
    pub fn head(&self) -> (h: usize)
        ensures
            h == self.spec_head(),
    {
        self.head
    }

    /// Receive from the head descriptor, whose status, errors and length
    /// fields are given: nothing when it holds no packet, else the step to
    /// take, advancing the head
    pub fn recv(&mut self, status: u8, errors: u8, len: u16) -> (r: Option<RxStep>)
        requires
            old(self).spec_head() < RX_DESCS_N,
            status % 2 == 1 ==> errors == 0,
        ensures
            final(self).spec_head() < RX_DESCS_N,
            status % 2 == 0 ==> r is None && final(self).spec_head() == old(self).spec_head(),
            status % 2 == 1 ==> r == Some(
                RxStep {
                    index: old(self).spec_head() as usize,
                    len: len as usize,
                    tail: old(self).spec_head() as u32,
                },
            ) && final(self).spec_head() == (old(self).spec_head() + 1) % (RX_DESCS_N as nat),
    {
        // Check if there's packet on the line and bail out if not
        if status & 1 == 0 {
            assert(status % 2 == 0) by (bit_vector)
                requires
                    status & 1 == 0,
            ;
            return None;
        }
        assert(status % 2 == 1) by (bit_vector)
            requires
                status & 1 != 0,
        ;
        let head = self.head;
        self.head = (head + 1) % RX_DESCS_N;
        Some(RxStep { index: head, len: len as usize, tail: head as u32 })
    }
}

/// Transmit ring: the descriptors from `head` up to `tail` (counted without
/// wrapping) are queued to the NIC
#[derive(Debug)]
pub struct TxRing {
    head: usize,
    tail: usize,
}

impl TxRing {
    /// Index of the oldest descriptor not known to be sent
    pub closed spec fn spec_head(&self) -> nat {
        self.head as nat
    }

    /// Index of the next descriptor to fill
    pub closed spec fn spec_tail(&self) -> nat {
        self.tail as nat
    }

    /// The queued descriptors never fill the ring
    pub open spec fn wf(&self) -> bool {
        self.spec_head() <= self.spec_tail() < self.spec_head() + TX_DESCS_N
    }

    /// An empty ring
    pub fn new() -> (r: TxRing)
        ensures
            r.wf(),
            r.spec_head() == 0,
            r.spec_tail() == 0,
    {
        TxRing { head: 0, tail: 0 }
    }

    /// Whether there's no room in the ring for another descriptor
    pub fn is_full(&self) -> (r: bool)
        requires
            self.wf(),
        ensures
            r == (self.spec_tail() - self.spec_head() >= TX_DESCS_N - 1),
    {
        self.tail - self.head >= TX_DESCS_N - 1
    }

    /// Update the head for each packet which was sent by the NIC: `done[i]`
    /// is whether descriptor `i` reports its packet sent. The head moves past
    /// the latest queued descriptor that is done, if any.
    pub fn reclaim(&mut self, done: &[bool])
        requires
            old(self).wf(),
            done@.len() == TX_DESCS_N,
        ensures
            final(self).wf(),
            final(self).spec_tail() == old(self).spec_tail(),
            (exists|e: int|
                old(self).spec_head() <= e < old(self).spec_tail() && #[trigger] done@[e
                    % TX_DESCS_N as int]) ==> {
                let e = final(self).spec_head() - 1;
                &&& old(self).spec_head() <= e < old(self).spec_tail()
                &&& done@[e % TX_DESCS_N as int]
                &&& forall|f: int| e < f < old(self).spec_tail() ==> !#[trigger] done@[f
                    % TX_DESCS_N as int]
            },
            !(exists|e: int|
                old(self).spec_head() <= e < old(self).spec_tail() && #[trigger] done@[e
                    % TX_DESCS_N as int]) ==> final(self).spec_head() == old(self).spec_head(),
    {
        let head = self.head;
        let mut end = self.tail;
        while end > head
            invariant
                head <= end <= self.tail,
                self.head == head,
                self.tail == old(self).tail,
                self.head == old(self).head,
                old(self).wf(),
                done@.len() == TX_DESCS_N,
                forall|f: int| end <= f < self.tail ==> !#[trigger] done@[f % TX_DESCS_N as int],
            decreases end - head,
        {
            end = end - 1;
            if done[end % TX_DESCS_N] {
                self.head = end + 1;
                return;
            }
        }
    }

    /// Queue a packet in the next descriptor; `flush` asks for the NIC to be
    /// told at once.
    ///
    /// Returns the index of the descriptor to fill and, when the NIC is to
    /// be told, the value of the new transmit tail.
    pub fn push(&mut self, flush: bool) -> (r: (usize, Option<u32>))
        requires
            old(self).wf(),
            old(self).spec_tail() - old(self).spec_head() < TX_DESCS_N - 1,
            old(self).spec_tail() < usize::MAX,
        ensures
            final(self).wf(),
            final(self).spec_head() == old(self).spec_head(),
            final(self).spec_tail() == old(self).spec_tail() + 1,
            r.0 == old(self).spec_tail() % (TX_DESCS_N as nat),
            r.1 == (if flush || final(self).spec_tail() - old(self).spec_head() == TX_DESCS_N - 1 {
                Some(((old(self).spec_tail() + 1) % (TX_DESCS_N as nat)) as u32)
            } else {
                None::<u32>
            }),
    {
        let idx = self.tail % TX_DESCS_N;
        self.tail = self.tail + 1;
        let doorbell = if flush || self.tail - self.head == TX_DESCS_N - 1 {
            Some((self.tail % TX_DESCS_N) as u32)
        } else {
            None
        };
        (idx, doorbell)
    }
}

/// A free list of packets, used to avoid packet relocation
pub struct PacketPool {
    packets: Vec<Packet>,
    capacity: usize,
}

impl PacketPool {
    /// Every pooled packet is an empty, well formed packet
    pub closed spec fn wf(&self) -> bool {
        &&& self.packets@.len() <= self.capacity
        &&& forall|i: int|
            0 <= i < self.packets@.len() ==> (#[trigger] self.packets@[i]).wf()
                && self.packets@[i].length() == 0
    }

    /// Number of pooled packets
    pub closed spec fn count(&self) -> nat {
        self.packets@.len()
    }

    /// Number of packets the pool keeps at most
    pub closed spec fn spec_capacity(&self) -> nat {
        self.capacity as nat
    }

    /// An empty pool keeping up to `capacity` packets
    pub fn new(capacity: usize) -> (p: PacketPool)
        ensures
            p.wf(),
            p.count() == 0,
            p.spec_capacity() == capacity,
    {
        PacketPool { packets: Vec::new(), capacity }
    }

    /// Get an empty packet, a pooled one if there is any
    pub fn allocate_packet(&mut self) -> (p: Packet)
        requires
            old(self).wf(),
        ensures
            final(self).wf(),
            p.wf(),
            p@ == Seq::<u8>::empty(),
            old(self).count() > 0 ==> final(self).count() == old(self).count() - 1,
            old(self).count() == 0 ==> final(self).count() == 0,
            final(self).spec_capacity() == old(self).spec_capacity(),
    {
        match self.packets.pop() {
            Some(p) => {
                proof {
                    assert(p == old(self).packets@[old(self).packets@.len() - 1]);
                    p.lemma_view();
                }
                p
            },
            None => Packet::new(),
        }
    }

    /// Give a packet back: it is emptied and kept if the pool has room
    pub fn release_packet(&mut self, packet: Packet)
        requires
            old(self).wf(),
            packet.wf(),
        ensures
            final(self).wf(),
            old(self).count() < old(self).spec_capacity() ==> final(self).count() == old(self).count()
                + 1,
            old(self).count() >= old(self).spec_capacity() ==> final(self).count() == old(
                self,
            ).count(),
            final(self).spec_capacity() == old(self).spec_capacity(),
    {
        let mut packet = packet;
        if self.packets.len() < self.capacity {
            packet.clear();
            self.packets.push(packet);
        }
    }
}

/// Pad a packet smaller than the minimum size with zeroes
pub fn pad_packet(packet: &mut Packet)
    requires
        old(packet).wf(),
    ensures
        final(packet).wf(),
        old(packet).length() >= PACKET_MIN_SIZE ==> *final(packet) == *old(packet),
        old(packet).length() < PACKET_MIN_SIZE ==> final(packet)@ == old(packet)@ + Seq::new(
            (PACKET_MIN_SIZE - old(packet).length()) as nat,
            |i: int| 0u8,
        ),
{
    packet.pad(PACKET_MIN_SIZE);
}

} // verus!
