//! Routines for the handling of PCI devices: configuration space addressing,
//! decoding of the configuration registers and of the BARs
//!
//! The port I/O itself is done by the caller.

use vstd::prelude::*;

verus! {

/// I/O port for the configuration space address
pub const PCI_CONFIG_ADDRESS: u16 = 0xCF8;

/// I/O port for the configuration space data
pub const PCI_CONFIG_DATA: u16 = 0xCFC;

/// Number of 32-bit registers of the common header
pub const HEADER_REGS: usize = 4;

/// Number of 32-bit registers of a device configuration
pub const DEVICE_CONFIG_REGS: usize = 16;

/// Trait that all PCI device drivers must implement
pub trait Device {
    /// Disable the device and release resources (called before a soft
    /// reboot)
    ///
    /// When a soft reboot happens, it is ideal to reset all devices to a
    /// state where they can be immediately re-initialized after the standard
    /// post-boot probe process.
    ///
    /// This function MUST BE RE-ENTRANT AT ALL COST.
    fn purge(&self);
}

/// Byte `k` of the little-endian `w`
pub open spec fn byte_of(w: u32, k: nat) -> u8 {
    ((w as nat / vstd::arithmetic::power2::pow2(8 * k)) % 0x100) as u8
}

/// Low half of `w`
pub open spec fn low_half(w: u32) -> u16 {
    (w % 0x1_0000) as u16
}

/// High half of `w`
pub open spec fn high_half(w: u32) -> u16 {
    (w / 0x1_0000) as u16
}

/// The four bytes of `w`, lowest first
pub fn u32_le_bytes(w: u32) -> (b: [u8; 4])
    ensures
        b@[0] == w % 0x100,
        b@[1] == (w / 0x100) % 0x100,
        b@[2] == (w / 0x1_0000) % 0x100,
        b@[3] == w / 0x100_0000,
{
    let b0 = (w & 0xFF) as u8;
    let b1 = ((w >> 8) & 0xFF) as u8;
    let b2 = ((w >> 16) & 0xFF) as u8;
    let b3 = (w >> 24) as u8;
    assert(b0 == w % 0x100 && b1 == (w / 0x100) % 0x100) by (bit_vector)
        requires
            b0 == (w & 0xFF) as u8,
            b1 == ((w >> 8) & 0xFF) as u8,
    ;
    assert(b2 == (w / 0x1_0000) % 0x100 && b3 == w / 0x100_0000) by (bit_vector)
        requires
            b2 == ((w >> 16) & 0xFF) as u8,
            b3 == (w >> 24) as u8,
    ;
    [b0, b1, b2, b3]
}

/// The two halves of `w`, lowest first
pub fn u32_halves(w: u32) -> (h: (u16, u16))
    ensures
        h.0 == low_half(w),
        h.1 == high_half(w),
{
    let lo = (w & 0xFFFF) as u16;
    let hi = (w >> 16) as u16;
    assert(lo == w % 0x1_0000 && hi == w / 0x1_0000) by (bit_vector)
        requires
            lo == (w & 0xFFFF) as u16,
            hi == (w >> 16) as u16,
    ;
    (lo, hi)
}

/// PCI header common for any other PCI header
#[derive(Debug, Clone, Copy, PartialEq, Eq, Structural)]
pub struct Header {
    pub vendor_id: u16,
    pub device_id: u16,
    pub command: u16,
    pub status: u16,
    pub revision: u8,
    pub prog_if: u8,
    pub subclass: u8,
    pub class: u8,
    pub cache_line_size: u8,
    pub latency_timer: u8,
    pub header_type: u8,
    pub bist: u8,
}

/// Whether `h` is the header the first four configuration registers `r`
/// hold, laid out little-endian
pub open spec fn is_header_of(h: Header, r: Seq<u32>) -> bool {
    &&& h.vendor_id == low_half(r[0])
    &&& h.device_id == high_half(r[0])
    &&& h.command == low_half(r[1])
    &&& h.status == high_half(r[1])
    &&& h.revision == r[2] % 0x100
    &&& h.prog_if == (r[2] / 0x100) % 0x100
    &&& h.subclass == (r[2] / 0x1_0000) % 0x100
    &&& h.class == r[2] / 0x100_0000
    &&& h.cache_line_size == r[3] % 0x100
    &&& h.latency_timer == (r[3] / 0x100) % 0x100
    &&& h.header_type == (r[3] / 0x1_0000) % 0x100
    &&& h.bist == r[3] / 0x100_0000
}

impl Header {
    /// Decode the header from the configuration registers `regs`
    pub fn from_registers(regs: &[u32]) -> (h: Header)
        requires
            regs@.len() >= HEADER_REGS,
        ensures
            is_header_of(h, regs@),
    {
        let (vendor_id, device_id) = u32_halves(regs[0]);
        let (command, status) = u32_halves(regs[1]);
        let r2 = u32_le_bytes(regs[2]);
        let r3 = u32_le_bytes(regs[3]);
        Header {
            vendor_id,
            device_id,
            command,
            status,
            revision: r2[0],
            prog_if: r2[1],
            subclass: r2[2],
            class: r2[3],
            cache_line_size: r3[0],
            latency_timer: r3[1],
            header_type: r3[2],
            bist: r3[3],
        }
    }

    /// Whether this is the header of a device, not of a bridge or the like
    pub fn is_device(&self) -> (r: bool)
        ensures
            r == (self.header_type % 0x80 == 0),
    {
        let t = self.header_type;
        assert((t & 0x7F == 0) == (t % 0x80 == 0)) by (bit_vector);
        t & 0x7F == 0
    }
}

/// Configuration of a PCI device
#[derive(Debug, Clone, Copy)]
pub struct DeviceConfig {
    pub header: Header,
    pub bar0: u32,
    pub bar1: u32,
    pub bar2: u32,
    pub bar3: u32,
    pub bar4: u32,
    pub bar5: u32,
    pub cardbus_cis_pointer: u32,
    pub subsystem_vendor_id: u16,
    pub subsystem_device_id: u16,
    pub expansion_rom_address: u32,
    pub capabilities: u8,
    pub reserved: [u8; 7],
    pub interrupt_line: u8,
    pub interrupt_pin: u8,
    pub min_grant: u8,
    pub max_latency: u8,
}

/// Whether `c` is the configuration that the sixteen configuration
/// registers `r` hold, laid out little-endian
pub open spec fn is_config_of(c: DeviceConfig, r: Seq<u32>) -> bool {
    &&& is_header_of(c.header, r)
    &&& c.bar0 == r[4]
    &&& c.bar1 == r[5]
    &&& c.bar2 == r[6]
    &&& c.bar3 == r[7]
    &&& c.bar4 == r[8]
    &&& c.bar5 == r[9]
    &&& c.cardbus_cis_pointer == r[10]
    &&& c.subsystem_vendor_id == low_half(r[11])
    &&& c.subsystem_device_id == high_half(r[11])
    &&& c.expansion_rom_address == r[12]
    &&& c.capabilities == r[13] % 0x100
    &&& c.reserved@ == seq![
        ((r[13] / 0x100) % 0x100) as u8,
        ((r[13] / 0x1_0000) % 0x100) as u8,
        (r[13] / 0x100_0000) as u8,
        (r[14] % 0x100) as u8,
        ((r[14] / 0x100) % 0x100) as u8,
        ((r[14] / 0x1_0000) % 0x100) as u8,
        (r[14] / 0x100_0000) as u8,
    ]
    &&& c.interrupt_line == r[15] % 0x100
    &&& c.interrupt_pin == (r[15] / 0x100) % 0x100
    &&& c.min_grant == (r[15] / 0x1_0000) % 0x100
    &&& c.max_latency == r[15] / 0x100_0000
}

/// The lowercase hexadecimal digit of `n`
pub open spec fn hex_char(n: u8) -> char {
    if n < 10 {
        (0x30 + n) as char
    } else {
        (0x57 + n) as char
    }
}

/// `v` written as `0x` and four lowercase hexadecimal digits
pub open spec fn hex4(v: u16) -> Seq<char> {
    seq![
        '0',
        'x',
        hex_char((v / 0x1000) as u8),
        hex_char(((v / 0x100) % 0x10) as u8),
        hex_char(((v / 0x10) % 0x10) as u8),
        hex_char((v % 0x10) as u8),
    ]
}

/// The one-character string of the hexadecimal digit `n`
fn hex_digit(n: u8) -> (s: &'static str)
    requires
        n < 16,
    ensures
        s@ == seq![hex_char(n)],
{
    match n {
        0 => {
            proof {
                reveal_strlit("0");
            }
            "0"
        },
        1 => {
            proof {
                reveal_strlit("1");
            }
            "1"
        },
        2 => {
            proof {
                reveal_strlit("2");
            }
            "2"
        },
        3 => {
            proof {
                reveal_strlit("3");
            }
            "3"
        },
        4 => {
            proof {
                reveal_strlit("4");
            }
            "4"
        },
        5 => {
            proof {
                reveal_strlit("5");
            }
            "5"
        },
        6 => {
            proof {
                reveal_strlit("6");
            }
            "6"
        },
        7 => {
            proof {
                reveal_strlit("7");
            }
            "7"
        },
        8 => {
            proof {
                reveal_strlit("8");
            }
            "8"
        },
        9 => {
            proof {
                reveal_strlit("9");
            }
            "9"
        },
        10 => {
            proof {
                reveal_strlit("a");
            }
            "a"
        },
        11 => {
            proof {
                reveal_strlit("b");
            }
            "b"
        },
        12 => {
            proof {
                reveal_strlit("c");
            }
            "c"
        },
        13 => {
            proof {
                reveal_strlit("d");
            }
            "d"
        },
        14 => {
            proof {
                reveal_strlit("e");
            }
            "e"
        },
        _ => {
            proof {
                reveal_strlit("f");
            }
            "f"
        },
    }
}

/// Append `v` to `s` as `0x` and four lowercase hexadecimal digits
fn push_hex4(s: &mut String, v: u16)
    ensures
        final(s)@ == old(s)@ + hex4(v),
{
    proof {
        reveal_strlit("0x");
    }
    s.append("0x");
    s.append(hex_digit((v / 0x1000) as u8));
    s.append(hex_digit(((v / 0x100) % 0x10) as u8));
    s.append(hex_digit(((v / 0x10) % 0x10) as u8));
    s.append(hex_digit((v % 0x10) as u8));
    assert(final(s)@ =~= old(s)@ + hex4(v));
}

impl DeviceConfig {
    /// Decode the device configuration from the configuration registers
    /// `regs`
    pub fn from_registers(regs: &[u32]) -> (c: DeviceConfig)
        requires
            regs@.len() >= DEVICE_CONFIG_REGS,
        ensures
            is_config_of(c, regs@),
    {
        let header = Header::from_registers(regs);
        let (subsystem_vendor_id, subsystem_device_id) = u32_halves(regs[11]);
        let r13 = u32_le_bytes(regs[13]);
        let r14 = u32_le_bytes(regs[14]);
        let r15 = u32_le_bytes(regs[15]);
        let reserved = [r13[1], r13[2], r13[3], r14[0], r14[1], r14[2], r14[3]];
        let c = DeviceConfig {
            header,
            bar0: regs[4],
            bar1: regs[5],
            bar2: regs[6],
            bar3: regs[7],
            bar4: regs[8],
            bar5: regs[9],
            cardbus_cis_pointer: regs[10],
            subsystem_vendor_id,
            subsystem_device_id,
            expansion_rom_address: regs[12],
            capabilities: r13[0],
            reserved,
            interrupt_line: r15[0],
            interrupt_pin: r15[1],
            min_grant: r15[2],
            max_latency: r15[3],
        };
        assert(c.reserved@ =~= seq![
            ((regs@[13] / 0x100) % 0x100) as u8,
            ((regs@[13] / 0x1_0000) % 0x100) as u8,
            (regs@[13] / 0x100_0000) as u8,
            (regs@[14] % 0x100) as u8,
            ((regs@[14] / 0x100) % 0x100) as u8,
            ((regs@[14] / 0x1_0000) % 0x100) as u8,
            (regs@[14] / 0x100_0000) as u8,
        ]);
        c
    }

    /// Returns the string representation of the header and subsystem vendor
    /// and device IDs
    pub fn did_vid(&self) -> (s: String)
        ensures
            s@ == hex4(self.header.vendor_id) + seq![':'] + hex4(self.header.device_id) + seq![
                ' ',
            ] + hex4(self.subsystem_vendor_id) + seq![':'] + hex4(self.subsystem_device_id),
    {
        let mut s = String::new();
        proof {
            reveal_strlit(":");
            reveal_strlit(" ");
        }
        push_hex4(&mut s, self.header.vendor_id);
        s.append(":");
        push_hex4(&mut s, self.header.device_id);
        s.append(" ");
        push_hex4(&mut s, self.subsystem_vendor_id);
        s.append(":");
        push_hex4(&mut s, self.subsystem_device_id);
        assert(s@ =~= hex4(self.header.vendor_id) + seq![':'] + hex4(self.header.device_id)
            + seq![' '] + hex4(self.subsystem_vendor_id) + seq![':'] + hex4(
            self.subsystem_device_id,
        ));
        s
    }
}

/// The bitness of a BAR
#[derive(Debug, Clone, Copy, PartialEq, Eq, Structural)]
pub enum BarBits {
    Bit32,
    Bit64,
}

/// The bitness that `bar` declares: bits 1 and 2 set to `0b10` mean 64-bit
pub open spec fn spec_bar_bits(bar: u32) -> BarBits {
    if (bar / 2) % 4 == 2 {
        BarBits::Bit64
    } else {
        BarBits::Bit32
    }
}

/// The value of the BAR `bar0`, or, when `bar0` is 64-bit, `bar0` in the
/// high half and `bar1` in the low half, with the low four bits of both
/// masked off
pub open spec fn spec_bar_u64(bar0: u32, bar1: u32) -> u64 {
    let first = bar0 - bar0 % 16;
    let second = bar1 - bar1 % 16;
    match spec_bar_bits(bar0) {
        BarBits::Bit32 => first as u64,
        BarBits::Bit64 => (first * 0x1_0000_0000 + second) as u64,
    }
}

impl BarBits {
    /// Return the bitness of `bar`
    pub fn from_bar(bar: u32) -> (b: BarBits)
        ensures
            b == spec_bar_bits(bar),
    {
        assert(((bar >> 1) & 3) == (bar / 2) % 4) by (bit_vector);
        if (bar >> 1) & 0b11 == 0b10 {
            BarBits::Bit64
        } else {
            BarBits::Bit32
        }
    }

    /// Based on the bitness of `bar0`, returns a whole `u64` value from
    /// either `bar0` (if 32-bit), or in `bar0 << 32 | bar1` (if 64-bit)
    /// with the BAR type bits masked off from both
    pub fn u64(bar0: u32, bar1: u32) -> (v: u64)
        ensures
            v == spec_bar_u64(bar0, bar1),
    {
        // Mask off the bits from both
        let higher = (bar0 & !0b1111) as u64;
        let lower = (bar1 & !0b1111) as u64;
        assert(higher == bar0 - bar0 % 16) by (bit_vector)
            requires
                higher == (bar0 & !0b1111u32) as u64,
        ;
        assert(lower == bar1 - bar1 % 16) by (bit_vector)
            requires
                lower == (bar1 & !0b1111u32) as u64,
        ;
        // Return the u64 based on bitness
        match BarBits::from_bar(bar0) {
            BarBits::Bit32 => higher,
            BarBits::Bit64 => {
                let v = (higher << 32) | lower;
                assert(v == higher * 0x1_0000_0000 + lower) by (bit_vector)
                    requires
                        v == (higher << 32) | lower,
                        higher <= 0xFFFF_FFFF,
                        lower <= 0xFFFF_FFFF,
                ;
                v
            },
        }
    }
}

/// The memory type of a BAR
#[derive(Debug, Clone, Copy, PartialEq, Eq, Structural)]
pub enum BarType {
    IO,
    Memory,
}

impl BarType {
    /// Return the type of `bar`: its low bit set means I/O space
    pub fn from_bar(bar: u32) -> (t: BarType)
        ensures
            t == (if bar % 2 == 0 { BarType::Memory } else { BarType::IO }),
    {
        assert((bar & 1 == 0) == (bar % 2 == 0)) by (bit_vector);
        if bar & 0b1 == 0 {
            BarType::Memory
        } else {
            BarType::IO
        }
    }
}

/// The configuration space address selecting the function `function` of
/// the device `device` on the bus `bus`
pub fn select_addr(bus: u32, device: u32, function: u32) -> (a: u32)
    requires
        bus < 256,
        device < 32,
        function < 8,
    ensures
        a == 0x8000_0000 + bus * 0x1_0000 + device * 0x800 + function * 0x100,
{
    // Compute the address for this Bus:Device.Function
    let pci_addr = (bus << 8) | (device << 3) | function;

    // Compute the PCI selection address for this BDF
    let a = (1u32 << 31) | (pci_addr << 8);
    assert(a == 0x8000_0000 + bus * 0x1_0000 + device * 0x800 + function * 0x100) by (bit_vector)
        requires
            pci_addr == (bus << 8) | (device << 3) | function,
            a == (1u32 << 31) | (pci_addr << 8),
            bus < 256,
            device < 32,
            function < 8,
    ;
    a
}

/// The configuration space address of the 32-bit register `idx` of the
/// function selected by `select`
pub fn register_addr(select: u32, idx: u32) -> (a: u32)
    requires
        idx < 64,
        select % 0x100 == 0,
    ensures
        a == select + idx * 4,
{
    let off = idx * 4;
    let a = select | off;
    assert(a == select + off) by (bit_vector)
        requires
            a == select | off,
            off < 256,
            idx < 64,
            select % 0x100 == 0,
    ;
    a
}

/// Whether a device answers at the selected function: an absent one reads
/// all ones
pub fn device_present(did_vid: u32) -> (r: bool)
    ensures
        r == (did_vid != u32::MAX),
{
    did_vid != u32::MAX
}

} // verus!
