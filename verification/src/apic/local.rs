//! Local APIC implementation with support for xAPIC and x2APIC
//!
//! The register accesses themselves are volatile MMIO or MSR operations done
//! by the caller; this module decides where each access goes and what is
//! written.

use vstd::prelude::*;

verus! {

/// The x2APIC enable bit in the `IA32_APIC_BASE` MSR
pub const IA32_APIC_BASE_EXTD: u64 = 0x400;

/// The global enable bit in the `IA32_APIC_BASE` MSR
pub const IA32_APIC_BASE_EN: u64 = 0x800;

/// The intel specified APIC MSR
pub const IA32_APIC_BASE: u32 = 0x1B;

/// The physical address we want the local APIC to be mapped at
pub const APIC_BASE: u64 = 0xFEE0_0000;

/// The bits of `IA32_APIC_BASE` that hold the base address
pub const APIC_BASE_MASK: u64 = 0x0000_000F_FFFF_F000;

/// The first MSR of the x2APIC register space
pub const X2APIC_MSR_BASE: u32 = 0x800;

/// The x2APIC interrupt command register MSR
pub const X2APIC_ICR_MSR: u32 = 0x830;

/// Spurious interrupt vector register value enabling the APIC with the
/// spurious vector 0xFF
pub const SVR_ENABLE: u32 = 0x1FF;

/// Timer LVT mask bit
pub const LVT_MASK: u32 = 0x1_0000;

/// Timer LVT periodic mode bit
pub const PERIODIC_MODE: u32 = 0x2_0000;

/// Initial count of the soft reboot timer
pub const REBOOT_TIMER_COUNT: u32 = 100_000;

/// APIC modes
#[derive(Debug, Clone, Copy, PartialEq, Eq, Structural)]
pub enum ApicMode {
    /// Normal APIC mode, through the MMIO page
    Apic,
    /// APIC programmed to use x2apic mode, through MSRs
    X2Apic,
}

/// All of the stateful fields of the APIC timer
#[derive(Debug, Clone, Copy, PartialEq, Eq, Structural)]
pub struct TimerState {
    /// Divide configuration register
    pub dcr: u32,
    /// Initial count register
    pub icr: u32,
    /// Timer LVT entry
    pub lvt: u32,
}

/// The original state of the local APIC before initialization
///
/// This state is used during soft reboots to bring the system to a sane
/// default
#[derive(Debug, Clone, Copy, PartialEq, Eq, Structural)]
pub struct OrigState {
    /// State of the `IA32_APIC_BASE`
    pub ia32_apic_base: u64,
    /// state of the SVR register (offset 0xF0)
    pub svr: u32,
    /// I/O port 0xA1 contents (PIC interrupt masks)
    pub pic_a1: u8,
    /// I/O port 0x21 contents (PIC interrupt masks)
    pub pic_21: u8,
    /// APIC timer state
    pub timer: TimerState,
}

/// Local APIC
#[derive(Debug, Clone, Copy, PartialEq, Eq, Structural)]
pub struct LocalApic {
    /// The current operating mode of the APIC
    pub mode: ApicMode,
    /// The original state of the APIC pre-initialization
    pub orig: OrigState,
}

/// APIC registers (offsets into MMIO space)
#[derive(Debug, Clone, Copy, PartialEq, Eq, Structural)]
pub enum Register {
    Id,
    EndOfInterrupt,
    SpuriousInterruptVector,
    Isr0,
    Isr1,
    Isr2,
    Isr3,
    Isr4,
    Isr5,
    Isr6,
    Isr7,
    Irr0,
    Irr1,
    Irr2,
    Irr3,
    Irr4,
    Irr5,
    Irr6,
    Irr7,
    LvtTimer,
    InitialCount,
    DivideConfiguration,
}

impl Register {
    /// The offset of this register in the MMIO space
    pub open spec fn offset(self) -> u16 {
        match self {
            Register::Id => 0x20,
            Register::EndOfInterrupt => 0xb0,
            Register::SpuriousInterruptVector => 0xf0,
            Register::Isr0 => 0x100,
            Register::Isr1 => 0x110,
            Register::Isr2 => 0x120,
            Register::Isr3 => 0x130,
            Register::Isr4 => 0x140,
            Register::Isr5 => 0x150,
            Register::Isr6 => 0x160,
            Register::Isr7 => 0x170,
            Register::Irr0 => 0x200,
            Register::Irr1 => 0x210,
            Register::Irr2 => 0x220,
            Register::Irr3 => 0x230,
            Register::Irr4 => 0x240,
            Register::Irr5 => 0x250,
            Register::Irr6 => 0x260,
            Register::Irr7 => 0x270,
            Register::LvtTimer => 0x320,
            Register::InitialCount => 0x380,
            Register::DivideConfiguration => 0x3E0,
        }
    }

    /// The offset of this register in the MMIO space
    pub fn to_u16(&self) -> (v: u16)
        ensures
            v == self.offset(),
    {
        match self {
            Register::Id => 0x20,
            Register::EndOfInterrupt => 0xb0,
            Register::SpuriousInterruptVector => 0xf0,
            Register::Isr0 => 0x100,
            Register::Isr1 => 0x110,
            Register::Isr2 => 0x120,
            Register::Isr3 => 0x130,
            Register::Isr4 => 0x140,
            Register::Isr5 => 0x150,
            Register::Isr6 => 0x160,
            Register::Isr7 => 0x170,
            Register::Irr0 => 0x200,
            Register::Irr1 => 0x210,
            Register::Irr2 => 0x220,
            Register::Irr3 => 0x230,
            Register::Irr4 => 0x240,
            Register::Irr5 => 0x250,
            Register::Irr6 => 0x260,
            Register::Irr7 => 0x270,
            Register::LvtTimer => 0x320,
            Register::InitialCount => 0x380,
            Register::DivideConfiguration => 0x3E0,
        }
    }
}

/// Where an access to an APIC register goes
#[derive(Debug, Clone, Copy, PartialEq, Eq, Structural)]
pub enum RegisterAccess {
    /// The `u32` at this index of the MMIO page
    Mmio(usize),
    /// This MSR
    Msr(u32),
}

/// How an interrupt command is written
#[derive(Debug, Clone, Copy, PartialEq, Eq, Structural)]
pub enum IcrWrite {
    /// Write `high` at the MMIO index `high_index`, then `low` at
    /// `low_index`, which sends the interrupt
    Mmio { high_index: usize, high: u32, low_index: usize, low: u32 },
    /// Write the entire 64-bit value to the MSR in one shot
    Msr { msr: u32, value: u64 },
}

impl LocalApic {
    /// Where accesses to `register` go in the current mode
    pub fn access(&self, register: Register) -> (a: RegisterAccess)
        ensures
            self.mode == ApicMode::Apic ==> a == RegisterAccess::Mmio(
                (register.offset() / 4) as usize,
            ),
            self.mode == ApicMode::X2Apic ==> a == RegisterAccess::Msr(
                (X2APIC_MSR_BASE + register.offset() / 16) as u32,
            ),
    {
        let offset = register.to_u16();
        match self.mode {
            ApicMode::Apic => RegisterAccess::Mmio((offset / 4) as usize),
            ApicMode::X2Apic => RegisterAccess::Msr(X2APIC_MSR_BASE + (offset / 16) as u32),
        }
    }

    /// Get the APIC ID held by the raw value `id_register` of the ID register
    pub fn id(&self, id_register: u32) -> (id: u32)
        ensures
            self.mode == ApicMode::Apic ==> id == id_register / 0x100_0000,
            self.mode == ApicMode::X2Apic ==> id == id_register,
    {
        match self.mode {
            ApicMode::Apic => {
                assert(id_register >> 24 == id_register / 0x100_0000) by (bit_vector);
                id_register >> 24
            },
            ApicMode::X2Apic => id_register,
        }
    }

    /// The interrupt command sending the raw inter-processor interrupt `ipi`
    /// to the APIC ID `dest_id`: the destination in the high half, placed in
    /// its top byte in xAPIC mode
    pub fn ipi_command(&self, dest_id: u32, ipi: u32) -> (v: u64)
        ensures
            self.mode == ApicMode::Apic ==> v == ((dest_id % 0x100) * 0x100_0000) * 0x1_0000_0000
                + ipi,
            self.mode == ApicMode::X2Apic ==> v == dest_id * 0x1_0000_0000 + ipi,
    {
        // Convert the destination APIC ID into the correct location based on
        // the APIC mode
        let dest = match self.mode {
            ApicMode::Apic => {
                assert(dest_id << 24 == (dest_id % 0x100) * 0x100_0000) by (bit_vector);
                dest_id << 24
            },
            ApicMode::X2Apic => dest_id,
        };
        let v = ((dest as u64) << 32) | ipi as u64;
        assert(v == (dest as u64) * 0x1_0000_0000 + ipi as u64) by (bit_vector)
            requires
                v == ((dest as u64) << 32) | ipi as u64,
        ;
        v
    }

    /// How the interrupt command `val` is written to the ICR
    pub fn icr_write(&self, val: u64) -> (w: IcrWrite)
        ensures
            self.mode == ApicMode::Apic ==> w == (IcrWrite::Mmio {
                high_index: 0x310usize / 4,
                high: (val / 0x1_0000_0000) as u32,
                low_index: 0x300usize / 4,
                low: (val % 0x1_0000_0000) as u32,
            }),
            self.mode == ApicMode::X2Apic ==> w == (IcrWrite::Msr { msr: X2APIC_ICR_MSR, value: val }),
    {
        match self.mode {
            ApicMode::Apic => {
                let high = (val >> 32) as u32;
                let low = val as u32;
                assert(high == (val / 0x1_0000_0000) as u32) by (bit_vector)
                    requires
                        high == (val >> 32) as u32,
                ;
                assert(low == (val % 0x1_0000_0000) as u32) by (bit_vector)
                    requires
                        low == val as u32,
                ;
                IcrWrite::Mmio { high_index: 0x310usize / 4, high, low_index: 0x300usize / 4, low }
            },
            ApicMode::X2Apic => IcrWrite::Msr { msr: X2APIC_ICR_MSR, value: val },
        }
    }

    /// The `IA32_APIC_BASE` restored on reset: the original one, keeping
    /// x2APIC mode because downgrading it in software may not be supported
    pub fn restored_apic_base(&self) -> (v: u64)
        ensures
            self.mode == ApicMode::X2Apic ==> v == self.orig.ia32_apic_base | IA32_APIC_BASE_EXTD,
            self.mode == ApicMode::Apic ==> v == self.orig.ia32_apic_base,
    {
        let apic_mode = match self.mode {
            ApicMode::X2Apic => IA32_APIC_BASE_EXTD,
            ApicMode::Apic => 0,
        };
        assert(self.orig.ia32_apic_base | 0 == self.orig.ia32_apic_base) by (bit_vector);
        self.orig.ia32_apic_base | apic_mode
    }

    /// The timer LVT that masks off timer interrupts, given the current one
    pub fn masked_timer_lvt(lvt: u32) -> (v: u32)
        ensures
            v == lvt | LVT_MASK,
    {
        lvt | LVT_MASK
    }

    /// The timer LVT of the periodic soft reboot timer
    pub fn reboot_timer_lvt() -> (v: u32)
        ensures
            v == PERIODIC_MODE + 0x20,
    {
        let v = PERIODIC_MODE | 0x20u32;
        assert(PERIODIC_MODE | 0x20u32 == 0x2_0020u32) by (bit_vector);
        v
    }

    /// The in-service registers, lowest bits first
    pub fn isr_registers() -> (regs: [Register; 8])
        ensures
            regs@ == seq![
                Register::Isr0,
                Register::Isr1,
                Register::Isr2,
                Register::Isr3,
                Register::Isr4,
                Register::Isr5,
                Register::Isr6,
                Register::Isr7,
            ],
    {
        let r = [
            Register::Isr0,
            Register::Isr1,
            Register::Isr2,
            Register::Isr3,
            Register::Isr4,
            Register::Isr5,
            Register::Isr6,
            Register::Isr7,
        ];
        assert(r@ =~= seq![
            Register::Isr0,
            Register::Isr1,
            Register::Isr2,
            Register::Isr3,
            Register::Isr4,
            Register::Isr5,
            Register::Isr6,
            Register::Isr7,
        ]);
        r
    }

    /// The interrupt request registers, lowest bits first
    pub fn irr_registers() -> (regs: [Register; 8])
        ensures
            regs@ == seq![
                Register::Irr0,
                Register::Irr1,
                Register::Irr2,
                Register::Irr3,
                Register::Irr4,
                Register::Irr5,
                Register::Irr6,
                Register::Irr7,
            ],
    {
        let r = [
            Register::Irr0,
            Register::Irr1,
            Register::Irr2,
            Register::Irr3,
            Register::Irr4,
            Register::Irr5,
            Register::Irr6,
            Register::Irr7,
        ];
        assert(r@ =~= seq![
            Register::Irr0,
            Register::Irr1,
            Register::Irr2,
            Register::Irr3,
            Register::Irr4,
            Register::Irr5,
            Register::Irr6,
            Register::Irr7,
        ]);
        r
    }
}

/// The 128 bits that the four 32-bit registers `a`, `b`, `c`, `d` hold,
/// lowest first
pub open spec fn join4(a: u32, b: u32, c: u32, d: u32) -> int {
    a + b * 0x1_0000_0000 + c * 0x1_0000_0000_0000_0000 + d * 0x1_0000_0000_0000_0000_0000_0000
}

/// Join four 32-bit registers, lowest first, into 128 bits
pub fn join_u32s(a: u32, b: u32, c: u32, d: u32) -> (v: u128)
    ensures
        v == join4(a, b, c, d),
{
    let v = (a as u128) | ((b as u128) << 32) | ((c as u128) << 64) | ((d as u128) << 96);
    assert(v == (a as u128) + (b as u128) * 0x1_0000_0000 + (c as u128) * 0x1_0000_0000_0000_0000
        + (d as u128) * 0x1_0000_0000_0000_0000_0000_0000) by (bit_vector)
        requires
            v == (a as u128) | ((b as u128) << 32) | ((c as u128) << 64) | ((d as u128) << 96),
            a <= 0xFFFF_FFFF,
            b <= 0xFFFF_FFFF,
            c <= 0xFFFF_FFFF,
            d <= 0xFFFF_FFFF,
    ;
    v
}

/// Turn the values of the eight 32-bit registers of a 256-bit APIC bank
/// (ISR or IRR), lowest bits first, into `[low 128 bits, high 128 bits]`
pub fn bank_bits(regs: &[u32; 8]) -> (bits: [u128; 2])
    ensures
        bits@[0] == join4(regs@[0], regs@[1], regs@[2], regs@[3]),
        bits@[1] == join4(regs@[4], regs@[5], regs@[6], regs@[7]),
{
    [join_u32s(regs[0], regs[1], regs[2], regs[3]), join_u32s(regs[4], regs[5], regs[6], regs[7])]
}

/// Whether any interrupt is requested that requires an EOI, given the
/// pending bits `irr` and the bits of the vectors requiring an EOI `eoi`
pub fn eoi_pending(irr: &[u128; 2], eoi: &[u128; 2]) -> (r: bool)
    ensures
        r == ((irr@[0] & eoi@[0]) != 0 || (irr@[1] & eoi@[1]) != 0),
{
    (irr[0] & eoi[0]) != 0 || (irr[1] & eoi[1]) != 0
}

/// Whether no interrupt is in service, given the in-service bits `isr`
pub fn none_in_service(isr: &[u128; 2]) -> (r: bool)
    ensures
        r == (isr@[0] == 0 && isr@[1] == 0),
{
    isr[0] == 0 && isr[1] == 0
}

/// The `IA32_APIC_BASE` programmed at initialization from the original one:
/// the base address replaced by `APIC_BASE`, globally enabled, with x2APIC
/// enabled when supported
pub fn init_apic_base(orig: u64, x2apic: bool) -> (v: u64)
    requires
        orig & IA32_APIC_BASE_EN != 0,
    ensures
        v == ((orig & !APIC_BASE_MASK) | APIC_BASE | IA32_APIC_BASE_EN | (if x2apic {
            IA32_APIC_BASE_EXTD
        } else {
            0
        })),
{
    // Mask off the old base address
    let apic_base = orig & !APIC_BASE_MASK;

    // Put in the base we want to use and enable it
    let apic_base = apic_base | APIC_BASE | IA32_APIC_BASE_EN;

    // If supported, enable x2APIC
    apic_base | if x2apic {
        IA32_APIC_BASE_EXTD
    } else {
        0
    }
}

} // verus!
