//! Routines and structures for manipulating x86 interrupts
//!
//! The interrupt descriptor table, the dispatch table of the kernel's
//! handlers with the per-vector EOI and drain-precedence flags, and the
//! decisions the common interrupt entry takes for every vector.

pub mod gdt;

pub use gdt::{Gdt, Tss, get_selector_indices};

use vstd::prelude::*;

verus! {

/// Number of interrupt vectors on x86
pub const NUM_VECTORS: usize = 256;

/// Legacy ISA interrupt identifiers
#[derive(Debug, Clone, Copy, PartialEq, Eq, Structural)]
pub enum InterruptId {
    DivideBy0,
    NonMaskableInterrupt,
    Breakpoint,
    Overflow,
    BoundsRangeExceeded,
    InvalidOpcode,
    DeviceNotAvailable,
    DoubleFault,
    CoprocessorSegmentOverrun,
    InvalidTSS,
    SegmentNotPresent,
    StackSegmentFault,
    GeneralProtectionFault,
    PageFault,
    X87FPUError,
    AlignmentCheck,
    MachineCheck,
    SIMDFloatingPointException,
    /// First vector of the reserved hole
    Reserved,
    /// Last vector of the reserved hole
    LastReserved,
    /// Kernel definable interrupts start here
    SoftRebootTimer,
}

impl InterruptId {
    /// The vector number of this interrupt
    pub open spec fn value(self) -> u8 {
        match self {
            InterruptId::DivideBy0 => 0x00,
            InterruptId::NonMaskableInterrupt => 0x02,
            InterruptId::Breakpoint => 0x03,
            InterruptId::Overflow => 0x04,
            InterruptId::BoundsRangeExceeded => 0x05,
            InterruptId::InvalidOpcode => 0x06,
            InterruptId::DeviceNotAvailable => 0x07,
            InterruptId::DoubleFault => 0x08,
            InterruptId::CoprocessorSegmentOverrun => 0x09,
            InterruptId::InvalidTSS => 0x0A,
            InterruptId::SegmentNotPresent => 0x0B,
            InterruptId::StackSegmentFault => 0x0C,
            InterruptId::GeneralProtectionFault => 0x0D,
            InterruptId::PageFault => 0x0E,
            InterruptId::X87FPUError => 0x10,
            InterruptId::AlignmentCheck => 0x11,
            InterruptId::MachineCheck => 0x12,
            InterruptId::SIMDFloatingPointException => 0x13,
            InterruptId::Reserved => 0x14,
            InterruptId::LastReserved => 0x1F,
            InterruptId::SoftRebootTimer => 0x20,
        }
    }

    /// The vector number of this interrupt
    pub fn to_u8(&self) -> (v: u8)
        ensures
            v == self.value(),
    {
        match self {
            InterruptId::DivideBy0 => 0x00,
            InterruptId::NonMaskableInterrupt => 0x02,
            InterruptId::Breakpoint => 0x03,
            InterruptId::Overflow => 0x04,
            InterruptId::BoundsRangeExceeded => 0x05,
            InterruptId::InvalidOpcode => 0x06,
            InterruptId::DeviceNotAvailable => 0x07,
            InterruptId::DoubleFault => 0x08,
            InterruptId::CoprocessorSegmentOverrun => 0x09,
            InterruptId::InvalidTSS => 0x0A,
            InterruptId::SegmentNotPresent => 0x0B,
            InterruptId::StackSegmentFault => 0x0C,
            InterruptId::GeneralProtectionFault => 0x0D,
            InterruptId::PageFault => 0x0E,
            InterruptId::X87FPUError => 0x10,
            InterruptId::AlignmentCheck => 0x11,
            InterruptId::MachineCheck => 0x12,
            InterruptId::SIMDFloatingPointException => 0x13,
            InterruptId::Reserved => 0x14,
            InterruptId::LastReserved => 0x1F,
            InterruptId::SoftRebootTimer => 0x20,
        }
    }

    /// Whether this identifier stands in the reserved hole, for which no
    /// handler can be registered
    pub open spec fn is_reserved(self) -> bool {
        0x14 <= self.value() <= 0x1F
    }

    /// The identifier of the vector `val`: every vector that is neither a
    /// defined exception nor a kernel interrupt is reserved
    pub open spec fn spec_from(val: u8) -> InterruptId {
        if val == 0x00 {
            InterruptId::DivideBy0
        } else if val == 0x02 {
            InterruptId::NonMaskableInterrupt
        } else if val == 0x03 {
            InterruptId::Breakpoint
        } else if val == 0x04 {
            InterruptId::Overflow
        } else if val == 0x05 {
            InterruptId::BoundsRangeExceeded
        } else if val == 0x06 {
            InterruptId::InvalidOpcode
        } else if val == 0x07 {
            InterruptId::DeviceNotAvailable
        } else if val == 0x08 {
            InterruptId::DoubleFault
        } else if val == 0x09 {
            InterruptId::CoprocessorSegmentOverrun
        } else if val == 0x0A {
            InterruptId::InvalidTSS
        } else if val == 0x0B {
            InterruptId::SegmentNotPresent
        } else if val == 0x0C {
            InterruptId::StackSegmentFault
        } else if val == 0x0D {
            InterruptId::GeneralProtectionFault
        } else if val == 0x0E {
            InterruptId::PageFault
        } else if val == 0x10 {
            InterruptId::X87FPUError
        } else if val == 0x11 {
            InterruptId::AlignmentCheck
        } else if val == 0x12 {
            InterruptId::MachineCheck
        } else if val == 0x13 {
            InterruptId::SIMDFloatingPointException
        } else if val == 0x20 {
            InterruptId::SoftRebootTimer
        } else {
            InterruptId::Reserved
        }
    }

    /// Convert a raw vector number into an interrupt identifier
    pub fn from(val: u8) -> (id: InterruptId)
        ensures
            id == InterruptId::spec_from(val),
    {
        match val {
            0x00 => InterruptId::DivideBy0,
            0x02 => InterruptId::NonMaskableInterrupt,
            0x03 => InterruptId::Breakpoint,
            0x04 => InterruptId::Overflow,
            0x05 => InterruptId::BoundsRangeExceeded,
            0x06 => InterruptId::InvalidOpcode,
            0x07 => InterruptId::DeviceNotAvailable,
            0x08 => InterruptId::DoubleFault,
            0x09 => InterruptId::CoprocessorSegmentOverrun,
            0x0A => InterruptId::InvalidTSS,
            0x0B => InterruptId::SegmentNotPresent,
            0x0C => InterruptId::StackSegmentFault,
            0x0D => InterruptId::GeneralProtectionFault,
            0x0E => InterruptId::PageFault,
            0x10 => InterruptId::X87FPUError,
            0x11 => InterruptId::AlignmentCheck,
            0x12 => InterruptId::MachineCheck,
            0x13 => InterruptId::SIMDFloatingPointException,
            0x20 => InterruptId::SoftRebootTimer,
            _ => InterruptId::Reserved,
        }
    }
}

/// Converting a defined identifier to its vector and back gives it back
pub proof fn lemma_id_roundtrip(id: InterruptId)
    requires
        id != InterruptId::LastReserved,
    ensures
        InterruptId::spec_from(id.value()) == id,
{
}

/// Shape of a raw 64-bit interrupt frame
#[derive(Debug, Clone, Copy)]
pub struct InterruptFrame {
    pub rip: u64,
    pub cs: u64,
    pub rflags: u64,
    pub rsp: u64,
    pub ss: u64,
}

/// Structure containing all registers at the state of the interrupt
#[derive(Debug, Clone, Copy)]
pub struct AllRegs {
    pub xmm15: u128,
    pub xmm14: u128,
    pub xmm13: u128,
    pub xmm12: u128,
    pub xmm11: u128,
    pub xmm10: u128,
    pub xmm9: u128,
    pub xmm8: u128,
    pub xmm7: u128,
    pub xmm6: u128,
    pub xmm5: u128,
    pub xmm4: u128,
    pub xmm3: u128,
    pub xmm2: u128,
    pub xmm1: u128,
    pub xmm0: u128,
    pub r15: u64,
    pub r14: u64,
    pub r13: u64,
    pub r12: u64,
    pub r11: u64,
    pub r10: u64,
    pub r9: u64,
    pub r8: u64,
    pub rbp: u64,
    pub rdi: u64,
    pub rsi: u64,
    pub rdx: u64,
    pub rcx: u64,
    pub rbx: u64,
    pub rax: u64,
}

/// The interrupt information passed to all interrupt handlers
#[derive(Debug, Clone, Copy)]
pub struct InterruptArgs<'a> {
    /// The interrupt vector identifier
    pub id: InterruptId,
    /// The interrupt frame passed by the CPU to the handler
    pub frame: &'a InterruptFrame,
    /// The error number if the interrupt is an exception
    pub error: u64,
    /// The register snapshot at the point of the interrupt
    pub regs: &'a AllRegs,
}

impl<'a> InterruptArgs<'a> {
    /// Wrap the interrupt information into this struct
    pub fn new(id: InterruptId, frame: &'a InterruptFrame, error: u64, regs: &'a AllRegs) -> (a:
        InterruptArgs<'a>)
        ensures
            a.id == id,
            *a.frame == *frame,
            a.error == error,
            *a.regs == *regs,
    {
        InterruptArgs { id, frame, error, regs }
    }

    /// Returns whether this interrupt is an exception
    pub fn is_exception(&self) -> (r: bool)
        ensures
            r == (self.id.value() < 32),
    {
        self.id.to_u8() < 32
    }
}

/// A raw IDT entry, which is valid when placed in an IDT in this
/// representation
#[derive(Debug, Clone, Copy, PartialEq, Eq, Structural)]
pub struct IdtEntry {
    pub offset_low: u16,
    pub selector: u16,
    pub ist: u8,
    pub type_attr: u8,
    pub offset_mid: u16,
    pub offset_high: u32,
    pub zero: u32,
}

/// The IDT entry for the handler at `cs:offset`, using the interrupt stack
/// table index `ist`, with gate type `typ` and privilege level `dpl`: the
/// offset is split in three parts and the type byte has its valid bit set
pub open spec fn spec_idt_entry(cs: u16, offset: u64, ist: u32, typ: u32, dpl: u8) -> IdtEntry {
    IdtEntry {
        offset_low: (offset % 0x1_0000) as u16,
        selector: cs,
        ist: ist as u8,
        type_attr: (dpl * 32 + 0x80 + typ) as u8,
        offset_mid: ((offset / 0x1_0000) % 0x1_0000) as u16,
        offset_high: (offset / 0x1_0000_0000) as u32,
        zero: 0,
    }
}

impl IdtEntry {
    /// Construct a new in-memory representation of an IDT entry. This will
    /// take the `cs:offset` to the handler address, the `ist` for the
    /// interrupt stack table index, the `typ` of the IDT gate entry and the
    /// `dpl` of the IDT entry.
    pub fn new(cs: u16, offset: u64, ist: u32, typ: u32, dpl: u8) -> (e: IdtEntry)
        requires
            ist < 8,
            typ < 32,
            dpl < 4,
        ensures
            e == spec_idt_entry(cs, offset, ist, typ, dpl),
    {
        let low = (offset & 0xFFFF) as u16;
        let mid = ((offset >> 16) & 0xFFFF) as u16;
        let high = ((offset >> 32) & 0xFFFF_FFFF) as u32;
        let attr = (dpl << 5) | (1 << 7) | (typ as u8);
        assert(low == (offset % 0x1_0000) as u16) by (bit_vector)
            requires
                low == (offset & 0xFFFF) as u16,
        ;
        assert(mid == ((offset / 0x1_0000) % 0x1_0000) as u16) by (bit_vector)
            requires
                mid == ((offset >> 16) & 0xFFFF) as u16,
        ;
        assert(high == (offset / 0x1_0000_0000) as u32) by (bit_vector)
            requires
                high == ((offset >> 32) & 0xFFFF_FFFF) as u32,
        ;
        assert(attr == (dpl * 32 + 0x80 + typ) as u8) by (bit_vector)
            requires
                attr == (dpl << 5) | (1u8 << 7) | (typ as u8),
                dpl < 4,
                typ < 32,
        ;
        IdtEntry {
            offset_low: low,
            selector: cs,
            ist: ist as u8,
            type_attr: attr,
            offset_mid: mid,
            offset_high: high,
            zero: 0,
        }
    }
}

/// Descriptor pointer used to load with `lidt` and `lgdt`
#[derive(Debug, Clone, Copy, PartialEq, Eq, Structural)]
pub struct TablePtr {
    pub limit: u16,
    pub base: u64,
}

impl TablePtr {
    /// A pointer to the table at `base` whose last byte is at `base + limit`
    pub fn new(limit: u16, base: u64) -> (p: TablePtr)
        ensures
            p.limit == limit,
            p.base == base,
    {
        TablePtr { limit, base }
    }
}

/// Interrupt gate type for 64-bit mode
pub const X64_INTERRUPT_GATE: u32 = 0xE;

/// The interrupt stack table index that the vector `id` runs on: NMI, #DF
/// and #MC use the critical stack, the rest uses the existing stack
pub open spec fn spec_ist(id: int) -> u32 {
    if id == 2 || id == 8 || id == 18 {
        1
    } else {
        0
    }
}

/// Build the IDT: one interrupt gate per vector in the kernel code segment
/// `cs`, pointing to the entry stub at `handlers[id]`
pub fn build_idt(cs: u16, handlers: &[u64]) -> (idt: Vec<IdtEntry>)
    requires
        handlers@.len() == NUM_VECTORS,
    ensures
        idt@.len() == NUM_VECTORS,
        forall|id: int|
            0 <= id < NUM_VECTORS ==> #[trigger] idt@[id] == spec_idt_entry(
                cs,
                handlers@[id],
                spec_ist(id),
                X64_INTERRUPT_GATE,
                0,
            ),
{
    let mut idt: Vec<IdtEntry> = Vec::new();
    let mut id: usize = 0;
    while id < NUM_VECTORS
        invariant
            id <= NUM_VECTORS,
            handlers@.len() == NUM_VECTORS,
            idt@.len() == id,
            forall|j: int|
                0 <= j < id ==> #[trigger] idt@[j] == spec_idt_entry(
                    cs,
                    handlers@[j],
                    spec_ist(j),
                    X64_INTERRUPT_GATE,
                    0,
                ),
        decreases NUM_VECTORS - id,
    {
        let ist: u32 = if id == 2 || id == 8 || id == 18 {
            1
        } else {
            0
        };
        idt.push(IdtEntry::new(cs, handlers[id], ist, X64_INTERRUPT_GATE, 0));
        id = id + 1;
    }
    idt
}

/// Structure to hold the dispatch routines of the interrupts, with for each
/// vector whether it requires an EOI and whether it gets handled even when
/// EOIs are being drained
pub struct Interrupts<H> {
    pub dispatch: Vec<Option<H>>,
    pub eoi_required: Vec<bool>,
    pub drain_precedence: Vec<bool>,
    pub tss: Tss,
    pub idt: Vec<IdtEntry>,
    pub gdt: Gdt,
}

impl<H: Copy> Interrupts<H> {
    /// The handler registered for each vector
    pub open spec fn handlers(&self) -> Seq<Option<H>> {
        self.dispatch@
    }

    /// Whether each vector requires an EOI when handled
    pub open spec fn eoi(&self) -> Seq<bool> {
        self.eoi_required@
    }

    /// Whether each vector gets handled even when EOIs are being drained
    pub open spec fn precedence(&self) -> Seq<bool> {
        self.drain_precedence@
    }

    /// Every per-vector table covers all vectors
    pub open spec fn wf(&self) -> bool {
        &&& self.handlers().len() == NUM_VECTORS
        &&& self.eoi().len() == NUM_VECTORS
        &&& self.precedence().len() == NUM_VECTORS
    }

    /// An interrupt table with no handler registered and no vector
    /// requiring an EOI or taking precedence while draining
    pub fn new(tss: Tss, idt: Vec<IdtEntry>, gdt: Gdt) -> (ints: Interrupts<H>)
        ensures
            ints.wf(),
            forall|i: int| 0 <= i < NUM_VECTORS ==> #[trigger] ints.handlers()[i] is None,
            forall|i: int| 0 <= i < NUM_VECTORS ==> !#[trigger] ints.eoi()[i],
            forall|i: int| 0 <= i < NUM_VECTORS ==> !#[trigger] ints.precedence()[i],
            ints.tss == tss,
            ints.idt == idt,
            ints.gdt == gdt,
    {
        let mut dispatch: Vec<Option<H>> = Vec::new();
        let mut eoi_required: Vec<bool> = Vec::new();
        let mut drain_precedence: Vec<bool> = Vec::new();
        let mut i: usize = 0;
        while i < NUM_VECTORS
            invariant
                i <= NUM_VECTORS,
                dispatch@.len() == i,
                eoi_required@.len() == i,
                drain_precedence@.len() == i,
                forall|j: int| 0 <= j < i ==> #[trigger] dispatch@[j] is None,
                forall|j: int| 0 <= j < i ==> !#[trigger] eoi_required@[j],
                forall|j: int| 0 <= j < i ==> !#[trigger] drain_precedence@[j],
            decreases NUM_VECTORS - i,
        {
            dispatch.push(None);
            eoi_required.push(false);
            drain_precedence.push(false);
            i = i + 1;
        }
        Interrupts { dispatch, eoi_required, drain_precedence, tss, idt, gdt }
    }

    /// The interrupt table of the kernel: the NMI and page fault handlers are
    /// registered, both handled even while EOIs are drained and neither
    /// requiring an EOI
    pub fn with_kernel_handlers(tss: Tss, idt: Vec<IdtEntry>, gdt: Gdt, nmi: H, page_fault: H) -> (ints:
        Interrupts<H>)
        ensures
            ints.wf(),
            ints.handlers() == Seq::new(
                NUM_VECTORS as nat,
                |i: int|
                    if i == 2 {
                        Some(nmi)
                    } else if i == 14 {
                        Some(page_fault)
                    } else {
                        None
                    },
            ),
            forall|i: int| 0 <= i < NUM_VECTORS ==> !#[trigger] ints.eoi()[i],
            ints.precedence() == Seq::new(NUM_VECTORS as nat, |i: int| i == 2 || i == 14),
            ints.tss == tss,
            ints.idt == idt,
            ints.gdt == gdt,
    {
        let mut ints = Interrupts::new(tss, idt, gdt);
        ints.register_precedent(InterruptId::NonMaskableInterrupt, nmi, false);
        ints.register_precedent(InterruptId::PageFault, page_fault, false);
        assert(ints.handlers() =~= Seq::new(
            NUM_VECTORS as nat,
            |i: int|
                if i == 2 {
                    Some(nmi)
                } else if i == 14 {
                    Some(page_fault)
                } else {
                    None
                },
        ));
        assert(ints.precedence() =~= Seq::new(NUM_VECTORS as nat, |i: int| i == 2 || i == 14));
        ints
    }

    /// Register an interrupt handler
    pub fn register(&mut self, id: InterruptId, handler: H, eoi: bool)
        requires
            old(self).wf(),
            !id.is_reserved(),
            old(self).handlers()[id.value() as int] is None,
        ensures
            final(self).wf(),
            final(self).handlers() == old(self).handlers().update(id.value() as int, Some(handler)),
            final(self).eoi() == old(self).eoi().update(id.value() as int, eoi),
            final(self).precedence() == old(self).precedence(),
            final(self).tss == old(self).tss,
            final(self).idt == old(self).idt,
            final(self).gdt == old(self).gdt,
    {
        let idx = id.to_u8() as usize;
        self.dispatch.set(idx, Some(handler));
        self.eoi_required.set(idx, eoi);
    }

    /// Register an interrupt handler that gets handled even when EOIs are
    /// being drained
    pub fn register_precedent(&mut self, id: InterruptId, handler: H, eoi: bool)
        requires
            old(self).wf(),
            !id.is_reserved(),
            old(self).handlers()[id.value() as int] is None,
        ensures
            final(self).wf(),
            final(self).handlers() == old(self).handlers().update(id.value() as int, Some(handler)),
            final(self).eoi() == old(self).eoi().update(id.value() as int, eoi),
            final(self).precedence() == old(self).precedence().update(id.value() as int, true),
            final(self).tss == old(self).tss,
            final(self).idt == old(self).idt,
            final(self).gdt == old(self).gdt,
    {
        self.register(id, handler, eoi);
        let idx = id.to_u8() as usize;
        self.drain_precedence.set(idx, true);
    }

    /// Unregister an interrupt handler
    pub fn unregister(&mut self, id: InterruptId)
        requires
            old(self).wf(),
        ensures
            final(self).wf(),
            final(self).handlers() == old(self).handlers().update(id.value() as int, None),
            final(self).eoi() == old(self).eoi().update(id.value() as int, false),
            final(self).precedence() == old(self).precedence(),
            final(self).tss == old(self).tss,
            final(self).idt == old(self).idt,
            final(self).gdt == old(self).gdt,
    {
        let idx = id.to_u8() as usize;
        self.dispatch.set(idx, None);
        self.eoi_required.set(idx, false);
    }

    /// The handler to call for the vector `id`: none when EOIs are being
    /// drained and the vector does not take precedence, else the registered
    /// one, if any
    pub fn handler_to_call(&self, id: u8, draining_eois: bool) -> (h: Option<H>)
        requires
            self.wf(),
        ensures
            h == (if !draining_eois || self.precedence()[id as int] {
                self.handlers()[id as int]
            } else {
                None
            }),
    {
        if !draining_eois || self.drain_precedence[id as usize] {
            self.dispatch[id as usize]
        } else {
            None
        }
    }

    /// What the interrupt entry does after the handler step for the vector
    /// `id`, given whether EOIs are being drained and whether the interrupt
    /// was handled
    pub fn entry_outcome(&self, id: u8, draining_eois: bool, handled: bool) -> (o: EntryOutcome)
        requires
            self.wf(),
        ensures
            o.send_eoi == self.eoi()[id as int],
            o.unhandled == (!handled && !(self.eoi()[id as int] && draining_eois)),
    {
        let send_eoi = self.eoi_required[id as usize];
        EntryOutcome { send_eoi, unhandled: !handled && !(send_eoi && draining_eois) }
    }

    /// Returns the bitmask of the vectors that require an EOI: bit `i % 128`
    /// of word `i / 128` is set when vector `i` does
    pub fn eoi_bitmask(&self) -> (bm: [u128; 2])
        requires
            self.wf(),
        ensures
            forall|i: int|
                0 <= i < NUM_VECTORS ==> #[trigger] bit_set(bm@[i / 128], (i % 128) as u128)
                    == self.eoi()[i],
    {
        let mut words: [u128; 2] = [0, 0];
        proof {
            assert forall|k: u128| !#[trigger] bit_set(0u128, k) by {
                assert((0u128 >> k) & 1 == 0) by (bit_vector);
            }
            assert(words@ =~= seq![0u128, 0u128]);
        }
        let mut i: usize = 0;
        while i < NUM_VECTORS
            invariant
                i <= NUM_VECTORS,
                self.wf(),
                forall|j: int|
                    0 <= j < i ==> #[trigger] bit_set(words@[j / 128], (j % 128) as u128)
                        == self.eoi()[j],
                forall|j: int|
                    i <= j < NUM_VECTORS ==> !#[trigger] bit_set(words@[j / 128], (j % 128) as u128),
            decreases NUM_VECTORS - i,
        {
            let idx = i / 128;
            let bit = (i % 128) as u128;
            let b = if self.eoi_required[i] {
                1u128
            } else {
                0u128
            };
            let old_words = words;
            let w = words[idx] | (b << bit);
            proof {
                lemma_set_bit(old_words[idx as int], bit, b);
            }
            words[idx] = w;
            assert forall|j: int| 0 <= j < i + 1 implies #[trigger] bit_set(
                words@[j / 128],
                (j % 128) as u128,
            ) == self.eoi()[j] by {
                if j / 128 == idx as int && j != i {
                    assert((j % 128) as u128 != bit);
                }
            }
            assert forall|j: int| i + 1 <= j < NUM_VECTORS implies !#[trigger] bit_set(
                words@[j / 128],
                (j % 128) as u128,
            ) by {
                if j / 128 == idx as int {
                    assert((j % 128) as u128 != bit);
                    assert(!bit_set(old_words@[j / 128], (j % 128) as u128));
                }
            }
            i = i + 1;
        }
        words
    }
}

/// What the common interrupt entry does once the handler step is done
#[derive(Debug, Clone, Copy, PartialEq, Eq, Structural)]
pub struct EntryOutcome {
    /// The local APIC gets an end-of-interrupt
    pub send_eoi: bool,
    /// The interrupt went unhandled, which is fatal
    pub unhandled: bool,
}

/// Whether bit `bit` of `w` is set
pub open spec fn bit_set(w: u128, bit: u128) -> bool {
    (w >> bit) & 1 == 1
}

/// Or-ing in `b` at bit `bit` sets that bit exactly when `b` is one and
/// leaves the other bits as they were
pub proof fn lemma_set_bit(w: u128, bit: u128, b: u128)
    requires
        bit < 128,
        b <= 1,
    ensures
        bit_set(w | (b << bit), bit) == (bit_set(w, bit) || b == 1),
        forall|k: u128| k < 128 && k != bit ==> #[trigger] bit_set(w | (b << bit), k) == bit_set(w, k),
{
    assert(((w | (b << bit)) >> bit) & 1 == 1 <==> ((w >> bit) & 1 == 1 || b == 1)) by (bit_vector)
        requires
            bit < 128,
            b <= 1,
    ;
    assert forall|k: u128| k < 128 && k != bit implies #[trigger] bit_set(w | (b << bit), k)
        == bit_set(w, k) by {
        assert(((w | (b << bit)) >> k) & 1 == (w >> k) & 1) by (bit_vector)
            requires
                bit < 128,
                b <= 1,
                k < 128,
                k != bit,
        ;
    }
}

/// Unregistering a handler right after registering it for a vector that had
/// none restores the dispatch table, and leaves the vector needing no EOI
pub proof fn lemma_unregister_undoes_register<H>(
    handlers: Seq<Option<H>>,
    eoi: Seq<bool>,
    id: InterruptId,
    handler: H,
    needs_eoi: bool,
)
    requires
        handlers.len() == NUM_VECTORS,
        eoi.len() == NUM_VECTORS,
        handlers[id.value() as int] is None,
    ensures
        handlers.update(id.value() as int, Some(handler)).update(id.value() as int, None)
            == handlers,
        eoi.update(id.value() as int, needs_eoi).update(id.value() as int, false)[id.value() as int]
            == false,
        forall|i: int|
            0 <= i < NUM_VECTORS && i != id.value() ==> #[trigger] eoi.update(
                id.value() as int,
                needs_eoi,
            ).update(id.value() as int, false)[i] == eoi[i],
{
    assert(handlers.update(id.value() as int, Some(handler)).update(id.value() as int, None)
        =~= handlers);
}

} // verus!
