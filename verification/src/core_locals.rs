//! Core-exclusive bookkeeping: the identity of the core, the nesting of the
//! requests to have interrupts disabled, the interrupt and exception depths,
//! and the choice of the free list that serves an allocation.

use vstd::prelude::*;
use vstd::arithmetic::power2::pow2;

verus! {

/// Number of free lists, one per power-of-two size from 8 bytes up to 2^63
pub const FREE_LIST_COUNT: usize = 61;

/// The marker type that locks use to ask the current core whether it is in
/// an interrupt or an exception and to disable interrupts while held
#[derive(Debug, Clone, Copy)]
pub struct InterruptLock;

/// Core local data
#[derive(Debug)]
pub struct CoreLocals {
    /// A unique identifier allocated for this core
    pub id: u32,
    /// Local APIC id, once known
    apic_id: Option<u32>,
    /// The number of requests to have interrupts disabled.
    ///
    /// While this value is non-zero, interrupts will be disabled.
    interrupt_disable_requests: usize,
    /// Current level of interrupt nesting.
    interrupt_depth: usize,
    /// Current level of exception nesting.
    exception_depth: usize,
}

impl CoreLocals {
    /// The identifier of the core
    pub closed spec fn spec_id(&self) -> u32 {
        self.id
    }

    /// The APIC ID of the core, if set
    pub closed spec fn spec_apic_id(&self) -> Option<u32> {
        self.apic_id
    }

    /// Outstanding requests to have interrupts disabled
    pub closed spec fn disable_requests(&self) -> nat {
        self.interrupt_disable_requests as nat
    }

    /// Current level of interrupt nesting
    pub closed spec fn interrupt_depth(&self) -> nat {
        self.interrupt_depth as nat
    }

    /// Current level of exception nesting
    pub closed spec fn exception_depth(&self) -> nat {
        self.exception_depth as nat
    }

    /// The locals of the core `id`, before its APIC is known, with
    /// interrupts neither disabled by request nor being handled
    pub fn new(id: u32) -> (c: CoreLocals)
        ensures
            c.spec_id() == id,
            c.spec_apic_id() is None,
            c.disable_requests() == 0,
            c.interrupt_depth() == 0,
            c.exception_depth() == 0,
    {
        CoreLocals {
            id,
            apic_id: None,
            interrupt_disable_requests: 0,
            interrupt_depth: 0,
            exception_depth: 0,
        }
    }

    /// Returns whether this core is the bootstrap processor
    pub fn is_bsp(&self) -> (r: bool)
        ensures
            r == (self.spec_id() == 0),
    {
        self.id == 0
    }

    /// Set the current core's APIC ID
    ///
    /// This function can be only called once
    pub fn set_apic_id(&mut self, apic_id: u32)
        requires
            old(self).spec_apic_id() is None,
        ensures
            final(self).spec_apic_id() == Some(apic_id),
            final(self).spec_id() == old(self).spec_id(),
            final(self).disable_requests() == old(self).disable_requests(),
            final(self).interrupt_depth() == old(self).interrupt_depth(),
            final(self).exception_depth() == old(self).exception_depth(),
    {
        self.apic_id = Some(apic_id);
    }

    /// Get the current core's APIC ID if initialized
    pub fn apic_id(&self) -> (r: Option<u32>)
        ensures
            r == self.spec_apic_id(),
    {
        self.apic_id
    }

    /// Set that we're currently in an interrupt
    pub fn enter_interrupt(&mut self)
        requires
            old(self).interrupt_depth() < usize::MAX,
        ensures
            final(self).interrupt_depth() == old(self).interrupt_depth() + 1,
            final(self).exception_depth() == old(self).exception_depth(),
            final(self).disable_requests() == old(self).disable_requests(),
            final(self).spec_id() == old(self).spec_id(),
            final(self).spec_apic_id() == old(self).spec_apic_id(),
    {
        self.interrupt_depth = self.interrupt_depth + 1;
    }

    /// Set that we're leaving an interrupt
    pub fn exit_interrupt(&mut self)
        requires
            old(self).interrupt_depth() > 0,
        ensures
            final(self).interrupt_depth() == old(self).interrupt_depth() - 1,
            final(self).exception_depth() == old(self).exception_depth(),
            final(self).disable_requests() == old(self).disable_requests(),
            final(self).spec_id() == old(self).spec_id(),
            final(self).spec_apic_id() == old(self).spec_apic_id(),
    {
        self.interrupt_depth = self.interrupt_depth - 1;
    }

    /// Get whether we're currently in an interrupt
    pub fn in_interrupt(&self) -> (r: bool)
        ensures
            r == (self.interrupt_depth() != 0),
    {
        self.interrupt_depth != 0
    }

    /// Set that we're currently in an exception
    pub fn enter_exception(&mut self)
        requires
            old(self).exception_depth() < usize::MAX,
        ensures
            final(self).exception_depth() == old(self).exception_depth() + 1,
            final(self).interrupt_depth() == old(self).interrupt_depth(),
            final(self).disable_requests() == old(self).disable_requests(),
            final(self).spec_id() == old(self).spec_id(),
            final(self).spec_apic_id() == old(self).spec_apic_id(),
    {
        self.exception_depth = self.exception_depth + 1;
    }

    /// Set that we're leaving an exception
    pub fn exit_exception(&mut self)
        requires
            old(self).exception_depth() > 0,
        ensures
            final(self).exception_depth() == old(self).exception_depth() - 1,
            final(self).interrupt_depth() == old(self).interrupt_depth(),
            final(self).disable_requests() == old(self).disable_requests(),
            final(self).spec_id() == old(self).spec_id(),
            final(self).spec_apic_id() == old(self).spec_apic_id(),
    {
        self.exception_depth = self.exception_depth - 1;
    }

    /// Get whether we're currently in an exception
    pub fn in_exception(&self) -> (r: bool)
        ensures
            r == (self.exception_depth() != 0),
    {
        self.exception_depth != 0
    }

    /// Record one more request to have interrupts disabled; the caller then
    /// disables them
    pub fn disable_interrupts(&mut self)
        requires
            old(self).disable_requests() < usize::MAX,
        ensures
            final(self).disable_requests() == old(self).disable_requests() + 1,
            final(self).interrupt_depth() == old(self).interrupt_depth(),
            final(self).exception_depth() == old(self).exception_depth(),
            final(self).spec_id() == old(self).spec_id(),
            final(self).spec_apic_id() == old(self).spec_apic_id(),
    {
        self.interrupt_disable_requests = self.interrupt_disable_requests + 1;
    }

    /// Withdraw one request to have interrupts disabled.
    ///
    /// Returns whether interrupts are to be enabled again: when the last
    /// request is withdrawn outside of an interrupt handler (an IRET restores
    /// the interrupt flag of the interrupted code)
    pub fn enable_interrupts(&mut self) -> (enable: bool)
        requires
            old(self).disable_requests() > 0,
        ensures
            final(self).disable_requests() == old(self).disable_requests() - 1,
            enable == (old(self).interrupt_depth() == 0 && old(self).disable_requests() == 1),
            final(self).interrupt_depth() == old(self).interrupt_depth(),
            final(self).exception_depth() == old(self).exception_depth(),
            final(self).spec_id() == old(self).spec_id(),
            final(self).spec_apic_id() == old(self).spec_apic_id(),
    {
        let x = self.interrupt_disable_requests;
        self.interrupt_disable_requests = x - 1;
        self.interrupt_depth == 0 && x == 1
    }
}

/// Number of significant bits of `n`
pub open spec fn bit_len(n: nat) -> nat
    decreases n,
{
    if n == 0 {
        0
    } else {
        1 + bit_len(n / 2)
    }
}

/// `n` needs `bit_len(n)` bits: it is below 2^bit_len(n) and, when not zero,
/// at least 2^(bit_len(n) - 1)
pub proof fn lemma_bit_len(n: nat)
    ensures
        n < pow2(bit_len(n)),
        n > 0 ==> pow2((bit_len(n) - 1) as nat) <= n,
    decreases n,
{
    vstd::arithmetic::power2::lemma2_to64();
    if n > 0 {
        lemma_bit_len(n / 2);
        vstd::arithmetic::power2::lemma_pow2_unfold(bit_len(n));
        if n / 2 > 0 {
            vstd::arithmetic::power2::lemma_pow2_unfold((bit_len(n) - 1) as nat);
        }
    }
}

/// The leading zeros of a `u64` are the bits it does not need
pub proof fn lemma_leading_zeros(i: u64)
    ensures
        vstd::std_specs::bits::u64_leading_zeros(i) == 64 - bit_len(i as nat),
        bit_len(i as nat) <= 64,
    decreases i,
{
    reveal(vstd::std_specs::bits::u64_leading_zeros);
    if i != 0 {
        lemma_leading_zeros(i / 2);
    }
}

/// The log2 of the size of the free list that serves allocations of `size`
/// bytes: that of the smallest power of two of at least 8 bytes holding it
pub open spec fn size_class(size: nat) -> nat {
    bit_len(((if size > 8 { size } else { 8 }) - 1) as nat)
}

/// The alignment of the blocks of the free list of log2 size `class`: free
/// lists are naturally aligned until 4096 byte sizes, at which point they
/// remain only 4096 byte aligned
pub open spec fn class_align(class: nat) -> nat {
    pow2(if class < 12 { class } else { 12 })
}

/// Get the index of the free list which can satisfy an allocation of `size`
/// bytes aligned to `align`; the free list at index `i` holds blocks of
/// `1 << (i + 3)` bytes
pub fn free_list_index(size: usize, align: usize) -> (idx: usize)
    requires
        size <= 0x8000_0000_0000_0000u64,
        align <= class_align(size_class(size as nat)),
    ensures
        idx == size_class(size as nat) - 3,
        idx < FREE_LIST_COUNT,
        size <= pow2(idx as nat + 3),
        idx == 0 || pow2(idx as nat + 2) < size,
{
    // The minimum freelist allocation is 8 bytes. Round up if needed
    let size = if size > 8 {
        size
    } else {
        8
    };
    let n = (size - 1) as u64;

    // Round up size to the nearest power of two and get the log2 of it
    // to determine the index into the free lists
    let lz = n.leading_zeros();
    proof {
        lemma_leading_zeros(n);
        lemma_bit_len(n as nat);
        vstd::arithmetic::power2::lemma2_to64();
        vstd::arithmetic::power2::lemma2_to64_rest();
        if bit_len(n as nat) < 3 {
            vstd::arithmetic::power2::lemma_pow2_strictly_increases(bit_len(n as nat), 3);
        }
        if bit_len(n as nat) > 63 {
            vstd::arithmetic::power2::lemma_pow2_strictly_increases(63, (bit_len(n as nat) - 1) as nat);
        }
    }
    let class = 64 - lz;
    (class - 3) as usize
}

} // verus!
