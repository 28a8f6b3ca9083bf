//! UEFI memory map descriptors and the free memory they describe

use vstd::prelude::*;

verus! {

/// Errors returned by memory routines
#[derive(Debug, Clone, Copy, PartialEq, Eq, Structural)]
pub enum Error {
    /// Memory map expected a larger array
    WrongMemoryMapSize(usize),
    /// Couldn't exit the boot services
    ExitBootSvcFailed,
    /// Some calculation overflowed while creating the free memory map
    MemoryMapOverflow,
}

/// Type of memory region
#[derive(Debug, Copy, Clone, PartialEq, Eq, Structural)]
pub enum MemoryType {
    /// Not usable
    Reserved,
    /// Code portion of a loaded UEFI application
    LoaderCode,
    /// Data portion of a loaded UEFI application
    LoaderData,
    /// Code portion of a loaded boot service driver
    BootServicesCode,
    /// Data portion of a loaded boot service driver
    BootServicesData,
    /// Code portion of a loaded runtime driver
    RuntimeServicesCode,
    /// Data portion of a loaded runtime driver
    RuntimeServicesData,
    /// Free (unallocated) memory
    ConventionalMemory,
    /// Memory in which errors have been detected
    UnusableMemory,
    /// Memory holding ACPI tables
    ACPIReclaimMemory,
    /// Reserved for use by the firmware
    ACPIMemoryNVS,
    /// Memory-mapped IO region to be mapped by the OS for EFI runtime services
    MemoryMappedIO,
    /// System memory-mapped IO region that translates memory cycles to IO cycles
    MemoryMappedIOPortSpace,
    /// Address space reserved by the firmware for code that is part of the processor
    PalCode,
    /// Like `ConventionalMemory`, but also supports byte-addressable non-volatility
    PersistentMemory,
    /// Memory type not supported by our system whatsoever
    Unsupported,
}

/// The memory type that a raw type value stands for
pub open spec fn spec_memory_type(val: u32) -> MemoryType {
    if val == 0 { MemoryType::Reserved }
    else if val == 1 { MemoryType::LoaderCode }
    else if val == 2 { MemoryType::LoaderData }
    else if val == 3 { MemoryType::BootServicesCode }
    else if val == 4 { MemoryType::BootServicesData }
    else if val == 5 { MemoryType::RuntimeServicesCode }
    else if val == 6 { MemoryType::RuntimeServicesData }
    else if val == 7 { MemoryType::ConventionalMemory }
    else if val == 8 { MemoryType::UnusableMemory }
    else if val == 9 { MemoryType::ACPIReclaimMemory }
    else if val == 10 { MemoryType::ACPIMemoryNVS }
    else if val == 11 { MemoryType::MemoryMappedIO }
    else if val == 12 { MemoryType::MemoryMappedIOPortSpace }
    else if val == 13 { MemoryType::PalCode }
    else if val == 14 { MemoryType::PersistentMemory }
    else { MemoryType::Unsupported }
}

impl MemoryType {
    /// Whether this memory type is available for general use after
    /// `exit_boot_services()` has been called
    pub open spec fn spec_available(self) -> bool {
        match self {
            MemoryType::BootServicesCode | MemoryType::BootServicesData
            | MemoryType::PersistentMemory | MemoryType::ConventionalMemory => true,
            _ => false,
        }
    }

    /// Returns whether this memory type is available for general use after
    /// `exit_boot_services()` has been called
    pub fn available_post_boot_svc_exit(&self) -> (r: bool)
        ensures
            r == self.spec_available(),
            r == (*self is BootServicesCode || *self is BootServicesData
                || *self is PersistentMemory || *self is ConventionalMemory),
    {
        match self {
            MemoryType::BootServicesCode | MemoryType::BootServicesData
            | MemoryType::PersistentMemory | MemoryType::ConventionalMemory => true,
            _ => false,
        }
    }

    /// Convert a raw type value into a `MemoryType`
    pub fn from(val: u32) -> (t: MemoryType)
        ensures
            t == spec_memory_type(val),
    {
        match val {
            0 => MemoryType::Reserved,
            1 => MemoryType::LoaderCode,
            2 => MemoryType::LoaderData,
            3 => MemoryType::BootServicesCode,
            4 => MemoryType::BootServicesData,
            5 => MemoryType::RuntimeServicesCode,
            6 => MemoryType::RuntimeServicesData,
            7 => MemoryType::ConventionalMemory,
            8 => MemoryType::UnusableMemory,
            9 => MemoryType::ACPIReclaimMemory,
            10 => MemoryType::ACPIMemoryNVS,
            11 => MemoryType::MemoryMappedIO,
            12 => MemoryType::MemoryMappedIOPortSpace,
            13 => MemoryType::PalCode,
            14 => MemoryType::PersistentMemory,
            _ => MemoryType::Unsupported,
        }
    }
}

/// Memory descriptors returned by the `get_memory_map()` boot service
#[derive(Debug, Copy, Clone)]
pub struct MemoryDescriptor {
    /// Type of the memory region
    pub mem_type: MemoryType,
    /// Physical address of the first byte in the memory region
    pub phys_addr: u64,
    /// Virtual address of the first byte in the memory region
    pub virt_addr: u64,
    /// Number of 4 KiB pages in the memory region
    pub n_pages: u64,
    /// Attributes of the memory region that describe the bit mask of
    /// capabilities for that memory region.
    pub attribute: u64,
}

impl MemoryDescriptor {
    /// Returns a memory descriptor whose byte map is filled with 0s.
    pub fn empty() -> (d: MemoryDescriptor)
        ensures
            d.mem_type == MemoryType::Reserved,
            d.phys_addr == 0,
            d.virt_addr == 0,
            d.n_pages == 0,
            d.attribute == 0,
    {
        MemoryDescriptor {
            mem_type: MemoryType::Reserved,
            phys_addr: 0,
            virt_addr: 0,
            n_pages: 0,
            attribute: 0,
        }
    }
}

/// The inclusive ranges `(start, end)` of free memory that the descriptors
/// `descs` describe, in their order, or the overflow error of the first
/// available descriptor whose end does not fit in 64 bits
pub open spec fn spec_free_ranges(descs: Seq<MemoryDescriptor>) -> Result<Seq<(u64, u64)>, Error>
    decreases descs.len(),
{
    if descs.len() == 0 {
        Ok(Seq::empty())
    } else {
        match spec_free_ranges(descs.drop_last()) {
            Err(e) => Err(e),
            Ok(r) => {
                let d = descs.last();
                if !d.mem_type.spec_available() {
                    Ok(r)
                } else if d.n_pages * 4096 > u64::MAX || d.phys_addr + (d.n_pages * 4096 - 1)
                    > u64::MAX {
                    Err(Error::MemoryMapOverflow)
                } else {
                    Ok(r.push((d.phys_addr, (d.phys_addr + (d.n_pages * 4096 - 1)) as u64)))
                }
            },
        }
    }
}

/// Once the ranges of a prefix of descriptors overflow, so do those of every
/// longer prefix
proof fn lemma_free_ranges_err(descs: Seq<MemoryDescriptor>, i: int)
    requires
        0 <= i <= descs.len(),
        spec_free_ranges(descs.take(i)) is Err,
    ensures
        spec_free_ranges(descs) == spec_free_ranges(descs.take(i)),
    decreases descs.len() - i,
{
    if i < descs.len() {
        assert(descs.take(i + 1).drop_last() =~= descs.take(i));
        lemma_free_ranges_err(descs, i + 1);
    } else {
        assert(descs.take(i) =~= descs);
    }
}

/// Compute the free memory ranges of a memory map: the inclusive range of
/// each descriptor that is available after the boot services exit.
///
/// Every available descriptor must describe at least one page.
pub fn free_ranges(descs: &[MemoryDescriptor]) -> (r: Result<Vec<(u64, u64)>, Error>)
    requires
        forall|i: int|
            0 <= i < descs@.len() && (#[trigger] descs@[i]).mem_type.spec_available() ==> descs@[i].n_pages
                > 0,
    ensures
        match r {
            Ok(v) => spec_free_ranges(descs@) == Ok::<Seq<(u64, u64)>, Error>(v@),
            Err(e) => spec_free_ranges(descs@) == Err::<Seq<(u64, u64)>, Error>(e),
        },
{
    let mut free_memory: Vec<(u64, u64)> = Vec::new();
    let mut i: usize = 0;
    while i < descs.len()
        invariant
            i <= descs@.len(),
            forall|j: int|
                0 <= j < descs@.len() && (#[trigger] descs@[j]).mem_type.spec_available()
                    ==> descs@[j].n_pages > 0,
            spec_free_ranges(descs@.take(i as int)) == Ok::<Seq<(u64, u64)>, Error>(
                free_memory@,
            ),
        decreases descs@.len() - i,
    {
        let desc = descs[i];
        proof {
            assert(descs@.take(i + 1).drop_last() =~= descs@.take(i as int));
            assert(descs@.take(i + 1).last() == desc);
        }

        // Skip all regions that will become invalid post boot services exit
        if desc.mem_type.available_post_boot_svc_exit() {
            // Calculate the end of this memory
            let offset = match desc.n_pages.checked_mul(4096) {
                Some(o) => o,
                None => {
                    proof {
                        lemma_free_ranges_err(descs@, i + 1);
                    }
                    return Err(Error::MemoryMapOverflow);
                },
            };
            let end = match desc.phys_addr.checked_add(offset - 1) {
                Some(e) => e,
                None => {
                    proof {
                        lemma_free_ranges_err(descs@, i + 1);
                    }
                    return Err(Error::MemoryMapOverflow);
                },
            };
            free_memory.push((desc.phys_addr, end));
        }
        i = i + 1;
    }
    proof {
        assert(descs@.take(descs@.len() as int) =~= descs@);
    }
    Ok(free_memory)
}

/// Only boot services code and data, conventional and persistent memory are
/// free once the boot services exit: a descriptor of any other type (the
/// loader's own code and data among them) adds no free range, and one of
/// those four types adds its own range after the others
pub proof fn lemma_free_ranges_only_available(descs: Seq<MemoryDescriptor>, d: MemoryDescriptor)
    ensures
        !(d.mem_type is BootServicesCode || d.mem_type is BootServicesData
            || d.mem_type is PersistentMemory || d.mem_type is ConventionalMemory)
            ==> spec_free_ranges(descs.push(d)) == spec_free_ranges(descs),
        (d.mem_type is BootServicesCode || d.mem_type is BootServicesData
            || d.mem_type is PersistentMemory || d.mem_type is ConventionalMemory)
            && spec_free_ranges(descs) is Ok && d.n_pages > 0 && d.n_pages * 4096 <= u64::MAX
            && d.phys_addr + d.n_pages * 4096 <= u64::MAX + 1 ==> spec_free_ranges(descs.push(d)) == Ok::<Seq<(u64, u64)>, Error>(
            spec_free_ranges(descs)->Ok_0.push(
                (d.phys_addr, (d.phys_addr + d.n_pages * 4096 - 1) as u64),
            ),
        ),
{
    assert(descs.push(d).drop_last() =~= descs);
}

/// The memory reserved below 64 KiB, so that legacy structures are not
/// written into
pub const LEGACY_LOW_RANGE: (u64, u64) = (0x0000, 0xFFFF);

/// The legacy video/BIOS hole, reserved in case UEFI returns it as
/// conventional memory
pub const LEGACY_BIOS_RANGE: (u64, u64) = (0xA0000, 0xFFFFF);

/// The inclusive ranges kept out of the free memory whatever the memory map
/// says: the first 64 KiB, where legacy structures live, and the legacy
/// video and BIOS hole, which UEFI may report as conventional memory
pub fn reserved_ranges() -> (r: [(u64, u64); 2])
    ensures
        r@ == seq![(0x0000u64, 0xFFFFu64), (0xA0000u64, 0xFFFFFu64)],
{
    let r = [(0x0000, 0xFFFF), (0xA0000, 0xFFFFF)];
    assert(r@ =~= seq![(0x0000u64, 0xFFFFu64), (0xA0000u64, 0xFFFFFu64)]);
    r
}

} // verus!
