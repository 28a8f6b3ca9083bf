//! The kernel GDT and related routines.
//!
//! Because the BSP first gets execution in long mode (because of UEFI), the
//! segment selectors and GDT are already set for it. Instead of loading a GDT
//! and changing the selectors, we create a GDT based on what's already in the
//! selectors and then load it, appending a TSS whose first interrupt stack
//! is the critical stack used by #DF, #MC and NMI.

use vstd::prelude::*;

verus! {

/// Long mode code descriptor: 64-bit, present, code
pub const CODE_DESCRIPTOR: u64 = 0x0020_9A00_0000_0000;

/// Long mode data descriptor: 64-bit, present, data
pub const DATA_DESCRIPTOR: u64 = 0x0000_9200_0000_0000;

/// Limit of the TSS descriptor: the 104 bytes of a 64-bit TSS, minus one
pub const TSS_LIMIT: u64 = 103;

/// A 64-bit task state segment structure
#[derive(Debug, Clone, Copy)]
pub struct Tss {
    pub reserved1: u32,
    pub rsp: [u64; 3],
    pub reserved2: u64,
    pub ist: [u64; 7],
    pub reserved3: u64,
    pub reserved4: u16,
    pub iopb_offset: u16,
}

impl Tss {
    /// Whether every field of the TSS is zero
    pub open spec fn is_zeroed(&self) -> bool {
        &&& self.reserved1 == 0
        &&& forall|i: int| 0 <= i < 3 ==> #[trigger] self.rsp@[i] == 0
        &&& self.reserved2 == 0
        &&& forall|i: int| 0 <= i < 7 ==> #[trigger] self.ist@[i] == 0
        &&& self.reserved3 == 0
        &&& self.reserved4 == 0
        &&& self.iopb_offset == 0
    }

    /// Make `stack_top` the first interrupt stack, the one used by critical
    /// interrupts
    pub fn set_critical_stack(&mut self, stack_top: u64)
        ensures
            final(self).ist@ == old(self).ist@.update(0, stack_top),
            final(self).rsp@ == old(self).rsp@,
            final(self).reserved1 == old(self).reserved1,
            final(self).reserved2 == old(self).reserved2,
            final(self).reserved3 == old(self).reserved3,
            final(self).reserved4 == old(self).reserved4,
            final(self).iopb_offset == old(self).iopb_offset,
    {
        self.ist[0] = stack_top;
    }
}

impl Default for Tss {
    fn default() -> (t: Tss)
        ensures
            t.is_zeroed(),
    {
        Tss {
            reserved1: 0,
            rsp: [0, 0, 0],
            reserved2: 0,
            ist: [0, 0, 0, 0, 0, 0, 0],
            reserved3: 0,
            reserved4: 0,
            iopb_offset: 0,
        }
    }
}

/// The kernel GDT
#[derive(Debug, Clone)]
pub struct Gdt {
    /// The raw GDT entries
    pub raw: Vec<u64>,
}

/// Get the indices into GDT where the `(code, data)` selectors should be such
/// that the current values `cs` and `ds` of the selectors point correctly
/// into GDT without change
pub fn get_selector_indices(cs: u16, ds: u16) -> (r: (usize, usize))
    ensures
        r.0 == cs / 8,
        r.1 == ds / 8,
{
    assert(cs >> 3 == cs / 8) by (bit_vector);
    assert(ds >> 3 == ds / 8) by (bit_vector);
    ((cs >> 3) as usize, (ds >> 3) as usize)
}

/// The low quadword of the 16-byte TSS descriptor for the TSS at `base`:
/// available 64-bit TSS, present, with the base split over bits 16..40 and
/// 56..64 and the limit in the low bits
pub open spec fn tss_low(base: u64) -> u64 {
    (0x8900_0000_0000 + ((base / 0x100_0000) % 0x100) * 0x100_0000_0000_0000 + (base
        % 0x100_0000) * 0x1_0000 + TSS_LIMIT) as u64
}

/// The GDT built around the code and data selector indices `ci` and `di`:
/// null entries up to the larger one, the long mode descriptors at the two
/// indices, then the two quadwords of the TSS descriptor
pub open spec fn spec_gdt(ci: int, di: int, tss_base: u64) -> Seq<u64> {
    let n = if ci > di { ci + 1 } else { di + 1 };
    Seq::new(
        (n + 2) as nat,
        |i: int|
            if i == ci {
                CODE_DESCRIPTOR
            } else if i == di {
                DATA_DESCRIPTOR
            } else if i == n {
                tss_low(tss_base)
            } else if i == n + 1 {
                (tss_base / 0x1_0000_0000) as u64
            } else {
                0
            },
    )
}

impl Gdt {
    /// Create a new GDT, placing the long mode descriptors to where the
    /// current `cs` and `ds` point (such that we don't have to change them
    /// when loading this GDT) and append a descriptor for the TSS at
    /// `tss_base`.
    ///
    /// Returns the GDT and the offset of the TSS descriptor into the GDT.
    pub fn new(cs: u16, ds: u16, tss_base: u64) -> (r: (Gdt, u16))
        requires
            cs / 8 != ds / 8,
            cs / 8 != 0,
        ensures
            r.0.raw@ == spec_gdt((cs / 8) as int, (ds / 8) as int, tss_base),
            r.1 == ((if cs / 8 > ds / 8 { cs / 8 + 1 } else { ds / 8 + 1 }) * 8) as u16,
    {
        // Get the selector indices
        let (cs_idx, ds_idx) = get_selector_indices(cs, ds);

        // This is the index where we'll insert the rest of the selectors
        let insert_idx = if cs_idx > ds_idx {
            cs_idx + 1
        } else {
            ds_idx + 1
        };

        // Create the GDT with enough space for the rest of the descriptors
        let mut gdt: Vec<u64> = Vec::new();
        let mut i: usize = 0;
        while i < insert_idx
            invariant
                i <= insert_idx,
                insert_idx == (if cs_idx > ds_idx { cs_idx + 1 } else { ds_idx + 1 }),
                cs_idx < insert_idx,
                ds_idx < insert_idx,
                gdt@.len() == i,
                forall|j: int|
                    0 <= j < i ==> #[trigger] gdt@[j] == (if j == cs_idx {
                        CODE_DESCRIPTOR
                    } else if j == ds_idx {
                        DATA_DESCRIPTOR
                    } else {
                        0
                    }),
            decreases insert_idx - i,
        {
            // Insert the long mode selectors where the selectors point
            let d = if i == cs_idx {
                CODE_DESCRIPTOR
            } else if i == ds_idx {
                DATA_DESCRIPTOR
            } else {
                0
            };
            gdt.push(d);
            i = i + 1;
        }

        // Create the task pointer in the GDT
        let tss_high = tss_base >> 32;
        let low = 0x8900_0000_0000u64 | (((tss_base >> 24) & 0xFF) << 56) | ((tss_base
            & 0xFF_FFFF) << 16) | TSS_LIMIT;
        assert(low == (0x8900_0000_0000 + ((tss_base / 0x100_0000) % 0x100) * 0x100_0000_0000_0000
            + (tss_base % 0x100_0000) * 0x1_0000 + 103) as u64) by (bit_vector)
            requires
                low == 0x8900_0000_0000u64 | (((tss_base >> 24) & 0xFF) << 56) | ((tss_base
                    & 0xFF_FFFF) << 16) | 103u64,
        ;
        assert(tss_high == tss_base / 0x1_0000_0000) by (bit_vector)
            requires
                tss_high == tss_base >> 32,
        ;

        // Push the TSS into the GDT
        let tss_entry = (gdt.len() * 8) as u16;
        gdt.push(low);
        gdt.push(tss_high);
        assert(gdt@ =~= spec_gdt((cs / 8) as int, (ds / 8) as int, tss_base));
        (Gdt { raw: gdt }, tss_entry)
    }
}

} // verus!
