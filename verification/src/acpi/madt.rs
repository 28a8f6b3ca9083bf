//! MADT implementation

use vstd::prelude::*;
use crate::bytes::le_u32;
use crate::acpi::{
    Error, Table, TableEntry, ENABLED, SDT_HEADER_LEN, parse_table_entries, sdt_length,
    spec_table, spec_table_entries, lemma_entries_within,
};

verus! {

/// Flag showing that an APIC is online capable
pub const ONLINE_CAPABLE: u32 = 2;

/// Offset of the first MADT entry after the SDT header (local APIC address
/// and flags)
pub const MADT_ENTRIES_OFFSET: usize = 8;

/// Information returned when parsing the MADT table
#[derive(Debug, Clone)]
pub struct Madt {
    /// ID vector of all usable APICs
    pub apics: Vec<u32>,
}

/// Whether an APIC with these flags is enabled, or can be enabled
pub open spec fn apic_usable(flags: u32) -> bool {
    (flags & ENABLED) != 0 || (flags & ONLINE_CAPABLE) != 0
}

/// The APIC IDs `ids` followed by those that the MADT entries `es` of the
/// table `s` declare usable, or the error that the first malformed entry
/// gives
pub open spec fn spec_madt_from(s: Seq<u8>, es: Seq<TableEntry>, ids: Seq<u32>) -> Result<
    Seq<u32>,
    Error,
>
    decreases es.len(),
{
    if es.len() == 0 {
        Ok(ids)
    } else {
        let e = es[0];
        if e.typ == 0 {
            // Local APIC
            if e.len != 8 {
                Err(Error::SizeMismatch(Table::Madt))
            } else {
                let id = s[e.start + 3] as u32;
                let flags = le_u32(s.subrange(e.start + 4, e.start + 8));
                spec_madt_from(s, es.drop_first(), if apic_usable(flags) { ids.push(id) } else { ids })
            }
        } else if e.typ == 9 {
            // Local x2APIC
            if e.len != 16 {
                Err(Error::SizeMismatch(Table::Madt))
            } else {
                let id = le_u32(s.subrange(e.start + 4, e.start + 8));
                let flags = le_u32(s.subrange(e.start + 8, e.start + 12));
                spec_madt_from(s, es.drop_first(), if apic_usable(flags) { ids.push(id) } else { ids })
            }
        } else {
            spec_madt_from(s, es.drop_first(), ids)
        }
    }
}

/// The usable APIC IDs that the MADT `s` declares, in table order, or the
/// error it is rejected with
pub open spec fn spec_madt(s: Seq<u8>) -> Result<Seq<u32>, Error> {
    match spec_table_entries(s, MADT_ENTRIES_OFFSET as nat) {
        None => Err(Error::SizeMismatch(spec_table(s.subrange(0, 4)))),
        Some(es) => spec_madt_from(s, es, Seq::empty()),
    }
}

impl Madt {
    /// Parse the MADT whose bytes, SDT header included, are `table`
    pub fn parse(table: &[u8]) -> (r: Result<Madt, Error>)
        requires
            table@.len() >= SDT_HEADER_LEN,
            sdt_length(table@) <= table@.len(),
        ensures
            match r {
                Ok(m) => spec_madt(table@) == Ok::<Seq<u32>, Error>(m.apics@),
                Err(e) => spec_madt(table@) == Err::<Seq<u32>, Error>(e),
            },
    {
        // Get the entries from the table
        let entries = parse_table_entries(table, MADT_ENTRIES_OFFSET)?;
        proof {
            lemma_entries_within(table@, (SDT_HEADER_LEN + MADT_ENTRIES_OFFSET) as nat, sdt_length(table@) as nat);
        }

        // Create the info struct that will be returned
        let mut madt = Madt { apics: Vec::new() };

        // Go through each entry and save the IDs of functional APICs
        let mut i: usize = 0;
        assert(entries@.skip(0) =~= entries@);
        while i < entries.len()
            invariant
                0 <= i <= entries@.len(),
                forall|j: int| 0 <= j < entries@.len() ==> (#[trigger] entries@[j]).within(table@),
                spec_madt(table@) == spec_madt_from(table@, entries@.skip(i as int), madt.apics@),
                spec_table_entries(table@, MADT_ENTRIES_OFFSET as nat) == Some(entries@),
            decreases entries@.len() - i,
        {
            let entry = entries[i];
            assert(entries@.skip(i as int)[0] == entry);
            assert(entries@.skip(i as int).drop_first() =~= entries@.skip(i + 1));
            if entry.typ == 0 {
                // Validate the length
                if entry.len != 8 {
                    return Err(Error::SizeMismatch(Table::Madt));
                }
                // Read the APIC ID and flags
                let id = entry.read_u8(table, 3) as u32;
                let flags = entry.read_u32(table, 4);

                // If the CPU is enabled, or can be enabled, save the ID
                if (flags & ENABLED) != 0 || (flags & ONLINE_CAPABLE) != 0 {
                    madt.apics.push(id);
                }
            } else if entry.typ == 9 {
                // Validate the length
                if entry.len != 16 {
                    return Err(Error::SizeMismatch(Table::Madt));
                }
                // Read the APIC ID and flags
                let id = entry.read_u32(table, 4);
                let flags = entry.read_u32(table, 8);

                // If the CPU is enabled, or can be enabled, save the ID
                if (flags & ENABLED) != 0 || (flags & ONLINE_CAPABLE) != 0 {
                    madt.apics.push(id);
                }
            }
            i = i + 1;
        }
        assert(entries@.skip(i as int).len() == 0);
        Ok(madt)
    }
}

} // verus!
