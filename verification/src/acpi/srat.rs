//! SRAT implementation

use vstd::prelude::*;
use std::collections::BTreeMap;
use crate::bytes::{le_u32, le_u64};
use crate::acpi::{
    Error, Table, TableEntry, ENABLED, SDT_HEADER_LEN, parse_table_entries, sdt_length,
    spec_table, spec_table_entries, lemma_entries_within,
};

verus! {

broadcast use vstd::laws_cmp::group_laws_cmp;

/// Offset of the first SRAT entry after the SDT header (reserved bytes)
pub const SRAT_ENTRIES_OFFSET: usize = 12;

/// An enabled memory affinity: the physical memory from `start` to `end`,
/// both included, belongs to the proximity domain `domain`
#[derive(Debug, Clone, Copy, PartialEq, Eq, Structural)]
pub struct MemoryAffinity {
    pub domain: u32,
    pub start: u64,
    pub end: u64,
}

/// Information returned when parsing the SRAT table
#[derive(Debug)]
pub struct Srat {
    /// Mapping of APICs to memory domains
    pub apic_to_domain: BTreeMap<u32, u32>,
    /// Enabled memory affinities, in table order
    pub memory_affinities: Vec<MemoryAffinity>,
}

/// What parsing the SRAT has gathered so far: the APIC to domain mapping
/// and the memory affinities
pub type SratView = (Map<u32, u32>, Seq<MemoryAffinity>);

/// The result of parsing the SRAT entries `es` of the table `s` on top of
/// what `acc` holds: `None` when an entry of unknown type is reached before
/// any error, else the gathered mapping and affinities or the error of the
/// first malformed entry
pub open spec fn spec_srat_from(s: Seq<u8>, es: Seq<TableEntry>, acc: SratView) -> Option<
    Result<SratView, Error>,
>
    decreases es.len(),
{
    if es.len() == 0 {
        Some(Ok(acc))
    } else {
        let e = es[0];
        let rest = es.drop_first();
        if e.typ == 0 {
            // Local APIC to memory proximity domain
            if e.len != 16 {
                Some(Err(Error::SizeMismatch(Table::Srat)))
            } else {
                let id = s[e.start + 3] as u32;
                let flags = le_u32(s.subrange(e.start + 4, e.start + 8));
                let domain = le_u32(
                    seq![s[e.start + 2], s[e.start + 9], s[e.start + 10], s[e.start + 11]],
                );
                spec_srat_from(
                    s,
                    rest,
                    if (flags & ENABLED) != 0 { (acc.0.insert(id, domain), acc.1) } else { acc },
                )
            }
        } else if e.typ == 1 {
            // Memory range to memory proximity domain
            if e.len != 40 {
                Some(Err(Error::SizeMismatch(Table::Srat)))
            } else {
                let domain = le_u32(s.subrange(e.start + 2, e.start + 6));
                let start = le_u64(s.subrange(e.start + 8, e.start + 16));
                let length = le_u64(s.subrange(e.start + 16, e.start + 24));
                let flags = le_u32(s.subrange(e.start + 28, e.start + 32));
                if length > 0 && (flags & ENABLED) != 0 {
                    if start + (length - 1) > u64::MAX {
                        Some(Err(Error::MemoryAffinityOverflow))
                    } else {
                        let a = MemoryAffinity {
                            domain,
                            start,
                            end: (start + (length - 1)) as u64,
                        };
                        spec_srat_from(s, rest, (acc.0, acc.1.push(a)))
                    }
                } else {
                    spec_srat_from(s, rest, acc)
                }
            }
        } else if e.typ == 2 {
            // Local x2APIC to memory proximity domain
            if e.len != 24 {
                Some(Err(Error::SizeMismatch(Table::Srat)))
            } else {
                let domain = le_u32(s.subrange(e.start + 4, e.start + 8));
                let id = le_u32(s.subrange(e.start + 8, e.start + 12));
                let flags = le_u32(s.subrange(e.start + 12, e.start + 16));
                spec_srat_from(
                    s,
                    rest,
                    if (flags & ENABLED) != 0 { (acc.0.insert(id, domain), acc.1) } else { acc },
                )
            }
        } else {
            None
        }
    }
}

/// An APIC entry, local (type 0) or x2APIC (type 2), whose flags lack the
/// Enabled bit stands for a processor that is not there: it leaves the APIC
/// to domain mapping, and all else gathered, as it was
pub proof fn lemma_disabled_apic_ignored(s: Seq<u8>, es: Seq<TableEntry>, acc: SratView)
    requires
        es.len() > 0,
        ({
            let e = es[0];
            ||| e.typ == 0 && e.len == 16 && le_u32(s.subrange(e.start + 4, e.start + 8)) & 1 == 0
            ||| e.typ == 2 && e.len == 24 && le_u32(s.subrange(e.start + 12, e.start + 16)) & 1
                == 0
        }),
    ensures
        spec_srat_from(s, es, acc) == spec_srat_from(s, es.drop_first(), acc),
{
}

/// The result of parsing the SRAT `s`: `None` where an entry of unknown type
/// is met, else its APIC to domain mapping and memory affinities, or the
/// error it is rejected with
pub open spec fn spec_srat(s: Seq<u8>) -> Option<Result<SratView, Error>> {
    match spec_table_entries(s, SRAT_ENTRIES_OFFSET as nat) {
        None => Some(Err(Error::SizeMismatch(spec_table(s.subrange(0, 4))))),
        Some(es) => spec_srat_from(s, es, (Map::empty(), Seq::empty())),
    }
}


/// Whether parsing the SRAT entries `es` of the table `s` meets no entry of
/// unknown type before the first malformed one
pub open spec fn srat_known_from(s: Seq<u8>, es: Seq<TableEntry>) -> bool
    decreases es.len(),
{
    if es.len() == 0 {
        true
    } else {
        let e = es[0];
        if e.typ == 0 {
            e.len != 16 || srat_known_from(s, es.drop_first())
        } else if e.typ == 1 {
            if e.len != 40 {
                true
            } else {
                let start = le_u64(s.subrange(e.start + 8, e.start + 16));
                let length = le_u64(s.subrange(e.start + 16, e.start + 24));
                let flags = le_u32(s.subrange(e.start + 28, e.start + 32));
                if length > 0 && (flags & ENABLED) != 0 && start + (length - 1) > u64::MAX {
                    true
                } else {
                    srat_known_from(s, es.drop_first())
                }
            }
        } else if e.typ == 2 {
            e.len != 24 || srat_known_from(s, es.drop_first())
        } else {
            false
        }
    }
}

/// Whether the SRAT parse reaches an entry of unknown type does not depend
/// on what was gathered before
proof fn lemma_srat_known(s: Seq<u8>, es: Seq<TableEntry>, acc: SratView)
    ensures
        spec_srat_from(s, es, acc) is Some <==> srat_known_from(s, es),
    decreases es.len(),
{
    if es.len() > 0 {
        let e = es[0];
        let rest = es.drop_first();
        if e.typ == 0 && e.len == 16 {
            let id = s[e.start + 3] as u32;
            let flags = le_u32(s.subrange(e.start + 4, e.start + 8));
            let domain = le_u32(seq![s[e.start + 2], s[e.start + 9], s[e.start + 10], s[e.start + 11]]);
            lemma_srat_known(
                s,
                rest,
                if (flags & ENABLED) != 0 { (acc.0.insert(id, domain), acc.1) } else { acc },
            );
        } else if e.typ == 1 && e.len == 40 {
            let domain = le_u32(s.subrange(e.start + 2, e.start + 6));
            let start = le_u64(s.subrange(e.start + 8, e.start + 16));
            let length = le_u64(s.subrange(e.start + 16, e.start + 24));
            let flags = le_u32(s.subrange(e.start + 28, e.start + 32));
            if length > 0 && (flags & ENABLED) != 0 {
                if start + (length - 1) <= u64::MAX {
                    let a = MemoryAffinity { domain, start, end: (start + (length - 1)) as u64 };
                    lemma_srat_known(s, rest, (acc.0, acc.1.push(a)));
                }
            } else {
                lemma_srat_known(s, rest, acc);
            }
        } else if e.typ == 2 && e.len == 24 {
            let domain = le_u32(s.subrange(e.start + 4, e.start + 8));
            let id = le_u32(s.subrange(e.start + 8, e.start + 12));
            let flags = le_u32(s.subrange(e.start + 12, e.start + 16));
            lemma_srat_known(
                s,
                rest,
                if (flags & ENABLED) != 0 { (acc.0.insert(id, domain), acc.1) } else { acc },
            );
        }
    }
}

/// Whether the SRAT whose bytes, SDT header included, are `table` can be
/// parsed: no entry of unknown type is met before the first malformed one
pub fn srat_supported(table: &[u8]) -> (r: bool)
    requires
        table@.len() >= SDT_HEADER_LEN,
        sdt_length(table@) <= table@.len(),
    ensures
        r == (spec_srat(table@) is Some),
{
    let entries = match parse_table_entries(table, SRAT_ENTRIES_OFFSET) {
        Ok(es) => es,
        Err(_) => return true,
    };
    proof {
        lemma_entries_within(table@, (SDT_HEADER_LEN + SRAT_ENTRIES_OFFSET) as nat, sdt_length(table@) as nat);
        lemma_srat_known(table@, entries@, (Map::empty(), Seq::empty()));
    }
    let mut i: usize = 0;
    assert(entries@.skip(0) =~= entries@);
    while i < entries.len()
        invariant
            0 <= i <= entries@.len(),
            forall|j: int| 0 <= j < entries@.len() ==> (#[trigger] entries@[j]).within(table@),
            srat_known_from(table@, entries@) == srat_known_from(table@, entries@.skip(i as int)),
            (spec_srat(table@) is Some) == srat_known_from(table@, entries@),
        decreases entries@.len() - i,
    {
        let entry = entries[i];
        assert(entries@.skip(i as int)[0] == entry);
        assert(entries@.skip(i as int).drop_first() =~= entries@.skip(i + 1));
        if entry.typ == 0 {
            if entry.len != 16 {
                return true;
            }
        } else if entry.typ == 1 {
            if entry.len != 40 {
                return true;
            }
            let start = entry.read_u64(table, 8);
            let length = entry.read_u64(table, 16);
            let flags = entry.read_u32(table, 28);
            if length > 0 && (flags & ENABLED) != 0 && start.checked_add(length - 1).is_none() {
                return true;
            }
        } else if entry.typ == 2 {
            if entry.len != 24 {
                return true;
            }
        } else {
            return false;
        }
        i = i + 1;
    }
    assert(entries@.skip(i as int).len() == 0);
    true
}

impl Srat {
    /// Parse the SRAT whose bytes, SDT header included, are `table`
    pub fn parse(table: &[u8]) -> (r: Result<Srat, Error>)
        requires
            table@.len() >= SDT_HEADER_LEN,
            sdt_length(table@) <= table@.len(),
            spec_srat(table@) is Some,
        ensures
            match r {
                Ok(srat) => spec_srat(table@) == Some(
                    Ok::<SratView, Error>((srat.apic_to_domain@, srat.memory_affinities@)),
                ),
                Err(e) => spec_srat(table@) == Some(Err::<SratView, Error>(e)),
            },
    {
        // Get the entries from the table
        let entries = parse_table_entries(table, SRAT_ENTRIES_OFFSET)?;
        proof {
            lemma_entries_within(table@, (SDT_HEADER_LEN + SRAT_ENTRIES_OFFSET) as nat, sdt_length(table@) as nat);
        }

        // Create the SRAT struct that will be returned
        let mut srat = Srat { apic_to_domain: BTreeMap::new(), memory_affinities: Vec::new() };

        // Go through each entry and save each usable affinity
        let mut i: usize = 0;
        assert(entries@.skip(0) =~= entries@);
        while i < entries.len()
            invariant
                0 <= i <= entries@.len(),
                forall|j: int| 0 <= j < entries@.len() ==> (#[trigger] entries@[j]).within(table@),
                spec_srat(table@) == spec_srat_from(
                    table@,
                    entries@.skip(i as int),
                    (srat.apic_to_domain@, srat.memory_affinities@),
                ),
                spec_srat(table@) is Some,
            decreases entries@.len() - i,
        {
            let entry = entries[i];
            assert(entries@.skip(i as int)[0] == entry);
            assert(entries@.skip(i as int).drop_first() =~= entries@.skip(i + 1));
            if entry.typ == 0 {
                // Validate the length of the entry
                if entry.len != 16 {
                    return Err(Error::SizeMismatch(Table::Srat));
                }
                // Extract the fields we care about
                let id = entry.read_u8(table, 3) as u32;
                let flags = entry.read_u32(table, 4);
                let dom = [
                    entry.read_u8(table, 2),
                    entry.read_u8(table, 9),
                    entry.read_u8(table, 10),
                    entry.read_u8(table, 11),
                ];
                let domain = crate::bytes::read_le_u32(&dom, 0);
                assert(dom@.subrange(0, 4) =~= seq![
                    table@[entry.start + 2],
                    table@[entry.start + 9],
                    table@[entry.start + 10],
                    table@[entry.start + 11],
                ]);

                // Save the affinity if enabled
                if (flags & ENABLED) != 0 {
                    srat.apic_to_domain.insert(id, domain);
                }
            } else if entry.typ == 1 {
                // Validate the length of the entry
                if entry.len != 40 {
                    return Err(Error::SizeMismatch(Table::Srat));
                }
                // Extract the fields we care about
                let domain = entry.read_u32(table, 2);
                let start = entry.read_u64(table, 8);
                let length = entry.read_u64(table, 16);
                let flags = entry.read_u32(table, 28);

                // Save the affinity if enabled
                if length > 0 && (flags & ENABLED) != 0 {
                    let end = match start.checked_add(length - 1) {
                        Some(end) => end,
                        None => return Err(Error::MemoryAffinityOverflow),
                    };
                    srat.memory_affinities.push(MemoryAffinity { domain, start, end });
                }
            } else if entry.typ == 2 {
                // Validate the length of the entry
                if entry.len != 24 {
                    return Err(Error::SizeMismatch(Table::Srat));
                }
                // Extract the fields we care about
                let domain = entry.read_u32(table, 4);
                let id = entry.read_u32(table, 8);
                let flags = entry.read_u32(table, 12);

                // Save the affinity if enabled
                if (flags & ENABLED) != 0 {
                    srat.apic_to_domain.insert(id, domain);
                }
            }
            i = i + 1;
        }
        assert(entries@.skip(i as int).len() == 0);
        Ok(srat)
    }
}

} // verus!
