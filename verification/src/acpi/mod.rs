//! Parsing of the ACPI system description tables that the kernel consumes
//!
//! A table is handed over as the bytes that start at its SDT header.

pub mod madt;
pub mod srat;

pub use madt::Madt;
pub use srat::{Srat, MemoryAffinity, srat_supported};

use vstd::prelude::*;
use crate::bytes::{le_u32, byte_sum, read_le_u16, read_le_u32, read_le_u64, wrapping_byte_sum};
use crate::bytes::{le_u16, le_u64};

verus! {

/// Flag showing that a table entry is enabled
pub const ENABLED: u32 = 1;

/// Size in bytes of the header present in all SDTs
pub const SDT_HEADER_LEN: usize = 36;

/// Errors possibly returned by ACPI routines
#[derive(Debug, Clone, Copy, PartialEq, Eq, Structural)]
pub enum Error {
    /// ACPI 2.0 table couldn't be found
    Acpi20NotFound,
    /// Unexpected table signature
    SignatureMismatch(Table),
    /// Unexpected table size
    SizeMismatch(Table),
    /// Unexpected table checksum
    ChecksumMismatch(Table),
    /// We got flags that the kernel can't handled
    UnhandledFlags,
    /// While parsing the memory proximity domain to physical memory ranges
    /// affinity, the physical memory range did not fit the address space
    MemoryAffinityOverflow,
}

/// Types of tables recognized by this lib -- used for error handling
#[derive(Debug, Clone, Copy, PartialEq, Eq, Structural)]
pub enum Table {
    /// Multiple APIC description table
    Madt,
    /// System resource affinity table
    Srat,
    /// Unknown system table, with its signature
    Unknown(u8, u8, u8, u8),
}

/// The signature `APIC` of the MADT
pub open spec fn madt_signature() -> Seq<u8> {
    seq![0x41u8, 0x50u8, 0x49u8, 0x43u8]
}

/// The signature `SRAT` of the SRAT
pub open spec fn srat_signature() -> Seq<u8> {
    seq![0x53u8, 0x52u8, 0x41u8, 0x54u8]
}

/// The table type that the four signature bytes `sig` name
pub open spec fn spec_table(sig: Seq<u8>) -> Table {
    if sig == madt_signature() {
        Table::Madt
    } else if sig == srat_signature() {
        Table::Srat
    } else {
        Table::Unknown(sig[0], sig[1], sig[2], sig[3])
    }
}

impl Table {
    /// Tries to turn a signature into a recognized table type
    pub fn from_sig(signature: &[u8; 4]) -> (t: Table)
        ensures
            t == spec_table(signature@),
    {
        let s0 = signature[0];
        let s1 = signature[1];
        let s2 = signature[2];
        let s3 = signature[3];
        proof {
            if signature@ == madt_signature() || signature@ == srat_signature() {
                assert(signature@[0] == s0 && signature@[1] == s1);
                assert(signature@[2] == s2 && signature@[3] == s3);
            }
        }
        if s0 == 0x41 && s1 == 0x50 && s2 == 0x49 && s3 == 0x43 {
            assert(signature@ =~= madt_signature());
            Table::Madt
        } else if s0 == 0x53 && s1 == 0x52 && s2 == 0x41 && s3 == 0x54 {
            assert(signature@ =~= srat_signature());
            Table::Srat
        } else {
            Table::Unknown(s0, s1, s2, s3)
        }
    }
}

/// Header present in all SDTs
#[derive(Debug, Clone, Copy)]
pub struct SdtHeader {
    /// ASCII string representation of the table identifier
    pub signature: [u8; 4],
    /// Length of the table, in bytes, including the header, starting from
    /// offset 0
    pub length: u32,
    /// Revision of the structure corresponding to the signature of this table
    pub revision: u8,
    /// The entire table, including the checksum field, must add to zero to be
    /// considered valid
    pub checksum: u8,
    /// OEM-supplied string that identifies the OEM
    pub oem_id: [u8; 6],
    /// OEM-supplied string that the OEM uses to identify this table
    pub oem_table_id: [u8; 8],
    /// OEM-supplied revision number
    pub oem_revision: u32,
    /// Vendor ID of utility that created the table
    pub creator_id: u32,
    /// Revision of utility that created the table
    pub creator_revision: u32,
}

/// The length field of the SDT header at the start of `s`
pub open spec fn sdt_length(s: Seq<u8>) -> u32 {
    le_u32(s.subrange(4, 8))
}

/// Whether the header at the start of `s` decodes to `h`
pub open spec fn is_header_of(h: SdtHeader, s: Seq<u8>) -> bool {
    &&& h.signature@ == s.subrange(0, 4)
    &&& h.length == sdt_length(s)
    &&& h.revision == s[8]
    &&& h.checksum == s[9]
    &&& h.oem_id@ == s.subrange(10, 16)
    &&& h.oem_table_id@ == s.subrange(16, 24)
    &&& h.oem_revision == le_u32(s.subrange(24, 28))
    &&& h.creator_id == le_u32(s.subrange(28, 32))
    &&& h.creator_revision == le_u32(s.subrange(32, 36))
}

impl SdtHeader {
    /// Decode the SDT header at the start of `bytes`
    pub fn parse(bytes: &[u8]) -> (h: SdtHeader)
        requires
            bytes@.len() >= SDT_HEADER_LEN,
        ensures
            is_header_of(h, bytes@),
    {
        let signature = [bytes[0], bytes[1], bytes[2], bytes[3]];
        let oem_id = [bytes[10], bytes[11], bytes[12], bytes[13], bytes[14], bytes[15]];
        let oem_table_id = [
            bytes[16],
            bytes[17],
            bytes[18],
            bytes[19],
            bytes[20],
            bytes[21],
            bytes[22],
            bytes[23],
        ];
        let h = SdtHeader {
            signature,
            length: read_le_u32(bytes, 4),
            revision: bytes[8],
            checksum: bytes[9],
            oem_id,
            oem_table_id,
            oem_revision: read_le_u32(bytes, 24),
            creator_id: read_le_u32(bytes, 28),
            creator_revision: read_le_u32(bytes, 32),
        };
        assert(h.signature@ =~= bytes@.subrange(0, 4));
        assert(h.oem_id@ =~= bytes@.subrange(10, 16));
        assert(h.oem_table_id@ =~= bytes@.subrange(16, 24));
        h
    }

    /// Checks the checksum of the header _AND_ the connected table, whose
    /// bytes, header included, are `table`
    pub fn checksum_valid(&self, table: &[u8]) -> (r: bool)
        requires
            self.length <= table@.len(),
        ensures
            r == (byte_sum(table@.take(self.length as int)) % 256 == 0),
    {
        wrapping_byte_sum(table, self.length as usize) == 0
    }
}

/// Represents an entry in an ACPI table: its type, its length and the
/// offset of its first byte in the table
#[derive(Debug, Clone, Copy, PartialEq, Eq, Structural)]
pub struct TableEntry {
    pub typ: u8,
    pub len: u8,
    pub start: usize,
}

impl TableEntry {
    /// Whether this entry lies within `s`
    pub open spec fn within(self, s: Seq<u8>) -> bool {
        self.start + self.len <= s.len()
    }

    /// Read the byte at `offset` in the entry
    pub fn read_u8(&self, table: &[u8], offset: usize) -> (v: u8)
        requires
            offset + 1 <= self.len,
            self.within(table@),
        ensures
            v == table@[self.start + offset],
    {
        let _n = table.len();
        table[self.start + offset]
    }

    /// Read the little-endian `u16` at `offset` in the entry
    pub fn read_u16(&self, table: &[u8], offset: usize) -> (v: u16)
        requires
            offset + 2 <= self.len,
            self.within(table@),
        ensures
            v == le_u16(table@.subrange(self.start + offset, self.start + offset + 2)),
    {
        let _n = table.len();
        read_le_u16(table, self.start + offset)
    }

    /// Read the little-endian `u32` at `offset` in the entry
    pub fn read_u32(&self, table: &[u8], offset: usize) -> (v: u32)
        requires
            offset + 4 <= self.len,
            self.within(table@),
        ensures
            v == le_u32(table@.subrange(self.start + offset, self.start + offset + 4)),
    {
        let _n = table.len();
        read_le_u32(table, self.start + offset)
    }

    /// Read the little-endian `u64` at `offset` in the entry
    pub fn read_u64(&self, table: &[u8], offset: usize) -> (v: u64)
        requires
            offset + 8 <= self.len,
            self.within(table@),
        ensures
            v == le_u64(table@.subrange(self.start + offset, self.start + offset + 8)),
    {
        let _n = table.len();
        read_le_u64(table, self.start + offset)
    }
}

/// The entries of the table `s` from the offset `pos` up to `end`, each one
/// starting where the previous one ends; `None` when an entry is shorter
/// than its own two-byte header or does not fit in `s`
pub open spec fn spec_entries(s: Seq<u8>, pos: nat, end: nat) -> Option<Seq<TableEntry>>
    decreases s.len() - pos,
{
    if pos >= end {
        Some(Seq::empty())
    } else if pos + 2 > s.len() || s[pos as int + 1] < 2 || pos + s[pos as int + 1] > s.len() {
        None
    } else {
        let e = TableEntry { typ: s[pos as int], len: s[pos as int + 1], start: pos as usize };
        match spec_entries(s, (pos + s[pos as int + 1]) as nat, end) {
            Some(rest) => Some(seq![e] + rest),
            None => None,
        }
    }
}

/// The entries of the table `s` whose first entry comes `offset` bytes after
/// the SDT header
pub open spec fn spec_table_entries(s: Seq<u8>, offset: nat) -> Option<Seq<TableEntry>> {
    spec_entries(s, (SDT_HEADER_LEN + offset) as nat, sdt_length(s) as nat)
}

/// `p` put in front of the entries of `o`, if there are any
pub open spec fn prepend(p: Seq<TableEntry>, o: Option<Seq<TableEntry>>) -> Option<Seq<TableEntry>> {
    match o {
        Some(rest) => Some(p + rest),
        None => None,
    }
}

/// Every entry that `spec_entries` gives lies within the table
pub proof fn lemma_entries_within(s: Seq<u8>, pos: nat, end: nat)
    ensures
        spec_entries(s, pos, end) matches Some(es) ==> forall|i: int|
            0 <= i < es.len() ==> (#[trigger] es[i]).within(s) && es[i].len >= 2,
    decreases s.len() - pos,
{
    if pos < end && !(pos + 2 > s.len() || s[pos as int + 1] < 2 || pos + s[pos as int + 1]
        > s.len()) {
        lemma_entries_within(s, (pos + s[pos as int + 1]) as nat, end);
        let e = TableEntry { typ: s[pos as int], len: s[pos as int + 1], start: pos as usize };
        if let Some(rest) = spec_entries(s, (pos + s[pos as int + 1]) as nat, end) {
            let es = seq![e] + rest;
            assert forall|i: int| 0 <= i < es.len() implies (#[trigger] es[i]).within(s)
                && es[i].len >= 2 by {
                if i > 0 {
                    assert(es[i] == rest[i - 1]);
                }
            }
        }
    }
}

/// Parse the entries in an ACPI table, given the bytes of the table and the
/// offset to the first entry after the SDT header
pub fn parse_table_entries(table: &[u8], offset: usize) -> (r: Result<Vec<TableEntry>, Error>)
    requires
        table@.len() >= SDT_HEADER_LEN,
        sdt_length(table@) <= table@.len(),
        SDT_HEADER_LEN + offset <= usize::MAX,
    ensures
        match r {
            Ok(es) => spec_table_entries(table@, offset as nat) == Some(es@),
            Err(e) => spec_table_entries(table@, offset as nat) is None && e == Error::SizeMismatch(
                spec_table(table@.subrange(0, 4)),
            ),
        },
{
    // Get the base offset of the entries and the end of the table
    let start = SDT_HEADER_LEN + offset;
    let end = read_le_u32(table, 4) as usize;
    let mut pos = start;

    // Get the type of the table we're parsing so we can return useful errors
    let signature = [table[0], table[1], table[2], table[3]];
    assert(signature@ =~= table@.subrange(0, 4));
    let table_type = Table::from_sig(&signature);

    // Vector of parsed entries
    let mut entries: Vec<TableEntry> = Vec::new();

    // Go through each entry and get its type, its length and its offset
    while pos < end
        invariant
            end == sdt_length(table@),
            end <= table@.len(),
            table_type == spec_table(table@.subrange(0, 4)),
            spec_table_entries(table@, offset as nat) == prepend(
                entries@,
                spec_entries(table@, pos as nat, end as nat),
            ),
            start == SDT_HEADER_LEN + offset,
        decreases table@.len() - pos,
    {
        // Make sure there's space for the entry
        if pos > table.len() - 2 {
            return Err(Error::SizeMismatch(table_type));
        }
        let typ = table[pos];
        let len = table[pos + 1];
        if len < 2 || len as usize > table.len() - pos {
            return Err(Error::SizeMismatch(table_type));
        }

        // Save the entry
        let e = TableEntry { typ, len, start: pos };
        proof {
            let rest = spec_entries(table@, (pos + len) as nat, end as nat);
            assert(spec_entries(table@, pos as nat, end as nat) == prepend(seq![e], rest));
            if let Some(r) = rest {
                assert(entries@ + (seq![e] + r) =~= entries@.push(e) + r);
            }
        }
        entries.push(e);

        // Offset the current entry to the next one and go
        pos = pos + len as usize;
    }
    assert(entries@ + Seq::<TableEntry>::empty() =~= entries@);
    Ok(entries)
}

} // verus!
