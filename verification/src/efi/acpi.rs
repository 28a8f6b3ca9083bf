//! Routines for the validation of the ACPI root tables handed over by UEFI

use vstd::prelude::*;
use crate::bytes::{le_u32, le_u64, read_le_u32, read_le_u64, byte_sum, wrapping_byte_sum};
use crate::efi::efi::Guid;

verus! {

/// Errors possibly returned by ACPI routines
#[derive(Debug, Clone, Copy, PartialEq, Eq, Structural)]
pub enum Error {
    /// ACPI 2.0 table couldn't be found
    Acpi20NotFound,
    /// Unexpected table signature
    SignatureMismatch(Table),
    /// Unexpected table size
    SizeMismatch(Table),
    /// Unexpected table checksum
    ChecksumMismatch(Table),
}

/// GUID of the ACPI 2.0 table
pub fn acpi_20_table_guid() -> (g: Guid)
    ensures
        g.d1 == 0x8868e871,
        g.d2 == 0xe4f1,
        g.d3 == 0x11d3,
        g.d4@ == seq![0xbcu8, 0x22, 0x00, 0x80, 0xc7, 0x3c, 0x88, 0x81],
{
    let g = Guid::new(0x8868e871, 0xe4f1, 0x11d3, [0xbc, 0x22, 0x00, 0x80, 0xc7, 0x3c, 0x88, 0x81]);
    assert(g.d4@ =~= seq![0xbcu8, 0x22, 0x00, 0x80, 0xc7, 0x3c, 0x88, 0x81]);
    g
}

/// Types of tables recognized by this lib -- used for error handling
#[derive(Debug, Clone, Copy, PartialEq, Eq, Structural)]
pub enum Table {
    /// Root system descriptor pointer
    Rsdp,
    /// Extended root system descriptor table
    Xsdt,
    /// Unknown system table, with its signature
    Unknown(u8, u8, u8, u8),
}

impl Table {
    /// Tries to turn a signature into a recognized table type
    pub fn from_sig(signature: &[u8; 4]) -> (t: Table)
        ensures
            signature@ == seq![0x58u8, 0x53u8, 0x44u8, 0x54u8] ==> t == Table::Xsdt,
            signature@ != seq![0x58u8, 0x53u8, 0x44u8, 0x54u8] ==> t == Table::Unknown(
                signature[0],
                signature[1],
                signature[2],
                signature[3],
            ),
    {
        if signature[0] == 0x58u8 && signature[1] == 0x53u8 && signature[2] == 0x44u8 && signature[3]
            == 0x54u8 {
            assert(signature@ =~= seq![0x58u8, 0x53u8, 0x44u8, 0x54u8]);
            Table::Xsdt
        } else {
            Table::Unknown(signature[0], signature[1], signature[2], signature[3])
        }
    }
}

/// Size in bytes of the root system descriptor pointer structure
pub const RSDP_LEN: usize = 33;

/// Size in bytes of the header present in all SDTs
pub const SDT_HEADER_LEN: usize = 36;

/// Root system descriptor pointer
#[derive(Debug, Clone, Copy)]
pub struct Rsdp {
    /// Length of the table, in bytes, including the header
    pub length: u32,
    /// Physical address of the XSDT
    pub xsdt_addr: u64,
}

/// The signature every RSDP starts with
pub open spec fn rsdp_signature() -> Seq<u8> {
    seq![0x52u8, 0x53u8, 0x44u8, 0x20u8, 0x50u8, 0x54u8, 0x52u8, 0x20u8]
}

/// The RSDP that the bytes `s` start with, or the error it is rejected with
pub open spec fn spec_rsdp(s: Seq<u8>) -> Result<Rsdp, Error> {
    let length = le_u32(s.subrange(20, 24));
    if length < RSDP_LEN {
        Err(Error::SizeMismatch(Table::Rsdp))
    } else if s.subrange(0, 8) != rsdp_signature() {
        Err(Error::SignatureMismatch(Table::Rsdp))
    } else if byte_sum(s.take(length as int)) % 256 != 0 {
        Err(Error::ChecksumMismatch(Table::Rsdp))
    } else {
        Ok(Rsdp { length, xsdt_addr: le_u64(s.subrange(24, 32)) })
    }
}

impl Rsdp {
    /// Validate the RSDP held at the start of `bytes`: its length, its
    /// signature and the checksum of its `length` bytes
    pub fn validate(bytes: &[u8]) -> (r: Result<Rsdp, Error>)
        requires
            bytes@.len() >= RSDP_LEN,
            le_u32(bytes@.subrange(20, 24)) <= bytes@.len(),
        ensures
            r == spec_rsdp(bytes@),
    {
        let length = read_le_u32(bytes, 20);

        // Verify the length
        if (length as usize) < RSDP_LEN {
            return Err(Error::SizeMismatch(Table::Rsdp));
        }

        // Verify the signature
        if !(bytes[0] == 0x52u8 && bytes[1] == 0x53u8 && bytes[2] == 0x44u8 && bytes[3] == 0x20u8
            && bytes[4] == 0x50u8 && bytes[5] == 0x54u8 && bytes[6] == 0x52u8 && bytes[7] == 0x20u8) {
            proof {
                if bytes@.subrange(0, 8) == rsdp_signature() {
                    assert(bytes@.subrange(0, 8)[0] == 0x52u8);
                    assert(bytes@.subrange(0, 8)[1] == 0x53u8);
                    assert(bytes@.subrange(0, 8)[2] == 0x44u8);
                    assert(bytes@.subrange(0, 8)[3] == 0x20u8);
                    assert(bytes@.subrange(0, 8)[4] == 0x50u8);
                    assert(bytes@.subrange(0, 8)[5] == 0x54u8);
                    assert(bytes@.subrange(0, 8)[6] == 0x52u8);
                    assert(bytes@.subrange(0, 8)[7] == 0x20u8);
                }
            }
            return Err(Error::SignatureMismatch(Table::Rsdp));
        }
        assert(bytes@.subrange(0, 8) =~= rsdp_signature());

        // Verify the checksum
        if wrapping_byte_sum(bytes, length as usize) != 0 {
            return Err(Error::ChecksumMismatch(Table::Rsdp));
        }

        Ok(Rsdp { length, xsdt_addr: read_le_u64(bytes, 24) })
    }
}

/// Location and number of the 64-bit SDT pointers of the XSDT
#[derive(Debug, Clone, Copy, PartialEq, Eq, Structural)]
pub struct SdtTable {
    /// Number of SDT pointers
    pub n_entries: usize,
    /// Physical address of the first SDT pointer
    pub base: u64,
}

/// Whether the signature at the start of `s` is `XSDT`
pub open spec fn is_xsdt(s: Seq<u8>) -> bool {
    s.subrange(0, 4) == seq![0x58u8, 0x53u8, 0x44u8, 0x54u8]
}

/// Validate the XSDT at the physical address `xsdt_addr`, whose bytes are
/// `xsdt`, and locate its SDT pointers
pub fn get_sdt_table(xsdt_addr: u64, xsdt: &[u8]) -> (r: Result<SdtTable, Error>)
    requires
        xsdt@.len() >= SDT_HEADER_LEN,
        SDT_HEADER_LEN <= le_u32(xsdt@.subrange(4, 8)) <= xsdt@.len(),
        xsdt_addr + SDT_HEADER_LEN <= u64::MAX,
    ensures
        !is_xsdt(xsdt@) ==> r == Err::<SdtTable, Error>(Error::SignatureMismatch(Table::Xsdt)),
        is_xsdt(xsdt@) && byte_sum(xsdt@.take(le_u32(xsdt@.subrange(4, 8)) as int)) % 256 != 0
            ==> r == Err::<SdtTable, Error>(Error::ChecksumMismatch(Table::Xsdt)),
        is_xsdt(xsdt@) && byte_sum(xsdt@.take(le_u32(xsdt@.subrange(4, 8)) as int)) % 256 == 0
            ==> r == Ok::<SdtTable, Error>(
            SdtTable {
                n_entries: ((le_u32(xsdt@.subrange(4, 8)) - SDT_HEADER_LEN) / 8) as usize,
                base: (xsdt_addr + SDT_HEADER_LEN) as u64,
            },
        ),
{
    // Verify the signature
    let sig = [xsdt[0], xsdt[1], xsdt[2], xsdt[3]];
    let table = Table::from_sig(&sig);
    proof {
        assert(sig@ =~= xsdt@.subrange(0, 4));
    }
    if table != Table::Xsdt {
        return Err(Error::SignatureMismatch(Table::Xsdt));
    }

    // Verify the checksum
    let length = read_le_u32(xsdt, 4);
    if wrapping_byte_sum(xsdt, length as usize) != 0 {
        return Err(Error::ChecksumMismatch(Table::Xsdt));
    }

    // Get the pointer to the SDT table and the amount of its entries
    let base = xsdt_addr + SDT_HEADER_LEN as u64;
    let n_entries = (length as usize - SDT_HEADER_LEN) / 8;
    Ok(SdtTable { n_entries, base })
}

} // verus!
