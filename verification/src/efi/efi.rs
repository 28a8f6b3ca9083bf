//! Generic EFI definitions

use vstd::prelude::*;

verus! {

/// UEFI defined global unique ID
#[derive(Copy, Clone, Debug)]
#[allow(missing_docs)]
pub struct Guid {
    pub d1: u32,
    pub d2: u16,
    pub d3: u16,
    pub d4: [u8; 8],
}

impl Guid {
    /// Whether both GUIDs have the same fields
    pub open spec fn same(self, other: Guid) -> bool {
        self.d1 == other.d1 && self.d2 == other.d2 && self.d3 == other.d3 && self.d4@ == other.d4@
    }

    /// Returns a new Guid
    pub fn new(d1: u32, d2: u16, d3: u16, d4: [u8; 8]) -> (g: Guid)
        ensures
            g.d1 == d1,
            g.d2 == d2,
            g.d3 == d3,
            g.d4 == d4,
    {
        Self { d1, d2, d3, d4 }
    }
}

impl PartialEq for Guid {
    fn eq(&self, other: &Guid) -> (r: bool) {
        let a = &self.d4;
        let b = &other.d4;
        let r = self.d1 == other.d1 && self.d2 == other.d2 && self.d3 == other.d3 && a[0] == b[0]
            && a[1] == b[1] && a[2] == b[2] && a[3] == b[3] && a[4] == b[4] && a[5] == b[5]
            && a[6] == b[6] && a[7] == b[7];
        proof {
            if r {
                assert(a@ =~= b@);
            }
        }
        r
    }
}

impl vstd::std_specs::cmp::PartialEqSpecImpl for Guid {
    open spec fn obeys_eq_spec() -> bool {
        true
    }

    open spec fn eq_spec(&self, other: &Guid) -> bool {
        self.same(*other)
    }
}

/// Structure that precedes all of the standard EFI table types
#[derive(Debug, Copy, Clone, PartialEq, Eq, Structural)]
pub struct TableHeader {
    /// Signature that identifies the type of table that follows
    pub signature: u64,
    /// The revision of the EFI specification to which this table conforms
    pub revision: u32,
    /// The size, in bytes, of the entire table including this header
    pub header_size: u32,
    /// The 32-bit CRC for the entire table.
    pub crc32: u32,
    /// Reserved field that must be set to 0
    pub reserved: u32,
}

/// A GUID/table pair of the configuration tables of the system table, the
/// table given by its physical address
#[derive(Debug, Copy, Clone)]
pub struct ConfigTable {
    /// GUID identifying the configuration table
    pub guid: Guid,
    /// Address of the table associated with this GUID
    pub table: u64,
}

/// The address of the first configuration table whose GUID is `guid`
pub fn find_table(tables: &[ConfigTable], guid: &Guid) -> (r: Option<u64>)
    ensures
        r is None <==> forall|i: int| 0 <= i < tables@.len() ==> !tables@[i].guid.same(*guid),
        r matches Some(a) ==> exists|i: int|
            0 <= i < tables@.len() && tables@[i].guid.same(*guid) && tables@[i].table == a
                && forall|j: int| 0 <= j < i ==> !tables@[j].guid.same(*guid),
{
    let mut i: usize = 0;
    while i < tables.len()
        invariant
            i <= tables@.len(),
            forall|j: int| 0 <= j < i ==> !tables@[j].guid.same(*guid),
        decreases tables@.len() - i,
    {
        if tables[i].guid == *guid {
            return Some(tables[i].table);
        }
        i = i + 1;
    }
    None
}

} // verus!
