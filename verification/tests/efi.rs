use kernel::efi::acpi::{self, acpi_20_table_guid, get_sdt_table, Rsdp, SdtTable};
use kernel::efi::efi::{find_table, ConfigTable, Guid};
use kernel::efi::memory::{free_ranges, MemoryDescriptor, MemoryType};
use kernel::efi::{Error, Status, Warning};

#[test]
fn statuses_are_decoded_from_their_raw_value() {
    assert_eq!(Status::from(0), Status::Success);
    assert_eq!(Status::from(1), Status::Warning(Warning::UnknownGlyph));
    assert_eq!(Status::from(4), Status::Warning(Warning::BufferTooSmall));
    assert_eq!(Status::from(0x8000_0000_0000_0005), Status::Error(Error::BufferTooSmall));
    assert_eq!(Warning::from(1), Warning::UnknownGlyph);
    assert_eq!(Status::from(0x8000_0000_0000_000E), Status::Error(Error::NotFound));
}

#[test]
fn tables_are_found_by_guid() {
    let acpi20 = acpi_20_table_guid();
    let other = Guid::new(1, 2, 3, [4; 8]);
    let tables = [
        ConfigTable { guid: other, table: 0x10 },
        ConfigTable { guid: acpi20, table: 0x20 },
    ];
    assert_eq!(find_table(&tables, &acpi20), Some(0x20));
    assert_eq!(find_table(&tables[..1], &acpi20), None);
}

fn rsdp(xsdt: u64) -> Vec<u8> {
    let mut r = b"RSD PTR ".to_vec();
    r.push(0); // checksum
    r.extend_from_slice(b"OEMID ");
    r.push(2);
    r.extend_from_slice(&0u32.to_le_bytes());
    r.extend_from_slice(&36u32.to_le_bytes());
    r.extend_from_slice(&xsdt.to_le_bytes());
    r.push(0);
    r.extend_from_slice(&[0, 0, 0]);
    let sum = r.iter().fold(0u8, |a, b| a.wrapping_add(*b));
    r[8] = 0u8.wrapping_sub(sum);
    r
}

#[test]
fn the_rsdp_is_validated() {
    let r = rsdp(0x7FE1_4000);
    let v = Rsdp::validate(&r).unwrap();
    assert_eq!(v.xsdt_addr, 0x7FE1_4000);
    assert_eq!(v.length, 36);
    let mut bad = r.clone();
    bad[0] = b'X';
    assert_eq!(
        Rsdp::validate(&bad).unwrap_err(),
        acpi::Error::SignatureMismatch(acpi::Table::Rsdp)
    );
    let mut bad = r.clone();
    bad[30] ^= 1;
    assert_eq!(
        Rsdp::validate(&bad).unwrap_err(),
        acpi::Error::ChecksumMismatch(acpi::Table::Rsdp)
    );
    let mut bad = r.clone();
    bad[20] = 20;
    assert_eq!(
        Rsdp::validate(&bad).unwrap_err(),
        acpi::Error::SizeMismatch(acpi::Table::Rsdp)
    );
}

fn xsdt(entries: &[u64]) -> Vec<u8> {
    let mut t = b"XSDT".to_vec();
    t.extend_from_slice(&((36 + 8 * entries.len()) as u32).to_le_bytes());
    t.resize(36, 0);
    for e in entries {
        t.extend_from_slice(&e.to_le_bytes());
    }
    let sum = t.iter().fold(0u8, |a, b| a.wrapping_add(*b));
    t[9] = 0u8.wrapping_sub(sum);
    t
}

#[test]
fn the_xsdt_locates_its_table_pointers() {
    let t = xsdt(&[0x1000, 0x2000]);
    assert_eq!(get_sdt_table(0x5000, &t), Ok(SdtTable { n_entries: 2, base: 0x5000 + 36 }));
    let mut bad = t.clone();
    bad[0] = b'R';
    assert_eq!(
        get_sdt_table(0x5000, &bad),
        Err(acpi::Error::SignatureMismatch(acpi::Table::Xsdt))
    );
    let mut bad = t.clone();
    bad[40] ^= 1;
    assert_eq!(
        get_sdt_table(0x5000, &bad),
        Err(acpi::Error::ChecksumMismatch(acpi::Table::Xsdt))
    );
}

fn desc(typ: u32, start: u64, pages: u64) -> MemoryDescriptor {
    let mut d = MemoryDescriptor::empty();
    d.mem_type = MemoryType::from(typ);
    d.phys_addr = start;
    d.n_pages = pages;
    d
}

#[test]
fn memory_types_usable_after_exiting_boot_services() {
    assert!(MemoryType::from(7).available_post_boot_svc_exit());
    assert!(MemoryType::from(3).available_post_boot_svc_exit());
    assert!(!MemoryType::from(9).available_post_boot_svc_exit());
}

#[test]
fn free_ranges_skip_used_memory() {
    let descs = [desc(7, 0x10_0000, 2), desc(0, 0x20_0000, 1), desc(7, 0x30_0000, 1)];
    let r = free_ranges(&descs).unwrap();
    assert_eq!(r, vec![(0x10_0000, 0x10_1FFF), (0x30_0000, 0x30_0FFF)]);
    let overflow = [desc(7, u64::MAX - 0xFFF, 2)];
    assert_eq!(free_ranges(&overflow), Err(kernel::efi::memory::Error::MemoryMapOverflow));
}

#[test]
fn the_legacy_ranges_are_reserved() {
    assert_eq!(kernel::efi::memory::reserved_ranges(), [(0, 0xFFFF), (0xA0000, 0xFFFFF)]);
}
