use kernel::acpi::{parse_table_entries, Error, Madt, MemoryAffinity, SdtHeader, Srat, Table};

/// An SDT with the given signature whose body follows the 36-byte header
fn table(sig: &[u8; 4], body: &[u8]) -> Vec<u8> {
    let len = (36 + body.len()) as u32;
    let mut t = Vec::new();
    t.extend_from_slice(sig);
    t.extend_from_slice(&len.to_le_bytes());
    t.push(1); // revision
    t.push(0); // checksum, fixed below
    t.extend_from_slice(b"OEMID ");
    t.extend_from_slice(b"TABLEID ");
    t.extend_from_slice(&7u32.to_le_bytes());
    t.extend_from_slice(&8u32.to_le_bytes());
    t.extend_from_slice(&9u32.to_le_bytes());
    t.extend_from_slice(body);
    let sum = t.iter().fold(0u8, |a, b| a.wrapping_add(*b));
    t[9] = 0u8.wrapping_sub(sum);
    t
}

fn local_apic(id: u8, flags: u32) -> Vec<u8> {
    let mut e = vec![0, 8, 0, id];
    e.extend_from_slice(&flags.to_le_bytes());
    e
}

fn local_x2apic(id: u32, flags: u32) -> Vec<u8> {
    let mut e = vec![9, 16, 0, 0];
    e.extend_from_slice(&id.to_le_bytes());
    e.extend_from_slice(&flags.to_le_bytes());
    e.extend_from_slice(&0u32.to_le_bytes());
    e
}

#[test]
fn table_types_are_recognized_by_signature() {
    assert_eq!(Table::from_sig(b"APIC"), Table::Madt);
    assert_eq!(Table::from_sig(b"SRAT"), Table::Srat);
    assert_eq!(Table::from_sig(b"FACP"), Table::Unknown(b'F', b'A', b'C', b'P'));
}

#[test]
fn sdt_header_decodes_and_checks_the_checksum() {
    let t = table(b"APIC", &[0; 8]);
    let h = SdtHeader::parse(&t);
    assert_eq!(&h.signature, b"APIC");
    assert_eq!(h.length, 44);
    assert_eq!(h.revision, 1);
    assert_eq!(&h.oem_id, b"OEMID ");
    assert_eq!(&h.oem_table_id, b"TABLEID ");
    assert_eq!(h.oem_revision, 7);
    assert_eq!(h.creator_id, 8);
    assert_eq!(h.creator_revision, 9);
    assert!(h.checksum_valid(&t));
    let mut bad = t.clone();
    bad[40] ^= 1;
    assert!(!SdtHeader::parse(&bad).checksum_valid(&bad));
}

#[test]
fn madt_keeps_enabled_and_online_capable_apics_in_order() {
    let mut body = vec![0u8; 8];
    body.extend(local_apic(0, 1));
    body.extend(local_apic(1, 0));
    body.extend(local_apic(2, 2));
    body.extend(vec![1, 12, 0, 0, 0, 0, 0, 0, 0, 0, 0, 0]); // IO APIC, skipped
    body.extend(local_x2apic(300, 1));
    body.extend(local_x2apic(301, 0));
    let t = table(b"APIC", &body);
    let madt = Madt::parse(&t).unwrap();
    assert_eq!(madt.apics, vec![0, 2, 300]);
}

#[test]
fn madt_rejects_a_local_apic_entry_of_the_wrong_size() {
    let mut body = vec![0u8; 8];
    body.extend(vec![0, 10, 0, 1, 1, 0, 0, 0, 0, 0]);
    let t = table(b"APIC", &body);
    assert_eq!(Madt::parse(&t).unwrap_err(), Error::SizeMismatch(Table::Madt));
}

#[test]
fn entries_shorter_than_their_header_are_rejected() {
    let mut body = vec![0u8; 8];
    body.extend(vec![0, 1, 0, 0]);
    let t = table(b"APIC", &body);
    assert_eq!(parse_table_entries(&t, 8).unwrap_err(), Error::SizeMismatch(Table::Madt));
    let t = table(b"XXXX", &[0, 0, 0, 0, 0, 0, 0, 0, 5, 1]);
    assert_eq!(
        parse_table_entries(&t, 8).unwrap_err(),
        Error::SizeMismatch(Table::Unknown(b'X', b'X', b'X', b'X'))
    );
}

#[test]
fn table_entries_are_found_one_after_the_other() {
    let mut body = vec![0u8; 8];
    body.extend(local_apic(4, 1));
    body.extend(local_x2apic(5, 1));
    let t = table(b"APIC", &body);
    let es = parse_table_entries(&t, 8).unwrap();
    assert_eq!(es.len(), 2);
    assert_eq!((es[0].typ, es[0].len, es[0].start), (0, 8, 44));
    assert_eq!((es[1].typ, es[1].len, es[1].start), (9, 16, 52));
    assert_eq!(es[1].read_u32(&t, 4), 5);
    assert_eq!(es[0].read_u8(&t, 3), 4);
}

fn srat_apic(id: u8, domain: u32, flags: u32) -> Vec<u8> {
    let d = domain.to_le_bytes();
    let mut e = vec![0, 16, d[0], id];
    e.extend_from_slice(&flags.to_le_bytes());
    e.push(0);
    e.extend_from_slice(&d[1..4]);
    e.extend_from_slice(&[0, 0, 0, 0]);
    e
}

fn srat_memory(domain: u32, start: u64, len: u64, flags: u32) -> Vec<u8> {
    let mut e = vec![1, 40];
    e.extend_from_slice(&domain.to_le_bytes());
    e.extend_from_slice(&[0, 0]);
    e.extend_from_slice(&start.to_le_bytes());
    e.extend_from_slice(&len.to_le_bytes());
    e.extend_from_slice(&[0, 0, 0, 0]);
    e.extend_from_slice(&flags.to_le_bytes());
    e.extend_from_slice(&[0; 8]);
    e
}

fn srat_x2apic(id: u32, domain: u32, flags: u32) -> Vec<u8> {
    let mut e = vec![2, 24, 0, 0];
    e.extend_from_slice(&domain.to_le_bytes());
    e.extend_from_slice(&id.to_le_bytes());
    e.extend_from_slice(&flags.to_le_bytes());
    e.extend_from_slice(&[0; 8]);
    e
}

#[test]
fn srat_maps_apics_and_memory_to_domains() {
    let mut body = vec![0u8; 12];
    body.extend(srat_apic(1, 0x0102_0304, 1));
    body.extend(srat_apic(2, 7, 0));
    body.extend(srat_memory(3, 0x1000, 0x2000, 1));
    body.extend(srat_memory(4, 0x9000, 0, 1));
    body.extend(srat_x2apic(500, 6, 1));
    let t = table(b"SRAT", &body);
    let srat = Srat::parse(&t).unwrap();
    assert_eq!(srat.apic_to_domain.get(&1), Some(&0x0102_0304));
    assert_eq!(srat.apic_to_domain.get(&2), None);
    assert_eq!(srat.apic_to_domain.get(&500), Some(&6));
    assert_eq!(
        srat.memory_affinities,
        vec![MemoryAffinity { domain: 3, start: 0x1000, end: 0x2fff }]
    );
}

#[test]
fn srat_rejects_a_memory_range_past_the_address_space() {
    let mut body = vec![0u8; 12];
    body.extend(srat_memory(0, u64::MAX, 2, 1));
    let t = table(b"SRAT", &body);
    assert_eq!(Srat::parse(&t).unwrap_err(), Error::MemoryAffinityOverflow);
}

#[test]
fn srat_rejects_an_entry_of_the_wrong_size() {
    let mut body = vec![0u8; 12];
    body.extend(vec![2, 20, 0, 0, 0, 0, 0, 0, 0, 0, 0, 0, 0, 0, 0, 0, 0, 0, 0, 0]);
    let t = table(b"SRAT", &body);
    assert_eq!(Srat::parse(&t).unwrap_err(), Error::SizeMismatch(Table::Srat));
}
