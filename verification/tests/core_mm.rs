use kernel::core_locals::{free_list_index, CoreLocals};
use kernel::acpi::MemoryAffinity;
use kernel::mm::{register_numa, FreeList, GlobalAllocator, PhysWindow, VirtReservations};
use std::collections::BTreeMap;

#[test]
fn free_lists_are_picked_by_the_smallest_fitting_power_of_two() {
    assert_eq!(free_list_index(1, 1), 0);
    assert_eq!(free_list_index(8, 8), 0);
    assert_eq!(free_list_index(9, 8), 1);
    assert_eq!(free_list_index(16, 16), 1);
    assert_eq!(free_list_index(4096, 4096), 9);
    assert_eq!(free_list_index(4097, 4096), 10);
    assert_eq!(free_list_index(1 << 63, 1), 60);
}

#[test]
fn interrupts_are_enabled_when_the_last_request_is_withdrawn() {
    let mut c = CoreLocals::new(0);
    assert!(c.is_bsp());
    c.disable_interrupts();
    c.disable_interrupts();
    assert!(!c.enable_interrupts());
    assert!(c.enable_interrupts());
    c.disable_interrupts();
    c.enter_interrupt();
    assert!(c.in_interrupt());
    assert!(!c.enable_interrupts());
    c.exit_interrupt();
    assert!(!c.in_interrupt());
}

#[test]
fn core_locals_track_the_apic_id_and_exceptions() {
    let mut c = CoreLocals::new(3);
    assert!(!c.is_bsp());
    assert_eq!(c.apic_id(), None);
    c.set_apic_id(9);
    assert_eq!(c.apic_id(), Some(9));
    c.enter_exception();
    assert!(c.in_exception());
    c.exit_exception();
    assert!(!c.in_exception());
}

#[test]
fn freed_blocks_come_back_last_first() {
    let mut f = FreeList::new(64);
    assert!(f.is_empty());
    assert_eq!(f.pop(), None);
    f.push(0x1000);
    f.push(0x2000);
    f.push(0x3000);
    assert_eq!(f.pop(), Some(0x3000));
    assert_eq!(f.pop(), Some(0x2000));
    f.push(0x4000);
    assert_eq!(f.pop(), Some(0x4000));
    assert_eq!(f.pop(), Some(0x1000));
    assert!(f.is_empty());
}

#[test]
fn small_blocks_use_a_linked_list() {
    let mut f = FreeList::new(8);
    f.push(0x10);
    f.push(0x18);
    assert_eq!(f.pop(), Some(0x18));
    assert_eq!(f.pop(), Some(0x10));
    assert_eq!(f.pop(), None);
}

#[test]
fn a_page_is_split_into_blocks() {
    let mut f = FreeList::new(1024);
    f.allocate_page_for_blocks(0x10_0000);
    assert_eq!(f.pop(), Some(0x10_0C00));
    assert_eq!(f.pop(), Some(0x10_0800));
    assert_eq!(f.pop(), Some(0x10_0400));
    assert_eq!(f.pop(), Some(0x10_0000));
    assert_eq!(f.pop(), None);
}

#[test]
fn the_physical_window_translates_ranges_inside_it() {
    let w = PhysWindow { base: 0xFFFF_8000_0000_0000, size: 0x1_0000_0000 };
    assert_eq!(w.phys_ptr(0x1000), 0xFFFF_8000_0000_1000);
    assert_eq!(w.translate(0x1000, 0x10), Some(0xFFFF_8000_0000_1000));
    assert_eq!(w.translate(0x1000, 0), None);
    assert_eq!(w.translate(0xFFFF_FFFF, 2), None);
    assert_eq!(w.translate(0xFFFF_FFFF, 1), Some(0xFFFF_8000_FFFF_FFFF));
}

#[test]
fn virtual_reservations_are_separated_by_a_guard() {
    let mut r = VirtReservations::new(0x10_0000, 0x1000);
    assert_eq!(r.receive_vaddr_4k(0x2000), 0x10_0000);
    assert_eq!(r.receive_vaddr_4k(0x1000), 0x10_3000);
}

#[test]
fn the_allocator_serves_each_size_from_its_class() {
    let mut a = GlobalAllocator::new();
    // Nothing free yet: the list of 64-byte blocks has to be refilled
    assert_eq!(a.allocate(40, 8), None);
    a.refill(40, 8, 0x10_0000);
    assert_eq!(a.allocate(40, 8), Some(0x10_0000 + 63 * 64));
    assert_eq!(a.allocate(64, 64), Some(0x10_0000 + 62 * 64));
    // Other classes are untouched
    assert_eq!(a.allocate(65, 8), None);
    // A freed block is handed out next
    a.deallocate(0x20_0000, 33, 1);
    assert_eq!(a.allocate(50, 1), Some(0x20_0000));
}

#[test]
fn a_domains_memory_goes_to_its_first_apic() {
    let mut ad = BTreeMap::new();
    ad.insert(0, 0);
    ad.insert(1, 1);
    ad.insert(2, 0);
    ad.insert(3, 7);
    let m0 = MemoryAffinity { domain: 0, start: 0, end: 0xFFFF };
    let m1 = MemoryAffinity { domain: 1, start: 0x10000, end: 0x1FFFF };
    let m0b = MemoryAffinity { domain: 0, start: 0x20000, end: 0x2FFFF };
    let r = register_numa(&ad, &[m0, m1, m0b], 4);
    assert_eq!(r.len(), 5);
    assert_eq!(r[0], Some(vec![m0, m0b]));
    assert_eq!(r[1], Some(vec![m1]));
    // APIC 2 shares domain 0 with APIC 0, domain 7 has no memory, APIC 4
    // has no domain
    assert_eq!(r[2], None);
    assert_eq!(r[3], None);
    assert_eq!(r[4], None);
}
