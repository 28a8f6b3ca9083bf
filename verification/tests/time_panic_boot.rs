use kernel::apic::ApicState;
use kernel::boot::{
    cr0_without_wp, image_byte, range_end, segment_byte, window_page_mask, window_page_type,
    PageType,
};
use kernel::panicking::{must_stop, nmi_action, reboot_request, NmiAction, PanicState, RebootRequest};
use kernel::time::{expired, pit_done, TscClock};

#[test]
fn the_clock_counts_microseconds_in_ticks() {
    let c = TscClock::new();
    assert_eq!(c.tsc_mhz(), 3000);
    assert_eq!(c.future(1_000, 2), 7_000);
    // 2.4 GHz ticks 131_820_839 times during the PIT countdown
    let c = TscClock::calibrated(5, 131_820_839);
    assert_eq!(c.tsc_mhz(), 2_400);
    // The rate is rounded to the nearest 100 MHz
    assert_eq!(kernel::time::rounded_rate(134_511_000), 2_400);
    assert_eq!(kernel::time::rounded_rate(134_622_000), 2_500);
    assert_eq!(c.start(), 5);
    assert!(expired(10, 10));
    assert!(!expired(9, 10));
    assert!(pit_done(0x80));
    assert!(!pit_done(0x7F));
}

#[test]
fn only_the_first_panic_of_another_core_notifies_the_bsp() {
    let mut s = PanicState::new();
    assert!(!s.bsp_in_panic());
    assert_eq!(s.pending(), None);
    assert!(s.non_bsp_panic(3));
    assert!(!s.non_bsp_panic(5));
    // The first panic is the one kept for the BSP to report
    assert_eq!(s.pending(), Some(3));
    s.bsp_panic();
    assert_eq!(s.pending(), Some(3));
    let mut s = PanicState::new();
    s.bsp_panic();
    assert!(s.bsp_in_panic());
    assert!(!s.non_bsp_panic(2));
    assert_eq!(s.pending(), Some(2));
}

#[test]
fn nmis_propagate_panics() {
    assert_eq!(nmi_action(true, true), NmiAction::Handled);
    assert_eq!(nmi_action(true, false), NmiAction::Panic);
    assert_eq!(nmi_action(false, true), NmiAction::Halt);
    assert!(must_stop(3, 0, ApicState::Online));
    assert!(!must_stop(0, 0, ApicState::Online));
    assert!(!must_stop(3, 0, ApicState::Halted));
}

#[test]
fn the_user_asks_for_a_halt_or_a_soft_reboot_over_serial() {
    assert_eq!(reboot_request(true, Some(b'H')), RebootRequest::Halt);
    assert_eq!(reboot_request(true, Some(b'S')), RebootRequest::SoftReboot);
    assert_eq!(reboot_request(true, Some(b'x')), RebootRequest::Nothing);
    assert_eq!(reboot_request(true, None), RebootRequest::Nothing);
    assert_eq!(reboot_request(false, Some(b'H')), RebootRequest::Nothing);
}

#[test]
fn segments_are_initialized_from_their_file_bytes() {
    let bytes = [1, 2, 3];
    assert_eq!(segment_byte(0x10, 0x10, &bytes), 1);
    assert_eq!(segment_byte(0x12, 0x10, &bytes), 3);
    assert_eq!(segment_byte(0x13, 0x10, &bytes), 0);
    assert_eq!(segment_byte(0x0F, 0x10, &bytes), 0);
    assert_eq!(image_byte(1, &bytes), 2);
    assert_eq!(image_byte(3, &bytes), 0);
}

#[test]
fn the_physical_window_uses_the_largest_page_available() {
    assert_eq!(window_page_type(true, true), PageType::Page1G);
    assert_eq!(window_page_type(false, true), PageType::Page2M);
    assert_eq!(window_page_type(false, false), PageType::Page4K);
    assert_eq!(window_page_mask(PageType::Page4K), 0x3);
    assert_eq!(window_page_mask(PageType::Page1G), 0x83);
    assert_eq!(PageType::Page2M.size(), 0x20_0000);
    assert_eq!(cr0_without_wp(0x8001_0033), 0x8000_0033);
    assert_eq!(range_end(0x1000, 0x10), Some(0x100F));
    assert_eq!(range_end(0x1000, 0), None);
    assert_eq!(range_end(u64::MAX, 2), None);
}

#[test]
fn the_physical_window_is_mapped_page_by_page() {
    let n = kernel::boot::window_page_count(kernel::boot::PageType::Page2M);
    assert_eq!(n, 0x8000);
    let (v, e) = kernel::boot::window_entry(kernel::boot::PageType::Page2M, 3);
    assert_eq!(v, kernel::boot::KERNEL_PHYS_WINDOW_BASE + 3 * 0x20_0000);
    assert_eq!(e, 3 * 0x20_0000 | 0x83);
    let (v, e) = kernel::boot::window_entry(kernel::boot::PageType::Page4K, 0);
    assert_eq!((v, e), (kernel::boot::KERNEL_PHYS_WINDOW_BASE, 3));
}
