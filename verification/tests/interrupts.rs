use kernel::interrupts::{IdtEntry, InterruptId, TablePtr};

#[test]
fn idt_entry_splits_the_handler_offset() {
    let e = IdtEntry::new(0x08, 0x1122_3344_5566_7788, 1, 0xE, 0);
    assert_eq!(e.offset_low, 0x7788);
    assert_eq!(e.offset_mid, 0x5566);
    assert_eq!(e.offset_high, 0x1122_3344);
    assert_eq!(e.selector, 0x08);
    assert_eq!(e.ist, 1);
    assert_eq!(e.type_attr, 0x8E);
    assert_eq!(e.zero, 0);
}

#[test]
fn interrupt_id_roundtrips_through_its_vector() {
    assert_eq!(InterruptId::from(0x0E), InterruptId::PageFault);
    assert_eq!(InterruptId::PageFault.to_u8(), 0x0E);
    assert_eq!(InterruptId::from(0x01), InterruptId::Reserved);
    assert_eq!(InterruptId::from(0x1F), InterruptId::Reserved);
    assert_eq!(InterruptId::from(0x20), InterruptId::SoftRebootTimer);
}

#[test]
fn table_ptr_keeps_limit_and_base() {
    let p = TablePtr::new(0xFFF, 0xDEAD_0000);
    assert_eq!(p.limit, 0xFFF);
    assert_eq!(p.base, 0xDEAD_0000);
}

use kernel::interrupts::{
    build_idt, get_selector_indices, AllRegs, Gdt, InterruptArgs, InterruptFrame, Interrupts,
    Tss,
};

fn empty_table() -> Interrupts<u32> {
    Interrupts::new(Tss::default(), Vec::new(), Gdt { raw: Vec::new() })
}

#[test]
fn registering_and_unregistering_handlers() {
    let mut ints = empty_table();
    ints.register(InterruptId::SoftRebootTimer, 7, true);
    assert_eq!(ints.handler_to_call(0x20, false), Some(7));
    assert!(ints.entry_outcome(0x20, false, true).send_eoi);
    ints.unregister(InterruptId::SoftRebootTimer);
    assert_eq!(ints.handler_to_call(0x20, false), None);
    assert!(!ints.entry_outcome(0x20, false, true).send_eoi);
}

#[test]
fn only_precedent_handlers_run_while_draining() {
    let mut ints = empty_table();
    ints.register(InterruptId::SoftRebootTimer, 1, true);
    ints.register_precedent(InterruptId::NonMaskableInterrupt, 2, false);
    assert_eq!(ints.handler_to_call(0x20, true), None);
    assert_eq!(ints.handler_to_call(0x02, true), Some(2));
    // A drained EOI-requiring interrupt counts as handled
    let o = ints.entry_outcome(0x20, true, false);
    assert!(o.send_eoi && !o.unhandled);
    // An unhandled interrupt not needing an EOI is fatal
    assert!(ints.entry_outcome(0x02, true, false).unhandled);
}

#[test]
fn the_kernel_table_registers_nmi_and_page_fault() {
    let ints = Interrupts::with_kernel_handlers(
        Tss::default(), Vec::new(), Gdt { raw: Vec::new() }, 10u32, 20u32);
    assert_eq!(ints.handler_to_call(2, true), Some(10));
    assert_eq!(ints.handler_to_call(14, true), Some(20));
    assert_eq!(ints.handler_to_call(0x20, false), None);
    assert_eq!(ints.eoi_bitmask(), [0, 0]);
}

#[test]
fn the_eoi_bitmask_has_a_bit_per_vector() {
    let mut ints = empty_table();
    ints.register(InterruptId::SoftRebootTimer, 1, true);
    ints.register(InterruptId::PageFault, 2, true);
    assert_eq!(ints.eoi_bitmask(), [(1 << 0x20) | (1 << 0x0E), 0]);
}

#[test]
fn exceptions_are_the_first_32_vectors() {
    let frame = InterruptFrame { rip: 0, cs: 8, rflags: 2, rsp: 0, ss: 0x10 };
    let regs = AllRegs {
        xmm15: 0, xmm14: 0, xmm13: 0, xmm12: 0, xmm11: 0, xmm10: 0, xmm9: 0, xmm8: 0,
        xmm7: 0, xmm6: 0, xmm5: 0, xmm4: 0, xmm3: 0, xmm2: 0, xmm1: 0, xmm0: 0,
        r15: 0, r14: 0, r13: 0, r12: 0, r11: 0, r10: 0, r9: 0, r8: 0,
        rbp: 0, rdi: 0, rsi: 0, rdx: 0, rcx: 0, rbx: 0, rax: 0,
    };
    assert!(InterruptArgs::new(InterruptId::PageFault, &frame, 2, &regs).is_exception());
    assert!(!InterruptArgs::new(InterruptId::SoftRebootTimer, &frame, 0, &regs).is_exception());
}

#[test]
fn the_idt_uses_the_critical_stack_for_nmi_df_and_mc() {
    let handlers: Vec<u64> = (0..256u64).map(|i| 0xFFFF_8000_0000_0000 + i * 16).collect();
    let idt = build_idt(0x38, &handlers);
    assert_eq!(idt.len(), 256);
    assert_eq!(idt[2].ist, 1);
    assert_eq!(idt[8].ist, 1);
    assert_eq!(idt[18].ist, 1);
    assert_eq!(idt[3].ist, 0);
    assert_eq!(idt[3].selector, 0x38);
    assert_eq!(idt[255].offset_low, 0x0FF0);
    assert_eq!(idt[255].offset_high, 0xFFFF_8000);
}

#[test]
fn the_gdt_is_built_around_the_current_selectors() {
    assert_eq!(get_selector_indices(0x38, 0x30), (7, 6));
    let (gdt, tss_entry) = Gdt::new(0x38, 0x30, 0x1234_5678_9ABC_DEF0);
    assert_eq!(gdt.raw.len(), 10);
    assert_eq!(gdt.raw[7], 0x0020_9A00_0000_0000);
    assert_eq!(gdt.raw[6], 0x0000_9200_0000_0000);
    assert_eq!(gdt.raw[0], 0);
    assert_eq!(tss_entry, 64);
    let base = 0x1234_5678_9ABC_DEF0u64;
    let low = 0x8900_0000_0000 | (((base >> 24) & 0xFF) << 56) | ((base & 0xFF_FFFF) << 16) | 103;
    assert_eq!(gdt.raw[8], low);
    assert_eq!(gdt.raw[9], 0x1234_5678);
}

#[test]
fn the_tss_holds_the_critical_stack() {
    let mut tss = Tss::default();
    tss.set_critical_stack(0x8000);
    assert_eq!({ tss.ist }[0], 0x8000);
    assert_eq!({ tss.ist }[1], 0);
}
