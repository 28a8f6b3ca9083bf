use kernel::apic::ioapic::{gsi_routing, GsiError, GsiRange};
use kernel::apic::ioapic::{self, Uninitialized};
use kernel::apic::local::{
    bank_bits, eoi_pending, init_apic_base, none_in_service, ApicMode, IcrWrite, LocalApic,
    OrigState, Register, RegisterAccess, TimerState,
};
use kernel::apic::{
    check_in, core_state, cores_to_launch, init_system_states, set_core_state, startup_ipi,
    ApicState, ApicStates,
};

fn apic(mode: ApicMode) -> LocalApic {
    LocalApic {
        mode,
        orig: OrigState {
            ia32_apic_base: 0xFEE0_0900,
            svr: 0xFF,
            pic_a1: 0xFF,
            pic_21: 0xFB,
            timer: TimerState { dcr: 0, icr: 0, lvt: 0x1_0000 },
        },
    }
}

#[test]
fn apic_states_roundtrip_through_their_encoding() {
    for v in 1..=5u8 {
        assert_eq!(ApicState::from(v).to_u8(), v);
    }
    assert_eq!(ApicState::from(1), ApicState::Online);
    assert_eq!(ApicState::from(5), ApicState::Halted);
}

#[test]
fn registered_apics_are_offline_and_the_current_core_online() {
    let mut states = ApicStates::new(7);
    assert_eq!(states.len(), 8);
    init_system_states(&mut states, &[0, 3, 5], 0);
    assert_eq!(core_state(&states, 0), ApicState::Online);
    assert_eq!(core_state(&states, 3), ApicState::Offline);
    assert_eq!(core_state(&states, 5), ApicState::Offline);
    assert_eq!(core_state(&states, 4), ApicState::Nonexistent);
    assert_eq!(states.total_cores(), 3);
    assert_eq!(cores_to_launch(&[0, 3, 5], 0), vec![3, 5]);
}

#[test]
fn a_launched_core_checks_in_online() {
    let mut states = ApicStates::new(3);
    init_system_states(&mut states, &[0, 1], 0);
    set_core_state(&mut states, 1, ApicState::Launched);
    assert_eq!(check_in(&mut states, 0, true), ApicState::Online);
    assert!(!states.all_checked_in());
    assert_eq!(check_in(&mut states, 1, false), ApicState::Launched);
    assert_eq!(core_state(&states, 1), ApicState::Online);
    assert_eq!(states.checked_in(), 2);
    assert!(states.all_checked_in());
}

#[test]
fn the_startup_ipi_points_at_the_entry_code() {
    assert_eq!(startup_ipi(), 0x4608);
}

#[test]
fn register_accesses_go_to_mmio_or_msrs() {
    assert_eq!(apic(ApicMode::Apic).access(Register::EndOfInterrupt), RegisterAccess::Mmio(0x2c));
    assert_eq!(apic(ApicMode::X2Apic).access(Register::EndOfInterrupt), RegisterAccess::Msr(0x80b));
    assert_eq!(apic(ApicMode::X2Apic).access(Register::Irr7), RegisterAccess::Msr(0x827));
    assert_eq!(Register::DivideConfiguration.to_u16(), 0x3E0);
}

#[test]
fn the_apic_id_is_read_by_mode() {
    assert_eq!(apic(ApicMode::Apic).id(0x0300_0000), 3);
    assert_eq!(apic(ApicMode::X2Apic).id(0x0300_0000), 0x0300_0000);
}

#[test]
fn ipi_commands_place_the_destination_by_mode() {
    assert_eq!(apic(ApicMode::Apic).ipi_command(2, 0x4500), 0x0200_0000_0000_4500);
    assert_eq!(apic(ApicMode::X2Apic).ipi_command(2, 0x4500), 0x0000_0002_0000_4500);
    assert_eq!(
        apic(ApicMode::Apic).icr_write(0x0200_0000_0000_4500),
        IcrWrite::Mmio { high_index: 0xC4, high: 0x0200_0000, low_index: 0xC0, low: 0x4500 }
    );
    assert_eq!(
        apic(ApicMode::X2Apic).icr_write(7),
        IcrWrite::Msr { msr: 0x830, value: 7 }
    );
}

#[test]
fn reset_keeps_x2apic_mode() {
    assert_eq!(apic(ApicMode::X2Apic).restored_apic_base(), 0xFEE0_0D00);
    assert_eq!(apic(ApicMode::Apic).restored_apic_base(), 0xFEE0_0900);
    assert_eq!(LocalApic::reboot_timer_lvt(), 0x2_0020);
    assert_eq!(LocalApic::masked_timer_lvt(0x20), 0x1_0020);
}

#[test]
fn banks_join_lowest_register_first() {
    let regs = [1, 2, 3, 4, 5, 6, 7, 0x8000_0000];
    let b = bank_bits(&regs);
    assert_eq!(b[0], 1 | (2 << 32) | (3 << 64) | (4u128 << 96));
    assert_eq!(b[1], 5 | (6 << 32) | (7 << 64) | (0x8000_0000u128 << 96));
    assert!(eoi_pending(&[0, 1 << 100], &[0, 1 << 100]));
    assert!(!eoi_pending(&[1, 0], &[2, 0]));
    assert!(none_in_service(&[0, 0]));
    assert!(!none_in_service(&[0, 1]));
}

#[test]
fn init_base_moves_the_apic_and_enables_it() {
    assert_eq!(init_apic_base(0x1234_5000 | 0x900, false), 0xFEE0_0900);
    assert_eq!(init_apic_base(0x1234_5000 | 0x900, true), 0xFEE0_0D00);
}

#[test]
fn ioapic_redirection_registers() {
    assert_eq!(ioapic::redir_registers(0), (0x10, 0x11));
    assert_eq!(ioapic::redir_registers(23), (0x3E, 0x3F));
    assert_eq!(ioapic::join_redir(0x1234, 0xABCD), 0xABCD_0000_1234);
    assert_eq!(ioapic::split_redir(0xABCD_0000_1234_5678), (0x1234_5678, 0xABCD_0000));
    let (lo, hi) = ioapic::split_redir(0xABCD_0000_1234_5678);
    assert_eq!(ioapic::join_redir(lo, hi), 0xABCD_0000_1234_5678);
    assert_eq!(ioapic::Register::Ver.to_u8(), 1);
    let u = Uninitialized::new(1, 0xFEC0_0000, 24);
    assert_eq!(u.gsi_range(0x0017_0020), (24, 24 + 0x17));
}

fn gsi(id: u8, start: u32, end: u32) -> GsiRange {
    GsiRange { id, start, end }
}

#[test]
fn gsis_are_routed_to_the_io_apics_sorted_by_first_gsi() {
    let (sorted, map) = gsi_routing(&[gsi(0, 0, 3)]).unwrap();
    assert_eq!(sorted, vec![gsi(0, 0, 3)]);
    // A range routes its GSIs up to, not including, its last one
    assert_eq!(map, vec![0, 0, 0]);
    // So the last GSI of an IO APIC below another one is routed by none
    assert_eq!(gsi_routing(&[gsi(1, 4, 7), gsi(0, 0, 3)]), Err(GsiError::Unhandled(3)));
}

#[test]
fn overlapping_or_missing_gsis_are_refused() {
    assert_eq!(gsi_routing(&[gsi(3, 0, 23), gsi(4, 20, 30)]), Err(GsiError::Overlap(3, 4)));
    assert_eq!(gsi_routing(&[gsi(4, 20, 30), gsi(3, 0, 23)]), Err(GsiError::Overlap(3, 4)));
    assert_eq!(gsi_routing(&[gsi(0, 0, 3), gsi(1, 6, 9)]), Err(GsiError::Unhandled(3)));
    assert_eq!(gsi_routing(&[]).unwrap(), (vec![], vec![]));
}
