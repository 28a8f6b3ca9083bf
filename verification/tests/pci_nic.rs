use kernel::net::drivers::intel::{
    mac_from_receive_address, mmio_phys_addr, pad_packet, probe_matches, split_high_low,
    LegacyTxDescriptor, NicRegisters, PacketPool, RxRing, TxRing,
};
use kernel::net::packet::Packet;
use kernel::pci::{
    register_addr, select_addr, BarBits, BarType, DeviceConfig, Header,
};

fn regs() -> Vec<u32> {
    vec![
        0x100E_8086, // device:vendor
        0x0010_0007, // status:command
        0x0200_0003, // class, subclass, prog if, revision
        0x0000_0010, // bist, header type, latency, cache line
        0xFEBC_0000, 0, 0x0000_C001, 0, 0, 0,
        0,           // cardbus
        0x1100_8086, // subsystem device:vendor
        0,           // expansion rom
        0x0000_00DC, // capabilities and reserved
        0,
        0x0000_010B, // interrupt pin and line
    ]
}

#[test]
fn configuration_registers_decode_little_endian() {
    let cfg = DeviceConfig::from_registers(&regs());
    assert_eq!(cfg.header.vendor_id, 0x8086);
    assert_eq!(cfg.header.device_id, 0x100E);
    assert_eq!(cfg.header.command, 7);
    assert_eq!(cfg.header.status, 0x10);
    assert_eq!(cfg.header.revision, 3);
    assert_eq!(cfg.header.class, 2);
    assert_eq!(cfg.header.cache_line_size, 0x10);
    assert!(cfg.header.is_device());
    assert_eq!(cfg.bar0, 0xFEBC_0000);
    assert_eq!(cfg.subsystem_vendor_id, 0x8086);
    assert_eq!(cfg.subsystem_device_id, 0x1100);
    assert_eq!(cfg.capabilities, 0xDC);
    assert_eq!(cfg.interrupt_line, 0x0B);
    assert_eq!(cfg.interrupt_pin, 1);
    assert_eq!(cfg.did_vid(), "0x8086:0x100e 0x8086:0x1100");
    let h = Header::from_registers(&regs()[..4]);
    assert_eq!(h, cfg.header);
}

#[test]
fn bridges_are_not_devices() {
    let mut r = regs();
    r[3] = 0x0081_0000;
    assert!(!Header::from_registers(&r).is_device());
}

#[test]
fn bars_decode_their_type_bitness_and_address() {
    assert_eq!(BarType::from_bar(0xFEBC_0000), BarType::Memory);
    assert_eq!(BarType::from_bar(0xC001), BarType::IO);
    assert_eq!(BarBits::from_bar(0xFEBC_0004), BarBits::Bit64);
    assert_eq!(BarBits::from_bar(0xFEBC_0000), BarBits::Bit32);
    assert_eq!(BarBits::u64(0xFEBC_000F, 0x12), 0xFEBC_0000);
    assert_eq!(BarBits::u64(0xFEBC_0004, 0x1F), 0xFEBC_0000_0000_0010);
    assert_eq!(BarBits::u64(0xFEB8_0004, 0x0000_0010), 0xFEB8_0000_0000_0010);
}

#[test]
fn configuration_addresses_select_bus_device_function() {
    assert_eq!(select_addr(0, 3, 0), 0x8000_1800);
    assert_eq!(select_addr(255, 31, 7), 0x80FF_FF00);
    assert_eq!(register_addr(0x8000_1800, 4), 0x8000_1810);
}

#[test]
fn the_e1000_is_probed_and_its_mmio_found() {
    let cfg = DeviceConfig::from_registers(&regs());
    assert!(probe_matches(&cfg));
    assert_eq!(mmio_phys_addr(&cfg), Some(0xFEBC_0000));
    let mut r = regs();
    r[4] = 0xC001;
    assert_eq!(mmio_phys_addr(&DeviceConfig::from_registers(&r)), None);
    r[4] = 0xFEBC_0800;
    assert_eq!(mmio_phys_addr(&DeviceConfig::from_registers(&r)), None);
}

#[test]
fn nic_registers_and_mac() {
    let r = NicRegisters::default();
    assert_eq!(r.ral, 0x5400);
    assert_eq!(r.tdt, 0x3818);
    let m = mac_from_receive_address(0x5634_1200, 0x8000_9A78);
    assert_eq!(m.0, [0x00, 0x12, 0x34, 0x56, 0x78, 0x9A]);
    assert_eq!(split_high_low(0x1_0000_0002), (1, 2));
    assert_eq!(LegacyTxDescriptor::new(0x1000, 60).cmd, 0x0B);
}

#[test]
fn the_receive_ring_hands_back_filled_descriptors() {
    let mut rx = RxRing::new();
    assert_eq!(rx.recv(0, 0, 0), None);
    assert_eq!(rx.head(), 0);
    let step = rx.recv(1, 0, 60).unwrap();
    assert_eq!((step.index, step.len, step.tail), (0, 60, 0));
    assert_eq!(rx.head(), 1);
}

#[test]
fn the_transmit_ring_fills_and_reclaims() {
    let mut tx = TxRing::new();
    assert_eq!(tx.push(false), (0, None));
    assert_eq!(tx.push(true), (1, Some(2)));
    let mut done = vec![false; 256];
    tx.reclaim(&done);
    for _ in 2..255 {
        tx.push(false);
    }
    assert!(tx.is_full());
    done[0] = true;
    tx.reclaim(&done);
    assert!(!tx.is_full());
}

#[test]
fn short_packets_are_padded_and_pooled_packets_reused() {
    let mut p = Packet::new();
    p.set_len(10);
    pad_packet(&mut p);
    assert_eq!(p.len(), 64);
    let mut pool = PacketPool::new(1);
    pool.release_packet(p);
    let q = pool.allocate_packet();
    assert_eq!(q.len(), 0);
}
