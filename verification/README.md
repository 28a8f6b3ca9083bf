# kernel

The verified core of a poll-based x86-64 kernel and of the UEFI bootloader
that loads it.

- `src/` is the library, verified by Verus: ACPI table parsing, the APIC
  and IO APIC bookkeeping, interrupt and GDT tables, the kernel allocator's
  free lists, EFI status codes and memory maps, PCI configuration decoding,
  the network stack (Ethernet, ARP, IPv4, IPv6, UDP, TCP, DHCP, the Intel
  NIC rings) and the decisions of the panic and soft reboot path.
- `app/` is the machine around it: port and MMIO accesses, the firmware
  interfaces, and the loops that wait on devices, driving the library's
  state machines.
- `tests/` runs the library on concrete values.
