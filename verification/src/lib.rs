//! Verified core of a poll-based x86-64 kernel and its UEFI bootloader.

pub mod acpi;
pub mod apic;
pub mod boot;
pub mod bytes;
pub mod core_locals;
pub mod efi;
pub mod interrupts;
pub mod mm;
pub mod panicking;
pub mod pci;
pub mod time;
pub mod net;
