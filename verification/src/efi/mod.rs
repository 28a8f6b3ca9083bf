//! UEFI definitions used by the bootloader

pub mod status;

pub use status::{Warning, Error, Status, spec_status_from, spec_error_from, spec_warning_from};
pub mod memory;
pub mod efi;
pub mod acpi;

pub use efi::{Guid, TableHeader, ConfigTable};
