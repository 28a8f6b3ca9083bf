//! Panic propagation between cores and soft reboot requests
//!
//! A panicking non-BSP core parks its panic and NMIs the BSP; the BSP then
//! NMIs every other online core until it halts, and waits for the user to ask
//! for a soft reboot over the serial port.

use vstd::prelude::*;
use crate::apic::ApicState;

verus! {

/// The NMI inter-processor interrupt
pub const NMI: u32 = 0x4400;

/// The serial byte requesting a halt
pub const HALT_REQUEST: u8 = 0x48;

/// The serial byte requesting a soft reboot
pub const SOFT_REBOOT_REQUEST: u8 = 0x53;

/// Whether the BSP is panicking, and which core's panic is pending: the
/// first non-BSP core that panicked, whose panic the BSP reports
#[derive(Debug, Clone, Copy, PartialEq, Eq, Structural)]
pub struct PanicState {
    bsp_panicking: bool,
    panic_pending: Option<u32>,
}

impl PanicState {
    /// Whether we're in the process of a panic on the BSP
    pub closed spec fn spec_bsp_in_panic(&self) -> bool {
        self.bsp_panicking
    }

    /// The core whose panic is pending, if any
    pub closed spec fn spec_pending(&self) -> Option<u32> {
        self.panic_pending
    }

    /// No panic yet
    pub fn new() -> (s: PanicState)
        ensures
            !s.spec_bsp_in_panic(),
            s.spec_pending() is None,
    {
        PanicState { bsp_panicking: false, panic_pending: None }
    }

    /// Returns whether we're currently in the process of a panic on the BSP
    pub fn bsp_in_panic(&self) -> (r: bool)
        ensures
            r == self.spec_bsp_in_panic(),
    {
        self.bsp_panicking
    }

    /// The core whose panic is pending, for the BSP to report
    pub fn pending(&self) -> (r: Option<u32>)
        ensures
            r == self.spec_pending(),
    {
        self.panic_pending
    }

    /// The non-BSP core `core` panics: its panic becomes the pending one
    /// unless one already is, which is kept. Returns whether it is to NMI the
    /// BSP: only when the BSP is not panicking yet and no other panic was
    /// pending
    pub fn non_bsp_panic(&mut self, core: u32) -> (notify: bool)
        ensures
            final(self).spec_pending() == (if old(self).spec_pending() is None {
                Some(core)
            } else {
                old(self).spec_pending()
            }),
            final(self).spec_bsp_in_panic() == old(self).spec_bsp_in_panic(),
            notify == (!old(self).spec_bsp_in_panic() && old(self).spec_pending() is None),
    {
        let no_panic_pending = self.panic_pending.is_none();
        if no_panic_pending {
            self.panic_pending = Some(core);
        }
        !self.bsp_panicking && no_panic_pending
    }

    /// The BSP panics
    pub fn bsp_panic(&mut self)
        ensures
            final(self).spec_bsp_in_panic(),
            final(self).spec_pending() == old(self).spec_pending(),
    {
        self.bsp_panicking = true;
    }
}

/// What a core does on an NMI
#[derive(Debug, Clone, Copy, PartialEq, Eq, Structural)]
pub enum NmiAction {
    /// The BSP is already panicking: nothing more to do
    Handled,
    /// Another core panicked: the BSP panics
    Panic,
    /// The BSP asks this core to stop: mark it halted and halt forever
    Halt,
}

/// NMIs are used in the kernel to signalize and propagate panics: what a
/// core does on one
pub fn nmi_action(is_bsp: bool, bsp_in_panic: bool) -> (a: NmiAction)
    ensures
        a == (if is_bsp && bsp_in_panic {
            NmiAction::Handled
        } else if is_bsp {
            NmiAction::Panic
        } else {
            NmiAction::Halt
        }),
{
    if is_bsp && bsp_in_panic {
        NmiAction::Handled
    } else if is_bsp {
        NmiAction::Panic
    } else {
        NmiAction::Halt
    }
}

/// What the user asked for over the serial port
#[derive(Debug, Clone, Copy, PartialEq, Eq, Structural)]
pub enum RebootRequest {
    /// Nothing
    Nothing,
    /// Halt the system
    Halt,
    /// Soft reboot the system
    SoftReboot,
}

/// The request the soft reboot timer sees, given the byte read from the
/// serial port; only the BSP takes requests
pub fn reboot_request(is_bsp: bool, byte: Option<u8>) -> (r: RebootRequest)
    ensures
        r == (if !is_bsp {
            RebootRequest::Nothing
        } else if byte == Some(HALT_REQUEST) {
            RebootRequest::Halt
        } else if byte == Some(SOFT_REBOOT_REQUEST) {
            RebootRequest::SoftReboot
        } else {
            RebootRequest::Nothing
        }),
{
    if !is_bsp {
        return RebootRequest::Nothing;
    }
    match byte {
        Some(b) => {
            if b == HALT_REQUEST {
                RebootRequest::Halt
            } else if b == SOFT_REBOOT_REQUEST {
                RebootRequest::SoftReboot
            } else {
                RebootRequest::Nothing
            }
        },
        None => RebootRequest::Nothing,
    }
}

/// Whether the panicked BSP, whose APIC ID is `bsp_id`, has to stop the core
/// `id` whose state is `state`: every other online core is
pub fn must_stop(id: u32, bsp_id: u32, state: ApicState) -> (r: bool)
    ensures
        r == (id != bsp_id && state == ApicState::Online),
{
    id != bsp_id && state == ApicState::Online
}

} // verus!
