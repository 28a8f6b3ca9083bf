//! APIC and IO APIC implementations, and the tracking of the state of every
//! APIC on the system

pub mod local;
pub mod ioapic;

pub use local::LocalApic;

use vstd::prelude::*;

verus! {

/// The real mode address where the AP entry code is mapped
pub const ENTRY_ADDR: u16 = 0x8000;

/// The INIT inter-processor interrupt
pub const INIT_IPI: u32 = 0x4500;

/// The startup inter-processor interrupt, without its vector
pub const STARTUP_IPI: u32 = 0x4600;

/// The possible states of APICs
#[derive(Debug, Clone, Copy, PartialEq, Eq, Structural)]
pub enum ApicState {
    /// The core is registered in the kernel and is running
    Online,
    /// The core has been launched but is yet to run within the kernel
    Launched,
    /// The core is present but has not yet been launched
    Offline,
    /// This APIC ID does not exist
    Nonexistent,
    /// This APIC ID has disabled interrupts and is halted forever
    Halted,
}

impl ApicState {
    /// The raw `u8` that encodes this state
    pub open spec fn value(self) -> u8 {
        match self {
            ApicState::Online => 1,
            ApicState::Launched => 2,
            ApicState::Offline => 3,
            ApicState::Nonexistent => 4,
            ApicState::Halted => 5,
        }
    }

    /// The raw `u8` that encodes this state
    pub fn to_u8(&self) -> (v: u8)
        ensures
            v == self.value(),
    {
        match self {
            ApicState::Online => 1,
            ApicState::Launched => 2,
            ApicState::Offline => 3,
            ApicState::Nonexistent => 4,
            ApicState::Halted => 5,
        }
    }

    /// Convert a raw `u8` into an `ApicState`
    pub fn from(val: u8) -> (s: ApicState)
        requires
            1 <= val <= 5,
        ensures
            s.value() == val,
    {
        match val {
            1 => ApicState::Online,
            2 => ApicState::Launched,
            3 => ApicState::Offline,
            4 => ApicState::Nonexistent,
            _ => ApicState::Halted,
        }
    }
}

/// Decoding the encoding of a state gives the state back
pub proof fn lemma_apic_state_roundtrip(s: ApicState, t: ApicState)
    ensures
        1 <= s.value() <= 5,
        s.value() == t.value() ==> s == t,
{
}

/// The state of every APIC ID up to the largest one on the system, and the
/// number of cores that checked in
pub struct ApicStates {
    states: Vec<ApicState>,
    checked_in: u32,
    total_cores: u32,
}

impl ApicStates {
    /// The state of each APIC ID
    pub closed spec fn view_states(&self) -> Seq<ApicState> {
        self.states@
    }

    /// Number of cores which have checked in
    pub closed spec fn spec_checked_in(&self) -> u32 {
        self.checked_in
    }

    /// The total amount of cores on the system
    pub closed spec fn spec_total_cores(&self) -> u32 {
        self.total_cores
    }

    /// The states of the APIC IDs from 0 up to `max_id`, none of which exists
    /// yet
    pub fn new(max_id: u32) -> (s: ApicStates)
        requires
            max_id < usize::MAX,
        ensures
            s.view_states().len() == max_id + 1,
            forall|i: int| 0 <= i <= max_id ==> #[trigger] s.view_states()[i] == ApicState::Nonexistent,
            s.spec_checked_in() == 0,
            s.spec_total_cores() == 0,
    {
        let mut states: Vec<ApicState> = Vec::new();
        let n = max_id as usize + 1;
        while states.len() < n
            invariant
                states@.len() <= n,
                n == max_id + 1,
                forall|i: int| 0 <= i < states@.len() ==> #[trigger] states@[i] == ApicState::Nonexistent,
            decreases n - states@.len(),
        {
            states.push(ApicState::Nonexistent);
        }
        ApicStates { states, checked_in: 0, total_cores: 0 }
    }

    /// Number of APIC IDs tracked
    pub fn len(&self) -> (n: usize)
        ensures
            n == self.view_states().len(),
    {
        self.states.len()
    }

    /// Number of cores which have checked in
    pub fn checked_in(&self) -> (n: u32)
        ensures
            n == self.spec_checked_in(),
    {
        self.checked_in
    }

    /// The total amount of cores on the system
    pub fn total_cores(&self) -> (n: u32)
        ensures
            n == self.spec_total_cores(),
    {
        self.total_cores
    }

    /// Whether every core on the system has checked in
    pub fn all_checked_in(&self) -> (r: bool)
        ensures
            r == (self.spec_checked_in() == self.spec_total_cores()),
    {
        self.checked_in == self.total_cores
    }
}

/// Set the current execution state of a given APIC ID
pub fn set_core_state(states: &mut ApicStates, id: u32, state: ApicState)
    requires
        id < old(states).view_states().len(),
    ensures
        final(states).view_states() == old(states).view_states().update(id as int, state),
        final(states).spec_checked_in() == old(states).spec_checked_in(),
        final(states).spec_total_cores() == old(states).spec_total_cores(),
{
    states.states.set(id as usize, state);
}

/// Get the APIC state of a given APIC ID
pub fn core_state(states: &ApicStates, id: u32) -> (s: ApicState)
    requires
        id < states.view_states().len(),
    ensures
        s == states.view_states()[id as int],
{
    states.states[id as usize]
}

/// The states after the system's APICs are registered: every functional
/// APIC of `apics` is offline and the current core `cur_id` is online
pub open spec fn spec_registered(states: Seq<ApicState>, apics: Seq<u32>, cur_id: u32) -> Seq<
    ApicState,
> {
    Seq::new(
        states.len(),
        |i: int|
            if i == cur_id {
                ApicState::Online
            } else if exists|k: int| 0 <= k < apics.len() && apics[k] == i {
                ApicState::Offline
            } else {
                states[i]
            },
    )
}

/// Initialize the state of all functional APICs, mark the current core as
/// online and save the total number of cores on the system, which the
/// check-in waits for
pub fn init_system_states(states: &mut ApicStates, apics: &[u32], cur_id: u32)
    requires
        forall|i: int| 0 <= i < apics@.len() ==> #[trigger] apics@[i] < old(states).view_states().len(),
        cur_id < old(states).view_states().len(),
        apics@.len() <= u32::MAX,
    ensures
        final(states).view_states() == spec_registered(old(states).view_states(), apics@, cur_id),
        final(states).spec_total_cores() == apics@.len(),
        final(states).spec_checked_in() == old(states).spec_checked_in(),
{
    let ghost orig = states.states@;
    let mut i: usize = 0;
    while i < apics.len()
        invariant
            i <= apics@.len(),
            states.states@.len() == orig.len(),
            forall|k: int| 0 <= k < apics@.len() ==> #[trigger] apics@[k] < orig.len(),
            forall|j: int|
                0 <= j < orig.len() ==> #[trigger] states.states@[j] == (if exists|k: int|
                    0 <= k < i && apics@[k] == j {
                    ApicState::Offline
                } else {
                    orig[j]
                }),
            states.checked_in == old(states).checked_in,
        decreases apics@.len() - i,
    {
        let id = apics[i];
        let ghost prev = states.states@;
        states.states.set(id as usize, ApicState::Offline);
        proof {
            assert forall|j: int| 0 <= j < orig.len() implies #[trigger] states.states@[j] == (
            if exists|k: int| 0 <= k < i + 1 && apics@[k] == j {
                ApicState::Offline
            } else {
                orig[j]
            }) by {
                if j == id {
                    assert(apics@[i as int] == j);
                } else {
                    assert(states.states@[j] == prev[j]);
                    if exists|k: int| 0 <= k < i + 1 && apics@[k] == j {
                        let k = choose|k: int| 0 <= k < i + 1 && apics@[k] == j;
                        assert(k < i);
                    }
                }
            }
        }
        i = i + 1;
    }
    states.states.set(cur_id as usize, ApicState::Online);
    states.total_cores = apics.len() as u32;
    assert(states.states@ =~= spec_registered(orig, apics@, cur_id));
}

/// The APICs to launch: every one of `apics` but the current core's
pub fn cores_to_launch(apics: &[u32], cur_id: u32) -> (r: Vec<u32>)
    ensures
        r@ == apics@.filter(|id: u32| id != cur_id),
{
    let mut r: Vec<u32> = Vec::new();
    let mut i: usize = 0;
    while i < apics.len()
        invariant
            i <= apics@.len(),
            r@ == apics@.take(i as int).filter(|id: u32| id != cur_id),
        decreases apics@.len() - i,
    {
        proof {
            let s1 = apics@.take(i + 1);
            assert(s1.drop_last() =~= apics@.take(i as int));
            assert(s1.last() == apics@[i as int]);
            reveal(Seq::filter);
        }
        if apics[i] != cur_id {
            r.push(apics[i]);
        }
        i = i + 1;
    }
    assert(apics@.take(i as int) =~= apics@);
    r
}

/// The startup inter-processor interrupt pointing the AP at the entry code
pub fn startup_ipi() -> (ipi: u32)
    ensures
        ipi == STARTUP_IPI + ENTRY_ADDR / 0x1000,
{
    STARTUP_IPI + (ENTRY_ADDR / 0x1000) as u32
}

/// Check in that the core `apic_id` has booted: transition it from launched
/// to online and count it. The BSP is already online; any other core must be
/// launched.
///
/// Returns the state the core was in.
pub fn check_in(states: &mut ApicStates, apic_id: u32, is_bsp: bool) -> (old_state: ApicState)
    requires
        apic_id < old(states).view_states().len(),
        is_bsp ==> old(states).view_states()[apic_id as int] == ApicState::Online,
        !is_bsp ==> old(states).view_states()[apic_id as int] == ApicState::Launched,
        old(states).spec_total_cores() != 0,
        old(states).spec_checked_in() < u32::MAX,
    ensures
        old_state == old(states).view_states()[apic_id as int],
        final(states).view_states() == old(states).view_states().update(
            apic_id as int,
            ApicState::Online,
        ),
        final(states).spec_checked_in() == old(states).spec_checked_in() + 1,
        final(states).spec_total_cores() == old(states).spec_total_cores(),
{
    // Transition from launched to online
    let old_state = states.states[apic_id as usize];
    if old_state == ApicState::Launched {
        states.states.set(apic_id as usize, ApicState::Online);
    }
    assert(states.states@ =~= old(states).states@.update(apic_id as int, ApicState::Online));

    // Check in!
    states.checked_in = states.checked_in + 1;
    old_state
}

} // verus!
