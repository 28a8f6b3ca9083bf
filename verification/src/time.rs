//! Time and timing related routines, counted in TSC ticks

use vstd::prelude::*;

verus! {

/// The TSC rate assumed until it is calibrated, in MHz
pub const DEFAULT_TSC_MHZ: u64 = 3_000;

/// The TSC tick rate and the TSC at the time of boot of the system
#[derive(Debug, Clone, Copy, PartialEq, Eq, Structural)]
pub struct TscClock {
    /// The TSC tick rate in MHz
    mhz: u64,
    /// TSC at the time of boot of the system
    start: u64,
}

impl TscClock {
    /// The TSC tick rate in MHz
    pub closed spec fn spec_mhz(&self) -> u64 {
        self.mhz
    }

    /// TSC at the time of boot of the system
    pub closed spec fn spec_start(&self) -> u64 {
        self.start
    }

    /// A clock at a relatively sane default rate, until calibrated
    pub fn new() -> (c: TscClock)
        ensures
            c.spec_mhz() == DEFAULT_TSC_MHZ,
            c.spec_start() == 0,
    {
        TscClock { mhz: DEFAULT_TSC_MHZ, start: 0 }
    }

    /// Get the TSC rate in MHz
    pub fn tsc_mhz(&self) -> (mhz: u64)
        ensures
            mhz == self.spec_mhz(),
    {
        self.mhz
    }

    /// TSC at the time of boot of the system
    pub fn start(&self) -> (t: u64)
        ensures
            t == self.spec_start(),
    {
        self.start
    }

    /// Record the calibration: the TSC at boot, and the rate measured from
    /// the `ticks` the TSC advanced while the PIT counted down from 0xFFFF,
    /// rounded to the nearest 100 MHz
    pub fn calibrated(start: u64, ticks: u64) -> (c: TscClock)
        ensures
            c.spec_mhz() == spec_rounded_rate(ticks),
            c.spec_mhz() % 100 == 0,
            c.spec_start() == start,
    {
        TscClock { mhz: rounded_rate(ticks), start }
    }

    /// Returns the TSC value `us` microseconds after the TSC value `now`
    pub fn future(&self, now: u64, us: u64) -> (t: u64)
        requires
            now + us * self.spec_mhz() <= u64::MAX,
        ensures
            t == now + us * self.spec_mhz(),
    {
        proof {
            assert(us * self.mhz <= u64::MAX) by (nonlinear_arith)
                requires
                    now + us * self.mhz <= u64::MAX,
                    0 <= now,
            ;
        }
        now + us * self.mhz
    }
}

/// Frequency of the PIT input clock, in Hz
pub const PIT_HZ: u64 = 1_193_182;

/// The TSC rate in MHz for `ticks` TSC ticks during a countdown of the PIT
/// from 0xFFFF, rounded to the nearest multiple of 100 MHz (halves up):
/// `ticks / (0xFFFF / PIT_HZ) / 10^6`, rounded
pub open spec fn spec_rounded_rate(ticks: u64) -> int {
    100 * ((2 * ticks * PIT_HZ + 0xFFFF * 100_000_000) / (2 * 0xFFFF * 100_000_000int))
}

/// The TSC rate in MHz for `ticks` TSC ticks during the PIT countdown,
/// rounded to the nearest 100 MHz
pub fn rounded_rate(ticks: u64) -> (mhz: u64)
    ensures
        mhz == spec_rounded_rate(ticks),
        mhz % 100 == 0,
{
    let t = ticks as u128;
    proof {
        assert(2 * t * 1_193_182 <= 2 * 0xFFFF_FFFF_FFFF_FFFFu128 * 1_193_182) by (nonlinear_arith)
            requires
                t <= 0xFFFF_FFFF_FFFF_FFFFu128,
        ;
    }
    let num: u128 = 2 * t * (PIT_HZ as u128) + 0xFFFF * 100_000_000;
    let q: u128 = num / (2 * 0xFFFF * 100_000_000);
    proof {
        assert(q <= 4_000_000_000_000) by (nonlinear_arith)
            requires
                q == num / 13_107_000_000_000u128,
                num <= 2 * 0xFFFF_FFFF_FFFF_FFFFu128 * 1_193_182 + 6_553_500_000_000,
        ;
    }
    (q * 100) as u64
}

/// Whether the TSC value `now` has reached `deadline`
pub fn expired(now: u64, deadline: u64) -> (r: bool)
    ensures
        r == (now >= deadline),
{
    now >= deadline
}

/// The PIT channel 0 countdown used for calibration: mode 0, from 0xFFFF
pub const PIT_COUNTDOWN: u16 = 0xFFFF;

/// Whether the PIT read-back status `status` shows the countdown done: its
/// output pin is high
pub fn pit_done(status: u8) -> (r: bool)
    ensures
        r == (status >= 0x80),
{
    assert((status & 0x80 != 0) == (status >= 0x80)) by (bit_vector);
    (status & 0x80) != 0
}

} // verus!
