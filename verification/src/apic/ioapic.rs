//! IO APIC register layout and GSI routing
//!
//! Registers are reached through a selector at offset 0x00 and a window at
//! offset 0x10 of the MMIO page; the redirection entries are pairs of 32-bit
//! registers from 0x10 on. Every GSI is routed to the one IO APIC whose
//! range holds it.

use vstd::prelude::*;

verus! {

/// Register Select offset into mmio
pub const REG_SEL: usize = 0x00;

/// Register Window offset into mmio
pub const REG_WIN: usize = 0x10;

/// IO APIC registers (offsets into MMIO space)
#[derive(Debug, Clone, Copy, PartialEq, Eq, Structural)]
pub enum Register {
    /// ID register
    Id,
    /// Version register
    Ver,
    /// Arbitration register
    Arb,
}

impl Register {
    /// The selector value of this register
    pub open spec fn value(self) -> u8 {
        match self {
            Register::Id => 0x00,
            Register::Ver => 0x01,
            Register::Arb => 0x02,
        }
    }

    /// The selector value of this register
    pub fn to_u8(&self) -> (v: u8)
        ensures
            v == self.value(),
    {
        match self {
            Register::Id => 0x00,
            Register::Ver => 0x01,
            Register::Arb => 0x02,
        }
    }
}

/// An IO APIC that has yet to be initialized
#[derive(Debug, Clone, Copy, PartialEq, Eq, Structural)]
pub struct Uninitialized {
    /// The ID of this IO APIC
    pub id: u8,
    /// The physical address where the MMIO will be mapped
    pub addr: u64,
    /// The first GSI this IO APIC will handle
    pub gsi_base: u32,
}

impl Uninitialized {
    /// Return a new uninitialized IO APIC
    pub fn new(id: u8, addr: u64, gsi_base: u32) -> (u: Uninitialized)
        ensures
            u.id == id,
            u.addr == addr,
            u.gsi_base == gsi_base,
    {
        Uninitialized { id, addr, gsi_base }
    }

    /// The GSIs handled by this IO APIC, from its first one to the last one,
    /// given the value `ver` of its version register
    pub fn gsi_range(&self, ver: u32) -> (r: (u32, u32))
        requires
            self.gsi_base + (ver / 0x1_0000) % 0x100 <= u32::MAX,
        ensures
            r.0 == self.gsi_base,
            r.1 == self.gsi_base + (ver / 0x1_0000) % 0x100,
    {
        let gsi_n = (ver >> 16) & 0xFF;
        assert(gsi_n == (ver / 0x1_0000) % 0x100) by (bit_vector)
            requires
                gsi_n == (ver >> 16) & 0xFF,
        ;
        (self.gsi_base, self.gsi_base + gsi_n)
    }
}

/// The selector values of the low and the high half of the redirection
/// `entry`
pub fn redir_registers(entry: u8) -> (r: (u8, u8))
    requires
        entry <= 119,
    ensures
        r.0 == 0x10 + 2 * entry,
        r.1 == 0x10 + 1 + 2 * entry,
{
    (0x10 + 2 * entry, 0x10 + 1 + 2 * entry)
}

/// The redirection entry whose low register holds `lower` and high register
/// holds `upper`
pub fn join_redir(lower: u32, upper: u32) -> (v: u64)
    ensures
        v == upper * 0x1_0000_0000 + lower,
{
    let hi = (upper as u64) << 32;
    assert(hi == (upper as u64) * 0x1_0000_0000) by (bit_vector)
        requires
            hi == (upper as u64) << 32,
    ;
    hi + lower as u64
}

/// The values written to the low and the high register of a redirection
/// entry to store `val`: its low and its high 32 bits
pub fn split_redir(val: u64) -> (r: (u32, u32))
    ensures
        r.0 == val % 0x1_0000_0000,
        r.1 == val / 0x1_0000_0000,
        r.1 * 0x1_0000_0000 + r.0 == val,
{
    let lo = (val & 0xFFFF_FFFF) as u32;
    let hi = (val >> 32) as u32;
    assert(lo == val % 0x1_0000_0000) by (bit_vector)
        requires
            lo == (val & 0xFFFF_FFFF) as u32,
    ;
    assert(hi == val / 0x1_0000_0000) by (bit_vector)
        requires
            hi == (val >> 32) as u32,
    ;
    assert(val == (val / 0x1_0000_0000) * 0x1_0000_0000 + val % 0x1_0000_0000) by (nonlinear_arith);
    (lo, hi)
}

/// The GSIs an initialized IO APIC handles: its ID and its first and last GSI
#[derive(Debug, Clone, Copy, PartialEq, Eq, Structural)]
pub struct GsiRange {
    /// The ID of the IO APIC
    pub id: u8,
    /// The first GSI it handles
    pub start: u32,
    /// The last GSI it handles
    pub end: u32,
}

/// Why the GSIs of the IO APICs cannot be routed
#[derive(Debug, Clone, Copy, PartialEq, Eq, Structural)]
pub enum GsiError {
    /// The GSIs of the IO APICs with these IDs overlap
    Overlap(u8, u8),
    /// This GSI is handled by no IO APIC
    Unhandled(u32),
}

/// Whether the GSIs of `a` and `b` overlap
pub open spec fn gsi_overlap(a: GsiRange, b: GsiRange) -> bool {
    a.start <= b.end && b.start <= a.end
}

/// Whether the ranges of `s` go by increasing first GSI
pub open spec fn sorted_by_start(s: Seq<GsiRange>) -> bool {
    forall|i: int, j: int| 0 <= i < j < s.len() ==> #[trigger] s[i].start <= #[trigger] s[j].start
}

/// Whether two of the ranges of `s` overlap
pub open spec fn any_overlap(s: Seq<GsiRange>) -> bool {
    exists|i: int, j: int|
        0 <= i < s.len() && 0 <= j < s.len() && i != j && #[trigger] gsi_overlap(s[i], s[j])
}

/// The largest last GSI of the ranges of `s`, or 0
pub open spec fn max_end(s: Seq<GsiRange>) -> u32
    decreases s.len(),
{
    if s.len() == 0 {
        0
    } else {
        let m = max_end(s.drop_last());
        if s.last().end > m {
            s.last().end
        } else {
            m
        }
    }
}

/// Whether the range `r` is the one routing the GSI `g`: the GSIs from its
/// first one up to, and not including, its last one are
pub open spec fn routes(r: GsiRange, g: int) -> bool {
    r.start <= g < r.end
}

/// Whether one of the ranges of `s` routes the GSI `g`
pub open spec fn routed(s: Seq<GsiRange>, g: int) -> bool {
    exists|k: int| 0 <= k < s.len() && #[trigger] routes(s[k], g)
}

/// Sort the ranges by their first GSI
fn sort_by_start(v: &[GsiRange]) -> (r: Vec<GsiRange>)
    ensures
        r@.to_multiset() == v@.to_multiset(),
        sorted_by_start(r@),
{
    broadcast use vstd::seq_lib::group_to_multiset_ensures;

    let mut r: Vec<GsiRange> = Vec::new();
    let mut i: usize = 0;
    while i < v.len()
        invariant
            i <= v@.len(),
            r@.to_multiset() == v@.take(i as int).to_multiset(),
            sorted_by_start(r@),
        decreases v@.len() - i,
    {
        let x = v[i];
        // The first position whose range starts after `x`
        let mut p: usize = 0;
        while p < r.len() && r[p].start <= x.start
            invariant
                p <= r@.len(),
                forall|k: int| 0 <= k < p ==> (#[trigger] r@[k]).start <= x.start,
            decreases r@.len() - p,
        {
            p = p + 1;
        }
        let ghost old_r = r@;
        r.insert(p, x);
        proof {
            old_r.insert_ensures(p as int, x);
            assert(r@ == old_r.insert(p as int, x));
            vstd::seq_lib::to_multiset_insert(old_r, p as int, x);
            assert(v@.take(i + 1) =~= v@.take(i as int).push(x));
            vstd::seq_lib::to_multiset_build(v@.take(i as int), x);
            assert forall|a: int, b: int| 0 <= a < b < r@.len() implies #[trigger] r@[a].start
                <= #[trigger] r@[b].start by {
                if b < p {
                } else if b == p {
                } else if a < p {
                    assert(r@[b] == old_r[b - 1]);
                    assert(old_r[p as int].start > x.start);
                    if b - 1 > p {
                        assert(old_r[p as int].start <= old_r[b - 1].start);
                    }
                } else if a == p {
                    assert(r@[b] == old_r[b - 1]);
                    assert(old_r[p as int].start > x.start);
                    if b - 1 > p {
                        assert(old_r[p as int].start <= old_r[b - 1].start);
                    }
                } else {
                    assert(r@[a] == old_r[a - 1]);
                    assert(r@[b] == old_r[b - 1]);
                }
            }
        }
        i = i + 1;
    }
    proof {
        assert(v@.take(v@.len() as int) =~= v@);
    }
    r
}

/// Two distinct positions of `a` hold values that two distinct positions of
/// `b` hold too, when both hold the same ranges
proof fn lemma_pair_in_permutation(a: Seq<GsiRange>, b: Seq<GsiRange>, i: int, j: int)
    requires
        a.to_multiset() == b.to_multiset(),
        0 <= i < a.len(),
        0 <= j < a.len(),
        i != j,
    ensures
        exists|i2: int, j2: int|
            0 <= i2 < b.len() && 0 <= j2 < b.len() && i2 != j2 && b[i2] == a[i] && b[j2] == a[j],
{
    broadcast use vstd::seq_lib::group_to_multiset_ensures;

    assert(a.contains(a[i]));
    assert(a.to_multiset().count(a[i]) > 0);
    assert(b.contains(a[i]));
    let i2 = choose|k: int| 0 <= k < b.len() && b[k] == a[i];
    let a1 = a.remove(i);
    let b1 = b.remove(i2);
    assert(a1.to_multiset() == a.to_multiset().remove(a[i]));
    assert(b1.to_multiset() == b.to_multiset().remove(b[i2]));
    let j1 = if j < i { j } else { j - 1 };
    assert(a1[j1] == a[j]);
    assert(a1.contains(a[j]));
    assert(a1.to_multiset().count(a[j]) > 0);
    assert(b1.contains(a[j]));
    let j3 = choose|k: int| 0 <= k < b1.len() && b1[k] == a[j];
    let j2 = if j3 < i2 { j3 } else { j3 + 1 };
    assert(b[j2] == a[j]);
    assert(j2 != i2);
}

/// Ranges holding the same ranges as `a` route the GSIs `a` routes
proof fn lemma_routed_in_permutation(a: Seq<GsiRange>, b: Seq<GsiRange>, g: int)
    requires
        a.to_multiset() == b.to_multiset(),
        routed(a, g),
    ensures
        routed(b, g),
{
    broadcast use vstd::seq_lib::group_to_multiset_ensures;

    let k = choose|k: int| 0 <= k < a.len() && #[trigger] routes(a[k], g);
    assert(a.contains(a[k]));
    assert(a.to_multiset().count(a[k]) > 0);
    assert(b.contains(a[k]));
    let k2 = choose|m: int| 0 <= m < b.len() && b[m] == a[k];
    assert(routes(b[k2], g));
}

/// Every range of `s` ends at or before `max_end(s)`
proof fn lemma_max_end(s: Seq<GsiRange>)
    ensures
        forall|i: int| 0 <= i < s.len() ==> (#[trigger] s[i]).end <= max_end(s),
    decreases s.len(),
{
    if s.len() > 0 {
        lemma_max_end(s.drop_last());
        assert forall|i: int| 0 <= i < s.len() implies (#[trigger] s[i]).end <= max_end(s) by {
            if i < s.len() - 1 {
                assert(s[i] == s.drop_last()[i]);
            }
        }
    }
}

/// Ranges sorted by first GSI overlap exactly when two neighbours do
proof fn lemma_sorted_overlap(s: Seq<GsiRange>)
    requires
        sorted_by_start(s),
        forall|k: int| 0 < k < s.len() ==> (#[trigger] s[k]).start > s[k - 1].end,
    ensures
        !any_overlap(s),
{
    assert forall|i: int, j: int| 0 <= i < s.len() && 0 <= j < s.len() && i != j implies
        !#[trigger] gsi_overlap(s[i], s[j]) by {
        let (a, b) = if i < j { (i, j) } else { (j, i) };
        assert(s[a + 1].start > s[a].end);
        if a + 1 < b {
            assert(s[a + 1].start <= s[b].start);
        }
    }
}

/// Route the GSIs to the IO APICs that handle them: the IO APICs sorted by
/// their first GSI, and for each GSI below the largest last one, the index in
/// that order of the IO APIC that handles it. Fails when the GSIs of two IO
/// APICs overlap, and else when a GSI is handled by none.
pub fn gsi_routing(ioapics: &[GsiRange]) -> (r: Result<(Vec<GsiRange>, Vec<usize>), GsiError>)
    requires
        forall|i: int| 0 <= i < ioapics@.len() ==> (#[trigger] ioapics@[i]).start <= ioapics@[i].end,
    ensures
        any_overlap(ioapics@) <==> r matches Err(GsiError::Overlap(_, _)),
        r matches Err(GsiError::Overlap(a, b)) ==> exists|i: int, j: int|
            0 <= i < ioapics@.len() && 0 <= j < ioapics@.len() && i != j && ioapics@[i].id == a
                && ioapics@[j].id == b && gsi_overlap(ioapics@[i], ioapics@[j]),
        r matches Err(GsiError::Unhandled(g)) ==> {
            &&& g < max_end(ioapics@)
            &&& !routed(ioapics@, g as int)
            &&& forall|h: int| 0 <= h < g ==> routed(ioapics@, h)
        },
        !any_overlap(ioapics@) && (forall|h: int| 0 <= h < max_end(ioapics@) ==> routed(
            ioapics@,
            h,
        )) ==> r is Ok,
        r matches Ok((sorted, map)) ==> {
            &&& sorted@.to_multiset() == ioapics@.to_multiset()
            &&& sorted_by_start(sorted@)
            &&& map@.len() == max_end(ioapics@)
            &&& forall|h: int|
                0 <= h < map@.len() ==> #[trigger] map@[h] < sorted@.len() && routes(
                    sorted@[map@[h] as int],
                    h,
                )
        },
{
    // The largest last GSI
    let mut max_gsi: u32 = 0;
    let mut i: usize = 0;
    while i < ioapics.len()
        invariant
            i <= ioapics@.len(),
            max_gsi == max_end(ioapics@.take(i as int)),
        decreases ioapics@.len() - i,
    {
        proof {
            assert(ioapics@.take(i + 1).drop_last() =~= ioapics@.take(i as int));
        }
        if ioapics[i].end > max_gsi {
            max_gsi = ioapics[i].end;
        }
        i = i + 1;
    }
    proof {
        assert(ioapics@.take(ioapics@.len() as int) =~= ioapics@);
    }

    // Sort the IO APICs by their first GSI, and refuse overlapping ones
    let sorted = sort_by_start(ioapics);
    proof {
        assert forall|i: int| 0 <= i < sorted@.len() implies (#[trigger] sorted@[i]).start
            <= sorted@[i].end by {
            broadcast use vstd::seq_lib::group_to_multiset_ensures;

            assert(sorted@.contains(sorted@[i]));
            assert(sorted@.to_multiset().count(sorted@[i]) > 0);
            assert(ioapics@.contains(sorted@[i]));
        }
    }
    let mut k: usize = 1;
    while k < sorted.len()
        invariant
            1 <= k,
            sorted_by_start(sorted@),
            sorted@.to_multiset() == ioapics@.to_multiset(),
            forall|i: int| 0 <= i < sorted@.len() ==> (#[trigger] sorted@[i]).start <= sorted@[i].end,
            forall|m: int| 0 < m < k && m < sorted@.len() ==> (#[trigger] sorted@[m]).start
                > sorted@[m - 1].end,
        decreases sorted@.len() - k,
    {
        if sorted[k].start <= sorted[k - 1].end {
            proof {
                assert(sorted@[k - 1].start <= sorted@[k as int].start);
                assert(gsi_overlap(sorted@[k - 1], sorted@[k as int]));
                lemma_pair_in_permutation(sorted@, ioapics@, k - 1, k as int);
            }
            return Err(GsiError::Overlap(sorted[k - 1].id, sorted[k].id));
        }
        k = k + 1;
    }
    proof {
        lemma_sorted_overlap(sorted@);
        if any_overlap(ioapics@) {
            let (a, b) = choose|a: int, b: int|
                0 <= a < ioapics@.len() && 0 <= b < ioapics@.len() && a != b
                    && #[trigger] gsi_overlap(ioapics@[a], ioapics@[b]);
            lemma_pair_in_permutation(ioapics@, sorted@, a, b);
        }
        lemma_max_end(ioapics@);
    }
    let ghost s = sorted@;
    proof {
        assert forall|m: int| 0 <= m < s.len() implies (#[trigger] s[m]).end <= max_gsi by {
            broadcast use vstd::seq_lib::group_to_multiset_ensures;

            assert(s.contains(s[m]));
            assert(s.to_multiset().count(s[m]) > 0);
            assert(ioapics@.contains(s[m]));
        }
    }

    // Route each GSI to the IO APIC handling it
    let mut routing: Vec<Option<usize>> = Vec::new();
    let mut g: u32 = 0;
    while g < max_gsi
        invariant
            g <= max_gsi,
            routing@.len() == g,
            forall|h: int| 0 <= h < g ==> #[trigger] routing@[h] is None,
        decreases max_gsi - g,
    {
        routing.push(None);
        g = g + 1;
    }
    let mut idx: usize = 0;
    while idx < sorted.len()
        invariant
            sorted@ == s,
            idx <= s.len(),
            routing@.len() == max_gsi,
            forall|m: int| 0 <= m < s.len() ==> (#[trigger] s[m]).end <= max_gsi,
            forall|m: int| 0 <= m < s.len() ==> (#[trigger] s[m]).start <= s[m].end,
            forall|h: int|
                0 <= h < max_gsi ==> match #[trigger] routing@[h] {
                    Some(m) => m < idx && routes(s[m as int], h),
                    None => forall|m: int| 0 <= m < idx ==> !routes(s[m], h),
                },
        decreases s.len() - idx,
    {
        let start = sorted[idx].start;
        let end = sorted[idx].end;
        let mut gsi: u32 = start;
        while gsi < end
            invariant
                sorted@ == s,
                idx < s.len(),
                start == s[idx as int].start,
                end == s[idx as int].end,
                end <= max_gsi,
                start <= gsi <= end,
                routing@.len() == max_gsi,
                forall|h: int|
                    0 <= h < max_gsi ==> match #[trigger] routing@[h] {
                        Some(m) => (m < idx && routes(s[m as int], h)) || (m == idx && start <= h
                            < gsi),
                        None => forall|m: int| 0 <= m <= idx ==> !routes(s[m], h) || (m == idx
                            && gsi <= h),
                    },
            decreases end - gsi,
        {
            let ghost before = routing@;
            routing.set(gsi as usize, Some(idx));
            proof {
                assert forall|h: int| 0 <= h < max_gsi implies match #[trigger] routing@[h] {
                    Some(m) => (m < idx && routes(s[m as int], h)) || (m == idx && start <= h
                        < gsi + 1),
                    None => forall|m: int| 0 <= m <= idx ==> !routes(s[m], h) || (m == idx
                        && gsi + 1 <= h),
                } by {
                    if h != gsi {
                        assert(routing@[h] == before[h]);
                    }
                }
            }
            gsi = gsi + 1;
        }
        proof {
            assert forall|h: int| 0 <= h < max_gsi implies match #[trigger] routing@[h] {
                Some(m) => m < idx + 1 && routes(s[m as int], h),
                None => forall|m: int| 0 <= m < idx + 1 ==> !routes(s[m], h),
            } by {
                match routing@[h] {
                    Some(m) => {},
                    None => {
                        assert forall|m: int| 0 <= m < idx + 1 implies !routes(s[m], h) by {
                            if m == idx && start <= gsi {
                                assert(!(gsi <= h) || !(h < end));
                            }
                        }
                    },
                }
            }
        }
        idx = idx + 1;
    }

    // Every GSI must be handled by an IO APIC
    let mut map: Vec<usize> = Vec::new();
    let mut h: u32 = 0;
    while h < max_gsi
        invariant
            sorted@ == s,
            s.to_multiset() == ioapics@.to_multiset(),
            max_gsi == max_end(ioapics@),
            !any_overlap(ioapics@),
            h <= max_gsi,
            routing@.len() == max_gsi,
            map@.len() == h,
            forall|x: int|
                0 <= x < max_gsi ==> match #[trigger] routing@[x] {
                    Some(m) => m < s.len() && routes(s[m as int], x),
                    None => forall|m: int| 0 <= m < s.len() ==> !routes(s[m], x),
                },
            forall|x: int| 0 <= x < h ==> routing@[x] == Some(#[trigger] map@[x]),
            forall|x: int| 0 <= x < h ==> routed(s, x),
        decreases max_gsi - h,
    {
        match routing[h as usize] {
            Some(m) => {
                proof {
                    assert(routes(s[m as int], h as int));
                }
                map.push(m);
            },
            None => {
                proof {
                    assert(!routed(s, h as int));
                    if routed(ioapics@, h as int) {
                        lemma_routed_in_permutation(ioapics@, s, h as int);
                    }
                    assert forall|x: int| 0 <= x < h implies routed(ioapics@, x) by {
                        lemma_routed_in_permutation(s, ioapics@, x);
                    }
                }
                return Err(GsiError::Unhandled(h));
            },
        }
        h = h + 1;
    }
    Ok((sorted, map))
}

} // verus!
