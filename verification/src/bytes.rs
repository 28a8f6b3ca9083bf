//! Big-endian byte encodings shared by the ACPI, EFI and network code

use vstd::prelude::*;

verus! {

/// The big-endian `u16` held by the first two bytes of `s`
pub open spec fn be_u16(s: Seq<u8>) -> u16 {
    (s[0] as int * 0x100 + s[1] as int) as u16
}

/// The big-endian `u32` held by the first four bytes of `s`
pub open spec fn be_u32(s: Seq<u8>) -> u32 {
    (s[0] as int * 0x100_0000 + s[1] as int * 0x1_0000 + s[2] as int * 0x100 + s[3] as int) as u32
}

/// The little-endian `u16` held by the first two bytes of `s`
pub open spec fn le_u16(s: Seq<u8>) -> u16 {
    (s[1] as int * 0x100 + s[0] as int) as u16
}

/// The little-endian `u32` held by the first four bytes of `s`
pub open spec fn le_u32(s: Seq<u8>) -> u32 {
    (s[3] as int * 0x100_0000 + s[2] as int * 0x1_0000 + s[1] as int * 0x100 + s[0] as int) as u32
}

/// The little-endian `u64` held by the first eight bytes of `s`
pub open spec fn le_u64(s: Seq<u8>) -> u64 {
    (le_u32(s.subrange(4, 8)) as int * 0x1_0000_0000 + le_u32(s.subrange(0, 4)) as int) as u64
}

/// The big-endian encoding of `v`
pub open spec fn u16_bytes(v: u16) -> Seq<u8> {
    seq![(v / 0x100) as u8, (v % 0x100) as u8]
}

/// The big-endian encoding of `v`
pub open spec fn u32_bytes(v: u32) -> Seq<u8> {
    seq![
        (v / 0x100_0000) as u8,
        ((v / 0x1_0000) % 0x100) as u8,
        ((v / 0x100) % 0x100) as u8,
        (v % 0x100) as u8,
    ]
}

/// The big-endian encoding of `v`
pub open spec fn u64_bytes(v: u64) -> Seq<u8> {
    u32_bytes((v / 0x1_0000_0000) as u32) + u32_bytes((v % 0x1_0000_0000) as u32)
}

/// Decoding the big-endian encoding of a `u16` gives the value back
pub proof fn lemma_u16_roundtrip(v: u16)
    ensures
        u16_bytes(v).len() == 2,
        be_u16(u16_bytes(v)) == v,
{
}

/// Decoding the big-endian encoding of a `u32` gives the value back
pub proof fn lemma_u32_roundtrip(v: u32)
    ensures
        u32_bytes(v).len() == 4,
        be_u32(u32_bytes(v)) == v,
{
}

/// Encoding the big-endian `u16` held by two bytes gives those bytes back
pub proof fn lemma_be_u16_bytes(s: Seq<u8>)
    requires
        s.len() == 2,
    ensures
        u16_bytes(be_u16(s)) == s,
{
    assert(u16_bytes(be_u16(s)) =~= s);
}

/// Encoding the big-endian `u32` held by four bytes gives those bytes back
pub proof fn lemma_be_u32_bytes(s: Seq<u8>)
    requires
        s.len() == 4,
    ensures
        u32_bytes(be_u32(s)) == s,
{
    let a = s[0];
    let b = s[1];
    let c = s[2];
    let d = s[3];
    let v = be_u32(s);
    assert(v == (a as u32) * 0x100_0000 + (b as u32) * 0x1_0000 + (c as u32) * 0x100 + (d as u32));
    assert(v / 0x100_0000 == a && (v / 0x1_0000) % 0x100 == b && (v / 0x100) % 0x100 == c && v
        % 0x100 == d) by (bit_vector)
        requires
            v == (a as u32) * 0x100_0000 + (b as u32) * 0x1_0000 + (c as u32) * 0x100 + (d as u32),
    ;
    assert(u32_bytes(v) =~= s);
}

/// The bytes `s[start..end]`, or `None` when the range does not lie in `s`
pub fn get_range(s: &[u8], start: usize, end: usize) -> (r: Option<&[u8]>)
    ensures
        start <= end <= s@.len() ==> (r matches Some(x) && x@ == s@.subrange(start as int, end as int)),
        !(start <= end <= s@.len()) ==> r is None,
{
    if start <= end && end <= s.len() {
        Some(vstd::slice::slice_subrange(s, start, end))
    } else {
        None
    }
}

/// The bytes `s[start..]`, or `None` when `start` lies past the end of `s`
pub fn get_from(s: &[u8], start: usize) -> (r: Option<&[u8]>)
    ensures
        start <= s@.len() ==> (r matches Some(x) && x@ == s@.subrange(start as int, s@.len() as int)),
        start > s@.len() ==> r is None,
{
    if start <= s.len() {
        Some(vstd::slice::slice_subrange(s, start, s.len()))
    } else {
        None
    }
}

/// Read the big-endian `u16` at `at` in `s`
pub fn read_be_u16(s: &[u8], at: usize) -> (v: u16)
    requires
        at + 2 <= s@.len(),
    ensures
        v == be_u16(s@.subrange(at as int, at + 2)),
{
    (s[at] as u16) * 0x100 + (s[at + 1] as u16)
}

/// Read the big-endian `u32` at `at` in `s`
pub fn read_be_u32(s: &[u8], at: usize) -> (v: u32)
    requires
        at + 4 <= s@.len(),
    ensures
        v == be_u32(s@.subrange(at as int, at + 4)),
{
    (s[at] as u32) * 0x100_0000 + (s[at + 1] as u32) * 0x1_0000 + (s[at + 2] as u32) * 0x100
        + (s[at + 3] as u32)
}

/// Read the little-endian `u16` at `at` in `s`
pub fn read_le_u16(s: &[u8], at: usize) -> (v: u16)
    requires
        at + 2 <= s@.len(),
    ensures
        v == le_u16(s@.subrange(at as int, at + 2)),
{
    let _n = s.len();
    (s[at + 1] as u16) * 0x100 + (s[at] as u16)
}

/// Read the little-endian `u32` at `at` in `s`
pub fn read_le_u32(s: &[u8], at: usize) -> (v: u32)
    requires
        at + 4 <= s@.len(),
    ensures
        v == le_u32(s@.subrange(at as int, at + 4)),
{
    let _n = s.len();
    (s[at + 3] as u32) * 0x100_0000 + (s[at + 2] as u32) * 0x1_0000 + (s[at + 1] as u32) * 0x100
        + (s[at] as u32)
}

/// Read the little-endian `u64` at `at` in `s`
pub fn read_le_u64(s: &[u8], at: usize) -> (v: u64)
    requires
        at + 8 <= s@.len(),
    ensures
        v == le_u64(s@.subrange(at as int, at + 8)),
{
    let _n = s.len();
    let lo = read_le_u32(s, at);
    let hi = read_le_u32(s, at + 4);
    proof {
        let w = s@.subrange(at as int, at + 8);
        assert(w.subrange(0, 4) =~= s@.subrange(at as int, at + 4));
        assert(w.subrange(4, 8) =~= s@.subrange(at + 4, at + 8));
    }
    (hi as u64) * 0x1_0000_0000 + (lo as u64)
}

/// Sum of the bytes of `s`
pub open spec fn byte_sum(s: Seq<u8>) -> nat
    decreases s.len(),
{
    if s.len() == 0 {
        0
    } else {
        byte_sum(s.drop_last()) + s.last() as nat
    }
}

/// The first `n` bytes of `s` added up with wrapping 8-bit arithmetic
pub fn wrapping_byte_sum(s: &[u8], n: usize) -> (r: u8)
    requires
        n <= s@.len(),
    ensures
        r == byte_sum(s@.take(n as int)) % 256,
{
    let mut sum: u8 = 0;
    let mut i: usize = 0;
    while i < n
        invariant
            i <= n <= s@.len(),
            sum == byte_sum(s@.take(i as int)) % 256,
        decreases n - i,
    {
        proof {
            assert(s@.take(i + 1).drop_last() =~= s@.take(i as int));
            vstd::arithmetic::div_mod::lemma_add_mod_noop(
                byte_sum(s@.take(i as int)) as int,
                s@[i as int] as int,
                256,
            );
        }
        sum = sum.wrapping_add(s[i]);
        i = i + 1;
    }
    sum
}

} // verus!
