//! Packet interface: the packet buffer, the one's complement checksum and a
//! cursor that appends to a packet while keeping its length up to date

use vstd::prelude::*;
use vstd::arithmetic::div_mod::{lemma_add_mod_noop, lemma_mod_bound};
use crate::bytes::{be_u16, be_u32, u16_bytes, u32_bytes, u64_bytes, read_be_u16, read_be_u32};
use crate::net::Mac;

verus! {

/// Errors that can occur while parsing network packet headers
#[derive(Debug, Clone, Copy, PartialEq, Eq, Structural)]
pub enum ParseError {
    /// Indicates the packet is too short to contain the required data for the
    /// given field.
    TruncatedPacket,
    /// The MAC address bytes could not be properly converted into a 6-byte
    /// array
    InvalidMacAddress,
    /// Attempted to parse a big-endian `u16` but got an error
    InvalidWord,
    /// Attempted to parse a big-endian `u32` but got an error
    InvalidDword,
    /// The Ethernet frame indicates a version we do not support
    UnsupportedVersion,
    /// The IP header is either missing or too short to be valid
    InvalidIpHeader,
    /// The IP header included options which we do not support
    IpOptionsUnsupported,
    /// Attempted to parse an IP packet but got invalid protocol
    InvalidIpProtocol,
    /// Fragmentation is not supported and the packet is either fragmented or
    /// has disallowed flags set
    FragmentationUnsupported,
    /// The total packet length is invalid (too short or longer than
    /// available data)
    InvalidLength,
}

/// Size in bytes of the page-sized backing buffer of every packet
pub const PACKET_BUFFER_SIZE: usize = 4096;

/// Maximum allowed packet length in bytes for a standard Ethernet frame,
/// excluding FCS.
pub const MAX_PACKET_LEN: usize = 1514;

/// Sum of the first `n` big-endian 16-bit words of `s`
pub open spec fn words_sum(s: Seq<u8>, n: nat) -> nat
    decreases n,
{
    if n == 0 {
        0
    } else {
        words_sum(s, (n - 1) as nat) + s[2 * (n - 1)] as nat * 256 + s[2 * (n - 1) + 1] as nat
    }
}

/// Sum of all big-endian 16-bit words of `s`, where a trailing odd byte is
/// the high byte of a last word whose low byte is zero
pub open spec fn raw_sum(s: Seq<u8>) -> nat {
    words_sum(s, s.len() / 2) + if s.len() % 2 == 1 {
        s[s.len() - 1] as nat * 256
    } else {
        0
    }
}

/// Adds the carry out of the low 16 bits back into the low 16 bits
pub open spec fn fold16(x: nat) -> nat {
    x % 0x1_0000 + x / 0x1_0000
}

/// The one's complement checksum of `s`: the 32-bit wrapping word sum,
/// folded twice into 16 bits
pub open spec fn spec_checksum(s: Seq<u8>) -> u16 {
    fold16(fold16(raw_sum(s) % 0x1_0000_0000)) as u16
}

/// Allocated packet that can be put into and taken from DMA buffers.
///
/// The backing buffer is page-sized; the packet's contents are its first
/// `len()` bytes.
pub struct Packet {
    /// The raw backing memory for the packet
    raw: Vec<u8>,
    /// Number of bytes of the backing memory that hold the packet
    length: usize,
}

impl View for Packet {
    type V = Seq<u8>;

    /// The bytes of the packet
    closed spec fn view(&self) -> Seq<u8> {
        self.raw@.take(self.length as int)
    }
}

impl Packet {
    /// The backing buffer is page-sized and holds the whole packet
    pub closed spec fn wf(&self) -> bool {
        self.raw@.len() == PACKET_BUFFER_SIZE && self.length <= PACKET_BUFFER_SIZE
    }

    /// The whole backing buffer, including the bytes past the packet's end
    pub closed spec fn buffer(&self) -> Seq<u8> {
        self.raw@
    }

    /// The length of the packet
    pub closed spec fn length(&self) -> nat {
        self.length as nat
    }

    /// How the packet's bytes, length and buffer relate
    pub proof fn lemma_view(&self)
        requires
            self.wf(),
        ensures
            self.buffer().len() == PACKET_BUFFER_SIZE,
            self.length() <= PACKET_BUFFER_SIZE,
            self@.len() == self.length(),
            self@ == self.buffer().take(self.length() as int),
    {
    }

    /// Allocate a new, empty packet buffer
    pub fn new() -> (p: Packet)
        ensures
            p.wf(),
            p.length() == 0,
            p@ == Seq::<u8>::empty(),
            p.buffer() == Seq::new(PACKET_BUFFER_SIZE as nat, |i: int| 0u8),
    {
        let raw = vec![0u8; PACKET_BUFFER_SIZE];
        let p = Packet { raw, length: 0 };
        assert(p.buffer() =~= Seq::new(PACKET_BUFFER_SIZE as nat, |i: int| 0u8));
        assert(p@ =~= Seq::<u8>::empty());
        p
    }

    /// Helper function to parse a MAC address from a packet
    pub fn parse_mac(bytes: Option<&[u8]>) -> (r: Result<Mac, ParseError>)
        ensures
            bytes is None ==> r == Err::<Mac, ParseError>(ParseError::TruncatedPacket),
            bytes matches Some(s) && s@.len() != 6 ==> r == Err::<Mac, ParseError>(
                ParseError::InvalidMacAddress,
            ),
            bytes matches Some(s) ==> (s@.len() == 6 ==> (r matches Ok(m) && m.0@ == s@)),
    {
        match bytes {
            None => Err(ParseError::TruncatedPacket),
            Some(s) => {
                if s.len() != 6 {
                    Err(ParseError::InvalidMacAddress)
                } else {
                    let m = Mac([s[0], s[1], s[2], s[3], s[4], s[5]]);
                    assert(m.0@ =~= s@);
                    Ok(m)
                }
            },
        }
    }

    /// Helper function to parse a big-endian `u16` from a packet
    pub fn parse_u16(b: Option<&[u8]>) -> (r: Result<u16, ParseError>)
        ensures
            b is None ==> r == Err::<u16, ParseError>(ParseError::TruncatedPacket),
            b matches Some(s) && s@.len() != 2 ==> r == Err::<u16, ParseError>(
                ParseError::InvalidWord,
            ),
            b matches Some(s) ==> (s@.len() == 2 ==> r == Ok::<u16, ParseError>(be_u16(s@))),
    {
        match b {
            None => Err(ParseError::TruncatedPacket),
            Some(s) => {
                if s.len() != 2 {
                    Err(ParseError::InvalidWord)
                } else {
                    let v = read_be_u16(s, 0);
                    assert(s@.subrange(0, 2) =~= s@);
                    Ok(v)
                }
            },
        }
    }

    /// Helper function to parse a big-endian `u32` from a packet
    pub fn parse_u32(b: Option<&[u8]>) -> (r: Result<u32, ParseError>)
        ensures
            b is None ==> r == Err::<u32, ParseError>(ParseError::TruncatedPacket),
            b matches Some(s) && s@.len() != 4 ==> r == Err::<u32, ParseError>(
                ParseError::InvalidDword,
            ),
            b matches Some(s) ==> (s@.len() == 4 ==> r == Ok::<u32, ParseError>(be_u32(s@))),
    {
        match b {
            None => Err(ParseError::TruncatedPacket),
            Some(s) => {
                if s.len() != 4 {
                    Err(ParseError::InvalidDword)
                } else {
                    let v = read_be_u32(s, 0);
                    assert(s@.subrange(0, 4) =~= s@);
                    Ok(v)
                }
            },
        }
    }

    /// Compute a ones-complement checksum over the provided byte slice.
    pub fn checksum(bytes: &[u8]) -> (c: u16)
        ensures
            c == spec_checksum(bytes@),
    {
        let len = bytes.len();
        let n = len / 2;
        let mut sum: u32 = 0;
        let mut i: usize = 0;

        // Process all 2-byte chunks
        while i < n
            invariant
                len == bytes@.len(),
                n == len / 2,
                i <= n,
                sum == words_sum(bytes@, i as nat) % 0x1_0000_0000,
            decreases n - i,
        {
            let word = (bytes[2 * i] as u32) * 256 + bytes[2 * i + 1] as u32;
            proof {
                lemma_add_mod_noop(words_sum(bytes@, i as nat) as int, word as int, 0x1_0000_0000);
                assert(words_sum(bytes@, (i + 1) as nat) == words_sum(bytes@, i as nat) + word);
            }
            sum = sum.wrapping_add(word);
            i = i + 1;
        }

        // Handle final byte (low byte) if length is odd
        if len % 2 == 1 {
            let last = (bytes[len - 1] as u32) * 256;
            proof {
                lemma_add_mod_noop(words_sum(bytes@, n as nat) as int, last as int, 0x1_0000_0000);
            }
            sum = sum.wrapping_add(last);
        }

        // Fold carries
        let c1 = sum % 0x1_0000 + sum / 0x1_0000;
        let c2 = c1 % 0x1_0000 + c1 / 0x1_0000;
        c2 as u16
    }

    /// Get access to the packet contents
    pub fn raw(&self) -> (r: &[u8])
        requires
            self.wf(),
        ensures
            r@ == self@,
    {
        vstd::slice::slice_subrange(self.raw.as_slice(), 0, self.length)
    }

    /// Get the length of the packet
    pub fn len(&self) -> (r: usize)
        ensures
            r == self.length(),
    {
        self.length
    }

    /// Sets the length of the packet. Any length is taken; a packet longer
    /// than its buffer has no contents to read (what reads it requires a
    /// well-formed packet, as reading past the buffer is out of bounds).
    pub fn set_len(&mut self, len: usize)
        requires
            old(self).buffer().len() == PACKET_BUFFER_SIZE,
        ensures
            final(self).wf() <==> len <= PACKET_BUFFER_SIZE,
            final(self).buffer() == old(self).buffer(),
            final(self).length() == len,
    {
        self.length = len;
    }

    /// Sets the len of the packet to `0`
    pub fn clear(&mut self)
        requires
            old(self).wf(),
        ensures
            final(self).wf(),
            final(self).buffer() == old(self).buffer(),
            final(self).length() == 0,
            final(self)@ == Seq::<u8>::empty(),
    {
        self.set_len(0);
        assert(self@ =~= Seq::<u8>::empty());
    }

    /// Pad the packet with zeroes up to `min_len` bytes, if it is shorter
    pub fn pad(&mut self, min_len: usize)
        requires
            old(self).wf(),
            min_len <= PACKET_BUFFER_SIZE,
        ensures
            final(self).wf(),
            old(self).length() >= min_len ==> *final(self) == *old(self),
            old(self).length() < min_len ==> {
                &&& final(self).length() == min_len
                &&& final(self)@ == old(self)@ + Seq::new(
                    (min_len - old(self).length()) as nat,
                    |i: int| 0u8,
                )
                &&& final(self).buffer().subrange(min_len as int, PACKET_BUFFER_SIZE as int)
                    == old(self).buffer().subrange(min_len as int, PACKET_BUFFER_SIZE as int)
            },
    {
        let len = self.length;
        if len >= min_len {
            return;
        }
        let ghost orig = self.raw@;
        let mut i: usize = len;
        while i < min_len
            invariant
                len <= i <= min_len <= PACKET_BUFFER_SIZE,
                self.raw@.len() == PACKET_BUFFER_SIZE,
                self.length == len,
                orig.len() == PACKET_BUFFER_SIZE,
                forall|j: int|
                    0 <= j < PACKET_BUFFER_SIZE ==> #[trigger] self.raw@[j] == if len <= j < i {
                        0u8
                    } else {
                        orig[j]
                    },
            decreases min_len - i,
        {
            self.raw.set(i, 0);
            i = i + 1;
        }
        self.length = min_len;
        assert(self@ =~= old(self)@ + Seq::new((min_len - len) as nat, |i: int| 0u8));
        assert(self.buffer().subrange(min_len as int, PACKET_BUFFER_SIZE as int)
            =~= old(self).buffer().subrange(min_len as int, PACKET_BUFFER_SIZE as int));
    }

    /// Provides a cursor to modify the packet's buffer, ensuring length is
    /// tracked and limited to maximum packet length
    pub fn cursor(self) -> (c: PacketCursor)
        requires
            self.wf(),
        ensures
            c.wf(),
            c.packet() == self,
            c@ == self@,
            c.base() == 0,
    {
        PacketCursor::new(self)
    }

    /// Copy `bytes` into the backing buffer at `at`, leaving the length as is
    fn store(&mut self, at: usize, bytes: &[u8])
        requires
            old(self).wf(),
            at + bytes@.len() <= PACKET_BUFFER_SIZE,
        ensures
            final(self).wf(),
            final(self).length() == old(self).length(),
            final(self).buffer() == old(self).buffer().subrange(0, at as int) + bytes@
                + old(self).buffer().subrange(at + bytes@.len(), PACKET_BUFFER_SIZE as int),
    {
        let ghost orig = self.raw@;
        let mut i: usize = 0;
        while i < bytes.len()
            invariant
                self.raw@.len() == PACKET_BUFFER_SIZE,
                self.length == old(self).length,
                self.length <= PACKET_BUFFER_SIZE,
                orig == old(self).raw@,
                orig.len() == PACKET_BUFFER_SIZE,
                at + bytes@.len() <= PACKET_BUFFER_SIZE,
                i <= bytes@.len(),
                forall|j: int|
                    0 <= j < PACKET_BUFFER_SIZE ==> #[trigger] self.raw@[j] == if at <= j < at + i {
                        bytes@[j - at]
                    } else {
                        orig[j]
                    },
            decreases bytes@.len() - i,
        {
            self.raw.set(at + i, bytes[i]);
            i = i + 1;
        }
        assert(self.raw@ =~= orig.subrange(0, at as int) + bytes@ + orig.subrange(
            at + bytes@.len(),
            PACKET_BUFFER_SIZE as int,
        ));
    }
}

/// A cursor that appends to a packet, limited to `MAX_PACKET_LEN` bytes, and
/// keeps the packet's length at the end of what was written.
///
/// A cursor starts at its `base()`: the bytes before it belong to the headers
/// that were split off before it; `get()` returns the bytes from the base on.
pub struct PacketCursor {
    /// The packet being written
    packet: Packet,
    /// Offset of the first byte that belongs to this cursor
    base: usize,
}

impl View for PacketCursor {
    type V = Seq<u8>;

    /// The bytes of the packet being written
    closed spec fn view(&self) -> Seq<u8> {
        self.packet@
    }
}

impl PacketCursor {
    /// The packet is well formed and the cursor starts inside of it
    pub closed spec fn wf(&self) -> bool {
        self.packet.wf() && self.base <= self.packet.length
    }

    /// The packet being written
    pub closed spec fn packet(&self) -> Packet {
        self.packet
    }

    /// Offset of the first byte that belongs to this cursor
    pub closed spec fn base(&self) -> nat {
        self.base as nat
    }

    /// How the cursor's bytes relate to its packet
    pub proof fn lemma_view(&self)
        requires
            self.wf(),
        ensures
            self@ == self.packet()@,
            self@.len() == self.packet().length(),
            self.base() <= self@.len(),
            self.packet().wf(),
    {
    }

    /// Creates a new `PacketCursor` from the `packet`, positioned at its end
    pub fn new(packet: Packet) -> (c: PacketCursor)
        requires
            packet.wf(),
        ensures
            c.wf(),
            c.packet() == packet,
            c@ == packet@,
            c.base() == 0,
    {
        PacketCursor { packet, base: 0 }
    }

    /// Give back the packet that was written
    pub fn into_packet(self) -> (p: Packet)
        ensures
            p == self.packet(),
            p@ == self@,
    {
        self.packet
    }

    /// Overall position of the cursor in the packet, which is the packet's
    /// length
    pub fn overall_position(&self) -> (r: usize)
        ensures
            r == self.packet().length(),
    {
        self.packet.length
    }

    /// Position of the cursor relative to its base
    pub fn position(&self) -> (r: usize)
        requires
            self.wf(),
        ensures
            r == self.packet().length() - self.base(),
    {
        self.packet.length - self.base
    }

    /// Split the current cursor at the current position.
    ///
    /// Returns the range `(start, end)` of the bytes that were written through
    /// this cursor, and a cursor that starts where this one ended.
    pub fn split_at_current(self) -> (r: ((usize, usize), PacketCursor))
        requires
            self.wf(),
        ensures
            r.1.wf(),
            r.0.0 == self.base(),
            r.0.1 == self.packet().length(),
            r.1.packet() == self.packet(),
            r.1@ == self@,
            r.1.base() == self.packet().length(),
    {
        let start = self.base;
        let end = self.packet.length;
        ((start, end), PacketCursor { packet: self.packet, base: end })
    }

    /// Non-panic version of `split_at()`.
    ///
    /// Splits off the `idx` bytes from the base on; the remaining cursor starts
    /// after them and the packet's length becomes its start. Fails when that
    /// start lies past `MAX_PACKET_LEN`.
    pub fn split_at_checked(self, idx: usize) -> (r: Option<((usize, usize), PacketCursor)>)
        requires
            self.wf(),
        ensures
            self.base() + idx <= MAX_PACKET_LEN <==> r is Some,
            r matches Some(x) ==> {
                &&& x.1.wf()
                &&& x.0.0 == self.base()
                &&& x.0.1 == self.base() + idx
                &&& x.1.base() == self.base() + idx
                &&& x.1.packet().buffer() == self.packet().buffer()
                &&& x.1.packet().length() == self.base() + idx
            },
    {
        if self.base > MAX_PACKET_LEN || idx > MAX_PACKET_LEN - self.base {
            return None;
        }
        let split = self.base + idx;
        let mut packet = self.packet;
        packet.set_len(split);
        Some(((self.base, split), PacketCursor { packet, base: split }))
    }

    /// Splits the cursor into the range of its first `idx` bytes and a new
    /// `PacketCursor`, as `split_at_checked()` does
    pub fn split_at(self, idx: usize) -> (r: ((usize, usize), PacketCursor))
        requires
            self.wf(),
            self.base() + idx <= MAX_PACKET_LEN,
        ensures
            r.1.wf(),
            r.0.0 == self.base(),
            r.0.1 == self.base() + idx,
            r.1.base() == self.base() + idx,
            r.1.packet().buffer() == self.packet().buffer(),
            r.1.packet().length() == self.base() + idx,
    {
        match self.split_at_checked(idx) {
            Some(x) => x,
            None => {
                proof {
                    assert(false);
                }
                unreached()
            },
        }
    }

    /// Gets a reference to the bytes written from this cursor's base on
    pub fn get(&self) -> (r: &[u8])
        requires
            self.wf(),
        ensures
            r@ == self@.subrange(self.base() as int, self@.len() as int),
    {
        vstd::slice::slice_subrange(self.packet.raw.as_slice(), self.base, self.packet.length)
    }

    /// Gets the bytes `start..end` of the packet
    pub fn region(&self, start: usize, end: usize) -> (r: &[u8])
        requires
            self.wf(),
            start <= end <= self@.len(),
        ensures
            r@ == self@.subrange(start as int, end as int),
    {
        vstd::slice::slice_subrange(self.packet.raw.as_slice(), start, end)
    }

    /// Overwrites already written bytes of the packet at offset `at`
    pub fn write_at(&mut self, at: usize, bytes: &[u8])
        requires
            old(self).wf(),
            at + bytes@.len() <= old(self)@.len(),
        ensures
            final(self).wf(),
            final(self).base() == old(self).base(),
            final(self)@ == old(self)@.subrange(0, at as int) + bytes@ + old(self)@.subrange(
                at + bytes@.len(),
                old(self)@.len() as int,
            ),
    {
        self.packet.store(at, bytes);
        proof {
            let o = old(self).packet.raw@;
            let l = old(self).packet.length as int;
            assert(self@ =~= o.take(l).subrange(0, at as int) + bytes@ + o.take(l).subrange(
                at + bytes@.len(),
                l,
            ));
        }
    }

    /// Writes data into the cursor and updates the packet length.
    ///
    /// Fails, writing nothing, when the packet would grow past
    /// `MAX_PACKET_LEN`; otherwise returns the positions relative to the base
    /// before and after the write.
    pub fn write(&mut self, buf: &[u8]) -> (r: Option<(usize, usize)>)
        requires
            old(self).wf(),
        ensures
            final(self).wf(),
            final(self).base() == old(self).base(),
            old(self)@.len() + buf@.len() <= MAX_PACKET_LEN ==> {
                &&& r == Some(
                    (
                        (old(self)@.len() - old(self).base()) as usize,
                        (old(self)@.len() + buf@.len() - old(self).base()) as usize,
                    ),
                )
                &&& final(self)@ == old(self)@ + buf@
            },
            old(self)@.len() + buf@.len() > MAX_PACKET_LEN ==> r is None && *final(self) == *old(
                self,
            ),
    {
        let len = self.packet.length;
        if buf.len() > MAX_PACKET_LEN || len > MAX_PACKET_LEN - buf.len() {
            return None;
        }
        let old_pos = len - self.base;
        self.packet.store(len, buf);
        self.packet.length = len + buf.len();
        proof {
            let o = old(self).packet.raw@;
            assert(self@ =~= o.take(len as int) + buf@);
        }
        Some((old_pos, old_pos + buf.len()))
    }

    /// Writes a `u8` into the cursor using `write()`
    pub fn write_u8(&mut self, val: u8) -> (r: Option<(usize, usize)>)
        requires
            old(self).wf(),
        ensures
            final(self).wf(),
            final(self).base() == old(self).base(),
            old(self)@.len() + 1 <= MAX_PACKET_LEN ==> {
                &&& r == Some(
                    (
                        (old(self)@.len() - old(self).base()) as usize,
                        (old(self)@.len() + 1 - old(self).base()) as usize,
                    ),
                )
                &&& final(self)@ == old(self)@.push(val)
            },
            old(self)@.len() + 1 > MAX_PACKET_LEN ==> r is None && *final(self) == *old(self),
    {
        let b = [val];
        let r = self.write(b.as_slice());
        proof {
            assert(b@ =~= seq![val]);
            assert(old(self)@ + seq![val] =~= old(self)@.push(val));
        }
        r
    }

    /// Writes a big-endian `u16` into the cursor using `write()`
    pub fn write_u16(&mut self, val: u16) -> (r: Option<(usize, usize)>)
        requires
            old(self).wf(),
        ensures
            final(self).wf(),
            final(self).base() == old(self).base(),
            old(self)@.len() + 2 <= MAX_PACKET_LEN ==> {
                &&& r == Some(
                    (
                        (old(self)@.len() - old(self).base()) as usize,
                        (old(self)@.len() + 2 - old(self).base()) as usize,
                    ),
                )
                &&& final(self)@ == old(self)@ + u16_bytes(val)
            },
            old(self)@.len() + 2 > MAX_PACKET_LEN ==> r is None && *final(self) == *old(self),
    {
        let b = [(val / 0x100) as u8, (val % 0x100) as u8];
        assert(b@ =~= u16_bytes(val));
        self.write(b.as_slice())
    }

    /// Writes a big-endian `u32` into the cursor using `write()`
    pub fn write_u32(&mut self, val: u32) -> (r: Option<(usize, usize)>)
        requires
            old(self).wf(),
        ensures
            final(self).wf(),
            final(self).base() == old(self).base(),
            old(self)@.len() + 4 <= MAX_PACKET_LEN ==> {
                &&& r == Some(
                    (
                        (old(self)@.len() - old(self).base()) as usize,
                        (old(self)@.len() + 4 - old(self).base()) as usize,
                    ),
                )
                &&& final(self)@ == old(self)@ + u32_bytes(val)
            },
            old(self)@.len() + 4 > MAX_PACKET_LEN ==> r is None && *final(self) == *old(self),
    {
        let b = [
            (val / 0x100_0000) as u8,
            ((val / 0x1_0000) % 0x100) as u8,
            ((val / 0x100) % 0x100) as u8,
            (val % 0x100) as u8,
        ];
        assert(b@ =~= u32_bytes(val));
        self.write(b.as_slice())
    }

    /// Writes a big-endian `u64` into the cursor using `write()`
    pub fn write_u64(&mut self, val: u64) -> (r: Option<(usize, usize)>)
        requires
            old(self).wf(),
        ensures
            final(self).wf(),
            final(self).base() == old(self).base(),
            old(self)@.len() + 8 <= MAX_PACKET_LEN ==> {
                &&& r == Some(
                    (
                        (old(self)@.len() - old(self).base()) as usize,
                        (old(self)@.len() + 8 - old(self).base()) as usize,
                    ),
                )
                &&& final(self)@ == old(self)@ + u64_bytes(val)
            },
            old(self)@.len() + 8 > MAX_PACKET_LEN ==> r is None && *final(self) == *old(self),
    {
        let hi = (val / 0x1_0000_0000) as u32;
        let lo = (val % 0x1_0000_0000) as u32;
        let b = [
            (hi / 0x100_0000) as u8,
            ((hi / 0x1_0000) % 0x100) as u8,
            ((hi / 0x100) % 0x100) as u8,
            (hi % 0x100) as u8,
            (lo / 0x100_0000) as u8,
            ((lo / 0x1_0000) % 0x100) as u8,
            ((lo / 0x100) % 0x100) as u8,
            (lo % 0x100) as u8,
        ];
        assert(b@ =~= u64_bytes(val));
        self.write(b.as_slice())
    }
}

/// Storing the complement of the checksum of fewer than 131072 bytes,
/// big-endian, over a zero word at an even offset makes the bytes verify:
/// their checksum becomes all ones. (Past that size the 32-bit sum may wrap,
/// and the wrapped carry is lost.)
pub proof fn lemma_checksum_complement(b: Seq<u8>, k: int)
    requires
        b.len() < 0x2_0000,
        0 <= k,
        k % 2 == 0,
        k + 2 <= b.len(),
        b[k] == 0,
        b[k + 1] == 0,
    ensures
        spec_checksum(
            b.update(k, ((!spec_checksum(b)) / 0x100) as u8).update(
                k + 1,
                ((!spec_checksum(b)) % 0x100) as u8,
            ),
        ) == 0xFFFF,
{
    let c: u16 = !spec_checksum(b);
    crate::net::protocols::udp::lemma_checksum_complement_verifies(b, k);
    assert(crate::net::protocols::ip::v4::put_u16(b, k, c) =~= b.update(k, (c / 0x100) as u8).update(
        k + 1,
        (c % 0x100) as u8,
    ));
}

} // verus!
