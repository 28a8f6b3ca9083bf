//! L1: Ethernet implementation

use vstd::prelude::*;
use crate::bytes::{be_u16, get_range, get_from};
use crate::net::Mac;
use crate::net::packet::{Packet, PacketCursor, ParseError, MAX_PACKET_LEN};

verus! {

/// Size of an Ethernet header in bytes
pub const ETH_HEADER_LEN: usize = 14;

/// A parsed Ethernet header
#[derive(Debug)]
pub struct Parsed<'a> {
    /// Destination device MAC
    pub dst_mac: Mac,
    /// Source device MAC
    pub src_mac: Mac,
    /// Type of the ethernet payload
    pub eth_type: u16,
    /// Raw byte payload
    pub payload: &'a [u8],
}

/// The fields of a parsed Ethernet header
pub struct EthView {
    pub dst_mac: Seq<u8>,
    pub src_mac: Seq<u8>,
    pub eth_type: u16,
    pub payload: Seq<u8>,
}

impl<'a> View for Parsed<'a> {
    type V = EthView;

    open spec fn view(&self) -> EthView {
        EthView {
            dst_mac: self.dst_mac.0@,
            src_mac: self.src_mac.0@,
            eth_type: self.eth_type,
            payload: self.payload@,
        }
    }
}

/// The Ethernet header that `s` starts with, or the error returned for it
pub open spec fn spec_parse_eth(s: Seq<u8>) -> Result<EthView, ParseError> {
    if s.len() < ETH_HEADER_LEN {
        Err(ParseError::TruncatedPacket)
    } else {
        Ok(
            EthView {
                dst_mac: s.subrange(0, 6),
                src_mac: s.subrange(6, 12),
                eth_type: be_u16(s.subrange(12, 14)),
                payload: s.subrange(14, s.len() as int),
            },
        )
    }
}

impl Packet {
    /// Parse the ethernet header
    pub fn parse_eth(&self) -> (r: Result<Parsed<'_>, ParseError>)
        requires
            self.wf(),
        ensures
            match r {
                Ok(p) => spec_parse_eth(self@) == Ok::<EthView, ParseError>(p@),
                Err(e) => spec_parse_eth(self@) == Err::<EthView, ParseError>(e),
            },
    {
        let raw = self.raw();
        let dst_mac = Self::parse_mac(get_range(raw, 0x0, 0x6))?;
        let src_mac = Self::parse_mac(get_range(raw, 0x6, 0xC))?;
        let eth_type = Self::parse_u16(get_range(raw, 0xC, 0xE))?;
        let payload = match get_from(raw, 0xE) {
            Some(p) => p,
            None => return Err(ParseError::TruncatedPacket),
        };
        Ok(Parsed { dst_mac, src_mac, eth_type, payload })
    }
}

/// Builder for Ethernet headers
pub struct Builder {
    /// The cursor the header was written with, positioned after the
    /// destination and source MACs
    pub cursor: PacketCursor,
}

impl Builder {
    /// Creates a new Ethernet builder, writing the destination and the source
    /// MAC. Fails when the packet has no room for them.
    pub fn new(cursor: PacketCursor, src: &Mac, dst: &Mac) -> (r: Option<Builder>)
        requires
            cursor.wf(),
        ensures
            cursor@.len() + 12 <= MAX_PACKET_LEN <==> r is Some,
            r matches Some(b) ==> {
                &&& b.cursor.wf()
                &&& b.cursor.base() == cursor.base()
                &&& b.cursor@ == cursor@ + dst.0@ + src.0@
            },
    {
        let mut cursor = cursor;
        proof {
            cursor.lemma_view();
        }
        cursor.write(dst.0.as_slice())?;
        cursor.write(src.0.as_slice())?;
        Some(Builder { cursor })
    }

    /// Take the cursor out of the builder
    pub fn take_cursor(self) -> (c: PacketCursor)
        ensures
            c == self.cursor,
    {
        self.cursor
    }
}

} // verus!
