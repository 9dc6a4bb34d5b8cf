//! The URB header shared by all URB frames, and its enumerated fields.

use crate::wire::{get_u32, lemma_read_u32_at, read_u32, u32_bytes, u32_to_be};
use crate::UsbIpError;
use vstd::prelude::*;

verus! {

/// The command type of the Urb
#[derive(Debug, Clone, Copy, PartialEq, Eq, Structural)]
pub enum UsbCmd {
    Request,
    UnlinkRequest,
    Response,
    UnlinkResponse,
}

impl UsbCmd {
    /// The command's wire code.
    pub open spec fn spec_to_u32(self) -> u32 {
        match self {
            UsbCmd::Request => 1,
            UsbCmd::UnlinkRequest => 2,
            UsbCmd::Response => 3,
            UsbCmd::UnlinkResponse => 4,
        }
    }

    /// The command with wire code `num`, if there is one.
    pub open spec fn spec_from_u32(num: u32) -> Option<UsbCmd> {
        if num == 1 {
            Some(UsbCmd::Request)
        } else if num == 2 {
            Some(UsbCmd::UnlinkRequest)
        } else if num == 3 {
            Some(UsbCmd::Response)
        } else if num == 4 {
            Some(UsbCmd::UnlinkResponse)
        } else {
            None
        }
    }

    pub fn to_u32(self) -> (r: u32)
        ensures
            r == self.spec_to_u32(),
    {
        match self {
            UsbCmd::Request => 1,
            UsbCmd::UnlinkRequest => 2,
            UsbCmd::Response => 3,
            UsbCmd::UnlinkResponse => 4,
        }
    }

    pub fn try_from_u32(num: u32) -> (r: Option<Self>)
        ensures
            r == Self::spec_from_u32(num),
    {
        match num {
            1 => Some(UsbCmd::Request),
            2 => Some(UsbCmd::UnlinkRequest),
            3 => Some(UsbCmd::Response),
            4 => Some(UsbCmd::UnlinkResponse),
            _ => None,
        }
    }
}

/// Every command survives the trip through its wire code.
pub proof fn lemma_usb_cmd_round_trip(c: UsbCmd)
    ensures
        UsbCmd::spec_from_u32(c.spec_to_u32()) == Some(c),
{
}

/// The direction of a transfer, seen from the host.
#[derive(Debug, Clone, Copy, PartialEq, Eq, Structural)]
pub enum Direction {
    OUT,
    IN,
}

impl Direction {
    /// The direction's wire value.
    pub open spec fn spec_bits(self) -> u32 {
        match self {
            Direction::OUT => 0,
            Direction::IN => 1,
        }
    }

    /// The direction that the wire value `bits` selects; only its lowest bit counts.
    pub open spec fn spec_from_bits(bits: u32) -> Direction {
        if bits % 2 == 0 {
            Direction::OUT
        } else {
            Direction::IN
        }
    }

    pub fn bits(self) -> (r: u32)
        ensures
            r == self.spec_bits(),
    {
        match self {
            Direction::OUT => 0,
            Direction::IN => 1,
        }
    }

    pub fn from_bits_truncate(bits: u32) -> (r: Direction)
        ensures
            r == Self::spec_from_bits(bits),
    {
        if bits % 2 == 0 {
            Direction::OUT
        } else {
            Direction::IN
        }
    }
}

/// The URB flag that asks for a trailing zero-length packet.
pub const ZERO_PACKET: u32 = 0x40;

/// All URB flags that this crate knows.
pub const KNOWN_TRANSFER_FLAGS: u32 = 0x3c7;

/// The set of flags of a submitted URB.
#[derive(Debug, Clone, Copy, PartialEq, Eq, Structural)]
pub struct TransferFlags {
    pub bits: u32,
}

impl TransferFlags {
    /// Holds only known flags.
    pub open spec fn wf(self) -> bool {
        self.bits & KNOWN_TRANSFER_FLAGS == self.bits
    }

    /// The flag set with the known flags of `bits`; the others are dropped.
    pub fn from_bits_truncate(bits: u32) -> (r: TransferFlags)
        ensures
            r.bits == bits & KNOWN_TRANSFER_FLAGS,
            r.wf(),
    {
        let r = TransferFlags { bits: bits & KNOWN_TRANSFER_FLAGS };
        assert((bits & 0x3c7u32) & 0x3c7u32 == bits & 0x3c7u32) by (bit_vector);
        r
    }

    pub fn bits(&self) -> (r: u32)
        ensures
            r == self.bits,
    {
        self.bits
    }

    /// Whether every flag of `flags` is set.
    pub fn contains(&self, flags: u32) -> (r: bool)
        ensures
            r == (self.bits & flags == flags),
    {
        self.bits & flags == flags
    }
}

/// The fixed header that starts every URB frame.
#[derive(Debug, Clone, Copy, PartialEq, Eq, Structural)]
pub struct UsbIpHeader {
    pub command: UsbCmd,
    pub seqnum: u32,
    pub devid: u32,
    pub direction: Direction,
    pub ep: u32,
}

impl UsbIpHeader {
    /// The header's 20 bytes on the wire.
    pub open spec fn spec_bytes(self) -> Seq<u8> {
        u32_bytes(self.command.spec_to_u32()) + u32_bytes(self.seqnum) + u32_bytes(self.devid)
            + u32_bytes(self.direction.spec_bits()) + u32_bytes(self.ep)
    }

    /// The header that the 20 bytes at the start of `b` hold, or the error for an
    /// unknown command code.
    pub open spec fn spec_parse(b: Seq<u8>) -> Result<UsbIpHeader, UsbIpError> {
        match UsbCmd::spec_from_u32(read_u32(b, 0)) {
            Some(command) => Ok(
                UsbIpHeader {
                    command,
                    seqnum: read_u32(b, 4),
                    devid: read_u32(b, 8),
                    direction: Direction::spec_from_bits(read_u32(b, 12)),
                    ep: read_u32(b, 16),
                },
            ),
            None => Err(UsbIpError::InvalidCommand(read_u32(b, 0))),
        }
    }

    pub fn to_array(&self) -> (r: [u8; 20])
        ensures
            r@ == self.spec_bytes(),
    {
        let c = u32_to_be(self.command.to_u32());
        let s = u32_to_be(self.seqnum);
        let d = u32_to_be(self.devid);
        let r = u32_to_be(self.direction.bits());
        let e = u32_to_be(self.ep);
        let out = [
            c[0], c[1], c[2], c[3],
            s[0], s[1], s[2], s[3],
            d[0], d[1], d[2], d[3],
            r[0], r[1], r[2], r[3],
            e[0], e[1], e[2], e[3],
        ];
        assert(out@ =~= self.spec_bytes());
        out
    }

    pub fn from_slice(data: &[u8]) -> (r: Result<Self, UsbIpError>)
        requires
            data@.len() >= 20,
        ensures
            r == Self::spec_parse(data@),
    {
        let code = get_u32(data, 0);
        match UsbCmd::try_from_u32(code) {
            Some(command) => Ok(
                UsbIpHeader {
                    command,
                    seqnum: get_u32(data, 4),
                    devid: get_u32(data, 8),
                    direction: Direction::from_bits_truncate(get_u32(data, 12)),
                    ep: get_u32(data, 16),
                },
            ),
            None => Err(UsbIpError::InvalidCommand(code)),
        }
    }
}

/// Decoding an encoded URB header gives the header back.
pub proof fn lemma_header_round_trip(h: UsbIpHeader)
    ensures
        UsbIpHeader::spec_parse(h.spec_bytes()) == Ok::<UsbIpHeader, UsbIpError>(h),
{
    let b = h.spec_bytes();
    assert(b.subrange(0, 4) =~= u32_bytes(h.command.spec_to_u32()));
    assert(b.subrange(4, 8) =~= u32_bytes(h.seqnum));
    assert(b.subrange(8, 12) =~= u32_bytes(h.devid));
    assert(b.subrange(12, 16) =~= u32_bytes(h.direction.spec_bits()));
    assert(b.subrange(16, 20) =~= u32_bytes(h.ep));
    lemma_read_u32_at(b, 0, h.command.spec_to_u32());
    lemma_read_u32_at(b, 4, h.seqnum);
    lemma_read_u32_at(b, 8, h.devid);
    lemma_read_u32_at(b, 12, h.direction.spec_bits());
    lemma_read_u32_at(b, 16, h.ep);
}

} // verus!
