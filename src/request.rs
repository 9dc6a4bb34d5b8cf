//! URB requests that the host sends: CMD_SUBMIT and CMD_UNLINK.

use crate::cmd::{Direction, TransferFlags, UsbCmd, UsbIpHeader, KNOWN_TRANSFER_FLAGS};
use crate::cmd::lemma_header_round_trip;
use crate::wire::{
    append_bytes, copy_range, get_i32, get_u32, i32_bytes, i32_to_be, lemma_read_i32_at, lemma_read_u32_at,
    read_i32, read_u32, u32_bytes, u32_to_be, zeros,
};
use crate::UsbIpError;
use vstd::prelude::*;

verus! {

/// The size of a URB header and the command body after it.
pub const URB_FRAME_LEN: usize = 48;

/// A URB request: its header, its command body and, for an OUT submit, the
/// data that follows.
#[derive(Debug, Clone)]
pub struct UsbIpRequest {
    pub header: UsbIpHeader,
    pub cmd: UsbIpRequestCmd,
    pub data: Vec<u8>,
}

#[derive(Debug, Clone, Copy)]
pub enum UsbIpRequestCmd {
    Cmd(UsbIpCmdSubmit),
    Unlink(UsbIpCmdUnlink),
}

/// The body of a CMD_SUBMIT.
#[derive(Debug, Clone, Copy)]
pub struct UsbIpCmdSubmit {
    pub transfer_flags: TransferFlags,
    pub transfer_buffer_length: i32,
    pub start_frame: i32,
    pub number_of_packets: i32,
    pub interval: i32,
    pub setup: [u8; 8],
}

impl UsbIpCmdSubmit {
    /// Holds only known transfer flags.
    pub open spec fn wf(self) -> bool {
        self.transfer_flags.wf()
    }

    /// The body's 28 bytes on the wire.
    pub open spec fn spec_bytes(self) -> Seq<u8> {
        u32_bytes(self.transfer_flags.bits) + i32_bytes(self.transfer_buffer_length) + i32_bytes(
            self.start_frame,
        ) + i32_bytes(self.number_of_packets) + i32_bytes(self.interval) + self.setup@
    }

    /// `x` is the body that the 28 bytes at the start of `b` hold.
    pub open spec fn spec_parses(b: Seq<u8>, x: UsbIpCmdSubmit) -> bool {
        &&& x.transfer_flags.bits == read_u32(b, 0) & KNOWN_TRANSFER_FLAGS
        &&& x.transfer_buffer_length == read_i32(b, 4)
        &&& x.start_frame == read_i32(b, 8)
        &&& x.number_of_packets == read_i32(b, 12)
        &&& x.interval == read_i32(b, 16)
        &&& x.setup@ == b.subrange(20, 28)
    }

    /// Whether the setup bytes are all zero.
    pub open spec fn spec_has_setup(self) -> bool {
        self.setup@ != seq![0u8, 0u8, 0u8, 0u8, 0u8, 0u8, 0u8, 0u8]
    }

    pub fn has_setup(&self) -> (r: bool)
        ensures
            r == self.spec_has_setup(),
    {
        let s = self.setup;
        let r = s[0] != 0 || s[1] != 0 || s[2] != 0 || s[3] != 0 || s[4] != 0 || s[5] != 0 || s[6]
            != 0 || s[7] != 0;
        if !r {
            assert(s@ =~= seq![0u8, 0u8, 0u8, 0u8, 0u8, 0u8, 0u8, 0u8]);
        }
        r
    }

    pub fn to_array(&self) -> (r: [u8; 28])
        ensures
            r@ == self.spec_bytes(),
    {
        let f = u32_to_be(self.transfer_flags.bits);
        let l = i32_to_be(self.transfer_buffer_length);
        let s = i32_to_be(self.start_frame);
        let n = i32_to_be(self.number_of_packets);
        let i = i32_to_be(self.interval);
        let u = self.setup;
        let out = [
            f[0], f[1], f[2], f[3],
            l[0], l[1], l[2], l[3],
            s[0], s[1], s[2], s[3],
            n[0], n[1], n[2], n[3],
            i[0], i[1], i[2], i[3],
            u[0], u[1], u[2], u[3], u[4], u[5], u[6], u[7],
        ];
        assert(out@ =~= self.spec_bytes());
        out
    }

    pub fn from_slice(data: &[u8]) -> (r: Self)
        requires
            data@.len() >= 28,
        ensures
            Self::spec_parses(data@, r),
            r.wf(),
    {
        let setup = [data[20], data[21], data[22], data[23], data[24], data[25], data[26], data[27]];
        assert(setup@ =~= data@.subrange(20, 28));
        UsbIpCmdSubmit {
            transfer_flags: TransferFlags::from_bits_truncate(get_u32(data, 0)),
            transfer_buffer_length: get_i32(data, 4),
            start_frame: get_i32(data, 8),
            number_of_packets: get_i32(data, 12),
            interval: get_i32(data, 16),
            setup,
        }
    }
}

/// Decoding an encoded CMD_SUBMIT body gives the body back.
pub proof fn lemma_cmd_submit_round_trip(x: UsbIpCmdSubmit)
    requires
        x.wf(),
    ensures
        UsbIpCmdSubmit::spec_parses(x.spec_bytes(), x),
{
    let b = x.spec_bytes();
    assert(b.subrange(0, 4) =~= u32_bytes(x.transfer_flags.bits));
    assert(b.subrange(4, 8) =~= i32_bytes(x.transfer_buffer_length));
    assert(b.subrange(8, 12) =~= i32_bytes(x.start_frame));
    assert(b.subrange(12, 16) =~= i32_bytes(x.number_of_packets));
    assert(b.subrange(16, 20) =~= i32_bytes(x.interval));
    assert(b.subrange(20, 28) =~= x.setup@);
    lemma_read_u32_at(b, 0, x.transfer_flags.bits);
    lemma_read_i32_at(b, 4, x.transfer_buffer_length);
    lemma_read_i32_at(b, 8, x.start_frame);
    lemma_read_i32_at(b, 12, x.number_of_packets);
    lemma_read_i32_at(b, 16, x.interval);
}

/// The body of a CMD_UNLINK: the sequence number of the URB to cancel.
#[derive(Debug, Clone, Copy, PartialEq, Eq, Structural)]
pub struct UsbIpCmdUnlink {
    pub seqnum: u32,
}

impl UsbIpCmdUnlink {
    /// The body's 28 bytes on the wire.
    pub open spec fn spec_bytes(self) -> Seq<u8> {
        u32_bytes(self.seqnum) + zeros(24)
    }

    /// The body that the bytes at the start of `b` hold.
    pub open spec fn spec_parse(b: Seq<u8>) -> UsbIpCmdUnlink {
        UsbIpCmdUnlink { seqnum: read_u32(b, 0) }
    }

    pub fn to_array(&self) -> (r: [u8; 28])
        ensures
            r@ == self.spec_bytes(),
    {
        let s = u32_to_be(self.seqnum);
        let out = [
            s[0], s[1], s[2], s[3],
            0, 0, 0, 0, 0, 0, 0, 0, 0, 0, 0, 0,
            0, 0, 0, 0, 0, 0, 0, 0, 0, 0, 0, 0,
        ];
        assert(out@ =~= self.spec_bytes());
        out
    }

    pub fn from_slice(data: &[u8]) -> (r: Self)
        requires
            data@.len() >= 4,
        ensures
            r == Self::spec_parse(data@),
    {
        UsbIpCmdUnlink { seqnum: get_u32(data, 0) }
    }
}

/// Decoding an encoded CMD_UNLINK body gives the body back.
pub proof fn lemma_cmd_unlink_round_trip(x: UsbIpCmdUnlink)
    ensures
        UsbIpCmdUnlink::spec_parse(x.spec_bytes()) == x,
{
    let b = x.spec_bytes();
    assert(b.subrange(0, 4) =~= u32_bytes(x.seqnum));
    lemma_read_u32_at(b, 0, x.seqnum);
}

impl UsbIpRequestCmd {
    /// The body's 28 bytes on the wire.
    pub open spec fn spec_bytes(self) -> Seq<u8> {
        match self {
            UsbIpRequestCmd::Cmd(c) => c.spec_bytes(),
            UsbIpRequestCmd::Unlink(u) => u.spec_bytes(),
        }
    }
}

impl UsbIpRequest {
    /// The header's command matches the body, the flags are known ones, and
    /// the data is there exactly for an OUT submit with a positive length.
    pub open spec fn wf(self) -> bool {
        match self.cmd {
            UsbIpRequestCmd::Cmd(c) => {
                &&& self.header.command == UsbCmd::Request
                &&& c.wf()
                &&& self.data@.len() == if self.header.direction == Direction::OUT
                    && c.transfer_buffer_length > 0 {
                    c.transfer_buffer_length as int
                } else {
                    0
                }
            },
            UsbIpRequestCmd::Unlink(_) => {
                &&& self.header.command == UsbCmd::UnlinkRequest
                &&& self.data@.len() == 0
            },
        }
    }

    /// The request's bytes on the wire.
    pub open spec fn spec_bytes(self) -> Seq<u8> {
        self.header.spec_bytes() + self.cmd.spec_bytes() + self.data@
    }

    /// Encodes the request.
    pub fn to_vec(&self) -> (r: Vec<u8>)
        ensures
            r@ == self.spec_bytes(),
    {
        let mut result: Vec<u8> = Vec::new();
        let h = self.header.to_array();
        append_bytes(&mut result, &h);
        match self.cmd {
            UsbIpRequestCmd::Cmd(ref cmd) => {
                let c = cmd.to_array();
                append_bytes(&mut result, &c);
            },
            UsbIpRequestCmd::Unlink(ref unlink) => {
                let u = unlink.to_array();
                append_bytes(&mut result, &u);
            },
        }
        append_bytes(&mut result, self.data.as_slice());
        assert(result@ =~= self.spec_bytes());
        result
    }

    /// How many bytes of data follow the 48 bytes at the start of `b`: the
    /// transfer length of an OUT submit when it is positive, else none.
    pub open spec fn spec_payload_len(b: Seq<u8>) -> int {
        if read_u32(b, 0) == 1 && Direction::spec_from_bits(read_u32(b, 12)) == Direction::OUT
            && read_i32(b, 24) > 0 {
            read_i32(b, 24) as int
        } else {
            0
        }
    }

    /// `r` is what decoding the frame `b` gives.
    pub open spec fn spec_decodes(b: Seq<u8>, r: Result<UsbIpRequest, UsbIpError>) -> bool {
        if b.len() < 48 {
            r == Err::<UsbIpRequest, UsbIpError>(UsbIpError::PkgTooShort(b.len() as usize))
        } else {
            match UsbIpHeader::spec_parse(b) {
                Err(e) => r == Err::<UsbIpRequest, UsbIpError>(e),
                Ok(h) => match h.command {
                    UsbCmd::Request => if b.len() < 48 + Self::spec_payload_len(b) {
                        r == Err::<UsbIpRequest, UsbIpError>(
                            UsbIpError::PkgTooShort(b.len() as usize),
                        )
                    } else {
                        &&& r is Ok
                        &&& r->Ok_0.header == h
                        &&& r->Ok_0.cmd is Cmd
                        &&& UsbIpCmdSubmit::spec_parses(b.subrange(20, 48), r->Ok_0.cmd->Cmd_0)
                        &&& r->Ok_0.data@ == b.subrange(48, 48 + Self::spec_payload_len(b))
                    },
                    UsbCmd::UnlinkRequest => {
                        &&& r is Ok
                        &&& r->Ok_0.header == h
                        &&& r->Ok_0.cmd == UsbIpRequestCmd::Unlink(
                            UsbIpCmdUnlink::spec_parse(b.subrange(20, 48)),
                        )
                        &&& r->Ok_0.data@.len() == 0
                    },
                    _ => r == Err::<UsbIpRequest, UsbIpError>(
                        UsbIpError::InvalidCommand(h.command.spec_to_u32()),
                    ),
                },
            }
        }
    }

    /// How many bytes of data follow the 48-byte frame that starts `head`.
    pub fn payload_len(head: &[u8]) -> (r: usize)
        requires
            head@.len() >= 48,
        ensures
            r == Self::spec_payload_len(head@),
    {
        let tbl = get_i32(head, 24);
        if get_u32(head, 0) == 1 && Direction::from_bits_truncate(get_u32(head, 12))
            == Direction::OUT && tbl > 0 {
            tbl as usize
        } else {
            0
        }
    }

    /// Decodes a whole URB request: the 48-byte frame and the data of an OUT submit.
    pub fn from_slice(buf: &[u8]) -> (r: Result<Self, UsbIpError>)
        ensures
            Self::spec_decodes(buf@, r),
    {
        if buf.len() < URB_FRAME_LEN {
            return Err(UsbIpError::PkgTooShort(buf.len()));
        }
        let header = match UsbIpHeader::from_slice(buf) {
            Ok(h) => h,
            Err(e) => return Err(e),
        };
        let body = vstd::slice::slice_subrange(buf, 20, 48);
        match header.command {
            UsbCmd::Request => {
                let n = Self::payload_len(buf);
                if buf.len() - URB_FRAME_LEN < n {
                    return Err(UsbIpError::PkgTooShort(buf.len()));
                }
                let cmd = UsbIpCmdSubmit::from_slice(body);
                let data = copy_range(buf, 48, 48 + n);
                Ok(UsbIpRequest { header, cmd: UsbIpRequestCmd::Cmd(cmd), data })
            },
            UsbCmd::UnlinkRequest => {
                let unlink = UsbIpCmdUnlink::from_slice(body);
                Ok(UsbIpRequest { header, cmd: UsbIpRequestCmd::Unlink(unlink), data: Vec::new() })
            },
            _ => Err(UsbIpError::InvalidCommand(header.command.to_u32())),
        }
    }
}

/// Decoding an encoded URB request gives the request back.
pub proof fn lemma_request_round_trip(q: UsbIpRequest)
    requires
        q.wf(),
    ensures
        UsbIpRequest::spec_decodes(q.spec_bytes(), Ok(q)),
{
    let b = q.spec_bytes();
    let hb = q.header.spec_bytes();
    let body = q.cmd.spec_bytes();
    lemma_header_round_trip(q.header);
    assert(b.subrange(0, 20) =~= hb);
    assert forall|i: int| 0 <= i < 20 implies b[i] == hb[i] by {
        assert(b[i] == b.subrange(0, 20)[i]);
    }
    assert(UsbIpHeader::spec_parse(b) == UsbIpHeader::spec_parse(hb));
    assert(b.subrange(20, 48) =~= body);
    assert(b.subrange(48, b.len() as int) =~= q.data@);
    match q.cmd {
        UsbIpRequestCmd::Cmd(c) => {
            lemma_cmd_submit_round_trip(c);
            assert(b.subrange(24, 28) =~= i32_bytes(c.transfer_buffer_length));
            lemma_read_i32_at(b, 24, c.transfer_buffer_length);
            assert(b.subrange(0, 4) =~= u32_bytes(1));
            lemma_read_u32_at(b, 0, 1);
            assert(b.subrange(12, 16) =~= u32_bytes(q.header.direction.spec_bits()));
            lemma_read_u32_at(b, 12, q.header.direction.spec_bits());
        },
        UsbIpRequestCmd::Unlink(u) => {
            lemma_cmd_unlink_round_trip(u);
        },
    }
}

} // verus!
