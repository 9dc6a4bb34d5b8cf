//! URB replies that the device sends: RET_SUBMIT and RET_UNLINK.

use crate::cmd::UsbIpHeader;
use crate::wire::{
    append_bytes, get_i32, get_u32, i32_bytes, i32_to_be, lemma_read_i32_at, lemma_read_u32_at,
    read_i32, read_u32, u32_bytes, u32_to_be, zeros,
};
use vstd::prelude::*;

verus! {

/// A URB reply: its header, its body and, for an IN submit, the data returned.
#[derive(Debug, Clone)]
pub struct UsbIpResponse {
    pub header: UsbIpHeader,
    pub cmd: UsbIpResponseCmd,
    pub data: Vec<u8>,
}

#[derive(Debug, Clone, Copy, PartialEq, Eq, Structural)]
pub enum UsbIpResponseCmd {
    Cmd(UsbIpRetSubmit),
    Unlink(UsbIpRetUnlink),
}

/// A reply as a value.
pub struct ReplyView {
    pub header: UsbIpHeader,
    pub cmd: UsbIpResponseCmd,
    pub data: Seq<u8>,
}

impl View for UsbIpResponse {
    type V = ReplyView;

    open spec fn view(&self) -> ReplyView {
        ReplyView { header: self.header, cmd: self.cmd, data: self.data@ }
    }
}

impl UsbIpResponseCmd {
    /// The body's 28 bytes on the wire.
    pub open spec fn spec_bytes(self) -> Seq<u8> {
        match self {
            UsbIpResponseCmd::Cmd(c) => c.spec_bytes(),
            UsbIpResponseCmd::Unlink(u) => u.spec_bytes(),
        }
    }
}

impl UsbIpResponse {
    /// The reply's bytes on the wire.
    pub open spec fn spec_bytes(self) -> Seq<u8> {
        self.header.spec_bytes() + self.cmd.spec_bytes() + self.data@
    }

    /// Encodes the reply; this always succeeds.
    pub fn to_vec(&self) -> (r: Option<Vec<u8>>)
        ensures
            r is Some,
            r->0@ == self.spec_bytes(),
    {
        let mut result: Vec<u8> = Vec::new();
        let h = self.header.to_array();
        append_bytes(&mut result, &h);
        match self.cmd {
            UsbIpResponseCmd::Cmd(ref cmd) => {
                let c = cmd.to_array();
                append_bytes(&mut result, &c);
            },
            UsbIpResponseCmd::Unlink(ref unlink) => {
                let u = unlink.to_array();
                append_bytes(&mut result, &u);
            },
        }
        append_bytes(&mut result, self.data.as_slice());
        assert(result@ =~= self.spec_bytes());
        Some(result)
    }
}

/// The body of a RET_SUBMIT.
#[derive(Debug, Clone, Copy, PartialEq, Eq, Structural)]
pub struct UsbIpRetSubmit {
    pub status: i32,
    pub actual_length: i32,
    pub start_frame: i32,
    pub number_of_packets: i32,
    pub error_count: i32,
}

impl UsbIpRetSubmit {
    /// The body's 28 bytes on the wire; the last 8 are padding.
    pub open spec fn spec_bytes(self) -> Seq<u8> {
        i32_bytes(self.status) + i32_bytes(self.actual_length) + i32_bytes(self.start_frame)
            + i32_bytes(self.number_of_packets) + i32_bytes(self.error_count) + zeros(8)
    }

    /// The body that the bytes at the start of `b` hold.
    pub open spec fn spec_parse(b: Seq<u8>) -> UsbIpRetSubmit {
        UsbIpRetSubmit {
            status: read_i32(b, 0),
            actual_length: read_i32(b, 4),
            start_frame: read_i32(b, 8),
            number_of_packets: read_i32(b, 12),
            error_count: read_i32(b, 16),
        }
    }

    pub fn to_array(&self) -> (r: [u8; 28])
        ensures
            r@ == self.spec_bytes(),
    {
        let s = i32_to_be(self.status);
        let a = i32_to_be(self.actual_length);
        let f = i32_to_be(self.start_frame);
        let n = i32_to_be(self.number_of_packets);
        let e = i32_to_be(self.error_count);
        let out = [
            s[0], s[1], s[2], s[3],
            a[0], a[1], a[2], a[3],
            f[0], f[1], f[2], f[3],
            n[0], n[1], n[2], n[3],
            e[0], e[1], e[2], e[3],
            0, 0, 0, 0, 0, 0, 0, 0,
        ];
        assert(out@ =~= self.spec_bytes());
        out
    }

    pub fn from_slice(data: &[u8]) -> (r: Self)
        requires
            data@.len() >= 20,
        ensures
            r == Self::spec_parse(data@),
    {
        UsbIpRetSubmit {
            status: get_i32(data, 0),
            actual_length: get_i32(data, 4),
            start_frame: get_i32(data, 8),
            number_of_packets: get_i32(data, 12),
            error_count: get_i32(data, 16),
        }
    }
}

/// Decoding an encoded RET_SUBMIT body gives the body back.
pub proof fn lemma_ret_submit_round_trip(x: UsbIpRetSubmit)
    ensures
        UsbIpRetSubmit::spec_parse(x.spec_bytes()) == x,
{
    let b = x.spec_bytes();
    assert(b.subrange(0, 4) =~= i32_bytes(x.status));
    assert(b.subrange(4, 8) =~= i32_bytes(x.actual_length));
    assert(b.subrange(8, 12) =~= i32_bytes(x.start_frame));
    assert(b.subrange(12, 16) =~= i32_bytes(x.number_of_packets));
    assert(b.subrange(16, 20) =~= i32_bytes(x.error_count));
    lemma_read_i32_at(b, 0, x.status);
    lemma_read_i32_at(b, 4, x.actual_length);
    lemma_read_i32_at(b, 8, x.start_frame);
    lemma_read_i32_at(b, 12, x.number_of_packets);
    lemma_read_i32_at(b, 16, x.error_count);
}

/// The body of a RET_UNLINK.
#[derive(Debug, Clone, Copy, PartialEq, Eq, Structural)]
pub struct UsbIpRetUnlink {
    pub status: u32,
}

impl UsbIpRetUnlink {
    /// The body's 28 bytes on the wire; the last 24 are padding.
    pub open spec fn spec_bytes(self) -> Seq<u8> {
        u32_bytes(self.status) + zeros(24)
    }

    /// The body that the bytes at the start of `b` hold.
    pub open spec fn spec_parse(b: Seq<u8>) -> UsbIpRetUnlink {
        UsbIpRetUnlink { status: read_u32(b, 0) }
    }

    pub fn to_array(&self) -> (r: [u8; 28])
        ensures
            r@ == self.spec_bytes(),
    {
        let s = u32_to_be(self.status);
        let out = [
            s[0], s[1], s[2], s[3],
            0, 0, 0, 0, 0, 0, 0, 0, 0, 0, 0, 0,
            0, 0, 0, 0, 0, 0, 0, 0, 0, 0, 0, 0,
        ];
        assert(out@ =~= self.spec_bytes());
        out
    }

    pub fn from_slice(data: &[u8]) -> (r: Self)
        requires
            data@.len() >= 4,
        ensures
            r == Self::spec_parse(data@),
    {
        UsbIpRetUnlink { status: get_u32(data, 0) }
    }
}

/// Decoding an encoded RET_UNLINK body gives the body back.
pub proof fn lemma_ret_unlink_round_trip(x: UsbIpRetUnlink)
    ensures
        UsbIpRetUnlink::spec_parse(x.spec_bytes()) == x,
{
    let b = x.spec_bytes();
    assert(b.subrange(0, 4) =~= u32_bytes(x.status));
    lemma_read_u32_at(b, 0, x.status);
}

} // verus!
