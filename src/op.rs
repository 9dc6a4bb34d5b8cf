//! The OP sub-protocol: listing the exported device and importing it.

use crate::wire::{
    append_bytes, append_zeros, get_u16, get_u32, lemma_read_u16_at, lemma_read_u32_at, read_u16,
    read_u32, u16_bytes, u16_to_be, u32_bytes, u32_to_be, zeros,
};
use crate::UsbIpError;
use vstd::prelude::*;
use vstd::utf8::{encode_utf8, valid_utf8};

verus! {

/// Request code: list the exported devices.
pub const OP_REQ_DEVLIST: u16 = 0x8005;

/// Request code: import (attach) a device.
pub const OP_REQ_IMPORT: u16 = 0x8003;

/// Reply code to a device list request.
pub const OP_REP_DEVLIST: u16 = 0x0005;

/// Reply code to an import request.
pub const OP_REP_IMPORT: u16 = 0x0003;

/// The size of an OP header.
pub const OP_HEADER_LEN: usize = 8;

/// The size of the bus id that follows an import request's header.
pub const BUS_ID_LEN: usize = 32;

/// The size of the path field of a reply.
pub const PATH_LEN: usize = 256;

/// Relies on `std::str::from_utf8`: it succeeds exactly on valid UTF-8.
#[verifier::external_body]
fn is_utf8(b: &[u8]) -> (r: bool)
    ensures
        r == valid_utf8(b@),
{
    std::str::from_utf8(b).is_ok()
}

/// The header that starts every OP frame.
#[derive(Debug, Clone, Copy, PartialEq, Eq, Structural)]
pub struct OpHeader {
    pub version: u16,
    pub command: u16,
    pub status: u32,
}

impl OpHeader {
    /// The header's 8 bytes on the wire.
    pub open spec fn spec_bytes(self) -> Seq<u8> {
        u16_bytes(self.version) + u16_bytes(self.command) + u32_bytes(self.status)
    }

    /// The header that the 8 bytes at the start of `b` hold.
    pub open spec fn spec_parse(b: Seq<u8>) -> OpHeader {
        OpHeader { version: read_u16(b, 0), command: read_u16(b, 2), status: read_u32(b, 4) }
    }

    pub fn to_array(&self) -> (r: [u8; 8])
        ensures
            r@ == self.spec_bytes(),
    {
        let v = u16_to_be(self.version);
        let c = u16_to_be(self.command);
        let s = u32_to_be(self.status);
        let out = [v[0], v[1], c[0], c[1], s[0], s[1], s[2], s[3]];
        assert(out@ =~= self.spec_bytes());
        out
    }

    pub fn from_slice(data: &[u8]) -> (r: Self)
        requires
            data@.len() >= 8,
        ensures
            r == Self::spec_parse(data@),
    {
        OpHeader { version: get_u16(data, 0), command: get_u16(data, 2), status: get_u32(data, 4) }
    }

    /// How many bytes follow this header in a request: the bus id of an import.
    pub open spec fn spec_body_len(self) -> nat {
        if self.command == OP_REQ_IMPORT {
            BUS_ID_LEN as nat
        } else {
            0
        }
    }

    pub fn body_len(&self) -> (r: usize)
        ensures
            r == self.spec_body_len(),
    {
        if self.command == OP_REQ_IMPORT {
            BUS_ID_LEN
        } else {
            0
        }
    }
}

/// Decoding an encoded OP header gives the header back.
pub proof fn lemma_op_header_round_trip(h: OpHeader)
    ensures
        OpHeader::spec_parse(h.spec_bytes()) == h,
{
    let b = h.spec_bytes();
    assert(b.subrange(0, 2) =~= u16_bytes(h.version));
    assert(b.subrange(2, 4) =~= u16_bytes(h.command));
    assert(b.subrange(4, 8) =~= u32_bytes(h.status));
    lemma_read_u16_at(b, 0, h.version);
    lemma_read_u16_at(b, 2, h.command);
    lemma_read_u32_at(b, 4, h.status);
}

/// An OP request from the host.
#[derive(Debug, Clone, Copy, PartialEq, Eq, Structural)]
pub enum OpRequest {
    ListDevices(OpHeader),
    ConnectDevice(OpHeader),
}

impl OpRequest {
    /// What decoding the request frame `b` gives.
    pub open spec fn spec_parse(b: Seq<u8>) -> Result<OpRequest, UsbIpError> {
        if b.len() < 8 {
            Err(UsbIpError::PkgTooShort(b.len() as usize))
        } else {
            let h = OpHeader::spec_parse(b);
            if h.status != 0 {
                Err(UsbIpError::StatusNotOk(h.status))
            } else if h.command == OP_REQ_DEVLIST {
                Ok(OpRequest::ListDevices(h))
            } else if h.command == OP_REQ_IMPORT {
                if b.len() < 40 {
                    Err(UsbIpError::PkgTooShort(b.len() as usize))
                } else if !valid_utf8(b.subrange(8, 40)) {
                    Err(UsbIpError::BadUtf8)
                } else {
                    Ok(OpRequest::ConnectDevice(h))
                }
            } else {
                Err(UsbIpError::InvalidCommand(h.command as u32))
            }
        }
    }

    /// Decodes a request: its header and, for an import, the bus id after it.
    pub fn from_slice(data: &[u8]) -> (r: Result<Self, UsbIpError>)
        ensures
            r == Self::spec_parse(data@),
    {
        if data.len() < OP_HEADER_LEN {
            return Err(UsbIpError::PkgTooShort(data.len()));
        }
        let header = OpHeader::from_slice(data);
        if header.status != 0 {
            return Err(UsbIpError::StatusNotOk(header.status));
        }
        if header.command == OP_REQ_DEVLIST {
            Ok(OpRequest::ListDevices(header))
        } else if header.command == OP_REQ_IMPORT {
            if data.len() < OP_HEADER_LEN + BUS_ID_LEN {
                return Err(UsbIpError::PkgTooShort(data.len()));
            }
            let bus_id = vstd::slice::slice_subrange(data, 8, 40);
            if !is_utf8(bus_id) {
                return Err(UsbIpError::BadUtf8);
            }
            Ok(OpRequest::ConnectDevice(header))
        } else {
            Err(UsbIpError::InvalidCommand(header.command as u32))
        }
    }
}

/// A reply to an OP request.
#[derive(Debug, Clone)]
pub struct OpResponse {
    pub version: u16,
    pub path: String,
    pub bus_id: String,
    pub descriptor: OpDeviceDescriptor,
    pub cmd: OpResponseCommand,
}

#[derive(Debug, Clone, Copy, PartialEq, Eq, Structural)]
pub enum OpResponseCommand {
    ListDevices(OpInterfaceDescriptor),
    ConnectDevice,
}

/// `s` followed by zeros up to `n` bytes.
pub open spec fn padded(s: Seq<u8>, n: nat) -> Seq<u8> {
    s + zeros((n - s.len()) as nat)
}

impl OpResponseCommand {
    /// The reply code.
    pub open spec fn spec_reply_code(self) -> u16 {
        match self {
            OpResponseCommand::ListDevices(_) => OP_REP_DEVLIST,
            OpResponseCommand::ConnectDevice => OP_REP_IMPORT,
        }
    }

    /// The device count of a list reply (always one), nothing for an import.
    pub open spec fn spec_count_bytes(self) -> Seq<u8> {
        match self {
            OpResponseCommand::ListDevices(_) => u32_bytes(1),
            OpResponseCommand::ConnectDevice => Seq::empty(),
        }
    }

    /// The interface descriptor of a list reply, nothing for an import.
    pub open spec fn spec_interface_bytes(self) -> Seq<u8> {
        match self {
            OpResponseCommand::ListDevices(i) => i.spec_bytes(),
            OpResponseCommand::ConnectDevice => Seq::empty(),
        }
    }
}

impl OpResponse {
    /// The path as UTF-8 bytes.
    pub open spec fn spec_path_bytes(self) -> Seq<u8> {
        encode_utf8(self.path@)
    }

    /// The bus id as UTF-8 bytes.
    pub open spec fn spec_bus_id_bytes(self) -> Seq<u8> {
        encode_utf8(self.bus_id@)
    }

    /// The path and the bus id fit their fields.
    pub open spec fn spec_fits(self) -> bool {
        self.spec_path_bytes().len() <= PATH_LEN && self.spec_bus_id_bytes().len() <= BUS_ID_LEN
    }

    /// The reply's bytes on the wire.
    pub open spec fn spec_bytes(self) -> Seq<u8> {
        OpHeader {
            version: self.version,
            command: self.cmd.spec_reply_code(),
            status: 0,
        }.spec_bytes() + self.cmd.spec_count_bytes() + padded(
            self.spec_path_bytes(),
            PATH_LEN as nat,
        ) + padded(self.spec_bus_id_bytes(), BUS_ID_LEN as nat) + self.descriptor.spec_bytes()
            + self.cmd.spec_interface_bytes()
    }

    /// Encodes the reply; `None` when the path or the bus id is too long for its field.
    pub fn to_vec(&self) -> (r: Option<Vec<u8>>)
        ensures
            r is Some <==> self.spec_fits(),
            r is Some ==> r->0@ == self.spec_bytes(),
    {
        let mut result: Vec<u8> = Vec::new();
        let reply: u16 = match self.cmd {
            OpResponseCommand::ListDevices(_) => OP_REP_DEVLIST,
            OpResponseCommand::ConnectDevice => OP_REP_IMPORT,
        };
        let header = OpHeader { version: self.version, command: reply, status: 0 };
        let h = header.to_array();
        append_bytes(&mut result, &h);
        match self.cmd {
            OpResponseCommand::ListDevices(_) => {
                let count = u32_to_be(1);
                append_bytes(&mut result, &count);
            },
            OpResponseCommand::ConnectDevice => {},
        }
        let path = self.path.as_str().as_bytes();
        if path.len() > PATH_LEN {
            return None;
        }
        append_bytes(&mut result, path);
        append_zeros(&mut result, PATH_LEN - path.len());
        let bus_id = self.bus_id.as_str().as_bytes();
        if bus_id.len() > BUS_ID_LEN {
            return None;
        }
        append_bytes(&mut result, bus_id);
        append_zeros(&mut result, BUS_ID_LEN - bus_id.len());
        let d = self.descriptor.to_array();
        append_bytes(&mut result, &d);
        match self.cmd {
            OpResponseCommand::ListDevices(ref interface) => {
                let i = interface.to_array();
                append_bytes(&mut result, &i);
            },
            OpResponseCommand::ConnectDevice => {},
        }
        assert(result@ =~= self.spec_bytes());
        Some(result)
    }
}

/// The device descriptor of an OP reply.
#[derive(Debug, Clone, Copy, PartialEq, Eq, Structural)]
pub struct OpDeviceDescriptor {
    pub busnum: u32,
    pub devnum: u32,
    pub speed: u32,
    pub vendor: u16,
    pub product: u16,
    pub bcd_device: u16,
    pub device_class: u8,
    pub device_subclass: u8,
    pub device_protocol: u8,
    pub configuration_value: u8,
    pub num_configurations: u8,
    pub num_interfaces: u8,
}

impl OpDeviceDescriptor {
    /// The descriptor's 24 bytes on the wire.
    pub open spec fn spec_bytes(self) -> Seq<u8> {
        u32_bytes(self.busnum) + u32_bytes(self.devnum) + u32_bytes(self.speed) + u16_bytes(
            self.vendor,
        ) + u16_bytes(self.product) + u16_bytes(self.bcd_device) + seq![
            self.device_class,
            self.device_subclass,
            self.device_protocol,
            self.configuration_value,
            self.num_configurations,
            self.num_interfaces,
        ]
    }

    /// The descriptor that the 24 bytes at the start of `b` hold.
    pub open spec fn spec_parse(b: Seq<u8>) -> OpDeviceDescriptor {
        OpDeviceDescriptor {
            busnum: read_u32(b, 0),
            devnum: read_u32(b, 4),
            speed: read_u32(b, 8),
            vendor: read_u16(b, 12),
            product: read_u16(b, 14),
            bcd_device: read_u16(b, 16),
            device_class: b[18],
            device_subclass: b[19],
            device_protocol: b[20],
            configuration_value: b[21],
            num_configurations: b[22],
            num_interfaces: b[23],
        }
    }

    pub fn to_array(&self) -> (r: [u8; 24])
        ensures
            r@ == self.spec_bytes(),
    {
        let b = u32_to_be(self.busnum);
        let d = u32_to_be(self.devnum);
        let s = u32_to_be(self.speed);
        let v = u16_to_be(self.vendor);
        let p = u16_to_be(self.product);
        let c = u16_to_be(self.bcd_device);
        let out = [
            b[0], b[1], b[2], b[3],
            d[0], d[1], d[2], d[3],
            s[0], s[1], s[2], s[3],
            v[0], v[1], p[0], p[1], c[0], c[1],
            self.device_class,
            self.device_subclass,
            self.device_protocol,
            self.configuration_value,
            self.num_configurations,
            self.num_interfaces,
        ];
        assert(out@ =~= self.spec_bytes());
        out
    }

    pub fn from_slice(data: &[u8]) -> (r: Self)
        requires
            data@.len() >= 24,
        ensures
            r == Self::spec_parse(data@),
    {
        OpDeviceDescriptor {
            busnum: get_u32(data, 0),
            devnum: get_u32(data, 4),
            speed: get_u32(data, 8),
            vendor: get_u16(data, 12),
            product: get_u16(data, 14),
            bcd_device: get_u16(data, 16),
            device_class: data[18],
            device_subclass: data[19],
            device_protocol: data[20],
            configuration_value: data[21],
            num_configurations: data[22],
            num_interfaces: data[23],
        }
    }
}

/// Decoding an encoded device descriptor gives the descriptor back.
pub proof fn lemma_device_descriptor_round_trip(x: OpDeviceDescriptor)
    ensures
        OpDeviceDescriptor::spec_parse(x.spec_bytes()) == x,
{
    let b = x.spec_bytes();
    assert(b.subrange(0, 4) =~= u32_bytes(x.busnum));
    assert(b.subrange(4, 8) =~= u32_bytes(x.devnum));
    assert(b.subrange(8, 12) =~= u32_bytes(x.speed));
    assert(b.subrange(12, 14) =~= u16_bytes(x.vendor));
    assert(b.subrange(14, 16) =~= u16_bytes(x.product));
    assert(b.subrange(16, 18) =~= u16_bytes(x.bcd_device));
    lemma_read_u32_at(b, 0, x.busnum);
    lemma_read_u32_at(b, 4, x.devnum);
    lemma_read_u32_at(b, 8, x.speed);
    lemma_read_u16_at(b, 12, x.vendor);
    lemma_read_u16_at(b, 14, x.product);
    lemma_read_u16_at(b, 16, x.bcd_device);
}

/// The interface descriptor of a list reply.
#[derive(Debug, Clone, Copy, PartialEq, Eq, Structural)]
pub struct OpInterfaceDescriptor {
    pub interface_class: u8,
    pub interface_subclass: u8,
    pub interface_protocol: u8,
    pub padding: u8,
}

impl OpInterfaceDescriptor {
    /// The descriptor's 4 bytes on the wire.
    pub open spec fn spec_bytes(self) -> Seq<u8> {
        seq![self.interface_class, self.interface_subclass, self.interface_protocol, self.padding]
    }

    /// The descriptor that the 4 bytes at the start of `b` hold.
    pub open spec fn spec_parse(b: Seq<u8>) -> OpInterfaceDescriptor {
        OpInterfaceDescriptor {
            interface_class: b[0],
            interface_subclass: b[1],
            interface_protocol: b[2],
            padding: b[3],
        }
    }

    pub fn to_array(&self) -> (r: [u8; 4])
        ensures
            r@ == self.spec_bytes(),
    {
        let out = [
            self.interface_class,
            self.interface_subclass,
            self.interface_protocol,
            self.padding,
        ];
        assert(out@ =~= self.spec_bytes());
        out
    }

    pub fn from_slice(data: &[u8]) -> (r: Self)
        requires
            data@.len() >= 4,
        ensures
            r == Self::spec_parse(data@),
    {
        OpInterfaceDescriptor {
            interface_class: data[0],
            interface_subclass: data[1],
            interface_protocol: data[2],
            padding: data[3],
        }
    }
}

/// Decoding an encoded interface descriptor gives the descriptor back.
pub proof fn lemma_interface_descriptor_round_trip(x: OpInterfaceDescriptor)
    ensures
        OpInterfaceDescriptor::spec_parse(x.spec_bytes()) == x,
{
}

} // verus!
