//! Attach-phase wire frames: `OP_REQ_DEVLIST` / `OP_REQ_IMPORT` requests
//! and their `OP_REP` responses.
//!
//! An op frame starts with an 8-byte header (`version:u16, code:u16,
//! status:u32`, big-endian).  An import request carries a 32-byte
//! NUL-padded bus id after the header.  Responses carry a fixed device
//! record (a 256-byte NUL-padded path, a 32-byte NUL-padded bus id, and a
//! 24-byte device descriptor); the device-list response additionally
//! carries the exported-device count before the record and a 4-byte
//! interface descriptor after it.

use vstd::prelude::*;

use crate::bytes::{
    be16_at, be16_bytes, be32_at, be32_bytes, push_u16_be, push_u32_be, read_u16_be, read_u32_be,
};

verus! {

/// Request code of `OP_REQ_DEVLIST`.
pub const OP_REQ_DEVLIST: u16 = 0x8005;

/// Request code of `OP_REQ_IMPORT`.
pub const OP_REQ_IMPORT: u16 = 0x8003;

/// Response code of `OP_REP_DEVLIST`.
pub const OP_REP_DEVLIST: u16 = 0x0005;

/// Response code of `OP_REP_IMPORT`.
pub const OP_REP_IMPORT: u16 = 0x0003;

/// The 8-byte header of every op frame.
#[derive(Debug, Clone, PartialEq, Eq, Structural)]
pub struct OpHeader {
    pub version: u16,
    pub command: u16,
    pub status: u32,
}

/// A request decoded from the client while the bus is in reset.
pub enum OpRequest {
    /// `OP_REQ_DEVLIST`: list the exported devices.
    ListDevices(OpHeader),
    /// `OP_REQ_IMPORT`: attach to the device with the carried bus id.
    /// The bus id is kept as the raw 32 NUL-padded bytes of the frame.
    ConnectDevice(OpHeader, Vec<u8>),
}

/// The fixed device record sent in op responses.
#[derive(Debug, Clone, PartialEq, Eq, Structural)]
pub struct OpDeviceDescriptor {
    pub busnum: u32,
    pub devnum: u32,
    pub speed: u32,
    pub vendor: u16,
    pub product: u16,
    pub bcd_device: u16,
    pub device_class: u8,
    pub device_subclass: u8,
    pub device_protocol: u8,
    pub configuration_value: u8,
    pub num_configurations: u8,
    pub num_interfaces: u8,
}

/// The 4-byte interface record sent in the device-list response.
#[derive(Debug, Clone, PartialEq, Eq, Structural)]
pub struct OpInterfaceDescriptor {
    pub interface_class: u8,
    pub interface_subclass: u8,
    pub interface_protocol: u8,
    pub padding: u8,
}

/// Which op response is being sent.
#[derive(Debug, Clone, PartialEq, Eq, Structural)]
pub enum OpResponseCommand {
    ListDevices(OpInterfaceDescriptor),
    ConnectDevice,
}

/// An op response: the header fields, the device record, and the kind.
pub struct OpResponse {
    pub version: u16,
    pub path: Vec<u8>,
    pub bus_id: Vec<u8>,
    pub descriptor: OpDeviceDescriptor,
    pub cmd: OpResponseCommand,
}

/// The wire bytes of an op header.
pub open spec fn op_header_bytes(h: OpHeader) -> Seq<u8> {
    be16_bytes(h.version) + be16_bytes(h.command) + be32_bytes(h.status)
}

/// The op header denoted by the first 8 bytes of `b`.
pub open spec fn spec_op_header_at(b: Seq<u8>) -> OpHeader {
    OpHeader { version: be16_at(b, 0), command: be16_at(b, 2), status: be32_at(b, 4) }
}

/// `b` extended with NUL bytes to length `n`.
pub open spec fn pad_bytes(b: Seq<u8>, n: int) -> Seq<u8> {
    b + Seq::new((n - b.len()) as nat, |i: int| 0u8)
}

/// The 24 wire bytes of the device record.
pub open spec fn descriptor_bytes(d: OpDeviceDescriptor) -> Seq<u8> {
    be32_bytes(d.busnum) + be32_bytes(d.devnum) + be32_bytes(d.speed) + be16_bytes(d.vendor)
        + be16_bytes(d.product) + be16_bytes(d.bcd_device) + seq![
        d.device_class,
        d.device_subclass,
        d.device_protocol,
        d.configuration_value,
        d.num_configurations,
        d.num_interfaces,
    ]
}

/// The 4 wire bytes of the interface record.
pub open spec fn interface_bytes(i: OpInterfaceDescriptor) -> Seq<u8> {
    seq![i.interface_class, i.interface_subclass, i.interface_protocol, i.padding]
}

/// The wire bytes of a full op response.
pub open spec fn op_response_bytes(r: OpResponse) -> Seq<u8> {
    match r.cmd {
        OpResponseCommand::ListDevices(intf) => op_header_bytes(
            OpHeader { version: r.version, command: OP_REP_DEVLIST, status: 0 },
        ) + be32_bytes(1) + pad_bytes(r.path@, 256) + pad_bytes(r.bus_id@, 32) + descriptor_bytes(
            r.descriptor,
        ) + interface_bytes(intf),
        OpResponseCommand::ConnectDevice => op_header_bytes(
            OpHeader { version: r.version, command: OP_REP_IMPORT, status: 0 },
        ) + pad_bytes(r.path@, 256) + pad_bytes(r.bus_id@, 32) + descriptor_bytes(r.descriptor),
    }
}

/// The wire bytes a client sends for an op request; the bus id of an
/// import request is its 32 padded bytes.
pub open spec fn op_request_bytes(r: OpRequest) -> Seq<u8> {
    match r {
        OpRequest::ListDevices(h) => op_header_bytes(h),
        OpRequest::ConnectDevice(h, bus_id) => op_header_bytes(h) + bus_id@,
    }
}

impl OpRequest {
    /// Decodes one op request from `data`.
    ///
    /// Returns `None` when the frame is too short, carries a non-zero
    /// status, an unknown code, or an import request shorter than its
    /// 32-byte bus id.
    pub fn from_slice(data: &[u8]) -> (r: Option<Self>)
        ensures
            data@.len() < 8 ==> r is None,
            data@.len() >= 8 ==> {
                let h = spec_op_header_at(data@);
                &&& h.status != 0 ==> r is None
                &&& h.status == 0 && h.command == OP_REQ_DEVLIST ==> r == Some(
                    OpRequest::ListDevices(h),
                )
                &&& h.status == 0 && h.command == OP_REQ_IMPORT && data@.len() >= 40 ==> {
                    &&& r matches Some(OpRequest::ConnectDevice(h2, bus_id))
                    &&& h2 == h
                    &&& bus_id@ == data@.subrange(8, 40)
                }
                &&& h.status == 0 && h.command == OP_REQ_IMPORT && data@.len() < 40 ==> r is None
                &&& h.status == 0 && h.command != OP_REQ_DEVLIST && h.command != OP_REQ_IMPORT
                    ==> r is None
            },
    {
        if data.len() < 8 {
            return None;
        }
        let header = OpHeader {
            version: read_u16_be(data, 0),
            command: read_u16_be(data, 2),
            status: read_u32_be(data, 4),
        };
        if header.status != 0 {
            return None;
        }
        if header.command == OP_REQ_DEVLIST {
            Some(Self::ListDevices(header))
        } else if header.command == OP_REQ_IMPORT {
            if data.len() < 40 {
                return None;
            }
            let bus_id = vstd::slice::slice_to_vec(vstd::slice::slice_subrange(data, 8, 40));
            Some(Self::ConnectDevice(header, bus_id))
        } else {
            None
        }
    }
}

/// Appends `b` and then NUL bytes until `n` bytes were appended.
fn push_padded(v: &mut Vec<u8>, b: &Vec<u8>, n: usize)
    requires
        b@.len() <= n,
    ensures
        final(v)@ == old(v)@ + pad_bytes(b@, n as int),
{
    let mut j: usize = 0;
    while j < b.len()
        invariant
            j <= b@.len(),
            v@ =~= old(v)@ + b@.subrange(0, j as int),
        decreases b@.len() - j,
    {
        v.push(b[j]);
        assert(b@.subrange(0, j + 1 as int) =~= b@.subrange(0, j as int) + seq![b@[j as int]]);
        j = j + 1;
    }
    assert(b@.subrange(0, b@.len() as int) =~= b@);
    while j < n
        invariant
            b@.len() <= j <= n,
            v@ =~= old(v)@ + b@ + Seq::new((j - b@.len()) as nat, |i: int| 0u8),
        decreases n - j,
    {
        v.push(0);
        assert(Seq::new((j + 1 - b@.len()) as nat, |i: int| 0u8) =~= Seq::new(
            (j - b@.len()) as nat,
            |i: int| 0u8,
        ) + seq![0u8]);
        j = j + 1;
    }
    assert(v@ =~= old(v)@ + pad_bytes(b@, n as int));
}

impl OpDeviceDescriptor {
    /// Encodes the device record as its 24 wire bytes.
    pub fn to_array(&self) -> (r: Vec<u8>)
        ensures
            r@ == descriptor_bytes(*self),
    {
        let mut result: Vec<u8> = Vec::new();
        push_u32_be(&mut result, self.busnum);
        push_u32_be(&mut result, self.devnum);
        push_u32_be(&mut result, self.speed);
        push_u16_be(&mut result, self.vendor);
        push_u16_be(&mut result, self.product);
        push_u16_be(&mut result, self.bcd_device);
        result.push(self.device_class);
        result.push(self.device_subclass);
        result.push(self.device_protocol);
        result.push(self.configuration_value);
        result.push(self.num_configurations);
        result.push(self.num_interfaces);
        assert(result@ =~= descriptor_bytes(*self));
        result
    }
}

impl OpResponse {
    /// Encodes the response as its wire bytes.
    ///
    /// Returns `None` exactly when the path exceeds its 256-byte slot or
    /// the bus id its 32-byte slot.
    pub fn to_vec(self) -> (r: Option<Vec<u8>>)
        ensures
            self.path@.len() <= 256 && self.bus_id@.len() <= 32 ==> (r matches Some(v) && v@
                == op_response_bytes(self)),
            self.path@.len() > 256 || self.bus_id@.len() > 32 ==> r is None,
    {
        if self.path.len() > 256 {
            return None;
        }
        if self.bus_id.len() > 32 {
            return None;
        }
        let reply: u16 = match self.cmd {
            OpResponseCommand::ListDevices(_) => OP_REP_DEVLIST,
            OpResponseCommand::ConnectDevice => OP_REP_IMPORT,
        };
        let mut result: Vec<u8> = Vec::new();
        push_u16_be(&mut result, self.version);
        push_u16_be(&mut result, reply);
        push_u32_be(&mut result, 0);
        if let OpResponseCommand::ListDevices(_) = self.cmd {
            push_u32_be(&mut result, 1);
        }
        push_padded(&mut result, &self.path, 256);
        push_padded(&mut result, &self.bus_id, 32);
        let mut descriptor = self.descriptor.to_array();
        result.append(&mut descriptor);
        if let OpResponseCommand::ListDevices(ref intf) = self.cmd {
            result.push(intf.interface_class);
            result.push(intf.interface_subclass);
            result.push(intf.interface_protocol);
            result.push(intf.padding);
        }
        assert(result@ =~= op_response_bytes(self));
        Some(result)
    }
}

/// Round trip: decoding the encoded bytes of an op request gives back the
/// request.
pub proof fn lemma_op_request_roundtrip(r: OpRequest)
    requires
        match r {
            OpRequest::ListDevices(h) => h.status == 0 && h.command == OP_REQ_DEVLIST,
            OpRequest::ConnectDevice(h, bus_id) => h.status == 0 && h.command == OP_REQ_IMPORT
                && bus_id@.len() == 32,
        },
    ensures
        ({
            let b = op_request_bytes(r);
            &&& spec_op_header_at(b) == match r {
                OpRequest::ListDevices(h) => h,
                OpRequest::ConnectDevice(h, _) => h,
            }
            &&& r matches OpRequest::ConnectDevice(h, bus_id) ==> b.len() == 40 && bus_id@
                =~= b.subrange(8, 40)
        }),
{
    let h = match r {
        OpRequest::ListDevices(h) => h,
        OpRequest::ConnectDevice(h, _) => h,
    };
    let b = op_request_bytes(r);
    crate::bytes::lemma_be16_roundtrip(h.version);
    crate::bytes::lemma_be16_roundtrip(h.command);
    crate::bytes::lemma_be32_roundtrip(h.status);
    assert(spec_op_header_at(b).version == h.version);
    assert(spec_op_header_at(b).command == h.command);
    assert(spec_op_header_at(b).status == h.status);
}

} // verus!
