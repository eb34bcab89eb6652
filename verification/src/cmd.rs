//! URB-phase wire frames: `CMD_SUBMIT` requests and `RET_SUBMIT` responses.
//!
//! A URB frame starts with a 12-byte header (`command`, `seqnum`, `devid`)
//! followed by a 36-byte command body whose leading fields are `direction`
//! and `ep`; a `CMD_SUBMIT` with direction OUT then carries
//! `transfer_buffer_length` payload bytes.  All integers are big-endian.

use vstd::prelude::*;

use crate::bytes::{
    be32_at, be32_bytes, lemma_be32_bytes_of, lemma_be32_roundtrip, push_u32_be, read_u32_be,
};
use crate::UsbIpError;

verus! {

/// Command code of a `CMD_SUBMIT` request.
pub const CMD_SUBMIT: u32 = 1;

/// Command code of a `CMD_UNLINK` request; recognised and ignored.
pub const CMD_UNLINK: u32 = 2;

/// Command code of a `RET_SUBMIT` response.
pub const RET_SUBMIT: u32 = 3;

/// The 12-byte header shared by all URB frames.
#[derive(Debug, Clone, PartialEq, Eq, Structural)]
pub struct UsbIpHeader {
    pub command: u32,
    pub seqnum: u32,
    pub devid: u32,
}

/// The 36-byte command body of a URB frame.
///
/// A `RET_SUBMIT` reuses the same slots: `transfer_flags` carries the
/// status, `transfer_buffer_length` the actual length, and
/// `interval_or_err_count` the error count.
#[derive(Debug, Clone, PartialEq, Eq)]
pub struct UsbIpCmd {
    pub direction: u32,
    pub ep: u32,
    pub transfer_flags: u32,
    pub transfer_buffer_length: u32,
    pub start_frame: u32,
    pub number_of_packets: u32,
    pub interval_or_err_count: u32,
    pub setup: [u8; 8],
}

/// A request decoded from the client while the bus is attached.
pub enum UsbIpRequest {
    /// A `CMD_SUBMIT` frame: header, body, and OUT payload (empty for IN).
    Cmd(UsbIpHeader, UsbIpCmd, Vec<u8>),
}

/// Outcome of decoding one URB frame from buffered bytes.
pub enum CmdParse {
    /// The buffer holds less than one full frame; read more and retry.
    NeedMore,
    /// One full frame, and the number of bytes it occupied.
    Frame(UsbIpRequest, usize),
    /// The bytes cannot begin a frame; the connection must be dropped.
    Malformed(UsbIpError),
}

/// The wire bytes of a 12-byte URB header.
pub open spec fn usbip_header_bytes(h: UsbIpHeader) -> Seq<u8> {
    be32_bytes(h.command) + be32_bytes(h.seqnum) + be32_bytes(h.devid)
}

/// The URB header denoted by the first 12 bytes of `b`.
pub open spec fn spec_header_at(b: Seq<u8>) -> UsbIpHeader {
    UsbIpHeader { command: be32_at(b, 0), seqnum: be32_at(b, 4), devid: be32_at(b, 8) }
}

/// The wire bytes of a 36-byte URB command body.
pub open spec fn usbip_cmd_bytes(c: UsbIpCmd) -> Seq<u8> {
    be32_bytes(c.direction) + be32_bytes(c.ep) + be32_bytes(c.transfer_flags) + be32_bytes(
        c.transfer_buffer_length,
    ) + be32_bytes(c.start_frame) + be32_bytes(c.number_of_packets) + be32_bytes(
        c.interval_or_err_count,
    ) + c.setup@
}

/// `c` is the command body held in bytes 12..48 of `b`.
pub open spec fn cmd_matches(c: UsbIpCmd, b: Seq<u8>) -> bool {
    &&& c.direction == be32_at(b, 12)
    &&& c.ep == be32_at(b, 16)
    &&& c.transfer_flags == be32_at(b, 20)
    &&& c.transfer_buffer_length == be32_at(b, 24)
    &&& c.start_frame == be32_at(b, 28)
    &&& c.number_of_packets == be32_at(b, 32)
    &&& c.interval_or_err_count == be32_at(b, 36)
    &&& c.setup@ =~= b.subrange(40, 48)
}

/// The full wire bytes of a `CMD_SUBMIT` request frame.
pub open spec fn cmd_request_bytes(h: UsbIpHeader, c: UsbIpCmd, payload: Seq<u8>) -> Seq<u8> {
    usbip_header_bytes(h) + usbip_cmd_bytes(c) + payload
}

/// Length of the payload that follows the 48-byte preamble: the declared
/// transfer length for OUT frames, nothing for IN frames.
pub open spec fn spec_payload_len(b: Seq<u8>) -> int {
    if be32_at(b, 12) == 0 {
        be32_at(b, 24) as int
    } else {
        0
    }
}

impl UsbIpHeader {
    /// Encodes the header as its 12 wire bytes.
    pub fn to_array(&self) -> (r: Vec<u8>)
        ensures
            r@ == usbip_header_bytes(*self),
    {
        let mut result: Vec<u8> = Vec::new();
        push_u32_be(&mut result, self.command);
        push_u32_be(&mut result, self.seqnum);
        push_u32_be(&mut result, self.devid);
        assert(result@ =~= usbip_header_bytes(*self));
        result
    }

    /// Decodes a header from the first 12 bytes of `data`.
    pub fn from_slice(data: &[u8]) -> (r: Self)
        requires
            data@.len() >= 12,
        ensures
            r == spec_header_at(data@),
    {
        Self {
            command: read_u32_be(data, 0),
            seqnum: read_u32_be(data, 4),
            devid: read_u32_be(data, 8),
        }
    }
}

impl UsbIpCmd {
    /// Encodes the command body as its 36 wire bytes.
    pub fn to_array(&self) -> (r: Vec<u8>)
        ensures
            r@ == usbip_cmd_bytes(*self),
    {
        let mut result: Vec<u8> = Vec::new();
        push_u32_be(&mut result, self.direction);
        push_u32_be(&mut result, self.ep);
        push_u32_be(&mut result, self.transfer_flags);
        push_u32_be(&mut result, self.transfer_buffer_length);
        push_u32_be(&mut result, self.start_frame);
        push_u32_be(&mut result, self.number_of_packets);
        push_u32_be(&mut result, self.interval_or_err_count);
        let mut j: usize = 0;
        while j < 8
            invariant
                j <= 8,
                result@ =~= be32_bytes(self.direction) + be32_bytes(self.ep) + be32_bytes(
                    self.transfer_flags,
                ) + be32_bytes(self.transfer_buffer_length) + be32_bytes(self.start_frame)
                    + be32_bytes(self.number_of_packets) + be32_bytes(self.interval_or_err_count)
                    + self.setup@.subrange(0, j as int),
            decreases 8 - j,
        {
            result.push(self.setup[j]);
            assert(self.setup@.subrange(0, j + 1 as int) =~= self.setup@.subrange(0, j as int)
                + seq![self.setup@[j as int]]);
            j = j + 1;
        }
        assert(self.setup@.subrange(0, 8) =~= self.setup@);
        assert(result@ =~= usbip_cmd_bytes(*self));
        result
    }

    /// Decodes a command body from bytes 12..48 of a frame.
    pub fn from_slice(data: &[u8]) -> (r: Self)
        requires
            data@.len() >= 48,
        ensures
            cmd_matches(r, data@),
    {
        let setup: [u8; 8] = [
            data[40],
            data[41],
            data[42],
            data[43],
            data[44],
            data[45],
            data[46],
            data[47],
        ];
        assert(setup@ =~= data@.subrange(40, 48));
        Self {
            direction: read_u32_be(data, 12),
            ep: read_u32_be(data, 16),
            transfer_flags: read_u32_be(data, 20),
            transfer_buffer_length: read_u32_be(data, 24),
            start_frame: read_u32_be(data, 28),
            number_of_packets: read_u32_be(data, 32),
            interval_or_err_count: read_u32_be(data, 36),
            setup,
        }
    }
}

impl UsbIpRequest {
    /// Decodes one URB frame from the front of `data`.
    ///
    /// Returns [`CmdParse::NeedMore`] while `data` holds less than the full
    /// frame (12-byte header, 36-byte body, and the declared OUT payload),
    /// [`CmdParse::Malformed`] when the command code is not `CMD_SUBMIT`,
    /// and otherwise the frame together with the byte count it consumed.
    pub fn parse(data: &[u8]) -> (r: CmdParse)
        ensures
            data@.len() < 12 ==> r is NeedMore,
            data@.len() >= 12 && be32_at(data@, 0) != CMD_SUBMIT ==> r == CmdParse::Malformed(
                UsbIpError::InvalidCommand(be32_at(data@, 0) as u16),
            ),
            data@.len() >= 12 && be32_at(data@, 0) == CMD_SUBMIT && data@.len() < 48 ==> r
                is NeedMore,
            data@.len() >= 48 && be32_at(data@, 0) == CMD_SUBMIT && data@.len() < 48
                + spec_payload_len(data@) ==> r is NeedMore,
            data@.len() >= 48 && be32_at(data@, 0) == CMD_SUBMIT && data@.len() >= 48
                + spec_payload_len(data@) ==> {
                &&& r matches CmdParse::Frame(UsbIpRequest::Cmd(h, c, payload), n)
                &&& h == spec_header_at(data@)
                &&& cmd_matches(c, data@)
                &&& payload@ == data@.subrange(48, 48 + spec_payload_len(data@))
                &&& n == 48 + spec_payload_len(data@)
            },
    {
        if data.len() < 12 {
            return CmdParse::NeedMore;
        }
        let command = read_u32_be(data, 0);
        if command != CMD_SUBMIT {
            return CmdParse::Malformed(UsbIpError::InvalidCommand(command as u16));
        }
        if data.len() < 48 {
            return CmdParse::NeedMore;
        }
        let header = UsbIpHeader::from_slice(data);
        let cmd = UsbIpCmd::from_slice(data);
        let payload_len: u64 = if cmd.direction == 0 {
            cmd.transfer_buffer_length as u64
        } else {
            0
        };
        let total: u64 = 48u64 + payload_len;
        if (data.len() as u64) < total {
            return CmdParse::NeedMore;
        }
        let n = total as usize;
        let payload = vstd::slice::slice_to_vec(vstd::slice::slice_subrange(data, 48, n));
        CmdParse::Frame(UsbIpRequest::Cmd(header, cmd, payload), n)
    }
}

/// A response frame sent back to the client.
pub struct UsbIpResponse {
    pub header: UsbIpHeader,
    pub cmd: UsbIpResponseCmd,
    pub data: Vec<u8>,
}

/// The body of a response frame.
pub enum UsbIpResponseCmd {
    Cmd(UsbIpCmd),
}

/// The wire bytes of a response frame: 48-byte preamble, then the payload.
pub open spec fn response_bytes(r: UsbIpResponse) -> Seq<u8> {
    match r.cmd {
        UsbIpResponseCmd::Cmd(c) => usbip_header_bytes(r.header) + usbip_cmd_bytes(c) + r.data@,
    }
}

impl UsbIpResponse {
    /// Encodes the response as its wire bytes.
    pub fn to_vec(&self) -> (r: Option<Vec<u8>>)
        ensures
            r matches Some(v) && v@ == response_bytes(*self),
    {
        let mut result = self.header.to_array();
        match self.cmd {
            UsbIpResponseCmd::Cmd(ref cmd) => {
                let mut body = cmd.to_array();
                result.append(&mut body);
            },
        }
        let mut j: usize = 0;
        while j < self.data.len()
            invariant
                j <= self.data@.len(),
                result@ =~= usbip_header_bytes(self.header) + usbip_cmd_bytes(
                    self.cmd->Cmd_0,
                ) + self.data@.subrange(0, j as int),
            decreases self.data@.len() - j,
        {
            result.push(self.data[j]);
            assert(self.data@.subrange(0, j + 1 as int) =~= self.data@.subrange(0, j as int)
                + seq![self.data@[j as int]]);
            j = j + 1;
        }
        assert(self.data@.subrange(0, self.data@.len() as int) =~= self.data@);
        assert(result@ =~= response_bytes(*self));
        Some(result)
    }
}

/// Round trip: decoding the encoded bytes of a `CMD_SUBMIT` frame gives
/// back the header, the body, and the payload.
pub proof fn lemma_cmd_frame_roundtrip(h: UsbIpHeader, c: UsbIpCmd, payload: Seq<u8>)
    requires
        h.command == CMD_SUBMIT,
        payload.len() == if c.direction == 0 {
            c.transfer_buffer_length as int
        } else {
            0int
        },
    ensures
        ({
            let b = cmd_request_bytes(h, c, payload);
            &&& b.len() == 48 + spec_payload_len(b)
            &&& spec_header_at(b) == h
            &&& cmd_matches(c, b)
            &&& b.subrange(48, 48 + spec_payload_len(b)) =~= payload
            &&& be32_at(b, 0) == CMD_SUBMIT
        }),
{
    let b = cmd_request_bytes(h, c, payload);
    assert(b.len() == 48 + payload.len());
    lemma_be32_roundtrip(h.command);
    lemma_be32_roundtrip(h.seqnum);
    lemma_be32_roundtrip(h.devid);
    lemma_be32_roundtrip(c.direction);
    lemma_be32_roundtrip(c.ep);
    lemma_be32_roundtrip(c.transfer_flags);
    lemma_be32_roundtrip(c.transfer_buffer_length);
    lemma_be32_roundtrip(c.start_frame);
    lemma_be32_roundtrip(c.number_of_packets);
    lemma_be32_roundtrip(c.interval_or_err_count);
    assert(spec_header_at(b).command == h.command);
    assert(spec_header_at(b).seqnum == h.seqnum);
    assert(spec_header_at(b).devid == h.devid);
    assert(c.setup@ =~= b.subrange(40, 48));
}

/// Round trip, other direction: re-encoding a decoded frame gives back the
/// original bytes.
pub proof fn lemma_cmd_frame_reencode(b: Seq<u8>, c: UsbIpCmd, payload: Seq<u8>)
    requires
        b.len() == 48 + spec_payload_len(b),
        cmd_matches(c, b),
        payload =~= b.subrange(48, b.len() as int),
    ensures
        cmd_request_bytes(spec_header_at(b), c, payload) =~= b,
{
    lemma_be32_bytes_of(b[0], b[1], b[2], b[3]);
    lemma_be32_bytes_of(b[4], b[5], b[6], b[7]);
    lemma_be32_bytes_of(b[8], b[9], b[10], b[11]);
    lemma_be32_bytes_of(b[12], b[13], b[14], b[15]);
    lemma_be32_bytes_of(b[16], b[17], b[18], b[19]);
    lemma_be32_bytes_of(b[20], b[21], b[22], b[23]);
    lemma_be32_bytes_of(b[24], b[25], b[26], b[27]);
    lemma_be32_bytes_of(b[28], b[29], b[30], b[31]);
    lemma_be32_bytes_of(b[32], b[33], b[34], b[35]);
    lemma_be32_bytes_of(b[36], b[37], b[38], b[39]);
}

} // verus!
