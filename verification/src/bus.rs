//! The bus core: one virtual USB device driven by USB/IP frames.
//!
//! [`UsbIpBusInner`] holds the protocol state: the attach phase flag, the
//! sixteen endpoint slots, the device address, and an outbox of response
//! frames waiting to be written to the client.  The embedding program owns
//! the socket: it feeds every received byte run to
//! [`UsbIpBusInner::handle_socket`], writes out what
//! [`UsbIpBusInner::take_output`] returns, and calls
//! [`UsbIpBusInner::reset`] when the connection drops.  The device stack
//! drives the other side through `alloc_ep`, `poll`, `read` and `write`.

use vstd::prelude::*;

use crate::bytes::{be32_at, be32_bytes, push_u16_be, push_u32_be};
use crate::cmd::{
    cmd_matches, spec_header_at, spec_payload_len, CmdParse, UsbIpCmd, UsbIpHeader, UsbIpRequest,
    UsbIpResponse, UsbIpResponseCmd, CMD_SUBMIT, CMD_UNLINK, RET_SUBMIT,
};
use crate::endpoint::{bufs_of, chunked, drain_bufs, flat_bufs, Endpoint, EndpointDir};
use crate::op::{
    descriptor_bytes, interface_bytes, op_header_bytes, pad_bytes, spec_op_header_at, OpDeviceDescriptor,
    OpHeader, OpInterfaceDescriptor, OpRequest, OpResponse, OpResponseCommand, OP_REP_DEVLIST,
    OP_REP_IMPORT, OP_REQ_DEVLIST, OP_REQ_IMPORT,
};
use crate::{BusError, UsbIpError};

verus! {

/// What a call to `poll` reports to the device stack.
#[derive(Debug, Clone, Copy, PartialEq, Eq)]
pub enum PollResult {
    /// Nothing pending.
    Idle,
    /// The bus was reset; the device stack must re-enumerate.
    Reset,
    /// Endpoint events, as bit masks indexed by endpoint number.
    Data { ep_out: u16, ep_in_complete: u16, ep_setup: u16 },
    /// A suspend request (never produced by this bus).
    Suspend,
    /// A resume request (never produced by this bus).
    Resume,
}

/// What became of one run of received bytes.
#[derive(Debug, Clone, Copy, PartialEq, Eq, Structural)]
pub enum SocketOutcome {
    /// The bytes hold less than one frame; read more and call again.
    NeedMore,
    /// One frame was handled; drop this many leading bytes.
    Consumed(usize),
    /// The bytes cannot begin a frame; drop the connection.
    Malformed(UsbIpError),
}

/// Eight NUL bytes: the setup field of a response preamble.
pub open spec fn zero8() -> Seq<u8> {
    seq![0u8, 0u8, 0u8, 0u8, 0u8, 0u8, 0u8, 0u8]
}

/// The 48-byte preamble of a `RET_SUBMIT` frame: status 0, the given
/// actual length, all other trailing fields zero.
pub open spec fn ret_preamble_bytes(
    seqnum: u32,
    devid: u32,
    direction: u32,
    ep: u32,
    actual_length: u32,
) -> Seq<u8> {
    be32_bytes(RET_SUBMIT) + be32_bytes(seqnum) + be32_bytes(devid) + be32_bytes(direction)
        + be32_bytes(ep) + be32_bytes(0u32) + be32_bytes(actual_length) + be32_bytes(0u32)
        + be32_bytes(0u32) + be32_bytes(0u32) + zero8()
}

/// A full `RET_SUBMIT` frame carrying `payload`.
pub open spec fn ret_submit_frame(
    seqnum: u32,
    devid: u32,
    direction: u32,
    ep: u32,
    payload: Seq<u8>,
) -> Seq<u8> {
    ret_preamble_bytes(seqnum, devid, direction, ep, payload.len() as u32) + payload
}

/// The synthetic sysfs path under which the device is exported.
pub open spec fn device_path_bytes() -> Seq<u8> {
    seq![
        47u8, 115u8, 121u8, 115u8, 47u8, 100u8, 101u8, 118u8, 105u8, 99u8, 101u8, 115u8, 47u8,
        112u8, 99u8, 105u8, 48u8, 48u8, 48u8, 48u8, 58u8, 48u8, 48u8, 47u8, 48u8, 48u8, 48u8,
        48u8, 58u8, 48u8, 48u8, 58u8, 48u8, 49u8, 46u8, 50u8, 47u8, 117u8, 115u8, 98u8, 49u8,
        47u8, 49u8, 45u8, 49u8,
    ]
}

/// The exported bus id, `1-1`.
pub open spec fn bus_id_bytes() -> Seq<u8> {
    seq![49u8, 45u8, 49u8]
}

/// A 32-byte import bus id names this device: `1-1` then NUL padding.
pub open spec fn is_import_bus_id(b: Seq<u8>) -> bool {
    &&& b.len() == 32
    &&& b[0] == 49u8
    &&& b[1] == 45u8
    &&& b[2] == 49u8
    &&& forall|i: int| 3 <= i < 32 ==> b[i] == 0u8
}

/// The fixed device record this bus presents.
pub open spec fn synthetic_descriptor() -> OpDeviceDescriptor {
    OpDeviceDescriptor {
        busnum: 1,
        devnum: 2,
        speed: 1,
        vendor: 0x1111,
        product: 0x1010,
        bcd_device: 0,
        device_class: 0,
        device_subclass: 0,
        device_protocol: 0,
        configuration_value: 0,
        num_configurations: 1,
        num_interfaces: 1,
    }
}

/// The fixed interface record of the device-list reply.
pub open spec fn synthetic_interface() -> OpInterfaceDescriptor {
    OpInterfaceDescriptor {
        interface_class: 0,
        interface_subclass: 0,
        interface_protocol: 0,
        padding: 0,
    }
}

/// The device-list reply: header, device count 1, one device record, one
/// interface record.
pub open spec fn devlist_reply_bytes(version: u16) -> Seq<u8> {
    op_header_bytes(OpHeader { version, command: OP_REP_DEVLIST, status: 0 }) + be32_bytes(1u32)
        + pad_bytes(device_path_bytes(), 256) + pad_bytes(bus_id_bytes(), 32) + descriptor_bytes(
        synthetic_descriptor(),
    ) + interface_bytes(synthetic_interface())
}

/// The successful import reply: header with status 0, then the device
/// record.
pub open spec fn import_ok_bytes(version: u16) -> Seq<u8> {
    op_header_bytes(OpHeader { version, command: OP_REP_IMPORT, status: 0 }) + pad_bytes(
        device_path_bytes(),
        256,
    ) + pad_bytes(bus_id_bytes(), 32) + descriptor_bytes(synthetic_descriptor())
}

/// The failed import reply: a bare header with status 1.
pub open spec fn import_err_bytes(version: u16) -> Seq<u8> {
    op_header_bytes(OpHeader { version, command: OP_REP_IMPORT, status: 1 })
}

/// The endpoint has OUT data waiting for the device stack.
pub open spec fn pending_out(ep: Endpoint) -> bool {
    match ep.ep_out {
        Some(d) => d.bufs().len() > 0,
        None => false,
    }
}

/// Mask of endpoints below `n` with pending OUT data.
pub open spec fn out_mask_upto(eps: Seq<Endpoint>, n: int) -> u16
    decreases n,
{
    if n <= 0 {
        0u16
    } else {
        out_mask_upto(eps, n - 1) | (if pending_out(eps[n - 1]) {
            1u16 << ((n - 1) as u16)
        } else {
            0u16
        })
    }
}

/// Mask of endpoints below `n` whose IN transfer completed.
pub open spec fn in_mask_upto(eps: Seq<Endpoint>, n: int) -> u16
    decreases n,
{
    if n <= 0 {
        0u16
    } else {
        in_mask_upto(eps, n - 1) | (if eps[n - 1].in_complete {
            1u16 << ((n - 1) as u16)
        } else {
            0u16
        })
    }
}

/// Mask of endpoints below `n` with an unread SETUP packet.
pub open spec fn setup_mask_upto(eps: Seq<Endpoint>, n: int) -> u16
    decreases n,
{
    if n <= 0 {
        0u16
    } else {
        setup_mask_upto(eps, n - 1) | (if eps[n - 1].setup_flag {
            1u16 << ((n - 1) as u16)
        } else {
            0u16
        })
    }
}

/// The requested direction of the slot is still unallocated.
pub open spec fn dir_free(ep: Endpoint, dir_in: bool) -> bool {
    if dir_in {
        ep.ep_in is None
    } else {
        ep.ep_out is None
    }
}

/// Nothing about the bus changed.
pub open spec fn bus_unchanged(pre: UsbIpBusInner, post: UsbIpBusInner) -> bool {
    &&& post.endpoints@ == pre.endpoints@
    &&& post.reset == pre.reset
    &&& post.device_address == pre.device_address
    &&& post.reset_notify == pre.reset_notify
    &&& post.outbox@ == pre.outbox@
}

/// The endpoint kept its allocation and packet sizes but lost all queued
/// data and per-URB state.
pub open spec fn ep_cleared(pre: Endpoint, post: Endpoint) -> bool {
    &&& (match (pre.ep_in, post.ep_in) {
        (Some(d0), Some(d1)) => d1.max_packet_size == d0.max_packet_size && d1.bufs().len() == 0
            && !d1.ready_to_send,
        (None, None) => true,
        _ => false,
    })
    &&& (match (pre.ep_out, post.ep_out) {
        (Some(d0), Some(d1)) => d1.max_packet_size == d0.max_packet_size && d1.bufs().len() == 0
            && !d1.ready_to_send,
        (None, None) => true,
        _ => false,
    })
    &&& !post.setup_flag
    &&& post.seqnum == 0
    &&& post.devid == 0
    &&& post.bytes_requested is None
    &&& !post.in_complete
}

/// Effect of one attempted IN drain on endpoint `i` (the heart of the URB
/// protocol): if an IN URB is outstanding and the endpoint is ready to
/// send, the requested prefix of the queued bytes leaves as a `RET_SUBMIT`
/// frame; otherwise nothing changes.
pub open spec fn drain_step(pre: UsbIpBusInner, post: UsbIpBusInner, i: int) -> bool {
    let e0 = pre.endpoints@[i];
    let e1 = post.endpoints@[i];
    &&& post.endpoints@.len() == pre.endpoints@.len()
    &&& (forall|j: int|
        0 <= j < pre.endpoints@.len() && j != i ==> post.endpoints@[j] == pre.endpoints@[j])
    &&& post.reset == pre.reset
    &&& post.device_address == pre.device_address
    &&& post.reset_notify == pre.reset_notify
    &&& (match (e0.bytes_requested, e0.ep_in) {
        (Some(req), Some(d0)) => {
            if d0.ready_to_send {
                let avail = d0.flat();
                let payload = if req <= avail.len() {
                    avail.take(req as int)
                } else {
                    avail
                };
                &&& (match e1.ep_in {
                    Some(d1) => {
                        &&& d1.max_packet_size == d0.max_packet_size
                        &&& d1.bufs() == drain_bufs(d0.bufs(), req as int)
                        &&& d1.ready_to_send == (d1.bufs().len() > 0)
                    },
                    None => false,
                })
                &&& e1.ep_out == e0.ep_out
                &&& e1.setup_flag == e0.setup_flag
                &&& e1.seqnum == e0.seqnum
                &&& e1.devid == e0.devid
                &&& e1.bytes_requested is None
                &&& e1.in_complete
                &&& bufs_of(post.outbox@) == bufs_of(pre.outbox@).push(
                    ret_submit_frame(e0.seqnum, e0.devid, 1, i as u32, payload),
                )
            } else {
                &&& e1 == e0
                &&& post.outbox@ == pre.outbox@
            }
        },
        _ => {
            &&& e1 == e0
            &&& post.outbox@ == pre.outbox@
        },
    })
}


/// The frame carries a SETUP packet: its eight setup bytes are not all
/// zero.
pub open spec fn setup_nonzero(s: Seq<u8>) -> bool {
    exists|i: int| 0 <= i < 8 && s[i] != 0
}

/// The SETUP bytes are queued: a non-zero setup field, on the control
/// endpoint, whose OUT direction exists.
pub open spec fn setup_applies(ep: Endpoint, c: UsbIpCmd) -> bool {
    setup_nonzero(c.setup@) && c.ep == 0 && ep.ep_out is Some
}

/// The frame is acted on at all: the endpoint exists, the direction is
/// known, and an OUT transfer has somewhere to put its payload.
pub open spec fn cmd_accepted(pre: UsbIpBusInner, c: UsbIpCmd) -> bool {
    &&& c.ep < 16
    &&& pre.endpoints@[c.ep as int].allocated()
    &&& c.direction <= 1
    &&& (c.direction == 0 ==> pre.endpoints@[c.ep as int].ep_out is Some)
}

/// The OUT queue after a frame: first the SETUP chunk if one applies,
/// then the OUT payload cut into packet-size chunks.
pub open spec fn out_bufs_after(
    d0: Seq<Seq<u8>>,
    applies: bool,
    setup: Seq<u8>,
    direction: u32,
    payload: Seq<u8>,
    mps: int,
) -> Seq<Seq<u8>> {
    let with_setup = if applies {
        d0.push(setup)
    } else {
        d0
    };
    if direction == 0 {
        with_setup + chunked(payload, mps)
    } else {
        with_setup
    }
}

/// Effect of an accepted IN `CMD_SUBMIT` on its endpoint and the outbox:
/// served at once when the endpoint is ready to send, else left pending.
pub open spec fn in_urb_effect(
    e0: Endpoint,
    e1: Endpoint,
    pre_out: Seq<Seq<u8>>,
    post_out: Seq<Seq<u8>>,
    seq1: u32,
    h: UsbIpHeader,
    c: UsbIpCmd,
) -> bool {
    match (e0.ep_in, e1.ep_in) {
        (Some(d0), Some(d1)) => {
            if d0.ready_to_send {
                let avail = d0.flat();
                let req = c.transfer_buffer_length;
                let payload = if req <= avail.len() {
                    avail.take(req as int)
                } else {
                    avail
                };
                &&& d1.max_packet_size == d0.max_packet_size
                &&& d1.bufs() == drain_bufs(d0.bufs(), req as int)
                &&& d1.ready_to_send == (d1.bufs().len() > 0)
                &&& e1.bytes_requested is None
                &&& e1.in_complete
                &&& post_out == pre_out.push(ret_submit_frame(seq1, h.devid, 1, c.ep, payload))
            } else {
                &&& d1 == d0
                &&& e1.bytes_requested == Some(c.transfer_buffer_length)
                &&& e1.in_complete == e0.in_complete
                &&& post_out == pre_out
            }
        },
        (None, None) => {
            &&& e1.bytes_requested == Some(c.transfer_buffer_length)
            &&& e1.in_complete == e0.in_complete
            &&& post_out == pre_out
        },
        _ => false,
    }
}

/// Full effect of an accepted `CMD_SUBMIT` frame on the bus.
pub open spec fn cmd_effect(
    pre: UsbIpBusInner,
    post: UsbIpBusInner,
    h: UsbIpHeader,
    c: UsbIpCmd,
    data: Seq<u8>,
) -> bool {
    let i = c.ep as int;
    let e0 = pre.endpoints@[i];
    let e1 = post.endpoints@[i];
    let seq1 = if h.seqnum > e0.seqnum {
        h.seqnum
    } else {
        e0.seqnum
    };
    &&& post.endpoints@.len() == 16
    &&& (forall|j: int| 0 <= j < 16 && j != i ==> post.endpoints@[j] == pre.endpoints@[j])
    &&& post.reset == pre.reset
    &&& post.device_address == pre.device_address
    &&& post.reset_notify == pre.reset_notify
    &&& e1.seqnum == seq1
    &&& e1.devid == h.devid
    &&& e1.setup_flag == (e0.setup_flag || setup_applies(e0, c))
    &&& (match (e0.ep_out, e1.ep_out) {
        (Some(d0), Some(d1)) => {
            &&& d1.max_packet_size == d0.max_packet_size
            &&& d1.ready_to_send == d0.ready_to_send
            &&& d1.bufs() == out_bufs_after(
                d0.bufs(),
                setup_applies(e0, c),
                c.setup@,
                c.direction,
                data,
                d0.max_packet_size as int,
            )
        },
        (None, None) => true,
        _ => false,
    })
    &&& (if c.direction == 0 {
        &&& e1.ep_in == e0.ep_in
        &&& e1.bytes_requested == e0.bytes_requested
        &&& e1.in_complete == e0.in_complete
        &&& bufs_of(post.outbox@) == bufs_of(pre.outbox@).push(
            ret_preamble_bytes(seq1, h.devid, 0, c.ep, c.transfer_buffer_length),
        )
    } else {
        in_urb_effect(e0, e1, bufs_of(pre.outbox@), bufs_of(post.outbox@), seq1, h, c)
    })
}

/// The bus core state.
pub struct UsbIpBusInner {
    /// The sixteen endpoint slots, indexed by endpoint number.
    pub endpoints: Vec<Endpoint>,
    /// True while no client has imported the device (the pre-attach
    /// phase); only op frames are accepted then.
    pub reset: bool,
    /// The USB device address recorded by `SET_ADDRESS`.
    pub device_address: u8,
    /// A forced reset that the next `poll` must report.
    pub reset_notify: bool,
    /// Encoded response frames waiting to be written to the client.
    pub outbox: Vec<Vec<u8>>,
}

impl UsbIpBusInner {
    /// Sixteen well-formed endpoint slots.
    pub open spec fn wf(&self) -> bool {
        &&& self.endpoints@.len() == 16
        &&& forall|i: int| 0 <= i < 16 ==> (#[trigger] self.endpoints@[i]).wf()
    }

    /// A fresh bus: pre-attach phase, no endpoints, nothing queued.
    pub fn new() -> (r: Self)
        ensures
            r.wf(),
            r.reset,
            r.device_address == 0,
            !r.reset_notify,
            r.outbox@.len() == 0,
            forall|i: int| 0 <= i < 16 ==> !(#[trigger] r.endpoints@[i]).allocated(),
    {
        let mut endpoints: Vec<Endpoint> = Vec::new();
        let mut i: usize = 0;
        while i < 16
            invariant
                i <= 16,
                endpoints@.len() == i,
                forall|j: int|
                    0 <= j < i ==> (#[trigger] endpoints@[j]).wf() && !endpoints@[j].allocated(),
            decreases 16 - i,
        {
            endpoints.push(Endpoint::unallocated());
            i = i + 1;
        }
        UsbIpBusInner {
            endpoints,
            reset: true,
            device_address: 0,
            reset_notify: false,
            outbox: Vec::new(),
        }
    }

    /// Hands the queued response frames to the caller, oldest first, and
    /// empties the outbox.
    pub fn take_output(&mut self) -> (r: Vec<Vec<u8>>)
        ensures
            r@ == old(self).outbox@,
            final(self).outbox@.len() == 0,
            final(self).endpoints@ == old(self).endpoints@,
            final(self).reset == old(self).reset,
            final(self).device_address == old(self).device_address,
            final(self).reset_notify == old(self).reset_notify,
            old(self).wf() ==> final(self).wf(),
    {
        let mut r: Vec<Vec<u8>> = Vec::new();
        core::mem::swap(&mut r, &mut self.outbox);
        r
    }

    /// Records the USB device address assigned by the host.
    pub fn set_device_address(&mut self, addr: u8)
        ensures
            *final(self) == (UsbIpBusInner { device_address: addr, ..*old(self) }),
    {
        self.device_address = addr;
    }

    /// Returns to the pre-attach phase: every endpoint keeps its
    /// allocation but loses its queued data and URB state, the device
    /// address returns to zero, and pending output is discarded.
    pub fn reset(&mut self)
        requires
            old(self).wf(),
        ensures
            final(self).wf(),
            final(self).reset,
            final(self).device_address == 0,
            final(self).reset_notify == old(self).reset_notify,
            final(self).outbox@.len() == 0,
            final(self).endpoints@.len() == 16,
            forall|i: int|
                0 <= i < 16 ==> ep_cleared(
                    old(self).endpoints@[i],
                    #[trigger] final(self).endpoints@[i],
                ),
    {
        let mut i: usize = 0;
        while i < 16
            invariant
                i <= 16,
                self.endpoints@.len() == 16,
                old(self).wf(),
                forall|j: int|
                    0 <= j < i ==> ep_cleared(
                        old(self).endpoints@[j],
                        #[trigger] self.endpoints@[j],
                    ) && self.endpoints@[j].wf(),
                forall|j: int| i <= j < 16 ==> self.endpoints@[j] == old(self).endpoints@[j],
                self.reset == old(self).reset,
                self.device_address == old(self).device_address,
                self.reset_notify == old(self).reset_notify,
                self.outbox@ == old(self).outbox@,
            decreases 16 - i,
        {
            let mut ep = self.endpoints.remove(i);
            ep.ep_in = match ep.ep_in {
                Some(mut d) => {
                    d.data.clear();
                    d.ready_to_send = false;
                    Some(d)
                },
                None => None,
            };
            ep.ep_out = match ep.ep_out {
                Some(mut d) => {
                    d.data.clear();
                    d.ready_to_send = false;
                    Some(d)
                },
                None => None,
            };
            ep.setup_flag = false;
            ep.seqnum = 0;
            ep.devid = 0;
            ep.bytes_requested = None;
            ep.in_complete = false;
            self.endpoints.insert(i, ep);
            i = i + 1;
        }
        self.reset = true;
        self.device_address = 0;
        self.outbox.clear();
    }

    /// Like [`UsbIpBusInner::reset`], and additionally makes the next
    /// `poll` report the reset to the device stack.
    pub fn force_reset(&mut self)
        requires
            old(self).wf(),
        ensures
            final(self).wf(),
            final(self).reset,
            final(self).device_address == 0,
            final(self).reset_notify,
            final(self).outbox@.len() == 0,
            final(self).endpoints@.len() == 16,
            forall|i: int|
                0 <= i < 16 ==> ep_cleared(
                    old(self).endpoints@[i],
                    #[trigger] final(self).endpoints@[i],
                ),
    {
        self.reset();
        self.reset_notify = true;
    }

    /// One step of the device-stack driver: reports a forced reset once,
    /// else which endpoints have OUT data, completed IN transfers, or
    /// unread SETUP packets; completed IN transfers are reported once.
    pub fn poll(&mut self) -> (r: PollResult)
        requires
            old(self).wf(),
        ensures
            final(self).wf(),
            old(self).reset_notify ==> r == PollResult::Reset && *final(self) == (UsbIpBusInner {
                reset_notify: false,
                ..*old(self)
            }),
            !old(self).reset_notify ==> ({
                let eps = old(self).endpoints@;
                let m_out = out_mask_upto(eps, 16);
                let m_in = in_mask_upto(eps, 16);
                let m_setup = setup_mask_upto(eps, 16);
                &&& final(self).endpoints@.len() == 16
                &&& (forall|i: int|
                    0 <= i < 16 ==> #[trigger] final(self).endpoints@[i] == (Endpoint {
                        in_complete: false,
                        ..eps[i]
                    }))
                &&& final(self).reset == old(self).reset
                &&& final(self).device_address == old(self).device_address
                &&& !final(self).reset_notify
                &&& final(self).outbox@ == old(self).outbox@
                &&& r == (if m_out == 0 && m_in == 0 && m_setup == 0 {
                    PollResult::Idle
                } else {
                    PollResult::Data { ep_out: m_out, ep_in_complete: m_in, ep_setup: m_setup }
                })
            }),
    {
        if self.reset_notify {
            self.reset_notify = false;
            return PollResult::Reset;
        }
        let ghost eps = self.endpoints@;
        let mut m_out: u16 = 0;
        let mut m_in: u16 = 0;
        let mut m_setup: u16 = 0;
        let mut i: usize = 0;
        while i < 16
            invariant
                i <= 16,
                self == old(self),
                self.endpoints@.len() == 16,
                eps == self.endpoints@,
                m_out == out_mask_upto(eps, i as int),
                m_in == in_mask_upto(eps, i as int),
                m_setup == setup_mask_upto(eps, i as int),
            decreases 16 - i,
        {
            let ep = &self.endpoints[i];
            let has_out = match &ep.ep_out {
                Some(d) => d.data.len() > 0,
                None => false,
            };
            proof {
                assert(pending_out(eps[i as int]) == has_out);
            }
            m_out = m_out | (if has_out {
                1u16 << (i as u16)
            } else {
                0u16
            });
            m_in = m_in | (if ep.in_complete {
                1u16 << (i as u16)
            } else {
                0u16
            });
            m_setup = m_setup | (if ep.setup_flag {
                1u16 << (i as u16)
            } else {
                0u16
            });
            i = i + 1;
        }
        let mut j: usize = 0;
        while j < 16
            invariant
                j <= 16,
                self.endpoints@.len() == 16,
                old(self).wf(),
                forall|k: int|
                    0 <= k < j ==> #[trigger] self.endpoints@[k] == (Endpoint {
                        in_complete: false,
                        ..eps[k]
                    }),
                forall|k: int| j <= k < 16 ==> self.endpoints@[k] == eps[k],
                eps == old(self).endpoints@,
                self.reset == old(self).reset,
                self.device_address == old(self).device_address,
                self.reset_notify == old(self).reset_notify,
                self.outbox@ == old(self).outbox@,
            decreases 16 - j,
        {
            if self.endpoints[j].in_complete {
                let mut ep = self.endpoints.remove(j);
                ep.in_complete = false;
                self.endpoints.insert(j, ep);
            }
            j = j + 1;
        }
        if m_out == 0 && m_in == 0 && m_setup == 0 {
            PollResult::Idle
        } else {
            PollResult::Data { ep_out: m_out, ep_in_complete: m_in, ep_setup: m_setup }
        }
    }

    /// Allocates one direction of an endpoint: the requested slot, or the
    /// first free one from index 1 up when none is named.
    pub fn alloc_ep(&mut self, dir_in: bool, addr: Option<usize>, max_packet_size: u16) -> (r:
        Result<usize, BusError>)
        requires
            old(self).wf(),
            1 <= max_packet_size <= 1024,
        ensures
            final(self).wf(),
            match r {
                Ok(idx) => {
                    &&& idx < 16
                    &&& (match addr {
                        Some(a) => idx == a,
                        None => 1 <= idx && (forall|j: int|
                            1 <= j < idx ==> !dir_free(#[trigger] old(self).endpoints@[j], dir_in)),
                    })
                    &&& dir_free(old(self).endpoints@[idx as int], dir_in)
                    &&& final(self).endpoints@.len() == 16
                    &&& (forall|j: int|
                        0 <= j < 16 && j != idx ==> #[trigger] final(self).endpoints@[j] == old(
                            self,
                        ).endpoints@[j])
                    &&& ({
                        let e0 = old(self).endpoints@[idx as int];
                        let e1 = final(self).endpoints@[idx as int];
                        &&& (match (if dir_in {
                            e1.ep_in
                        } else {
                            e1.ep_out
                        }) {
                            Some(d) => d.max_packet_size == max_packet_size && d.bufs().len() == 0
                                && !d.ready_to_send,
                            None => false,
                        })
                        &&& (if dir_in {
                            e1.ep_out == e0.ep_out
                        } else {
                            e1.ep_in == e0.ep_in
                        })
                        &&& e1.setup_flag == e0.setup_flag
                        &&& e1.seqnum == e0.seqnum
                        &&& e1.devid == e0.devid
                        &&& e1.bytes_requested == e0.bytes_requested
                        &&& e1.in_complete == e0.in_complete
                    })
                    &&& final(self).reset == old(self).reset
                    &&& final(self).device_address == old(self).device_address
                    &&& final(self).reset_notify == old(self).reset_notify
                    &&& final(self).outbox@ == old(self).outbox@
                },
                Err(e) => {
                    &&& bus_unchanged(*old(self), *final(self))
                    &&& (match addr {
                        Some(a) => e == BusError::InvalidEndpoint && (a >= 16 || !dir_free(
                            old(self).endpoints@[a as int],
                            dir_in,
                        )),
                        None => e == BusError::EndpointOverflow && (forall|j: int|
                            1 <= j < 16 ==> !dir_free(#[trigger] old(self).endpoints@[j], dir_in)),
                    })
                },
            },
    {
        let idx: usize = match addr {
            Some(a) => {
                if a >= 16 {
                    return Err(BusError::InvalidEndpoint);
                }
                let free = match (dir_in, &self.endpoints[a]) {
                    (true, ep) => ep.ep_in.is_none(),
                    (false, ep) => ep.ep_out.is_none(),
                };
                if !free {
                    return Err(BusError::InvalidEndpoint);
                }
                a
            },
            None => {
                let mut i: usize = 1;
                let mut found: usize = 16;
                while i < 16
                    invariant_except_break
                        found == 16,
                    invariant
                        1 <= i <= 16,
                        self == old(self),
                        self.endpoints@.len() == 16,
                        forall|j: int|
                            1 <= j < i ==> !dir_free(#[trigger] self.endpoints@[j], dir_in),
                    ensures
                        self == old(self),
                        found <= 16,
                        found == 16 ==> forall|j: int|
                            1 <= j < 16 ==> !dir_free(#[trigger] self.endpoints@[j], dir_in),
                        found < 16 ==> 1 <= found && dir_free(
                            self.endpoints@[found as int],
                            dir_in,
                        ) && (forall|j: int|
                            1 <= j < found ==> !dir_free(#[trigger] self.endpoints@[j], dir_in)),
                    decreases 16 - i,
                {
                    let free = if dir_in {
                        self.endpoints[i].ep_in.is_none()
                    } else {
                        self.endpoints[i].ep_out.is_none()
                    };
                    if free {
                        found = i;
                        break;
                    }
                    i = i + 1;
                }
                if found == 16 {
                    return Err(BusError::EndpointOverflow);
                }
                found
            },
        };
        let mut ep = self.endpoints.remove(idx);
        let d = EndpointDir::new(max_packet_size);
        if dir_in {
            ep.ep_in = Some(d);
        } else {
            ep.ep_out = Some(d);
        }
        self.endpoints.insert(idx, ep);
        Ok(idx)
    }

    /// Pops the next OUT chunk of endpoint `ep` for the device stack, if
    /// one is queued and fits in `max_len` bytes; a successful read clears
    /// the endpoint's SETUP flag.
    pub fn read(&mut self, ep: usize, max_len: usize) -> (r: Result<Vec<u8>, BusError>)
        requires
            old(self).wf(),
        ensures
            final(self).wf(),
            ({
                let valid = ep < 16 && old(self).endpoints@[ep as int].ep_out is Some;
                if !valid {
                    r == Err::<Vec<u8>, BusError>(BusError::InvalidEndpoint) && bus_unchanged(
                        *old(self),
                        *final(self),
                    )
                } else {
                    let e0 = old(self).endpoints@[ep as int];
                    let bufs = (match e0.ep_out {
                        Some(d) => d.bufs(),
                        None => Seq::empty(),
                    });
                    if bufs.len() == 0 {
                        r == Err::<Vec<u8>, BusError>(BusError::WouldBlock) && bus_unchanged(
                            *old(self),
                            *final(self),
                        )
                    } else if bufs[0].len() > max_len {
                        r == Err::<Vec<u8>, BusError>(BusError::BufferOverflow) && bus_unchanged(
                            *old(self),
                            *final(self),
                        )
                    } else {
                        let e1 = final(self).endpoints@[ep as int];
                        &&& (match r {
                            Ok(v) => v@ == bufs[0],
                            Err(_) => false,
                        })
                        &&& (match e1.ep_out {
                            Some(d1) => {
                                &&& d1.max_packet_size == (match e0.ep_out {
                                    Some(d0) => d0.max_packet_size,
                                    None => 0u16,
                                })
                                &&& d1.bufs() == bufs.subrange(1, bufs.len() as int)
                                &&& d1.ready_to_send == (match e0.ep_out {
                                    Some(d0) => d0.ready_to_send,
                                    None => false,
                                })
                            },
                            None => false,
                        })
                        &&& !e1.setup_flag
                        &&& e1.ep_in == e0.ep_in
                        &&& e1.seqnum == e0.seqnum
                        &&& e1.devid == e0.devid
                        &&& e1.bytes_requested == e0.bytes_requested
                        &&& e1.in_complete == e0.in_complete
                        &&& final(self).endpoints@.len() == 16
                        &&& (forall|j: int|
                            0 <= j < 16 && j != ep ==> #[trigger] final(self).endpoints@[j] == old(
                                self,
                            ).endpoints@[j])
                        &&& final(self).reset == old(self).reset
                        &&& final(self).device_address == old(self).device_address
                        &&& final(self).reset_notify == old(self).reset_notify
                        &&& final(self).outbox@ == old(self).outbox@
                    }
                }
            }),
    {
        if ep >= 16 {
            return Err(BusError::InvalidEndpoint);
        }
        match &self.endpoints[ep].ep_out {
            None => {
                return Err(BusError::InvalidEndpoint);
            },
            Some(d) => {
                if d.data.len() == 0 {
                    return Err(BusError::WouldBlock);
                }
                if d.data[0].len() > max_len {
                    return Err(BusError::BufferOverflow);
                }
            },
        }
        let mut epv = self.endpoints.remove(ep);
        let mut chunk: Vec<u8> = Vec::new();
        epv.ep_out = match epv.ep_out {
            Some(mut d) => {
                let ghost pre_bufs = d.bufs();
                match d.data.pop_front() {
                    Some(c) => {
                        chunk = c;
                    },
                    None => {},
                }
                proof {
                    assert(d.bufs() =~= pre_bufs.subrange(1, pre_bufs.len() as int));
                }
                Some(d)
            },
            None => None,
        };
        epv.setup_flag = false;
        self.endpoints.insert(ep, epv);
        Ok(chunk)
    }

    /// Queues `buf` as one IN chunk for endpoint `ep`; a chunk shorter
    /// than the packet size completes the transfer, and a completed
    /// transfer with an outstanding IN URB is sent at once.
    pub fn write(&mut self, ep: usize, buf: &[u8]) -> (r: Result<usize, BusError>)
        requires
            old(self).wf(),
        ensures
            final(self).wf(),
            ({
                let valid = ep < 16 && old(self).endpoints@[ep as int].ep_in is Some;
                if !valid {
                    r == Err::<usize, BusError>(BusError::InvalidEndpoint) && bus_unchanged(
                        *old(self),
                        *final(self),
                    )
                } else {
                    let e0 = old(self).endpoints@[ep as int];
                    let e1 = final(self).endpoints@[ep as int];
                    let d0 = (match e0.ep_in {
                        Some(d) => d,
                        None => arbitrary(),
                    });
                    if d0.ready_to_send {
                        r == Err::<usize, BusError>(BusError::WouldBlock) && bus_unchanged(
                            *old(self),
                            *final(self),
                        )
                    } else if buf@.len() > d0.max_packet_size {
                        r == Err::<usize, BusError>(BusError::BufferOverflow) && bus_unchanged(
                            *old(self),
                            *final(self),
                        )
                    } else {
                        let pushed = if buf@.len() > 0 {
                            d0.bufs().push(buf@)
                        } else {
                            d0.bufs()
                        };
                        let rts1 = buf@.len() < d0.max_packet_size;
                        &&& r == Ok::<usize, BusError>(buf@.len() as usize)
                        &&& final(self).endpoints@.len() == 16
                        &&& (forall|j: int|
                            0 <= j < 16 && j != ep ==> #[trigger] final(self).endpoints@[j]
                                == old(self).endpoints@[j])
                        &&& e1.ep_out == e0.ep_out
                        &&& e1.setup_flag == e0.setup_flag
                        &&& e1.seqnum == e0.seqnum
                        &&& e1.devid == e0.devid
                        &&& final(self).reset == old(self).reset
                        &&& final(self).device_address == old(self).device_address
                        &&& final(self).reset_notify == old(self).reset_notify
                        &&& (match e0.bytes_requested {
                            Some(req) => if rts1 {
                                let avail = flat_bufs(pushed);
                                let payload = if req <= avail.len() {
                                    avail.take(req as int)
                                } else {
                                    avail
                                };
                                &&& (match e1.ep_in {
                                    Some(d1) => {
                                        &&& d1.max_packet_size == d0.max_packet_size
                                        &&& d1.bufs() == drain_bufs(pushed, req as int)
                                        &&& d1.ready_to_send == (d1.bufs().len() > 0)
                                    },
                                    None => false,
                                })
                                &&& e1.bytes_requested is None
                                &&& e1.in_complete
                                &&& bufs_of(final(self).outbox@) == bufs_of(
                                    old(self).outbox@,
                                ).push(
                                    ret_submit_frame(e0.seqnum, e0.devid, 1, ep as u32, payload),
                                )
                            } else {
                                &&& (match e1.ep_in {
                                    Some(d1) => {
                                        &&& d1.max_packet_size == d0.max_packet_size
                                        &&& d1.bufs() == pushed
                                        &&& d1.ready_to_send == rts1
                                    },
                                    None => false,
                                })
                                &&& e1.bytes_requested == e0.bytes_requested
                                &&& e1.in_complete == e0.in_complete
                                &&& final(self).outbox@ == old(self).outbox@
                            },
                            None => {
                                &&& (match e1.ep_in {
                                    Some(d1) => {
                                        &&& d1.max_packet_size == d0.max_packet_size
                                        &&& d1.bufs() == pushed
                                        &&& d1.ready_to_send == rts1
                                    },
                                    None => false,
                                })
                                &&& e1.bytes_requested == e0.bytes_requested
                                &&& e1.in_complete == e0.in_complete
                                &&& final(self).outbox@ == old(self).outbox@
                            },
                        })
                    }
                }
            }),
    {
        if ep >= 16 {
            return Err(BusError::InvalidEndpoint);
        }
        match &self.endpoints[ep].ep_in {
            None => {
                return Err(BusError::InvalidEndpoint);
            },
            Some(d) => {
                if d.ready_to_send {
                    return Err(BusError::WouldBlock);
                }
                if buf.len() > d.max_packet_size as usize {
                    return Err(BusError::BufferOverflow);
                }
            },
        }
        let mut epv = self.endpoints.remove(ep);
        let taken = epv.ep_in;
        epv.ep_in = match taken {
            Some(mut d) => {
                let mps = d.max_packet_size;
                if buf.len() > 0 {
                    let ghost pb = d.bufs();
                    let chunk = vstd::slice::slice_to_vec(buf);
                    d.data.push_back(chunk);
                    proof {
                        assert(d.bufs() =~= pb.push(buf@));
                    }
                }
                if buf.len() < mps as usize {
                    d.ready_to_send = true;
                }
                Some(d)
            },
            None => None,
        };
        self.endpoints.insert(ep, epv);
        self.try_send_pending(ep);
        Ok(buf.len())
    }

    /// Writes the device's IN response for endpoint `ep_addr` if an IN URB
    /// is outstanding and the endpoint is ready to send: up to the
    /// requested number of queued bytes leave as one `RET_SUBMIT` frame.
    pub fn try_send_pending(&mut self, ep_addr: usize)
        requires
            old(self).wf(),
        ensures
            final(self).wf(),
            ep_addr < 16 ==> drain_step(*old(self), *final(self), ep_addr as int),
            ep_addr >= 16 ==> bus_unchanged(*old(self), *final(self)),
    {
        if ep_addr >= 16 {
            return;
        }
        let req = match self.endpoints[ep_addr].bytes_requested {
            None => {
                return;
            },
            Some(r) => r,
        };
        let rts = match &self.endpoints[ep_addr].ep_in {
            None => {
                return;
            },
            Some(d) => d.ready_to_send,
        };
        if !rts {
            return;
        }
        let mut ep = self.endpoints.remove(ep_addr);
        let seqnum = ep.seqnum;
        let devid = ep.devid;
        let taken = ep.ep_in;
        let mut payload: Vec<u8> = Vec::new();
        ep.ep_in = match taken {
            Some(mut d) => {
                payload = d.take_bytes(req as usize);
                d.ready_to_send = d.data.len() > 0;
                Some(d)
            },
            None => None,
        };
        ep.bytes_requested = None;
        ep.in_complete = true;
        self.endpoints.insert(ep_addr, ep);
        assert(payload@.len() <= req);
        push_ret_submit(
            &mut self.outbox,
            seqnum,
            devid,
            1,
            ep_addr as u32,
            payload.len() as u32,
            payload,
        );
    }

    /// Dispatches one `CMD_SUBMIT` frame: records the sequence number,
    /// queues a SETUP packet on the control endpoint, queues OUT payload
    /// and acknowledges it, or records an IN request and tries to serve
    /// it.  A frame for a missing endpoint or with an unknown direction is
    /// dropped without a response.
    pub fn handle_cmd(&mut self, req: UsbIpRequest)
        requires
            old(self).wf(),
            (match req {
                UsbIpRequest::Cmd(h, c, data) => c.direction == 0 ==> data@.len()
                    == c.transfer_buffer_length,
            }),
        ensures
            final(self).wf(),
            (match req {
                UsbIpRequest::Cmd(h, c, data) => if cmd_accepted(*old(self), c) {
                    cmd_effect(*old(self), *final(self), h, c, data@)
                } else {
                    bus_unchanged(*old(self), *final(self))
                },
            }),
    {
        let (header, cmd, data) = match req {
            UsbIpRequest::Cmd(h, c, d) => (h, c, d),
        };
        if cmd.ep >= 16 {
            return;
        }
        let i = cmd.ep as usize;
        let allocated = {
            let e = &self.endpoints[i];
            e.ep_in.is_some() || e.ep_out.is_some()
        };
        if !allocated {
            return;
        }
        if cmd.direction > 1 {
            return;
        }
        if cmd.direction == 0 && self.endpoints[i].ep_out.is_none() {
            return;
        }
        let mut ep = self.endpoints.remove(i);
        if header.seqnum > ep.seqnum {
            ep.seqnum = header.seqnum;
        }
        ep.devid = header.devid;
        let setup_nz = setup_bytes_nonzero(&cmd.setup);
        if setup_nz && cmd.ep == 0 {
            let taken = ep.ep_out;
            let mut pushed = false;
            ep.ep_out = match taken {
                Some(mut d) => {
                    let sv = vstd::slice::slice_to_vec(cmd.setup.as_slice());
                    let ghost pb = d.bufs();
                    d.data.push_back(sv);
                    proof {
                        assert(d.bufs() =~= pb.push(cmd.setup@));
                    }
                    pushed = true;
                    Some(d)
                },
                None => None,
            };
            if pushed {
                ep.setup_flag = true;
            }
        }
        if cmd.direction == 0 {
            let taken = ep.ep_out;
            ep.ep_out = match taken {
                Some(mut d) => {
                    d.push_payload(data.as_slice());
                    Some(d)
                },
                None => None,
            };
            let seq_now = ep.seqnum;
            self.endpoints.insert(i, ep);
            let empty: Vec<u8> = Vec::new();
            push_ret_submit(
                &mut self.outbox,
                seq_now,
                header.devid,
                0,
                cmd.ep,
                cmd.transfer_buffer_length,
                empty,
            );
        } else {
            ep.bytes_requested = Some(cmd.transfer_buffer_length);
            self.endpoints.insert(i, ep);
            self.try_send_pending(i);
        }
    }

    /// Answers one attach-phase request: a device list for
    /// `OP_REQ_DEVLIST`, and for `OP_REQ_IMPORT` either the device record
    /// (leaving the pre-attach phase) or a failure status.
    pub fn handle_op(&mut self, op: OpRequest)
        requires
            old(self).wf(),
        ensures
            final(self).wf(),
            final(self).endpoints@ == old(self).endpoints@,
            final(self).device_address == old(self).device_address,
            final(self).reset_notify == old(self).reset_notify,
            (match op {
                OpRequest::ListDevices(h) => {
                    &&& final(self).reset == old(self).reset
                    &&& bufs_of(final(self).outbox@) == bufs_of(old(self).outbox@).push(
                        devlist_reply_bytes(h.version),
                    )
                },
                OpRequest::ConnectDevice(h, bus_id) => if is_import_bus_id(bus_id@) {
                    &&& !final(self).reset
                    &&& bufs_of(final(self).outbox@) == bufs_of(old(self).outbox@).push(
                        import_ok_bytes(h.version),
                    )
                } else {
                    &&& final(self).reset == old(self).reset
                    &&& bufs_of(final(self).outbox@) == bufs_of(old(self).outbox@).push(
                        import_err_bytes(h.version),
                    )
                },
            }),
    {
        match op {
            OpRequest::ListDevices(header) => {
                let resp = OpResponse {
                    version: header.version,
                    path: device_path(),
                    bus_id: bus_id_vec(),
                    descriptor: synthetic_descriptor_value(),
                    cmd: OpResponseCommand::ListDevices(
                        OpInterfaceDescriptor {
                            interface_class: 0,
                            interface_subclass: 0,
                            interface_protocol: 0,
                            padding: 0,
                        },
                    ),
                };
                let bytes = match resp.to_vec() {
                    Some(b) => b,
                    None => Vec::new(),
                };
                proof {
                    assert(bytes@ =~= devlist_reply_bytes(header.version));
                }
                let ghost pre_out = self.outbox@;
                self.outbox.push(bytes);
                proof {
                    assert(bufs_of(self.outbox@) =~= bufs_of(pre_out).push(
                        devlist_reply_bytes(header.version),
                    ));
                }
            },
            OpRequest::ConnectDevice(header, bus_id) => {
                if bus_id_matches(&bus_id) {
                    let resp = OpResponse {
                        version: header.version,
                        path: device_path(),
                        bus_id: bus_id_vec(),
                        descriptor: synthetic_descriptor_value(),
                        cmd: OpResponseCommand::ConnectDevice,
                    };
                    let bytes = match resp.to_vec() {
                        Some(b) => b,
                        None => Vec::new(),
                    };
                    proof {
                        assert(bytes@ =~= import_ok_bytes(header.version));
                    }
                    self.reset = false;
                    let ghost pre_out = self.outbox@;
                    self.outbox.push(bytes);
                    proof {
                        assert(bufs_of(self.outbox@) =~= bufs_of(pre_out).push(
                            import_ok_bytes(header.version),
                        ));
                    }
                } else {
                    let mut bytes: Vec<u8> = Vec::new();
                    push_u16_be(&mut bytes, header.version);
                    push_u16_be(&mut bytes, OP_REP_IMPORT);
                    push_u32_be(&mut bytes, 1);
                    proof {
                        assert(bytes@ =~= import_err_bytes(header.version));
                    }
                    let ghost pre_out = self.outbox@;
                    self.outbox.push(bytes);
                    proof {
                        assert(bufs_of(self.outbox@) =~= bufs_of(pre_out).push(
                            import_err_bytes(header.version),
                        ));
                    }
                }
            },
        }
    }

    /// One protocol step over buffered socket bytes: decodes at most one
    /// frame of the current phase and handles it.  Returns how many bytes
    /// the frame used, that more bytes are needed, or that the stream is
    /// not a frame and the connection must be dropped.
    pub fn handle_socket(&mut self, input: &[u8]) -> (r: SocketOutcome)
        requires
            old(self).wf(),
        ensures
            final(self).wf(),
            old(self).reset ==> ({
                let b = input@;
                if b.len() < 8 {
                    r == SocketOutcome::NeedMore && bus_unchanged(*old(self), *final(self))
                } else {
                    let h = spec_op_header_at(b);
                    if h.status != 0 {
                        r == SocketOutcome::Malformed(UsbIpError::InvalidCommand(h.command))
                            && bus_unchanged(*old(self), *final(self))
                    } else if h.command == OP_REQ_DEVLIST {
                        &&& r == SocketOutcome::Consumed(8usize)
                        &&& final(self).reset == old(self).reset
                        &&& final(self).endpoints@ == old(self).endpoints@
                        &&& final(self).device_address == old(self).device_address
                        &&& final(self).reset_notify == old(self).reset_notify
                        &&& bufs_of(final(self).outbox@) == bufs_of(old(self).outbox@).push(
                            devlist_reply_bytes(h.version),
                        )
                    } else if h.command == OP_REQ_IMPORT && b.len() < 40 {
                        r == SocketOutcome::NeedMore && bus_unchanged(*old(self), *final(self))
                    } else if h.command == OP_REQ_IMPORT {
                        let bus = b.subrange(8, 40);
                        &&& r == SocketOutcome::Consumed(40usize)
                        &&& final(self).endpoints@ == old(self).endpoints@
                        &&& final(self).device_address == old(self).device_address
                        &&& final(self).reset_notify == old(self).reset_notify
                        &&& (if is_import_bus_id(bus) {
                            !final(self).reset && bufs_of(final(self).outbox@) == bufs_of(
                                old(self).outbox@,
                            ).push(import_ok_bytes(h.version))
                        } else {
                            final(self).reset && bufs_of(final(self).outbox@) == bufs_of(
                                old(self).outbox@,
                            ).push(import_err_bytes(h.version))
                        })
                    } else {
                        r == SocketOutcome::Malformed(UsbIpError::InvalidCommand(h.command))
                            && bus_unchanged(*old(self), *final(self))
                    }
                }
            }),
            !old(self).reset ==> ({
                let b = input@;
                &&& (b.len() < 12 ==> r == SocketOutcome::NeedMore && bus_unchanged(
                    *old(self),
                    *final(self),
                ))
                &&& (b.len() >= 12 && be32_at(b, 0) == CMD_UNLINK && b.len() < 48 ==> r
                    == SocketOutcome::NeedMore && bus_unchanged(*old(self), *final(self)))
                &&& (b.len() >= 48 && be32_at(b, 0) == CMD_UNLINK ==> r
                    == SocketOutcome::Consumed(48usize) && bus_unchanged(
                    *old(self),
                    *final(self),
                ))
                &&& (b.len() >= 12 && be32_at(b, 0) != CMD_SUBMIT && be32_at(b, 0) != CMD_UNLINK
                    ==> r == SocketOutcome::Malformed(
                    UsbIpError::InvalidCommand(be32_at(b, 0) as u16),
                ) && bus_unchanged(*old(self), *final(self)))
                &&& (b.len() >= 12 && be32_at(b, 0) == CMD_SUBMIT && b.len() < 48 ==> r
                    == SocketOutcome::NeedMore && bus_unchanged(*old(self), *final(self)))
                &&& (b.len() >= 48 && be32_at(b, 0) == CMD_SUBMIT && b.len() < 48
                    + spec_payload_len(b) ==> r == SocketOutcome::NeedMore && bus_unchanged(
                    *old(self),
                    *final(self),
                ))
                &&& (b.len() >= 48 && be32_at(b, 0) == CMD_SUBMIT && b.len() >= 48
                    + spec_payload_len(b) ==> {
                    &&& r == SocketOutcome::Consumed(((48 + spec_payload_len(b)) as usize))
                    &&& exists|c: UsbIpCmd|
                        {
                            &&& #[trigger] cmd_matches(c, b)
                            &&& (if cmd_accepted(*old(self), c) {
                                cmd_effect(
                                    *old(self),
                                    *final(self),
                                    spec_header_at(b),
                                    c,
                                    b.subrange(48, 48 + spec_payload_len(b)),
                                )
                            } else {
                                bus_unchanged(*old(self), *final(self))
                            })
                        }
                })
            }),
    {
        if self.reset {
            if input.len() < 8 {
                return SocketOutcome::NeedMore;
            }
            let command = crate::bytes::read_u16_be(input, 2);
            let status = crate::bytes::read_u32_be(input, 4);
            if status != 0 {
                return SocketOutcome::Malformed(UsbIpError::InvalidCommand(command));
            }
            if command == OP_REQ_DEVLIST {
                let prefix = vstd::slice::slice_subrange(input, 0, 8);
                match OpRequest::from_slice(prefix) {
                    Some(op) => {
                        proof {
                            assert(spec_op_header_at(prefix@) == spec_op_header_at(input@));
                        }
                        self.handle_op(op);
                        SocketOutcome::Consumed(8)
                    },
                    None => SocketOutcome::Malformed(UsbIpError::InvalidCommand(command)),
                }
            } else if command == OP_REQ_IMPORT {
                if input.len() < 40 {
                    return SocketOutcome::NeedMore;
                }
                let prefix = vstd::slice::slice_subrange(input, 0, 40);
                match OpRequest::from_slice(prefix) {
                    Some(op) => {
                        proof {
                            assert(spec_op_header_at(prefix@) == spec_op_header_at(input@));
                            assert(prefix@.subrange(8, 40) =~= input@.subrange(8, 40));
                        }
                        self.handle_op(op);
                        SocketOutcome::Consumed(40)
                    },
                    None => SocketOutcome::Malformed(UsbIpError::InvalidCommand(command)),
                }
            } else {
                SocketOutcome::Malformed(UsbIpError::InvalidCommand(command))
            }
        } else {
            if input.len() >= 12 {
                let command = crate::bytes::read_u32_be(input, 0);
                if command == CMD_UNLINK {
                    // URB cancellation is a non-goal: the frame is consumed
                    // and ignored.
                    if input.len() < 48 {
                        return SocketOutcome::NeedMore;
                    }
                    return SocketOutcome::Consumed(48);
                }
            }
            match UsbIpRequest::parse(input) {
                CmdParse::NeedMore => SocketOutcome::NeedMore,
                CmdParse::Malformed(e) => SocketOutcome::Malformed(e),
                CmdParse::Frame(req, n) => {
                    let ghost greq = req;
                    self.handle_cmd(req);
                    proof {
                        match greq {
                            UsbIpRequest::Cmd(gh, gc, gdata) => {
                                assert(cmd_matches(gc, input@));
                            },
                        }
                    }
                    SocketOutcome::Consumed(n)
                },
            }
        }
    }
}

/// Encodes one `RET_SUBMIT` frame and queues it on the outbox.
fn push_ret_submit(
    outbox: &mut Vec<Vec<u8>>,
    seqnum: u32,
    devid: u32,
    direction: u32,
    ep: u32,
    actual_length: u32,
    payload: Vec<u8>,
)
    ensures
        bufs_of(final(outbox)@) == bufs_of(old(outbox)@).push(
            ret_preamble_bytes(seqnum, devid, direction, ep, actual_length) + payload@,
        ),
{
    let response = UsbIpResponse {
        header: UsbIpHeader { command: RET_SUBMIT, seqnum, devid },
        cmd: UsbIpResponseCmd::Cmd(
            UsbIpCmd {
                direction,
                ep,
                transfer_flags: 0,
                transfer_buffer_length: actual_length,
                start_frame: 0,
                number_of_packets: 0,
                interval_or_err_count: 0,
                setup: [0, 0, 0, 0, 0, 0, 0, 0],
            },
        ),
        data: payload,
    };
    let bytes = match response.to_vec() {
        Some(b) => b,
        None => Vec::new(),
    };
    proof {
        assert(bytes@ =~= ret_preamble_bytes(seqnum, devid, direction, ep, actual_length)
            + payload@);
    }
    let ghost pre = outbox@;
    outbox.push(bytes);
    proof {
        assert(bufs_of(outbox@) =~= bufs_of(pre).push(
            ret_preamble_bytes(seqnum, devid, direction, ep, actual_length) + payload@,
        ));
    }
}

/// The exported sysfs path as a byte vector.
fn device_path() -> (r: Vec<u8>)
    ensures
        r@ == device_path_bytes(),
{
    let mut r: Vec<u8> = Vec::new();
    r.push(47);
    r.push(115);
    r.push(121);
    r.push(115);
    r.push(47);
    r.push(100);
    r.push(101);
    r.push(118);
    r.push(105);
    r.push(99);
    r.push(101);
    r.push(115);
    r.push(47);
    r.push(112);
    r.push(99);
    r.push(105);
    r.push(48);
    r.push(48);
    r.push(48);
    r.push(48);
    r.push(58);
    r.push(48);
    r.push(48);
    r.push(47);
    r.push(48);
    r.push(48);
    r.push(48);
    r.push(48);
    r.push(58);
    r.push(48);
    r.push(48);
    r.push(58);
    r.push(48);
    r.push(49);
    r.push(46);
    r.push(50);
    r.push(47);
    r.push(117);
    r.push(115);
    r.push(98);
    r.push(49);
    r.push(47);
    r.push(49);
    r.push(45);
    r.push(49);
    assert(r@ =~= device_path_bytes());
    r
}

/// The exported bus id as a byte vector.
fn bus_id_vec() -> (r: Vec<u8>)
    ensures
        r@ == bus_id_bytes(),
{
    let mut r: Vec<u8> = Vec::new();
    r.push(49);
    r.push(45);
    r.push(49);
    assert(r@ =~= bus_id_bytes());
    r
}

/// The fixed device record as a value.
fn synthetic_descriptor_value() -> (r: OpDeviceDescriptor)
    ensures
        r == synthetic_descriptor(),
{
    OpDeviceDescriptor {
        busnum: 1,
        devnum: 2,
        speed: 1,
        vendor: 0x1111,
        product: 0x1010,
        bcd_device: 0,
        device_class: 0,
        device_subclass: 0,
        device_protocol: 0,
        configuration_value: 0,
        num_configurations: 1,
        num_interfaces: 1,
    }
}

/// Whether any of the eight setup bytes is set.
fn setup_bytes_nonzero(s: &[u8; 8]) -> (r: bool)
    ensures
        r == setup_nonzero(s@),
{
    let r = s[0] != 0 || s[1] != 0 || s[2] != 0 || s[3] != 0 || s[4] != 0 || s[5] != 0 || s[6]
        != 0 || s[7] != 0;
    proof {
        if !r {
            assert forall|i: int| 0 <= i < 8 implies s@[i] == 0 by {
                if i == 0 {
                } else if i == 1 {
                } else if i == 2 {
                } else if i == 3 {
                } else if i == 4 {
                } else if i == 5 {
                } else if i == 6 {
                } else {
                }
            }
        }
    }
    r
}

/// Whether a 32-byte import bus id names this device.
fn bus_id_matches(b: &Vec<u8>) -> (r: bool)
    ensures
        r == is_import_bus_id(b@),
{
    if b.len() != 32 {
        return false;
    }
    if b[0] != 49 || b[1] != 45 || b[2] != 49 {
        return false;
    }
    let mut i: usize = 3;
    while i < 32
        invariant
            3 <= i <= 32,
            b@.len() == 32,
            b@[0] == 49u8 && b@[1] == 45u8 && b@[2] == 49u8,
            forall|j: int| 3 <= j < i ==> b@[j] == 0u8,
        decreases 32 - i,
    {
        if b[i] != 0 {
            return false;
        }
        i = i + 1;
    }
    true
}

} // verus!
