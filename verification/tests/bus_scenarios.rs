//! End-to-end scenarios driven through the bus core: attach, list,
//! control and bulk transfers, short IN transfers, and disconnects.

use usbip_device::bus::{PollResult, SocketOutcome, UsbIpBusInner};
use usbip_device::{BusError, UsbIpError};

fn be32(b: &[u8], i: usize) -> u32 {
    u32::from_be_bytes([b[i], b[i + 1], b[i + 2], b[i + 3]])
}

fn be16(b: &[u8], i: usize) -> u16 {
    u16::from_be_bytes([b[i], b[i + 1]])
}

fn attach_frame(bus_id: &[u8]) -> Vec<u8> {
    let mut f = Vec::new();
    f.extend_from_slice(&0x0111u16.to_be_bytes());
    f.extend_from_slice(&0x8003u16.to_be_bytes());
    f.extend_from_slice(&0u32.to_be_bytes());
    let mut id = [0u8; 32];
    id[..bus_id.len()].copy_from_slice(bus_id);
    f.extend_from_slice(&id);
    f
}

fn devlist_frame() -> Vec<u8> {
    let mut f = Vec::new();
    f.extend_from_slice(&0x0111u16.to_be_bytes());
    f.extend_from_slice(&0x8005u16.to_be_bytes());
    f.extend_from_slice(&0u32.to_be_bytes());
    f
}

fn cmd_submit(seqnum: u32, direction: u32, ep: u32, tbl: u32, setup: [u8; 8], payload: &[u8]) -> Vec<u8> {
    let mut f = Vec::new();
    f.extend_from_slice(&1u32.to_be_bytes());
    f.extend_from_slice(&seqnum.to_be_bytes());
    f.extend_from_slice(&2u32.to_be_bytes()); // devid
    f.extend_from_slice(&direction.to_be_bytes());
    f.extend_from_slice(&ep.to_be_bytes());
    f.extend_from_slice(&0u32.to_be_bytes()); // transfer_flags
    f.extend_from_slice(&tbl.to_be_bytes());
    f.extend_from_slice(&0u32.to_be_bytes()); // start_frame
    f.extend_from_slice(&0u32.to_be_bytes()); // number_of_packets
    f.extend_from_slice(&0u32.to_be_bytes()); // interval
    f.extend_from_slice(&setup);
    f.extend_from_slice(payload);
    f
}

fn attached_bus() -> UsbIpBusInner {
    let mut bus = UsbIpBusInner::new();
    assert_eq!(bus.handle_socket(&attach_frame(b"1-1")), SocketOutcome::Consumed(40));
    assert!(!bus.reset);
    let replies = bus.take_output();
    assert_eq!(replies.len(), 1);
    bus
}

#[test]
fn attach_scenario() {
    let mut bus = UsbIpBusInner::new();
    assert!(bus.reset);
    let outcome = bus.handle_socket(&attach_frame(b"1-1"));
    assert_eq!(outcome, SocketOutcome::Consumed(40));
    assert!(!bus.reset, "a successful import leaves the reset phase");
    let replies = bus.take_output();
    assert_eq!(replies.len(), 1);
    let reply = &replies[0];
    assert_eq!(reply.len(), 8 + 256 + 32 + 24);
    assert_eq!(be16(reply, 0), 0x0111);
    assert_eq!(be16(reply, 2), 0x0003);
    assert_eq!(be32(reply, 4), 0);
    assert_eq!(&reply[8..8 + 45], b"/sys/devices/pci0000:00/0000:00:01.2/usb1/1-1".as_slice());
    assert_eq!(&reply[8 + 256..8 + 256 + 3], b"1-1".as_slice());
}

#[test]
fn attach_wrong_bus_id_stays_in_reset() {
    let mut bus = UsbIpBusInner::new();
    let outcome = bus.handle_socket(&attach_frame(b"2-7"));
    assert_eq!(outcome, SocketOutcome::Consumed(40));
    assert!(bus.reset, "a failed import stays in the reset phase");
    let replies = bus.take_output();
    assert_eq!(replies.len(), 1);
    let reply = &replies[0];
    assert_eq!(reply.len(), 8);
    assert_eq!(be16(reply, 2), 0x0003);
    assert_ne!(be32(reply, 4), 0, "a failed import reports a non-zero status");
}

#[test]
fn list_scenario() {
    let mut bus = UsbIpBusInner::new();
    let outcome = bus.handle_socket(&devlist_frame());
    assert_eq!(outcome, SocketOutcome::Consumed(8));
    assert!(bus.reset, "listing devices does not attach");
    let replies = bus.take_output();
    assert_eq!(replies.len(), 1);
    let reply = &replies[0];
    assert_eq!(reply.len(), 8 + 4 + 256 + 32 + 24 + 4);
    assert_eq!(be16(reply, 2), 0x0005);
    assert_eq!(be32(reply, 4), 0);
    assert_eq!(be32(reply, 8), 1, "exactly one exported device");
}

#[test]
fn control_get_descriptor_scenario() {
    let mut bus = UsbIpBusInner::new();
    assert_eq!(bus.alloc_ep(false, Some(0), 64), Ok(0));
    assert_eq!(bus.alloc_ep(true, Some(0), 64), Ok(0));
    assert_eq!(bus.handle_socket(&attach_frame(b"1-1")), SocketOutcome::Consumed(40));
    bus.take_output();

    let setup = [0x80, 0x06, 0x00, 0x01, 0x00, 0x00, 0x12, 0x00];
    let frame = cmd_submit(1, 1, 0, 18, setup, &[]);
    assert_eq!(bus.handle_socket(&frame), SocketOutcome::Consumed(48));
    // No response yet: the device stack has not written the descriptor.
    assert!(bus.take_output().is_empty());

    // The stack sees the SETUP packet and reads it.
    match bus.poll() {
        PollResult::Data { ep_setup, .. } => assert_eq!(ep_setup & 1, 1),
        other => panic!("expected endpoint data, got {:?}", other),
    }
    assert_eq!(bus.read(0, 8), Ok(setup.to_vec()));

    // The stack writes the 18 descriptor bytes; the RET_SUBMIT goes out.
    let descriptor: Vec<u8> = (0u8..18).collect();
    assert_eq!(bus.write(0, &descriptor), Ok(18));
    let replies = bus.take_output();
    assert_eq!(replies.len(), 1);
    let reply = &replies[0];
    assert_eq!(reply.len(), 48 + 18);
    assert_eq!(be32(reply, 0), 3);
    assert_eq!(be32(reply, 4), 1, "seqnum echoed");
    assert_eq!(be32(reply, 8), 2, "devid echoed");
    assert_eq!(be32(reply, 12), 1, "direction echoed");
    assert_eq!(be32(reply, 16), 0, "endpoint echoed");
    assert_eq!(be32(reply, 20), 0, "status zero");
    assert_eq!(be32(reply, 24), 18, "actual length");
    assert_eq!(&reply[48..], descriptor.as_slice());
}

#[test]
fn bulk_out_scenario() {
    let mut bus = attached_bus();
    assert_eq!(bus.alloc_ep(false, Some(1), 64), Ok(1));
    let payload: Vec<u8> = (0..128).map(|i| i as u8).collect();
    let frame = cmd_submit(5, 0, 1, 128, [0; 8], &payload);
    assert_eq!(bus.handle_socket(&frame), SocketOutcome::Consumed(48 + 128));

    let replies = bus.take_output();
    assert_eq!(replies.len(), 1);
    let reply = &replies[0];
    assert_eq!(reply.len(), 48, "an OUT acknowledgement carries no payload");
    assert_eq!(be32(reply, 0), 3);
    assert_eq!(be32(reply, 4), 5, "seqnum echoed");
    assert_eq!(be32(reply, 20), 0, "status zero");
    assert_eq!(be32(reply, 24), 128, "actual length");

    // Two packet-size chunks arrive in order.
    assert_eq!(bus.read(1, 64), Ok(payload[..64].to_vec()));
    assert_eq!(bus.read(1, 64), Ok(payload[64..].to_vec()));
    assert_eq!(bus.read(1, 64), Err(BusError::WouldBlock));
}

#[test]
fn short_in_scenario() {
    let mut bus = attached_bus();
    assert_eq!(bus.alloc_ep(true, Some(1), 64), Ok(1));

    // The stack writes 10 bytes; a short chunk completes the transfer.
    let data: Vec<u8> = (100u8..110).collect();
    assert_eq!(bus.write(1, &data), Ok(10));
    assert!(bus.take_output().is_empty(), "no URB outstanding yet");

    // The host asks for 64 bytes and gets the 10 available.
    let frame = cmd_submit(7, 1, 1, 64, [0; 8], &[]);
    assert_eq!(bus.handle_socket(&frame), SocketOutcome::Consumed(48));
    let replies = bus.take_output();
    assert_eq!(replies.len(), 1);
    let reply = &replies[0];
    assert_eq!(be32(reply, 4), 7, "seqnum echoed");
    assert_eq!(be32(reply, 24), 10, "actual length is what was queued");
    assert_eq!(&reply[48..], data.as_slice());

    // A further IN request with no new data produces no response.
    let frame = cmd_submit(8, 1, 1, 64, [0; 8], &[]);
    assert_eq!(bus.handle_socket(&frame), SocketOutcome::Consumed(48));
    assert!(bus.take_output().is_empty());

    // More data arrives; the outstanding URB is served at once.
    assert_eq!(bus.write(1, &[1, 2, 3]), Ok(3));
    let replies = bus.take_output();
    assert_eq!(replies.len(), 1);
    assert_eq!(be32(&replies[0], 4), 8);
    assert_eq!(be32(&replies[0], 24), 3);
    assert_eq!(&replies[0][48..], &[1, 2, 3]);
}

#[test]
fn disconnect_mid_urb_scenario() {
    let mut bus = attached_bus();
    assert_eq!(bus.alloc_ep(true, Some(1), 64), Ok(1));
    let frame = cmd_submit(3, 1, 1, 64, [0; 8], &[]);
    assert_eq!(bus.handle_socket(&frame), SocketOutcome::Consumed(48));
    assert!(bus.take_output().is_empty(), "the URB is outstanding");

    // The client drops; the embedding program resets the bus.
    bus.reset();
    assert!(bus.reset);
    assert!(bus.take_output().is_empty());

    // The next connection starts in reset and can attach again.
    assert_eq!(bus.handle_socket(&attach_frame(b"1-1")), SocketOutcome::Consumed(40));
    assert!(!bus.reset);
    // The dropped URB is gone: new data does not produce a response.
    assert_eq!(bus.write(1, &[9]), Ok(1));
    let replies = bus.take_output();
    assert_eq!(replies.len(), 1, "only the import reply is pending");
    assert_eq!(be16(&replies[0], 2), 0x0003);
}

#[test]
fn out_with_zero_length_consumes_nothing() {
    let mut bus = attached_bus();
    assert_eq!(bus.alloc_ep(false, Some(1), 64), Ok(1));
    let frame = cmd_submit(2, 0, 1, 0, [0; 8], &[]);
    assert_eq!(bus.handle_socket(&frame), SocketOutcome::Consumed(48));
    let replies = bus.take_output();
    assert_eq!(replies.len(), 1);
    assert_eq!(be32(&replies[0], 24), 0, "actual length zero");
    assert_eq!(bus.read(1, 64), Err(BusError::WouldBlock), "no chunk was queued");
}

#[test]
fn chunk_spanning_transfer_boundary_is_split() {
    let mut bus = attached_bus();
    assert_eq!(bus.alloc_ep(true, Some(1), 4), Ok(1));
    assert_eq!(bus.write(1, &[1, 2, 3]), Ok(3));

    // The host asks for two bytes; the three-byte chunk is split.
    let frame = cmd_submit(1, 1, 1, 2, [0; 8], &[]);
    assert_eq!(bus.handle_socket(&frame), SocketOutcome::Consumed(48));
    let replies = bus.take_output();
    assert_eq!(replies.len(), 1);
    assert_eq!(&replies[0][48..], &[1, 2]);

    // The tail is returned on the next IN URB.
    let frame = cmd_submit(2, 1, 1, 64, [0; 8], &[]);
    assert_eq!(bus.handle_socket(&frame), SocketOutcome::Consumed(48));
    let replies = bus.take_output();
    assert_eq!(replies.len(), 1);
    assert_eq!(&replies[0][48..], &[3]);
}

#[test]
fn zero_setup_bytes_do_not_set_setup_flag() {
    let mut bus = attached_bus();
    assert_eq!(bus.alloc_ep(false, Some(0), 64), Ok(0));
    assert_eq!(bus.alloc_ep(true, Some(0), 64), Ok(0));
    let frame = cmd_submit(1, 1, 0, 8, [0; 8], &[]);
    assert_eq!(bus.handle_socket(&frame), SocketOutcome::Consumed(48));
    match bus.poll() {
        PollResult::Idle => {}
        PollResult::Data { ep_setup, .. } => assert_eq!(ep_setup, 0),
        other => panic!("unexpected poll result {:?}", other),
    }
    assert_eq!(bus.read(0, 64), Err(BusError::WouldBlock));
}

#[test]
fn seqnum_is_not_decreased_by_stale_frames() {
    let mut bus = attached_bus();
    assert_eq!(bus.alloc_ep(false, Some(1), 64), Ok(1));
    let frame = cmd_submit(9, 0, 1, 1, [0; 8], &[0x55]);
    assert_eq!(bus.handle_socket(&frame), SocketOutcome::Consumed(49));
    bus.take_output();
    // A stale sequence number is not adopted: the reply echoes 9.
    let frame = cmd_submit(4, 0, 1, 1, [0; 8], &[0x66]);
    assert_eq!(bus.handle_socket(&frame), SocketOutcome::Consumed(49));
    let replies = bus.take_output();
    assert_eq!(be32(&replies[0], 4), 9);
}

#[test]
fn malformed_command_reports_code() {
    let mut bus = attached_bus();
    let mut frame = cmd_submit(1, 0, 1, 0, [0; 8], &[]);
    frame[3] = 9;
    assert_eq!(
        bus.handle_socket(&frame),
        SocketOutcome::Malformed(UsbIpError::InvalidCommand(9))
    );
    let mut bus = UsbIpBusInner::new();
    let mut frame = devlist_frame();
    frame[2] = 0x99;
    frame[3] = 0x99;
    assert_eq!(
        bus.handle_socket(&frame),
        SocketOutcome::Malformed(UsbIpError::InvalidCommand(0x9999))
    );
}

#[test]
fn unlink_is_recognised_and_ignored() {
    let mut bus = attached_bus();
    assert_eq!(bus.alloc_ep(false, Some(1), 64), Ok(1));
    let mut frame = cmd_submit(6, 0, 1, 0, [0; 8], &[]);
    frame[3] = 2; // CMD_UNLINK
    assert_eq!(bus.handle_socket(&frame[..20]), SocketOutcome::NeedMore);
    assert_eq!(bus.handle_socket(&frame), SocketOutcome::Consumed(48));
    assert!(bus.take_output().is_empty(), "an unlink gets no response");
    assert!(!bus.reset, "the connection survives an unlink");
}

#[test]
fn frame_for_missing_endpoint_is_dropped() {
    let mut bus = attached_bus();
    let frame = cmd_submit(1, 0, 5, 3, [0; 8], &[1, 2, 3]);
    assert_eq!(bus.handle_socket(&frame), SocketOutcome::Consumed(51));
    assert!(bus.take_output().is_empty(), "no response for an absent endpoint");
}

#[test]
fn alloc_ep_errors() {
    let mut bus = UsbIpBusInner::new();
    assert_eq!(bus.alloc_ep(true, Some(3), 64), Ok(3));
    assert_eq!(bus.alloc_ep(true, Some(3), 64), Err(BusError::InvalidEndpoint));
    assert_eq!(bus.alloc_ep(true, Some(99), 64), Err(BusError::InvalidEndpoint));
    assert_eq!(bus.alloc_ep(false, Some(3), 64), Ok(3), "the other direction is free");
    // Automatic allocation takes the first free slot from index 1.
    assert_eq!(bus.alloc_ep(true, None, 64), Ok(1));
    assert_eq!(bus.alloc_ep(true, None, 64), Ok(2));
    for i in 4..16 {
        assert_eq!(bus.alloc_ep(true, None, 64), Ok(i));
    }
    assert_eq!(bus.alloc_ep(true, None, 64), Err(BusError::EndpointOverflow));
}

#[test]
fn read_write_errors() {
    let mut bus = UsbIpBusInner::new();
    assert_eq!(bus.read(2, 64), Err(BusError::InvalidEndpoint));
    assert_eq!(bus.write(2, &[1]), Err(BusError::InvalidEndpoint));
    assert_eq!(bus.alloc_ep(true, Some(2), 8), Ok(2));
    assert_eq!(bus.read(2, 64), Err(BusError::InvalidEndpoint), "no OUT direction");
    assert_eq!(bus.write(2, &[0; 9]), Err(BusError::BufferOverflow), "chunk above packet size");
    assert_eq!(bus.write(2, &[1, 2]), Ok(2));
    assert_eq!(
        bus.write(2, &[3]),
        Err(BusError::WouldBlock),
        "a completed transfer must drain first"
    );
    assert_eq!(bus.alloc_ep(false, Some(2), 8), Ok(2));
    assert_eq!(bus.read(2, 64), Err(BusError::WouldBlock), "nothing queued");
}

#[test]
fn read_buffer_overflow_keeps_chunk() {
    let mut bus = attached_bus();
    assert_eq!(bus.alloc_ep(false, Some(1), 64), Ok(1));
    let frame = cmd_submit(1, 0, 1, 8, [0; 8], &[1, 2, 3, 4, 5, 6, 7, 8]);
    assert_eq!(bus.handle_socket(&frame), SocketOutcome::Consumed(56));
    assert_eq!(bus.read(1, 4), Err(BusError::BufferOverflow));
    assert_eq!(bus.read(1, 8), Ok(vec![1, 2, 3, 4, 5, 6, 7, 8]));
}

#[test]
fn poll_reports_and_clears_events() {
    let mut bus = attached_bus();
    assert_eq!(bus.alloc_ep(false, Some(1), 64), Ok(1));
    assert_eq!(bus.alloc_ep(true, Some(2), 64), Ok(2));

    // OUT data pending on endpoint 1.
    let frame = cmd_submit(1, 0, 1, 2, [0; 8], &[7, 8]);
    bus.handle_socket(&frame);
    bus.take_output();
    // Completed IN transfer on endpoint 2.
    assert_eq!(bus.write(2, &[1]), Ok(1));
    let frame = cmd_submit(2, 1, 2, 64, [0; 8], &[]);
    bus.handle_socket(&frame);
    bus.take_output();

    match bus.poll() {
        PollResult::Data { ep_out, ep_in_complete, ep_setup } => {
            assert_eq!(ep_out, 1 << 1);
            assert_eq!(ep_in_complete, 1 << 2);
            assert_eq!(ep_setup, 0);
        }
        other => panic!("expected endpoint data, got {:?}", other),
    }
    // The IN completion is reported once; the OUT data stays until read.
    match bus.poll() {
        PollResult::Data { ep_out, ep_in_complete, .. } => {
            assert_eq!(ep_out, 1 << 1);
            assert_eq!(ep_in_complete, 0);
        }
        other => panic!("expected endpoint data, got {:?}", other),
    }
    assert!(bus.read(1, 64).is_ok());
    assert_eq!(bus.poll(), PollResult::Idle);
}

#[test]
fn force_reset_is_observable_through_poll() {
    let mut bus = attached_bus();
    bus.set_device_address(5);
    assert_eq!(bus.device_address, 5);
    bus.force_reset();
    assert!(bus.reset);
    assert_eq!(bus.device_address, 0);
    assert_eq!(bus.poll(), PollResult::Reset);
    assert_eq!(bus.poll(), PollResult::Idle, "the reset is reported once");
}

#[test]
fn partial_frames_ask_for_more() {
    let mut bus = UsbIpBusInner::new();
    let attach = attach_frame(b"1-1");
    assert_eq!(bus.handle_socket(&attach[..5]), SocketOutcome::NeedMore);
    assert_eq!(bus.handle_socket(&attach[..20]), SocketOutcome::NeedMore);
    assert_eq!(bus.handle_socket(&attach), SocketOutcome::Consumed(40));
    bus.take_output();
    let frame = cmd_submit(1, 0, 1, 4, [0; 8], &[1, 2, 3, 4]);
    assert_eq!(bus.handle_socket(&frame[..10]), SocketOutcome::NeedMore);
    assert_eq!(bus.handle_socket(&frame[..48]), SocketOutcome::NeedMore);
    assert_eq!(bus.handle_socket(&frame), SocketOutcome::Consumed(52));
}
