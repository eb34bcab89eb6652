//! Wire-codec tests: frame encodings and decode/encode round trips.

use usbip_device::cmd::{CmdParse, UsbIpCmd, UsbIpHeader, UsbIpRequest, UsbIpResponse, UsbIpResponseCmd};
use usbip_device::op::{OpDeviceDescriptor, OpInterfaceDescriptor, OpRequest, OpResponse, OpResponseCommand};
use usbip_device::UsbIpError;

fn be16(b: &[u8], i: usize) -> u16 {
    u16::from_be_bytes([b[i], b[i + 1]])
}

fn be32(b: &[u8], i: usize) -> u32 {
    u32::from_be_bytes([b[i], b[i + 1], b[i + 2], b[i + 3]])
}

fn cmd_submit_bytes(seqnum: u32, devid: u32, direction: u32, ep: u32, tbl: u32, setup: [u8; 8], payload: &[u8]) -> Vec<u8> {
    let header = UsbIpHeader { command: 1, seqnum, devid };
    let cmd = UsbIpCmd {
        direction,
        ep,
        transfer_flags: 0,
        transfer_buffer_length: tbl,
        start_frame: 0,
        number_of_packets: 0,
        interval_or_err_count: 0,
        setup,
    };
    let mut bytes = header.to_array();
    bytes.extend_from_slice(&cmd.to_array());
    bytes.extend_from_slice(payload);
    bytes
}

#[test]
fn header_roundtrip() {
    let h = UsbIpHeader { command: 1, seqnum: 0xdeadbeef, devid: 0x10002 };
    let bytes = h.to_array();
    assert_eq!(bytes.len(), 12);
    let h2 = UsbIpHeader::from_slice(&bytes);
    assert_eq!(h, h2);
    assert_eq!(h2.to_array(), bytes);
}

#[test]
fn cmd_body_roundtrip() {
    let c = UsbIpCmd {
        direction: 1,
        ep: 3,
        transfer_flags: 0x200,
        transfer_buffer_length: 512,
        start_frame: 7,
        number_of_packets: 2,
        interval_or_err_count: 11,
        setup: [1, 2, 3, 4, 5, 6, 7, 8],
    };
    let bytes = c.to_array();
    assert_eq!(bytes.len(), 36);
    let mut frame = vec![0u8; 12];
    frame.extend_from_slice(&bytes);
    let c2 = UsbIpCmd::from_slice(&frame);
    assert_eq!(c, c2);
    assert_eq!(c2.to_array(), bytes);
}

#[test]
fn parse_out_frame_with_payload() {
    let payload: Vec<u8> = (0u8..128).collect();
    let bytes = cmd_submit_bytes(9, 2, 0, 1, 128, [0; 8], &payload);
    match UsbIpRequest::parse(&bytes) {
        CmdParse::Frame(UsbIpRequest::Cmd(h, c, data), n) => {
            assert_eq!(n, 48 + 128);
            assert_eq!(h.command, 1);
            assert_eq!(h.seqnum, 9);
            assert_eq!(h.devid, 2);
            assert_eq!(c.direction, 0);
            assert_eq!(c.ep, 1);
            assert_eq!(c.transfer_buffer_length, 128);
            assert_eq!(data, payload);
        }
        _ => panic!("expected a full frame"),
    }
}

#[test]
fn parse_in_frame_has_no_payload() {
    let bytes = cmd_submit_bytes(4, 2, 1, 0, 18, [0x80, 0x06, 0, 1, 0, 0, 0x12, 0], &[]);
    match UsbIpRequest::parse(&bytes) {
        CmdParse::Frame(UsbIpRequest::Cmd(h, c, data), n) => {
            assert_eq!(n, 48);
            assert_eq!(h.seqnum, 4);
            assert_eq!(c.direction, 1);
            assert_eq!(c.transfer_buffer_length, 18);
            assert_eq!(c.setup, [0x80, 0x06, 0, 1, 0, 0, 0x12, 0]);
            assert!(data.is_empty());
        }
        _ => panic!("expected a full frame"),
    }
}

#[test]
fn parse_needs_more_bytes() {
    let payload: Vec<u8> = vec![1, 2, 3, 4];
    let bytes = cmd_submit_bytes(1, 2, 0, 1, 4, [0; 8], &payload);
    assert!(matches!(UsbIpRequest::parse(&bytes[..4]), CmdParse::NeedMore));
    assert!(matches!(UsbIpRequest::parse(&bytes[..20]), CmdParse::NeedMore));
    assert!(matches!(UsbIpRequest::parse(&bytes[..50]), CmdParse::NeedMore));
    assert!(matches!(UsbIpRequest::parse(&bytes), CmdParse::Frame(_, 52)));
}

#[test]
fn parse_rejects_unknown_command() {
    let mut bytes = cmd_submit_bytes(1, 2, 0, 1, 0, [0; 8], &[]);
    bytes[3] = 7;
    match UsbIpRequest::parse(&bytes) {
        CmdParse::Malformed(UsbIpError::InvalidCommand(code)) => assert_eq!(code, 7),
        _ => panic!("expected a malformed outcome"),
    }
}

#[test]
fn ret_submit_encoding() {
    let response = UsbIpResponse {
        header: UsbIpHeader { command: 3, seqnum: 21, devid: 2 },
        cmd: UsbIpResponseCmd::Cmd(UsbIpCmd {
            direction: 1,
            ep: 1,
            transfer_flags: 0,
            transfer_buffer_length: 3,
            start_frame: 0,
            number_of_packets: 0,
            interval_or_err_count: 0,
            setup: [0; 8],
        }),
        data: vec![0xaa, 0xbb, 0xcc],
    };
    let bytes = response.to_vec().unwrap();
    assert_eq!(bytes.len(), 51);
    assert_eq!(be32(&bytes, 0), 3);
    assert_eq!(be32(&bytes, 4), 21);
    assert_eq!(be32(&bytes, 8), 2);
    assert_eq!(be32(&bytes, 12), 1);
    assert_eq!(be32(&bytes, 16), 1);
    assert_eq!(be32(&bytes, 20), 0);
    assert_eq!(be32(&bytes, 24), 3);
    assert_eq!(&bytes[48..], &[0xaa, 0xbb, 0xcc]);
}

#[test]
fn op_request_decoding() {
    let mut list = Vec::new();
    list.extend_from_slice(&0x0111u16.to_be_bytes());
    list.extend_from_slice(&0x8005u16.to_be_bytes());
    list.extend_from_slice(&0u32.to_be_bytes());
    match OpRequest::from_slice(&list) {
        Some(OpRequest::ListDevices(h)) => {
            assert_eq!(h.version, 0x0111);
            assert_eq!(h.command, 0x8005);
            assert_eq!(h.status, 0);
        }
        _ => panic!("expected a device-list request"),
    }

    let mut import = Vec::new();
    import.extend_from_slice(&0x0111u16.to_be_bytes());
    import.extend_from_slice(&0x8003u16.to_be_bytes());
    import.extend_from_slice(&0u32.to_be_bytes());
    let mut bus_id = [0u8; 32];
    bus_id[..3].copy_from_slice(b"1-1");
    import.extend_from_slice(&bus_id);
    match OpRequest::from_slice(&import) {
        Some(OpRequest::ConnectDevice(h, id)) => {
            assert_eq!(h.command, 0x8003);
            assert_eq!(id, bus_id.to_vec());
        }
        _ => panic!("expected an import request"),
    }
}

#[test]
fn op_request_rejects_bad_input() {
    // Too short for a header.
    assert!(OpRequest::from_slice(&[1, 1, 0x80]).is_none());
    // Non-zero status.
    let mut bad_status = Vec::new();
    bad_status.extend_from_slice(&0x0111u16.to_be_bytes());
    bad_status.extend_from_slice(&0x8005u16.to_be_bytes());
    bad_status.extend_from_slice(&5u32.to_be_bytes());
    assert!(OpRequest::from_slice(&bad_status).is_none());
    // Unknown command.
    let mut unknown = Vec::new();
    unknown.extend_from_slice(&0x0111u16.to_be_bytes());
    unknown.extend_from_slice(&0x9999u16.to_be_bytes());
    unknown.extend_from_slice(&0u32.to_be_bytes());
    assert!(OpRequest::from_slice(&unknown).is_none());
    // Import request without the full bus id.
    let mut short_import = Vec::new();
    short_import.extend_from_slice(&0x0111u16.to_be_bytes());
    short_import.extend_from_slice(&0x8003u16.to_be_bytes());
    short_import.extend_from_slice(&0u32.to_be_bytes());
    short_import.extend_from_slice(&[0u8; 10]);
    assert!(OpRequest::from_slice(&short_import).is_none());
}

#[test]
fn op_response_encoding() {
    let descriptor = OpDeviceDescriptor {
        busnum: 1,
        devnum: 2,
        speed: 1,
        vendor: 0x1111,
        product: 0x1010,
        bcd_device: 0,
        device_class: 0,
        device_subclass: 0,
        device_protocol: 0,
        configuration_value: 0,
        num_configurations: 1,
        num_interfaces: 1,
    };
    let list = OpResponse {
        version: 0x0111,
        path: b"/sys/devices/pci0000:00/0000:00:01.2/usb1/1-1".to_vec(),
        bus_id: b"1-1".to_vec(),
        descriptor: descriptor.clone(),
        cmd: OpResponseCommand::ListDevices(OpInterfaceDescriptor {
            interface_class: 0,
            interface_subclass: 0,
            interface_protocol: 0,
            padding: 0,
        }),
    };
    let bytes = list.to_vec().unwrap();
    // header + device count + path + bus id + descriptor + interface
    assert_eq!(bytes.len(), 8 + 4 + 256 + 32 + 24 + 4);
    assert_eq!(be16(&bytes, 0), 0x0111);
    assert_eq!(be16(&bytes, 2), 0x0005);
    assert_eq!(be32(&bytes, 4), 0);
    assert_eq!(be32(&bytes, 8), 1); // exported device count
    assert_eq!(&bytes[12..12 + 45], b"/sys/devices/pci0000:00/0000:00:01.2/usb1/1-1");
    assert_eq!(bytes[12 + 45], 0); // NUL padding

    let import = OpResponse {
        version: 0x0111,
        path: b"/sys/devices/pci0000:00/0000:00:01.2/usb1/1-1".to_vec(),
        bus_id: b"1-1".to_vec(),
        descriptor,
        cmd: OpResponseCommand::ConnectDevice,
    };
    let bytes = import.to_vec().unwrap();
    assert_eq!(bytes.len(), 8 + 256 + 32 + 24);
    assert_eq!(be16(&bytes, 2), 0x0003);
}

#[test]
fn op_response_rejects_oversized_fields() {
    let descriptor = OpDeviceDescriptor {
        busnum: 1,
        devnum: 2,
        speed: 1,
        vendor: 0,
        product: 0,
        bcd_device: 0,
        device_class: 0,
        device_subclass: 0,
        device_protocol: 0,
        configuration_value: 0,
        num_configurations: 1,
        num_interfaces: 1,
    };
    let too_long = OpResponse {
        version: 0x0111,
        path: vec![b'a'; 257],
        bus_id: b"1-1".to_vec(),
        descriptor,
        cmd: OpResponseCommand::ConnectDevice,
    };
    assert!(too_long.to_vec().is_none());
}
