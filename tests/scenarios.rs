use usbip_device::bus::{PollResult, UsbError, UsbIpBus, DEVID};
use usbip_device::cmd::{Direction, TransferFlags, UsbCmd, UsbIpHeader, ZERO_PACKET};
use usbip_device::endpoint::{EndpointType, UsbDirection};
use usbip_device::op::{OpRequest, OpResponseCommand};
use usbip_device::request::{UsbIpCmdSubmit, UsbIpCmdUnlink, UsbIpRequest};
use usbip_device::response::{UsbIpResponse, UsbIpResponseCmd};

const GET_DESCRIPTOR: [u8; 8] = [0x80, 0x06, 0x00, 0x01, 0x00, 0x00, 0x40, 0x00];

fn submit_frame(seqnum: u32, ep: u32, direction: Direction, length: i32, flags: u32, setup: [u8; 8], payload: &[u8]) -> Vec<u8> {
    let header = UsbIpHeader { command: UsbCmd::Request, seqnum, devid: DEVID, direction, ep };
    let cmd = UsbIpCmdSubmit {
        transfer_flags: TransferFlags::from_bits_truncate(flags),
        transfer_buffer_length: length,
        start_frame: 0,
        number_of_packets: 0,
        interval: 0,
        setup,
    };
    let mut frame = header.to_array().to_vec();
    frame.extend_from_slice(&cmd.to_array());
    frame.extend_from_slice(payload);
    frame
}

fn unlink_frame(seqnum: u32, ep: u32, target: u32) -> Vec<u8> {
    let header = UsbIpHeader { command: UsbCmd::UnlinkRequest, seqnum, devid: DEVID, direction: Direction::OUT, ep };
    let mut frame = header.to_array().to_vec();
    frame.extend_from_slice(&UsbIpCmdUnlink { seqnum: target }.to_array());
    frame
}

fn import_frame() -> Vec<u8> {
    let mut frame = vec![0x01, 0x11, 0x80, 0x03, 0, 0, 0, 0];
    let mut bus_id = [0u8; 32];
    bus_id[..3].copy_from_slice(b"1-1");
    frame.extend_from_slice(&bus_id);
    frame
}

fn send(bus: &mut UsbIpBus, frame: &[u8]) {
    let request = UsbIpRequest::from_slice(frame).unwrap();
    bus.handle_usbip_pkg(request);
}

fn attached_bus() -> UsbIpBus {
    let mut bus = UsbIpBus::new();
    bus.connect();
    let op = OpRequest::from_slice(&import_frame()).unwrap();
    bus.handle_op(op);
    bus
}

fn ret_submit_fields(r: &UsbIpResponse) -> (u32, i32, i32) {
    match r.cmd {
        UsbIpResponseCmd::Cmd(c) => (r.header.seqnum, c.status, c.actual_length),
        UsbIpResponseCmd::Unlink(_) => panic!("expected a RET_SUBMIT"),
    }
}

#[test]
fn list_devices_reply() {
    let mut bus = UsbIpBus::new();
    let op = OpRequest::from_slice(&[0x01, 0x11, 0x80, 0x05, 0, 0, 0, 0]).unwrap();
    assert!(matches!(op, OpRequest::ListDevices(_)));
    let reply = bus.handle_op(op);
    assert!(bus.reset);
    let bytes = reply.to_vec().unwrap();
    assert_eq!(bytes.len(), 8 + 4 + 256 + 32 + 24 + 4);
    assert_eq!(&bytes[0..8], &[0x01, 0x11, 0x00, 0x05, 0, 0, 0, 0]);
    assert_eq!(&bytes[8..12], &[0, 0, 0, 1]);
    let path = b"/sys/devices/pci0000:00/0000:00:01.2/usb1/1-1";
    assert_eq!(&bytes[12..12 + path.len()], path);
    assert!(bytes[12 + path.len()..268].iter().all(|b| *b == 0));
    assert_eq!(&bytes[268..271], b"1-1");
    assert!(bytes[271..300].iter().all(|b| *b == 0));
    let descriptor = [
        0, 0, 0, 1, 0, 0, 0, 2, 0, 0, 0, 3, 0x11, 0x11, 0x10, 0x10, 0, 0, 0, 0, 0, 0, 1, 1,
    ];
    assert_eq!(&bytes[300..324], &descriptor);
    assert_eq!(&bytes[324..328], &[0, 0, 0, 0]);
}

#[test]
fn import_then_get_descriptor_setup() {
    let mut bus = UsbIpBus::new();
    bus.connect();
    assert_eq!(bus.alloc_ep(UsbDirection::Out, Some(0), EndpointType::Control, 64, 0), Ok(0));
    assert_eq!(bus.alloc_ep(UsbDirection::In, Some(0), EndpointType::Control, 64, 0), Ok(0));
    let op = OpRequest::from_slice(&import_frame()).unwrap();
    let reply = bus.handle_op(op);
    assert_eq!(reply.cmd, OpResponseCommand::ConnectDevice);
    let bytes = reply.to_vec().unwrap();
    assert_eq!(bytes.len(), 8 + 256 + 32 + 24);
    assert_eq!(&bytes[0..8], &[0x01, 0x11, 0x00, 0x03, 0, 0, 0, 0]);
    assert!(!bus.reset);

    send(&mut bus, &submit_frame(1, 0, Direction::OUT, 0, 0, GET_DESCRIPTOR, &[]));
    assert_eq!(bus.outbox.len(), 1);
    assert_eq!(ret_submit_fields(&bus.outbox[0]), (1, 0, 0));
    assert_eq!(bus.outbox[0].header.command, UsbCmd::Response);
    assert_eq!(bus.outbox[0].header.devid, (1 << 16) | 2);
    assert_eq!(
        bus.poll(),
        PollResult::Data { ep_out: 0x0001, ep_in_complete: 0, ep_setup: 0x0001 }
    );
    let mut buf = [0u8; 8];
    assert_eq!(bus.read(0, &mut buf), Ok(8));
    assert_eq!(buf, GET_DESCRIPTOR);
}

#[test]
fn in_data_flow() {
    let mut bus = attached_bus();
    assert_eq!(bus.alloc_ep(UsbDirection::In, None, EndpointType::Interrupt, 64, 10), Ok(1));
    assert_eq!(bus.write(1, &[0xDE, 0xAD, 0xBE, 0xEF]), Ok(4));
    assert!(bus.outbox.is_empty());
    send(&mut bus, &submit_frame(7, 1, Direction::IN, 64, 0, [0; 8], &[]));
    assert_eq!(bus.outbox.len(), 1);
    assert_eq!(ret_submit_fields(&bus.outbox[0]), (7, 0, 4));
    assert_eq!(bus.outbox[0].data, vec![0xDE, 0xAD, 0xBE, 0xEF]);
    assert_eq!(bus.outbox[0].header.direction, Direction::IN);
    let bytes = bus.outbox[0].to_vec().unwrap();
    assert_eq!(bytes.len(), 48 + 4);
    assert_eq!(&bytes[0..4], &[0, 0, 0, 3]);
    assert_eq!(&bytes[4..8], &[0, 0, 0, 7]);
    assert_eq!(&bytes[24..28], &[0, 0, 0, 4]);
    assert_eq!(&bytes[48..52], &[0xDE, 0xAD, 0xBE, 0xEF]);
}

#[test]
fn out_chunking() {
    let mut bus = attached_bus();
    assert_eq!(bus.alloc_ep(UsbDirection::Out, Some(2), EndpointType::Bulk, 8, 0), Ok(2));
    let payload: Vec<u8> = (0u8..20).collect();
    send(&mut bus, &submit_frame(9, 2, Direction::OUT, 20, ZERO_PACKET, [0; 8], &payload));
    assert_eq!(bus.outbox.len(), 1);
    assert_eq!(ret_submit_fields(&bus.outbox[0]), (9, 0, 0));
    let mut buf = [0u8; 64];
    assert_eq!(bus.read(2, &mut buf), Ok(8));
    assert_eq!(&buf[..8], &payload[0..8]);
    assert_eq!(bus.read(2, &mut buf), Ok(8));
    assert_eq!(&buf[..8], &payload[8..16]);
    assert_eq!(bus.read(2, &mut buf), Ok(4));
    assert_eq!(&buf[..4], &payload[16..20]);
    assert_eq!(bus.read(2, &mut buf), Ok(0));
    assert_eq!(bus.read(2, &mut buf), Err(UsbError::WouldBlock));
}

#[test]
fn unlink_pending_in() {
    let mut bus = attached_bus();
    assert_eq!(bus.alloc_ep(UsbDirection::In, Some(3), EndpointType::Bulk, 64, 0), Ok(3));
    send(&mut bus, &submit_frame(11, 3, Direction::IN, 64, 0, [0; 8], &[]));
    assert!(bus.outbox.is_empty());
    send(&mut bus, &unlink_frame(12, 3, 11));
    assert_eq!(bus.outbox.len(), 1);
    assert_eq!(bus.outbox[0].header.command, UsbCmd::UnlinkResponse);
    assert_eq!(bus.outbox[0].header.seqnum, 12);
    match bus.outbox[0].cmd {
        UsbIpResponseCmd::Unlink(u) => assert_eq!(u.status, 0),
        UsbIpResponseCmd::Cmd(_) => panic!("expected a RET_UNLINK"),
    }
    assert_eq!(bus.write(3, &[1, 2, 3]), Ok(3));
    assert_eq!(bus.outbox.len(), 1);
}

#[test]
fn control_transaction_framing() {
    let mut bus = attached_bus();
    assert_eq!(bus.alloc_ep(UsbDirection::In, Some(0), EndpointType::Control, 8, 0), Ok(0));
    assert_eq!(bus.write(0, &[1; 8]), Ok(8));
    assert!(!bus.endpoint[0].is_rts());
    assert_eq!(bus.write(0, &[2; 8]), Ok(8));
    assert!(!bus.endpoint[0].is_rts());
    assert_eq!(bus.write(0, &[3; 3]), Ok(3));
    assert!(bus.endpoint[0].is_rts());
    assert_eq!(bus.write(0, &[4; 3]), Err(UsbError::WouldBlock));
    send(&mut bus, &submit_frame(5, 0, Direction::IN, 32, 0, [0; 8], &[]));
    assert_eq!(bus.outbox.len(), 1);
    assert_eq!(ret_submit_fields(&bus.outbox[0]), (5, 0, 19));
    let mut expected = vec![1u8; 8];
    expected.extend_from_slice(&[2; 8]);
    expected.extend_from_slice(&[3; 3]);
    assert_eq!(bus.outbox[0].data, expected);
}
