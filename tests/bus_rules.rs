use usbip_device::bus::{PollResult, UsbError, UsbIpBus, DEVID};
use usbip_device::cmd::{Direction, TransferFlags, UsbCmd, UsbIpHeader};
use usbip_device::endpoint::{EndpointType, UsbDirection};
use usbip_device::op::OpRequest;
use usbip_device::request::{UsbIpCmdSubmit, UsbIpCmdUnlink, UsbIpRequest};
use usbip_device::response::UsbIpResponseCmd;

fn submit(bus: &mut UsbIpBus, seqnum: u32, ep: u32, direction: Direction, length: i32, setup: [u8; 8], payload: &[u8]) {
    let header = UsbIpHeader { command: UsbCmd::Request, seqnum, devid: DEVID, direction, ep };
    let cmd = UsbIpCmdSubmit {
        transfer_flags: TransferFlags::from_bits_truncate(0),
        transfer_buffer_length: length,
        start_frame: 0,
        number_of_packets: 0,
        interval: 0,
        setup,
    };
    let mut frame = header.to_array().to_vec();
    frame.extend_from_slice(&cmd.to_array());
    frame.extend_from_slice(payload);
    bus.handle_usbip_pkg(UsbIpRequest::from_slice(&frame).unwrap());
}

fn unlink(bus: &mut UsbIpBus, seqnum: u32, target: u32) {
    let header = UsbIpHeader { command: UsbCmd::UnlinkRequest, seqnum, devid: DEVID, direction: Direction::OUT, ep: 0 };
    let mut frame = header.to_array().to_vec();
    frame.extend_from_slice(&UsbIpCmdUnlink { seqnum: target }.to_array());
    bus.handle_usbip_pkg(UsbIpRequest::from_slice(&frame).unwrap());
}

fn import(bus: &mut UsbIpBus) {
    let mut frame = vec![0x01, 0x11, 0x80, 0x03, 0, 0, 0, 0];
    frame.extend_from_slice(&[0u8; 32]);
    bus.handle_op(OpRequest::from_slice(&frame).unwrap());
}

fn attached() -> UsbIpBus {
    let mut bus = UsbIpBus::new();
    bus.connect();
    import(&mut bus);
    bus
}

fn actual_length(bus: &UsbIpBus, i: usize) -> i32 {
    match bus.outbox[i].cmd {
        UsbIpResponseCmd::Cmd(c) => c.actual_length,
        UsbIpResponseCmd::Unlink(_) => panic!("expected a RET_SUBMIT"),
    }
}

#[test]
fn in_bytes_keep_their_order_across_replies() {
    let mut bus = attached();
    bus.alloc_ep(UsbDirection::In, Some(1), EndpointType::Bulk, 64, 0).unwrap();
    assert_eq!(bus.write(1, &[1, 2, 3, 4, 5, 6]), Ok(6));
    submit(&mut bus, 1, 1, Direction::IN, 4, [0; 8], &[]);
    assert_eq!(bus.outbox[0].data, vec![1, 2, 3, 4]);
    assert_eq!(actual_length(&bus, 0), 4);
    submit(&mut bus, 2, 1, Direction::IN, 4, [0; 8], &[]);
    assert_eq!(bus.outbox[1].data, vec![5, 6]);
    assert_eq!(actual_length(&bus, 1), 2);
}

#[test]
fn reply_never_exceeds_the_asked_length() {
    let mut bus = attached();
    bus.alloc_ep(UsbDirection::In, Some(1), EndpointType::Bulk, 64, 0).unwrap();
    assert_eq!(bus.write(1, &[9; 30]), Ok(30));
    submit(&mut bus, 1, 1, Direction::IN, 0, [0; 8], &[]);
    assert_eq!(actual_length(&bus, 0), 0);
    submit(&mut bus, 2, 1, Direction::IN, 10, [0; 8], &[]);
    assert_eq!(actual_length(&bus, 1), 10);
    submit(&mut bus, 3, 1, Direction::IN, -5, [0; 8], &[]);
    assert_eq!(bus.outbox.len(), 3);
    assert_eq!(actual_length(&bus, 2), 0);
}

#[test]
fn second_unlink_removes_nothing() {
    let mut bus = attached();
    bus.alloc_ep(UsbDirection::In, Some(2), EndpointType::Bulk, 64, 0).unwrap();
    submit(&mut bus, 20, 2, Direction::IN, 16, [0; 8], &[]);
    assert!(bus.unlink(20));
    assert!(!bus.unlink(20));
    unlink(&mut bus, 30, 20);
    unlink(&mut bus, 31, 20);
    assert_eq!(bus.outbox.len(), 2);
    for (i, seqnum) in [(0usize, 30u32), (1, 31)] {
        assert_eq!(bus.outbox[i].header.seqnum, seqnum);
        match bus.outbox[i].cmd {
            UsbIpResponseCmd::Unlink(u) => assert_eq!(u.status, 0),
            UsbIpResponseCmd::Cmd(_) => panic!("expected a RET_UNLINK"),
        }
    }
}

#[test]
fn disconnect_returns_to_reset_until_import() {
    let mut bus = attached();
    bus.alloc_ep(UsbDirection::Out, Some(1), EndpointType::Bulk, 8, 0).unwrap();
    submit(&mut bus, 1, 1, Direction::OUT, 3, [0; 8], &[1, 2, 3]);
    assert!(matches!(bus.poll(), PollResult::Data { ep_out: 0b10, .. }));
    bus.disconnect();
    assert!(!bus.is_connected());
    assert!(bus.outbox.is_empty());
    assert_eq!(bus.poll(), PollResult::Reset);
    bus.connect();
    assert_eq!(bus.poll(), PollResult::Reset);
    bus.reset();
    assert_eq!(bus.poll(), PollResult::Reset);
    import(&mut bus);
    assert_eq!(bus.poll(), PollResult::Data { ep_out: 0, ep_in_complete: 0, ep_setup: 0 });
    assert!(bus.is_stalled(1));
    let mut buf = [0u8; 8];
    assert_eq!(bus.read(1, &mut buf), Err(UsbError::WouldBlock));
}

#[test]
fn second_poll_reports_no_flags() {
    let mut bus = attached();
    bus.alloc_ep(UsbDirection::Out, Some(0), EndpointType::Control, 8, 0).unwrap();
    bus.alloc_ep(UsbDirection::In, Some(0), EndpointType::Control, 8, 0).unwrap();
    submit(&mut bus, 1, 0, Direction::OUT, 0, [0x80, 6, 0, 1, 0, 0, 0x12, 0], &[]);
    assert_eq!(bus.write(0, &[1, 2]), Ok(2));
    assert_eq!(bus.poll(), PollResult::Data { ep_out: 1, ep_in_complete: 1, ep_setup: 1 });
    assert_eq!(bus.poll(), PollResult::Data { ep_out: 1, ep_in_complete: 0, ep_setup: 0 });
}

#[test]
fn suspend_and_resume() {
    let mut bus = attached();
    bus.suspend();
    assert_eq!(bus.poll(), PollResult::Suspend);
    bus.resume();
    assert_eq!(bus.poll(), PollResult::Data { ep_out: 0, ep_in_complete: 0, ep_setup: 0 });
}

#[test]
fn device_reset_clears_the_table_when_attached() {
    let mut bus = attached();
    bus.alloc_ep(UsbDirection::In, Some(1), EndpointType::Bulk, 8, 0).unwrap();
    bus.set_stalled(1, false);
    assert!(!bus.is_stalled(1));
    bus.reset();
    assert!(bus.reset);
    assert!(bus.endpoint[1].pipe_in.is_none());
    assert!(bus.is_stalled(1));
}

#[test]
fn alloc_errors() {
    let mut bus = UsbIpBus::new();
    assert_eq!(bus.alloc_ep(UsbDirection::In, Some(8), EndpointType::Bulk, 8, 0), Err(UsbError::InvalidEndpoint));
    for i in 1..8 {
        assert_eq!(bus.alloc_ep(UsbDirection::In, None, EndpointType::Bulk, 8, 0), Ok(i));
    }
    assert_eq!(bus.alloc_ep(UsbDirection::In, None, EndpointType::Bulk, 8, 0), Err(UsbError::EndpointMemoryOverflow));
    assert_eq!(bus.alloc_ep(UsbDirection::In, Some(3), EndpointType::Bulk, 8, 0), Err(UsbError::InvalidEndpoint));
    assert_eq!(bus.alloc_ep(UsbDirection::Out, None, EndpointType::Bulk, 8, 0), Ok(1));
    assert_eq!(bus.alloc_ep(UsbDirection::In, Some(0), EndpointType::Control, 8, 0), Ok(0));
}

#[test]
fn write_and_read_errors() {
    let mut bus = UsbIpBus::new();
    bus.alloc_ep(UsbDirection::In, Some(1), EndpointType::Bulk, 8, 0).unwrap();
    assert_eq!(bus.write(1, &[1]), Err(UsbError::WouldBlock));
    bus.connect();
    assert_eq!(bus.write(9, &[1]), Err(UsbError::InvalidEndpoint));
    assert_eq!(bus.write(2, &[1]), Err(UsbError::InvalidEndpoint));
    let mut buf = [0u8; 4];
    assert_eq!(bus.read(9, &mut buf), Err(UsbError::InvalidEndpoint));
    assert_eq!(bus.read(1, &mut buf), Err(UsbError::InvalidEndpoint));
    assert!(!bus.is_stalled(9));
}

#[test]
fn read_truncates_but_reports_full_length() {
    let mut bus = attached();
    bus.alloc_ep(UsbDirection::Out, Some(1), EndpointType::Bulk, 64, 0).unwrap();
    submit(&mut bus, 1, 1, Direction::OUT, 6, [0; 8], &[1, 2, 3, 4, 5, 6]);
    let mut buf = [0u8; 4];
    assert_eq!(bus.read(1, &mut buf), Ok(6));
    assert_eq!(buf, [1, 2, 3, 4]);
}

#[test]
fn submit_for_missing_endpoint_is_dropped() {
    let mut bus = attached();
    submit(&mut bus, 1, 5, Direction::OUT, 2, [0; 8], &[1, 2]);
    submit(&mut bus, 2, 12, Direction::IN, 2, [0; 8], &[]);
    assert!(bus.outbox.is_empty());
}

#[test]
fn zero_packet_only_on_bulk() {
    let mut bus = attached();
    bus.alloc_ep(UsbDirection::Out, Some(1), EndpointType::Interrupt, 8, 0).unwrap();
    let header = UsbIpHeader { command: UsbCmd::Request, seqnum: 3, devid: DEVID, direction: Direction::OUT, ep: 1 };
    let cmd = UsbIpCmdSubmit {
        transfer_flags: TransferFlags::from_bits_truncate(0x40),
        transfer_buffer_length: 8,
        start_frame: 0,
        number_of_packets: 0,
        interval: 0,
        setup: [0; 8],
    };
    let mut frame = header.to_array().to_vec();
    frame.extend_from_slice(&cmd.to_array());
    frame.extend_from_slice(&[7; 8]);
    bus.handle_usbip_pkg(UsbIpRequest::from_slice(&frame).unwrap());
    let mut buf = [0u8; 8];
    assert_eq!(bus.read(1, &mut buf), Ok(8));
    assert_eq!(bus.read(1, &mut buf), Err(UsbError::WouldBlock));
}

#[test]
fn device_descriptor_setters() {
    let mut bus = UsbIpBus::new();
    bus.set_vendor(0x16c0);
    bus.set_product(0x27dd);
    bus.set_speed(2);
    bus.set_device_class(2);
    bus.set_device_address(5);
    assert_eq!(bus.device_address, 5);
    let reply = bus.handle_op(OpRequest::from_slice(&[1, 0x11, 0x80, 0x05, 0, 0, 0, 0]).unwrap());
    assert_eq!(reply.descriptor.vendor, 0x16c0);
    assert_eq!(reply.descriptor.product, 0x27dd);
    assert_eq!(reply.descriptor.speed, 2);
    assert_eq!(reply.descriptor.device_class, 2);
    let bytes = reply.to_vec().unwrap();
    assert_eq!(&bytes[300..318], &[0, 0, 0, 1, 0, 0, 0, 2, 0, 0, 0, 2, 0x16, 0xc0, 0x27, 0xdd, 0, 0]);
}
