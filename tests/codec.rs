use usbip_device::cmd::{Direction, TransferFlags, UsbCmd, UsbIpHeader};
use usbip_device::op::{
    OpDeviceDescriptor, OpHeader, OpInterfaceDescriptor, OpRequest, OpResponse, OpResponseCommand,
};
use usbip_device::request::{UsbIpCmdSubmit, UsbIpCmdUnlink, UsbIpRequest, UsbIpRequestCmd};
use usbip_device::response::{UsbIpResponse, UsbIpResponseCmd, UsbIpRetSubmit, UsbIpRetUnlink};
use usbip_device::UsbIpError;

fn descriptor() -> OpDeviceDescriptor {
    OpDeviceDescriptor {
        busnum: 1,
        devnum: 2,
        speed: 3,
        vendor: 0x1111,
        product: 0x1010,
        bcd_device: 0x0200,
        device_class: 9,
        device_subclass: 8,
        device_protocol: 7,
        configuration_value: 6,
        num_configurations: 1,
        num_interfaces: 1,
    }
}

#[test]
fn usb_cmd_codes() {
    for (cmd, code) in [
        (UsbCmd::Request, 1u32),
        (UsbCmd::UnlinkRequest, 2),
        (UsbCmd::Response, 3),
        (UsbCmd::UnlinkResponse, 4),
    ] {
        assert_eq!(cmd.to_u32(), code);
        assert_eq!(UsbCmd::try_from_u32(code), Some(cmd));
    }
    assert_eq!(UsbCmd::try_from_u32(0), None);
    assert_eq!(UsbCmd::try_from_u32(5), None);
}

#[test]
fn header_round_trip() {
    let h = UsbIpHeader { command: UsbCmd::Response, seqnum: 0x01020304, devid: 0x00010002, direction: Direction::IN, ep: 3 };
    let bytes = h.to_array();
    assert_eq!(bytes, [0, 0, 0, 3, 1, 2, 3, 4, 0, 1, 0, 2, 0, 0, 0, 1, 0, 0, 0, 3]);
    assert_eq!(UsbIpHeader::from_slice(&bytes), Ok(h));
}

#[test]
fn header_unknown_command() {
    let mut bytes = [0u8; 20];
    bytes[3] = 9;
    assert_eq!(UsbIpHeader::from_slice(&bytes), Err(UsbIpError::InvalidCommand(9)));
}

#[test]
fn direction_uses_lowest_bit() {
    assert_eq!(Direction::from_bits_truncate(0), Direction::OUT);
    assert_eq!(Direction::from_bits_truncate(1), Direction::IN);
    assert_eq!(Direction::from_bits_truncate(2), Direction::OUT);
    assert_eq!(Direction::IN.bits(), 1);
}

#[test]
fn transfer_flags_drop_unknown_bits() {
    let f = TransferFlags::from_bits_truncate(0xffff_ffff);
    assert_eq!(f.bits(), 0x3c7);
    assert!(f.contains(0x40));
    assert!(!TransferFlags::from_bits_truncate(0x1).contains(0x40));
}

#[test]
fn cmd_submit_round_trip() {
    let c = UsbIpCmdSubmit {
        transfer_flags: TransferFlags::from_bits_truncate(0x41),
        transfer_buffer_length: -2,
        start_frame: 5,
        number_of_packets: -1,
        interval: 0x01020304,
        setup: [0x80, 6, 0, 1, 0, 0, 0x40, 0],
    };
    let bytes = c.to_array();
    assert_eq!(&bytes[0..8], &[0, 0, 0, 0x41, 0xff, 0xff, 0xff, 0xfe]);
    assert_eq!(&bytes[16..20], &[1, 2, 3, 4]);
    let d = UsbIpCmdSubmit::from_slice(&bytes);
    assert_eq!(d.transfer_flags, c.transfer_flags);
    assert_eq!(d.transfer_buffer_length, -2);
    assert_eq!(d.start_frame, 5);
    assert_eq!(d.number_of_packets, -1);
    assert_eq!(d.interval, 0x01020304);
    assert_eq!(d.setup, c.setup);
    assert!(d.has_setup());
}

#[test]
fn cmd_unlink_round_trip() {
    let u = UsbIpCmdUnlink { seqnum: 0xa0b0c0d0 };
    let bytes = u.to_array();
    assert_eq!(&bytes[0..4], &[0xa0, 0xb0, 0xc0, 0xd0]);
    assert!(bytes[4..].iter().all(|b| *b == 0));
    assert_eq!(UsbIpCmdUnlink::from_slice(&bytes), u);
}

#[test]
fn ret_submit_round_trip() {
    let r = UsbIpRetSubmit { status: -32, actual_length: 19, start_frame: 1, number_of_packets: 2, error_count: 3 };
    let bytes = r.to_array();
    assert_eq!(&bytes[0..8], &[0xff, 0xff, 0xff, 0xe0, 0, 0, 0, 19]);
    assert!(bytes[20..].iter().all(|b| *b == 0));
    assert_eq!(UsbIpRetSubmit::from_slice(&bytes), r);
}

#[test]
fn ret_unlink_round_trip() {
    let r = UsbIpRetUnlink { status: 0xfffffffe };
    let bytes = r.to_array();
    assert_eq!(bytes.len(), 28);
    assert_eq!(UsbIpRetUnlink::from_slice(&bytes), r);
}

#[test]
fn op_header_round_trip() {
    let h = OpHeader { version: 0x0111, command: 0x8005, status: 7 };
    let bytes = h.to_array();
    assert_eq!(bytes, [0x01, 0x11, 0x80, 0x05, 0, 0, 0, 7]);
    assert_eq!(OpHeader::from_slice(&bytes), h);
    assert_eq!(h.body_len(), 0);
    assert_eq!(OpHeader { version: 0x0111, command: 0x8003, status: 0 }.body_len(), 32);
}

#[test]
fn descriptors_round_trip() {
    let d = descriptor();
    let bytes = d.to_array();
    assert_eq!(&bytes[12..18], &[0x11, 0x11, 0x10, 0x10, 0x02, 0x00]);
    assert_eq!(&bytes[18..24], &[9, 8, 7, 6, 1, 1]);
    assert_eq!(OpDeviceDescriptor::from_slice(&bytes), d);
    let i = OpInterfaceDescriptor { interface_class: 3, interface_subclass: 1, interface_protocol: 2, padding: 0 };
    assert_eq!(i.to_array(), [3, 1, 2, 0]);
    assert_eq!(OpInterfaceDescriptor::from_slice(&i.to_array()), i);
}

#[test]
fn op_request_errors() {
    assert_eq!(OpRequest::from_slice(&[1, 0x11, 0x80]), Err(UsbIpError::PkgTooShort(3)));
    assert_eq!(OpRequest::from_slice(&[1, 0x11, 0x80, 0x05, 0, 0, 0, 1]), Err(UsbIpError::StatusNotOk(1)));
    assert_eq!(OpRequest::from_slice(&[1, 0x11, 0x80, 0x07, 0, 0, 0, 0]), Err(UsbIpError::InvalidCommand(0x8007)));
    assert_eq!(OpRequest::from_slice(&[1, 0x11, 0x80, 0x03, 0, 0, 0, 0, b'1']), Err(UsbIpError::PkgTooShort(9)));
    let mut bad = vec![1, 0x11, 0x80, 0x03, 0, 0, 0, 0];
    bad.extend_from_slice(&[0xff; 32]);
    assert_eq!(OpRequest::from_slice(&bad), Err(UsbIpError::BadUtf8));
    let mut good = vec![1, 0x11, 0x80, 0x03, 0, 0, 0, 0];
    good.extend_from_slice(b"1-1");
    good.extend_from_slice(&[0; 29]);
    assert_eq!(
        OpRequest::from_slice(&good),
        Ok(OpRequest::ConnectDevice(OpHeader { version: 0x0111, command: 0x8003, status: 0 }))
    );
}

#[test]
fn op_response_too_long_fields() {
    let long_path = OpResponse {
        version: 0x0111,
        path: "p".repeat(257),
        bus_id: "1-1".to_string(),
        descriptor: descriptor(),
        cmd: OpResponseCommand::ConnectDevice,
    };
    assert_eq!(long_path.to_vec(), None);
    let long_bus_id = OpResponse {
        version: 0x0111,
        path: "p".to_string(),
        bus_id: "b".repeat(33),
        descriptor: descriptor(),
        cmd: OpResponseCommand::ConnectDevice,
    };
    assert_eq!(long_bus_id.to_vec(), None);
    let exact = OpResponse {
        version: 0x0111,
        path: "p".repeat(256),
        bus_id: "b".repeat(32),
        descriptor: descriptor(),
        cmd: OpResponseCommand::ConnectDevice,
    };
    assert_eq!(exact.to_vec().map(|v| v.len()), Some(8 + 256 + 32 + 24));
}

#[test]
fn urb_request_decoding() {
    assert_eq!(UsbIpRequest::from_slice(&[0; 47]).err(), Some(UsbIpError::PkgTooShort(47)));
    let reply = UsbIpHeader { command: UsbCmd::Response, seqnum: 1, devid: 0, direction: Direction::OUT, ep: 0 };
    let mut frame = reply.to_array().to_vec();
    frame.extend_from_slice(&[0; 28]);
    assert_eq!(UsbIpRequest::from_slice(&frame).err(), Some(UsbIpError::InvalidCommand(3)));

    let h = UsbIpHeader { command: UsbCmd::Request, seqnum: 4, devid: 0, direction: Direction::OUT, ep: 2 };
    let c = UsbIpCmdSubmit {
        transfer_flags: TransferFlags::from_bits_truncate(0),
        transfer_buffer_length: 3,
        start_frame: 0,
        number_of_packets: 0,
        interval: 0,
        setup: [0; 8],
    };
    let mut frame = h.to_array().to_vec();
    frame.extend_from_slice(&c.to_array());
    assert_eq!(UsbIpRequest::payload_len(&frame), 3);
    assert_eq!(UsbIpRequest::from_slice(&frame).err(), Some(UsbIpError::PkgTooShort(48)));
    frame.extend_from_slice(&[7, 8, 9]);
    let r = UsbIpRequest::from_slice(&frame).unwrap();
    assert_eq!(r.header, h);
    assert_eq!(r.data, vec![7, 8, 9]);
    assert!(matches!(r.cmd, UsbIpRequestCmd::Cmd(s) if s.transfer_buffer_length == 3));

    let u = UsbIpHeader { command: UsbCmd::UnlinkRequest, seqnum: 5, devid: 0, direction: Direction::OUT, ep: 2 };
    let mut frame = u.to_array().to_vec();
    frame.extend_from_slice(&UsbIpCmdUnlink { seqnum: 4 }.to_array());
    assert_eq!(UsbIpRequest::payload_len(&frame), 0);
    let r = UsbIpRequest::from_slice(&frame).unwrap();
    assert!(matches!(r.cmd, UsbIpRequestCmd::Unlink(UsbIpCmdUnlink { seqnum: 4 })));
    assert!(r.data.is_empty());
}

#[test]
fn urb_response_encoding() {
    let r = UsbIpResponse {
        header: UsbIpHeader { command: UsbCmd::UnlinkResponse, seqnum: 12, devid: 0x10002, direction: Direction::OUT, ep: 3 },
        cmd: UsbIpResponseCmd::Unlink(UsbIpRetUnlink { status: 0 }),
        data: vec![],
    };
    let bytes = r.to_vec().unwrap();
    assert_eq!(bytes.len(), 48);
    assert_eq!(&bytes[0..8], &[0, 0, 0, 4, 0, 0, 0, 12]);
    assert!(bytes[20..].iter().all(|b| *b == 0));
}

#[test]
fn urb_request_round_trip() {
    let q = UsbIpRequest {
        header: UsbIpHeader { command: UsbCmd::Request, seqnum: 77, devid: 0x10002, direction: Direction::OUT, ep: 1 },
        cmd: UsbIpRequestCmd::Cmd(UsbIpCmdSubmit {
            transfer_flags: TransferFlags::from_bits_truncate(0x40),
            transfer_buffer_length: 2,
            start_frame: 0,
            number_of_packets: 0,
            interval: 0,
            setup: [0; 8],
        }),
        data: vec![0xaa, 0xbb],
    };
    let bytes = q.to_vec();
    assert_eq!(bytes.len(), 50);
    let d = UsbIpRequest::from_slice(&bytes).unwrap();
    assert_eq!(d.header, q.header);
    assert_eq!(d.data, q.data);
    assert!(matches!(d.cmd, UsbIpRequestCmd::Cmd(c) if c.transfer_flags.bits == 0x40 && c.transfer_buffer_length == 2));

    let u = UsbIpRequest {
        header: UsbIpHeader { command: UsbCmd::UnlinkRequest, seqnum: 78, devid: 0, direction: Direction::OUT, ep: 1 },
        cmd: UsbIpRequestCmd::Unlink(UsbIpCmdUnlink { seqnum: 77 }),
        data: vec![],
    };
    let d = UsbIpRequest::from_slice(&u.to_vec()).unwrap();
    assert_eq!(d.header, u.header);
    assert!(matches!(d.cmd, UsbIpRequestCmd::Unlink(UsbIpCmdUnlink { seqnum: 77 })));
}
