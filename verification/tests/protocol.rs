use appd::bytes::{u16_from_be, u16_to_be, u32_from_be, u32_to_be};
use appd::error::{AppError, DeviceError};
use appd::protocol::{read_u16, read_u32, read_u8, Cmd, Packet, HEADER_LEN};
use appd::service::{bin_path, unit_file};
use appd::text::{push_decimal, push_hex2, push_hex4, push_hex_bytes};

#[test]
fn big_endian_numbers() {
    assert_eq!(u16_to_be(0x0102), [1, 2]);
    assert_eq!(u16_from_be(1, 2), 0x0102);
    assert_eq!(u32_to_be(0x01020304), [1, 2, 3, 4]);
    assert_eq!(u32_from_be(0xFF, 0, 0, 1), 0xFF000001);
}

#[test]
fn numbers_as_text() {
    let mut s = String::new();
    push_decimal(&mut s, 0);
    push_decimal(&mut s, 1907);
    push_decimal(&mut s, u64::MAX);
    assert_eq!(s, "0190718446744073709551615");
    let mut h = String::new();
    push_hex2(&mut h, 0x0F);
    push_hex4(&mut h, 0xA0B1);
    push_hex_bytes(&mut h, &[1, 0xEE], "-");
    assert_eq!(h, "0FA0B101-EE-");
}

#[test]
fn packet_layout() {
    let raw = Packet::build_raw(0x0102, 0x0304, 0x0506, 0x0708, &[9, 10]);
    assert_eq!(raw, vec![1, 2, 3, 4, 5, 6, 7, 8, 0, 2, 9, 10]);
}

#[test]
fn packet_reads_back() {
    let mut raw = Packet::build_raw(1, 2, 3, 0x0042, &[7, 8, 9]);
    raw.push(0xEE);
    let p = Packet::parse(&raw).unwrap();
    assert_eq!((p.client_id, p.session_id, p.seq, p.cmd_raw), (1, 2, 3, 0x0042));
    assert_eq!(p.payload, vec![7, 8, 9]);
    let again = Packet::build_raw(p.client_id, p.session_id, p.seq, p.cmd_raw, &p.payload);
    assert_eq!(again, raw[..13].to_vec());
}

#[test]
fn short_packets_are_refused() {
    let raw = Packet::build_raw(1, 2, 3, 4, &[5]);
    assert!(matches!(Packet::parse(&raw[..HEADER_LEN]), Err(AppError::PacketTooShort)));
    assert!(matches!(Packet::parse(&raw[..9]), Err(AppError::PacketTooShort)));
    assert!(matches!(Packet::parse(&[]), Err(AppError::PacketTooShort)));
    assert!(Packet::parse(&raw).is_ok());
}

#[test]
fn answers_mirror_requests() {
    let req = Packet { client_id: 7, session_id: 8, seq: 9, cmd_raw: 0x0030, payload: vec![] };
    assert!(!req.is_response());
    let r = Packet::parse(&Packet::response(&req, b"ok")).unwrap();
    assert!(r.is_response());
    assert_eq!((r.client_id, r.session_id, r.seq, r.cmd_raw), (7, 8, 9, 0x8030));
    assert_eq!(r.base_cmd(), 0x0030);
    assert_eq!(r.payload, b"ok".to_vec());
    let e = Packet::parse(&Packet::error(&req, "нет")).unwrap();
    assert!(e.is_response());
    assert_eq!((e.client_id, e.session_id, e.seq, e.cmd_raw), (7, 8, 9, 0xFFFF));
    assert_eq!(e.payload, "нет".as_bytes().to_vec());
}

#[test]
fn pushed_packet_is_no_answer() {
    let p = Packet::parse(&Packet::push(1, 2, 3, Cmd::CanFrame, &[4])).unwrap();
    assert!(!p.is_response());
    assert_eq!(p.cmd().unwrap(), Cmd::CanFrame);
    assert_eq!(p.payload, vec![4]);
}

#[test]
fn commands_and_numbers() {
    let mut known = 0;
    for v in 0..=0xFFFFu16 {
        match Cmd::try_from(v) {
            Ok(c) => {
                assert_eq!(c.code(), v);
                known += 1;
            }
            Err(AppError::UnknownCmd(n)) => assert_eq!(n, v),
            Err(_) => panic!("unexpected error"),
        }
    }
    assert_eq!(known, 29);
    assert_eq!(Cmd::try_from(0x0012).unwrap(), Cmd::DeviceGetVersion);
}

#[test]
fn command_of_an_answer() {
    let p = Packet { client_id: 0, session_id: 0, seq: 0, cmd_raw: 0x8003, payload: vec![] };
    assert_eq!(p.cmd().unwrap(), Cmd::Ping);
    let q = Packet { cmd_raw: 0xFFFF, ..p };
    assert!(matches!(q.cmd(), Err(AppError::UnknownCmd(0x7FFF))));
}

#[test]
fn long_payload_wraps_the_length() {
    let raw = Packet::build_raw(0, 0, 0, 0, &vec![0u8; 65537]);
    assert_eq!(&raw[8..10], &[0, 1]);
    assert_eq!(raw.len(), 65547);
}

#[test]
fn numbers_of_a_payload() {
    let p = [1, 2, 3, 4, 5];
    assert_eq!(read_u8(&p, 4).unwrap(), 5);
    assert_eq!(read_u16(&p, 3).unwrap(), 0x0405);
    assert_eq!(read_u32(&p, 1).unwrap(), 0x02030405);
    assert_eq!(
        read_u8(&p, 5).unwrap_err().message(),
        "Payload decode error: need u8 at offset 5"
    );
    assert_eq!(
        read_u16(&p, 4).unwrap_err().message(),
        "Payload decode error: need u16 at offset 4"
    );
    assert_eq!(
        read_u32(&p, 2).unwrap_err().message(),
        "Payload decode error: need u32 at offset 2"
    );
}

#[test]
fn error_texts() {
    assert_eq!(AppError::Io("x".to_string()).message(), "IO error: x");
    assert_eq!(AppError::PacketTooShort.message(), "Packet too short");
    assert_eq!(AppError::UnknownCmd(0xAB).message(), "Unknown command: 0x00AB");
    assert_eq!(AppError::UnknownClient(3).message(), "Unknown client id: 3");
    assert_eq!(AppError::UnknownSession(65535).message(), "Unknown session id: 65535");
    assert_eq!(AppError::SessionExists(4).message(), "Session already exists: 4");
    assert_eq!(AppError::DeviceNotFound(10).message(), "No USB device found at index 10");
    assert_eq!(AppError::Usb("y".to_string()).message(), "USB error: y");
    assert_eq!(AppError::PayloadDecode("z".to_string()).message(), "Payload decode error: z");
    assert_eq!(AppError::ChannelClosed.message(), "Internal channel error");
    assert_eq!(DeviceError::Usb("u".to_string()).message(), "USB error: u");
    assert_eq!(DeviceError::NotFound.message(), "Device not found");
    assert_eq!(DeviceError::Protocol("p".to_string()).message(), "Protocol error: p");
    assert_eq!(DeviceError::Timeout.message(), "Timeout");
    assert_eq!(DeviceError::NoData.message(), "No data");
    assert_eq!(DeviceError::SyncFailed.message(), "Sync failed");
}

#[test]
fn service_registration() {
    assert_eq!(
        unit_file("/usr/bin/appd"),
        "[Unit]\n\
         Description=DaemonAppd USB/CAN service\n\
         After=network.target\n\
         \n\
         [Service]\n\
         ExecStart=/usr/bin/appd run\n\
         Restart=on-failure\n\
         User=root\n\
         \n\
         [Install]\n\
         WantedBy=multi-user.target\n"
    );
    assert_eq!(bin_path("C:\\appd.exe"), "\"C:\\appd.exe\" run");
}
