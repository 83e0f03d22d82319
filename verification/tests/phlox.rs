use appd::capability::CapabilitySet;
use appd::devices::phlox::{
    discover_bulk_endpoints, hex_dump, version_text, EndpointDesc, EndpointDirection,
    HandshakeStep, Phlox, ReadStep,
};
use appd::devices::phlox_common::{
    crc8, decode_cp1251, encode_frame, find_frame, parse_device_info, start_frame,
    MASTER_TYPE_DEVICE_INFO, MODULE_CAN1, MODULE_MASTER,
};
use appd::error::DeviceError;

#[test]
fn crc8_check_value() {
    assert_eq!(crc8(b"123456789"), 0xF7);
}

#[test]
fn frame_roundtrip() {
    let raw = encode_frame(MODULE_CAN1, &[0xAA, 0xBB, 0xCC]);
    let (frame, consumed) = find_frame(&raw).unwrap();
    assert_eq!(consumed, raw.len());
    assert_eq!(frame.module_id, MODULE_CAN1);
    assert_eq!(frame.data, vec![0xAA, 0xBB, 0xCC]);
}

#[test]
fn frame_resync_skips_garbage() {
    let mut buf = vec![0x00, 0x11, 0x22]; // garbage before the frame
    buf.extend(encode_frame(MODULE_MASTER, &[0x01, 0x05]));
    let (frame, consumed) = find_frame(&buf).unwrap();
    assert_eq!(frame.module_id, MODULE_MASTER);
    assert_eq!(frame.data, vec![0x01, 0x05]);
    assert_eq!(consumed, buf.len());
}

#[test]
fn frame_incomplete_returns_none() {
    let raw = encode_frame(MODULE_CAN1, &[0xAA, 0xBB, 0xCC]);
    assert!(find_frame(&raw[..raw.len() - 1]).is_none());
}

#[test]
fn device_info_parses_module_list() {
    let mut data = vec![MASTER_TYPE_DEVICE_INFO];
    data.extend_from_slice(&100u16.to_be_bytes()); // TIME
    data.push(0x05); // RID
    data.push(2); // Version
    data.push(1); // Subversion
    data.push(1); // Compatible version

    // module CAN1, named "CAN1" (ASCII), without parameters
    data.push(MODULE_CAN1);
    data.push(0x01); // Type = CAN
    data.extend_from_slice(&4u16.to_be_bytes()); // name len
    data.push(0); // params count
    data.extend_from_slice(b"CAN1");

    let info = parse_device_info(&data).unwrap();
    assert_eq!(info.rid, 0x05);
    assert_eq!(info.version, 2);
    assert_eq!(info.modules.len(), 1);
    assert_eq!(info.modules[0].id, MODULE_CAN1);
    assert_eq!(info.modules[0].name, "CAN1");
}

#[test]
fn cp1251_decodes_cyrillic() {
    assert_eq!(decode_cp1251(&[0xC0, 0xC1, 0xC2]), "АБВ");
}

#[test]
fn cp1251_decodes_the_rest() {
    assert_eq!(decode_cp1251(b"Az~"), "Az~");
    assert_eq!(decode_cp1251(&[0xFF, 0xA8, 0xB8, 0x88]), "яЁё€");
    assert_eq!(decode_cp1251(&[0x98]), "\u{FFFD}");
    assert_eq!(decode_cp1251(&[]), "");
}

#[test]
fn frame_length_is_big_endian() {
    let raw = encode_frame(MODULE_CAN1, &[7u8; 0x0102]);
    assert_eq!(&raw[..3], &[MODULE_CAN1, 0x01, 0x02]);
    assert_eq!(raw[3], crc8(&raw[..3]));
    assert_eq!(raw.len(), 4 + 0x0102);
}

#[test]
fn damaged_header_is_not_a_frame() {
    for k in 0..4 {
        let mut raw = encode_frame(MODULE_CAN1, &[]);
        raw[k] ^= 0x40;
        assert!(find_frame(&raw).is_none());
    }
}

#[test]
fn frames_come_one_after_the_other() {
    let mut buf = encode_frame(1, &[1]);
    buf.extend(encode_frame(2, &[]));
    buf.extend(encode_frame(3, &[3, 3]));
    let mut seen = vec![];
    while let Some((f, n)) = find_frame(&buf) {
        seen.push((f.module_id, f.data));
        buf.drain(..n);
    }
    assert_eq!(seen, vec![(1, vec![1]), (2, vec![]), (3, vec![3, 3])]);
    assert!(buf.is_empty());
}

#[test]
fn start_frame_bytes() {
    assert_eq!(start_frame(9), encode_frame(MODULE_MASTER, &[0x01, 9]));
}

fn info_data(rid: u8, modules: &[u8]) -> Vec<u8> {
    let mut data = vec![MASTER_TYPE_DEVICE_INFO, 0x12, 0x34, rid, 3, 7, 2];
    data.extend_from_slice(modules);
    data
}

fn protocol_text(r: Result<appd::devices::phlox_common::DeviceInfoMsg, DeviceError>) -> String {
    match r {
        Err(DeviceError::Protocol(text)) => text,
        _ => panic!("expected a protocol error"),
    }
}

#[test]
fn device_info_fields() {
    let data = info_data(8, &[10, 4, 0, 2, 2, 0xC0, b'1', 5, 0, 0, 1, 0, 6, 0xFF, 0, 0, 2]);
    let info = parse_device_info(&data).unwrap();
    assert_eq!(info.time, 0x1234);
    assert_eq!(info.subversion, 7);
    assert_eq!(info.compat_version, 2);
    assert_eq!(info.modules.len(), 1);
    assert_eq!(info.modules[0].kind, 4);
    assert_eq!(info.modules[0].name, "А1");
    assert_eq!(info.modules[0].params, vec![(5, 256), (6, 0xFF000002)]);
    assert_eq!(version_text(&info), "3.7");
    assert!(parse_device_info(&info_data(8, &[])).unwrap().modules.is_empty());
}

#[test]
fn device_info_errors() {
    assert_eq!(
        protocol_text(parse_device_info(&[1, 2, 3])),
        "Device Info: кадр короче 7 байт"
    );
    assert_eq!(
        protocol_text(parse_device_info(&[0xA2, 0, 0, 0, 0, 0, 0])),
        "Master: ожидался Type=0x01 (Device Info), получено 0xA2"
    );
    assert_eq!(
        protocol_text(parse_device_info(&info_data(1, &[1, 1, 0, 0]))),
        "Device Info: обрезан заголовок записи устройства"
    );
    assert_eq!(
        protocol_text(parse_device_info(&info_data(1, &[1, 1, 0, 3, 0, b'a', b'b']))),
        "Device Info: обрезано имя устройства"
    );
    assert_eq!(
        protocol_text(parse_device_info(&info_data(1, &[1, 1, 0, 1, 1, b'a', 1, 0, 0, 0]))),
        "Device Info: обрезаны параметры устройства"
    );
}

#[test]
fn frame_in_pieces() {
    let raw = encode_frame(4, &[1, 2, 3]);
    let mut p = Phlox::new();
    assert!(matches!(p.read_frame(false), ReadStep::Read));
    p.receive(&raw[..5]);
    assert!(matches!(p.read_frame(false), ReadStep::Read));
    assert!(matches!(p.read_frame(true), ReadStep::TimedOut));
    p.receive(&raw[5..]);
    match p.read_frame(true) {
        ReadStep::Frame(f) => assert_eq!((f.module_id, f.data), (4, vec![1, 2, 3])),
        _ => panic!("expected a frame"),
    }
    assert!(p.rx_buf.is_empty());
}

#[test]
fn handshake_takes_its_own_answer() {
    let mut p = Phlox::new();
    assert_eq!(p.capabilities(), CapabilitySet::none());
    let (rid, frame) = p.start();
    assert_eq!(rid, 1);
    assert_eq!(frame, start_frame(1));
    assert!(matches!(p.handshake(rid, false), HandshakeStep::Read));
    p.receive(&encode_frame(MODULE_CAN1, &info_data(rid, &[])));
    p.receive(&encode_frame(MODULE_MASTER, &[0x01]));
    p.receive(&encode_frame(MODULE_MASTER, &info_data(rid + 1, &[])));
    assert!(matches!(p.handshake(rid, false), HandshakeStep::Read));
    let answer = encode_frame(MODULE_MASTER, &info_data(rid, &[]));
    p.receive(&answer[..4]);
    assert!(matches!(p.handshake(rid, true), HandshakeStep::TimedOut));
    p.receive(&answer[4..]);
    p.receive(&[0xEE]);
    match p.handshake(rid, true) {
        HandshakeStep::Done(info) => assert_eq!(info.rid, rid),
        _ => panic!("expected an answer"),
    }
    assert_eq!(p.rx_buf, vec![0xEE]);
}

#[test]
fn request_numbers_wrap() {
    let mut p = Phlox::new();
    for _ in 0..255 {
        p.start();
    }
    assert_eq!(p.start().0, 0);
}

#[test]
fn dump_is_cut() {
    assert_eq!(hex_dump(&[0x0A, 0xFF]), "0A FF ");
    assert_eq!(hex_dump(&[]), "");
    let long = hex_dump(&[0u8; 66]);
    assert!(long.starts_with("00 00 "));
    assert!(long.ends_with("00 ... (+2 байт)"));
    assert_eq!(hex_dump(&[0u8; 64]).len(), 192);
}

#[test]
fn bulk_endpoints() {
    let ep = |bulk, direction, address| EndpointDesc { bulk, direction, address };
    let eps = [
        ep(false, EndpointDirection::Out, 0x01),
        ep(true, EndpointDirection::In, 0x82),
        ep(true, EndpointDirection::In, 0x83),
        ep(true, EndpointDirection::Out, 0x04),
        ep(true, EndpointDirection::Out, 0x05),
    ];
    assert_eq!(discover_bulk_endpoints(Some(&eps)).unwrap(), (0x04, 0x82));
    match discover_bulk_endpoints(Some(&eps[..3])) {
        Err(DeviceError::Protocol(text)) => assert_eq!(
            text,
            "не найдена пара bulk-эндпоинтов IN/OUT на интерфейсе"
        ),
        _ => panic!("expected an error"),
    }
    match discover_bulk_endpoints(None) {
        Err(DeviceError::Protocol(text)) => assert_eq!(text, "нет дескриптора интерфейса"),
        _ => panic!("expected an error"),
    }
}
