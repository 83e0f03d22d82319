use appd::capability::CapabilitySet;
use appd::client::ClientAddr;
use appd::device_info::{DeviceId, DeviceInfo};
use appd::error::{AppError, DeviceError};
use appd::protocol::{Cmd, Packet};
use appd::stream::StreamPort;
use appd::transport::{
    describe_device, list_devices, on_driver, on_result, parse_can_payload, parse_gen_settings,
    stream_lines, Action, DeviceOp, DeviceReply, Driver, Next, Reply, Server, Task,
};
use appd::types::{BaudRate, CanFrame, CanInterface, GenCode, UartMode};

fn addr(port: u16) -> ClientAddr {
    ClientAddr { v6: false, ip: 0x7F000001, port, flowinfo: 0, scope_id: 0 }
}

fn request(client_id: u16, session_id: u16, cmd: Cmd, payload: &[u8]) -> Packet {
    Packet { client_id, session_id, seq: 77, cmd_raw: cmd.code(), payload: payload.to_vec() }
}

fn bytes_of(p: &Packet) -> Vec<u8> {
    Packet::build_raw(p.client_id, p.session_id, p.seq, p.cmd_raw, &p.payload)
}

fn take(server: &mut Server, from: u16, p: &Packet) -> Action {
    server.handle_packet(addr(from), &bytes_of(p)).unwrap().unwrap().1
}

fn reply(a: Action) -> Reply {
    match a {
        Action::Reply(r) => r,
        other => panic!("not a reply: {other:?}"),
    }
}

fn error_text(bytes: &[u8]) -> String {
    let p = Packet::parse(bytes).unwrap();
    assert_eq!(p.cmd_raw, 0xFFFF);
    String::from_utf8(p.payload).unwrap()
}

fn payload(bytes: &[u8], cmd: Cmd) -> Vec<u8> {
    let p = Packet::parse(bytes).unwrap();
    assert_eq!(p.cmd_raw, 0x8000 | cmd.code());
    assert_eq!(p.seq, 77);
    p.payload
}

fn device() -> DeviceInfo {
    DeviceInfo {
        id: DeviceId { vid: 0x1992, pid: 0x1972, bus: 4, port: "1.2".to_string() },
        manufacturer: "Appi".to_string(),
        product: "АППИ".to_string(),
    }
}

/// A daemon with one client at port 10 that has one session on the device with index 3.
fn with_session() -> Server {
    let mut s = Server::new();
    take(&mut s, 10, &request(0, 0, Cmd::Register, &[]));
    s.create_session(&request(1, 0, Cmd::SessionCreate, &[0, 3]), 3, Some(&device()));
    s
}

fn driver(caps: CapabilitySet) -> Result<Driver, DeviceError> {
    Ok(Driver { declared: caps, offered: caps })
}

#[test]
fn can_payloads() {
    let (iface, frame) = parse_can_payload(&[2, 0x01, 0x23, 9, 8]).unwrap();
    assert_eq!(iface, CanInterface::Can2);
    assert_eq!(frame, CanFrame::new(0x123, &[9, 8]));
    assert_eq!(
        parse_can_payload(&[1, 0]).unwrap_err().message(),
        "Payload decode error: CAN payload too short"
    );
    assert_eq!(
        parse_can_payload(&[6, 0, 0]).unwrap_err().message(),
        "Payload decode error: bad CAN interface 6"
    );
}

#[test]
fn generator_payloads() {
    let p = [3, 1, 1, 2, 4, 0, 0, 1, 0, 0xAA, 0xBB, 5, 1, 2, 3, 4, 5, 6, 99];
    let s = parse_gen_settings(&p).unwrap();
    assert_eq!(s.code, GenCode::SautNsp);
    assert!(s.gain_x10);
    assert_eq!((s.dac, s.alsn_code, s.frequency), (0x0102, 4, 256));
    assert_eq!((s.alsen_sg_kk, s.saut_freq), (0xAABB, 5));
    assert_eq!(s.saut_blocks, [1, 2, 3, 4, 5, 6]);
    assert_eq!(
        parse_gen_settings(&p[..17]).unwrap_err().message(),
        "Payload decode error: gen payload too short"
    );
    let mut bad = p;
    bad[0] = 9;
    assert_eq!(
        parse_gen_settings(&bad).unwrap_err().message(),
        "Payload decode error: bad gen code 9"
    );
}

#[test]
fn register_hands_out_identifiers() {
    let mut s = Server::new();
    let p = request(0, 0, Cmd::Register, &[]);
    assert_eq!(payload(&reply(take(&mut s, 10, &p)).bytes, Cmd::Register), vec![0, 1]);
    assert_eq!(payload(&reply(take(&mut s, 11, &p)).bytes, Cmd::Register), vec![0, 2]);
    assert_eq!(payload(&reply(take(&mut s, 10, &p)).bytes, Cmd::Register), vec![0, 1]);
}

#[test]
fn strangers_are_refused() {
    let mut s = with_session();
    for cmd in [Cmd::Ping, Cmd::Unregister, Cmd::SessionClose, Cmd::GetVersion] {
        let r = reply(take(&mut s, 99, &request(1, 1, cmd, &[0, 1])));
        assert_eq!(error_text(&r.bytes), "not registered — send Register first");
    }
    assert!(s.sessions.get(1).is_ok());
}

#[test]
fn packets_without_an_answer() {
    let mut s = with_session();
    assert!(matches!(s.handle_packet(addr(10), &[1, 2, 3]), Err(AppError::PacketTooShort)));
    let mut p = request(1, 1, Cmd::Ping, &[]);
    p.cmd_raw |= 0x8000;
    assert!(s.handle_packet(addr(10), &bytes_of(&p)).unwrap().is_none());
}

#[test]
fn errors_are_answered() {
    let mut s = with_session();
    let mut p = request(1, 1, Cmd::Ping, &[]);
    p.cmd_raw = 0x0999;
    assert_eq!(error_text(&reply(take(&mut s, 10, &p)).bytes), "Unknown command: 0x0999");
    let short = request(1, 1, Cmd::SessionCreate, &[1]);
    assert_eq!(
        error_text(&reply(take(&mut s, 10, &short)).bytes),
        "Payload decode error: need u16 at offset 0"
    );
    let lost = request(1, 9, Cmd::GetVersion, &[]);
    assert_eq!(error_text(&reply(take(&mut s, 10, &lost)).bytes), "Unknown session id: 9");
    for cmd in [Cmd::CanFrame, Cmd::Event] {
        let r = reply(take(&mut s, 10, &request(1, 1, cmd, &[])));
        assert_eq!(error_text(&r.bytes), "server-only command");
    }
    for cmd in [Cmd::UartStreamOpen, Cmd::UartStreamClose] {
        let r = reply(take(&mut s, 10, &request(1, 1, cmd, &[])));
        assert_eq!(error_text(&r.bytes), "UART stream not yet implemented");
    }
}

#[test]
fn ping_is_answered() {
    let mut s = with_session();
    let p = request(1, 5, Cmd::Ping, &[]);
    assert_eq!(payload(&reply(take(&mut s, 10, &p)).bytes, Cmd::Ping), b"pong".to_vec());
}

#[test]
fn device_list_layout() {
    let p = request(1, 0, Cmd::DeviceList, &[]);
    let mut s = with_session();
    assert!(matches!(take(&mut s, 10, &p), Action::ListDevices));
    let mut expected = vec![0, 1, 0, 0, 0x19, 0x92, 0x19, 0x72, 4, 3];
    expected.extend(b"1.2");
    expected.push(4);
    expected.extend(b"Appi");
    expected.push(8);
    expected.extend("АППИ".as_bytes());
    assert_eq!(payload(&list_devices(&p, &[device()]), Cmd::DeviceList), expected);
    assert_eq!(payload(&list_devices(&p, &[]), Cmd::DeviceList), vec![0, 0]);
    let two = payload(&list_devices(&p, &[device(), device()]), Cmd::DeviceList);
    assert_eq!(&two[..2], &[0, 2]);
    assert_eq!(&two[expected.len()..expected.len() + 2], &[0, 1]);
}

#[test]
fn device_description() {
    let mut s = with_session();
    let p = request(1, 0, Cmd::DeviceInfo, &[1, 2]);
    assert!(matches!(take(&mut s, 10, &p), Action::DescribeDevice(0x0102)));
    let mut expected = vec![0x19, 0x92, 0x19, 0x72, 4, 3];
    expected.extend(b"1.2");
    assert_eq!(payload(&describe_device(&p, 258, Some(&device())), Cmd::DeviceInfo), expected);
    assert_eq!(error_text(&describe_device(&p, 258, None)), "no device at index 258");
}

#[test]
fn version_without_a_session() {
    let mut s = with_session();
    let p = request(1, 0, Cmd::DeviceGetVersion, &[0, 5]);
    assert!(matches!(take(&mut s, 10, &p), Action::UseDriver(5, Task::Version)));
}

#[test]
fn session_is_made() {
    let mut s = Server::new();
    take(&mut s, 10, &request(0, 0, Cmd::Register, &[]));
    let p = request(1, 0, Cmd::SessionCreate, &[0, 7]);
    assert!(matches!(take(&mut s, 10, &p), Action::CreateSession(7)));
    assert_eq!(error_text(&s.create_session(&p, 7, None)), "no device at index 7");
    let made = s.create_session(&p, 7, Some(&device()));
    assert_eq!(payload(&made, Cmd::SessionCreate), vec![0, 1]);
    let q = request(1, 1, Cmd::GetVersion, &[]);
    assert!(matches!(take(&mut s, 10, &q), Action::UseDriver(7, Task::Version)));
}

#[test]
fn session_list_layout() {
    let mut s = with_session();
    let p = request(1, 0, Cmd::SessionList, &[]);
    let mut expected = vec![0, 1, 0, 1, 0, 3, 15];
    expected.extend(b"1992:1972@4.1.2");
    assert_eq!(payload(&reply(take(&mut s, 10, &p)).bytes, Cmd::SessionList), expected);
    let other = request(2, 0, Cmd::SessionList, &[]);
    let r = reply(take(&mut s, 10, &other));
    assert_eq!(payload(&r.bytes, Cmd::SessionList), vec![0, 0]);
}

#[test]
fn closed_session_is_refused() {
    let mut s = with_session();
    s.periodic_started(&request(1, 1, Cmd::CanPeriodicStart, &[]), 50);
    let close = request(1, 0, Cmd::SessionClose, &[0, 1]);
    let r = reply(take(&mut s, 10, &close));
    assert!(payload(&r.bytes, Cmd::SessionClose).is_empty());
    assert_eq!(r.stopped, vec![50]);
    assert!(r.released.is_empty());
    let r = reply(take(&mut s, 10, &close));
    assert_eq!(error_text(&r.bytes), "Unknown session id: 1");
    let r = reply(take(&mut s, 10, &request(1, 1, Cmd::UartRead, &[])));
    assert_eq!(error_text(&r.bytes), "Unknown session id: 1");
}

#[test]
fn unregister_ends_everything() {
    let mut s = with_session();
    s.periodic_started(&request(1, 1, Cmd::CanPeriodicStart, &[]), 50);
    let port = StreamPort { local_port: 4000, client_data_addr: addr(20), socket: 60 };
    s.stream_opened(&request(1, 1, Cmd::StreamOpen, &[]), Ok(port));
    let r = reply(take(&mut s, 10, &request(1, 0, Cmd::Unregister, &[])));
    assert!(payload(&r.bytes, Cmd::Unregister).is_empty());
    assert_eq!((r.stopped, r.released), (vec![50], vec![60]));
    assert!(s.sessions.get(1).is_err());
    assert!(s.streams.push_frame(1, 1).is_none());
    let r = reply(take(&mut s, 10, &request(1, 0, Cmd::Ping, &[])));
    assert_eq!(error_text(&r.bytes), "not registered — send Register first");
}

#[test]
fn periodic_writes() {
    let mut s = with_session();
    let p = request(1, 1, Cmd::CanPeriodicStart, &[0, 100, 1, 0x01, 0x23, 7]);
    let task = match take(&mut s, 10, &p) {
        Action::UseDriver(3, t) => t,
        other => panic!("unexpected {other:?}"),
    };
    match on_driver(&p, task, driver(CapabilitySet::all())) {
        Next::StartPeriodic { interval_ms, iface, frame } => {
            assert_eq!((interval_ms, iface), (100, CanInterface::Can1));
            assert_eq!(frame, CanFrame::new(0x123, &[7]));
        }
        other => panic!("unexpected {other:?}"),
    }
    let r = s.periodic_started(&p, 1);
    assert!(payload(&r.bytes, Cmd::CanPeriodicStart).is_empty());
    assert!(r.stopped.is_empty());
    assert_eq!(s.periodic_started(&p, 2).stopped, vec![1]);
    let stop = request(1, 1, Cmd::CanPeriodicStop, &[]);
    assert_eq!(reply(take(&mut s, 10, &stop)).stopped, vec![2]);
    assert!(reply(take(&mut s, 10, &stop)).stopped.is_empty());
    let bad = request(1, 1, Cmd::CanPeriodicStart, &[0, 100, 1]);
    assert_eq!(
        error_text(&reply(take(&mut s, 10, &bad)).bytes),
        "Payload decode error: CAN payload too short"
    );
}

#[test]
fn streams_are_opened_and_closed() {
    let mut s = with_session();
    let p = request(1, 1, Cmd::StreamOpen, &[0x12, 0x34, 0x07, 0x02]);
    let task = match take(&mut s, 10, &p) {
        Action::UseDriver(3, t) => t,
        other => panic!("unexpected {other:?}"),
    };
    let data_addr = match on_driver(&p, task, driver(CapabilitySet::can_only())) {
        Next::OpenStream { iface, data_addr } => {
            assert_eq!(iface, CanInterface::Can2);
            data_addr
        }
        other => panic!("unexpected {other:?}"),
    };
    assert_eq!(data_addr.key(), addr(0x1234).key());
    let port = StreamPort { local_port: 0x2345, client_data_addr: data_addr, socket: 8 };
    let r = s.stream_opened(&p, Ok(port));
    assert_eq!(payload(&r.bytes, Cmd::StreamOpen), vec![0x23, 0x45]);
    assert_eq!(s.streams.push_frame(1, 1).unwrap().socket, 8);
    let again = StreamPort { socket: 9, ..port };
    assert_eq!(s.stream_opened(&p, Ok(again)).released, vec![8]);
    let failed = s.stream_opened(&p, Err(AppError::Io("busy".to_string())));
    assert_eq!(error_text(&failed.bytes), "IO error: busy");
    let r = reply(take(&mut s, 10, &request(1, 1, Cmd::StreamClose, &[])));
    assert_eq!((r.stopped, r.released), (vec![], vec![9]));
    assert!(s.streams.push_frame(1, 1).is_none());
    let bad = request(1, 9, Cmd::StreamOpen, &[0, 1, 0, 6]);
    assert_eq!(error_text(&reply(take(&mut s, 10, &bad)).bytes), "bad CAN interface 6");
}

#[test]
fn checks_on_the_uart() {
    let p = request(1, 1, Cmd::CheckUart, &[]);
    for (caps, byte) in [(CapabilitySet::all(), 1), (CapabilitySet::none(), 0)] {
        match on_driver(&p, Task::CheckUart, driver(caps)) {
            Next::Reply(bytes) => assert_eq!(payload(&bytes, Cmd::CheckUart), vec![byte]),
            other => panic!("unexpected {other:?}"),
        }
    }
}

#[test]
fn tasks_need_access() {
    let cases = [
        (Task::CanWrite, "device has no CAN capability"),
        (Task::CanRead { iface: 1 }, "device has no CAN capability"),
        (Task::UartRead, "device has no UART capability"),
        (Task::UartWrite, "device has no UART capability"),
        (Task::GenSet, "device has no generator capability"),
        (
            Task::GenSetAmplitude { channel: 0, amplitude: 0 },
            "device has no generator capability",
        ),
    ];
    let p = request(1, 1, Cmd::CanWrite, &[]);
    for (task, text) in cases {
        match on_driver(&p, task, driver(CapabilitySet::none())) {
            Next::Reply(bytes) => assert_eq!(error_text(&bytes), text),
            other => panic!("unexpected {other:?}"),
        }
        match on_driver(&p, task, Err(DeviceError::Timeout)) {
            Next::Reply(bytes) => assert_eq!(error_text(&bytes), "Timeout"),
            other => panic!("unexpected {other:?}"),
        }
    }
}

#[test]
fn bad_numbers_come_before_the_driver() {
    let p = request(1, 1, Cmd::CanReadOnce, &[]);
    let cases = [
        (Task::CanRead { iface: 9 }, "bad CAN interface 9"),
        (Task::CanSetBaudrate { iface: 0, baud: BaudRate(1) }, "bad CAN interface 0"),
        (Task::UartConfigure { mode: 77 }, "bad UART mode 77"),
    ];
    for (task, text) in cases {
        match on_driver(&p, task, Err(DeviceError::NotFound)) {
            Next::Reply(bytes) => assert_eq!(error_text(&bytes), text),
            other => panic!("unexpected {other:?}"),
        }
    }
}

fn run(s: &mut Server, p: &Packet) -> DeviceOp {
    let task = match take(s, 10, p) {
        Action::UseDriver(3, t) => t,
        other => panic!("unexpected {other:?}"),
    };
    match on_driver(p, task, driver(CapabilitySet::all())) {
        Next::Run(op) => op,
        other => panic!("unexpected {other:?}"),
    }
}

#[test]
fn commands_become_operations() {
    let mut s = with_session();
    match run(&mut s, &request(1, 1, Cmd::CanWrite, &[1, 0, 5, 6])) {
        DeviceOp::CanWrite { iface, frame } => {
            assert_eq!((iface, frame), (CanInterface::Can1, CanFrame::new(5, &[6])));
        }
        other => panic!("unexpected {other:?}"),
    }
    match run(&mut s, &request(1, 1, Cmd::CanSetBaudrate, &[2, 0x01, 0xF4])) {
        DeviceOp::CanSetBaudrate { iface, baud } => {
            assert_eq!((iface, baud), (CanInterface::Can2, BaudRate::kbps_500()));
        }
        other => panic!("unexpected {other:?}"),
    }
    assert!(matches!(
        run(&mut s, &request(1, 1, Cmd::CanReadOnce, &[4])),
        DeviceOp::CanRead { iface: CanInterface::Can4 }
    ));
    assert!(matches!(
        run(&mut s, &request(1, 1, Cmd::UartConfigure, &[2])),
        DeviceOp::UartConfigure { mode: UartMode::Rs232 }
    ));
    match run(&mut s, &request(1, 1, Cmd::UartWrite, &[3, 1, 4])) {
        DeviceOp::UartWrite { data } => assert_eq!(data, vec![3, 1, 4]),
        other => panic!("unexpected {other:?}"),
    }
    assert!(matches!(run(&mut s, &request(1, 1, Cmd::UartRead, &[])), DeviceOp::UartRead));
    assert!(matches!(
        run(&mut s, &request(1, 1, Cmd::GenSetMode, &[1; 18])),
        DeviceOp::GenSet { .. }
    ));
    assert!(matches!(
        run(&mut s, &request(1, 1, Cmd::GenSetFrequency, &[2, 0, 0, 1, 0])),
        DeviceOp::GenSetFrequency { channel: 2, frequency: 256 }
    ));
    assert!(matches!(
        run(&mut s, &request(1, 1, Cmd::GenSetAmplitude, &[2, 1, 0])),
        DeviceOp::GenSetAmplitude { channel: 2, amplitude: 256 }
    ));
    assert!(matches!(run(&mut s, &request(1, 1, Cmd::GetVersion, &[])), DeviceOp::Version));
}

#[test]
fn results_are_handed_on() {
    let p = request(1, 1, Cmd::CanReadOnce, &[1]);
    assert!(payload(&on_result(&p, Ok(DeviceReply::Done)), Cmd::CanReadOnce).is_empty());
    let version = on_result(&p, Ok(DeviceReply::Version("2.7".to_string())));
    assert_eq!(payload(&version, Cmd::CanReadOnce), b"2.7".to_vec());
    let data = on_result(&p, Ok(DeviceReply::Data(vec![1, 2])));
    assert_eq!(payload(&data, Cmd::CanReadOnce), vec![1, 2]);
    let frames = vec![CanFrame::new(0x01CC, &[0xFF; 8]), CanFrame::new(1, &[])];
    let mut expected = vec![0, 2, 21];
    expected.extend(b"3988 FFFFFFFFFFFFFFFF");
    expected.push(21);
    expected.extend(b"0020 0000000000000000");
    let read = on_result(&p, Ok(DeviceReply::Frames(frames)));
    assert_eq!(payload(&read, Cmd::CanReadOnce), expected);
    assert_eq!(error_text(&on_result(&p, Err(DeviceError::NoData))), "No data");
}

#[test]
fn streamed_lines() {
    let lines = stream_lines(Ok(vec![CanFrame::new(1, &[1]), CanFrame::new(2, &[2])])).unwrap();
    assert_eq!(lines, vec!["0021 0100000000000000", "0041 0200000000000000"]);
    assert!(stream_lines(Ok(vec![])).unwrap().is_empty());
    assert!(stream_lines(Err(DeviceError::NoData)).is_none());
}

#[test]
fn lists_tell_their_entries_apart() {
    let p = request(1, 0, Cmd::DeviceList, &[]);
    let mut shifted = device();
    shifted.id.port = "1.2A".to_string();
    shifted.manufacturer = "ppi".to_string();
    assert_ne!(list_devices(&p, &[device()]), list_devices(&p, &[shifted]));
    let frames = |id| on_result(&p, Ok(DeviceReply::Frames(vec![CanFrame::new(id, &[1])])));
    assert_ne!(frames(1), frames(2));
    assert_eq!(frames(2), frames(2));
}

#[test]
fn sessions_tell_apart() {
    let list = |idx: usize| {
        let mut s = Server::new();
        take(&mut s, 10, &request(0, 0, Cmd::Register, &[]));
        s.create_session(&request(1, 0, Cmd::SessionCreate, &[]), idx, Some(&device()));
        reply(take(&mut s, 10, &request(1, 0, Cmd::SessionList, &[]))).bytes
    };
    assert_ne!(list(1), list(2));
    assert_eq!(list(1), list(1));
}
