use appd::capability::CapabilitySet;
use appd::devices::appi::Appi;
use appd::devices::appi2::{Appi2, Appi2Variant};
use appd::devices::appi_common::{
    can_read_step, iface_byte, is_valid_buffer, new_frame_counts, parse_frames,
    pkt_analyzer_mode, pkt_can_write, pkt_gen_amplitude, pkt_gen_frequency, pkt_gen_set,
    pkt_set_baud, pkt_uart_configure, pkt_uart_write, pkt_version, BufferAssembly, BufferLayout,
    CanConfig, CanReadStep, ConfigStep, VersionQuery, CMD_CONFIG, CMD_DATA, CMD_VERSION,
    SLOT_SIZE,
};
use appd::error::DeviceError;
use appd::types::{BaudRate, CanFrame, CanInterface, GenCode, GenSettings, UartMode};

#[test]
fn baud_packet() {
    let p = pkt_set_baud(CanInterface::Can1, BaudRate::kbps_100()).unwrap();
    assert_eq!(p, [0x02, 0x01, 0x64, 0x00]);
    let p2 = pkt_set_baud(CanInterface::Can2, BaudRate::kbps_500()).unwrap();
    assert_eq!(p2, [0x03, 0x01, 0xF4, 0x01]);
}

#[test]
fn can_write_packet_layout() {
    let f = CanFrame::new(0x01CC, &[0xFF, 0xFF, 0xFF, 0x21, 0xE4, 0x0A, 0x00, 0x00]);
    let p = pkt_can_write(CanInterface::Can1, &f, 7).unwrap();
    assert_eq!(p[0], 0x02);
    assert_eq!(p[1], 0x02);
    assert_eq!(p[2], 7);
    assert_eq!(p[3], 0x01);
    assert_eq!(p[10], 0x39);
    assert_eq!(p[11], 0x88);
    assert_eq!(&p[12..20], &[0xFF, 0xFF, 0xFF, 0x21, 0xE4, 0x0A, 0x00, 0x00]);
}

#[test]
fn parse_two_frames_appi() {
    let layout = BufferLayout::appi();
    let mut buf = vec![0u8; layout.total];
    buf[0] = CMD_DATA;
    let f0 = CanFrame::new(0x123, &[0xAA, 0xBB]);
    let s0 = f0.to_slot_be();
    let base = layout.can1_start;
    buf[base..base + SLOT_SIZE].copy_from_slice(&s0);
    let f2 = CanFrame::new(0x7FF, &[1, 2, 3, 4, 5, 6, 7, 8]);
    let s2 = f2.to_slot_be();
    let off2 = base + 2 * SLOT_SIZE;
    buf[off2..off2 + SLOT_SIZE].copy_from_slice(&s2);
    let frames = parse_frames(&buf, &layout, CanInterface::Can1, None).unwrap();
    assert_eq!(frames.len(), 2);
    assert_eq!(frames[0].id, 0x123);
    assert_eq!(frames[0].size, 2);
    assert_eq!(frames[1].id, 0x7FF);
    assert_eq!(frames[1].size, 8);
}

#[test]
fn parse_respects_limit() {
    let layout = BufferLayout::appi();
    let mut buf = vec![0u8; layout.total];
    buf[0] = CMD_DATA;
    let base = layout.can1_start;
    for i in 0..5 {
        let f = CanFrame::new(0x100 + i as u16, &[i as u8]);
        let s = f.to_slot_be();
        let off = base + i * SLOT_SIZE;
        buf[off..off + SLOT_SIZE].copy_from_slice(&s);
    }
    let frames = parse_frames(&buf, &layout, CanInterface::Can1, Some(3)).unwrap();
    assert_eq!(frames.len(), 3);
}

#[test]
fn gen_packet_indices() {
    let s = GenSettings {
        code: GenCode::Als,
        gain_x10: true,
        dac: 0x0102,
        alsn_code: 0x03,
        frequency: 0x0A0B0C0D,
        alsen_sg_kk: 0x1122,
        saut_freq: 0x02,
        saut_blocks: [1, 2, 3, 4, 5, 6],
    };
    let p = pkt_gen_set(&s);
    assert_eq!(p[0], 0x05);
    assert_eq!(p[1], 0x02);
    assert_eq!(p[5], 0x01);
    assert_eq!(p[6], 0x01);
    assert_eq!(p[7], 0x01);
    assert_eq!(p[8], 0x02);
    assert_eq!(p[9], 0x03);
    assert_eq!(&p[10..14], &[0x0A, 0x0B, 0x0C, 0x0D]);
    assert_eq!(p[14], 0x11);
    assert_eq!(p[15], 0x22);
    assert_eq!(p[16], 0x02);
    assert_eq!(&p[17..23], &[1, 2, 3, 4, 5, 6]);
}

#[test]
fn interface_bytes_differ() {
    let all = [
        CanInterface::Can1,
        CanInterface::Can2,
        CanInterface::Can3,
        CanInterface::Can4,
        CanInterface::CanTech,
    ];
    let bytes: Vec<Option<u8>> = all.iter().map(|i| iface_byte(*i)).collect();
    assert_eq!(bytes, vec![Some(0x02), Some(0x03), Some(0x22), Some(0x23), Some(0x13)]);
}

#[test]
fn valid_buffers() {
    assert!(!is_valid_buffer(&[]));
    assert!(is_valid_buffer(&[CMD_CONFIG]));
    assert!(is_valid_buffer(&[CMD_DATA, 0]));
    assert!(is_valid_buffer(&[CMD_VERSION]));
    assert!(!is_valid_buffer(&[0x03]));
}

#[test]
fn counts_of_new_frames() {
    assert_eq!(new_frame_counts(&[0, 0, 4, 0, 0, 0, 9]), (9, 4));
    assert_eq!(new_frame_counts(&[0, 0, 4]), (0, 4));
    assert_eq!(new_frame_counts(&[]), (0, 0));
}

#[test]
fn frames_of_an_interface_outside_the_buffer() {
    let layout = BufferLayout::bs_kpa();
    match parse_frames(&[CMD_DATA], &layout, CanInterface::Can3, None) {
        Err(DeviceError::Protocol(text)) => assert_eq!(text, "интерфейс CAN3 не в буфере"),
        _ => panic!("expected an error"),
    }
}

#[test]
fn frames_of_a_short_buffer() {
    let layout = BufferLayout::bs_kpa();
    let mut buf = vec![0u8; layout.can2_start + SLOT_SIZE + 9];
    let slot = CanFrame::new(5, &[1]).to_slot_be();
    buf[layout.can2_start..layout.can2_start + SLOT_SIZE].copy_from_slice(&slot);
    let frames = parse_frames(&buf, &layout, CanInterface::Can2, None).unwrap();
    assert_eq!(frames, vec![CanFrame::new(5, &[1])]);
    assert!(parse_frames(&[], &layout, CanInterface::Can1, None).unwrap().is_empty());
}

#[test]
fn fixed_packets() {
    assert_eq!(pkt_analyzer_mode(), [0x04, 0x01, 0x01, 0x00]);
    assert_eq!(pkt_version(), [0x09, 0x01]);
    assert_eq!(pkt_uart_configure(UartMode::Rs485), [0x01, 0x01, 0x03, 0x00]);
    assert_eq!(pkt_uart_write(&[7, 8]), vec![0x01, 0x02, 0, 0, 0, 0, 0, 0, 0, 2, 7, 8]);
    assert_eq!(pkt_gen_frequency(3, 0x01020304), vec![0x02, 3, 1, 2, 3, 4]);
    assert_eq!(pkt_gen_amplitude(4, 0x0506), vec![0x03, 4, 5, 6]);
}

#[test]
fn written_frame_reads_back() {
    let f = CanFrame::new(0x321, &[9, 8, 7]);
    let p = pkt_can_write(CanInterface::CanTech, &f, 1).unwrap();
    assert_eq!(p[0], 0x13);
    let mut slot = [0u8; 10];
    slot.copy_from_slice(&p[10..20]);
    assert_eq!(CanFrame::from_slot_be(&slot), Some(f));
}

#[test]
fn buffer_is_assembled() {
    let layout = BufferLayout { total: 5, can1_start: 0, can2_start: 0, slots: 0 };
    let mut b = BufferAssembly::new(&layout);
    assert_eq!(b.missing(), 5);
    assert!(b.accept(&[1, 2]).is_ok());
    assert_eq!(b.missing(), 3);
    assert!(matches!(b.accept(&[]), Err(DeviceError::NoData)));
    assert!(b.accept(&[3, 4, 5]).is_ok());
    assert_eq!(b.missing(), 0);
    assert_eq!(b.data, vec![1, 2, 3, 4, 5]);
}

#[test]
fn configuration_takes_three_steps() {
    let mut c = CanConfig::fresh();
    assert_eq!(c.next(), ConfigStep::AnalyzerMode);
    c.done(ConfigStep::AnalyzerMode);
    let first = ConfigStep::SetBaud(CanInterface::Can1, BaudRate::initial());
    assert_eq!(c.next(), first);
    c.done(first);
    let second = ConfigStep::SetBaud(CanInterface::Can2, BaudRate::initial());
    assert_eq!(c.next(), second);
    c.done(second);
    assert_eq!(c.next(), ConfigStep::Ready);
}

#[test]
fn chosen_speed_is_kept() {
    let mut c = CanConfig::fresh();
    c.baud_set(CanInterface::Can1, BaudRate::kbps_500());
    c.done(ConfigStep::AnalyzerMode);
    assert_eq!(c.next(), ConfigStep::SetBaud(CanInterface::Can2, BaudRate::initial()));
    c.baud_set(CanInterface::CanTech, BaudRate::kbps_25());
    assert_eq!(c.baud_can1, Some(BaudRate::kbps_500()));
    assert_eq!(c.baud_can2, None);
}

#[test]
fn reading_steps() {
    let layout = BufferLayout::appi();
    let mut buf = vec![0u8; layout.total];
    assert!(matches!(
        can_read_step(&buf, &layout, CanInterface::Can1),
        CanReadStep::Again
    ));
    buf[0] = CMD_VERSION;
    assert!(matches!(
        can_read_step(&buf, &layout, CanInterface::Can1),
        CanReadStep::Again
    ));
    buf[0] = CMD_DATA;
    match can_read_step(&buf, &layout, CanInterface::Can1) {
        CanReadStep::Done(Ok(frames)) => assert!(frames.is_empty()),
        _ => panic!("expected no frames"),
    }
    buf[6] = 1;
    let base = layout.can1_start;
    buf[base..base + 10].copy_from_slice(&CanFrame::new(1, &[1]).to_slot_be());
    buf[base + 10..base + 20].copy_from_slice(&CanFrame::new(2, &[2]).to_slot_be());
    match can_read_step(&buf, &layout, CanInterface::Can1) {
        CanReadStep::Done(Ok(frames)) => assert_eq!(frames, vec![CanFrame::new(1, &[1])]),
        _ => panic!("expected one frame"),
    }
    match can_read_step(&buf, &layout, CanInterface::Can3) {
        CanReadStep::Done(Ok(frames)) => assert!(frames.is_empty()),
        _ => panic!("expected no frames"),
    }
}

#[test]
fn version_is_found() {
    let mut q = VersionQuery::new();
    assert!(q.step(&[CMD_DATA, 1]).is_none());
    match q.step(&[CMD_VERSION, 0, 0, 0, 0, 0, 42]) {
        Some(Ok(v)) => assert_eq!(v, "42"),
        _ => panic!("expected a version"),
    }
}

#[test]
fn version_is_given_up() {
    let mut q = VersionQuery::new();
    let buf: Vec<u8> = (1..=20).map(|i| i + 0x0F).collect();
    for _ in 0..63 {
        assert!(q.step(&buf).is_none());
    }
    match q.step(&buf) {
        Some(Err(DeviceError::Protocol(text))) => assert_eq!(
            text,
            "версия не распознана; начало буфера: \
             10 11 12 13 14 15 16 17 18 19 1A 1B 1C 1D 1E 1F"
        ),
        _ => panic!("expected an error"),
    }
}

#[test]
fn appi_counts_what_it_writes() {
    let mut a = Appi::new();
    assert_eq!(a.capabilities(), CapabilitySet::can_only());
    assert_eq!(a.can_interfaces(), vec![CanInterface::Can1, CanInterface::Can2]);
    let f = CanFrame::new(1, &[1]);
    assert_eq!(a.can_write(CanInterface::Can1, &f).unwrap()[2], 1);
    assert_eq!(a.can_write(CanInterface::Can1, &f).unwrap()[2], 2);
    for _ in 0..253 {
        a.can_write(CanInterface::Can2, &f).unwrap();
    }
    assert_eq!(a.can_write(CanInterface::Can1, &f).unwrap()[2], 0);
}

#[test]
fn appi2_needs_a_uart_mode() {
    let mut a = Appi2::new(Appi2Variant::Appi2M);
    assert_eq!(a.variant(), Appi2Variant::Appi2M);
    assert_eq!(a.variant().name(), "АППИ-2М");
    assert_eq!(Appi2Variant::Appi2.name(), "АППИ-2");
    assert_eq!(a.capabilities(), CapabilitySet::all());
    assert_eq!(a.can_interfaces(), vec![CanInterface::Can1, CanInterface::Can2]);
    match a.uart_write(&[1]) {
        Err(DeviceError::Protocol(text)) => assert_eq!(
            text,
            "UART не сконфигурирован (вызовите uart_configure)"
        ),
        _ => panic!("expected an error"),
    }
    a.uart_configured(UartMode::Rs232);
    assert_eq!(a.uart_write(&[1]).unwrap(), pkt_uart_write(&[1]));
    assert!(a.uart_read(&[CMD_DATA, 1, 2]).is_empty());
    assert_eq!(a.can_write(CanInterface::Can2, &CanFrame::new(1, &[])).unwrap()[2], 1);
}
