use appd::capability::CapabilitySet;
use appd::device_info::DeviceId;
use appd::types::{BaudRate, CanFrame, CanInterface, GenCode, UartMode};

#[test]
fn descriptor_roundtrip() {
    let f = CanFrame::new(0x01CC, &[0xFF, 0xFF, 0xFF, 0x21, 0xE4, 0x0A, 0x00, 0x00]);
    assert_eq!(f.descriptor(), 0x3988);
    assert_eq!(f.size, 8);

    let back = CanFrame::from_descriptor(0x3988, f.data);
    assert_eq!(back.id, 0x01CC);
    assert_eq!(back.size, 8);
}

#[test]
fn hex_line_format() {
    let f = CanFrame::new(0x01CC, &[0xFF, 0xFF, 0xFF, 0x21, 0xE4, 0x0A, 0x00, 0x00]);
    assert_eq!(f.to_hex_line(), "3988 FFFFFF21E40A0000");
}

#[test]
fn slot_be_roundtrip() {
    let f = CanFrame::new(0x123, &[1, 2, 3, 4]);
    let slot = f.to_slot_be();
    let back = CanFrame::from_slot_be(&slot).unwrap();
    assert_eq!(back.id, f.id);
    assert_eq!(back.size, f.size);
    assert_eq!(back.data, f.data);
}

#[test]
fn empty_slot_is_none() {
    let slot = [0u8; 10];
    assert!(CanFrame::from_slot_be(&slot).is_none());
}

#[test]
fn id_zero_dlc_zero_not_empty_when_data_present() {
    // An identifier of 0 and a size of 0, but there is data: the slot is not empty.
    let mut slot = [0u8; 10];
    slot[5] = 0xAB;
    assert!(CanFrame::from_slot_be(&slot).is_some());
}

#[test]
fn baud_bytes() {
    assert_eq!(BaudRate::kbps_100().lo(), 0x64);
    assert_eq!(BaudRate::kbps_100().hi(), 0x00);
    assert_eq!(BaudRate::kbps_500().lo(), 0xF4);
    assert_eq!(BaudRate::kbps_500().hi(), 0x01);
    assert_eq!(BaudRate::kbps_1000().lo(), 0xE8);
    assert_eq!(BaudRate::kbps_1000().hi(), 0x03);
}

#[test]
fn baud_values() {
    assert_eq!(BaudRate::kbps_25().raw(), 25);
    assert_eq!(BaudRate::kbps_50().raw(), 50);
    assert_eq!(BaudRate::kbps_250().raw(), 250);
    assert_eq!(BaudRate::initial(), BaudRate::kbps_100());
    assert_eq!(BaudRate::from_raw(0x1234).raw(), 0x1234);
}

#[test]
fn long_data_is_cut() {
    let f = CanFrame::new(1, &[1, 2, 3, 4, 5, 6, 7, 8, 9]);
    assert_eq!(f.size, 8);
    assert_eq!(f.data, [1, 2, 3, 4, 5, 6, 7, 8]);
}

#[test]
fn short_data_is_filled_up() {
    let f = CanFrame::new(1, &[7]);
    assert_eq!(f.size, 1);
    assert_eq!(f.data, [7, 0, 0, 0, 0, 0, 0, 0]);
    assert_eq!(CanFrame::new(1, &[]).size, 0);
}

#[test]
fn wide_identifier_loses_its_top_bits() {
    let f = CanFrame::new(0xFFFF, &[]);
    assert_eq!(f.descriptor(), 0xFFE0);
}

#[test]
fn service_flag_is_not_part_of_the_size() {
    let f = CanFrame::from_descriptor(0x0038, [0; 8]);
    assert_eq!(f.id, 1);
    assert_eq!(f.size, 8);
}

#[test]
fn interface_numbers() {
    for n in 0..=255u8 {
        match CanInterface::from_u8(n) {
            Some(i) => assert_eq!(i.as_u8(), n),
            None => assert!(n < 1 || n > 5),
        }
    }
    assert_eq!(CanInterface::from_u8(1), Some(CanInterface::Can1));
    assert_eq!(CanInterface::from_u8(0), None);
    assert_eq!(CanInterface::from_u8(6), None);
    assert_eq!(CanInterface::Can1.name(), "CAN1");
}

#[test]
fn mode_and_code_numbers() {
    for n in 0..=255u8 {
        if let Some(m) = UartMode::from_u8(n) {
            assert_eq!(m.as_u8(), n);
        }
        if let Some(c) = GenCode::from_u8(n) {
            assert_eq!(c.as_u8(), n);
        }
    }
    assert_eq!(GenCode::Als.as_u8(), 1);
    assert!(GenCode::from_u8(200).is_none());
    assert!(UartMode::from_u8(200).is_none());
}

#[test]
fn capability_sets() {
    let none = CapabilitySet { can: false, uart: false, gen: false };
    assert_eq!(CapabilitySet::none(), none);
    assert_eq!(CapabilitySet::default(), none);
    assert_eq!(CapabilitySet::can_only(), CapabilitySet { can: true, uart: false, gen: false });
    assert_eq!(CapabilitySet::all(), CapabilitySet { can: true, uart: true, gen: true });
}

#[test]
fn device_key_text() {
    let id = DeviceId { vid: 0x1992, pid: 0x1972, bus: 12, port: "1.4".to_string() };
    assert_eq!(id.key(), "1992:1972@12.1.4");
    let other = DeviceId { bus: 1, port: "2.1.4".to_string(), ..id.clone() };
    assert_eq!(other.key(), "1992:1972@1.2.1.4");
    assert_ne!(id.key(), other.key());
}
