use appd::client::{ClientAddr, ClientRegistry};
use appd::error::AppError;
use appd::manager::{
    classify, classify_appi, port_text, DeviceKind, DeviceManager, DriverLookup, UsbDevice,
};
use appd::session::SessionManager;
use appd::stream::{StreamManager, StreamPort};

fn addr(ip: u128, port: u16) -> ClientAddr {
    ClientAddr { v6: false, ip, port, flowinfo: 0, scope_id: 0 }
}

#[test]
fn registering_twice_gives_one_identifier() {
    let mut r = ClientRegistry::new();
    assert_eq!(r.register(addr(1, 10)), 1);
    assert_eq!(r.register(addr(2, 10)), 2);
    assert_eq!(r.register(addr(1, 11)), 3);
    assert_eq!(r.register(addr(1, 10)), 1);
    assert_eq!(r.get_by_addr(&addr(2, 10)), Some(2));
    assert_eq!(r.get_by_addr(&addr(2, 11)), None);
    let c = r.get_by_id(3).unwrap();
    assert_eq!(c.id, 3);
    assert_eq!(c.addr.key(), addr(1, 11).key());
}

#[test]
fn addresses_of_both_families_differ() {
    let mut r = ClientRegistry::new();
    let v4 = addr(1, 10);
    let v6 = ClientAddr { v6: true, ..v4 };
    assert_eq!(r.register(v4), 1);
    assert_eq!(r.register(v6), 2);
    assert_eq!(r.register(ClientAddr { scope_id: 3, ..v6 }), 3);
    assert_eq!(r.register(ClientAddr { flowinfo: 3, ..v6 }), 4);
    let moved = v6.with_port(99);
    assert_eq!((moved.v6, moved.ip, moved.port), (true, 1, 99));
}

#[test]
fn unregistered_client_is_forgotten() {
    let mut r = ClientRegistry::new();
    let id = r.register(addr(1, 10));
    r.unregister(99);
    assert_eq!(r.get_by_addr(&addr(1, 10)), Some(id));
    r.unregister(id);
    assert!(r.get_by_id(id).is_none());
    assert_eq!(r.get_by_addr(&addr(1, 10)), None);
    assert_eq!(r.register(addr(1, 10)), 2);
}

#[test]
fn client_moves() {
    let mut r = ClientRegistry::new();
    let id = r.register(addr(1, 10));
    r.update_addr(id, addr(5, 50));
    assert_eq!(r.get_by_addr(&addr(1, 10)), None);
    assert_eq!(r.get_by_addr(&addr(5, 50)), Some(id));
    assert_eq!(r.get_by_id(id).unwrap().addr.port, 50);
    r.update_addr(77, addr(6, 60));
    assert_eq!(r.get_by_addr(&addr(6, 60)), None);
}

#[test]
fn sessions_are_made_and_closed() {
    let mut m = SessionManager::new();
    let a = m.create(1, 0, "k0".to_string()).unwrap();
    let b = m.create(2, 5, "k5".to_string()).unwrap();
    assert_eq!((a, b), (1, 2));
    let s = m.get(b).unwrap();
    assert_eq!((s.id, s.client_id, s.device_idx, s.device_key.as_str()), (2, 2, 5, "k5"));
    assert!(m.close(a).is_ok());
    assert!(matches!(m.get(a), Err(AppError::UnknownSession(1))));
    assert!(matches!(m.close(a), Err(AppError::UnknownSession(1))));
    assert!(m.get(b).is_ok());
}

#[test]
fn sessions_of_a_client() {
    let mut m = SessionManager::new();
    for i in 0..10 {
        m.create(i % 2, i as usize, format!("d{i}")).unwrap();
    }
    let mut ids: Vec<u16> = m.list_for_client(1).iter().map(|s| s.id).collect();
    ids.sort();
    assert_eq!(ids, vec![2, 4, 6, 8, 10]);
    m.close_all_for_client(1);
    assert!(m.list_for_client(1).is_empty());
    assert_eq!(m.list_for_client(0).len(), 5);
}

#[test]
fn session_numbers_wrap() {
    let mut m = SessionManager::new();
    for _ in 0..65535u32 {
        let id = m.create(1, 0, String::new()).unwrap();
        m.close(id).unwrap();
    }
    assert_eq!(m.create(1, 0, String::new()).unwrap(), 0);
    assert_eq!(m.create(1, 0, String::new()).unwrap(), 1);
}

fn port(local_port: u16, socket: u64) -> StreamPort {
    StreamPort { local_port, client_data_addr: addr(9, 900), socket }
}

#[test]
fn stream_ports() {
    let mut m = StreamManager::new();
    assert!(m.push_frame(1, 1).is_none());
    assert_eq!(m.open(1, 1, port(1000, 11)), None);
    assert_eq!(m.open(1, 1, port(1001, 12)), Some(11));
    assert_eq!(m.open(1, 2, port(1002, 13)), None);
    let p = m.push_frame(1, 1).unwrap();
    assert_eq!((p.local_port, p.socket, p.client_data_addr.port), (1001, 12, 900));
    assert!(m.push_frame(2, 1).is_none());
    assert_eq!(m.close(1, 1), (None, Some(12)));
    assert!(m.push_frame(1, 1).is_none());
    assert!(m.push_frame(1, 2).is_some());
}

#[test]
fn one_periodic_write_for_a_session() {
    let mut m = StreamManager::new();
    assert_eq!(m.add_periodic(1, 1, 100), None);
    assert_eq!(m.add_periodic(1, 1, 101), Some(100));
    assert_eq!(m.add_periodic(1, 2, 102), None);
    assert_eq!(m.stop_periodic(1, 1), Some(101));
    assert_eq!(m.stop_periodic(1, 1), None);
    m.open(1, 2, port(1, 5));
    assert_eq!(m.close(1, 2), (Some(102), Some(5)));
    assert_eq!(m.close(1, 2), (None, None));
}

#[test]
fn all_streams_of_a_client() {
    let mut m = StreamManager::new();
    for s in 0..4 {
        m.open(1, s, port(s, s as u64));
        m.open(2, s, port(s, 100 + s as u64));
        m.add_periodic(1, s, 10 + s as u64);
    }
    m.open(0x0100, 1, port(1, 500));
    let (mut tasks, mut sockets) = m.close_all_for_client(1);
    tasks.sort();
    sockets.sort();
    assert_eq!(tasks, vec![10, 11, 12, 13]);
    assert_eq!(sockets, vec![0, 1, 2, 3]);
    assert!(m.push_frame(1, 0).is_none());
    assert_eq!(m.push_frame(2, 3).unwrap().socket, 103);
    assert_eq!(m.push_frame(0x0100, 1).unwrap().socket, 500);
    let (tasks, sockets) = m.close_all_for_client(1);
    assert!(tasks.is_empty() && sockets.is_empty());
}

#[test]
fn kinds_of_devices() {
    assert_eq!(classify_appi(0x7300), DeviceKind::Appi2M);
    assert_eq!(classify_appi(0x0000), DeviceKind::Appi);
    assert_eq!(classify_appi(0x1234), DeviceKind::Appi2);
    assert_eq!(classify(0x1992, 0x1972, 0x7300), Some(DeviceKind::Appi2M));
    assert_eq!(classify(0x16C0, 0x05DC, 0), Some(DeviceKind::Phlox));
    assert_eq!(classify(0x16C0, 0x1972, 0), None);
    assert_eq!(DeviceKind::Phlox.product(), "Phlox");
    assert_eq!(DeviceKind::Appi.product(), "АППИ");
    assert_eq!(DeviceKind::Appi2.product(), "АППИ-2");
    assert!(DeviceKind::Appi2M.capabilities().uart);
    assert!(!DeviceKind::Appi.capabilities().uart);
    assert!(!DeviceKind::Phlox.capabilities().can);
}

#[test]
fn port_chains() {
    assert_eq!(port_text(&[]), "");
    assert_eq!(port_text(&[3]), "3");
    assert_eq!(port_text(&[1, 20, 4]), "1.20.4");
}

fn usb(pid: u16, address: u8, ports: &[u8]) -> UsbDevice {
    UsbDevice {
        vid: 0x1992,
        pid,
        bcd: 0x7300,
        address,
        ports: ports.to_vec(),
        manufacturer: None,
    }
}

#[test]
fn refresh_lists_served_devices() {
    let mut m = DeviceManager::new();
    let mut named = usb(0x1972, 6, &[2]);
    named.manufacturer = Some("Maker".to_string());
    m.refresh(Some(&[usb(0x1972, 5, &[1, 2]), usb(0x0001, 7, &[3]), named]));
    let list = m.list_info();
    assert_eq!(list.len(), 2);
    assert_eq!(list[0].id.key(), "1992:1972@5.1.2");
    assert_eq!(list[0].manufacturer, "Appi");
    assert_eq!(list[0].product, "АППИ-2М");
    assert_eq!(list[1].manufacturer, "Maker");
    assert_eq!(m.get_info(1).unwrap().id.bus, 6);
    assert!(m.get_info(2).is_none());
    assert_eq!(m.get_driver(0), DriverLookup::Open(0, DeviceKind::Appi2M));
    assert_eq!(m.get_driver(1), DriverLookup::Open(2, DeviceKind::Appi2M));
    assert_eq!(m.get_driver(2), DriverLookup::NotFound);
}

#[test]
fn refresh_keeps_open_drivers() {
    let mut m = DeviceManager::new();
    m.refresh(Some(&[usb(0x1972, 5, &[1]), usb(0x1972, 6, &[2])]));
    m.driver_opened(1, 42);
    assert_eq!(m.get_driver(1), DriverLookup::Ready(42));
    m.refresh(Some(&[usb(0x1972, 6, &[2]), usb(0x1972, 6, &[2]), usb(0x1972, 5, &[9])]));
    assert_eq!(m.get_driver(0), DriverLookup::Ready(42));
    assert_eq!(m.get_driver(1), DriverLookup::Open(1, DeviceKind::Appi2M));
    assert_eq!(m.get_driver(2), DriverLookup::Open(2, DeviceKind::Appi2M));
    m.refresh(None);
    assert!(m.list_info().is_empty());
}
