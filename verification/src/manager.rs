//! The list of connected devices.
//!
//! Enumerating devices opens none of them. A device is opened when its driver is first
//! asked for, and the driver is kept while the device stays where it is.

use vstd::prelude::*;
use crate::capability::CapabilitySet;
use crate::device_info::{DeviceId, DeviceIdView, DeviceInfo, DeviceInfoView};
use crate::devices::appi2::Appi2Variant;
use crate::text::push_decimal;

verus! {

pub const APPI_VID: u16 = 0x1992;

pub const APPI_PID: u16 = 0x1972;

pub const BCD_APPI: u16 = 0x0000;

pub const BCD_APPI2M: u16 = 0x7300;

pub const PHLOX_VID: u16 = 0x16C0;

pub const PHLOX_PID: u16 = 0x05DC;

/// How long opening a device may take, in milliseconds.
pub const OPEN_TIMEOUT_MS: u64 = 5000;

/// The kinds of devices that the daemon serves.
#[derive(Debug, Clone, Copy, PartialEq, Eq, Structural)]
pub enum DeviceKind {
    Appi,
    Appi2,
    Appi2M,
    Phlox,
}

/// The kind of an APPI, by its release number.
pub open spec fn appi_kind(bcd: u16) -> DeviceKind {
    if bcd == BCD_APPI2M {
        DeviceKind::Appi2M
    } else if bcd == BCD_APPI {
        DeviceKind::Appi
    } else {
        DeviceKind::Appi2
    }
}

/// The kind of a USB device, if the daemon serves it.
pub open spec fn kind_of(vid: u16, pid: u16, bcd: u16) -> Option<DeviceKind> {
    if vid == APPI_VID && pid == APPI_PID {
        Some(appi_kind(bcd))
    } else if vid == PHLOX_VID && pid == PHLOX_PID {
        Some(DeviceKind::Phlox)
    } else {
        None
    }
}

/// Tells the models of the APPI apart by their release number.
pub fn classify_appi(bcd_raw: u16) -> (k: DeviceKind)
    ensures
        k == appi_kind(bcd_raw),
{
    if bcd_raw == BCD_APPI2M {
        return DeviceKind::Appi2M;
    }
    if bcd_raw == BCD_APPI {
        return DeviceKind::Appi;
    }
    DeviceKind::Appi2
}

/// The kind of a USB device, if the daemon serves it.
pub fn classify(vid: u16, pid: u16, bcd_raw: u16) -> (k: Option<DeviceKind>)
    ensures
        k == kind_of(vid, pid, bcd_raw),
{
    if vid == APPI_VID && pid == APPI_PID {
        Some(classify_appi(bcd_raw))
    } else if vid == PHLOX_VID && pid == PHLOX_PID {
        Some(DeviceKind::Phlox)
    } else {
        None
    }
}

impl DeviceKind {
    /// The name of the product.
    pub open spec fn spec_product(self) -> Seq<char> {
        match self {
            DeviceKind::Appi2M => Appi2Variant::Appi2M.spec_name(),
            DeviceKind::Appi2 => Appi2Variant::Appi2.spec_name(),
            DeviceKind::Appi => "АППИ"@,
            DeviceKind::Phlox => "Phlox"@,
        }
    }

    /// The name of the product.
    pub fn product(self) -> (s: &'static str)
        ensures
            s@ == self.spec_product(),
    {
        match self {
            DeviceKind::Appi2M => Appi2Variant::Appi2M.name(),
            DeviceKind::Appi2 => Appi2Variant::Appi2.name(),
            DeviceKind::Appi => "АППИ",
            DeviceKind::Phlox => "Phlox",
        }
    }

    /// What devices of the kind can do.
    pub fn capabilities(self) -> (c: CapabilitySet)
        ensures
            c == match self {
                DeviceKind::Appi => CapabilitySet::can_only(),
                DeviceKind::Appi2 => CapabilitySet::all(),
                DeviceKind::Appi2M => CapabilitySet::all(),
                DeviceKind::Phlox => CapabilitySet::none(),
            },
    {
        match self {
            DeviceKind::Appi => CapabilitySet::can_only(),
            DeviceKind::Appi2 => CapabilitySet::all(),
            DeviceKind::Appi2M => CapabilitySet::all(),
            DeviceKind::Phlox => CapabilitySet::none(),
        }
    }
}

/// A USB device as the system enumerates it.
#[derive(Debug, Clone)]
pub struct UsbDevice {
    pub vid: u16,
    pub pid: u16,
    /// The release number (bcdDevice).
    pub bcd: u16,
    /// The address on the bus.
    pub address: u8,
    /// The chain of ports from the root hub.
    pub ports: Vec<u8>,
    pub manufacturer: Option<String>,
}

/// A [`UsbDevice`] with its ports and its texts as sequences.
pub struct UsbDeviceView {
    pub vid: u16,
    pub pid: u16,
    pub bcd: u16,
    pub address: u8,
    pub ports: Seq<u8>,
    pub manufacturer: Option<Seq<char>>,
}

impl View for UsbDevice {
    type V = UsbDeviceView;

    open spec fn view(&self) -> UsbDeviceView {
        UsbDeviceView {
            vid: self.vid,
            pid: self.pid,
            bcd: self.bcd,
            address: self.address,
            ports: self.ports@,
            manufacturer: match self.manufacturer {
                None => None,
                Some(s) => Some(s@),
            },
        }
    }
}

/// A chain of ports as text: the numbers in decimal, with full stops between them.
pub open spec fn port_chain(ports: Seq<u8>) -> Seq<char>
    decreases ports.len(),
{
    if ports.len() == 0 {
        seq![]
    } else if ports.len() == 1 {
        crate::text::decimal(ports[0] as nat)
    } else {
        port_chain(ports.drop_last()) + "."@ + crate::text::decimal(ports.last() as nat)
    }
}

/// A chain of ports as text.
pub fn port_text(ports: &[u8]) -> (s: String)
    ensures
        s@ == port_chain(ports@),
{
    let mut s = String::new();
    assert(ports@.take(0) =~= seq![]);
    assert(s@ =~= seq![]);
    for i in 0..ports.len()
        invariant
            s@ == port_chain(ports@.take(i as int)),
    {
        assert(ports@.take(i + 1).drop_last() =~= ports@.take(i as int));
        if i > 0 {
            s.append(".");
        }
        push_decimal(&mut s, ports[i] as u64);
        assert(s@ =~= port_chain(ports@.take(i + 1)));
    }
    assert(ports@.take(ports@.len() as int) =~= ports@);
    s
}

impl UsbDeviceView {
    /// The kind of the device, if the daemon serves it.
    pub open spec fn kind(self) -> Option<DeviceKind> {
        kind_of(self.vid, self.pid, self.bcd)
    }

    /// What clients see of the device.
    pub open spec fn info(self, kind: DeviceKind) -> DeviceInfoView {
        DeviceInfoView {
            id: DeviceIdView {
                vid: self.vid,
                pid: self.pid,
                bus: self.address,
                port: port_chain(self.ports),
            },
            manufacturer: match self.manufacturer {
                Some(s) => s,
                None => "Appi"@,
            },
            product: kind.spec_product(),
        }
    }

    /// Whether the device is where another one was: same bus address, same port.
    pub open spec fn at_place_of(self, h: DeviceHandleView) -> bool {
        h.info.id.bus == self.address && h.info.id.port == port_chain(self.ports)
    }
}

/// One entry of the list of devices.
#[derive(Debug)]
pub struct DeviceHandle {
    pub info: DeviceInfo,
    /// Where the device stood in the enumeration.
    pub raw: usize,
    pub kind: DeviceKind,
    /// The driver, once the device was opened.
    pub driver: Option<u64>,
}

/// A [`DeviceHandle`] with its description taken by its view.
#[verifier::ext_equal]
pub struct DeviceHandleView {
    pub info: DeviceInfoView,
    pub raw: usize,
    pub kind: DeviceKind,
    pub driver: Option<u64>,
}

impl View for DeviceHandle {
    type V = DeviceHandleView;

    open spec fn view(&self) -> DeviceHandleView {
        DeviceHandleView {
            info: self.info@,
            raw: self.raw,
            kind: self.kind,
            driver: self.driver,
        }
    }
}

/// The entries of a list, by their views.
pub open spec fn handle_views(list: Seq<DeviceHandle>) -> Seq<DeviceHandleView> {
    list.map_values(|h: DeviceHandle| h@)
}

/// The enumerated devices, by their views.
pub open spec fn usb_views(list: Seq<UsbDevice>) -> Seq<UsbDeviceView> {
    list.map_values(|d: UsbDevice| d@)
}

/// The first entry, from `from` on, at the place of a device.
pub open spec fn place_of(old: Seq<DeviceHandleView>, d: UsbDeviceView, from: int) -> Option<int>
    decreases old.len() - from,
{
    if from < 0 || from >= old.len() {
        None
    } else if d.at_place_of(old[from]) {
        Some(from)
    } else {
        place_of(old, d, from + 1)
    }
}

/// The list after the first `n` enumerated devices, and the old entries that were not
/// found again yet. A device found again at the place of an old entry takes over the
/// driver of that entry.
pub open spec fn refreshed(
    old: Seq<DeviceHandleView>,
    found: Seq<UsbDeviceView>,
    n: int,
) -> (Seq<DeviceHandleView>, Seq<DeviceHandleView>)
    decreases n,
{
    if n <= 0 {
        (seq![], old)
    } else {
        let (list, rest) = refreshed(old, found, n - 1);
        let d = found[n - 1];
        match d.kind() {
            None => (list, rest),
            Some(kind) => {
                let fresh = DeviceHandleView {
                    info: d.info(kind),
                    raw: (n - 1) as usize,
                    kind,
                    driver: None,
                };
                match place_of(rest, d, 0) {
                    None => (list.push(fresh), rest),
                    Some(p) => (
                        list.push(DeviceHandleView { driver: rest[p].driver, ..fresh }),
                        rest.remove(p),
                    ),
                }
            },
        }
    }
}

/// What asking for a driver comes to.
#[derive(Debug, Clone, Copy, PartialEq, Eq, Structural)]
pub enum DriverLookup {
    /// There is no such device.
    NotFound,
    /// The device is open: this is its driver.
    Ready(u64),
    /// Open the enumerated device with this number as one of this kind, then report it with
    /// [`DeviceManager::driver_opened`].
    Open(usize, DeviceKind),
}

/// What asking for the driver of a device comes to.
pub open spec fn driver_at(list: Seq<DeviceHandleView>, idx: usize) -> DriverLookup {
    if idx >= list.len() {
        DriverLookup::NotFound
    } else {
        match list[idx as int].driver {
            Some(d) => DriverLookup::Ready(d),
            None => DriverLookup::Open(list[idx as int].raw, list[idx as int].kind),
        }
    }
}

/// The list once a device was opened.
pub open spec fn with_driver(list: Seq<DeviceHandleView>, idx: usize, driver: u64) -> Seq<
    DeviceHandleView,
> {
    list.update(idx as int, DeviceHandleView { driver: Some(driver), ..list[idx as int] })
}

/// The list of connected devices.
#[derive(Debug)]
pub struct DeviceManager {
    pub devices: Vec<DeviceHandle>,
}

impl View for DeviceManager {
    type V = Seq<DeviceHandleView>;

    open spec fn view(&self) -> Seq<DeviceHandleView> {
        handle_views(self.devices@)
    }
}

impl DeviceManager {
    /// An empty list.
    pub fn new() -> (m: Self)
        ensures
            m@ == Seq::<DeviceHandleView>::empty(),
    {
        let m = DeviceManager { devices: Vec::new() };
        assert(m@ =~= Seq::<DeviceHandleView>::empty());
        m
    }

    /// Makes the list anew out of an enumeration, and opens nothing. Drivers of devices that
    /// stayed where they were are kept. `None` stands for an enumeration that failed: the
    /// list is then empty.
    pub fn refresh(&mut self, found: Option<&[UsbDevice]>)
        ensures
            final(self)@ == match found {
                None => Seq::<DeviceHandleView>::empty(),
                Some(f) => refreshed(old(self)@, usb_views(f@), f@.len() as int).0,
            },
    {
        let mut old_list: Vec<DeviceHandle> = Vec::new();
        old_list.append(&mut self.devices);
        assert(old_list@ =~= old(self).devices@);
        assert(self@ =~= seq![]);
        let ghost before = old(self)@;
        if let Some(f) = found {
            let ghost views = usb_views(f@);
            for n in 0..f.len()
                invariant
                    views == usb_views(f@),
                    self@ == refreshed(before, views, n as int).0,
                    handle_views(old_list@) == refreshed(before, views, n as int).1,
            {
                let d = &f[n];
                assert(views[n as int] == d@);
                if let Some(kind) = classify(d.vid, d.pid, d.bcd) {
                    let port = port_text(d.ports.as_slice());
                    let manufacturer = match &d.manufacturer {
                        Some(s) => s.clone(),
                        None => "Appi".to_owned(),
                    };
                    let ghost rest = handle_views(old_list@);
                    let mut driver: Option<u64> = None;
                    let mut p: usize = 0;
                    while p < old_list.len()
                        invariant_except_break
                            p <= old_list@.len(),
                            driver == None::<u64>,
                            handle_views(old_list@) == rest,
                            place_of(rest, d@, 0) == place_of(rest, d@, p as int),
                            port@ == port_chain(d@.ports),
                        ensures
                            match place_of(rest, d@, 0) {
                                None => driver is None && handle_views(old_list@) == rest,
                                Some(q) => driver == rest[q].driver && handle_views(old_list@)
                                    == rest.remove(q),
                            },
                        decreases old_list@.len() - p,
                    {
                        assert(rest[p as int] == old_list@[p as int]@);
                        if old_list[p].info.id.bus == d.address && old_list[p].info.id.port
                            == port {
                            let taken = old_list.remove(p);
                            driver = taken.driver;
                            assert(handle_views(old_list@) =~= rest.remove(p as int));
                            break;
                        }
                        p = p + 1;
                    }
                    let ghost list = self.devices@;
                    self.devices.push(
                        DeviceHandle {
                            info: DeviceInfo {
                                id: DeviceId { vid: d.vid, pid: d.pid, bus: d.address, port },
                                manufacturer,
                                product: kind.product().to_owned(),
                            },
                            raw: n,
                            kind,
                            driver,
                        },
                    );
                    assert(self@ =~= handle_views(list).push(self.devices@.last()@));
                    assert(self.devices@.last()@ =~= refreshed(before, views, n + 1).0.last());
                }
            }
        }
    }

    /// The descriptions of all devices.
    pub fn list_info(&self) -> (list: Vec<DeviceInfo>)
        ensures
            crate::device_info::info_views(list@) == self@.map_values(
                |h: DeviceHandleView| h.info,
            ),
    {
        let mut list: Vec<DeviceInfo> = Vec::new();
        for i in 0..self.devices.len()
            invariant
                list@.len() == i,
                forall|j: int| 0 <= j < i ==> (#[trigger] list@[j])@ == self.devices@[j].info@,
        {
            list.push(self.devices[i].info.copy());
        }
        assert(crate::device_info::info_views(list@) =~= self@.map_values(
            |h: DeviceHandleView| h.info,
        ));
        list
    }

    /// The description of a device.
    pub fn get_info(&self, idx: usize) -> (r: Option<DeviceInfo>)
        ensures
            match r {
                Some(info) => idx < self@.len() && info@ == self@[idx as int].info,
                None => idx >= self@.len(),
            },
    {
        if idx < self.devices.len() {
            Some(self.devices[idx].info.copy())
        } else {
            None
        }
    }

    /// Looks for the driver of a device.
    pub fn get_driver(&self, idx: usize) -> (r: DriverLookup)
        ensures
            r == driver_at(self@, idx),
    {
        if idx >= self.devices.len() {
            return DriverLookup::NotFound;
        }
        let h = &self.devices[idx];
        match h.driver {
            Some(d) => DriverLookup::Ready(d),
            None => DriverLookup::Open(h.raw, h.kind),
        }
    }

    /// Keeps the driver of a device that was opened.
    pub fn driver_opened(&mut self, idx: usize, driver: u64)
        requires
            idx < old(self)@.len(),
        ensures
            final(self)@ == with_driver(old(self)@, idx, driver),
    {
        self.devices[idx].driver = Some(driver);
        assert(self@ =~= with_driver(old(self)@, idx, driver));
    }
}

/// Whether two entries stand for the same place.
pub open spec fn same_place(a: DeviceHandleView, b: DeviceHandleView) -> bool {
    a.info.id.bus == b.info.id.bus && a.info.id.port == b.info.id.port
}

/// Whether no two entries stand for the same place.
pub open spec fn places_distinct(list: Seq<DeviceHandleView>) -> bool {
    forall|i: int, j: int|
        0 <= i < j < list.len() ==> !same_place(#[trigger] list[i], #[trigger] list[j])
}

/// Whether no two entries share a driver.
pub open spec fn drivers_distinct(list: Seq<DeviceHandleView>) -> bool {
    forall|i: int, j: int|
        0 <= i < j < list.len() && (#[trigger] list[i]).driver is Some ==> list[i].driver != (
        #[trigger] list[j]).driver
}

/// What `place_of` finds, and that it overlooks nothing.
proof fn lemma_place_of(old: Seq<DeviceHandleView>, d: UsbDeviceView, from: int)
    requires
        0 <= from,
    ensures
        match place_of(old, d, from) {
            Some(p) => from <= p < old.len() && d.at_place_of(old[p]),
            None => forall|i: int| from <= i < old.len() ==> !d.at_place_of(#[trigger] old[i]),
        },
    decreases old.len() - from,
{
    if from < old.len() && !d.at_place_of(old[from]) {
        lemma_place_of(old, d, from + 1);
    }
}

/// The list holds the enumerated devices that the daemon serves, each described as it was
/// found, in the order in which they were found, and no others.
pub proof fn law_refresh_lists_served_devices(
    old: Seq<DeviceHandleView>,
    found: Seq<UsbDeviceView>,
    n: int,
)
    requires
        0 <= n <= found.len() <= usize::MAX,
    ensures
        forall|j: int|
            #![trigger refreshed(old, found, n).0[j]]
            0 <= j < refreshed(old, found, n).0.len() ==> {
                let h = refreshed(old, found, n).0[j];
                &&& h.raw < n
                &&& found[h.raw as int].kind() == Some(h.kind)
                &&& h.info == found[h.raw as int].info(h.kind)
            },
        forall|i: int, j: int|
            0 <= i < j < refreshed(old, found, n).0.len() ==> (#[trigger] refreshed(
                old,
                found,
                n,
            ).0[i]).raw < (#[trigger] refreshed(old, found, n).0[j]).raw,
        forall|i: int|
            0 <= i < n && (#[trigger] found[i]).kind() is Some ==> exists|j: int|
                0 <= j < refreshed(old, found, n).0.len() && (#[trigger] refreshed(
                    old,
                    found,
                    n,
                ).0[j]).raw == i,
    decreases n,
{
    if n > 0 {
        law_refresh_lists_served_devices(old, found, n - 1);
        let before = refreshed(old, found, n - 1).0;
        let after = refreshed(old, found, n).0;
        if found[n - 1].kind() is Some {
            assert(after.drop_last() =~= before);
            assert forall|i: int| 0 <= i < n && (#[trigger] found[i]).kind() is Some implies exists|
                j: int,
            |
                0 <= j < after.len() && (#[trigger] after[j]).raw == i by {
                if i == n - 1 {
                    assert(after[after.len() - 1].raw == i);
                } else {
                    let j = choose|j: int| 0 <= j < before.len() && (#[trigger] before[j]).raw == i;
                    assert(after[j] == before[j]);
                }
            }
        }
    }
}

/// Every entry that was not found again is an old one; and as long as no entry of the list
/// stands at the place of an old one, that old one is among them.
proof fn lemma_refresh_rest(old: Seq<DeviceHandleView>, found: Seq<UsbDeviceView>, n: int)
    requires
        0 <= n <= found.len() <= usize::MAX,
    ensures
        forall|r: int|
            0 <= r < refreshed(old, found, n).1.len() ==> old.contains(
                #[trigger] refreshed(old, found, n).1[r],
            ),
        forall|k: int|
            0 <= k < old.len() && (forall|j: int|
                0 <= j < refreshed(old, found, n).0.len() ==> !same_place(
                    #[trigger] refreshed(old, found, n).0[j],
                    old[k],
                )) ==> refreshed(old, found, n).1.contains(#[trigger] old[k]),
    decreases n,
{
    if n > 0 {
        lemma_refresh_rest(old, found, n - 1);
        let (list, rest) = refreshed(old, found, n - 1);
        let (list2, rest2) = refreshed(old, found, n);
        let d = found[n - 1];
        if d.kind() is Some {
            lemma_place_of(rest, d, 0);
            assert(list2.drop_last() =~= list);
            assert forall|k: int|
                0 <= k < old.len() && (forall|j: int|
                    0 <= j < list2.len() ==> !same_place(#[trigger] list2[j], old[k])) implies 
            rest2.contains(#[trigger] old[k]) by {
                assert forall|j: int| 0 <= j < list.len() implies !same_place(
                    #[trigger] list[j],
                    old[k],
                ) by {
                    assert(list2[j] == list[j]);
                }
                assert(rest.contains(old[k]));
                assert(!same_place(list2[list2.len() - 1], old[k]));
                let r = choose|r: int| 0 <= r < rest.len() && rest[r] == old[k];
                if let Some(p) = place_of(rest, d, 0) {
                    assert(r != p);
                    if r < p {
                        assert(rest2[r] == old[k]);
                    } else {
                        assert(rest2[r - 1] == old[k]);
                    }
                }
            }
        }
    } else {
        assert forall|k: int| 0 <= k < old.len() implies refreshed(old, found, n).1.contains(
            #[trigger] old[k],
        ) by {
            assert(refreshed(old, found, n).1[k] == old[k]);
        }
    }
}

/// A driver in the new list comes from an old entry at the same place: refreshing opens
/// nothing and moves no driver to another place.
pub proof fn law_refresh_opens_nothing(
    old: Seq<DeviceHandleView>,
    found: Seq<UsbDeviceView>,
    n: int,
    j: int,
)
    requires
        0 <= n <= found.len() <= usize::MAX,
        0 <= j < refreshed(old, found, n).0.len(),
        refreshed(old, found, n).0[j].driver is Some,
    ensures
        exists|k: int|
            0 <= k < old.len() && (#[trigger] old[k]).driver == refreshed(
                old,
                found,
                n,
            ).0[j].driver && same_place(refreshed(old, found, n).0[j], old[k]),
    decreases n,
{
    if n > 0 {
        let (list, rest) = refreshed(old, found, n - 1);
        let list2 = refreshed(old, found, n).0;
        let d = found[n - 1];
        if d.kind() is Some {
            lemma_place_of(rest, d, 0);
            lemma_refresh_rest(old, found, n - 1);
            if j < list.len() {
                assert(list2[j] == list[j]);
                law_refresh_opens_nothing(old, found, n - 1, j);
            } else {
                let p = place_of(rest, d, 0).unwrap();
                assert(old.contains(rest[p]));
                let k = choose|k: int| 0 <= k < old.len() && old[k] == rest[p];
                assert(old[k].driver == list2[j].driver);
            }
        } else {
            law_refresh_opens_nothing(old, found, n - 1, j);
        }
    }
}

/// A driver of a device that stayed where it was is kept, provided that no two devices
/// stand at the same place.
pub proof fn law_refresh_keeps_drivers(
    old: Seq<DeviceHandleView>,
    found: Seq<UsbDeviceView>,
    n: int,
    j: int,
    k: int,
)
    requires
        0 <= n <= found.len() <= usize::MAX,
        places_distinct(old),
        places_distinct(refreshed(old, found, n).0),
        0 <= j < refreshed(old, found, n).0.len(),
        0 <= k < old.len(),
        same_place(refreshed(old, found, n).0[j], old[k]),
    ensures
        refreshed(old, found, n).0[j].driver == old[k].driver,
    decreases n,
{
    if n > 0 {
        let (list, rest) = refreshed(old, found, n - 1);
        let list2 = refreshed(old, found, n).0;
        let d = found[n - 1];
        if d.kind() is Some {
            assert forall|a: int, b: int| 0 <= a < b < list.len() implies !same_place(
                #[trigger] list[a],
                #[trigger] list[b],
            ) by {
                assert(list2[a] == list[a] && list2[b] == list[b]);
            }
            if j < list.len() {
                assert(list2[j] == list[j]);
                law_refresh_keeps_drivers(old, found, n - 1, j, k);
            } else {
                assert forall|i: int| 0 <= i < list.len() implies !same_place(
                    #[trigger] list[i],
                    old[k],
                ) by {
                    assert(list2[i] == list[i]);
                    assert(!same_place(list2[i], list2[j]));
                }
                lemma_refresh_rest(old, found, n - 1);
                lemma_place_of(rest, d, 0);
                assert(rest.contains(old[k]));
                let r = choose|r: int| 0 <= r < rest.len() && rest[r] == old[k];
                assert(d.at_place_of(rest[r]));
                let p = place_of(rest, d, 0).unwrap();
                assert(old.contains(rest[p]));
                let q = choose|q: int| 0 <= q < old.len() && old[q] == rest[p];
                assert(same_place(old[q], old[k]));
                assert(q == k);
            }
        } else {
            law_refresh_keeps_drivers(old, found, n - 1, j, k);
        }
    }
}

/// Refreshing gives no driver to two devices.
pub proof fn law_refresh_shares_no_driver(
    old: Seq<DeviceHandleView>,
    found: Seq<UsbDeviceView>,
    n: int,
)
    requires
        0 <= n <= found.len(),
        drivers_distinct(old),
    ensures
        drivers_distinct(refreshed(old, found, n).0 + refreshed(old, found, n).1),
        drivers_distinct(refreshed(old, found, n).0),
    decreases n,
{
    let (list2, rest2) = refreshed(old, found, n);
    if n > 0 {
        law_refresh_shares_no_driver(old, found, n - 1);
        let (list, rest) = refreshed(old, found, n - 1);
        let both = list + rest;
        let both2 = list2 + rest2;
        let d = found[n - 1];
        let m = list.len() as int;
        if d.kind() is Some {
            lemma_place_of(rest, d, 0);
            assert(list2.drop_last() =~= list);
            // Where each entry of the new lists stood in the old ones.
            let from = |i: int|
                match place_of(rest, d, 0) {
                    None => if i < m {
                        i
                    } else {
                        i - 1
                    },
                    Some(p) => if i < m {
                        i
                    } else if i == m {
                        m + p
                    } else if i - m - 1 < p {
                        i - 1
                    } else {
                        i
                    },
                };
            assert forall|i: int|
                0 <= i < both2.len() && (#[trigger] both2[i]).driver is Some implies 0 <= from(i)
                < both.len() && both[from(i)].driver == both2[i].driver by {
            }
            assert forall|i: int, j: int|
                0 <= i < j < both2.len() && (#[trigger] both2[i]).driver is Some implies 
            both2[i].driver != (#[trigger] both2[j]).driver by {
                if both2[j].driver is Some {
                    let (a, b) = (from(i), from(j));
                    assert(a != b);
                    if a < b {
                        assert(both[a].driver != both[b].driver);
                    } else {
                        assert(both[b].driver != both[a].driver);
                    }
                }
            }
        }
    } else {
        assert(list2 + rest2 =~= old);
    }
    assert forall|i: int, j: int|
        0 <= i < j < list2.len() && (#[trigger] list2[i]).driver is Some implies list2[i].driver
        != (#[trigger] list2[j]).driver by {
        assert((list2 + rest2)[i] == list2[i] && (list2 + rest2)[j] == list2[j]);
    }
}

/// A device is opened once: afterwards its driver is at hand, and the other entries are as
/// they were.
pub proof fn law_opened_once(
    list: Seq<DeviceHandleView>,
    idx: usize,
    driver: u64,
    other: usize,
)
    requires
        idx < list.len(),
    ensures
        driver_at(with_driver(list, idx, driver), idx) == DriverLookup::Ready(driver),
        other != idx ==> driver_at(with_driver(list, idx, driver), other) == driver_at(
            list,
            other,
        ),
        with_driver(list, idx, driver).map_values(|h: DeviceHandleView| h.info)
            == list.map_values(|h: DeviceHandleView| h.info),
{
    assert(with_driver(list, idx, driver).map_values(|h: DeviceHandleView| h.info)
        =~= list.map_values(|h: DeviceHandleView| h.info));
}

/// The devices that the daemon serves, and how their models are told apart.
pub proof fn law_kinds_of_devices(vid: u16, pid: u16, bcd: u16)
    ensures
        vid == 0x1992 && pid == 0x1972 ==> kind_of(vid, pid, bcd) == Some(
            if bcd == 0x7300 {
                DeviceKind::Appi2M
            } else if bcd == 0x0000 {
                DeviceKind::Appi
            } else {
                DeviceKind::Appi2
            },
        ),
        vid == 0x16C0 && pid == 0x05DC ==> kind_of(vid, pid, bcd) == Some(DeviceKind::Phlox),
        kind_of(vid, pid, bcd) is Some ==> (vid, pid) == (0x1992u16, 0x1972u16) || (vid, pid) == (
            0x16C0u16,
            0x05DCu16,
        ),
{
}

/// The names of the products: no two kinds share one.
pub proof fn law_products(a: DeviceKind, b: DeviceKind)
    ensures
        a.spec_product() == match a {
            DeviceKind::Appi => "АППИ"@,
            DeviceKind::Appi2 => "АППИ-2"@,
            DeviceKind::Appi2M => "АППИ-2М"@,
            DeviceKind::Phlox => "Phlox"@,
        },
        a != b ==> a.spec_product() != b.spec_product(),
{
    reveal_strlit("АППИ");
    reveal_strlit("АППИ-2");
    reveal_strlit("АППИ-2М");
    reveal_strlit("Phlox");
    assert(a != b ==> a.spec_product().len() != b.spec_product().len());
}

/// A chain of one port is its number; a longer chain is its parts with a full stop between
/// them.
pub proof fn law_port_chain(a: Seq<u8>, b: Seq<u8>, port: u8)
    ensures
        port_chain(seq![]).len() == 0,
        port_chain(seq![port]) == crate::text::decimal(port as nat),
        a.len() > 0 && b.len() > 0 ==> port_chain(a + b) == port_chain(a) + "."@ + port_chain(b),
    decreases b.len(),
{
    if a.len() > 0 && b.len() > 0 {
        let init = b.drop_last();
        assert((a + b).drop_last() =~= a + init);
        assert((a + b).last() == b.last());
        if b.len() == 1 {
            assert(a + init =~= a);
            assert(b[0] == b.last());
        } else {
            law_port_chain(a, init, port);
            assert(port_chain(a + b) =~= port_chain(a) + "."@ + port_chain(b));
        }
    }
}

/// A device is described by its numbers, its address and its chain of ports, with the
/// manufacturer that it names, or `Appi`.
pub proof fn law_description(d: UsbDeviceView, kind: DeviceKind)
    ensures
        d.info(kind).id.vid == d.vid,
        d.info(kind).id.pid == d.pid,
        d.info(kind).id.bus == d.address,
        d.info(kind).id.port == port_chain(d.ports),
        d.manufacturer matches Some(m) ==> d.info(kind).manufacturer == m,
        d.manufacturer is None ==> d.info(kind).manufacturer == "Appi"@,
        d.info(kind).product == kind.spec_product(),
        d.kind() == kind_of(d.vid, d.pid, d.bcd),
{
}

/// A device is looked for at its index: one that was opened has its driver at hand, one that
/// was not is to be opened as what it is, and behind the last there is none.
pub proof fn law_driver_lookup(list: Seq<DeviceHandleView>, idx: usize)
    ensures
        driver_at(list, idx) == DriverLookup::NotFound <==> idx >= list.len(),
        driver_at(list, idx) matches DriverLookup::Ready(d) ==> list[idx as int].driver == Some(d),
        driver_at(list, idx) matches DriverLookup::Open(raw, kind) ==> {
            &&& list[idx as int].driver is None
            &&& raw == list[idx as int].raw
            &&& kind == list[idx as int].kind
        },
{
}

/// Of two devices found at the place of an old one, the first takes over its driver.
pub proof fn law_first_found_takes_driver(
    old: DeviceHandleView,
    found: Seq<UsbDeviceView>,
    n: int,
)
    requires
        0 < n <= found.len() <= usize::MAX,
        found[0].kind() is Some,
        found[0].address == old.info.id.bus,
        port_chain(found[0].ports) == old.info.id.port,
    ensures
        refreshed(seq![old], found, n).0.len() > 0,
        refreshed(seq![old], found, n).0[0].driver == old.driver,
        forall|j: int|
            0 < j < refreshed(seq![old], found, n).0.len() ==> (#[trigger] refreshed(
                seq![old],
                found,
                n,
            ).0[j]).driver is None,
{
    lemma_first_found(old, found, n);
}

/// Once the only old entry was found again nothing is left to take over.
proof fn lemma_first_found(old: DeviceHandleView, found: Seq<UsbDeviceView>, n: int)
    requires
        0 < n <= found.len() <= usize::MAX,
        found[0].kind() is Some,
        found[0].address == old.info.id.bus,
        port_chain(found[0].ports) == old.info.id.port,
    ensures
        refreshed(seq![old], found, n).1 =~= seq![],
        refreshed(seq![old], found, n).0.len() > 0,
        refreshed(seq![old], found, n).0[0].driver == old.driver,
        forall|j: int|
            0 < j < refreshed(seq![old], found, n).0.len() ==> (#[trigger] refreshed(
                seq![old],
                found,
                n,
            ).0[j]).driver is None,
    decreases n,
{
    let one = seq![old];
    if n == 1 {
        reveal_with_fuel(refreshed, 2);
        assert(one[0] == old);
        assert(place_of(one, found[0], 0) == Some(0int));
        assert(one.remove(0) =~= seq![]);
    } else {
        lemma_first_found(old, found, n - 1);
        let (list, rest) = refreshed(one, found, n - 1);
        assert(rest.len() == 0);
        let list2 = refreshed(one, found, n).0;
        if found[n - 1].kind() is Some {
            assert(place_of(rest, found[n - 1], 0) is None);
            assert(list2.drop_last() =~= list);
            assert forall|j: int| 0 < j < list2.len() implies (#[trigger] list2[j]).driver is None by {
                if j < list.len() {
                    assert(list2[j] == list[j]);
                }
            }
        }
    }
}

/// A device has five seconds to open.
pub proof fn law_open_timeout()
    ensures
        OPEN_TIMEOUT_MS == 5 * 1000,
{
}

} // verus!
