//! How a device is named and described.

use vstd::prelude::*;
use crate::text::{push_decimal, push_hex4};

verus! {

/// What tells one connected device from another.
#[derive(Debug, Clone, PartialEq, Eq, Hash)]
pub struct DeviceId {
    pub vid: u16,
    pub pid: u16,
    pub bus: u8,
    pub port: String,
}

/// A [`DeviceId`] with its port as a character sequence.
#[verifier::ext_equal]
pub struct DeviceIdView {
    pub vid: u16,
    pub pid: u16,
    pub bus: u8,
    pub port: Seq<char>,
}

impl View for DeviceId {
    type V = DeviceIdView;

    open spec fn view(&self) -> DeviceIdView {
        DeviceIdView { vid: self.vid, pid: self.pid, bus: self.bus, port: self.port@ }
    }
}

impl DeviceIdView {
    /// The key of the device: `VVVV:PPPP@bus.port`.
    pub open spec fn key(self) -> Seq<char> {
        crate::text::hex4(self.vid) + ":"@ + crate::text::hex4(self.pid) + "@"@
            + crate::text::decimal(self.bus as nat) + "."@ + self.port
    }
}

impl DeviceId {
    /// The key of the device.
    pub fn key(&self) -> (s: String)
        ensures
            s@ == self@.key(),
    {
        let mut s = String::new();
        push_hex4(&mut s, self.vid);
        s.append(":");
        push_hex4(&mut s, self.pid);
        s.append("@");
        push_decimal(&mut s, self.bus as u64);
        s.append(".");
        s.append(self.port.as_str());
        assert(s@ =~= self@.key());
        s
    }

    /// A copy of the identity.
    pub fn copy(&self) -> (d: Self)
        ensures
            d@ == self@,
    {
        DeviceId { vid: self.vid, pid: self.pid, bus: self.bus, port: self.port.clone() }
    }
}

/// Two devices have the same key only if they are the same.
pub proof fn law_key_identifies(a: DeviceIdView, b: DeviceIdView)
    requires
        a.key() == b.key(),
    ensures
        a == b,
{
    reveal_strlit(":");
    reveal_strlit("@");
    reveal_strlit(".");
    let (x, y) = (a.key(), b.key());
    let (da, db) = (
        crate::text::decimal(a.bus as nat),
        crate::text::decimal(b.bus as nat),
    );
    assert(crate::text::hex4(a.vid) =~= x.subrange(0, 4));
    assert(crate::text::hex4(b.vid) =~= y.subrange(0, 4));
    crate::text::lemma_hex4_injective(a.vid, b.vid);
    assert(crate::text::hex4(a.pid) =~= x.subrange(5, 9));
    assert(crate::text::hex4(b.pid) =~= y.subrange(5, 9));
    crate::text::lemma_hex4_injective(a.pid, b.pid);
    crate::text::lemma_decimal_digits(a.bus as nat);
    crate::text::lemma_decimal_digits(b.bus as nat);
    let (la, lb) = (da.len() as int, db.len() as int);
    assert(forall|i: int| 0 <= i < la ==> x[10 + i] == da[i]);
    assert(forall|i: int| 0 <= i < lb ==> y[10 + i] == db[i]);
    assert(x[10 + la] == '.');
    assert(y[10 + lb] == '.');
    if la < lb {
        assert(y[10 + la] == db[la]);
    } else if lb < la {
        assert(x[10 + lb] == da[lb]);
    }
    assert(da =~= db) by {
        assert forall|i: int| 0 <= i < la implies da[i] == db[i] by {
            assert(x[10 + i] == y[10 + i]);
        }
    }
    crate::text::lemma_decimal_injective(a.bus as nat, b.bus as nat);
    assert(a.port =~= x.skip(11 + la));
    assert(b.port =~= y.skip(11 + lb));
}

/// A connected device, as clients see it.
#[derive(Debug, Clone)]
pub struct DeviceInfo {
    pub id: DeviceId,
    pub manufacturer: String,
    pub product: String,
}

/// A [`DeviceInfo`] with its texts as character sequences.
#[verifier::ext_equal]
pub struct DeviceInfoView {
    pub id: DeviceIdView,
    pub manufacturer: Seq<char>,
    pub product: Seq<char>,
}

impl View for DeviceInfo {
    type V = DeviceInfoView;

    open spec fn view(&self) -> DeviceInfoView {
        DeviceInfoView {
            id: self.id@,
            manufacturer: self.manufacturer@,
            product: self.product@,
        }
    }
}

impl DeviceInfo {
    /// A copy of the description.
    pub fn copy(&self) -> (d: Self)
        ensures
            d@ == self@,
    {
        DeviceInfo {
            id: self.id.copy(),
            manufacturer: self.manufacturer.clone(),
            product: self.product.clone(),
        }
    }
}

/// The descriptions of a list, by their views.
pub open spec fn info_views(list: Seq<DeviceInfo>) -> Seq<DeviceInfoView> {
    list.map_values(|d: DeviceInfo| d@)
}

/// A key reads: vendor and product in four hexadecimal digits each, with a colon between them,
/// an at sign, the bus in decimal, a full stop and the port.
pub proof fn law_key_reads(d: DeviceIdView)
    ensures
        d.key().len() > 10,
        crate::text::digits_value(d.key().subrange(0, 4), 16) == d.vid,
        d.key()[4] == ':',
        crate::text::digits_value(d.key().subrange(5, 9), 16) == d.pid,
        d.key()[9] == '@',
        ({
            let n = crate::text::decimal(d.bus as nat).len() as int;
            &&& crate::text::digits_value(d.key().subrange(10, 10 + n), 10) == d.bus
            &&& d.key()[10 + n] == '.'
            &&& d.key().skip(11 + n) == d.port
        }),
{
    reveal_strlit(":");
    reveal_strlit("@");
    reveal_strlit(".");
    let bus = crate::text::decimal(d.bus as nat);
    let n = bus.len() as int;
    crate::text::law_decimal_reads_back(d.bus as nat);
    crate::text::law_hex_reads_back(0, d.vid);
    crate::text::law_hex_reads_back(0, d.pid);
    assert(d.key().subrange(0, 4) =~= crate::text::hex4(d.vid));
    assert(d.key().subrange(5, 9) =~= crate::text::hex4(d.pid));
    assert(d.key().subrange(10, 10 + n) =~= bus);
    assert(d.key().skip(11 + n) =~= d.port);
}

} // verus!
