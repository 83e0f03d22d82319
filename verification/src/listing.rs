//! The lists that answers carry: a number of entries in sixteen bits, then the entries.

use vstd::prelude::*;
use crate::bytes::u16_to_be;
use crate::device_info::{DeviceInfo, DeviceInfoView};
use crate::session::{SessionInfo, SessionInfoView};
use crate::types::{CanFrame, CanFrameView};

verus! {

/// A text with its length before it; the length has eight bits.
pub open spec fn short_text(text: Seq<char>) -> Seq<u8> {
    let bytes = vstd::utf8::encode_utf8(text);
    seq![(bytes.len() % 256) as u8] + bytes
}

/// Appends a text with its length before it.
fn push_short_text(p: &mut Vec<u8>, text: &str)
    ensures
        final(p)@ == old(p)@ + short_text(text@),
{
    let bytes = text.as_bytes();
    p.push((bytes.len() % 256) as u8);
    p.extend_from_slice(bytes);
    assert(p@ =~= old(p)@ + short_text(text@));
}

/// Appends a 16-bit number.
fn push_u16(p: &mut Vec<u8>, v: u16)
    ensures
        final(p)@ == old(p)@ + crate::bytes::be16(v),
{
    p.extend_from_slice(u16_to_be(v).as_slice());
    assert(p@ =~= old(p)@ + crate::bytes::be16(v));
}

/// The number of items of a list, in sixteen bits.
pub open spec fn count(n: nat) -> Seq<u8> {
    crate::bytes::be16((n % 65536) as u16)
}

/// Where a device is: `[vid:u16][pid:u16][bus:u8][len:u8][port]`.
pub open spec fn device_place(d: DeviceInfoView) -> Seq<u8> {
    crate::bytes::be16(d.id.vid) + crate::bytes::be16(d.id.pid) + seq![d.id.bus] + short_text(
        d.id.port,
    )
}

/// One device of a list: its index, its place, its manufacturer and its product.
pub open spec fn device_entry(i: nat, d: DeviceInfoView) -> Seq<u8> {
    count(i) + device_place(d) + short_text(d.manufacturer) + short_text(d.product)
}

/// One session of a list: its identifier, its device and its key.
pub open spec fn session_entry(s: SessionInfoView) -> Seq<u8> {
    crate::bytes::be16(s.id) + count(s.device_idx as nat) + short_text(s.device_key)
}

/// Entries one after the other. The way to write an entry may depend on its index.
pub open spec fn entries<T>(list: Seq<T>, entry: spec_fn(nat, T) -> Seq<u8>) -> Seq<u8>
    decreases list.len(),
{
    if list.len() == 0 {
        seq![]
    } else {
        entries(list.drop_last(), entry) + entry((list.len() - 1) as nat, list.last())
    }
}

/// A list: the number of its entries, and the entries.
pub open spec fn listing<T>(list: Seq<T>, entry: spec_fn(nat, T) -> Seq<u8>) -> Seq<u8> {
    count(list.len()) + entries(list, entry)
}

/// A list of devices.
pub open spec fn device_list(list: Seq<DeviceInfoView>) -> Seq<u8> {
    listing(list, |i: nat, d: DeviceInfoView| device_entry(i, d))
}

/// A list of sessions.
pub open spec fn session_list(list: Seq<SessionInfoView>) -> Seq<u8> {
    listing(list, |_i: nat, s: SessionInfoView| session_entry(s))
}

/// A list of frames, each as a line of text.
pub open spec fn frame_list(list: Seq<CanFrameView>) -> Seq<u8> {
    listing(list, |_i: nat, f: CanFrameView| short_text(f.hex_line()))
}

/// Appends the place of a device.
pub fn push_device_place(p: &mut Vec<u8>, d: &DeviceInfo)
    ensures
        final(p)@ == old(p)@ + device_place(d@),
{
    push_u16(p, d.id.vid);
    push_u16(p, d.id.pid);
    p.push(d.id.bus);
    push_short_text(p, d.id.port.as_str());
    assert(p@ =~= old(p)@ + device_place(d@));
}

/// The payload that lists devices.
pub fn device_payload(list: &[DeviceInfo]) -> (p: Vec<u8>)
    ensures
        p@ == device_list(crate::device_info::info_views(list@)),
{
    let mut p: Vec<u8> = Vec::new();
    let ghost views = crate::device_info::info_views(list@);
    let ghost entry = |i: nat, d: DeviceInfoView| device_entry(i, d);
    push_u16(&mut p, (list.len() % 65536) as u16);
    assert(p@ =~= count(list@.len()) + entries(views.take(0), entry));
    for i in 0..list.len()
        invariant
            views == crate::device_info::info_views(list@),
            entry == |i: nat, d: DeviceInfoView| device_entry(i, d),
            p@ == count(list@.len()) + entries(views.take(i as int), entry),
    {
        let d = &list[i];
        push_u16(&mut p, (i % 65536) as u16);
        push_device_place(&mut p, d);
        push_short_text(&mut p, d.manufacturer.as_str());
        push_short_text(&mut p, d.product.as_str());
        assert(views.take(i + 1).drop_last() =~= views.take(i as int));
        assert(views.take(i + 1).last() == d@);
        assert(p@ =~= count(list@.len()) + entries(views.take(i + 1), entry));
    }
    assert(views.take(list@.len() as int) =~= views);
    p
}

/// The payload that lists sessions.
pub fn session_payload(list: &[SessionInfo]) -> (p: Vec<u8>)
    ensures
        p@ == session_list(crate::session::session_views(list@)),
{
    let mut p: Vec<u8> = Vec::new();
    let ghost views = crate::session::session_views(list@);
    let ghost entry = |_i: nat, s: SessionInfoView| session_entry(s);
    push_u16(&mut p, (list.len() % 65536) as u16);
    assert(p@ =~= count(list@.len()) + entries(views.take(0), entry));
    for i in 0..list.len()
        invariant
            views == crate::session::session_views(list@),
            entry == |_i: nat, s: SessionInfoView| session_entry(s),
            p@ == count(list@.len()) + entries(views.take(i as int), entry),
    {
        let s = &list[i];
        push_u16(&mut p, s.id);
        push_u16(&mut p, (s.device_idx % 65536) as u16);
        push_short_text(&mut p, s.device_key.as_str());
        assert(views.take(i + 1).drop_last() =~= views.take(i as int));
        assert(views.take(i + 1).last() == s@);
        assert(p@ =~= count(list@.len()) + entries(views.take(i + 1), entry));
    }
    assert(views.take(list@.len() as int) =~= views);
    p
}

/// The payload that lists frames.
pub fn frame_payload(list: &[CanFrame]) -> (p: Vec<u8>)
    ensures
        p@ == frame_list(crate::devices::appi_common::frame_views(list@)),
{
    let mut p: Vec<u8> = Vec::new();
    let ghost views = crate::devices::appi_common::frame_views(list@);
    let ghost entry = |_i: nat, f: CanFrameView| short_text(f.hex_line());
    push_u16(&mut p, (list.len() % 65536) as u16);
    assert(p@ =~= count(list@.len()) + entries(views.take(0), entry));
    for i in 0..list.len()
        invariant
            views == crate::devices::appi_common::frame_views(list@),
            entry == |_i: nat, f: CanFrameView| short_text(f.hex_line()),
            p@ == count(list@.len()) + entries(views.take(i as int), entry),
    {
        let line = list[i].to_hex_line();
        push_short_text(&mut p, line.as_str());
        assert(views.take(i + 1).drop_last() =~= views.take(i as int));
        assert(views.take(i + 1).last() == list@[i as int]@);
        assert(p@ =~= count(list@.len()) + entries(views.take(i + 1), entry));
    }
    assert(views.take(list@.len() as int) =~= views);
    p
}

/// The first entries of a list stand first.
proof fn lemma_entries_prefix<T>(list: Seq<T>, entry: spec_fn(nat, T) -> Seq<u8>, k: int)
    requires
        0 <= k <= list.len(),
    ensures
        entries(list.take(k), entry).is_prefix_of(entries(list, entry)),
    decreases list.len(),
{
    if k == list.len() {
        assert(list.take(k) =~= list);
    } else {
        lemma_entries_prefix(list.drop_last(), entry, k);
        assert(list.drop_last().take(k) =~= list.take(k));
    }
}

/// Two lists whose entries read the same start the same, provided that no entry can be taken
/// for another.
proof fn lemma_entries_identify<T>(
    a: Seq<T>,
    b: Seq<T>,
    entry: spec_fn(nat, T) -> Seq<u8>,
    k: int,
)
    requires
        a.len() == b.len(),
        0 <= k <= a.len(),
        entries(a, entry) == entries(b, entry),
        forall|i: int, t: Seq<u8>|
            0 <= i < a.len() && #[trigger] entry(i as nat, a[i]).is_prefix_of(t) && entry(
                i as nat,
                b[i],
            ).is_prefix_of(t) ==> a[i] == b[i],
    ensures
        a.take(k) == b.take(k),
    decreases k,
{
    if k > 0 {
        let i = k - 1;
        lemma_entries_identify(a, b, entry, i);
        lemma_entries_prefix(a, entry, k);
        lemma_entries_prefix(b, entry, k);
        assert(a.take(k).drop_last() =~= a.take(i));
        assert(b.take(k).drop_last() =~= b.take(i));
        let all = entries(a, entry);
        let n = entries(a.take(i), entry).len() as int;
        let t = all.skip(n);
        let (x, y) = (entry(i as nat, a[i]), entry(i as nat, b[i]));
        assert(entries(a.take(k), entry) == entries(a.take(i), entry) + x);
        assert(entries(b.take(k), entry) == entries(b.take(i), entry) + y);
        assert(all.subrange(0, n + x.len()) =~= entries(a.take(i), entry) + x);
        assert(all.subrange(0, n + y.len()) =~= entries(b.take(i), entry) + y);
        assert(x =~= all.subrange(0, n + x.len()).skip(n));
        assert(y =~= all.subrange(0, n + y.len()).skip(n));
        assert(x =~= t.subrange(0, x.len() as int));
        assert(y =~= t.subrange(0, y.len() as int));
        assert(entry(i as nat, a[i]).is_prefix_of(t));
        assert(a.take(k) =~= b.take(k));
    }
}

/// What starts with two parts starts with the first, and goes on with the second.
proof fn lemma_split(x: Seq<u8>, y: Seq<u8>, t: Seq<u8>)
    requires
        (x + y).is_prefix_of(t),
    ensures
        x.is_prefix_of(t),
        y.is_prefix_of(t.skip(x.len() as int)),
{
    let xy = t.subrange(0, (x + y).len() as int);
    assert(x =~= xy.subrange(0, x.len() as int));
    assert(x =~= t.subrange(0, x.len() as int));
    assert(y =~= xy.skip(x.len() as int));
    assert(y =~= t.skip(x.len() as int).subrange(0, y.len() as int));
}

/// Whether the length of a text fits in eight bits.
pub open spec fn is_short(text: Seq<char>) -> bool {
    vstd::utf8::encode_utf8(text).len() < 256
}

/// No text can be taken for another.
proof fn lemma_short_text(a: Seq<char>, b: Seq<char>, t: Seq<u8>)
    requires
        is_short(a),
        is_short(b),
        short_text(a).is_prefix_of(t),
        short_text(b).is_prefix_of(t),
    ensures
        a == b,
{
    let (x, y) = (vstd::utf8::encode_utf8(a), vstd::utf8::encode_utf8(b));
    assert(short_text(a)[0] == t[0] && short_text(b)[0] == t[0]);
    assert(x.len() == y.len());
    lemma_split(seq![(x.len() % 256) as u8], x, t);
    lemma_split(seq![(y.len() % 256) as u8], y, t);
    vstd::utf8::encode_utf8_decode_utf8(a);
    vstd::utf8::encode_utf8_decode_utf8(b);
}

/// Equal lists have as many entries, and entries that read the same.
proof fn lemma_listing<T>(a: Seq<T>, b: Seq<T>, entry: spec_fn(nat, T) -> Seq<u8>)
    requires
        a.len() < 65536,
        b.len() < 65536,
        listing(a, entry) == listing(b, entry),
    ensures
        a.len() == b.len(),
        entries(a, entry) == entries(b, entry),
{
    let (x, y) = (listing(a, entry), listing(b, entry));
    crate::bytes::law_be16_round_trip(a.len() as u16, 0, 0);
    crate::bytes::law_be16_round_trip(b.len() as u16, 0, 0);
    assert(count(a.len()) =~= x.subrange(0, 2));
    assert(count(b.len()) =~= y.subrange(0, 2));
    assert(entries(a, entry) =~= x.skip(2));
    assert(entries(b, entry) =~= y.skip(2));
}

/// Whether every text of a device's description is short.
pub open spec fn is_short_device(d: DeviceInfoView) -> bool {
    is_short(d.id.port) && is_short(d.manufacturer) && is_short(d.product)
}

/// A list of devices tells which devices it lists, provided that there are fewer than 65536
/// and that their texts are short.
pub proof fn law_device_list_identifies(a: Seq<DeviceInfoView>, b: Seq<DeviceInfoView>)
    requires
        a.len() < 65536,
        b.len() < 65536,
        forall|i: int| 0 <= i < a.len() ==> is_short_device(#[trigger] a[i]),
        forall|i: int| 0 <= i < b.len() ==> is_short_device(#[trigger] b[i]),
        device_list(a) == device_list(b),
    ensures
        a == b,
{
    let entry = |i: nat, d: DeviceInfoView| device_entry(i, d);
    lemma_listing(a, b, entry);
    assert forall|i: int, t: Seq<u8>|
        0 <= i < a.len() && #[trigger] entry(i as nat, a[i]).is_prefix_of(t) && entry(
            i as nat,
            b[i],
        ).is_prefix_of(t) implies a[i] == b[i] by {
        lemma_device_entry(i as nat, a[i], b[i], t);
    }
    lemma_entries_identify(a, b, entry, a.len() as int);
    assert(a.take(a.len() as int) =~= a);
    assert(b.take(b.len() as int) =~= b);
}

/// No device of a list can be taken for another.
proof fn lemma_device_entry(i: nat, a: DeviceInfoView, b: DeviceInfoView, t: Seq<u8>)
    requires
        is_short_device(a),
        is_short_device(b),
        device_entry(i, a).is_prefix_of(t),
        device_entry(i, b).is_prefix_of(t),
    ensures
        a == b,
{
    let head_a = count(i) + crate::bytes::be16(a.id.vid) + crate::bytes::be16(a.id.pid)
        + seq![a.id.bus];
    let head_b = count(i) + crate::bytes::be16(b.id.vid) + crate::bytes::be16(b.id.pid)
        + seq![b.id.bus];
    let (port_a, port_b) = (short_text(a.id.port), short_text(b.id.port));
    let (man_a, man_b) = (short_text(a.manufacturer), short_text(b.manufacturer));
    let (prod_a, prod_b) = (short_text(a.product), short_text(b.product));
    assert(device_entry(i, a) =~= head_a + (port_a + (man_a + prod_a)));
    assert(device_entry(i, b) =~= head_b + (port_b + (man_b + prod_b)));
    lemma_split(head_a, port_a + (man_a + prod_a), t);
    lemma_split(head_b, port_b + (man_b + prod_b), t);
    assert(head_a =~= head_b);
    assert(head_a[2] == head_b[2] && head_a[3] == head_b[3]);
    assert(head_a[4] == head_b[4] && head_a[5] == head_b[5]);
    assert(head_a[6] == a.id.bus && head_b[6] == b.id.bus);
    crate::bytes::law_be16_round_trip(a.id.vid, 0, 0);
    crate::bytes::law_be16_round_trip(b.id.vid, 0, 0);
    crate::bytes::law_be16_round_trip(a.id.pid, 0, 0);
    crate::bytes::law_be16_round_trip(b.id.pid, 0, 0);
    let t1 = t.skip(7);
    lemma_split(port_a, man_a + prod_a, t1);
    lemma_split(port_b, man_b + prod_b, t1);
    lemma_short_text(a.id.port, b.id.port, t1);
    let t2 = t1.skip(port_a.len() as int);
    lemma_split(man_a, prod_a, t2);
    lemma_split(man_b, prod_b, t2);
    lemma_short_text(a.manufacturer, b.manufacturer, t2);
    lemma_short_text(a.product, b.product, t2.skip(man_a.len() as int));
    assert(a =~= b);
}

/// A list of sessions tells the identifier, the device and the key of every session,
/// provided that there are fewer than 65536, that their devices have indices below 65536 and
/// that their keys are short.
pub proof fn law_session_list_identifies(a: Seq<SessionInfoView>, b: Seq<SessionInfoView>)
    requires
        a.len() < 65536,
        b.len() < 65536,
        forall|i: int|
            0 <= i < a.len() ==> is_short((#[trigger] a[i]).device_key) && a[i].device_idx < 65536,
        forall|i: int|
            0 <= i < b.len() ==> is_short((#[trigger] b[i]).device_key) && b[i].device_idx < 65536,
        forall|i: int, j: int|
            0 <= i < a.len() && 0 <= j < b.len() ==> (#[trigger] a[i]).client_id == (#[trigger]
            b[j]).client_id,
        session_list(a) == session_list(b),
    ensures
        a == b,
{
    let entry = |_i: nat, s: SessionInfoView| session_entry(s);
    lemma_listing(a, b, entry);
    assert forall|i: int, t: Seq<u8>|
        0 <= i < a.len() && #[trigger] entry(i as nat, a[i]).is_prefix_of(t) && entry(
            i as nat,
            b[i],
        ).is_prefix_of(t) implies a[i] == b[i] by {
        let (x, y) = (a[i], b[i]);
        let head_x = crate::bytes::be16(x.id) + count(x.device_idx as nat);
        let head_y = crate::bytes::be16(y.id) + count(y.device_idx as nat);
        assert(session_entry(x) == head_x + short_text(x.device_key));
        assert(session_entry(y) == head_y + short_text(y.device_key));
        lemma_split(head_x, short_text(x.device_key), t);
        lemma_split(head_y, short_text(y.device_key), t);
        assert(head_x =~= head_y);
        assert(head_x[0] == head_y[0] && head_x[1] == head_y[1]);
        assert(head_x[2] == head_y[2] && head_x[3] == head_y[3]);
        crate::bytes::law_be16_round_trip(x.id, 0, 0);
        crate::bytes::law_be16_round_trip(y.id, 0, 0);
        crate::bytes::law_be16_round_trip(x.device_idx as u16, 0, 0);
        crate::bytes::law_be16_round_trip(y.device_idx as u16, 0, 0);
        lemma_short_text(x.device_key, y.device_key, t.skip(4));
        assert(x =~= y);
    }
    lemma_entries_identify(a, b, entry, a.len() as int);
    assert(a.take(a.len() as int) =~= a);
    assert(b.take(b.len() as int) =~= b);
}

/// Whether a frame keeps its identifier and its size in its descriptor.
pub open spec fn is_plain(f: CanFrameView) -> bool {
    f.id < 2048 && f.size < 16 && f.data.len() == 8
}

/// A list of frames tells which frames it lists, provided that there are fewer than 65536
/// and that their identifiers have eleven bits and their sizes four.
pub proof fn law_frame_list_identifies(a: Seq<CanFrameView>, b: Seq<CanFrameView>)
    requires
        a.len() < 65536,
        b.len() < 65536,
        forall|i: int| 0 <= i < a.len() ==> is_plain(#[trigger] a[i]),
        forall|i: int| 0 <= i < b.len() ==> is_plain(#[trigger] b[i]),
        frame_list(a) == frame_list(b),
    ensures
        a == b,
{
    let entry = |_i: nat, f: CanFrameView| short_text(f.hex_line());
    lemma_listing(a, b, entry);
    assert forall|i: int, t: Seq<u8>|
        0 <= i < a.len() && #[trigger] entry(i as nat, a[i]).is_prefix_of(t) && entry(
            i as nat,
            b[i],
        ).is_prefix_of(t) implies a[i] == b[i] by {
        crate::types::law_hex_line_identifies(a[i], b[i]);
        crate::types::law_hex_line_identifies(b[i], a[i]);
        crate::text::lemma_utf8_length(a[i].hex_line());
        crate::text::lemma_utf8_length(b[i].hex_line());
        lemma_short_text(a[i].hex_line(), b[i].hex_line(), t);
    }
    lemma_entries_identify(a, b, entry, a.len() as int);
    assert(a.take(a.len() as int) =~= a);
    assert(b.take(b.len() as int) =~= b);
}

/// A text is written with its length in bytes before it, and reads back.
pub proof fn law_short_text(text: Seq<char>)
    ensures
        short_text(text)[0] == vstd::utf8::encode_utf8(text).len() % 256,
        vstd::utf8::decode_utf8(short_text(text).skip(1)) == text,
        is_short(text) ==> short_text(text).len() == 1 + short_text(text)[0],
{
    assert(short_text(text).skip(1) =~= vstd::utf8::encode_utf8(text));
    vstd::utf8::encode_utf8_decode_utf8(text);
}

/// A number of entries takes two bytes, the heavier first, and wraps at 65536.
pub proof fn law_count(n: nat)
    ensures
        count(n).len() == 2,
        256 * count(n)[0] + count(n)[1] == n % 65536,
{
    crate::bytes::law_bytes_weigh((n % 65536) as u16, 0, 0, 0, 0, 0);
}

/// A device is written as vendor, product and bus, then its port; in a list its index comes
/// before that, its manufacturer and its product after it.
pub proof fn law_device_entry_layout(i: nat, d: DeviceInfoView)
    ensures
        256 * device_place(d)[0] + device_place(d)[1] == d.id.vid,
        256 * device_place(d)[2] + device_place(d)[3] == d.id.pid,
        device_place(d)[4] == d.id.bus,
        device_place(d).skip(5) == short_text(d.id.port),
        256 * device_entry(i, d)[0] + device_entry(i, d)[1] == i % 65536,
        device_entry(i, d).skip(2) == device_place(d) + short_text(d.manufacturer) + short_text(
            d.product,
        ),
{
    law_count(i);
    crate::bytes::law_bytes_weigh(d.id.vid, 0, 0, 0, 0, 0);
    crate::bytes::law_bytes_weigh(d.id.pid, 0, 0, 0, 0, 0);
    let p = device_place(d);
    assert(p[0] == crate::bytes::be16(d.id.vid)[0] && p[1] == crate::bytes::be16(d.id.vid)[1]);
    assert(p[2] == crate::bytes::be16(d.id.pid)[0] && p[3] == crate::bytes::be16(d.id.pid)[1]);
    assert(p.skip(5) =~= short_text(d.id.port));
    let e = device_entry(i, d);
    assert(e[0] == count(i)[0] && e[1] == count(i)[1]);
    assert(e.skip(2) =~= p + short_text(d.manufacturer) + short_text(d.product));
}

/// A session is written as its identifier, the index of its device and its key.
pub proof fn law_session_entry_layout(s: SessionInfoView)
    ensures
        256 * session_entry(s)[0] + session_entry(s)[1] == s.id,
        256 * session_entry(s)[2] + session_entry(s)[3] == s.device_idx % 65536,
        session_entry(s).skip(4) == short_text(s.device_key),
{
    law_count(s.device_idx as nat);
    crate::bytes::law_bytes_weigh(s.id, 0, 0, 0, 0, 0);
    let e = session_entry(s);
    let idx = count(s.device_idx as nat);
    assert(e[0] == crate::bytes::be16(s.id)[0] && e[1] == crate::bytes::be16(s.id)[1]);
    assert(e[2] == idx[0] && e[3] == idx[1]);
    assert(e.skip(4) =~= short_text(s.device_key));
}

/// Each entry of a list stands behind those before it, and nothing stands between them: the
/// list without its last entry starts with another count and is otherwise what comes before
/// that entry.
pub proof fn law_lists_grow_at_the_end(
    devices: Seq<DeviceInfoView>,
    d: DeviceInfoView,
    sessions: Seq<SessionInfoView>,
    s: SessionInfoView,
    frames: Seq<CanFrameView>,
    f: CanFrameView,
)
    ensures
        device_list(devices.push(d)) == count(devices.len() + 1) + device_list(devices).skip(2)
            + device_entry(devices.len(), d),
        session_list(sessions.push(s)) == count(sessions.len() + 1) + session_list(sessions).skip(2)
            + session_entry(s),
        frame_list(frames.push(f)) == count(frames.len() + 1) + frame_list(frames).skip(2)
            + short_text(f.hex_line()),
        device_list(seq![]) == seq![0u8, 0u8],
        session_list(seq![]) == seq![0u8, 0u8],
        frame_list(seq![]) == seq![0u8, 0u8],
{
    lemma_listing_grows(devices, d, |i: nat, d: DeviceInfoView| device_entry(i, d));
    lemma_listing_grows(sessions, s, |_i: nat, s: SessionInfoView| session_entry(s));
    lemma_listing_grows(frames, f, |_i: nat, f: CanFrameView| short_text(f.hex_line()));
    assert(device_list(seq![]) =~= seq![0u8, 0u8]);
    assert(session_list(seq![]) =~= seq![0u8, 0u8]);
    assert(frame_list(seq![]) =~= seq![0u8, 0u8]);
}

/// One more entry.
proof fn lemma_listing_grows<T>(list: Seq<T>, x: T, entry: spec_fn(nat, T) -> Seq<u8>)
    ensures
        listing(list.push(x), entry) == count(list.len() + 1) + listing(list, entry).skip(2)
            + entry(list.len(), x),
{
    assert(list.push(x).drop_last() =~= list);
    assert(listing(list, entry).skip(2) =~= entries(list, entry));
    assert(listing(list.push(x), entry) =~= count(list.len() + 1) + listing(list, entry).skip(2)
        + entry(list.len(), x));
}

} // verus!
