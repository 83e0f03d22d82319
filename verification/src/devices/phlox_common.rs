//! The Phlox protocol: CRC-8, frames `ID | len | CRC8 | data`, and the handshake of the
//! Master module.
//!
//! A frame is no single USB packet but an element of a byte stream: several frames may
//! arrive in one USB transaction, and one frame may be cut into several. Parsing therefore
//! works on a buffer that accumulates what has arrived. Fields of several bytes are
//! big-endian.

use vstd::prelude::*;
use crate::bytes::{u16_from_be, u16_to_be, u32_from_be};
use crate::error::{DeviceError, DeviceErrorView};
use crate::text::push_hex2;

verus! {

pub const MODULE_MASTER: u8 = 0;

pub const MODULE_CAN1: u8 = 1;

pub const MODULE_CAN2: u8 = 2;

pub const MODULE_CAN3: u8 = 3;

pub const MODULE_CAN4: u8 = 4;

pub const MODULE_CANTECH: u8 = 5;

pub const MODULE_UART1: u8 = 6;

pub const MODULE_UART2: u8 = 7;

pub const MODULE_UART3: u8 = 8;

pub const MODULE_UART4: u8 = 9;

pub const MODULE_GEN1: u8 = 10;

pub const MODULE_GEN2: u8 = 11;

pub const MODULE_ERROR: u8 = 128;

pub const MASTER_TYPE_DEVICE_INFO: u8 = 0x01;

pub const MASTER_TYPE_START: u8 = 0x01;

/// One bit of the CRC division, with the polynomial 0x31.
pub open spec fn crc_bit(crc: u8) -> u8 {
    if crc & 0x80 != 0 {
        (crc << 1u8) ^ 0x31
    } else {
        crc << 1u8
    }
}

/// `n` bits of the CRC division.
pub open spec fn crc_bits(crc: u8, n: nat) -> u8
    decreases n,
{
    if n == 0 {
        crc
    } else {
        crc_bit(crc_bits(crc, (n - 1) as nat))
    }
}

/// The CRC-8 of a block: polynomial 0x31, initial value 0xFF, no reflection, no final
/// inversion.
pub open spec fn crc(block: Seq<u8>) -> u8
    decreases block.len(),
{
    if block.len() == 0 {
        0xFF
    } else {
        crc_bits(crc(block.drop_last()) ^ block.last(), 8)
    }
}

/// The CRC-8 of a block; that of the digits `123456789` is `0xF7`.
pub fn crc8(block: &[u8]) -> (c: u8)
    ensures
        c == crc(block@),
{
    let mut c: u8 = 0xFF;
    assert(block@.take(0) =~= Seq::<u8>::empty());
    for i in 0..block.len()
        invariant
            c == crc(block@.take(i as int)),
    {
        assert(block@.take(i + 1).drop_last() =~= block@.take(i as int));
        c = c ^ block[i];
        let ghost start = c;
        for n in 0..8u8
            invariant
                c == crc_bits(start, n as nat),
        {
            c = if c & 0x80 != 0 {
                (c << 1u8) ^ 0x31
            } else {
                c << 1u8
            };
        }
    }
    assert(block@.take(block@.len() as int) =~= block@);
    c
}

/// One bit of the division loses nothing.
proof fn lemma_crc_bits_injective(x: u8, y: u8, n: nat)
    requires
        crc_bits(x, n) == crc_bits(y, n),
    ensures
        x == y,
    decreases n,
{
    if n > 0 {
        let a = crc_bits(x, (n - 1) as nat);
        let b = crc_bits(y, (n - 1) as nat);
        assert(crc_bit(a) == crc_bit(b) ==> a == b) by (bit_vector);
        lemma_crc_bits_injective(x, y, (n - 1) as nat);
    }
}

/// The CRC of a block changes when any one of its bytes does.
pub proof fn law_crc_detects_one_byte(block: Seq<u8>, k: int, b: u8)
    requires
        0 <= k < block.len(),
        b != block[k],
    ensures
        crc(block.update(k, b)) != crc(block),
    decreases block.len(),
{
    let changed = block.update(k, b);
    let before = crc(block.drop_last());
    let x = before ^ block.last();
    if k == block.len() - 1 {
        assert(changed.drop_last() =~= block.drop_last());
        let last = block.last();
        assert(before ^ last == before ^ b ==> last == b) by (bit_vector);
        if crc(changed) == crc(block) {
            lemma_crc_bits_injective(x, before ^ b, 8);
        }
    } else {
        assert(changed.drop_last() =~= block.drop_last().update(k, b));
        law_crc_detects_one_byte(block.drop_last(), k, b);
        let other = crc(changed.drop_last());
        let last = block.last();
        assert(before ^ last == other ^ last ==> before == other) by (bit_vector);
        if crc(changed) == crc(block) {
            lemma_crc_bits_injective(x, other ^ last, 8);
        }
    }
}

/// A frame: the module it belongs to, and its data.
#[derive(Debug, Clone, PartialEq, Eq)]
pub struct Frame {
    pub module_id: u8,
    pub data: Vec<u8>,
}

/// A [`Frame`] with its data as a sequence.
#[verifier::ext_equal]
pub struct FrameView {
    pub module_id: u8,
    pub data: Seq<u8>,
}

impl View for Frame {
    type V = FrameView;

    open spec fn view(&self) -> FrameView {
        FrameView { module_id: self.module_id, data: self.data@ }
    }
}

/// The first three bytes of a frame: the module and the length of the data.
pub open spec fn header(module_id: u8, len: u16) -> Seq<u8> {
    seq![module_id] + crate::bytes::be16(len)
}

/// The bytes of a frame. The length field has sixteen bits.
pub open spec fn encoded(module_id: u8, data: Seq<u8>) -> Seq<u8> {
    let h = header(module_id, (data.len() % 65536) as u16);
    h + seq![crc(h)] + data
}

/// Writes the frame `ID | len (2, BE) | CRC8 | data`.
pub fn encode_frame(module_id: u8, data: &[u8]) -> (out: Vec<u8>)
    ensures
        out@ == encoded(module_id, data@),
{
    let len_be = u16_to_be((data.len() % 65536) as u16);
    let head = [module_id, len_be[0], len_be[1]];
    let c: u8 = crc8(head.as_slice());
    let mut out: Vec<u8> = Vec::new();
    out.extend_from_slice(head.as_slice());
    out.push(c);
    out.extend_from_slice(data);
    assert(head@ =~= header(module_id, (data@.len() % 65536) as u16));
    assert(out@ =~= encoded(module_id, data@));
    out
}

/// Whether a header stands at `start`: three bytes and the CRC that belongs to them.
pub open spec fn header_at(buf: Seq<u8>, start: int) -> bool {
    &&& 0 <= start
    &&& start + 4 <= buf.len()
    &&& crc(buf.subrange(start, start + 3)) == buf[start + 3]
}

/// A header in which one byte was damaged is none.
pub proof fn law_damaged_header_rejected(buf: Seq<u8>, start: int, k: int, b: u8)
    requires
        header_at(buf, start),
        start <= k < start + 4,
        b != buf[k],
    ensures
        !header_at(buf.update(k, b), start),
{
    let h = buf.subrange(start, start + 3);
    let changed = buf.update(k, b).subrange(start, start + 3);
    if k < start + 3 {
        assert(changed =~= h.update(k - start, b));
        law_crc_detects_one_byte(h, k - start, b);
    } else {
        assert(changed =~= h);
    }
}

/// The first header at `from` or after it.
pub open spec fn first_header(buf: Seq<u8>, from: int) -> Option<int>
    decreases buf.len() - from,
{
    if from + 4 > buf.len() {
        None
    } else if header_at(buf, from) {
        Some(from)
    } else {
        first_header(buf, from + 1)
    }
}

/// The first frame of a buffer and the number of bytes up to its end. There is none while
/// the frame at the first header is incomplete.
pub open spec fn first_frame(buf: Seq<u8>) -> Option<(FrameView, int)> {
    match first_header(buf, 0) {
        None => None,
        Some(start) => {
            let end = start + 4 + crate::bytes::be16_value(buf[start + 1], buf[start + 2]);
            if end > buf.len() {
                None
            } else {
                Some(
                    (FrameView { module_id: buf[start], data: buf.subrange(start + 4, end) }, end),
                )
            }
        },
    }
}

/// An optional frame and the bytes that it took, by views.
pub open spec fn found(r: Option<(Frame, usize)>) -> Option<(FrameView, int)> {
    match r {
        None => None,
        Some((f, n)) => Some((f@, n as int)),
    }
}

/// Finds the first valid frame of a buffer, by the CRC of its header.
///
/// The number that comes with it counts the bytes of the frame and of the garbage before
/// it. `None` means that there is no complete frame yet.
pub fn find_frame(buf: &[u8]) -> (r: Option<(Frame, usize)>)
    ensures
        found(r) == first_frame(buf@),
        r matches Some((_, n)) ==> 4 <= n <= buf@.len(),
{
    if buf.len() < 4 {
        return None;
    }
    for start in 0..buf.len() - 3
        invariant
            buf@.len() >= 4,
            first_header(buf@, 0) == first_header(buf@, start as int),
    {
        let head = vstd::slice::slice_subrange(buf, start, start + 3);
        if crc8(head) == buf[start + 3] {
            let len: usize = u16_from_be(head[1], head[2]) as usize;
            if len > buf.len() - start - 4 {
                // The header is there, the data is not: wait for more.
                return None;
            }
            let end: usize = start + 4 + len;
            let data = vstd::slice::slice_to_vec(
                vstd::slice::slice_subrange(buf, start + 4, end),
            );
            return Some((Frame { module_id: head[0], data }, end));
        }
    }
    None
}

/// A header is found at the same place whatever follows the buffer.
proof fn lemma_first_header_append(a: Seq<u8>, b: Seq<u8>, from: int)
    requires
        0 <= from,
        first_header(a, from) is Some,
    ensures
        first_header(a + b, from) == first_header(a, from),
        from <= first_header(a, from).unwrap(),
        first_header(a, from).unwrap() + 4 <= a.len(),
    decreases a.len() - from,
{
    assert((a + b).subrange(from, from + 3) =~= a.subrange(from, from + 3));
    if !header_at(a, from) {
        lemma_first_header_append(a, b, from + 1);
    }
}

/// Bytes that arrive later do not change the frame that a buffer already holds.
pub proof fn law_append_keeps_first_frame(a: Seq<u8>, b: Seq<u8>)
    requires
        first_frame(a) is Some,
    ensures
        first_frame(a + b) == first_frame(a),
        4 <= first_frame(a).unwrap().1 <= a.len(),
{
    lemma_first_header_append(a, b, 0);
    let (f, end) = first_frame(a).unwrap();
    let start = first_header(a, 0).unwrap();
    assert((a + b).subrange(start + 4, end) =~= a.subrange(start + 4, end));
}

/// Past bytes at which no header stands, the search goes on.
proof fn lemma_first_header_skip(buf: Seq<u8>, from: int, to: int)
    requires
        0 <= from <= to,
        to + 4 <= buf.len(),
        forall|s: int| from <= s < to ==> !header_at(buf, s),
    ensures
        first_header(buf, from) == first_header(buf, to),
    decreases to - from,
{
    if from < to {
        lemma_first_header_skip(buf, from + 1, to);
    }
}

/// A frame is found again in the bytes written for it, behind garbage in which no header
/// stands and whatever follows, provided that its length fits in the length field.
pub proof fn law_resync(garbage: Seq<u8>, module_id: u8, data: Seq<u8>, rest: Seq<u8>)
    requires
        data.len() < 65536,
        forall|s: int|
            0 <= s < garbage.len() ==> !header_at(
                garbage + encoded(module_id, data) + rest,
                s,
            ),
    ensures
        first_frame(garbage + encoded(module_id, data) + rest) == Some(
            (
                FrameView { module_id, data },
                (garbage.len() + encoded(module_id, data).len()) as int,
            ),
        ),
{
    let buf = garbage + encoded(module_id, data) + rest;
    let g = garbage.len() as int;
    let h = header(module_id, data.len() as u16);
    assert(encoded(module_id, data).len() == 4 + data.len());
    assert(buf.subrange(g, g + 3) =~= h);
    assert(buf[g + 3] == crc(h));
    lemma_first_header_skip(buf, 0, g);
    crate::bytes::law_be16_round_trip(data.len() as u16, 0, 0);
    assert(buf[g] == module_id);
    assert(buf[g + 1] == crate::bytes::be16(data.len() as u16)[0]);
    assert(buf[g + 2] == crate::bytes::be16(data.len() as u16)[1]);
    assert(buf.subrange(g + 4, g + 4 + data.len()) =~= data);
}

/// A frame is found again in the bytes written for it, whatever follows.
pub proof fn law_frame_round_trip(module_id: u8, data: Seq<u8>, rest: Seq<u8>)
    requires
        data.len() < 65536,
    ensures
        first_frame(encoded(module_id, data) + rest) == Some(
            (FrameView { module_id, data }, encoded(module_id, data).len() as int),
        ),
{
    law_resync(Seq::empty(), module_id, data, rest);
    assert(Seq::<u8>::empty() + encoded(module_id, data) + rest =~= encoded(module_id, data)
        + rest);
}

/// While the last byte of a frame is missing, no frame is found.
pub proof fn law_incomplete_frame(module_id: u8, data: Seq<u8>, n: int)
    requires
        data.len() < 65536,
        0 <= n < encoded(module_id, data).len(),
    ensures
        first_frame(encoded(module_id, data).take(n)) is None,
{
    let all = encoded(module_id, data);
    let part = all.take(n);
    if n >= 4 {
        let h = header(module_id, data.len() as u16);
        assert(part.subrange(0, 3) =~= h);
        assert(part[3] == crc(h));
        crate::bytes::law_be16_round_trip(data.len() as u16, 0, 0);
        assert(part[1] == crate::bytes::be16(data.len() as u16)[0]);
        assert(part[2] == crate::bytes::be16(data.len() as u16)[1]);
    }
}

/// All frames of a buffer, and the bytes that are left.
pub open spec fn decode_all(buf: Seq<u8>) -> (Seq<FrameView>, Seq<u8>)
    decreases buf.len(),
{
    match first_frame(buf) {
        None => (seq![], buf),
        Some((f, n)) => if 0 < n <= buf.len() {
            let (fs, rest) = decode_all(buf.skip(n));
            (seq![f] + fs, rest)
        } else {
            (seq![], buf)
        },
    }
}

/// The bytes of several frames, one after the other.
pub open spec fn encode_all(frames: Seq<FrameView>) -> Seq<u8>
    decreases frames.len(),
{
    if frames.len() == 0 {
        seq![]
    } else {
        encoded(frames[0].module_id, frames[0].data) + encode_all(frames.skip(1))
    }
}

/// How the stream is cut does not matter: decoding what has arrived, then decoding what
/// was left together with what arrives next, gives the frames of the whole.
pub proof fn law_decode_in_pieces(a: Seq<u8>, b: Seq<u8>)
    ensures
        decode_all(a + b).0 == decode_all(a).0 + decode_all(decode_all(a).1 + b).0,
        decode_all(a + b).1 == decode_all(decode_all(a).1 + b).1,
    decreases a.len(),
{
    if first_frame(a) is Some {
        law_append_keeps_first_frame(a, b);
        let (f, n) = first_frame(a).unwrap();
        assert((a + b).skip(n) =~= a.skip(n) + b);
        law_decode_in_pieces(a.skip(n), b);
        assert(decode_all(a + b).0 =~= decode_all(a).0 + decode_all(decode_all(a).1 + b).0);
    } else {
        assert(decode_all(a + b).0 =~= decode_all(a).0 + decode_all(decode_all(a).1 + b).0);
    }
}

/// Frames written one after the other are read back in their order, and nothing is left.
pub proof fn law_stream_round_trip(frames: Seq<FrameView>)
    requires
        forall|i: int| 0 <= i < frames.len() ==> (#[trigger] frames[i]).data.len() < 65536,
    ensures
        decode_all(encode_all(frames)) == (frames, Seq::<u8>::empty()),
    decreases frames.len(),
{
    if frames.len() == 0 {
        assert(decode_all(encode_all(frames)).0 =~= frames);
    } else {
        let f = frames[0];
        let first = encoded(f.module_id, f.data);
        let rest = encode_all(frames.skip(1));
        law_frame_round_trip(f.module_id, f.data, rest);
        assert((first + rest).skip(first.len() as int) =~= rest);
        law_stream_round_trip(frames.skip(1));
        assert(decode_all(encode_all(frames)).0 =~= frames);
    }
}

/// Writes the request "Start" to the Master module.
pub fn start_frame(rid: u8) -> (out: Vec<u8>)
    ensures
        out@ == encoded(MODULE_MASTER, seq![MASTER_TYPE_START, rid]),
{
    let data = [MASTER_TYPE_START, rid];
    assert(data@ =~= seq![MASTER_TYPE_START, rid]);
    encode_frame(MODULE_MASTER, data.as_slice())
}

/// The characters of CP-1251 from 0x80 to 0xBF.
pub const HIGH: [u16; 64] = [
    0x0402, 0x0403, 0x201A, 0x0453, 0x201E, 0x2026, 0x2020, 0x2021, 0x20AC, 0x2030, 0x0409,
    0x2039, 0x040A, 0x040C, 0x040B, 0x040F, 0x0452, 0x2018, 0x2019, 0x201C, 0x201D, 0x2022,
    0x2013, 0x2014, 0xFFFD, 0x2122, 0x0459, 0x203A, 0x045A, 0x045C, 0x045B, 0x045F, 0x00A0,
    0x040E, 0x045E, 0x0408, 0x00A4, 0x0490, 0x00A6, 0x00A7, 0x0401, 0x00A9, 0x0404, 0x00AB,
    0x00AC, 0x00AD, 0x00AE, 0x0407, 0x00B0, 0x00B1, 0x0406, 0x0456, 0x0491, 0x00B5, 0x00B6,
    0x00B7, 0x0451, 0x2116, 0x0454, 0x00BB, 0x0458, 0x0405, 0x0455, 0x0457,
];

/// `char::from_u32` of std: the character with the given code point, if there is one.
pub assume_specification[ char::from_u32 ](i: u32) -> (r: Option<char>)
    ensures
        r == if i <= 0xD7FF || 0xE000 <= i <= 0x10FFFF {
            Some(i as char)
        } else {
            None
        },
;

/// The code point of a byte in CP-1251.
pub open spec fn cp1251_code(b: u8) -> u32 {
    if b < 0x80 {
        b as u32
    } else if b < 0xC0 {
        HIGH@[b - 0x80] as u32
    } else {
        (0x0410 + (b - 0xC0)) as u32
    }
}

/// A text in CP-1251.
pub open spec fn cp1251(bytes: Seq<u8>) -> Seq<char> {
    Seq::new(
        bytes.len(),
        |i: int|
            {
                let code = cp1251_code(bytes[i]);
                if code <= 0xD7FF || 0xE000 <= code {
                    code as char
                } else {
                    '\u{FFFD}'
                }
            },
    )
}

/// Decodes a text in CP-1251.
pub fn decode_cp1251(bytes: &[u8]) -> (s: String)
    ensures
        s@ == cp1251(bytes@),
{
    let mut s = String::new();
    for i in 0..bytes.len()
        invariant
            s@ == cp1251(bytes@).take(i as int),
    {
        let b: u8 = bytes[i];
        let code: u32 = if b < 0x80 {
            b as u32
        } else if b < 0xC0 {
            HIGH[(b - 0x80) as usize] as u32
        } else if b < 0xE0 {
            0x0410 + (b - 0xC0) as u32
        } else {
            0x0430 + (b - 0xE0) as u32
        };
        let c = match char::from_u32(code) {
            Some(c) => c,
            None => '\u{FFFD}',
        };
        s.push(c);
        assert(s@ =~= cp1251(bytes@).take(i + 1));
    }
    assert(cp1251(bytes@).take(bytes@.len() as int) =~= cp1251(bytes@));
    s
}

/// One module of a device: its number, its type, its name and its parameters.
#[derive(Debug, Clone)]
pub struct ModuleDesc {
    pub id: u8,
    pub kind: u8,
    pub name: String,
    pub params: Vec<(u8, u32)>,
}

/// A [`ModuleDesc`] with its name and its parameters as sequences.
#[verifier::ext_equal]
pub struct ModuleDescView {
    pub id: u8,
    pub kind: u8,
    pub name: Seq<char>,
    pub params: Seq<(u8, u32)>,
}

impl View for ModuleDesc {
    type V = ModuleDescView;

    open spec fn view(&self) -> ModuleDescView {
        ModuleDescView { id: self.id, kind: self.kind, name: self.name@, params: self.params@ }
    }
}

/// What a device says of itself in "Device info".
#[derive(Debug, Clone)]
pub struct DeviceInfoMsg {
    pub time: u16,
    pub rid: u8,
    pub version: u8,
    pub subversion: u8,
    pub compat_version: u8,
    pub modules: Vec<ModuleDesc>,
}

/// A [`DeviceInfoMsg`] with its modules as a sequence.
#[verifier::ext_equal]
pub struct DeviceInfoMsgView {
    pub time: u16,
    pub rid: u8,
    pub version: u8,
    pub subversion: u8,
    pub compat_version: u8,
    pub modules: Seq<ModuleDescView>,
}

impl View for DeviceInfoMsg {
    type V = DeviceInfoMsgView;

    open spec fn view(&self) -> DeviceInfoMsgView {
        DeviceInfoMsgView {
            time: self.time,
            rid: self.rid,
            version: self.version,
            subversion: self.subversion,
            compat_version: self.compat_version,
            modules: self.modules@.map_values(|m: ModuleDesc| m@),
        }
    }
}

/// The parameter that starts at `p`: a key and a value of four bytes.
pub open spec fn param_at(data: Seq<u8>, p: int) -> (u8, u32) {
    (data[p], crate::bytes::be32_value(data[p + 1], data[p + 2], data[p + 3], data[p + 4]))
}

/// The record of a module that starts at `off`, and where it ends.
///
/// A record is `id, type, name length (2), number of parameters, name, parameters`.
pub open spec fn module_at(data: Seq<u8>, off: int) -> Result<
    (ModuleDescView, int),
    DeviceErrorView,
> {
    let name_start = off + 5;
    let name_end = name_start + crate::bytes::be16_value(data[off + 2], data[off + 3]);
    let end = name_end + 5 * data[off + 4];
    if name_start > data.len() {
        Err(DeviceErrorView::Protocol("Device Info: обрезан заголовок записи устройства"@))
    } else if name_end > data.len() {
        Err(DeviceErrorView::Protocol("Device Info: обрезано имя устройства"@))
    } else if end > data.len() {
        Err(DeviceErrorView::Protocol("Device Info: обрезаны параметры устройства"@))
    } else {
        Ok(
            (
                ModuleDescView {
                    id: data[off],
                    kind: data[off + 1],
                    name: cp1251(data.subrange(name_start, name_end)),
                    params: Seq::new(
                        data[off + 4] as nat,
                        |i: int| param_at(data, name_end + 5 * i),
                    ),
                },
                end,
            ),
        )
    }
}

/// The records of modules from `off` to the end of the data.
pub open spec fn modules_from(data: Seq<u8>, off: int) -> Result<
    Seq<ModuleDescView>,
    DeviceErrorView,
>
    decreases data.len() - off,
{
    if off >= data.len() {
        Ok(seq![])
    } else {
        match module_at(data, off) {
            Err(e) => Err(e),
            Ok((m, end)) => if end <= off {
                Ok(seq![])
            } else {
                match modules_from(data, end) {
                    Err(e) => Err(e),
                    Ok(ms) => Ok(seq![m] + ms),
                }
            },
        }
    }
}

/// What the data of a frame of the Master module says, read as "Device info".
pub open spec fn device_info(data: Seq<u8>) -> Result<DeviceInfoMsgView, DeviceErrorView> {
    if data.len() < 7 {
        Err(DeviceErrorView::Protocol("Device Info: кадр короче 7 байт"@))
    } else if data[0] != MASTER_TYPE_DEVICE_INFO {
        Err(
            DeviceErrorView::Protocol(
                "Master: ожидался Type=0x01 (Device Info), получено 0x"@ + crate::text::hex2(
                    data[0],
                ),
            ),
        )
    } else {
        match modules_from(data, 7) {
            Err(e) => Err(e),
            Ok(modules) => Ok(
                DeviceInfoMsgView {
                    time: crate::bytes::be16_value(data[1], data[2]),
                    rid: data[3],
                    version: data[4],
                    subversion: data[5],
                    compat_version: data[6],
                    modules,
                },
            ),
        }
    }
}

/// An outcome with both sides taken by their views.
pub open spec fn info_outcome(r: Result<DeviceInfoMsg, DeviceError>) -> Result<
    DeviceInfoMsgView,
    DeviceErrorView,
> {
    match r {
        Ok(m) => Ok(m@),
        Err(e) => Err(e@),
    }
}

/// A protocol error with the given text.
fn protocol_error(text: &str) -> (e: DeviceError)
    ensures
        e@ == DeviceErrorView::Protocol(text@),
{
    DeviceError::Protocol(text.to_owned())
}

/// Reads the record of a module that starts at `off`.
fn parse_module(data: &[u8], off: usize) -> (r: Result<(ModuleDesc, usize), DeviceError>)
    requires
        off < data@.len(),
    ensures
        match r {
            Ok((m, end)) => module_at(data@, off as int) == Ok::<_, DeviceErrorView>(
                (m@, end as int),
            ) && off < end <= data@.len(),
            Err(e) => module_at(data@, off as int) == Err::<(ModuleDescView, int), _>(e@),
        },
{
    if data.len() - off < 5 {
        return Err(protocol_error("Device Info: обрезан заголовок записи устройства"));
    }
    let id: u8 = data[off];
    let kind: u8 = data[off + 1];
    let name_len: usize = u16_from_be(data[off + 2], data[off + 3]) as usize;
    let params_count: usize = data[off + 4] as usize;
    let name_start: usize = off + 5;
    if name_len > data.len() - name_start {
        return Err(protocol_error("Device Info: обрезано имя устройства"));
    }
    let name_end: usize = name_start + name_len;
    let name = decode_cp1251(vstd::slice::slice_subrange(data, name_start, name_end));
    if params_count * 5 > data.len() - name_end {
        return Err(protocol_error("Device Info: обрезаны параметры устройства"));
    }
    let end: usize = name_end + params_count * 5;
    let mut params: Vec<(u8, u32)> = Vec::new();
    for i in 0..params_count
        invariant
            params_count <= 255,
            name_end + params_count * 5 <= data.len(),
            params@ == Seq::new(i as nat, |j: int| param_at(data@, name_end + 5 * j)),
    {
        let p: usize = name_end + i * 5;
        params.push((data[p], u32_from_be(data[p + 1], data[p + 2], data[p + 3], data[p + 4])));
        assert(params@ =~= Seq::new((i + 1) as nat, |j: int| param_at(data@, name_end + 5 * j)));
    }
    Ok((ModuleDesc { id, kind, name, params }, end))
}

/// Reads "Device info" from the data of a frame of the Master module.
pub fn parse_device_info(data: &[u8]) -> (r: Result<DeviceInfoMsg, DeviceError>)
    ensures
        info_outcome(r) == device_info(data@),
{
    if data.len() < 7 {
        return Err(protocol_error("Device Info: кадр короче 7 байт"));
    }
    if data[0] != MASTER_TYPE_DEVICE_INFO {
        let mut text = "Master: ожидался Type=0x01 (Device Info), получено 0x".to_owned();
        push_hex2(&mut text, data[0]);
        return Err(DeviceError::Protocol(text));
    }
    let mut modules: Vec<ModuleDesc> = Vec::new();
    let mut off: usize = 7;
    while off < data.len()
        invariant
            7 <= off <= data@.len(),
            data@[0] == MASTER_TYPE_DEVICE_INFO,
            match modules_from(data@, off as int) {
                Err(e) => modules_from(data@, 7) == Err::<Seq<ModuleDescView>, _>(e),
                Ok(ms) => modules_from(data@, 7) == Ok::<_, DeviceErrorView>(
                    modules@.map_values(|m: ModuleDesc| m@) + ms,
                ),
            },
        decreases data@.len() - off,
    {
        let ghost before = modules@.map_values(|m: ModuleDesc| m@);
        match parse_module(data, off) {
            Err(e) => {
                return Err(e);
            },
            Ok((m, end)) => {
                modules.push(m);
                proof {
                    let after = modules@.map_values(|m: ModuleDesc| m@);
                    assert(after =~= before.push(m@));
                    if let Ok(ms) = modules_from(data@, end as int) {
                        assert(before + (seq![m@] + ms) =~= after + ms);
                    }
                }
                off = end;
            },
        }
    }
    assert(modules@.map_values(|m: ModuleDesc| m@) + seq![] =~= modules@.map_values(
        |m: ModuleDesc| m@,
    ));
    Ok(
        DeviceInfoMsg {
            time: u16_from_be(data[1], data[2]),
            rid: data[3],
            version: data[4],
            subversion: data[5],
            compat_version: data[6],
            modules,
        },
    )
}

/// A module as a device writes it: the name still in CP-1251.
pub struct ModuleRecord {
    pub id: u8,
    pub kind: u8,
    pub name: Seq<u8>,
    pub params: Seq<(u8, u32)>,
}

impl ModuleRecord {
    /// Whether the counts fit in their fields.
    pub open spec fn fits(self) -> bool {
        self.name.len() < 65536 && self.params.len() < 256
    }

    /// The module that the record describes.
    pub open spec fn module(self) -> ModuleDescView {
        ModuleDescView {
            id: self.id,
            kind: self.kind,
            name: cp1251(self.name),
            params: self.params,
        }
    }

    /// The bytes of the record.
    pub open spec fn bytes(self) -> Seq<u8> {
        seq![self.id, self.kind] + crate::bytes::be16(self.name.len() as u16)
            + seq![self.params.len() as u8] + self.name + param_bytes(self.params)
    }
}

/// The bytes of parameters, one after the other.
pub open spec fn param_bytes(params: Seq<(u8, u32)>) -> Seq<u8>
    decreases params.len(),
{
    if params.len() == 0 {
        seq![]
    } else {
        param_bytes(params.drop_last()) + seq![params.last().0] + crate::bytes::be32(
            params.last().1,
        )
    }
}

/// The bytes of records, one after the other.
pub open spec fn record_bytes(records: Seq<ModuleRecord>) -> Seq<u8>
    decreases records.len(),
{
    if records.len() == 0 {
        seq![]
    } else {
        records[0].bytes() + record_bytes(records.skip(1))
    }
}

/// The bytes of "Device info".
pub open spec fn device_info_bytes(
    time: u16,
    rid: u8,
    version: u8,
    subversion: u8,
    compat_version: u8,
    records: Seq<ModuleRecord>,
) -> Seq<u8> {
    seq![MASTER_TYPE_DEVICE_INFO] + crate::bytes::be16(time) + seq![
        rid,
        version,
        subversion,
        compat_version,
    ] + record_bytes(records)
}

/// Each parameter stands in its place among the bytes of all.
proof fn lemma_param_bytes(params: Seq<(u8, u32)>, i: int)
    ensures
        param_bytes(params).len() == 5 * params.len(),
        0 <= i < params.len() ==> param_at(param_bytes(params), 5 * i) == params[i],
    decreases params.len(),
{
    if params.len() > 0 {
        let head = param_bytes(params.drop_last());
        let (k, v) = params.last();
        lemma_param_bytes(params.drop_last(), i);
        let all = param_bytes(params);
        if 0 <= i < params.len() - 1 {
            assert(forall|j: int| 0 <= j < head.len() ==> all[j] == head[j]);
        } else if i == params.len() - 1 {
            crate::bytes::law_be32_round_trip(v, 0, 0, 0, 0);
            assert(all[5 * i] == k);
            assert(all[5 * i + 1] == crate::bytes::be32(v)[0]);
            assert(all[5 * i + 2] == crate::bytes::be32(v)[1]);
            assert(all[5 * i + 3] == crate::bytes::be32(v)[2]);
            assert(all[5 * i + 4] == crate::bytes::be32(v)[3]);
        }
    }
}

/// A record is read back from the bytes written for it.
proof fn lemma_record_read_back(before: Seq<u8>, r: ModuleRecord, after: Seq<u8>)
    requires
        r.fits(),
    ensures
        module_at(before + r.bytes() + after, before.len() as int) == Ok::<_, DeviceErrorView>(
            (r.module(), (before.len() + r.bytes().len()) as int),
        ),
        r.bytes().len() >= 5,
{
    let data = before + r.bytes() + after;
    let off = before.len() as int;
    let n = r.name.len() as int;
    lemma_param_bytes(r.params, 0);
    crate::bytes::law_be16_round_trip(n as u16, 0, 0);
    assert(r.bytes().len() == 5 + n + 5 * r.params.len());
    assert(forall|j: int|
        0 <= j < r.bytes().len() ==> #[trigger] data[off + j] == r.bytes()[j]);
    assert(data[off + 0] == r.id);
    assert(data[off + 1] == r.kind);
    assert(data[off + 2] == crate::bytes::be16(n as u16)[0]);
    assert(data[off + 3] == crate::bytes::be16(n as u16)[1]);
    assert(data[off + 4] == r.params.len());
    assert(data.subrange(off + 5, off + 5 + n) =~= r.name);
    let m = module_at(data, off)->Ok_0.0;
    assert forall|i: int| 0 <= i < r.params.len() implies #[trigger] m.params[i]
        == r.params[i] by {
        lemma_param_bytes(r.params, i);
        let p = param_bytes(r.params);
        assert(forall|j: int|
            0 <= j < p.len() ==> #[trigger] data[off + 5 + n + j] == p[j]);
        assert(data[off + 5 + n + (5 * i + 1)] == p[5 * i + 1]);
        assert(data[off + 5 + n + (5 * i + 2)] == p[5 * i + 2]);
        assert(data[off + 5 + n + (5 * i + 3)] == p[5 * i + 3]);
        assert(data[off + 5 + n + (5 * i + 4)] == p[5 * i + 4]);
    }
    assert(m.params =~= r.params);
    assert(m =~= r.module());
}

/// Records are read back from the bytes written for them.
proof fn lemma_records_read_back(before: Seq<u8>, records: Seq<ModuleRecord>)
    requires
        forall|i: int| 0 <= i < records.len() ==> (#[trigger] records[i]).fits(),
    ensures
        modules_from(before + record_bytes(records), before.len() as int) == Ok::<
            _,
            DeviceErrorView,
        >(records.map_values(|r: ModuleRecord| r.module())),
    decreases records.len(),
{
    let all = before + record_bytes(records);
    let modules = records.map_values(|r: ModuleRecord| r.module());
    if records.len() == 0 {
        assert(modules =~= seq![]);
    } else {
        let r = records[0];
        let rest = record_bytes(records.skip(1));
        lemma_record_read_back(before, r, rest);
        assert(before + (r.bytes() + rest) =~= before + r.bytes() + rest);
        lemma_records_read_back(before + r.bytes(), records.skip(1));
        let tail = records.skip(1).map_values(|r: ModuleRecord| r.module());
        assert(seq![r.module()] + tail =~= modules);
    }
}

/// "Device info" that a device writes by the rules is read back in full, provided that
/// the counts of its records fit in their fields.
pub proof fn law_device_info_round_trip(
    time: u16,
    rid: u8,
    version: u8,
    subversion: u8,
    compat_version: u8,
    records: Seq<ModuleRecord>,
)
    requires
        forall|i: int| 0 <= i < records.len() ==> (#[trigger] records[i]).fits(),
    ensures
        device_info(
            device_info_bytes(time, rid, version, subversion, compat_version, records),
        ) == Ok::<_, DeviceErrorView>(
            DeviceInfoMsgView {
                time,
                rid,
                version,
                subversion,
                compat_version,
                modules: records.map_values(|r: ModuleRecord| r.module()),
            },
        ),
{
    let head = seq![MASTER_TYPE_DEVICE_INFO] + crate::bytes::be16(time) + seq![
        rid,
        version,
        subversion,
        compat_version,
    ];
    crate::bytes::law_be16_round_trip(time, 0, 0);
    lemma_records_read_back(head, records);
    let data = device_info_bytes(time, rid, version, subversion, compat_version, records);
    assert(data[1] == crate::bytes::be16(time)[0]);
    assert(data[2] == crate::bytes::be16(time)[1]);
}

/// A polynomial over GF(2) of degree below eight, times the divisor `x^8 + x^5 + x^4 + 1`.
/// The bits of a number are the coefficients, the lowest bit that of `x^0`.
pub open spec fn times_divisor(q: u8) -> u16 {
    let p = q as u16;
    (p << 8u16) ^ (p << 5u16) ^ (p << 4u16) ^ p
}

/// The CRC is a remainder. That of nothing is all ones. Where `c` is the CRC of a block, that
/// of the block and one more byte `b` is what `(c xor b) * x^8` leaves over when it is divided
/// by `x^8 + x^5 + x^4 + 1` over GF(2).
pub proof fn law_crc_is_remainder(block: Seq<u8>, b: u8)
    ensures
        crc(Seq::empty()) == 0xFF,
        exists|q: u8| #[trigger]
            times_divisor(q) ^ (crc(block.push(b)) as u16) == ((crc(block) ^ b) as u16) << 8u16,
{
    let t = crc(block) ^ b;
    assert(block.push(b).drop_last() =~= block);
    reveal_with_fuel(crc_bits, 9);
    let r1 = crc_bit(t);
    let r2 = crc_bit(r1);
    let r3 = crc_bit(r2);
    let r4 = crc_bit(r3);
    let r5 = crc_bit(r4);
    let r6 = crc_bit(r5);
    let r7 = crc_bit(r6);
    let r8 = crc_bit(r7);
    assert(crc(block.push(b)) == r8);
    let q = (t & 0x80) | ((r1 & 0x80) >> 1u8) | ((r2 & 0x80) >> 2u8) | ((r3 & 0x80) >> 3u8) | ((r4
        & 0x80) >> 4u8) | ((r5 & 0x80) >> 5u8) | ((r6 & 0x80) >> 6u8) | ((r7 & 0x80) >> 7u8);
    assert(times_divisor(q) ^ (r8 as u16) == (t as u16) << 8u16) by (bit_vector)
        requires
            r1 == crc_bit(t),
            r2 == crc_bit(r1),
            r3 == crc_bit(r2),
            r4 == crc_bit(r3),
            r5 == crc_bit(r4),
            r6 == crc_bit(r5),
            r7 == crc_bit(r6),
            r8 == crc_bit(r7),
            q == (t & 0x80) | ((r1 & 0x80) >> 1u8) | ((r2 & 0x80) >> 2u8) | ((r3 & 0x80) >> 3u8)
                | ((r4 & 0x80) >> 4u8) | ((r5 & 0x80) >> 5u8) | ((r6 & 0x80) >> 6u8) | ((r7 & 0x80)
                >> 7u8),
    ;
}

/// A division leaves one remainder only, so the CRC of a block follows from that of the block
/// without its last byte.
pub proof fn law_crc_remainder_is_unique(block: Seq<u8>, b: u8, q: u8, r: u8)
    requires
        times_divisor(q) ^ (r as u16) == ((crc(block) ^ b) as u16) << 8u16,
    ensures
        crc(block.push(b)) == r,
{
    law_crc_is_remainder(block, b);
    let t = ((crc(block) ^ b) as u16) << 8u16;
    let s = crc(block.push(b));
    let p = choose|p: u8| #[trigger] times_divisor(p) ^ (s as u16) == t;
    assert(s == r) by (bit_vector)
        requires
            times_divisor(p) ^ (s as u16) == t,
            times_divisor(q) ^ (r as u16) == t,
    ;
}

/// The numbers of the modules and of the messages of the Master module.
pub proof fn law_module_numbers()
    ensures
        MODULE_MASTER == 0,
        MODULE_CAN1 == 1,
        MODULE_CAN2 == 2,
        MODULE_CAN3 == 3,
        MODULE_CAN4 == 4,
        MODULE_CANTECH == 5,
        MODULE_UART1 == 6,
        MODULE_UART2 == 7,
        MODULE_UART3 == 8,
        MODULE_UART4 == 9,
        MODULE_GEN1 == 10,
        MODULE_GEN2 == 11,
        MODULE_ERROR == 128,
        MASTER_TYPE_DEVICE_INFO == 1,
        MASTER_TYPE_START == 1,
{
}

/// A frame starts with its module, then the number of bytes of its data, which wraps at 65536,
/// the heavier byte first, then the CRC of those three bytes; the data follows.
pub proof fn law_frame_layout(module_id: u8, data: Seq<u8>)
    ensures
        encoded(module_id, data).len() == 4 + data.len(),
        encoded(module_id, data)[0] == module_id,
        256 * encoded(module_id, data)[1] + encoded(module_id, data)[2] == data.len() % 65536,
        encoded(module_id, data)[3] == crc(encoded(module_id, data).take(3)),
        encoded(module_id, data).skip(4) == data,
{
    let len = (data.len() % 65536) as u16;
    crate::bytes::law_bytes_weigh(len, 0, 0, 0, 0, 0);
    assert(encoded(module_id, data).take(3) =~= header(module_id, len));
    assert(encoded(module_id, data).skip(4) =~= data);
}

/// A frame without data is its header alone.
pub proof fn law_empty_frame(module_id: u8)
    ensures
        encoded(module_id, seq![]).len() == 4,
        encoded(module_id, seq![]).take(3) == seq![module_id, 0, 0],
        encoded(module_id, seq![])[3] == crc(seq![module_id, 0, 0]),
{
    law_frame_layout(module_id, seq![]);
    assert(encoded(module_id, seq![]).take(3) =~= seq![module_id, 0, 0]);
}

/// Whether three bytes and the CRC that belongs to them stand at `start`.
pub open spec fn sealed_at(buf: Seq<u8>, start: int) -> bool {
    0 <= start && start + 4 <= buf.len() && buf[start + 3] == crc(
        seq![buf[start], buf[start + 1], buf[start + 2]],
    )
}

/// The frame that is found is the one at the first place where three bytes are followed by
/// their CRC, whatever comes behind it. The first byte is its module, the next two say how
/// many bytes of data follow the CRC; the count that comes with it leads to its end.
pub proof fn law_found_frame_is_first(buf: Seq<u8>, start: int)
    requires
        sealed_at(buf, start),
        forall|s: int| 0 <= s < start ==> !sealed_at(buf, s),
    ensures
        first_frame(buf) == ({
            let end = start + 4 + 256 * buf[start + 1] + buf[start + 2];
            if end <= buf.len() {
                Some(
                    (FrameView { module_id: buf[start], data: buf.subrange(start + 4, end) }, end),
                )
            } else {
                None::<(FrameView, int)>
            }
        }),
{
    assert forall|s: int| 0 <= s <= start implies header_at(buf, s) == sealed_at(buf, s) by {
        assert(buf.subrange(s, s + 3) =~= seq![buf[s], buf[s + 1], buf[s + 2]]);
    }
    lemma_first_header_skip(buf, 0, start);
    crate::bytes::law_bytes_weigh(0, 0, buf[start + 1], buf[start + 2], 0, 0);
}

/// Where no three bytes are followed by their CRC there is no frame.
pub proof fn law_no_header_no_frame(buf: Seq<u8>)
    requires
        forall|s: int| !sealed_at(buf, s),
    ensures
        first_frame(buf) is None,
{
    lemma_no_header(buf, 0);
}

/// Without a header the search finds none.
proof fn lemma_no_header(buf: Seq<u8>, from: int)
    requires
        0 <= from,
        forall|s: int| !sealed_at(buf, s),
    ensures
        first_header(buf, from) is None,
    decreases buf.len() - from,
{
    if from + 4 <= buf.len() {
        assert(!sealed_at(buf, from));
        assert(buf.subrange(from, from + 3) =~= seq![buf[from], buf[from + 1], buf[from + 2]]);
        lemma_no_header(buf, from + 1);
    }
}

/// The characters from 0x80 to 0xBF: letters of other Cyrillic alphabets, quotation marks and
/// signs.
pub open spec fn upper_page() -> Seq<char> {
    seq![
        '\u{0402}', '\u{0403}', '\u{201A}', '\u{0453}', '\u{201E}', '\u{2026}', '\u{2020}', '\u{2021}',
        '\u{20AC}', '\u{2030}', '\u{0409}', '\u{2039}', '\u{040A}', '\u{040C}', '\u{040B}', '\u{040F}',
        '\u{0452}', '\u{2018}', '\u{2019}', '\u{201C}', '\u{201D}', '\u{2022}', '\u{2013}', '\u{2014}',
        '\u{FFFD}', '\u{2122}', '\u{0459}', '\u{203A}', '\u{045A}', '\u{045C}', '\u{045B}', '\u{045F}',
        '\u{00A0}', '\u{040E}', '\u{045E}', '\u{0408}', '\u{00A4}', '\u{0490}', '\u{00A6}', '\u{00A7}',
        '\u{0401}', '\u{00A9}', '\u{0404}', '\u{00AB}', '\u{00AC}', '\u{00AD}', '\u{00AE}', '\u{0407}',
        '\u{00B0}', '\u{00B1}', '\u{0406}', '\u{0456}', '\u{0491}', '\u{00B5}', '\u{00B6}', '\u{00B7}',
        '\u{0451}', '\u{2116}', '\u{0454}', '\u{00BB}', '\u{0458}', '\u{0405}', '\u{0455}', '\u{0457}',
    ]
}

/// A text in CP-1251 has a character for each byte. The bytes below 0x80 are ASCII. The bytes
/// from 0xC0 on are the letters from А to я in the order of the alphabet. Those between are
/// the upper page.
pub proof fn law_cp1251_characters(bytes: Seq<u8>, i: int)
    requires
        0 <= i < bytes.len(),
    ensures
        cp1251(bytes).len() == bytes.len(),
        bytes[i] < 0x80 ==> cp1251(bytes)[i] as u32 == bytes[i],
        0x80 <= bytes[i] < 0xC0 ==> cp1251(bytes)[i] == upper_page()[bytes[i] - 0x80],
        bytes[i] >= 0xC0 ==> cp1251(bytes)[i] as u32 - 'А' as u32 == bytes[i] - 0xC0,
        bytes[i] == 0xFF ==> cp1251(bytes)[i] == 'я',
{
    let b = bytes[i];
    if 0x80 <= b < 0xC0 {
        lemma_upper_page(b);
    }
}

/// The table of code points holds the upper page.
proof fn lemma_upper_page(b: u8)
    requires
        0x80 <= b < 0xC0,
    ensures
        HIGH@[b - 0x80] as char == upper_page()[b - 0x80],
        HIGH@[b - 0x80] <= 0xD7FF || HIGH@[b - 0x80] >= 0xE000,
{
}

/// The number of bytes that the records of modules take.
pub open spec fn records_size(modules: Seq<ModuleDescView>) -> int
    decreases modules.len(),
{
    if modules.len() == 0 {
        0
    } else {
        5 + modules[0].name.len() + 5 * modules[0].params.len() + records_size(modules.skip(1))
    }
}

/// The records that are read take up all bytes from where they start to the end.
proof fn lemma_records_are_complete(data: Seq<u8>, off: int)
    requires
        0 <= off <= data.len(),
    ensures
        modules_from(data, off) matches Ok(ms) ==> off + records_size(ms) == data.len(),
    decreases data.len() - off,
{
    if off < data.len() {
        if let Ok((m, end)) = module_at(data, off) {
            if end > off {
                lemma_records_are_complete(data, end);
                if let Ok(ms) = modules_from(data, end) {
                    assert((seq![m] + ms).skip(1) =~= ms);
                }
            }
        }
    }
}

/// "Device info" is read in full or not at all: the type is 0x01, there are seven bytes of
/// header, and the records of the modules take up all the rest.
pub proof fn law_device_info_is_complete(data: Seq<u8>)
    ensures
        device_info(data) matches Ok(info) ==> {
            &&& data.len() >= 7
            &&& data[0] == 0x01
            &&& 7 + records_size(info.modules) == data.len()
            &&& info.time == 256 * data[1] + data[2]
            &&& info.rid == data[3]
            &&& info.version == data[4]
            &&& info.subversion == data[5]
            &&& info.compat_version == data[6]
        },
        data.len() == 7 && data[0] == 0x01 ==> device_info(data) is Ok,
{
    if data.len() >= 7 {
        lemma_records_are_complete(data, 7);
        crate::bytes::law_bytes_weigh(0, 0, data[1], data[2], 0, 0);
    }
}

/// A record that ends too early is refused for the first part of it that is missing: its
/// header of five bytes, its name, whose length stands in the third and fourth of them, the
/// heavier first, or its parameters of five bytes each, whose number stands in the fifth.
pub proof fn law_cut_record_is_refused(data: Seq<u8>, off: int)
    requires
        0 <= off < data.len(),
    ensures
        ({
            let rest = data.len() - off;
            let name = 256 * data[off + 2] + data[off + 3];
            let params = 5 * data[off + 4];
            &&& rest < 5 ==> modules_from(data, off) == Err::<Seq<ModuleDescView>, _>(
                DeviceErrorView::Protocol("Device Info: обрезан заголовок записи устройства"@),
            )
            &&& 5 <= rest < 5 + name ==> modules_from(data, off) == Err::<Seq<ModuleDescView>, _>(
                DeviceErrorView::Protocol("Device Info: обрезано имя устройства"@),
            )
            &&& 5 + name <= rest < 5 + name + params ==> modules_from(data, off) == Err::<
                Seq<ModuleDescView>,
                _,
            >(DeviceErrorView::Protocol("Device Info: обрезаны параметры устройства"@))
        }),
{
    crate::bytes::law_bytes_weigh(0, 0, data[off + 2], data[off + 3], 0, 0);
}

/// Data that is too short for "Device info", or that has another type, is refused; the text
/// tells the type in hexadecimal. The records are refused as a whole if one of them is.
pub proof fn law_device_info_is_refused(data: Seq<u8>)
    ensures
        data.len() < 7 ==> device_info(data) == Err::<DeviceInfoMsgView, _>(
            DeviceErrorView::Protocol("Device Info: кадр короче 7 байт"@),
        ),
        data.len() >= 7 && data[0] != 0x01 ==> device_info(data) == Err::<DeviceInfoMsgView, _>(
            DeviceErrorView::Protocol(
                "Master: ожидался Type=0x01 (Device Info), получено 0x"@ + crate::text::hex2(
                    data[0],
                ),
            ),
        ),
        data.len() >= 7 && data[0] == 0x01 ==> (modules_from(data, 7) matches Err(e)
            ==> device_info(data) == Err::<DeviceInfoMsgView, _>(e)),
        data.len() >= 7 && data[0] == 0x01 ==> (modules_from(data, 7) matches Ok(ms)
            ==> device_info(data) matches Ok(info) && info.modules == ms),
{
}

/// The records are read from the bytes where they stand, one after the other. The first two
/// bytes of a record are number and type, then come the length of the name and the number of
/// parameters, the name in CP-1251, and for each parameter its key and its value, the heavier
/// byte first.
pub proof fn law_records_by_bytes(data: Seq<u8>, off: int, i: int)
    requires
        0 <= off < data.len(),
        modules_from(data, off) is Ok,
    ensures
        ({
            let ms = modules_from(data, off)->Ok_0;
            let m = ms[0];
            let name_end = off + 5 + 256 * data[off + 2] + data[off + 3];
            let end = name_end + 5 * data[off + 4];
            &&& ms.len() > 0
            &&& end <= data.len()
            &&& m.id == data[off]
            &&& m.kind == data[off + 1]
            &&& m.name == cp1251(data.subrange(off + 5, name_end))
            &&& m.params.len() == data[off + 4]
            &&& 0 <= i < m.params.len() ==> {
                let p = name_end + 5 * i;
                &&& m.params[i].0 == data[p]
                &&& m.params[i].1 == 0x1000000 * data[p + 1] + 0x10000 * data[p + 2] + 0x100
                    * data[p + 3] + data[p + 4]
            }
            &&& modules_from(data, end) == Ok::<_, DeviceErrorView>(ms.skip(1))
        }),
{
    crate::bytes::law_bytes_weigh(0, 0, data[off + 2], data[off + 3], 0, 0);
    let (m, end) = module_at(data, off)->Ok_0;
    let rest = modules_from(data, end)->Ok_0;
    assert((seq![m] + rest).skip(1) =~= rest);
    let name_end = off + 5 + 256 * data[off + 2] + data[off + 3];
    let p = name_end + 5 * i;
    crate::bytes::law_bytes_weigh(0, 0, data[p + 1], data[p + 2], data[p + 3], data[p + 4]);
}

} // verus!
