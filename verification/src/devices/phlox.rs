//! The Phlox driver: the handshake of the Master module and the version.
//!
//! The driver keeps what has arrived and decides; the caller performs the USB transfers.

use vstd::prelude::*;
use crate::capability::CapabilitySet;
use crate::devices::phlox_common::{find_frame, parse_device_info, start_frame};
use crate::devices::phlox_common::{DeviceInfoMsg, DeviceInfoMsgView, Frame, FrameView};
use crate::devices::phlox_common::MODULE_MASTER;
use crate::error::{DeviceError, DeviceErrorView};
use crate::text::{push_decimal, push_hex_bytes};

verus! {

/// The number of bytes that one read asks for.
pub const READ_CHUNK: usize = 512;

/// The USB interface that the driver claims.
pub const DEFAULT_INTERFACE: u8 = 0;

/// How long a handshake may take, in milliseconds.
pub const HANDSHAKE_TIMEOUT_MS: u64 = 2000;

/// The state of the driver.
pub struct Phlox {
    /// What has arrived and was not taken yet: a frame may be cut by USB transactions, and
    /// several may come in one.
    pub rx_buf: Vec<u8>,
    /// The identifier of the last request.
    pub next_rid: u8,
}

/// A [`Phlox`] with its buffer as a sequence.
#[verifier::ext_equal]
pub struct PhloxView {
    pub rx_buf: Seq<u8>,
    pub next_rid: u8,
}

impl View for Phlox {
    type V = PhloxView;

    open spec fn view(&self) -> PhloxView {
        PhloxView { rx_buf: self.rx_buf@, next_rid: self.next_rid }
    }
}

/// What reading a frame comes to.
pub enum ReadStep {
    /// A frame was there.
    Frame(Frame),
    /// There is no frame, and there is no time left.
    TimedOut,
    /// There is no frame yet: read a chunk and hand it over.
    Read,
}

/// What a handshake comes to.
pub enum HandshakeStep {
    /// The device answered.
    Done(DeviceInfoMsg),
    /// There is no answer, and there is no time left.
    TimedOut,
    /// There is no answer yet: read a chunk and hand it over.
    Read,
}

/// What a frame says as an answer to the request `rid`: it must come from the Master
/// module, be a valid "Device info", and carry the identifier of the request.
pub open spec fn answer(frame: FrameView, rid: u8) -> Option<DeviceInfoMsgView> {
    if frame.module_id != MODULE_MASTER {
        None
    } else {
        match crate::devices::phlox_common::device_info(frame.data) {
            Ok(info) => if info.rid == rid {
                Some(info)
            } else {
                None
            },
            Err(_) => None,
        }
    }
}

/// The first answer to `rid` in a buffer, and what is left behind it. Frames before it are
/// taken too.
pub open spec fn awaited(buf: Seq<u8>, rid: u8) -> (Option<DeviceInfoMsgView>, Seq<u8>)
    decreases buf.len(),
{
    match crate::devices::phlox_common::first_frame(buf) {
        None => (None, buf),
        Some((f, n)) => if !(0 < n <= buf.len()) {
            (None, buf)
        } else if answer(f, rid) is Some {
            (answer(f, rid), buf.skip(n))
        } else {
            awaited(buf.skip(n), rid)
        },
    }
}

impl Phlox {
    /// A driver that has received nothing.
    pub fn new() -> (p: Self)
        ensures
            p@ == (PhloxView { rx_buf: seq![], next_rid: 0 }),
    {
        Phlox { rx_buf: Vec::new(), next_rid: 0 }
    }

    /// Takes over a chunk that was read.
    pub fn receive(&mut self, chunk: &[u8])
        ensures
            final(self)@ == (PhloxView { rx_buf: old(self)@.rx_buf + chunk@, ..old(self)@ }),
    {
        self.rx_buf.extend_from_slice(chunk);
        assert(self.rx_buf@ =~= old(self).rx_buf@ + chunk@);
    }

    /// Takes the next frame out of the buffer. `expired` says that the deadline has passed;
    /// a frame that is there is taken all the same.
    pub fn read_frame(&mut self, expired: bool) -> (step: ReadStep)
        ensures
            final(self)@.next_rid == old(self)@.next_rid,
            match crate::devices::phlox_common::first_frame(old(self)@.rx_buf) {
                Some((f, n)) => {
                    &&& step matches ReadStep::Frame(g) && g@ == f
                    &&& final(self)@.rx_buf == old(self)@.rx_buf.skip(n)
                    &&& 4 <= n <= old(self)@.rx_buf.len()
                },
                None => {
                    &&& step == if expired {
                        ReadStep::TimedOut
                    } else {
                        ReadStep::Read
                    }
                    &&& final(self)@.rx_buf == old(self)@.rx_buf
                },
            },
    {
        match find_frame(self.rx_buf.as_slice()) {
            Some((frame, consumed)) => {
                let rest = self.rx_buf.split_off(consumed);
                self.rx_buf = rest;
                assert(self.rx_buf@ =~= old(self).rx_buf@.skip(consumed as int));
                ReadStep::Frame(frame)
            },
            None => if expired {
                ReadStep::TimedOut
            } else {
                ReadStep::Read
            },
        }
    }

    /// Starts a handshake: the identifier of the request, and the frame to send.
    pub fn start(&mut self) -> (r: (u8, Vec<u8>))
        ensures
            r.0 == (old(self)@.next_rid + 1) % 256,
            r.1@ == crate::devices::phlox_common::encoded(
                MODULE_MASTER,
                seq![crate::devices::phlox_common::MASTER_TYPE_START, r.0],
            ),
            final(self)@ == (PhloxView { next_rid: r.0, ..old(self)@ }),
    {
        self.next_rid = self.next_rid.wrapping_add(1);
        (self.next_rid, start_frame(self.next_rid))
    }

    /// Looks for the answer to the request `rid` among the frames that have arrived.
    pub fn handshake(&mut self, rid: u8, expired: bool) -> (step: HandshakeStep)
        ensures
            final(self)@.next_rid == old(self)@.next_rid,
            final(self)@.rx_buf == awaited(old(self)@.rx_buf, rid).1,
            match awaited(old(self)@.rx_buf, rid).0 {
                Some(info) => step matches HandshakeStep::Done(m) && m@ == info,
                None => step == if expired {
                    HandshakeStep::TimedOut
                } else {
                    HandshakeStep::Read
                },
            },
    {
        loop
            invariant
                self@.next_rid == old(self)@.next_rid,
                awaited(self@.rx_buf, rid) == awaited(old(self)@.rx_buf, rid),
            decreases self@.rx_buf.len(),
        {
            match self.read_frame(expired) {
                ReadStep::Frame(frame) => {
                    if frame.module_id == MODULE_MASTER {
                        if let Ok(info) = parse_device_info(frame.data.as_slice()) {
                            if info.rid == rid {
                                return HandshakeStep::Done(info);
                            }
                        }
                    }
                },
                ReadStep::TimedOut => {
                    return HandshakeStep::TimedOut;
                },
                ReadStep::Read => {
                    return HandshakeStep::Read;
                },
            }
        }
    }

    /// What the device can do: nothing but say its version, so far.
    pub fn capabilities(&self) -> (c: CapabilitySet)
        ensures
            c == CapabilitySet::none(),
    {
        CapabilitySet::none()
    }
}

/// How the stream is cut does not matter to a handshake: an answer that has arrived is
/// not changed by what follows, and without one the search goes on where it stopped.
pub proof fn law_handshake_in_pieces(a: Seq<u8>, b: Seq<u8>, rid: u8)
    ensures
        awaited(a, rid).0 is Some ==> awaited(a + b, rid) == (
            awaited(a, rid).0,
            awaited(a, rid).1 + b,
        ),
        awaited(a, rid).0 is None ==> awaited(a + b, rid) == awaited(
            awaited(a, rid).1 + b,
            rid,
        ),
    decreases a.len(),
{
    if let Some((f, n)) = crate::devices::phlox_common::first_frame(a) {
        crate::devices::phlox_common::law_append_keeps_first_frame(a, b);
        assert((a + b).skip(n) =~= a.skip(n) + b);
        law_handshake_in_pieces(a.skip(n), b, rid);
    }
}

/// An answer, once it has arrived in full, ends the handshake.
pub proof fn law_answer_is_taken(frame: FrameView, rest: Seq<u8>, rid: u8)
    requires
        frame.data.len() < 65536,
        answer(frame, rid) is Some,
    ensures
        awaited(
            crate::devices::phlox_common::encoded(frame.module_id, frame.data) + rest,
            rid,
        ) == (answer(frame, rid), rest),
{
    let e = crate::devices::phlox_common::encoded(frame.module_id, frame.data);
    crate::devices::phlox_common::law_frame_round_trip(frame.module_id, frame.data, rest);
    assert((e + rest).skip(e.len() as int) =~= rest);
}

/// A version and a subversion as text.
pub open spec fn dotted(version: u8, subversion: u8) -> Seq<char> {
    crate::text::decimal(version as nat) + "."@ + crate::text::decimal(subversion as nat)
}

/// The version that a device reports.
pub fn version_text(info: &DeviceInfoMsg) -> (s: String)
    ensures
        s@ == crate::text::decimal(info.version as nat) + "."@ + crate::text::decimal(
            info.subversion as nat,
        ),
        s@ == dotted(info.version, info.subversion),
{
    let mut s = String::new();
    push_decimal(&mut s, info.version as u64);
    s.append(".");
    push_decimal(&mut s, info.subversion as u64);
    assert(s@ =~= crate::text::decimal(info.version as nat) + "."@ + crate::text::decimal(
        info.subversion as nat,
    ));
    s
}

/// The text of a dump: at most 64 bytes, and how many more there are.
pub open spec fn dump(data: Seq<u8>) -> Seq<char> {
    if data.len() <= 64 {
        crate::text::hex_bytes(data, " "@)
    } else {
        crate::text::hex_bytes(data.take(64), " "@) + "... (+"@ + crate::text::decimal(
            (data.len() - 64) as nat,
        ) + " байт)"@
    }
}

/// Bytes as text, for the log.
pub fn hex_dump(data: &[u8]) -> (s: String)
    ensures
        s@ == dump(data@),
{
    let mut s = String::new();
    if data.len() <= 64 {
        push_hex_bytes(&mut s, data, " ");
    } else {
        push_hex_bytes(&mut s, vstd::slice::slice_subrange(data, 0, 64), " ");
        assert(data@.subrange(0, 64) =~= data@.take(64));
        s.append("... (+");
        push_decimal(&mut s, (data.len() - 64) as u64);
        s.append(" байт)");
    }
    assert(s@ =~= dump(data@));
    s
}

/// The direction of an endpoint, as the host sees it.
#[derive(Debug, Clone, Copy, PartialEq, Eq, Structural)]
pub enum EndpointDirection {
    Out,
    In,
}

/// An endpoint of a USB interface.
#[derive(Debug, Clone, Copy, PartialEq, Eq, Structural)]
pub struct EndpointDesc {
    /// Whether the endpoint makes bulk transfers.
    pub bulk: bool,
    pub direction: EndpointDirection,
    pub address: u8,
}

/// The address of the first bulk endpoint in a direction.
pub open spec fn first_bulk(endpoints: Seq<EndpointDesc>, direction: EndpointDirection) -> Option<
    u8,
>
    decreases endpoints.len(),
{
    if endpoints.len() == 0 {
        None
    } else if first_bulk(endpoints.drop_last(), direction) is Some {
        first_bulk(endpoints.drop_last(), direction)
    } else if endpoints.last().bulk && endpoints.last().direction == direction {
        Some(endpoints.last().address)
    } else {
        None
    }
}

/// The pair of bulk endpoints of an interface, or why there is none.
pub open spec fn bulk_pair(endpoints: Option<Seq<EndpointDesc>>) -> Result<
    (u8, u8),
    DeviceErrorView,
> {
    match endpoints {
        None => Err(DeviceErrorView::Protocol("нет дескриптора интерфейса"@)),
        Some(eps) => match (
            first_bulk(eps, EndpointDirection::Out),
            first_bulk(eps, EndpointDirection::In),
        ) {
            (Some(o), Some(i)) => Ok((o, i)),
            _ => Err(
                DeviceErrorView::Protocol(
                    "не найдена пара bulk-эндпоинтов IN/OUT на интерфейсе"@,
                ),
            ),
        },
    }
}

/// Finds the first bulk endpoint OUT and the first bulk endpoint IN of an interface whose
/// endpoints are given; `None` stands for an interface without a descriptor.
pub fn discover_bulk_endpoints(endpoints: Option<&[EndpointDesc]>) -> (r: Result<
    (u8, u8),
    DeviceError,
>)
    ensures
        crate::error::device_outcome(r) == bulk_pair(
            match endpoints {
                None => None,
                Some(eps) => Some(eps@),
            },
        ),
{
    let eps = match endpoints {
        None => {
            return Err(DeviceError::Protocol("нет дескриптора интерфейса".to_owned()));
        },
        Some(eps) => eps,
    };
    let mut out_ep: Option<u8> = None;
    let mut in_ep: Option<u8> = None;
    for i in 0..eps.len()
        invariant
            out_ep == first_bulk(eps@.take(i as int), EndpointDirection::Out),
            in_ep == first_bulk(eps@.take(i as int), EndpointDirection::In),
    {
        assert(eps@.take(i + 1).drop_last() =~= eps@.take(i as int));
        let ep = eps[i];
        if ep.bulk {
            match ep.direction {
                EndpointDirection::Out => if out_ep.is_none() {
                    out_ep = Some(ep.address);
                },
                EndpointDirection::In => if in_ep.is_none() {
                    in_ep = Some(ep.address);
                },
            }
        }
    }
    assert(eps@.take(eps@.len() as int) =~= eps@);
    match (out_ep, in_ep) {
        (Some(o), Some(i)) => Ok((o, i)),
        _ => Err(
            DeviceError::Protocol(
                "не найдена пара bulk-эндпоинтов IN/OUT на интерфейсе".to_owned(),
            ),
        ),
    }
}

/// A frame answers a request only if it comes from the Master module and is "Device info" with
/// the number of the request.
pub proof fn law_answer_belongs_to_request(frame: FrameView, rid: u8)
    ensures
        answer(frame, rid) matches Some(info) ==> {
            &&& frame.module_id == 0
            &&& info.rid == rid
            &&& frame.data[0] == 0x01
            &&& frame.data[3] == rid
            &&& crate::devices::phlox_common::device_info(frame.data) == Ok::<_, DeviceErrorView>(
                info,
            )
        },
        frame.module_id == 0 ==> match crate::devices::phlox_common::device_info(frame.data) {
            Ok(info) => info.rid == rid ==> answer(frame, rid) == Some(info),
            Err(_) => answer(frame, rid) is None,
        },
{
    crate::devices::phlox_common::law_device_info_is_complete(frame.data);
}

/// "Device info" that a device sends with the number of the request ends the handshake, and
/// is what the device wrote; what comes behind it is kept.
pub proof fn law_handshake_reads_device_info(
    time: u16,
    rid: u8,
    version: u8,
    subversion: u8,
    compat_version: u8,
    records: Seq<crate::devices::phlox_common::ModuleRecord>,
    rest: Seq<u8>,
)
    requires
        forall|i: int| 0 <= i < records.len() ==> (#[trigger] records[i]).fits(),
        crate::devices::phlox_common::device_info_bytes(
            time,
            rid,
            version,
            subversion,
            compat_version,
            records,
        ).len() < 65536,
    ensures
        awaited(
            crate::devices::phlox_common::encoded(
                0,
                crate::devices::phlox_common::device_info_bytes(
                    time,
                    rid,
                    version,
                    subversion,
                    compat_version,
                    records,
                ),
            ) + rest,
            rid,
        ) == (
            Some(
                DeviceInfoMsgView {
                    time,
                    rid,
                    version,
                    subversion,
                    compat_version,
                    modules: records.map_values(
                        |r: crate::devices::phlox_common::ModuleRecord| r.module(),
                    ),
                },
            ),
            rest,
        ),
{
    let data = crate::devices::phlox_common::device_info_bytes(
        time,
        rid,
        version,
        subversion,
        compat_version,
        records,
    );
    crate::devices::phlox_common::law_device_info_round_trip(
        time,
        rid,
        version,
        subversion,
        compat_version,
        records,
    );
    law_answer_belongs_to_request(FrameView { module_id: 0, data }, rid);
    law_answer_is_taken(FrameView { module_id: 0, data }, rest, rid);
}

/// A frame of another module, or with the number of another request, is taken and does not
/// end the handshake.
pub proof fn law_handshake_skips_other_frames(frame: FrameView, rest: Seq<u8>, rid: u8)
    requires
        frame.data.len() < 65536,
        frame.module_id != 0 || frame.data.len() < 7 || frame.data[0] != 0x01 || frame.data[3]
            != rid,
    ensures
        awaited(
            crate::devices::phlox_common::encoded(frame.module_id, frame.data) + rest,
            rid,
        ) == awaited(rest, rid),
{
    let e = crate::devices::phlox_common::encoded(frame.module_id, frame.data);
    crate::devices::phlox_common::law_frame_round_trip(frame.module_id, frame.data, rest);
    crate::devices::phlox_common::law_device_info_is_complete(frame.data);
    law_answer_belongs_to_request(frame, rid);
    assert((e + rest).skip(e.len() as int) =~= rest);
}

/// A dump shows each of the first 64 bytes by two digits and a space; behind them it says how
/// many more there are.
pub proof fn law_dump_shows_bytes(data: Seq<u8>, i: int)
    requires
        0 <= i < data.len(),
        i < 64,
    ensures
        crate::text::digits_value(dump(data).subrange(3 * i, 3 * i + 2), 16) == data[i],
        dump(data)[3 * i + 2] == ' ',
        data.len() <= 64 ==> dump(data).len() == 3 * data.len(),
        data.len() > 64 ==> dump(data).skip(192) == "... (+"@ + crate::text::decimal(
            (data.len() - 64) as nat,
        ) + " байт)"@,
{
    let shown = if data.len() <= 64 {
        data
    } else {
        data.take(64)
    };
    let text = crate::text::hex_bytes(shown, " "@);
    lemma_spaced_digits(shown, i);
    assert(dump(data).take(text.len() as int) =~= text);
    assert(dump(data).subrange(3 * i, 3 * i + 2) =~= text.subrange(3 * i, 3 * i + 2));
    assert(dump(data)[3 * i + 2] == text[3 * i + 2]);
    if data.len() > 64 {
        assert(dump(data).skip(192) =~= "... (+"@ + crate::text::decimal(
            (data.len() - 64) as nat,
        ) + " байт)"@);
    }
}

/// Bytes followed by spaces take three characters each.
proof fn lemma_spaced_digits(s: Seq<u8>, i: int)
    requires
        0 <= i < s.len(),
    ensures
        crate::text::hex_bytes(s, " "@).len() == 3 * s.len(),
        crate::text::digits_value(
            crate::text::hex_bytes(s, " "@).subrange(3 * i, 3 * i + 2),
            16,
        ) == s[i],
        crate::text::hex_bytes(s, " "@)[3 * i + 2] == ' ',
{
    reveal_strlit(" ");
    crate::text::law_hex_bytes_layout(s, " "@, i);
    let (n, w) = (s.len() as int, 2 + " "@.len());
    assert(i * w == 3 * i && n * w == 3 * n) by (nonlinear_arith)
        requires
            w == 3,
    ;
    let text = crate::text::hex_bytes(s, " "@);
    assert(text.subrange(3 * i + 2, 3 * i + 3)[0] == text[3 * i + 2]);
}

/// The endpoint that is taken in a direction is the first that makes bulk transfers in it, and
/// one is taken wherever there is one.
pub proof fn law_first_bulk_endpoint(eps: Seq<EndpointDesc>, direction: EndpointDirection, i: int)
    requires
        0 <= i < eps.len(),
        eps[i].bulk,
        eps[i].direction == direction,
        forall|j: int| 0 <= j < i ==> !((#[trigger] eps[j]).bulk && eps[j].direction == direction),
    ensures
        first_bulk(eps, direction) == Some(eps[i].address),
    decreases eps.len(),
{
    let init = eps.drop_last();
    if i < eps.len() - 1 {
        assert forall|j: int| 0 <= j < i implies !((#[trigger] init[j]).bulk && init[j].direction
            == direction) by {
            assert(init[j] == eps[j]);
        }
        law_first_bulk_endpoint(init, direction, i);
    } else {
        lemma_no_bulk_endpoint(init, direction);
    }
}

/// Where no endpoint fits none is taken.
proof fn lemma_no_bulk_endpoint(eps: Seq<EndpointDesc>, direction: EndpointDirection)
    requires
        forall|j: int|
            0 <= j < eps.len() ==> !((#[trigger] eps[j]).bulk && eps[j].direction == direction),
    ensures
        first_bulk(eps, direction) is None,
    decreases eps.len(),
{
    if eps.len() > 0 {
        assert(!(eps[eps.len() - 1].bulk && eps[eps.len() - 1].direction == direction));
        assert forall|j: int| 0 <= j < eps.drop_last().len() implies !((
        #[trigger] eps.drop_last()[j]).bulk && eps.drop_last()[j].direction == direction) by {
            assert(eps.drop_last()[j] == eps[j]);
        }
        lemma_no_bulk_endpoint(eps.drop_last(), direction);
    }
}

/// A pair of endpoints is found exactly where there is a bulk endpoint in each direction: the
/// one to write to, then the one to read from.
pub proof fn law_bulk_pair(eps: Seq<EndpointDesc>, o: int, i: int)
    requires
        0 <= o < eps.len() && eps[o].bulk && eps[o].direction == EndpointDirection::Out,
        0 <= i < eps.len() && eps[i].bulk && eps[i].direction == EndpointDirection::In,
        forall|j: int|
            0 <= j < o ==> !((#[trigger] eps[j]).bulk && eps[j].direction
                == EndpointDirection::Out),
        forall|j: int|
            0 <= j < i ==> !((#[trigger] eps[j]).bulk && eps[j].direction
                == EndpointDirection::In),
    ensures
        bulk_pair(Some(eps)) == Ok::<_, DeviceErrorView>((eps[o].address, eps[i].address)),
{
    law_first_bulk_endpoint(eps, EndpointDirection::Out, o);
    law_first_bulk_endpoint(eps, EndpointDirection::In, i);
}

/// Where a direction has no bulk endpoint, or there is no descriptor, there is no pair.
pub proof fn law_no_bulk_pair(eps: Seq<EndpointDesc>, direction: EndpointDirection)
    requires
        forall|j: int|
            0 <= j < eps.len() ==> !((#[trigger] eps[j]).bulk && eps[j].direction == direction),
    ensures
        bulk_pair(Some(eps)) == Err::<(u8, u8), _>(
            DeviceErrorView::Protocol("не найдена пара bulk-эндпоинтов IN/OUT на интерфейсе"@),
        ),
        bulk_pair(None) == Err::<(u8, u8), _>(
            DeviceErrorView::Protocol("нет дескриптора интерфейса"@),
        ),
{
    lemma_no_bulk_endpoint(eps, direction);
}

/// A version reads: the version in decimal, a full stop, the subversion in decimal.
pub proof fn law_version_reads(version: u8, subversion: u8)
    ensures
        exists|n: int|
            0 < n < dotted(version, subversion).len() && #[trigger] dotted(
                version,
                subversion,
            )[n] == '.' && crate::text::digits_value(dotted(version, subversion).take(n), 10)
                == version && crate::text::digits_value(
                dotted(version, subversion).skip(n + 1),
                10,
            ) == subversion,
{
    reveal_strlit(".");
    let (a, b) = (crate::text::decimal(version as nat), crate::text::decimal(subversion as nat));
    let n = a.len() as int;
    crate::text::law_decimal_reads_back(version as nat);
    crate::text::law_decimal_reads_back(subversion as nat);
    assert(dotted(version, subversion).take(n) =~= a);
    assert(dotted(version, subversion).skip(n + 1) =~= b);
    assert(dotted(version, subversion)[n] == '.');
}

/// The driver claims the first interface, reads 512 bytes at a time and gives a handshake two
/// seconds.
pub proof fn law_limits()
    ensures
        DEFAULT_INTERFACE == 0,
        READ_CHUNK == 512,
        HANDSHAKE_TIMEOUT_MS == 2 * 1000,
{
}

/// Every frame that is no answer is taken and does not end the handshake.
pub proof fn law_handshake_goes_on(frame: FrameView, rest: Seq<u8>, rid: u8)
    requires
        frame.data.len() < 65536,
        answer(frame, rid) is None,
    ensures
        awaited(
            crate::devices::phlox_common::encoded(frame.module_id, frame.data) + rest,
            rid,
        ) == awaited(rest, rid),
{
    let e = crate::devices::phlox_common::encoded(frame.module_id, frame.data);
    crate::devices::phlox_common::law_frame_round_trip(frame.module_id, frame.data, rest);
    assert((e + rest).skip(e.len() as int) =~= rest);
}

/// While there is no frame, nothing is taken.
pub proof fn law_handshake_waits(buf: Seq<u8>, rid: u8)
    requires
        crate::devices::phlox_common::first_frame(buf) is None,
    ensures
        awaited(buf, rid) == (None::<DeviceInfoMsgView>, buf),
{
}

} // verus!
