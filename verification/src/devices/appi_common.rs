//! What the APPI family has in common: the layout of the receive buffer, and the packets
//! for CAN, UART and generator. The models differ in capabilities and buffer parameters.

use vstd::prelude::*;
use crate::bytes::{u16_to_be, u32_to_be};
use crate::error::{DeviceError, DeviceErrorView};
use crate::text::{push_decimal, push_hex2, push_hex_bytes};
use crate::types::{BaudRate, CanFrame, CanFrameView, CanInterface, GenSettings, UartMode};

verus! {

pub const WRITE_EP: u8 = 0x01;

pub const READ_EP: u8 = 0x82;

/// The size of the slot of one CAN frame: descriptor (2) and data (8).
pub const SLOT_SIZE: usize = 10;

/// Command code: configure an interface.
pub const CMD_CONFIG: u8 = 0x01;

/// Command code: send data to an interface.
pub const CMD_DATA: u8 = 0x02;

/// Command code: ask for the version.
pub const CMD_VERSION: u8 = 0x09;

/// The layout of the receive buffer of a model.
#[derive(Debug, Clone, Copy)]
pub struct BufferLayout {
    /// The size of the whole buffer, in bytes.
    pub total: usize,
    /// Where the slots of CAN1 (CAN_A) start.
    pub can1_start: usize,
    /// Where the slots of CAN2 (CAN_B) start.
    pub can2_start: usize,
    /// The number of slots for each interface.
    pub slots: usize,
}

impl BufferLayout {
    /// The layout of the APPI.
    #[verifier::allow_in_spec]
    pub fn appi() -> Self
        returns
            (BufferLayout { total: 2048, can1_start: 24, can2_start: 524, slots: 45 }),
    {
        BufferLayout { total: 2048, can1_start: 24, can2_start: 524, slots: 45 }
    }

    /// The layout of the BS-KPA.
    #[verifier::allow_in_spec]
    pub fn bs_kpa() -> Self
        returns
            (BufferLayout { total: 2048, can1_start: 24, can2_start: 224, slots: 20 }),
    {
        BufferLayout { total: 2048, can1_start: 24, can2_start: 224, slots: 20 }
    }

    /// Where the slots of an interface start, if the buffer holds any.
    #[verifier::allow_in_spec]
    pub fn start_for(&self, iface: CanInterface) -> Option<usize>
        returns
            match iface {
                CanInterface::Can1 => Some(self.can1_start),
                CanInterface::Can2 => Some(self.can2_start),
                _ => None,
            },
    {
        match iface {
            CanInterface::Can1 => Some(self.can1_start),
            CanInterface::Can2 => Some(self.can2_start),
            _ => None,
        }
    }
}

/// The byte by which the hardware selects an interface.
#[verifier::allow_in_spec]
pub fn iface_byte(iface: CanInterface) -> Option<u8>
    returns
        match iface {
            CanInterface::Can1 => Some(0x02u8),
            CanInterface::Can2 => Some(0x03u8),
            CanInterface::CanTech => Some(0x13u8),
            CanInterface::Can3 => Some(0x22u8),
            CanInterface::Can4 => Some(0x23u8),
        },
{
    match iface {
        CanInterface::Can1 => Some(0x02),
        CanInterface::Can2 => Some(0x03),
        CanInterface::CanTech => Some(0x13),
        CanInterface::Can3 => Some(0x22),
        CanInterface::Can4 => Some(0x23),
    }
}

/// No two interfaces share a selection byte.
pub proof fn law_iface_bytes_distinct(a: CanInterface, b: CanInterface)
    ensures
        iface_byte(a) is Some,
        iface_byte(a) == iface_byte(b) ==> a == b,
{
}

/// Whether a received buffer is one that the device writes, by its command code.
pub fn is_valid_buffer(buf: &[u8]) -> (valid: bool)
    ensures
        valid == (buf@.len() > 0 && (buf@[0] == CMD_CONFIG || buf@[0] == CMD_DATA || buf@[0]
            == CMD_VERSION)),
{
    !buf.is_empty() && (buf[0] == CMD_CONFIG || buf[0] == CMD_DATA || buf[0] == CMD_VERSION)
}

/// The byte at `i`, or zero if the buffer ends before it.
pub open spec fn byte_or_zero(buf: Seq<u8>, i: int) -> u8 {
    if i < buf.len() {
        buf[i]
    } else {
        0
    }
}

/// The numbers of new frames on CAN1 and on CAN2.
pub fn new_frame_counts(buf: &[u8]) -> (r: (u8, u8))
    ensures
        r == (byte_or_zero(buf@, 6), byte_or_zero(buf@, 2)),
{
    let can1: u8 = if buf.len() > 6 {
        buf[6]
    } else {
        0
    };
    let can2: u8 = if buf.len() > 2 {
        buf[2]
    } else {
        0
    };
    (can1, can2)
}

/// The frames in the first `count` slots from `start`; empty slots and slots past the end
/// of the buffer hold none.
pub open spec fn frames_in(buf: Seq<u8>, start: int, count: int) -> Seq<CanFrameView>
    decreases count,
{
    if count <= 0 {
        seq![]
    } else {
        let before = frames_in(buf, start, count - 1);
        let off = start + (count - 1) * SLOT_SIZE;
        if off + SLOT_SIZE > buf.len() {
            before
        } else {
            match crate::types::decode_slot(buf.subrange(off, off + SLOT_SIZE)) {
                None => before,
                Some(f) => before.push(f),
            }
        }
    }
}

/// The number of slots to look at.
pub open spec fn slot_count(layout: BufferLayout, limit: Option<usize>) -> int {
    match limit {
        Some(n) if n < layout.slots => n as int,
        _ => layout.slots as int,
    }
}

/// The frames of an interface in a buffer, or why there can be none.
pub open spec fn frames_of(
    buf: Seq<u8>,
    layout: BufferLayout,
    iface: CanInterface,
    limit: Option<usize>,
) -> Result<Seq<CanFrameView>, DeviceErrorView> {
    match layout.start_for(iface) {
        None => Err(
            DeviceErrorView::Protocol("интерфейс "@ + iface.spec_name() + " не в буфере"@),
        ),
        Some(start) => Ok(frames_in(buf, start as int, slot_count(layout, limit))),
    }
}

/// The frames of a list, by their views.
pub open spec fn frame_views(frames: Seq<CanFrame>) -> Seq<CanFrameView> {
    frames.map_values(|f: CanFrame| f@)
}

/// An outcome with both sides taken by their views.
pub open spec fn frames_outcome(r: Result<Vec<CanFrame>, DeviceError>) -> Result<
    Seq<CanFrameView>,
    DeviceErrorView,
> {
    match r {
        Ok(frames) => Ok(frame_views(frames@)),
        Err(e) => Err(e@),
    }
}

/// Whether the first slot of an interface ends at an address that there is.
pub open spec fn addressable(layout: BufferLayout, iface: CanInterface) -> bool {
    layout.start_for(iface) matches Some(start) ==> start + SLOT_SIZE <= usize::MAX
}

/// Slots past the end of the buffer add nothing.
proof fn lemma_frames_in_stop(buf: Seq<u8>, start: int, from: int, count: int)
    requires
        0 <= from <= count,
        start + from * SLOT_SIZE + SLOT_SIZE > buf.len(),
    ensures
        frames_in(buf, start, count) == frames_in(buf, start, from),
    decreases count,
{
    if from < count {
        lemma_frames_in_stop(buf, start, from, count - 1);
    }
}

/// Reads the frames of an interface out of a received buffer: at most `limit` slots, and
/// only those that are not empty.
pub fn parse_frames(
    buf: &[u8],
    layout: &BufferLayout,
    iface: CanInterface,
    limit: Option<usize>,
) -> (r: Result<Vec<CanFrame>, DeviceError>)
    requires
        slot_count(*layout, limit) > 0 ==> addressable(*layout, iface),
    ensures
        frames_outcome(r) == frames_of(buf@, *layout, iface, limit),
{
    let start: usize = match layout.start_for(iface) {
        None => {
            let mut text = "интерфейс ".to_owned();
            text.append(iface.name());
            text.append(" не в буфере");
            return Err(DeviceError::Protocol(text));
        },
        Some(start) => start,
    };
    let count: usize = match limit {
        Some(n) => if n < layout.slots {
            n
        } else {
            layout.slots
        },
        None => layout.slots,
    };
    let mut frames: Vec<CanFrame> = Vec::new();
    assert(frame_views(frames@) =~= seq![]);
    let mut off: usize = start;
    let mut i: usize = 0;
    while i < count
        invariant
            i <= count,
            off == start + i * SLOT_SIZE,
            i == 0 || off <= buf.len(),
            frame_views(frames@) == frames_in(buf@, start as int, i as int),
        ensures
            frame_views(frames@) == frames_in(buf@, start as int, count as int),
        decreases count - i,
    {
        if buf.len() < SLOT_SIZE || off > buf.len() - SLOT_SIZE {
            proof {
                lemma_frames_in_stop(buf@, start as int, i as int, count as int);
            }
            break;
        }
        let slot = [
            buf[off],
            buf[off + 1],
            buf[off + 2],
            buf[off + 3],
            buf[off + 4],
            buf[off + 5],
            buf[off + 6],
            buf[off + 7],
            buf[off + 8],
            buf[off + 9],
        ];
        assert(slot@ =~= buf@.subrange(off as int, off + SLOT_SIZE));
        let ghost before = frames@;
        if let Some(frame) = CanFrame::from_slot_be(&slot) {
            frames.push(frame);
            assert(frame_views(frames@) =~= frame_views(before).push(frame@));
        }
        off = off + SLOT_SIZE;
        i = i + 1;
    }
    Ok(frames)
}

/// No more frames come out than slots were looked at.
pub proof fn law_limit_is_kept(buf: Seq<u8>, start: int, count: int)
    requires
        0 <= count,
    ensures
        frames_in(buf, start, count).len() <= count,
    decreases count,
{
    if count > 0 {
        law_limit_is_kept(buf, start, count - 1);
    }
}

/// Frames whose slots a device has filled one after the other are read back in order.
pub proof fn law_frames_read_back(buf: Seq<u8>, start: int, frames: Seq<CanFrameView>)
    requires
        0 <= start,
        start + frames.len() * SLOT_SIZE <= buf.len(),
        forall|i: int|
            #![trigger frames[i]]
            0 <= i < frames.len() ==> {
                &&& buf.subrange(start + i * SLOT_SIZE, start + i * SLOT_SIZE + SLOT_SIZE)
                    == frames[i].slot()
                &&& frames[i].data.len() == 8
                &&& frames[i].id < 2048
                &&& frames[i].size < 16
                &&& frames[i].id != 0 || frames[i].size != 0 || !crate::types::slot_empty(
                    frames[i].data,
                )
            },
    ensures
        frames_in(buf, start, frames.len() as int) == frames,
    decreases frames.len(),
{
    if frames.len() == 0 {
        assert(frames_in(buf, start, 0) =~= frames);
    } else {
        let n = frames.len() - 1;
        let init = frames.drop_last();
        assert forall|i: int| #![trigger init[i]] 0 <= i < init.len() implies {
            &&& buf.subrange(start + i * SLOT_SIZE, start + i * SLOT_SIZE + SLOT_SIZE)
                == init[i].slot()
            &&& init[i].data.len() == 8
            &&& init[i].id < 2048
            &&& init[i].size < 16
            &&& init[i].id != 0 || init[i].size != 0 || !crate::types::slot_empty(init[i].data)
        } by {
            assert(init[i] == frames[i]);
        }
        law_frames_read_back(buf, start, init);
        assert(frames[n] == frames.last());
        crate::types::law_slot_round_trip(frames.last());
        assert(init.push(frames.last()) =~= frames);
    }
}

/// The packet that turns the analyser mode on.
pub fn pkt_analyzer_mode() -> (p: [u8; 4])
    ensures
        p@ == seq![0x04u8, 0x01, 0x01, 0x00],
{
    let p = [0x04u8, 0x01, 0x01, 0x00];
    assert(p@ =~= seq![0x04u8, 0x01, 0x01, 0x00]);
    p
}

/// The packet that asks for the version.
pub fn pkt_version() -> (p: [u8; 2])
    ensures
        p@ == seq![0x09u8, 0x01],
{
    let p = [0x09u8, 0x01];
    assert(p@ =~= seq![0x09u8, 0x01]);
    p
}

/// The bytes that set the speed of an interface.
pub open spec fn baud_bytes(iface: CanInterface, baud: BaudRate) -> Seq<u8> {
    seq![iface_byte(iface).unwrap(), CMD_CONFIG, (baud.0 % 256) as u8, (baud.0 / 256) as u8]
}

/// The packet that sets the speed of an interface.
pub fn pkt_set_baud(iface: CanInterface, baud: BaudRate) -> (r: Result<[u8; 4], DeviceError>)
    ensures
        r is Ok,
        r->Ok_0@ == baud_bytes(iface, baud),
{
    let ib: u8 = match iface_byte(iface) {
        Some(b) => b,
        None => {
            return Err(no_byte(iface));
        },
    };
    let p = [ib, CMD_CONFIG, baud.lo(), baud.hi()];
    assert(p@ =~= baud_bytes(iface, baud));
    Ok(p)
}

/// The error for an interface that the hardware cannot select.
fn no_byte(iface: CanInterface) -> (e: DeviceError)
    ensures
        e@ == DeviceErrorView::Protocol("интерфейс "@ + iface.spec_name() + " без байта"@),
{
    let mut text = "интерфейс ".to_owned();
    text.append(iface.name());
    text.append(" без байта");
    DeviceError::Protocol(text)
}

/// The bytes that send a frame.
pub open spec fn can_write_bytes(
    iface: CanInterface,
    frame: CanFrameView,
    counter: u8,
) -> Seq<u8> {
    seq![iface_byte(iface).unwrap(), CMD_DATA, counter, 0x01, 0, 0, 0, 0, 0, 0] + frame.slot()
}

/// The packet that sends a frame.
pub fn pkt_can_write(iface: CanInterface, frame: &CanFrame, counter: u8) -> (r: Result<
    Vec<u8>,
    DeviceError,
>)
    ensures
        r is Ok,
        r->Ok_0@ == can_write_bytes(iface, frame@, counter),
{
    let ib: u8 = match iface_byte(iface) {
        Some(b) => b,
        None => {
            return Err(no_byte(iface));
        },
    };
    let head = [ib, CMD_DATA, counter, 0x01, 0, 0, 0, 0, 0, 0];
    let slot = frame.to_slot_be();
    let mut pkt: Vec<u8> = Vec::new();
    pkt.extend_from_slice(head.as_slice());
    pkt.extend_from_slice(slot.as_slice());
    assert(pkt@ =~= can_write_bytes(iface, frame@, counter));
    Ok(pkt)
}

/// The frame of a packet that sends one stands in the packet's last ten bytes.
pub proof fn law_can_write_carries_frame(iface: CanInterface, frame: CanFrameView, counter: u8)
    requires
        frame.data.len() == 8,
        frame.id < 2048,
        frame.size < 16,
        frame.id != 0 || frame.size != 0 || !crate::types::slot_empty(frame.data),
    ensures
        can_write_bytes(iface, frame, counter).len() == 20,
        crate::types::decode_slot(can_write_bytes(iface, frame, counter).subrange(10, 20))
            == Some(frame),
{
    assert(can_write_bytes(iface, frame, counter).subrange(10, 20) =~= frame.slot());
    crate::types::law_slot_round_trip(frame);
}

/// The bytes that set the mode of the UART.
pub open spec fn uart_mode_bytes(mode: UartMode) -> Seq<u8> {
    seq![0x01u8, CMD_CONFIG, mode.code(), 0x00]
}

/// The packet that sets the mode of the UART.
pub fn pkt_uart_configure(mode: UartMode) -> (p: [u8; 4])
    ensures
        p@ == seq![0x01u8, CMD_CONFIG, mode.code(), 0x00],
        p@ == uart_mode_bytes(mode),
{
    let p = [0x01u8, CMD_CONFIG, mode.as_u8(), 0x00];
    assert(p@ =~= seq![0x01u8, CMD_CONFIG, mode.code(), 0x00]);
    p
}

/// The bytes that send data to the UART. The length field has sixteen bits.
pub open spec fn uart_write_bytes(data: Seq<u8>) -> Seq<u8> {
    seq![0x01u8, CMD_DATA, 0, 0, 0, 0, 0, 0] + crate::bytes::be16((data.len() % 65536) as u16)
        + data
}

/// The packet that sends data to the UART.
pub fn pkt_uart_write(data: &[u8]) -> (pkt: Vec<u8>)
    ensures
        pkt@ == uart_write_bytes(data@),
{
    let len = u16_to_be((data.len() % 65536) as u16);
    let head = [0x01u8, CMD_DATA, 0, 0, 0, 0, 0, 0];
    let mut pkt: Vec<u8> = Vec::new();
    pkt.extend_from_slice(head.as_slice());
    pkt.extend_from_slice(len.as_slice());
    pkt.extend_from_slice(data);
    assert(pkt@ =~= uart_write_bytes(data@));
    pkt
}

/// The bytes that set up the generator.
pub open spec fn gen_set_bytes(s: GenSettings) -> Seq<u8> {
    seq![
        0x05u8,
        CMD_DATA,
        0,
        0,
        0,
        s.code.number(),
        if s.gain_x10 {
            1
        } else {
            0
        },
    ] + crate::bytes::be16(s.dac) + seq![s.alsn_code] + crate::bytes::be32(s.frequency)
        + crate::bytes::be16(s.alsen_sg_kk) + seq![s.saut_freq] + s.saut_blocks@
}

/// The packet that sets up the generator.
pub fn pkt_gen_set(s: &GenSettings) -> (pkt: Vec<u8>)
    ensures
        pkt@ == gen_set_bytes(*s),
{
    let gain: u8 = if s.gain_x10 {
        1
    } else {
        0
    };
    let head = [0x05u8, CMD_DATA, 0, 0, 0, s.code.as_u8(), gain];
    let mut pkt: Vec<u8> = Vec::new();
    pkt.extend_from_slice(head.as_slice());
    pkt.extend_from_slice(u16_to_be(s.dac).as_slice());
    pkt.push(s.alsn_code);
    pkt.extend_from_slice(u32_to_be(s.frequency).as_slice());
    pkt.extend_from_slice(u16_to_be(s.alsen_sg_kk).as_slice());
    pkt.push(s.saut_freq);
    pkt.extend_from_slice(s.saut_blocks.as_slice());
    assert(pkt@ =~= gen_set_bytes(*s));
    pkt
}

/// The bytes that set the frequency of a channel.
pub open spec fn gen_frequency_bytes(channel: u8, frequency: u32) -> Seq<u8> {
    seq![0x02u8, channel] + crate::bytes::be32(frequency)
}

/// The bytes that set the amplitude of a channel.
pub open spec fn gen_amplitude_bytes(channel: u8, amplitude: u16) -> Seq<u8> {
    seq![0x03u8, channel] + crate::bytes::be16(amplitude)
}

/// The packet that sets the frequency of a channel.
pub fn pkt_gen_frequency(channel: u8, frequency: u32) -> (pkt: Vec<u8>)
    ensures
        pkt@ == seq![0x02u8, channel] + crate::bytes::be32(frequency),
        pkt@ == gen_frequency_bytes(channel, frequency),
{
    let mut pkt: Vec<u8> = Vec::new();
    pkt.push(0x02);
    pkt.push(channel);
    pkt.extend_from_slice(u32_to_be(frequency).as_slice());
    assert(pkt@ =~= seq![0x02u8, channel] + crate::bytes::be32(frequency));
    pkt
}

/// The packet that sets the amplitude of a channel.
pub fn pkt_gen_amplitude(channel: u8, amplitude: u16) -> (pkt: Vec<u8>)
    ensures
        pkt@ == seq![0x03u8, channel] + crate::bytes::be16(amplitude),
        pkt@ == gen_amplitude_bytes(channel, amplitude),
{
    let mut pkt: Vec<u8> = Vec::new();
    pkt.push(0x03);
    pkt.push(channel);
    pkt.extend_from_slice(u16_to_be(amplitude).as_slice());
    assert(pkt@ =~= seq![0x03u8, channel] + crate::bytes::be16(amplitude));
    pkt
}

/// A receive buffer that is being filled.
pub struct BufferAssembly {
    /// What has arrived.
    pub data: Vec<u8>,
    /// The size of the whole buffer.
    pub total: usize,
}

impl BufferAssembly {
    /// Whether no more has arrived than the buffer holds.
    pub open spec fn wf(self) -> bool {
        self.data@.len() <= self.total
    }

    /// An empty buffer of the given layout.
    pub fn new(layout: &BufferLayout) -> (b: Self)
        ensures
            b.wf(),
            b.data@ == Seq::<u8>::empty(),
            b.total == layout.total,
    {
        BufferAssembly { data: Vec::new(), total: layout.total }
    }

    /// The number of bytes to ask for next; zero when the buffer is full.
    pub fn missing(&self) -> (n: usize)
        requires
            self.wf(),
        ensures
            n == self.total - self.data@.len(),
    {
        self.total - self.data.len()
    }

    /// Takes over what one transfer brought. An empty transfer is an error.
    pub fn accept(&mut self, chunk: &[u8]) -> (r: Result<(), DeviceError>)
        requires
            old(self).wf(),
            chunk@.len() <= old(self).total - old(self).data@.len(),
        ensures
            final(self).wf(),
            final(self).total == old(self).total,
            final(self).data@ == old(self).data@ + chunk@,
            crate::error::device_outcome(r) == if chunk@.len() == 0 {
                Err(DeviceErrorView::NoData)
            } else {
                Ok(())
            },
    {
        self.data.extend_from_slice(chunk);
        assert(self.data@ =~= old(self).data@ + chunk@);
        if chunk.len() == 0 {
            return Err(DeviceError::NoData);
        }
        Ok(())
    }
}

/// How far a device has been set up for CAN.
#[derive(Debug, Clone, Copy, PartialEq, Eq, Structural)]
pub struct CanConfig {
    /// The speed that was set on CAN1.
    pub baud_can1: Option<BaudRate>,
    /// The speed that was set on CAN2.
    pub baud_can2: Option<BaudRate>,
    /// Whether the analyser mode was turned on.
    pub analyzer_mode_set: bool,
}

/// What is to be done next to set a device up.
#[derive(Debug, Clone, Copy, PartialEq, Eq, Structural)]
pub enum ConfigStep {
    /// Send [`pkt_analyzer_mode`] and wait a tenth of a second.
    AnalyzerMode,
    /// Send [`pkt_set_baud`] with these arguments.
    SetBaud(CanInterface, BaudRate),
    /// Nothing: the device is set up.
    Ready,
}

impl CanConfig {
    /// Nothing was set up yet.
    #[verifier::allow_in_spec]
    pub fn fresh() -> Self
        returns
            (CanConfig { baud_can1: None, baud_can2: None, analyzer_mode_set: false }),
    {
        CanConfig { baud_can1: None, baud_can2: None, analyzer_mode_set: false }
    }

    /// The speed that was set on an interface.
    pub open spec fn baud(self, iface: CanInterface) -> Option<BaudRate> {
        match iface {
            CanInterface::Can1 => self.baud_can1,
            CanInterface::Can2 => self.baud_can2,
            _ => None,
        }
    }

    /// The configuration once a speed was set.
    pub open spec fn with_baud(self, iface: CanInterface, baud: BaudRate) -> CanConfig {
        match iface {
            CanInterface::Can1 => CanConfig { baud_can1: Some(baud), ..self },
            CanInterface::Can2 => CanConfig { baud_can2: Some(baud), ..self },
            _ => self,
        }
    }

    /// The next step: the analyser mode first, then the speeds that nobody has set.
    pub open spec fn spec_next(self) -> ConfigStep {
        if !self.analyzer_mode_set {
            ConfigStep::AnalyzerMode
        } else if self.baud_can1 is None {
            ConfigStep::SetBaud(CanInterface::Can1, BaudRate::initial())
        } else if self.baud_can2 is None {
            ConfigStep::SetBaud(CanInterface::Can2, BaudRate::initial())
        } else {
            ConfigStep::Ready
        }
    }

    /// The configuration once a step was done.
    pub open spec fn after(self, step: ConfigStep) -> CanConfig {
        match step {
            ConfigStep::AnalyzerMode => CanConfig { analyzer_mode_set: true, ..self },
            ConfigStep::SetBaud(iface, baud) => self.with_baud(iface, baud),
            ConfigStep::Ready => self,
        }
    }

    /// The number of steps that are left.
    pub open spec fn steps_left(self) -> nat {
        (if self.analyzer_mode_set {
            0nat
        } else {
            1
        }) + (if self.baud_can1 is Some {
            0nat
        } else {
            1
        }) + (if self.baud_can2 is Some {
            0nat
        } else {
            1
        })
    }

    /// What is to be done next before frames can be read.
    pub fn next(&self) -> (step: ConfigStep)
        ensures
            step == self.spec_next(),
    {
        if !self.analyzer_mode_set {
            ConfigStep::AnalyzerMode
        } else if self.baud_can1.is_none() {
            ConfigStep::SetBaud(CanInterface::Can1, BaudRate::initial())
        } else if self.baud_can2.is_none() {
            ConfigStep::SetBaud(CanInterface::Can2, BaudRate::initial())
        } else {
            ConfigStep::Ready
        }
    }

    /// Remembers that a speed was set.
    pub fn baud_set(&mut self, iface: CanInterface, baud: BaudRate)
        ensures
            *final(self) == old(self).with_baud(iface, baud),
    {
        match iface {
            CanInterface::Can1 => self.baud_can1 = Some(baud),
            CanInterface::Can2 => self.baud_can2 = Some(baud),
            _ => {},
        }
    }

    /// Remembers that a step was done.
    pub fn done(&mut self, step: ConfigStep)
        ensures
            *final(self) == old(self).after(step),
    {
        match step {
            ConfigStep::AnalyzerMode => self.analyzer_mode_set = true,
            ConfigStep::SetBaud(iface, baud) => self.baud_set(iface, baud),
            ConfigStep::Ready => {},
        }
    }
}

/// Setting a device up takes at most three steps, each of them brings it nearer to the
/// end, and at the end nothing is left to be done.
pub proof fn law_configuration_ends(c: CanConfig)
    ensures
        c.steps_left() <= 3,
        c.spec_next() == ConfigStep::Ready <==> c.steps_left() == 0,
        c.spec_next() != ConfigStep::Ready ==> c.after(c.spec_next()).steps_left()
            == c.steps_left() - 1,
{
}

/// Setting a device up before a read never touches a speed that was set before.
pub proof fn law_reading_keeps_speed(c: CanConfig, iface: CanInterface)
    requires
        c.baud(iface) is Some,
    ensures
        c.after(c.spec_next()).baud(iface) == c.baud(iface),
        c.spec_next() matches ConfigStep::SetBaud(i, _) ==> i != iface,
{
}

/// A speed that was set is remembered, and that of the other interface is kept.
pub proof fn law_speed_is_remembered(
    c: CanConfig,
    iface: CanInterface,
    baud: BaudRate,
    other: CanInterface,
)
    requires
        iface == CanInterface::Can1 || iface == CanInterface::Can2,
        other != iface,
    ensures
        c.with_baud(iface, baud).baud(iface) == Some(baud),
        c.with_baud(iface, baud).baud(other) == c.baud(other),
{
}

/// What a received buffer comes to when frames are read.
pub enum CanReadStep {
    /// The buffer says nothing of CAN: wait five milliseconds and read the next.
    Again,
    /// The read is over.
    Done(Result<Vec<CanFrame>, DeviceError>),
}

/// Whether a received buffer says anything of CAN.
pub open spec fn can_buffer(buf: Seq<u8>) -> bool {
    buf.len() > 0 && (buf[0] == CMD_CONFIG || buf[0] == CMD_DATA)
}

/// The number of new frames that a buffer announces for an interface.
pub open spec fn announced(buf: Seq<u8>, iface: CanInterface) -> u8 {
    match iface {
        CanInterface::Can1 => byte_or_zero(buf, 6),
        CanInterface::Can2 => byte_or_zero(buf, 2),
        _ => 0,
    }
}

/// What a received buffer comes to while frames of an interface are read: the frames in as
/// many slots as the buffer announces, or `None` if it says nothing of CAN.
pub open spec fn read_outcome(buf: Seq<u8>, layout: BufferLayout, iface: CanInterface) -> Option<
    Result<Seq<CanFrameView>, DeviceErrorView>,
> {
    if !can_buffer(buf) {
        None
    } else if announced(buf, iface) == 0 {
        Some(Ok(seq![]))
    } else {
        Some(frames_of(buf, layout, iface, Some(announced(buf, iface) as usize)))
    }
}

/// Decides on a received buffer while frames of an interface are read: as many slots
/// count as the buffer announces.
pub fn can_read_step(buf: &[u8], layout: &BufferLayout, iface: CanInterface) -> (step:
    CanReadStep)
    requires
        can_buffer(buf@) && announced(buf@, iface) > 0 && layout.slots > 0 ==> addressable(
            *layout,
            iface,
        ),
    ensures
        match step {
            CanReadStep::Again => !can_buffer(buf@),
            CanReadStep::Done(r) => {
                &&& can_buffer(buf@)
                &&& frames_outcome(r) == if announced(buf@, iface) == 0 {
                    Ok(seq![])
                } else {
                    frames_of(buf@, *layout, iface, Some(announced(buf@, iface) as usize))
                }
            },
        },
        match step {
            CanReadStep::Again => read_outcome(buf@, *layout, iface) is None,
            CanReadStep::Done(r) => read_outcome(buf@, *layout, iface) == Some(frames_outcome(r)),
        },
{
    if !is_valid_buffer(buf) || buf[0] == CMD_VERSION {
        return CanReadStep::Again;
    }
    let (new_can1, new_can2) = new_frame_counts(buf);
    let new_count: u8 = match iface {
        CanInterface::Can1 => new_can1,
        CanInterface::Can2 => new_can2,
        _ => 0,
    };
    if new_count == 0 {
        let none: Vec<CanFrame> = Vec::new();
        assert(frame_views(none@) =~= seq![]);
        return CanReadStep::Done(Ok(none));
    }
    CanReadStep::Done(parse_frames(buf, layout, iface, Some(new_count as usize)))
}

/// Bytes as hexadecimal digits, with a space between two of them.
pub open spec fn hex_spaced(s: Seq<u8>) -> Seq<char> {
    if s.len() == 0 {
        seq![]
    } else {
        crate::text::hex_bytes(s.drop_last(), " "@) + crate::text::hex2(s.last())
    }
}

/// The first sixteen bytes of a buffer, or all of them.
pub open spec fn head(buf: Seq<u8>) -> Seq<u8> {
    if buf.len() < 16 {
        buf
    } else {
        buf.take(16)
    }
}

/// The version that a buffer says, if it says one.
pub open spec fn version_said(buf: Seq<u8>) -> Option<Seq<char>> {
    if buf[0] == CMD_VERSION {
        Some(crate::text::decimal(buf[6] as nat))
    } else {
        None
    }
}

/// A query for the version that is under way.
pub struct VersionQuery {
    /// The number of buffers that may still be looked at.
    pub left: u8,
}

impl VersionQuery {
    /// A query that has seen no buffer.
    pub fn new() -> (q: Self)
        ensures
            q.left == 64,
    {
        VersionQuery { left: 64 }
    }

    /// Decides on a received buffer: the version, an error once the buffers are used up, or
    /// `None` to wait a millisecond and read the next.
    pub fn step(&mut self, buf: &[u8]) -> (r: Option<Result<String, DeviceError>>)
        requires
            old(self).left > 0,
            buf@.len() > 0,
            buf@[0] == CMD_VERSION ==> buf@.len() > 6,
        ensures
            match r {
                Some(Ok(v)) => {
                    &&& buf@[0] == CMD_VERSION
                    &&& v@ == crate::text::decimal(buf@[6] as nat)
                    &&& final(self).left == old(self).left
                },
                Some(Err(e)) => {
                    &&& buf@[0] != CMD_VERSION
                    &&& old(self).left == 1
                    &&& e@ == DeviceErrorView::Protocol(
                        "версия не распознана; начало буфера: "@ + hex_spaced(head(buf@)),
                    )
                    &&& final(self).left == 0
                },
                None => {
                    &&& buf@[0] != CMD_VERSION
                    &&& old(self).left > 1
                    &&& final(self).left == old(self).left - 1
                },
            },
            match version_said(buf@) {
                Some(text) => r matches Some(Ok(v)) && v@ == text,
                None => !(r matches Some(Ok(_))),
            },
    {
        if buf[0] == CMD_VERSION {
            let mut v = String::new();
            push_decimal(&mut v, buf[6] as u64);
            assert(v@ =~= crate::text::decimal(buf@[6] as nat));
            return Some(Ok(v));
        }
        self.left = self.left - 1;
        if self.left > 0 {
            return None;
        }
        let n: usize = if buf.len() < 16 {
            buf.len()
        } else {
            16
        };
        let mut text = "версия не распознана; начало буфера: ".to_owned();
        push_hex_bytes(&mut text, vstd::slice::slice_subrange(buf, 0, n - 1), " ");
        push_hex2(&mut text, buf[n - 1]);
        proof {
            let h = head(buf@);
            assert(h =~= buf@.subrange(0, n as int));
            assert(h.drop_last() =~= buf@.subrange(0, n - 1));
            assert(text@ =~= "версия не распознана; начало буфера: "@ + hex_spaced(h));
        }
        Some(Err(DeviceError::Protocol(text)))
    }
}

/// Whether a device has filled slots from `start` on with these frames, one after the other.
/// A frame has an identifier of eleven bits and a size of four, and its slot is not empty.
pub open spec fn slots_filled(buf: Seq<u8>, start: int, frames: Seq<CanFrameView>) -> bool {
    &&& 0 <= start && start + frames.len() * SLOT_SIZE <= buf.len()
    &&& forall|i: int|
        #![trigger frames[i]]
        0 <= i < frames.len() ==> {
            &&& buf.subrange(start + i * SLOT_SIZE, start + i * SLOT_SIZE + SLOT_SIZE)
                == frames[i].slot()
            &&& frames[i].data.len() == 8
            &&& frames[i].id < 2048
            &&& frames[i].size < 16
            &&& frames[i].id != 0 || frames[i].size != 0 || !crate::types::slot_empty(
                frames[i].data,
            )
        }
}

/// Where a device writes the number of new frames on CAN1 into byte 6 of a buffer and fills as
/// many slots of CAN1, reading CAN1 gives just these frames, whatever byte 2 holds.
pub proof fn law_new_frames_on_can1(buf: Seq<u8>, layout: BufferLayout, frames: Seq<CanFrameView>)
    requires
        buf.len() > 6,
        buf[0] == 0x01 || buf[0] == 0x02,
        buf[6] == frames.len(),
        frames.len() <= layout.slots,
        slots_filled(buf, layout.can1_start as int, frames),
    ensures
        read_outcome(buf, layout, CanInterface::Can1) == Some(
            Ok::<Seq<CanFrameView>, DeviceErrorView>(frames),
        ),
{
    law_frames_read_back(buf, layout.can1_start as int, frames);
    assert(frames.len() == 0 ==> frames =~= seq![]);
}

/// Where a device writes the number of new frames on CAN2 into byte 2 of a buffer and fills as
/// many slots of CAN2, reading CAN2 gives just these frames, whatever byte 6 holds.
pub proof fn law_new_frames_on_can2(buf: Seq<u8>, layout: BufferLayout, frames: Seq<CanFrameView>)
    requires
        buf.len() > 6,
        buf[0] == 0x01 || buf[0] == 0x02,
        buf[2] == frames.len(),
        frames.len() <= layout.slots,
        slots_filled(buf, layout.can2_start as int, frames),
    ensures
        read_outcome(buf, layout, CanInterface::Can2) == Some(
            Ok::<Seq<CanFrameView>, DeviceErrorView>(frames),
        ),
{
    law_frames_read_back(buf, layout.can2_start as int, frames);
    assert(frames.len() == 0 ==> frames =~= seq![]);
}

/// A buffer ends a read exactly if its first byte is 0x01 or 0x02. On interfaces other than
/// CAN1 and CAN2 the read then gives no frames, and never an error on these two.
pub proof fn law_buffers_that_end_a_read(
    buf: Seq<u8>,
    layout: BufferLayout,
    iface: CanInterface,
)
    ensures
        read_outcome(buf, layout, iface) is Some <==> buf.len() > 0 && (buf[0] == 0x01 || buf[0]
            == 0x02),
        read_outcome(buf, layout, iface) matches Some(r) ==> r is Ok,
        iface != CanInterface::Can1 && iface != CanInterface::Can2 ==> (read_outcome(
            buf,
            layout,
            iface,
        ) matches Some(r) ==> r == Ok::<Seq<CanFrameView>, DeviceErrorView>(seq![])),
        buf.len() <= 6 && iface == CanInterface::Can1 || buf.len() <= 2 && iface
            == CanInterface::Can2 ==> (read_outcome(buf, layout, iface) matches Some(r) ==> r
            == Ok::<Seq<CanFrameView>, DeviceErrorView>(seq![])),
{
}

/// Slots are read one after the other, ten bytes each: reading some and then some more gives
/// what reading all of them gives.
pub proof fn law_slots_one_after_the_other(buf: Seq<u8>, start: int, a: int, b: int)
    requires
        0 <= a,
        0 <= b,
    ensures
        frames_in(buf, start, a + b) == frames_in(buf, start, a) + frames_in(
            buf,
            start + 10 * a,
            b,
        ),
    decreases b,
{
    if b == 0 {
        assert(frames_in(buf, start, a) + seq![] =~= frames_in(buf, start, a));
    } else {
        law_slots_one_after_the_other(buf, start, a, b - 1);
        assert(start + (a + b - 1) * SLOT_SIZE == start + 10 * a + (b - 1) * SLOT_SIZE);
        assert(frames_in(buf, start, a + b) =~= frames_in(buf, start, a) + frames_in(
            buf,
            start + 10 * a,
            b,
        ));
    }
}

/// A slot that is filled gives its frame; one that is empty, or that the buffer does not hold
/// in full, gives none.
pub proof fn law_one_slot(buf: Seq<u8>, start: int)
    requires
        0 <= start,
    ensures
        frames_in(buf, start, 1).len() <= 1,
        frames_in(buf, start, 1).len() == 1 <==> start + 10 <= buf.len() && exists|i: int|
            start <= i < start + 10 && #[trigger] buf[i] != 0,
        frames_in(buf, start, 1).len() == 1 ==> crate::types::decode_slot(
            buf.subrange(start, start + 10),
        ) == Some(frames_in(buf, start, 1)[0]),
{
    reveal_with_fuel(frames_in, 2);
    if start + 10 <= buf.len() {
        let slot = buf.subrange(start, start + 10);
        assert(start + (1 - 1) * SLOT_SIZE == start);
        if crate::types::slot_empty(slot) {
            assert forall|i: int| start <= i < start + 10 implies buf[i] == 0 by {
                assert(slot[i - start] == 0);
            }
        } else {
            let j = choose|j: int| 0 <= j < slot.len() && slot[j] != 0;
            assert(buf[start + j] != 0);
        }
    }
}

/// Of an interface, as many slots are read as its limit and its layout both allow. Only CAN1
/// and CAN2 have slots.
pub proof fn law_slots_of_an_interface(
    buf: Seq<u8>,
    layout: BufferLayout,
    iface: CanInterface,
    limit: usize,
)
    ensures
        frames_of(buf, layout, CanInterface::Can1, Some(limit)) == Ok::<_, DeviceErrorView>(
            frames_in(
                buf,
                layout.can1_start as int,
                if limit <= layout.slots {
                    limit as int
                } else {
                    layout.slots as int
                },
            ),
        ),
        frames_of(buf, layout, CanInterface::Can2, Some(limit)) == Ok::<_, DeviceErrorView>(
            frames_in(
                buf,
                layout.can2_start as int,
                if limit <= layout.slots {
                    limit as int
                } else {
                    layout.slots as int
                },
            ),
        ),
        frames_of(buf, layout, iface, None) == frames_of(
            buf,
            layout,
            iface,
            Some(layout.slots),
        ),
        iface != CanInterface::Can1 && iface != CanInterface::Can2 ==> frames_of(
            buf,
            layout,
            iface,
            Some(limit),
        ) == Err::<Seq<CanFrameView>, _>(
            DeviceErrorView::Protocol("интерфейс "@ + iface.spec_name() + " не в буфере"@),
        ),
{
}

/// The buffer of each model holds the slots of CAN1, then those of CAN2, behind 24 bytes of
/// header.
pub proof fn law_layouts()
    ensures
        BufferLayout::appi().can1_start == 24,
        BufferLayout::appi().can2_start == 524,
        BufferLayout::appi().slots == 45,
        BufferLayout::appi().total == 2048,
        BufferLayout::bs_kpa().can1_start == 24,
        BufferLayout::bs_kpa().can2_start == 24 + 20 * 10,
        BufferLayout::bs_kpa().slots == 20,
        BufferLayout::bs_kpa().total == 2048,
        BufferLayout::appi().can1_start + BufferLayout::appi().slots * SLOT_SIZE
            <= BufferLayout::appi().can2_start,
        BufferLayout::appi().can2_start + BufferLayout::appi().slots * SLOT_SIZE
            <= BufferLayout::appi().total,
{
}

/// The bytes by which the hardware knows interfaces, commands and endpoints. The top bit of an
/// endpoint says that it is read from.
pub proof fn law_hardware_numbers(iface: CanInterface)
    ensures
        iface_byte(iface) == Some(
            match iface {
                CanInterface::Can1 => 0x02u8,
                CanInterface::Can2 => 0x03,
                CanInterface::CanTech => 0x13,
                CanInterface::Can3 => 0x22,
                CanInterface::Can4 => 0x23,
            },
        ),
        CMD_CONFIG == 0x01,
        CMD_DATA == 0x02,
        CMD_VERSION == 0x09,
        WRITE_EP == 1,
        READ_EP == 0x80 + 2,
        SLOT_SIZE == 10,
{
}

/// The packet that sends a frame selects its interface by the first byte; then come the
/// command, the counter and a one, six zeros and the slot of the frame. Packets for two
/// interfaces therefore differ in their first byte.
pub proof fn law_can_write_selects_interface(
    iface: CanInterface,
    other: CanInterface,
    frame: CanFrameView,
    counter: u8,
    i: int,
)
    requires
        frame.data.len() == 8,
        4 <= i < 10,
    ensures
        can_write_bytes(iface, frame, counter).len() == 20,
        Some(can_write_bytes(iface, frame, counter)[0]) == iface_byte(iface),
        can_write_bytes(iface, frame, counter)[1] == 0x02,
        can_write_bytes(iface, frame, counter)[2] == counter,
        can_write_bytes(iface, frame, counter)[3] == 0x01,
        can_write_bytes(iface, frame, counter)[i] == 0,
        can_write_bytes(iface, frame, counter).skip(10) == frame.slot(),
        iface != other ==> can_write_bytes(iface, frame, counter)[0] != can_write_bytes(
            other,
            frame,
            counter,
        )[0],
{
    law_iface_bytes_distinct(iface, other);
    assert(can_write_bytes(iface, frame, counter).skip(10) =~= frame.slot());
}

/// The packet that sets a speed selects its interface by the first byte and carries the speed
/// with the low byte first.
pub proof fn law_speed_packet(iface: CanInterface, other: CanInterface, baud: BaudRate)
    ensures
        baud_bytes(iface, baud).len() == 4,
        Some(baud_bytes(iface, baud)[0]) == iface_byte(iface),
        baud_bytes(iface, baud)[1] == 0x01,
        baud_bytes(iface, baud)[2] + 256 * baud_bytes(iface, baud)[3] == baud.0,
        iface != other ==> baud_bytes(iface, baud)[0] != baud_bytes(other, baud)[0],
{
    law_iface_bytes_distinct(iface, other);
}

/// The packet that sends data to the UART carries the number of bytes, the heavier byte first,
/// behind a command and six zeros, and then the data. The number wraps at 65536.
pub proof fn law_uart_packet(data: Seq<u8>, i: int)
    requires
        2 <= i < 8,
    ensures
        uart_write_bytes(data).len() == 10 + data.len(),
        uart_write_bytes(data)[0] == 0x01,
        uart_write_bytes(data)[1] == 0x02,
        uart_write_bytes(data)[i] == 0,
        256 * uart_write_bytes(data)[8] + uart_write_bytes(data)[9] == data.len() % 65536,
        uart_write_bytes(data).skip(10) == data,
{
    crate::bytes::law_bytes_weigh((data.len() % 65536) as u16, 0, 0, 0, 0, 0);
    assert(uart_write_bytes(data).skip(10) =~= data);
}

/// The packet that sets up the generator has 23 bytes and says each setting at its place,
/// the heavier bytes of a number first; the tenfold gain is one if it is on, and zero if it is
/// off.
pub proof fn law_generator_packet(s: GenSettings, i: int)
    requires
        0 <= i < 6,
    ensures
        gen_set_bytes(s).len() == 23,
        gen_set_bytes(s)[0] == 0x05,
        gen_set_bytes(s)[1] == 0x02,
        gen_set_bytes(s)[2] == 0 && gen_set_bytes(s)[3] == 0 && gen_set_bytes(s)[4] == 0,
        crate::types::GenCode::numbered(gen_set_bytes(s)[5]) == Some(s.code),
        s.gain_x10 ==> gen_set_bytes(s)[6] == 1,
        !s.gain_x10 ==> gen_set_bytes(s)[6] == 0,
        256 * gen_set_bytes(s)[7] + gen_set_bytes(s)[8] == s.dac,
        gen_set_bytes(s)[9] == s.alsn_code,
        0x1000000 * gen_set_bytes(s)[10] + 0x10000 * gen_set_bytes(s)[11] + 0x100 * gen_set_bytes(
            s,
        )[12] + gen_set_bytes(s)[13] == s.frequency,
        256 * gen_set_bytes(s)[14] + gen_set_bytes(s)[15] == s.alsen_sg_kk,
        gen_set_bytes(s)[16] == s.saut_freq,
        gen_set_bytes(s)[17 + i] == s.saut_blocks@[i],
{
    let p = gen_set_bytes(s);
    crate::bytes::law_bytes_weigh(s.dac, s.frequency, 0, 0, 0, 0);
    crate::bytes::law_bytes_weigh(s.alsen_sg_kk, s.frequency, 0, 0, 0, 0);
    crate::types::law_mode_codes(UartMode::Off, s.code, 0);
    let (dac, freq, alsen) = (
        crate::bytes::be16(s.dac),
        crate::bytes::be32(s.frequency),
        crate::bytes::be16(s.alsen_sg_kk),
    );
    assert(p[7] == dac[0] && p[8] == dac[1]);
    assert(p[10] == freq[0] && p[11] == freq[1] && p[12] == freq[2] && p[13] == freq[3]);
    assert(p[14] == alsen[0] && p[15] == alsen[1]);
}

/// Two settings with the same packet agree in every field.
pub proof fn law_generator_packet_identifies(s: GenSettings, t: GenSettings)
    requires
        gen_set_bytes(s) == gen_set_bytes(t),
    ensures
        s@ == t@,
{
    law_generator_packet(s, 0);
    law_generator_packet(t, 0);
    assert forall|i: int| 0 <= i < 6 implies s.saut_blocks@[i] == t.saut_blocks@[i] by {
        law_generator_packet(s, i);
        law_generator_packet(t, i);
    }
    assert(s.saut_blocks@ =~= t.saut_blocks@);
}

/// A device is set up in this order: the analyser mode, then CAN1, then CAN2; a speed that
/// nobody has set is 100 kilobits per second. Each step does what it says and no more.
pub proof fn law_configuration_order(c: CanConfig, speed: BaudRate)
    ensures
        !c.analyzer_mode_set <==> c.spec_next() == ConfigStep::AnalyzerMode,
        c.spec_next() matches ConfigStep::SetBaud(i, b) ==> {
            &&& b.0 == 100
            &&& i == CanInterface::Can1 && c.baud_can1 is None || i == CanInterface::Can2
                && c.baud_can1 is Some && c.baud_can2 is None
        },
        c.after(ConfigStep::AnalyzerMode) == (CanConfig { analyzer_mode_set: true, ..c }),
        c.after(ConfigStep::Ready) == c,
        c.after(ConfigStep::SetBaud(CanInterface::Can1, speed)) == (CanConfig {
            baud_can1: Some(speed),
            ..c
        }),
        c.after(ConfigStep::SetBaud(CanInterface::Can2, speed)) == (CanConfig {
            baud_can2: Some(speed),
            ..c
        }),
{
}

/// Setting the speed of an interface other than CAN1 and CAN2 is not remembered.
pub proof fn law_other_speeds_are_not_remembered(c: CanConfig, iface: CanInterface, b: BaudRate)
    requires
        iface != CanInterface::Can1,
        iface != CanInterface::Can2,
    ensures
        c.with_baud(iface, b) == c,
{
}

/// The start of a buffer is shown by two digits for each of its first sixteen bytes, with a
/// space between two bytes and none at the end.
pub proof fn law_start_of_buffer(buf: Seq<u8>)
    requires
        buf.len() > 0,
    ensures
        head(buf).len() <= 16,
        head(buf).len() == 16 || head(buf).len() == buf.len(),
        head(buf).is_prefix_of(buf),
        hex_spaced(head(buf)) + " "@ == crate::text::hex_bytes(head(buf), " "@),
{
    let h = head(buf);
    assert(hex_spaced(h) + " "@ =~= crate::text::hex_bytes(h, " "@));
}

/// The packet that changes the frequency of a channel names the channel, then the frequency,
/// the heavier bytes first; the one for the amplitude does the same under another number.
pub proof fn law_generator_changes(channel: u8, frequency: u32, amplitude: u16)
    ensures
        ({
            let p = gen_frequency_bytes(channel, frequency);
            &&& p.len() == 6
            &&& p[0] == 0x02
            &&& p[1] == channel
            &&& 0x1000000 * p[2] + 0x10000 * p[3] + 0x100 * p[4] + p[5] == frequency
        }),
        ({
            let p = gen_amplitude_bytes(channel, amplitude);
            &&& p.len() == 4
            &&& p[0] == 0x03
            &&& p[1] == channel
            &&& 256 * p[2] + p[3] == amplitude
        }),
{
    crate::bytes::law_bytes_weigh(amplitude, frequency, 0, 0, 0, 0);
    let (p, f) = (gen_frequency_bytes(channel, frequency), crate::bytes::be32(frequency));
    assert(p[2] == f[0] && p[3] == f[1] && p[4] == f[2] && p[5] == f[3]);
}

/// The packet that sets the mode of the UART carries the mode, and no other byte of it
/// depends on the mode.
pub proof fn law_uart_mode_packet(mode: UartMode, other: UartMode)
    ensures
        uart_mode_bytes(mode).len() == 4,
        UartMode::coded(uart_mode_bytes(mode)[2]) == Some(mode),
        uart_mode_bytes(mode)[0] == 0x01,
        uart_mode_bytes(mode)[1] == 0x01,
        uart_mode_bytes(mode)[3] == 0,
        uart_mode_bytes(mode) == uart_mode_bytes(other) ==> mode == other,
{
    assert(UartMode::coded(uart_mode_bytes(mode)[2]) == Some(mode));
    assert(UartMode::coded(uart_mode_bytes(other)[2]) == Some(other));
}

/// A buffer says a version exactly if its first byte is 0x09; the version is byte 6 in
/// decimal.
pub proof fn law_version_in_buffer(buf: Seq<u8>)
    ensures
        version_said(buf) is Some <==> buf[0] == 0x09,
        version_said(buf) matches Some(text) ==> crate::text::digits_value(text, 10) == buf[6]
            && crate::text::all_digits(text, 10) && (text.len() > 1 ==> text[0] != '0'),
{
    crate::text::law_decimal_reads_back(buf[6] as nat);
}

/// A buffer gives the frames in as many slots of CAN1 as its byte 6 says, and in as many of
/// CAN2 as its byte 2 says, but never in more than the layout has.
pub proof fn law_bytes_announce_frames(buf: Seq<u8>, layout: BufferLayout)
    requires
        buf.len() > 6,
        buf[0] == 0x01 || buf[0] == 0x02,
    ensures
        read_outcome(buf, layout, CanInterface::Can1) == Some(
            Ok::<_, DeviceErrorView>(
                frames_in(
                    buf,
                    layout.can1_start as int,
                    if buf[6] <= layout.slots {
                        buf[6] as int
                    } else {
                        layout.slots as int
                    },
                ),
            ),
        ),
        read_outcome(buf, layout, CanInterface::Can2) == Some(
            Ok::<_, DeviceErrorView>(
                frames_in(
                    buf,
                    layout.can2_start as int,
                    if buf[2] <= layout.slots {
                        buf[2] as int
                    } else {
                        layout.slots as int
                    },
                ),
            ),
        ),
{
}

} // verus!
