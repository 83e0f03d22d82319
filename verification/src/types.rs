//! Data types shared by all devices: the common language of the drivers and the daemon.

use vstd::prelude::*;
use crate::bytes::{u16_from_be, u16_to_be};
use crate::text::{push_hex4, push_hex_bytes};

verus! {

/// A logical CAN interface of a device.
#[derive(Debug, Clone, Copy, PartialEq, Eq, Hash, Structural)]
pub enum CanInterface {
    Can1,
    Can2,
    Can3,
    Can4,
    CanTech,
}

impl CanInterface {
    /// The number of the interface in the daemon's protocol.
    pub open spec fn number(self) -> u8 {
        match self {
            CanInterface::Can1 => 1,
            CanInterface::Can2 => 2,
            CanInterface::Can3 => 3,
            CanInterface::Can4 => 4,
            CanInterface::CanTech => 5,
        }
    }

    /// The interface with the given number.
    pub open spec fn numbered(v: u8) -> Option<CanInterface> {
        match v {
            1 => Some(CanInterface::Can1),
            2 => Some(CanInterface::Can2),
            3 => Some(CanInterface::Can3),
            4 => Some(CanInterface::Can4),
            5 => Some(CanInterface::CanTech),
            _ => None,
        }
    }

    /// The name of the interface.
    pub open spec fn spec_name(self) -> Seq<char> {
        match self {
            CanInterface::Can1 => "CAN1"@,
            CanInterface::Can2 => "CAN2"@,
            CanInterface::Can3 => "CAN3"@,
            CanInterface::Can4 => "CAN4"@,
            CanInterface::CanTech => "CANTECH"@,
        }
    }

    /// Reads the number of the daemon's protocol, 1 to 5.
    pub fn from_u8(v: u8) -> (r: Option<Self>)
        ensures
            r == CanInterface::numbered(v),
    {
        match v {
            1 => Some(Self::Can1),
            2 => Some(Self::Can2),
            3 => Some(Self::Can3),
            4 => Some(Self::Can4),
            5 => Some(Self::CanTech),
            _ => None,
        }
    }

    /// The number of the interface in the daemon's protocol.
    pub fn as_u8(self) -> (v: u8)
        ensures
            v == self.number(),
    {
        match self {
            Self::Can1 => 1,
            Self::Can2 => 2,
            Self::Can3 => 3,
            Self::Can4 => 4,
            Self::CanTech => 5,
        }
    }

    /// The name of the interface.
    pub fn name(self) -> (s: &'static str)
        ensures
            s@ == self.spec_name(),
    {
        match self {
            Self::Can1 => "CAN1",
            Self::Can2 => "CAN2",
            Self::Can3 => "CAN3",
            Self::Can4 => "CAN4",
            Self::CanTech => "CANTECH",
        }
    }
}

/// The numbers of the CAN interfaces and the interfaces name each other.
pub proof fn law_can_interface_numbers(iface: CanInterface, v: u8)
    ensures
        CanInterface::numbered(iface.number()) == Some(iface),
        CanInterface::numbered(v) matches Some(i) ==> i.number() == v,
        CanInterface::numbered(v) is Some <==> 1 <= v <= 5,
{
}

/// The speed of a CAN bus: the raw 16-bit value that goes to the hardware.
#[derive(Debug, Clone, Copy, PartialEq, Eq, Structural)]
pub struct BaudRate(pub u16);

impl BaudRate {
    /// 25 kbit/s.
    #[verifier::allow_in_spec]
    pub fn kbps_25() -> Self
        returns
            BaudRate(0x0019),
    {
        BaudRate(0x0019)
    }

    /// 50 kbit/s.
    #[verifier::allow_in_spec]
    pub fn kbps_50() -> Self
        returns
            BaudRate(0x0032),
    {
        BaudRate(0x0032)
    }

    /// 100 kbit/s.
    #[verifier::allow_in_spec]
    pub fn kbps_100() -> Self
        returns
            BaudRate(0x0064),
    {
        BaudRate(0x0064)
    }

    /// 250 kbit/s.
    #[verifier::allow_in_spec]
    pub fn kbps_250() -> Self
        returns
            BaudRate(0x00FA),
    {
        BaudRate(0x00FA)
    }

    /// 500 kbit/s.
    #[verifier::allow_in_spec]
    pub fn kbps_500() -> Self
        returns
            BaudRate(0x01F4),
    {
        BaudRate(0x01F4)
    }

    /// 1000 kbit/s.
    #[verifier::allow_in_spec]
    pub fn kbps_1000() -> Self
        returns
            BaudRate(0x03E8),
    {
        BaudRate(0x03E8)
    }

    /// The speed that a driver sets when it starts.
    #[verifier::allow_in_spec]
    pub fn initial() -> Self
        returns
            BaudRate(0x0064),
    {
        BaudRate(0x0064)
    }

    /// The low byte.
    pub fn lo(self) -> (b: u8)
        ensures
            b == self.0 % 256,
    {
        (self.0 % 256) as u8
    }

    /// The high byte.
    pub fn hi(self) -> (b: u8)
        ensures
            b == self.0 / 256,
    {
        (self.0 / 256) as u8
    }

    /// The speed with the given raw value.
    pub fn from_raw(v: u16) -> (b: Self)
        ensures
            b == BaudRate(v),
    {
        BaudRate(v)
    }

    /// The raw value.
    pub fn raw(self) -> (v: u16)
        ensures
            v == self.0,
    {
        self.0
    }
}

impl Default for BaudRate {
    fn default() -> (b: Self)
        ensures
            b == BaudRate::initial(),
    {
        BaudRate::initial()
    }
}

/// The data bytes of a frame: cut to eight bytes, or filled up with zeros.
pub open spec fn padded(data: Seq<u8>) -> Seq<u8> {
    Seq::new(8, |i: int| if i < data.len() { data[i] } else { 0 })
}

/// The packed descriptor of an identifier and a size: the low eleven bits of the
/// identifier above the low five bits of the size.
pub open spec fn packed(id: u16, size: u8) -> u16 {
    ((id % 2048) * 32 + size % 32) as u16
}

/// One CAN frame, in a form that no particular hardware dictates.
///
/// A device keeps a frame in a slot of ten bytes: the descriptor, big-endian, and eight
/// bytes of data.
#[derive(Debug, Clone, Copy, PartialEq, Eq)]
#[verifier::ext_equal]
pub struct CanFrame {
    /// The CAN identifier, eleven bits in a standard frame.
    pub id: u16,
    /// The number of bytes of data that count.
    pub size: u8,
    /// The data, filled up with zeros to eight bytes.
    pub data: [u8; 8],
}

/// A [`CanFrame`] with its data as a sequence.
#[verifier::ext_equal]
pub struct CanFrameView {
    pub id: u16,
    pub size: u8,
    pub data: Seq<u8>,
}

impl View for CanFrame {
    type V = CanFrameView;

    open spec fn view(&self) -> CanFrameView {
        CanFrameView { id: self.id, size: self.size, data: self.data@ }
    }
}

impl CanFrameView {
    /// The descriptor of the frame.
    pub open spec fn descriptor(self) -> u16 {
        packed(self.id, self.size)
    }

    /// The ten bytes of the frame's slot.
    pub open spec fn slot(self) -> Seq<u8> {
        crate::bytes::be16(self.descriptor()) + self.data
    }

    /// The frame as a line of hexadecimal text.
    pub open spec fn hex_line(self) -> Seq<char> {
        crate::text::hex4(self.descriptor()) + " "@ + crate::text::hex_bytes(self.data, ""@)
    }
}

/// The frame made of an identifier and some data.
pub open spec fn frame_of(id: u16, data: Seq<u8>) -> CanFrameView {
    CanFrameView {
        id,
        size: if data.len() < 8 {
            data.len() as u8
        } else {
            8
        },
        data: padded(data),
    }
}

/// Whether all bytes of a slot are zero.
pub open spec fn slot_empty(slot: Seq<u8>) -> bool {
    forall|i: int| 0 <= i < slot.len() ==> slot[i] == 0
}

/// The frame that a slot of ten bytes holds, unless the slot is empty.
pub open spec fn decode_slot(slot: Seq<u8>) -> Option<CanFrameView> {
    let descriptor = crate::bytes::be16_value(slot[0], slot[1]);
    if slot_empty(slot) {
        None
    } else {
        Some(
            CanFrameView {
                id: (descriptor / 32) as u16,
                size: (descriptor % 16) as u8,
                data: slot.subrange(2, 10),
            },
        )
    }
}

/// An optional frame, taken by its view.
pub open spec fn frame_view(r: Option<CanFrame>) -> Option<CanFrameView> {
    match r {
        None => None,
        Some(f) => Some(f@),
    }
}

impl CanFrame {
    /// Makes a frame; the data is cut to eight bytes or filled up with zeros.
    pub fn new(id: u16, data: &[u8]) -> (f: Self)
        ensures
            f@ == frame_of(id, data@),
    {
        let mut buf = [0u8;8];
        let n: usize = if data.len() < 8 {
            data.len()
        } else {
            8
        };
        for i in 0..n
            invariant
                n <= 8,
                n <= data@.len(),
                forall|j: int| 0 <= j < i ==> buf@[j] == data@[j],
                forall|j: int| i <= j < 8 ==> buf@[j] == 0,
        {
            buf[i] = data[i];
        }
        assert(buf@ =~= padded(data@));
        CanFrame { id, size: n as u8, data: buf }
    }

    /// The packed descriptor: `(id << 5) | (size & 0x1F)`.
    pub fn descriptor(&self) -> (d: u16)
        ensures
            d == self@.descriptor(),
    {
        (self.id % 2048) * 32 + (self.size % 32) as u16
    }

    /// Reads a frame from its descriptor and its data: the identifier is
    /// `descriptor >> 5`, the size `descriptor & 0x0F`. The fifth bit is a service flag.
    pub fn from_descriptor(descriptor: u16, data: [u8; 8]) -> (f: Self)
        ensures
            f.id == descriptor / 32,
            f.size == descriptor % 16,
            f.data == data,
    {
        CanFrame { id: descriptor / 32, size: (descriptor % 16) as u8, data }
    }

    /// Reads a frame from a slot; `None` if the slot is empty, all its bytes zero.
    pub fn from_slot_be(slot: &[u8; 10]) -> (r: Option<Self>)
        ensures
            frame_view(r) == decode_slot(slot@),
    {
        let mut used: bool = false;
        for i in 0..10usize
            invariant
                used <==> exists|j: int| 0 <= j < i && slot@[j] != 0,
        {
            if slot[i] != 0 {
                used = true;
            }
        }
        if !used {
            return None;
        }
        let descriptor: u16 = u16_from_be(slot[0], slot[1]);
        let data = [
            slot[2],
            slot[3],
            slot[4],
            slot[5],
            slot[6],
            slot[7],
            slot[8],
            slot[9],
        ];
        assert(data@ =~= slot@.subrange(2, 10));
        Some(Self::from_descriptor(descriptor, data))
    }

    /// Writes the slot of the frame.
    pub fn to_slot_be(&self) -> (slot: [u8; 10])
        ensures
            slot@ == self@.slot(),
    {
        let desc = u16_to_be(self.descriptor());
        let d = &self.data;
        let slot = [desc[0], desc[1], d[0], d[1], d[2], d[3], d[4], d[5], d[6], d[7]];
        assert(slot@ =~= self@.slot());
        slot
    }

    /// The frame as text: four digits of the descriptor, a space, sixteen digits of data.
    pub fn to_hex_line(&self) -> (s: String)
        ensures
            s@ == self@.hex_line(),
    {
        let mut s = String::new();
        push_hex4(&mut s, self.descriptor());
        s.append(" ");
        push_hex_bytes(&mut s, self.data.as_slice(), "");
        assert(s@ =~= self@.hex_line());
        s
    }
}

/// A frame is recovered from its descriptor and its data, provided that the identifier
/// has eleven bits and the size four.
pub proof fn law_descriptor_round_trip(f: CanFrameView)
    requires
        f.id < 2048,
        f.size < 16,
    ensures
        f.descriptor() / 32 == f.id,
        f.descriptor() % 16 == f.size,
{
}

/// The descriptor is the identifier shifted by five bits over the low bits of the size.
pub proof fn law_descriptor_bits(f: CanFrameView)
    ensures
        f.descriptor() == (f.id << 5u16) | (f.size as u16 & 0x1F),
        f.descriptor() / 32 == f.descriptor() >> 5u16,
        f.descriptor() % 16 == f.descriptor() & 0x0F,
{
    let id = f.id;
    let size = f.size as u16;
    assert(((id % 2048) * 32 + size % 32) as u16 == (id << 5u16) | (size & 0x1F)) by (bit_vector);
    let d = f.descriptor();
    assert(d / 32 == d >> 5u16 && d % 16 == d & 0x0F) by (bit_vector);
}

/// A line of text tells which frame it stands for, provided that the identifier has eleven
/// bits and the size four. It has 21 characters.
pub proof fn law_hex_line_identifies(f: CanFrameView, g: CanFrameView)
    requires
        f.data.len() == 8,
        g.data.len() == 8,
    ensures
        f.hex_line().len() == 21,
        f.hex_line() == g.hex_line() ==> f.descriptor() == g.descriptor() && f.data == g.data,
        f.hex_line() == g.hex_line() && f.id < 2048 && f.size < 16 && g.id < 2048 && g.size < 16
            ==> f == g,
{
    reveal_strlit(" ");
    reveal_strlit("");
    assert(""@ =~= seq![]);
    let (x, y) = (f.hex_line(), g.hex_line());
    crate::text::lemma_hex_bytes_injective(f.data, g.data);
    crate::text::lemma_hex_bytes_injective(g.data, f.data);
    assert(crate::text::hex4(f.descriptor()) =~= x.subrange(0, 4));
    assert(crate::text::hex4(g.descriptor()) =~= y.subrange(0, 4));
    assert(crate::text::hex_bytes(f.data, seq![]) =~= x.skip(5));
    assert(crate::text::hex_bytes(g.data, seq![]) =~= y.skip(5));
    if x == y {
        crate::text::lemma_hex4_injective(f.descriptor(), g.descriptor());
        if f.id < 2048 && f.size < 16 && g.id < 2048 && g.size < 16 {
            law_descriptor_round_trip(f);
            law_descriptor_round_trip(g);
            assert(f =~= g);
        }
    }
}

/// A frame read back from the slot that was written for it is the frame itself, provided
/// that the identifier has eleven bits, the size four, and the slot is not empty.
pub proof fn law_slot_round_trip(f: CanFrameView)
    requires
        f.data.len() == 8,
        f.id < 2048,
        f.size < 16,
        f.id != 0 || f.size != 0 || !slot_empty(f.data),
    ensures
        decode_slot(f.slot()) == Some(f),
{
    let slot = f.slot();
    let d = f.descriptor();
    crate::bytes::law_be16_round_trip(d, 0, 0);
    assert(slot[0] == crate::bytes::be16(d)[0] && slot[1] == crate::bytes::be16(d)[1]);
    assert(slot.subrange(2, 10) =~= f.data);
    law_descriptor_round_trip(f);
    if f.id != 0 || f.size != 0 {
        assert(d != 0);
        assert(slot[0] != 0 || slot[1] != 0);
    } else {
        let i = choose|i: int| 0 <= i < f.data.len() && f.data[i] != 0;
        assert(slot[i + 2] != 0);
    }
}

/// The operating mode of a UART.
#[derive(Debug, Clone, Copy, PartialEq, Eq, Structural)]
pub enum UartMode {
    /// RSDD (MODBUS_RTU).
    Rsdd,
    Rs232,
    Rs485,
    Off,
}

impl UartMode {
    /// The code of the mode.
    pub open spec fn code(self) -> u8 {
        match self {
            UartMode::Rsdd => 0x01,
            UartMode::Rs232 => 0x02,
            UartMode::Rs485 => 0x03,
            UartMode::Off => 0x09,
        }
    }

    /// The mode with the given code.
    pub open spec fn coded(v: u8) -> Option<UartMode> {
        match v {
            0x01 => Some(UartMode::Rsdd),
            0x02 => Some(UartMode::Rs232),
            0x03 => Some(UartMode::Rs485),
            0x09 => Some(UartMode::Off),
            _ => None,
        }
    }

    /// Reads the code of a mode.
    pub fn from_u8(v: u8) -> (r: Option<Self>)
        ensures
            r == UartMode::coded(v),
    {
        match v {
            0x01 => Some(Self::Rsdd),
            0x02 => Some(Self::Rs232),
            0x03 => Some(Self::Rs485),
            0x09 => Some(Self::Off),
            _ => None,
        }
    }

    /// The code of the mode.
    pub fn as_u8(self) -> (v: u8)
        ensures
            v == self.code(),
    {
        match self {
            Self::Rsdd => 0x01,
            Self::Rs232 => 0x02,
            Self::Rs485 => 0x03,
            Self::Off => 0x09,
        }
    }
}

/// The way in which the generator forms its code.
#[derive(Debug, Clone, Copy, PartialEq, Eq, Structural)]
pub enum GenCode {
    Als,
    AlsEn,
    SautNsp,
}

impl GenCode {
    /// The number of the code.
    pub open spec fn number(self) -> u8 {
        match self {
            GenCode::Als => 0x01,
            GenCode::AlsEn => 0x02,
            GenCode::SautNsp => 0x03,
        }
    }

    /// The code with the given number.
    pub open spec fn numbered(v: u8) -> Option<GenCode> {
        match v {
            0x01 => Some(GenCode::Als),
            0x02 => Some(GenCode::AlsEn),
            0x03 => Some(GenCode::SautNsp),
            _ => None,
        }
    }

    /// Reads the number of a code.
    pub fn from_u8(v: u8) -> (r: Option<Self>)
        ensures
            r == GenCode::numbered(v),
    {
        match v {
            0x01 => Some(Self::Als),
            0x02 => Some(Self::AlsEn),
            0x03 => Some(Self::SautNsp),
            _ => None,
        }
    }

    /// The number of the code.
    pub fn as_u8(self) -> (v: u8)
        ensures
            v == self.number(),
    {
        match self {
            Self::Als => 0x01,
            Self::AlsEn => 0x02,
            Self::SautNsp => 0x03,
        }
    }
}

/// The codes of UART modes and of the generator name their modes, and no two share one.
pub proof fn law_mode_codes(mode: UartMode, code: GenCode, v: u8)
    ensures
        UartMode::coded(mode.code()) == Some(mode),
        UartMode::coded(v) matches Some(m) ==> m.code() == v,
        GenCode::numbered(code.number()) == Some(code),
        GenCode::numbered(v) matches Some(c) ==> c.number() == v,
{
}

/// One setting of the analogue signal generator.
#[derive(Debug, Clone, Copy)]
#[verifier::ext_equal]
pub struct GenSettings {
    /// How the code is formed.
    pub code: GenCode,
    /// Whether the signal is amplified ten times.
    pub gain_x10: bool,
    /// The setting of the DAC, 0 to 1.25 V.
    pub dac: u16,
    /// The ALSN code; 0 if there is none.
    pub alsn_code: u8,
    /// The frequency.
    pub frequency: u32,
    /// ALS-EN: synchronous group and code combination.
    pub alsen_sg_kk: u16,
    /// SAUT/NSP: the frequency; 0 if there is none.
    pub saut_freq: u8,
    /// SAUT/NSP: block 0 and block 1.
    pub saut_blocks: [u8; 6],
}

/// A [`GenSettings`] with its blocks as a sequence.
#[verifier::ext_equal]
pub struct GenSettingsView {
    pub code: GenCode,
    pub gain_x10: bool,
    pub dac: u16,
    pub alsn_code: u8,
    pub frequency: u32,
    pub alsen_sg_kk: u16,
    pub saut_freq: u8,
    pub saut_blocks: Seq<u8>,
}

impl View for GenSettings {
    type V = GenSettingsView;

    open spec fn view(&self) -> GenSettingsView {
        GenSettingsView {
            code: self.code,
            gain_x10: self.gain_x10,
            dac: self.dac,
            alsn_code: self.alsn_code,
            frequency: self.frequency,
            alsen_sg_kk: self.alsen_sg_kk,
            saut_freq: self.saut_freq,
            saut_blocks: self.saut_blocks@,
        }
    }
}

/// The protocol numbers the interfaces from one: CAN1 to CAN4, then the technological one.
/// A name ends in that number, except for the last.
pub proof fn law_can_interface_order(iface: CanInterface)
    ensures
        iface.number() == match iface {
            CanInterface::Can1 => 1u8,
            CanInterface::Can2 => 2,
            CanInterface::Can3 => 3,
            CanInterface::Can4 => 4,
            CanInterface::CanTech => 5,
        },
        iface.spec_name() == if iface.number() < 5 {
            "CAN"@ + crate::text::decimal(iface.number() as nat)
        } else {
            "CANTECH"@
        },
{
    reveal_strlit("CAN");
    reveal_strlit("CAN1");
    reveal_strlit("CAN2");
    reveal_strlit("CAN3");
    reveal_strlit("CAN4");
    let text = "CAN"@ + crate::text::decimal(iface.number() as nat);
    if iface.number() < 5 {
        assert(iface.spec_name() =~= text);
    }
}

/// The numbers that devices know the modes of the UART and the codes of the generator by.
pub proof fn law_device_numbers(mode: UartMode, code: GenCode)
    ensures
        mode.code() == match mode {
            UartMode::Rsdd => 0x01u8,
            UartMode::Rs232 => 0x02,
            UartMode::Rs485 => 0x03,
            UartMode::Off => 0x09,
        },
        code.number() == match code {
            GenCode::Als => 0x01u8,
            GenCode::AlsEn => 0x02,
            GenCode::SautNsp => 0x03,
        },
{
}

/// A speed is named by its kilobits per second, and goes out with the low byte first.
pub proof fn law_speeds()
    ensures
        BaudRate::kbps_25().0 == 25,
        BaudRate::kbps_50().0 == 50,
        BaudRate::kbps_100().0 == 100,
        BaudRate::kbps_250().0 == 250,
        BaudRate::kbps_500().0 == 500,
        BaudRate::kbps_1000().0 == 1000,
        BaudRate::initial() == BaudRate::kbps_100(),
{
}

/// A new frame keeps its identifier and as much of its data as fits; the rest is zero.
pub proof fn law_new_frame(id: u16, data: Seq<u8>, i: int)
    requires
        0 <= i < 8,
    ensures
        frame_of(id, data).id == id,
        frame_of(id, data).size <= 8 && frame_of(id, data).size <= data.len(),
        frame_of(id, data).size == 8 || frame_of(id, data).size == data.len(),
        frame_of(id, data).data.len() == 8,
        i < frame_of(id, data).size ==> frame_of(id, data).data[i] == data[i],
        i >= frame_of(id, data).size ==> frame_of(id, data).data[i] == 0,
{
}

/// A slot starts with the descriptor, the heavier byte first, and ends with the data.
pub proof fn law_slot_layout(f: CanFrameView, i: int)
    requires
        f.data.len() == 8,
        0 <= i < 8,
    ensures
        f.slot().len() == 10,
        256 * f.slot()[0] + f.slot()[1] == 32 * (f.id % 2048) + f.size % 32,
        f.slot()[2 + i] == f.data[i],
{
    crate::bytes::law_bytes_weigh(f.descriptor(), 0, 0, 0, 0, 0);
}

/// A slot holds a frame unless all its bytes are zero. The first two bytes make up the
/// identifier, a service flag and the size; the others are the data.
pub proof fn law_slot_contents(slot: Seq<u8>, i: int)
    requires
        slot.len() == 10,
        0 <= i < 8,
    ensures
        decode_slot(slot) is None <==> slot =~= Seq::new(10, |j: int| 0u8),
        decode_slot(slot) matches Some(f) ==> {
            &&& f.size < 16
            &&& {
                ||| 256 * slot[0] + slot[1] == 32 * f.id + f.size
                ||| 256 * slot[0] + slot[1] == 32 * f.id + 16 + f.size
            }
            &&& f.data.len() == 8
            &&& f.data[i] == slot[2 + i]
        },
{
    crate::bytes::law_bytes_weigh(0, 0, slot[0], slot[1], 0, 0);
    if slot_empty(slot) {
        assert(slot =~= Seq::new(10, |j: int| 0u8));
    }
}

/// A line reads: the descriptor in four hexadecimal digits, a space, and two digits for each
/// byte of data.
pub proof fn law_hex_line_reads(f: CanFrameView, i: int)
    requires
        f.data.len() == 8,
        0 <= i < 8,
    ensures
        crate::text::digits_value(f.hex_line().subrange(0, 4), 16) == 32 * (f.id % 2048) + f.size
            % 32,
        crate::text::all_digits(f.hex_line().subrange(0, 4), 16),
        f.hex_line()[4] == ' ',
        crate::text::digits_value(f.hex_line().subrange(5 + 2 * i, 7 + 2 * i), 16) == f.data[i],
        crate::text::all_digits(f.hex_line().subrange(5 + 2 * i, 7 + 2 * i), 16),
        f.hex_line().len() == 21,
{
    reveal_strlit(" ");
    reveal_strlit("");
    assert(""@ =~= seq![]);
    law_hex_line_identifies(f, f);
    crate::text::law_hex_reads_back(0, f.descriptor());
    crate::text::law_hex_bytes_layout(f.data, ""@, i);
    let line = f.hex_line();
    let data = crate::text::hex_bytes(f.data, ""@);
    assert(line.subrange(0, 4) =~= crate::text::hex4(f.descriptor()));
    assert(i * 2 == 2 * i);
    assert(line.subrange(5 + 2 * i, 7 + 2 * i) =~= data.subrange(i * 2, i * 2 + 2));
}

} // verus!
