//! The packets that clients and daemon exchange.
//!
//! All fields are big-endian:
//!
//! ```text
//! client_id:2  session_id:2  seq:2  cmd:2  payload_len:2  payload
//! ```
//!
//! An answer carries `cmd | 0x8000`. An error carries the command 0xFFFF and a text in
//! UTF-8.

use vstd::prelude::*;
use crate::bytes::{u16_from_be, u16_to_be, u32_from_be};
use crate::error::{AppError, AppErrorView};
use crate::text::push_decimal;

verus! {

/// The length of the header of a packet.
pub const HEADER_LEN: usize = 10;

/// The commands, from the client unless noted.
#[derive(Debug, Clone, Copy, PartialEq, Eq, Structural)]
pub enum Cmd {
    /// Register a new client; the answer is its identifier.
    Register,
    /// Unregister a client and close all its sessions.
    Unregister,
    /// Keepalive.
    Ping,
    /// List the connected USB devices.
    DeviceList,
    /// Describe the device with a given index.
    DeviceInfo,
    /// Ask for the firmware version of the device with a given index; no session needed.
    DeviceGetVersion,
    /// Open a session on a device.
    SessionCreate,
    /// Close a session.
    SessionClose,
    /// List the sessions of the client.
    SessionList,
    /// Ask for the firmware version.
    GetVersion,
    /// Ask whether there is a UART.
    CheckUart,
    /// Open a UDP port that streams CAN frames.
    StreamOpen,
    /// Close the stream port.
    StreamClose,
    /// Write one CAN frame.
    CanWrite,
    /// Start writing a CAN frame periodically.
    CanPeriodicStart,
    /// Stop writing periodically.
    CanPeriodicStop,
    /// Set the speed of a CAN interface. Payload: iface:u8, baud:u16.
    CanSetBaudrate,
    /// Read CAN frames once. Payload: iface:u8. Answer: count:u16, then for each frame len:u8
    /// and a line of hexadecimal text.
    CanReadOnce,
    /// Server to client: a CAN frame on the stream port.
    CanFrame,
    /// Set the mode of the UART. Payload: mode:u8.
    UartConfigure,
    /// Write to the UART. Payload: the data.
    UartWrite,
    /// Read from the UART. Answer: the data.
    UartRead,
    /// Open a UDP port that streams UART data.
    UartStreamOpen,
    /// Close the UART stream port.
    UartStreamClose,
    /// Set up the generator.
    GenSetMode,
    /// Set the frequency of a channel. Payload: channel:u8, frequency:u32.
    GenSetFrequency,
    /// Set the amplitude of a channel. Payload: channel:u8, amplitude:u16.
    GenSetAmplitude,
    /// Server to client: a notification.
    Event,
    /// Server to client: a request failed.
    Error,
}

impl Cmd {
    /// The number of the command.
    #[verifier::allow_in_spec]
    pub fn code(self) -> u16
        returns
            match self {
                Cmd::Register => 0x0001u16,
                Cmd::Unregister => 0x0002u16,
                Cmd::Ping => 0x0003u16,
                Cmd::DeviceList => 0x0010u16,
                Cmd::DeviceInfo => 0x0011u16,
                Cmd::DeviceGetVersion => 0x0012u16,
                Cmd::SessionCreate => 0x0020u16,
                Cmd::SessionClose => 0x0021u16,
                Cmd::SessionList => 0x0022u16,
                Cmd::GetVersion => 0x0030u16,
                Cmd::CheckUart => 0x0031u16,
                Cmd::StreamOpen => 0x0040u16,
                Cmd::StreamClose => 0x0041u16,
                Cmd::CanWrite => 0x0042u16,
                Cmd::CanPeriodicStart => 0x0043u16,
                Cmd::CanPeriodicStop => 0x0044u16,
                Cmd::CanSetBaudrate => 0x0045u16,
                Cmd::CanReadOnce => 0x0046u16,
                Cmd::CanFrame => 0x0050u16,
                Cmd::UartConfigure => 0x0060u16,
                Cmd::UartWrite => 0x0061u16,
                Cmd::UartRead => 0x0062u16,
                Cmd::UartStreamOpen => 0x0063u16,
                Cmd::UartStreamClose => 0x0064u16,
                Cmd::GenSetMode => 0x0070u16,
                Cmd::GenSetFrequency => 0x0071u16,
                Cmd::GenSetAmplitude => 0x0072u16,
                Cmd::Event => 0x00F0u16,
                Cmd::Error => 0xFFFFu16,
            },
    {
        match self {
            Cmd::Register => 0x0001,
            Cmd::Unregister => 0x0002,
            Cmd::Ping => 0x0003,
            Cmd::DeviceList => 0x0010,
            Cmd::DeviceInfo => 0x0011,
            Cmd::DeviceGetVersion => 0x0012,
            Cmd::SessionCreate => 0x0020,
            Cmd::SessionClose => 0x0021,
            Cmd::SessionList => 0x0022,
            Cmd::GetVersion => 0x0030,
            Cmd::CheckUart => 0x0031,
            Cmd::StreamOpen => 0x0040,
            Cmd::StreamClose => 0x0041,
            Cmd::CanWrite => 0x0042,
            Cmd::CanPeriodicStart => 0x0043,
            Cmd::CanPeriodicStop => 0x0044,
            Cmd::CanSetBaudrate => 0x0045,
            Cmd::CanReadOnce => 0x0046,
            Cmd::CanFrame => 0x0050,
            Cmd::UartConfigure => 0x0060,
            Cmd::UartWrite => 0x0061,
            Cmd::UartRead => 0x0062,
            Cmd::UartStreamOpen => 0x0063,
            Cmd::UartStreamClose => 0x0064,
            Cmd::GenSetMode => 0x0070,
            Cmd::GenSetFrequency => 0x0071,
            Cmd::GenSetAmplitude => 0x0072,
            Cmd::Event => 0x00F0,
            Cmd::Error => 0xFFFF,
        }
    }
}

/// The command with the given number.
pub open spec fn cmd_of(v: u16) -> Option<Cmd> {
    match v {
        0x0001 => Some(Cmd::Register),
        0x0002 => Some(Cmd::Unregister),
        0x0003 => Some(Cmd::Ping),
        0x0010 => Some(Cmd::DeviceList),
        0x0011 => Some(Cmd::DeviceInfo),
        0x0012 => Some(Cmd::DeviceGetVersion),
        0x0020 => Some(Cmd::SessionCreate),
        0x0021 => Some(Cmd::SessionClose),
        0x0022 => Some(Cmd::SessionList),
        0x0030 => Some(Cmd::GetVersion),
        0x0031 => Some(Cmd::CheckUart),
        0x0040 => Some(Cmd::StreamOpen),
        0x0041 => Some(Cmd::StreamClose),
        0x0042 => Some(Cmd::CanWrite),
        0x0043 => Some(Cmd::CanPeriodicStart),
        0x0044 => Some(Cmd::CanPeriodicStop),
        0x0045 => Some(Cmd::CanSetBaudrate),
        0x0046 => Some(Cmd::CanReadOnce),
        0x0050 => Some(Cmd::CanFrame),
        0x0060 => Some(Cmd::UartConfigure),
        0x0061 => Some(Cmd::UartWrite),
        0x0062 => Some(Cmd::UartRead),
        0x0063 => Some(Cmd::UartStreamOpen),
        0x0064 => Some(Cmd::UartStreamClose),
        0x0070 => Some(Cmd::GenSetMode),
        0x0071 => Some(Cmd::GenSetFrequency),
        0x0072 => Some(Cmd::GenSetAmplitude),
        0x00F0 => Some(Cmd::Event),
        0xFFFF => Some(Cmd::Error),
        _ => None,
    }
}

impl TryFrom<u16> for Cmd {
    type Error = AppError;

    fn try_from(v: u16) -> (r: Result<Self, AppError>) {
        match v {
            0x0001 => Ok(Cmd::Register),
            0x0002 => Ok(Cmd::Unregister),
            0x0003 => Ok(Cmd::Ping),
            0x0010 => Ok(Cmd::DeviceList),
            0x0011 => Ok(Cmd::DeviceInfo),
            0x0012 => Ok(Cmd::DeviceGetVersion),
            0x0020 => Ok(Cmd::SessionCreate),
            0x0021 => Ok(Cmd::SessionClose),
            0x0022 => Ok(Cmd::SessionList),
            0x0030 => Ok(Cmd::GetVersion),
            0x0031 => Ok(Cmd::CheckUart),
            0x0040 => Ok(Cmd::StreamOpen),
            0x0041 => Ok(Cmd::StreamClose),
            0x0042 => Ok(Cmd::CanWrite),
            0x0043 => Ok(Cmd::CanPeriodicStart),
            0x0044 => Ok(Cmd::CanPeriodicStop),
            0x0045 => Ok(Cmd::CanSetBaudrate),
            0x0046 => Ok(Cmd::CanReadOnce),
            0x0050 => Ok(Cmd::CanFrame),
            0x0060 => Ok(Cmd::UartConfigure),
            0x0061 => Ok(Cmd::UartWrite),
            0x0062 => Ok(Cmd::UartRead),
            0x0063 => Ok(Cmd::UartStreamOpen),
            0x0064 => Ok(Cmd::UartStreamClose),
            0x0070 => Ok(Cmd::GenSetMode),
            0x0071 => Ok(Cmd::GenSetFrequency),
            0x0072 => Ok(Cmd::GenSetAmplitude),
            0x00F0 => Ok(Cmd::Event),
            0xFFFF => Ok(Cmd::Error),
            other => Err(AppError::UnknownCmd(other)),
        }
    }
}

impl vstd::std_specs::convert::TryFromSpecImpl<u16> for Cmd {
    open spec fn obeys_try_from_spec() -> bool {
        true
    }

    open spec fn try_from_spec(v: u16) -> Result<Self, AppError> {
        match cmd_of(v) {
            Some(c) => Ok(c),
            None => Err(AppError::UnknownCmd(v)),
        }
    }
}

/// The numbers and the commands name each other.
pub proof fn law_command_numbers(c: Cmd, v: u16)
    ensures
        cmd_of(c.code()) == Some(c),
        cmd_of(v) matches Some(d) ==> d.code() == v,
{
}

/// A packet.
#[derive(Debug, Clone)]
pub struct Packet {
    pub client_id: u16,
    pub session_id: u16,
    pub seq: u16,
    /// The command; the bit 0x8000 marks an answer.
    pub cmd_raw: u16,
    pub payload: Vec<u8>,
}

/// A [`Packet`] with its payload as a sequence.
#[verifier::ext_equal]
pub struct PacketView {
    pub client_id: u16,
    pub session_id: u16,
    pub seq: u16,
    pub cmd_raw: u16,
    pub payload: Seq<u8>,
}

impl View for Packet {
    type V = PacketView;

    open spec fn view(&self) -> PacketView {
        PacketView {
            client_id: self.client_id,
            session_id: self.session_id,
            seq: self.seq,
            cmd_raw: self.cmd_raw,
            payload: self.payload@,
        }
    }
}

impl PacketView {
    /// Whether the packet is an answer.
    pub open spec fn is_response(self) -> bool {
        self.cmd_raw >= 0x8000
    }

    /// The command without the mark of an answer.
    pub open spec fn base_cmd(self) -> u16 {
        (self.cmd_raw % 0x8000) as u16
    }

    /// The command, if there is one with its number.
    pub open spec fn cmd(self) -> Option<Cmd> {
        cmd_of(self.base_cmd())
    }

    /// The answer to the packet.
    pub open spec fn response(self, payload: Seq<u8>) -> Seq<u8> {
        raw_bytes(
            self.client_id,
            self.session_id,
            self.seq,
            (0x8000 + self.base_cmd()) as u16,
            payload,
        )
    }

    /// The error that answers the packet.
    pub open spec fn error(self, text: Seq<char>) -> Seq<u8> {
        raw_bytes(
            self.client_id,
            self.session_id,
            self.seq,
            0xFFFF,
            vstd::utf8::encode_utf8(text),
        )
    }
}

/// The bytes of a packet. The length field has sixteen bits.
pub open spec fn raw_bytes(
    client_id: u16,
    session_id: u16,
    seq: u16,
    cmd: u16,
    payload: Seq<u8>,
) -> Seq<u8> {
    crate::bytes::be16(client_id) + crate::bytes::be16(session_id) + crate::bytes::be16(seq)
        + crate::bytes::be16(cmd) + crate::bytes::be16((payload.len() % 65536) as u16) + payload
}

/// The number that the two bytes at `i` write.
pub open spec fn be16_at(buf: Seq<u8>, i: int) -> u16 {
    crate::bytes::be16_value(buf[i], buf[i + 1])
}

/// The packet that a buffer starts with, if the buffer holds it in full.
pub open spec fn packet_in(buf: Seq<u8>) -> Result<PacketView, AppErrorView> {
    let len = be16_at(buf, 8) as int;
    if buf.len() < HEADER_LEN || buf.len() < HEADER_LEN + len {
        Err(AppErrorView::PacketTooShort)
    } else {
        Ok(
            PacketView {
                client_id: be16_at(buf, 0),
                session_id: be16_at(buf, 2),
                seq: be16_at(buf, 4),
                cmd_raw: be16_at(buf, 6),
                payload: buf.subrange(HEADER_LEN as int, HEADER_LEN + len),
            },
        )
    }
}

/// An outcome with both sides taken by their views.
pub open spec fn packet_outcome(r: Result<Packet, AppError>) -> Result<PacketView, AppErrorView> {
    match r {
        Ok(p) => Ok(p@),
        Err(e) => Err(e@),
    }
}

impl Packet {
    /// Reads the packet that a buffer starts with; what follows it is ignored.
    pub fn parse(buf: &[u8]) -> (r: Result<Self, AppError>)
        ensures
            packet_outcome(r) == packet_in(buf@),
    {
        if buf.len() < HEADER_LEN {
            return Err(AppError::PacketTooShort);
        }
        let client_id: u16 = u16_from_be(buf[0], buf[1]);
        let session_id: u16 = u16_from_be(buf[2], buf[3]);
        let seq: u16 = u16_from_be(buf[4], buf[5]);
        let cmd_raw: u16 = u16_from_be(buf[6], buf[7]);
        let payload_len: usize = u16_from_be(buf[8], buf[9]) as usize;
        if buf.len() < HEADER_LEN + payload_len {
            return Err(AppError::PacketTooShort);
        }
        let payload = vstd::slice::slice_to_vec(
            vstd::slice::slice_subrange(buf, HEADER_LEN, HEADER_LEN + payload_len),
        );
        Ok(Packet { client_id, session_id, seq, cmd_raw, payload })
    }

    /// Whether the packet is an answer.
    pub fn is_response(&self) -> (b: bool)
        ensures
            b == self@.is_response(),
    {
        self.cmd_raw >= 0x8000
    }

    /// The command without the mark of an answer.
    pub fn base_cmd(&self) -> (v: u16)
        ensures
            v == self@.base_cmd(),
    {
        self.cmd_raw % 0x8000
    }

    /// The command of the packet.
    pub fn cmd(&self) -> (r: Result<Cmd, AppError>)
        ensures
            r == match self@.cmd() {
                Some(c) => Ok::<Cmd, AppError>(c),
                None => Err(AppError::UnknownCmd(self@.base_cmd())),
            },
    {
        Cmd::try_from(self.base_cmd())
    }

    /// Writes a packet.
    pub fn build_raw(client_id: u16, session_id: u16, seq: u16, cmd: u16, payload: &[u8]) -> (buf:
        Vec<u8>)
        ensures
            buf@ == raw_bytes(client_id, session_id, seq, cmd, payload@),
    {
        let mut buf: Vec<u8> = Vec::new();
        buf.extend_from_slice(u16_to_be(client_id).as_slice());
        buf.extend_from_slice(u16_to_be(session_id).as_slice());
        buf.extend_from_slice(u16_to_be(seq).as_slice());
        buf.extend_from_slice(u16_to_be(cmd).as_slice());
        buf.extend_from_slice(u16_to_be((payload.len() % 65536) as u16).as_slice());
        buf.extend_from_slice(payload);
        assert(buf@ =~= raw_bytes(client_id, session_id, seq, cmd, payload@));
        buf
    }

    /// Writes the answer to a request; it repeats the identifiers of the request.
    pub fn response(req: &Packet, payload: &[u8]) -> (buf: Vec<u8>)
        ensures
            buf@ == req@.response(payload@),
    {
        Self::build_raw(
            req.client_id,
            req.session_id,
            req.seq,
            0x8000 + req.base_cmd(),
            payload,
        )
    }

    /// Writes the error that answers a request.
    pub fn error(req: &Packet, msg: &str) -> (buf: Vec<u8>)
        ensures
            buf@ == req@.error(msg@),
    {
        Self::build_raw(req.client_id, req.session_id, req.seq, 0xFFFF, msg.as_bytes())
    }

    /// Writes a packet that the daemon sends of its own accord.
    pub fn push(client_id: u16, session_id: u16, seq: u16, cmd: Cmd, payload: &[u8]) -> (buf:
        Vec<u8>)
        ensures
            buf@ == raw_bytes(client_id, session_id, seq, cmd.code(), payload@),
    {
        Self::build_raw(client_id, session_id, seq, cmd.code(), payload)
    }
}

/// A packet is read back from the bytes written for it, whatever follows, provided that
/// its payload fits in the length field.
pub proof fn law_packet_round_trip(p: PacketView, rest: Seq<u8>)
    requires
        p.payload.len() < 65536,
    ensures
        packet_in(raw_bytes(p.client_id, p.session_id, p.seq, p.cmd_raw, p.payload) + rest) == Ok::<
            PacketView,
            AppErrorView,
        >(p),
{
    let buf = raw_bytes(p.client_id, p.session_id, p.seq, p.cmd_raw, p.payload) + rest;
    let len = p.payload.len() as u16;
    crate::bytes::law_be16_round_trip(p.client_id, 0, 0);
    crate::bytes::law_be16_round_trip(p.session_id, 0, 0);
    crate::bytes::law_be16_round_trip(p.seq, 0, 0);
    crate::bytes::law_be16_round_trip(p.cmd_raw, 0, 0);
    crate::bytes::law_be16_round_trip(len, 0, 0);
    assert(be16_at(buf, 0) == p.client_id);
    assert(be16_at(buf, 2) == p.session_id);
    assert(be16_at(buf, 4) == p.seq);
    assert(be16_at(buf, 6) == p.cmd_raw);
    assert(be16_at(buf, 8) == len);
    assert(buf.subrange(10, 10 + len) =~= p.payload);
}

/// A packet is read back from the bytes written for it.
proof fn lemma_raw_read_back(client_id: u16, session_id: u16, seq: u16, cmd: u16, payload: Seq<u8>)
    requires
        payload.len() < 65536,
    ensures
        packet_in(raw_bytes(client_id, session_id, seq, cmd, payload)) == Ok::<
            PacketView,
            AppErrorView,
        >(PacketView { client_id, session_id, seq, cmd_raw: cmd, payload }),
{
    let bytes = raw_bytes(client_id, session_id, seq, cmd, payload);
    law_packet_round_trip(
        PacketView { client_id, session_id, seq, cmd_raw: cmd, payload },
        seq![],
    );
    assert(bytes + seq![] =~= bytes);
}

/// A packet that was read, written again, gives the bytes that it was read from.
pub proof fn law_packet_bytes_round_trip(buf: Seq<u8>, p: PacketView)
    requires
        packet_in(buf) == Ok::<PacketView, AppErrorView>(p),
    ensures
        raw_bytes(p.client_id, p.session_id, p.seq, p.cmd_raw, p.payload) == buf.take(
            (10 + p.payload.len()) as int,
        ),
        p.payload.len() < 65536,
{
    crate::bytes::law_be16_round_trip(0, buf[0], buf[1]);
    crate::bytes::law_be16_round_trip(0, buf[2], buf[3]);
    crate::bytes::law_be16_round_trip(0, buf[4], buf[5]);
    crate::bytes::law_be16_round_trip(0, buf[6], buf[7]);
    crate::bytes::law_be16_round_trip(0, buf[8], buf[9]);
    assert(p.payload.len() == be16_at(buf, 8));
    assert(raw_bytes(p.client_id, p.session_id, p.seq, p.cmd_raw, p.payload) =~= buf.take(
        (10 + p.payload.len()) as int,
    ));
}

/// The marks of answers as bits: the answer to a command sets the bit 0x8000, and the
/// command without the mark is what the other bits write.
pub proof fn law_response_bits(p: PacketView)
    ensures
        p.is_response() <==> p.cmd_raw & 0x8000 != 0,
        p.base_cmd() == p.cmd_raw & 0x7FFF,
        0x8000 + p.base_cmd() == 0x8000 | p.cmd_raw,
{
    let c = p.cmd_raw;
    assert((c >= 0x8000 <==> c & 0x8000 != 0) && c % 0x8000 == c & 0x7FFF && 0x8000 + c % 0x8000
        == 0x8000u16 | c) by (bit_vector);
}

/// An answer repeats the identifiers of the request and its command, is marked as an
/// answer, and carries the payload.
pub proof fn law_response_mirrors_request(req: PacketView, payload: Seq<u8>)
    requires
        payload.len() < 65536,
    ensures
        packet_in(req.response(payload)) matches Ok(p) && {
            &&& p.client_id == req.client_id
            &&& p.session_id == req.session_id
            &&& p.seq == req.seq
            &&& p.is_response()
            &&& p.base_cmd() == req.base_cmd()
            &&& p.payload == payload
        },
{
    lemma_raw_read_back(
        req.client_id,
        req.session_id,
        req.seq,
        (0x8000 + req.base_cmd()) as u16,
        payload,
    );
}

/// An error repeats the identifiers of the request, is marked as an answer, and its payload
/// reads as the text.
pub proof fn law_error_mirrors_request(req: PacketView, text: Seq<char>)
    requires
        vstd::utf8::encode_utf8(text).len() < 65536,
    ensures
        packet_in(req.error(text)) matches Ok(p) && {
            &&& p.client_id == req.client_id
            &&& p.session_id == req.session_id
            &&& p.seq == req.seq
            &&& p.cmd_raw == Cmd::Error.code()
            &&& p.is_response()
            &&& vstd::utf8::decode_utf8(p.payload) == text
        },
{
    let payload = vstd::utf8::encode_utf8(text);
    assert(vstd::utf8::decode_utf8(payload) == text) by {
        vstd::utf8::encode_utf8_decode_utf8(text);
    }
    lemma_raw_read_back(req.client_id, req.session_id, req.seq, 0xFFFF, payload);
}

/// The error of a payload that ends too early.
pub open spec fn need(what: Seq<char>, offset: int) -> AppErrorView {
    AppErrorView::PayloadDecode(
        "need "@ + what + " at offset "@ + crate::text::decimal(offset as nat),
    )
}

/// The byte of a payload at an offset.
pub open spec fn u8_at(payload: Seq<u8>, offset: int) -> Result<u8, AppErrorView> {
    if offset < payload.len() {
        Ok(payload[offset])
    } else {
        Err(need("u8"@, offset))
    }
}

/// The 16-bit number of a payload at an offset.
pub open spec fn u16_at(payload: Seq<u8>, offset: int) -> Result<u16, AppErrorView> {
    if offset + 2 <= payload.len() {
        Ok(be16_at(payload, offset))
    } else {
        Err(need("u16"@, offset))
    }
}

/// The 32-bit number of a payload at an offset.
pub open spec fn u32_at(payload: Seq<u8>, offset: int) -> Result<u32, AppErrorView> {
    if offset + 4 <= payload.len() {
        Ok(
            crate::bytes::be32_value(
                payload[offset],
                payload[offset + 1],
                payload[offset + 2],
                payload[offset + 3],
            ),
        )
    } else {
        Err(need("u32"@, offset))
    }
}

/// The error of a payload that ends too early.
fn need_error(what: &str, offset: usize) -> (e: AppError)
    ensures
        e@ == need(what@, offset as int),
{
    let mut text = "need ".to_owned();
    text.append(what);
    text.append(" at offset ");
    push_decimal(&mut text, offset as u64);
    AppError::PayloadDecode(text)
}

/// Reads the byte of a payload at an offset.
pub fn read_u8(payload: &[u8], offset: usize) -> (r: Result<u8, AppError>)
    ensures
        crate::error::app_outcome(r) == u8_at(payload@, offset as int),
{
    if offset < payload.len() {
        Ok(payload[offset])
    } else {
        Err(need_error("u8", offset))
    }
}

/// Reads the 16-bit number of a payload at an offset.
pub fn read_u16(payload: &[u8], offset: usize) -> (r: Result<u16, AppError>)
    requires
        offset + 2 <= usize::MAX,
    ensures
        crate::error::app_outcome(r) == u16_at(payload@, offset as int),
{
    if payload.len() < offset + 2 {
        return Err(need_error("u16", offset));
    }
    Ok(u16_from_be(payload[offset], payload[offset + 1]))
}

/// Reads the 32-bit number of a payload at an offset.
pub fn read_u32(payload: &[u8], offset: usize) -> (r: Result<u32, AppError>)
    requires
        offset + 4 <= usize::MAX,
    ensures
        crate::error::app_outcome(r) == u32_at(payload@, offset as int),
{
    if payload.len() < offset + 4 {
        return Err(need_error("u32", offset));
    }
    Ok(
        u32_from_be(
            payload[offset],
            payload[offset + 1],
            payload[offset + 2],
            payload[offset + 3],
        ),
    )
}

/// The number of each command.
pub proof fn law_command_table(c: Cmd)
    ensures
        c.code() == match c {
            Cmd::Register => 0x0001u16,
            Cmd::Unregister => 0x0002u16,
            Cmd::Ping => 0x0003u16,
            Cmd::DeviceList => 0x0010u16,
            Cmd::DeviceInfo => 0x0011u16,
            Cmd::DeviceGetVersion => 0x0012u16,
            Cmd::SessionCreate => 0x0020u16,
            Cmd::SessionClose => 0x0021u16,
            Cmd::SessionList => 0x0022u16,
            Cmd::GetVersion => 0x0030u16,
            Cmd::CheckUart => 0x0031u16,
            Cmd::StreamOpen => 0x0040u16,
            Cmd::StreamClose => 0x0041u16,
            Cmd::CanWrite => 0x0042u16,
            Cmd::CanPeriodicStart => 0x0043u16,
            Cmd::CanPeriodicStop => 0x0044u16,
            Cmd::CanSetBaudrate => 0x0045u16,
            Cmd::CanReadOnce => 0x0046u16,
            Cmd::CanFrame => 0x0050u16,
            Cmd::UartConfigure => 0x0060u16,
            Cmd::UartWrite => 0x0061u16,
            Cmd::UartRead => 0x0062u16,
            Cmd::UartStreamOpen => 0x0063u16,
            Cmd::UartStreamClose => 0x0064u16,
            Cmd::GenSetMode => 0x0070u16,
            Cmd::GenSetFrequency => 0x0071u16,
            Cmd::GenSetAmplitude => 0x0072u16,
            Cmd::Event => 0x00F0u16,
            Cmd::Error => 0xFFFFu16,
        },
        cmd_of(c.code()) == Some(c),
{
}

/// A packet starts with the identifiers of its client and its session, its sequence number,
/// its command and the length of its payload, each in two bytes with the heavier first; the
/// payload follows. The length wraps at 65536.
pub proof fn law_packet_layout(
    client_id: u16,
    session_id: u16,
    seq: u16,
    cmd: u16,
    payload: Seq<u8>,
)
    ensures
        ({
            let b = raw_bytes(client_id, session_id, seq, cmd, payload);
            &&& b.len() == 10 + payload.len()
            &&& 256 * b[0] + b[1] == client_id
            &&& 256 * b[2] + b[3] == session_id
            &&& 256 * b[4] + b[5] == seq
            &&& 256 * b[6] + b[7] == cmd
            &&& 256 * b[8] + b[9] == payload.len() % 65536
            &&& b.skip(10) == payload
        }),
{
    let b = raw_bytes(client_id, session_id, seq, cmd, payload);
    let len = (payload.len() % 65536) as u16;
    crate::bytes::law_bytes_weigh(client_id, 0, 0, 0, 0, 0);
    crate::bytes::law_bytes_weigh(session_id, 0, 0, 0, 0, 0);
    crate::bytes::law_bytes_weigh(seq, 0, 0, 0, 0, 0);
    crate::bytes::law_bytes_weigh(cmd, 0, 0, 0, 0, 0);
    crate::bytes::law_bytes_weigh(len, 0, 0, 0, 0, 0);
    assert(b[0] == crate::bytes::be16(client_id)[0] && b[1] == crate::bytes::be16(client_id)[1]);
    assert(b[2] == crate::bytes::be16(session_id)[0] && b[3] == crate::bytes::be16(session_id)[1]);
    assert(b[4] == crate::bytes::be16(seq)[0] && b[5] == crate::bytes::be16(seq)[1]);
    assert(b[6] == crate::bytes::be16(cmd)[0] && b[7] == crate::bytes::be16(cmd)[1]);
    assert(b[8] == crate::bytes::be16(len)[0] && b[9] == crate::bytes::be16(len)[1]);
    assert(b.skip(10) =~= payload);
}

/// A packet is read exactly where its header and as much payload as it announces are there.
pub proof fn law_packet_is_read(buf: Seq<u8>)
    ensures
        packet_in(buf) is Ok <==> buf.len() >= 10 && buf.len() >= 10 + 256 * buf[8] + buf[9],
        packet_in(buf) matches Ok(p) ==> {
            &&& p.client_id == 256 * buf[0] + buf[1]
            &&& p.session_id == 256 * buf[2] + buf[3]
            &&& p.seq == 256 * buf[4] + buf[5]
            &&& p.cmd_raw == 256 * buf[6] + buf[7]
            &&& p.payload.len() == 256 * buf[8] + buf[9]
            &&& p.payload.is_prefix_of(buf.skip(10))
        },
        packet_in(buf) matches Err(e) ==> e == AppErrorView::PacketTooShort,
{
    crate::bytes::law_bytes_weigh(0, 0, buf[0], buf[1], 0, 0);
    crate::bytes::law_bytes_weigh(0, 0, buf[2], buf[3], 0, 0);
    crate::bytes::law_bytes_weigh(0, 0, buf[4], buf[5], 0, 0);
    crate::bytes::law_bytes_weigh(0, 0, buf[6], buf[7], 0, 0);
    crate::bytes::law_bytes_weigh(0, 0, buf[8], buf[9], 0, 0);
    if let Ok(p) = packet_in(buf) {
        assert(p.payload =~= buf.skip(10).subrange(0, p.payload.len() as int));
    }
}

/// A packet that was cut short is refused.
pub proof fn law_cut_packet_is_refused(p: PacketView, n: int)
    requires
        p.payload.len() < 65536,
        0 <= n < 10 + p.payload.len(),
    ensures
        packet_in(
            raw_bytes(p.client_id, p.session_id, p.seq, p.cmd_raw, p.payload).take(n),
        ) == Err::<PacketView, _>(AppErrorView::PacketTooShort),
{
    let all = raw_bytes(p.client_id, p.session_id, p.seq, p.cmd_raw, p.payload);
    law_packet_layout(p.client_id, p.session_id, p.seq, p.cmd_raw, p.payload);
    law_packet_is_read(all.take(n));
    if n >= 10 {
        assert(all.take(n)[8] == all[8] && all.take(n)[9] == all[9]);
    }
}

/// A number is read from a payload exactly where all its bytes are there; the first weighs
/// most.
pub proof fn law_payload_numbers(payload: Seq<u8>, offset: int)
    requires
        0 <= offset,
    ensures
        u8_at(payload, offset) is Ok <==> offset + 1 <= payload.len(),
        u8_at(payload, offset) matches Ok(v) ==> v == payload[offset],
        u16_at(payload, offset) is Ok <==> offset + 2 <= payload.len(),
        u16_at(payload, offset) matches Ok(v) ==> v == 256 * payload[offset] + payload[offset + 1],
        u32_at(payload, offset) is Ok <==> offset + 4 <= payload.len(),
        u32_at(payload, offset) matches Ok(v) ==> v == 0x1000000 * payload[offset] + 0x10000
            * payload[offset + 1] + 0x100 * payload[offset + 2] + payload[offset + 3],
        u8_at(payload, offset) matches Err(e) ==> e == need("u8"@, offset),
        u16_at(payload, offset) matches Err(e) ==> e == need("u16"@, offset),
        u32_at(payload, offset) matches Err(e) ==> e == need("u32"@, offset),
{
    crate::bytes::law_bytes_weigh(
        0,
        0,
        payload[offset],
        payload[offset + 1],
        payload[offset + 2],
        payload[offset + 3],
    );
}

/// The error of a payload that ends too early says what is missing, and where.
pub proof fn law_missing_number(what: Seq<char>, offset: nat)
    ensures
        need(what, offset as int) matches AppErrorView::PayloadDecode(text) && {
            let n = 5 + what.len() as int;
            &&& text.take(5) == "need "@
            &&& text.subrange(5, n) == what
            &&& text.subrange(n, n + 11) == " at offset "@
            &&& crate::text::digits_value(text.skip(n + 11), 10) == offset
        },
{
    reveal_strlit("need ");
    reveal_strlit(" at offset ");
    crate::text::law_decimal_reads_back(offset);
    let n = 5 + what.len() as int;
    let text = need(what, offset as int)->PayloadDecode_0;
    assert(text.take(5) =~= "need "@);
    assert(text.subrange(5, n) =~= what);
    assert(text.subrange(n, n + 11) =~= " at offset "@);
    assert(text.skip(n + 11) =~= crate::text::decimal(offset));
}

} // verus!
