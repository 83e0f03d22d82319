//! What the daemon does with a packet.
//!
//! A [`Server`] holds what the daemon knows of its clients. It decides what each packet leads
//! to; the work on sockets and devices is done outside and reported back.

use vstd::prelude::*;
use crate::bytes::{u16_from_be, u16_to_be, u32_from_be};
use crate::capability::CapabilitySet;
use crate::client::{ClientAddr, ClientRegistry, ClientRegistryView};
use crate::device_info::DeviceInfo;
use crate::error::{AppError, AppErrorView, DeviceError, DeviceErrorView};
use crate::listing::{device_payload, frame_payload, push_device_place, session_payload};
use crate::protocol::{read_u16, read_u32, read_u8, Cmd, Packet, PacketView};
use crate::session::{SessionInfoView, SessionManager, SessionManagerView};
use crate::stream::{StreamManager, StreamManagerView, StreamPort};
use crate::text::push_decimal;
use crate::types::{
    BaudRate, CanFrame, CanFrameView, CanInterface, GenCode, GenSettings, GenSettingsView,
    UartMode,
};

verus! {

/// What a CAN payload names: `[iface:u8][id:u16][data]`.
pub open spec fn can_payload(payload: Seq<u8>) -> Result<
    (CanInterface, CanFrameView),
    AppErrorView,
> {
    if payload.len() < 3 {
        Err(AppErrorView::PayloadDecode("CAN payload too short"@))
    } else {
        match CanInterface::numbered(payload[0]) {
            None => Err(AppErrorView::PayloadDecode(bad_interface(payload[0]))),
            Some(iface) => Ok(
                (
                    iface,
                    crate::types::frame_of(
                        crate::protocol::be16_at(payload, 1),
                        payload.skip(3),
                    ),
                ),
            ),
        }
    }
}

/// The text on a CAN interface that does not exist.
pub open spec fn bad_interface(n: u8) -> Seq<char> {
    "bad CAN interface "@ + crate::text::decimal(n as nat)
}

/// A text followed by a number.
fn numbered(text: &str, n: u64) -> (s: String)
    ensures
        s@ == text@ + crate::text::decimal(n as nat),
{
    let mut s = text.to_owned();
    push_decimal(&mut s, n);
    s
}

/// Reads the payload of a command that writes a CAN frame.
pub fn parse_can_payload(payload: &[u8]) -> (r: Result<(CanInterface, CanFrame), AppError>)
    ensures
        match r {
            Ok((iface, frame)) => can_payload(payload@) == Ok::<_, AppErrorView>((iface, frame@)),
            Err(e) => can_payload(payload@) == Err::<(CanInterface, CanFrameView), _>(e@),
        },
{
    if payload.len() < 3 {
        return Err(AppError::PayloadDecode("CAN payload too short".to_owned()));
    }
    match CanInterface::from_u8(payload[0]) {
        None => Err(AppError::PayloadDecode(numbered("bad CAN interface ", payload[0] as u64))),
        Some(iface) => {
            let id: u16 = u16_from_be(payload[1], payload[2]);
            let data = vstd::slice::slice_subrange(payload, 3, payload.len());
            assert(data@ =~= payload@.skip(3));
            Ok((iface, CanFrame::new(id, data)))
        },
    }
}

/// What a generator payload names:
/// `[code:u8][gain:u8][dac:u16][alsn:u8][freq:u32][alsen:u16][saut_freq:u8][saut_blocks:6]`.
pub open spec fn gen_payload(payload: Seq<u8>) -> Result<GenSettingsView, AppErrorView> {
    if payload.len() < 18 {
        Err(AppErrorView::PayloadDecode("gen payload too short"@))
    } else {
        match GenCode::numbered(payload[0]) {
            None => Err(
                AppErrorView::PayloadDecode(
                    "bad gen code "@ + crate::text::decimal(payload[0] as nat),
                ),
            ),
            Some(code) => Ok(
                GenSettingsView {
                    code,
                    gain_x10: payload[1] != 0,
                    dac: crate::protocol::be16_at(payload, 2),
                    alsn_code: payload[4],
                    frequency: crate::bytes::be32_value(
                        payload[5],
                        payload[6],
                        payload[7],
                        payload[8],
                    ),
                    alsen_sg_kk: crate::protocol::be16_at(payload, 9),
                    saut_freq: payload[11],
                    saut_blocks: payload.subrange(12, 18),
                },
            ),
        }
    }
}

/// Reads the payload of a command that sets up the generator.
pub fn parse_gen_settings(payload: &[u8]) -> (r: Result<GenSettings, AppError>)
    ensures
        match r {
            Ok(s) => gen_payload(payload@) == Ok::<_, AppErrorView>(s@),
            Err(e) => gen_payload(payload@) == Err::<GenSettingsView, _>(e@),
        },
{
    if payload.len() < 18 {
        return Err(AppError::PayloadDecode("gen payload too short".to_owned()));
    }
    match GenCode::from_u8(payload[0]) {
        None => Err(AppError::PayloadDecode(numbered("bad gen code ", payload[0] as u64))),
        Some(code) => {
            let saut_blocks = [
                payload[12],
                payload[13],
                payload[14],
                payload[15],
                payload[16],
                payload[17],
            ];
            assert(saut_blocks@ =~= payload@.subrange(12, 18));
            Ok(
                GenSettings {
                    code,
                    gain_x10: payload[1] != 0,
                    dac: u16_from_be(payload[2], payload[3]),
                    alsn_code: payload[4],
                    frequency: u32_from_be(payload[5], payload[6], payload[7], payload[8]),
                    alsen_sg_kk: u16_from_be(payload[9], payload[10]),
                    saut_freq: payload[11],
                    saut_blocks,
                },
            )
        },
    }
}

/// What a client wants of a driver.
#[derive(Debug, Clone, Copy)]
pub enum Task {
    /// Ask for the firmware version.
    Version,
    /// Ask whether there is a UART.
    CheckUart,
    /// Write the CAN frame that the payload names.
    CanWrite,
    /// Write a CAN frame every so many milliseconds.
    CanPeriodic { interval_ms: u16, iface: CanInterface, frame: CanFrame },
    /// Set the speed of the CAN interface with this number.
    CanSetBaudrate { iface: u8, baud: BaudRate },
    /// Read from the CAN interface with this number.
    CanRead { iface: u8 },
    /// Set the UART to the mode with this number.
    UartConfigure { mode: u8 },
    /// Write the payload to the UART.
    UartWrite,
    /// Read from the UART.
    UartRead,
    /// Set up the generator as the payload says.
    GenSet,
    /// Set the frequency of a channel of the generator.
    GenSetFrequency { channel: u8, frequency: u32 },
    /// Set the amplitude of a channel of the generator.
    GenSetAmplitude { channel: u8, amplitude: u16 },
    /// Stream what is read from a CAN interface to an address.
    Stream { iface: CanInterface, data_addr: ClientAddr },
}

/// A [`Task`] with its frame taken by its view.
pub enum TaskView {
    Version,
    CheckUart,
    CanWrite,
    CanPeriodic { interval_ms: u16, iface: CanInterface, frame: CanFrameView },
    CanSetBaudrate { iface: u8, baud: BaudRate },
    CanRead { iface: u8 },
    UartConfigure { mode: u8 },
    UartWrite,
    UartRead,
    GenSet,
    GenSetFrequency { channel: u8, frequency: u32 },
    GenSetAmplitude { channel: u8, amplitude: u16 },
    Stream { iface: CanInterface, data_addr: ClientAddr },
}

impl View for Task {
    type V = TaskView;

    open spec fn view(&self) -> TaskView {
        match *self {
            Task::Version => TaskView::Version,
            Task::CheckUart => TaskView::CheckUart,
            Task::CanWrite => TaskView::CanWrite,
            Task::CanPeriodic { interval_ms, iface, frame } => TaskView::CanPeriodic {
                interval_ms,
                iface,
                frame: frame@,
            },
            Task::CanSetBaudrate { iface, baud } => TaskView::CanSetBaudrate { iface, baud },
            Task::CanRead { iface } => TaskView::CanRead { iface },
            Task::UartConfigure { mode } => TaskView::UartConfigure { mode },
            Task::UartWrite => TaskView::UartWrite,
            Task::UartRead => TaskView::UartRead,
            Task::GenSet => TaskView::GenSet,
            Task::GenSetFrequency { channel, frequency } => TaskView::GenSetFrequency {
                channel,
                frequency,
            },
            Task::GenSetAmplitude { channel, amplitude } => TaskView::GenSetAmplitude {
                channel,
                amplitude,
            },
            Task::Stream { iface, data_addr } => TaskView::Stream { iface, data_addr },
        }
    }
}

/// What a command that needs a driver wants of it; `None` for the other commands, and
/// for the command to open a stream.
pub open spec fn task_of(cmd: Cmd, payload: Seq<u8>) -> Option<
    Result<TaskView, AppErrorView>,
> {
    match cmd {
        Cmd::GetVersion => Some(Ok(TaskView::Version)),
        Cmd::CheckUart => Some(Ok(TaskView::CheckUart)),
        Cmd::CanWrite => Some(Ok(TaskView::CanWrite)),
        Cmd::CanPeriodicStart => Some(
            match crate::protocol::u16_at(payload, 0) {
                Err(e) => Err(e),
                Ok(interval_ms) => match can_payload(payload.skip(2)) {
                    Err(e) => Err(e),
                    Ok((iface, frame)) => Ok(TaskView::CanPeriodic { interval_ms, iface, frame }),
                },
            },
        ),
        Cmd::CanSetBaudrate => Some(
            match crate::protocol::u8_at(payload, 0) {
                Err(e) => Err(e),
                Ok(iface) => match crate::protocol::u16_at(payload, 1) {
                    Err(e) => Err(e),
                    Ok(baud) => Ok(TaskView::CanSetBaudrate { iface, baud: BaudRate(baud) }),
                },
            },
        ),
        Cmd::CanReadOnce => Some(
            match crate::protocol::u8_at(payload, 0) {
                Err(e) => Err(e),
                Ok(iface) => Ok(TaskView::CanRead { iface }),
            },
        ),
        Cmd::UartConfigure => Some(
            match crate::protocol::u8_at(payload, 0) {
                Err(e) => Err(e),
                Ok(mode) => Ok(TaskView::UartConfigure { mode }),
            },
        ),
        Cmd::UartWrite => Some(Ok(TaskView::UartWrite)),
        Cmd::UartRead => Some(Ok(TaskView::UartRead)),
        Cmd::GenSetMode => Some(Ok(TaskView::GenSet)),
        Cmd::GenSetFrequency => Some(
            match crate::protocol::u8_at(payload, 0) {
                Err(e) => Err(e),
                Ok(channel) => match crate::protocol::u32_at(payload, 1) {
                    Err(e) => Err(e),
                    Ok(frequency) => Ok(TaskView::GenSetFrequency { channel, frequency }),
                },
            },
        ),
        Cmd::GenSetAmplitude => Some(
            match crate::protocol::u8_at(payload, 0) {
                Err(e) => Err(e),
                Ok(channel) => match crate::protocol::u16_at(payload, 1) {
                    Err(e) => Err(e),
                    Ok(amplitude) => Ok(TaskView::GenSetAmplitude { channel, amplitude }),
                },
            },
        ),
        _ => None,
    }
}

/// What a command to open a stream names: `[port:u16][serial:u16]`. The interface has the
/// low byte of the serial number.
pub open spec fn stream_request(payload: Seq<u8>) -> Result<(u16, u8), AppErrorView> {
    match crate::protocol::u16_at(payload, 0) {
        Err(e) => Err(e),
        Ok(port) => match crate::protocol::u16_at(payload, 2) {
            Err(e) => Err(e),
            Ok(serial) => Ok((port, (serial % 256) as u8)),
        },
    }
}

/// Reads what a command wants of a driver.
fn read_task(cmd: Cmd, payload: &[u8]) -> (r: Result<Task, AppError>)
    requires
        task_of(cmd, payload@) is Some,
    ensures
        match r {
            Ok(t) => task_of(cmd, payload@) == Some(Ok::<_, AppErrorView>(t@)),
            Err(e) => task_of(cmd, payload@) == Some(Err::<TaskView, _>(e@)),
        },
{
    let task = match cmd {
        Cmd::GetVersion => Task::Version,
        Cmd::CheckUart => Task::CheckUart,
        Cmd::CanWrite => Task::CanWrite,
        Cmd::CanPeriodicStart => {
            let interval_ms: u16 = match read_u16(payload, 0) {
                Ok(v) => v,
                Err(e) => return Err(e),
            };
            let rest = vstd::slice::slice_subrange(payload, 2, payload.len());
            assert(rest@ =~= payload@.skip(2));
            match parse_can_payload(rest) {
                Ok((iface, frame)) => Task::CanPeriodic { interval_ms, iface, frame },
                Err(e) => return Err(e),
            }
        },
        Cmd::CanSetBaudrate => {
            let iface: u8 = match read_u8(payload, 0) {
                Ok(v) => v,
                Err(e) => return Err(e),
            };
            match read_u16(payload, 1) {
                Ok(baud) => Task::CanSetBaudrate { iface, baud: BaudRate::from_raw(baud) },
                Err(e) => return Err(e),
            }
        },
        Cmd::CanReadOnce => match read_u8(payload, 0) {
            Ok(iface) => Task::CanRead { iface },
            Err(e) => return Err(e),
        },
        Cmd::UartConfigure => match read_u8(payload, 0) {
            Ok(mode) => Task::UartConfigure { mode },
            Err(e) => return Err(e),
        },
        Cmd::UartWrite => Task::UartWrite,
        Cmd::UartRead => Task::UartRead,
        Cmd::GenSetMode => Task::GenSet,
        Cmd::GenSetFrequency => {
            let channel: u8 = match read_u8(payload, 0) {
                Ok(v) => v,
                Err(e) => return Err(e),
            };
            match read_u32(payload, 1) {
                Ok(frequency) => Task::GenSetFrequency { channel, frequency },
                Err(e) => return Err(e),
            }
        },
        _ => {
            assert(cmd == Cmd::GenSetAmplitude);
            let channel: u8 = match read_u8(payload, 0) {
                Ok(v) => v,
                Err(e) => return Err(e),
            };
            match read_u16(payload, 1) {
                Ok(amplitude) => Task::GenSetAmplitude { channel, amplitude },
                Err(e) => return Err(e),
            }
        },
    };
    Ok(task)
}

/// Reads what a command to open a stream names.
fn read_stream_request(payload: &[u8]) -> (r: Result<(u16, u8), AppError>)
    ensures
        crate::error::app_outcome(r) == stream_request(payload@),
{
    let port: u16 = match read_u16(payload, 0) {
        Ok(v) => v,
        Err(e) => return Err(e),
    };
    match read_u16(payload, 2) {
        Ok(serial) => Ok((port, (serial % 256) as u8)),
        Err(e) => Err(e),
    }
}

/// What the daemon sends back, and what it ends before it does.
#[derive(Debug)]
pub struct Reply {
    /// The packet to send to the client.
    pub bytes: Vec<u8>,
    /// The periodic writes to stop.
    pub stopped: Vec<u64>,
    /// The sockets to let go.
    pub released: Vec<u64>,
}

/// A [`Reply`] with its lists as sequences.
#[verifier::ext_equal]
pub struct ReplyView {
    pub bytes: Seq<u8>,
    pub stopped: Seq<u64>,
    pub released: Seq<u64>,
}

impl View for Reply {
    type V = ReplyView;

    open spec fn view(&self) -> ReplyView {
        ReplyView { bytes: self.bytes@, stopped: self.stopped@, released: self.released@ }
    }
}

/// What a request leads to.
#[derive(Debug)]
pub enum Action {
    /// Answer.
    Reply(Reply),
    /// Look for devices, then answer with [`list_devices`].
    ListDevices,
    /// Look up the device with this index, then answer with [`describe_device`].
    DescribeDevice(usize),
    /// Look up the device with this index, then answer with [`Server::create_session`].
    CreateSession(usize),
    /// Look up the driver of the device with this index, then go on with [`on_driver`].
    UseDriver(usize, Task),
}

/// An [`Action`] with what it holds taken by its view.
pub enum ActionView {
    Reply(ReplyView),
    ListDevices,
    DescribeDevice(usize),
    CreateSession(usize),
    UseDriver(usize, TaskView),
}

impl View for Action {
    type V = ActionView;

    open spec fn view(&self) -> ActionView {
        match *self {
            Action::Reply(r) => ActionView::Reply(r@),
            Action::ListDevices => ActionView::ListDevices,
            Action::DescribeDevice(idx) => ActionView::DescribeDevice(idx),
            Action::CreateSession(idx) => ActionView::CreateSession(idx),
            Action::UseDriver(idx, task) => ActionView::UseDriver(idx, task@),
        }
    }
}

/// An answer that ends nothing.
pub open spec fn plain(bytes: Seq<u8>) -> ActionView {
    ActionView::Reply(ReplyView { bytes, stopped: seq![], released: seq![] })
}

/// The value, if there is one.
pub open spec fn listed(v: Option<u64>) -> Seq<u64> {
    match v {
        Some(x) => seq![x],
        None => seq![],
    }
}

/// An answer that ends nothing.
fn plain_reply(bytes: Vec<u8>) -> (a: Action)
    ensures
        a@ == plain(bytes@),
{
    let a = Action::Reply(Reply { bytes, stopped: Vec::new(), released: Vec::new() });
    assert(a@->Reply_0 =~= plain(bytes@)->Reply_0);
    a
}

/// The value, if there is one.
fn list_of(v: Option<u64>) -> (l: Vec<u64>)
    ensures
        l@ == listed(v),
{
    let mut l: Vec<u64> = Vec::new();
    if let Some(x) = v {
        l.push(x);
    }
    assert(l@ =~= listed(v));
    l
}

/// What the daemon knows of its clients.
pub struct Server {
    pub clients: ClientRegistry,
    pub sessions: SessionManager,
    pub streams: StreamManager,
}

/// A [`Server`] with its parts taken by their views.
pub struct ServerView {
    pub clients: ClientRegistryView,
    pub sessions: SessionManagerView,
    pub streams: StreamManagerView,
}

impl View for Server {
    type V = ServerView;

    open spec fn view(&self) -> ServerView {
        ServerView { clients: self.clients@, sessions: self.sessions@, streams: self.streams@ }
    }
}

impl ServerView {
    /// Whether every session is filed under its own identifier.
    pub open spec fn wf(self) -> bool {
        self.sessions.wf()
    }

    /// Whether a command from an address is served: every client has to register first.
    pub open spec fn admits(self, addr: ClientAddr, cmd: Cmd) -> bool {
        cmd == Cmd::Register || self.clients.id_at(addr) is Some
    }

    /// The error of a request, if there is one.
    pub open spec fn failure(self, addr: ClientAddr, p: PacketView) -> Option<AppErrorView> {
        match p.cmd() {
            None => Some(AppErrorView::UnknownCmd(p.base_cmd())),
            Some(cmd) => if !self.admits(addr, cmd) {
                None
            } else {
                self.admitted_failure(cmd, p)
            },
        }
    }

    /// The error of a request that is served, if there is one.
    pub open spec fn admitted_failure(self, cmd: Cmd, p: PacketView) -> Option<AppErrorView> {
        match cmd {
            Cmd::DeviceInfo
            | Cmd::DeviceGetVersion
            | Cmd::SessionCreate
            | Cmd::SessionClose => match crate::protocol::u16_at(p.payload, 0) {
                Err(e) => Some(e),
                Ok(_) => None,
            },
            Cmd::StreamOpen => match stream_request(p.payload) {
                Err(e) => Some(e),
                Ok((_, n)) => if CanInterface::numbered(n) is None {
                    None
                } else {
                    self.session_failure(p)
                },
            },
            _ => match task_of(cmd, p.payload) {
                None => None,
                Some(Err(e)) => Some(e),
                Some(Ok(_)) => self.session_failure(p),
            },
        }
    }

    /// The error of a request whose session does not exist.
    pub open spec fn session_failure(self, p: PacketView) -> Option<AppErrorView> {
        match self.sessions.get(p.session_id) {
            Err(e) => Some(e),
            Ok(_) => None,
        }
    }

    /// Whether an action is what a request without an error leads to.
    pub open spec fn succeeds(self, addr: ClientAddr, p: PacketView, a: ActionView) -> bool {
        p.cmd() matches Some(cmd) && if !self.admits(addr, cmd) {
            a == plain(p.error("not registered — send Register first"@))
        } else {
            self.admitted_succeeds(cmd, addr, p, a)
        }
    }

    /// Whether an action is what a request that is served leads to.
    pub open spec fn admitted_succeeds(
        self,
        cmd: Cmd,
        addr: ClientAddr,
        p: PacketView,
        a: ActionView,
    ) -> bool {
        let word = crate::protocol::be16_at(p.payload, 0);
        match cmd {
            Cmd::Register => a == plain(
                p.response(crate::bytes::be16(self.clients.id_for(addr))),
            ),
            Cmd::Unregister => a matches ActionView::Reply(r) && r.bytes == p.response(seq![])
                && self.streams.ended(p.client_id, r.stopped, r.released),
            Cmd::Ping => a == plain(p.response(vstd::utf8::encode_utf8("pong"@))),
            Cmd::DeviceList => a == ActionView::ListDevices,
            Cmd::DeviceInfo => a == ActionView::DescribeDevice(word as usize),
            Cmd::DeviceGetVersion => a == ActionView::UseDriver(word as usize, TaskView::Version),
            Cmd::SessionCreate => a == ActionView::CreateSession(word as usize),
            Cmd::SessionClose => a == ActionView::Reply(
                ReplyView {
                    bytes: if self.sessions.sessions.contains_key(word) {
                        p.response(seq![])
                    } else {
                        p.error(AppErrorView::UnknownSession(word).text())
                    },
                    stopped: listed(
                        crate::stream::lookup(self.streams.periodic, (p.client_id, word)),
                    ),
                    released: listed(self.streams.socket(p.client_id, word)),
                },
            ),
            Cmd::SessionList => exists|list: Seq<SessionInfoView>| #[trigger]
                self.sessions.lists(p.client_id, list) && a == plain(
                    p.response(crate::listing::session_list(list)),
                ),
            Cmd::StreamOpen => {
                let (port, n) = stream_request(p.payload)->Ok_0;
                match CanInterface::numbered(n) {
                    None => a == plain(p.error(bad_interface(n))),
                    Some(iface) => a == ActionView::UseDriver(
                        self.sessions.sessions[p.session_id].device_idx,
                        TaskView::Stream { iface, data_addr: addr.with_port(port) },
                    ),
                }
            },
            Cmd::StreamClose => a == ActionView::Reply(
                ReplyView {
                    bytes: p.response(seq![]),
                    stopped: listed(
                        crate::stream::lookup(self.streams.periodic, (p.client_id, p.session_id)),
                    ),
                    released: listed(self.streams.socket(p.client_id, p.session_id)),
                },
            ),
            Cmd::CanPeriodicStop => a == ActionView::Reply(
                ReplyView {
                    bytes: p.response(seq![]),
                    stopped: listed(
                        crate::stream::lookup(self.streams.periodic, (p.client_id, p.session_id)),
                    ),
                    released: seq![],
                },
            ),
            Cmd::UartStreamOpen | Cmd::UartStreamClose => a == plain(
                p.error("UART stream not yet implemented"@),
            ),
            Cmd::CanFrame | Cmd::Event => a == plain(p.error("server-only command"@)),
            Cmd::Error => a == plain(p.response(seq![])),
            _ => a == ActionView::UseDriver(
                self.sessions.sessions[p.session_id].device_idx,
                task_of(cmd, p.payload)->Some_0->Ok_0,
            ),
        }
    }

    /// Whether an action is what a request leads to: its error goes to the client.
    pub open spec fn handles(self, addr: ClientAddr, p: PacketView, a: ActionView) -> bool {
        match self.failure(addr, p) {
            Some(e) => a == plain(p.error(e.text())),
            None => self.succeeds(addr, p, a),
        }
    }

    /// What the daemon knows once a request was taken up.
    pub open spec fn after(self, addr: ClientAddr, p: PacketView) -> ServerView {
        match p.cmd() {
            Some(cmd) => if self.admits(addr, cmd) {
                self.admitted_after(cmd, addr, p)
            } else {
                self
            },
            None => self,
        }
    }

    /// What the daemon knows once a request that is served was taken up.
    pub open spec fn admitted_after(self, cmd: Cmd, addr: ClientAddr, p: PacketView) -> ServerView {
        match cmd {
            Cmd::Register => ServerView { clients: self.clients.register(addr), ..self },
            Cmd::Unregister => ServerView {
                clients: self.clients.unregister(p.client_id),
                sessions: self.sessions.close_all(p.client_id),
                streams: self.streams.close_all(p.client_id),
            },
            Cmd::SessionClose => match crate::protocol::u16_at(p.payload, 0) {
                Ok(id) => ServerView {
                    sessions: self.sessions.close(id),
                    streams: self.streams.close(p.client_id, id),
                    ..self
                },
                Err(_) => self,
            },
            Cmd::CanPeriodicStop => ServerView {
                streams: self.streams.stop_periodic(p.client_id, p.session_id),
                ..self
            },
            Cmd::StreamClose => ServerView {
                streams: self.streams.close(p.client_id, p.session_id),
                ..self
            },
            _ => self,
        }
    }
}

impl Server {
    /// A daemon without clients.
    pub fn new() -> (s: Self)
        ensures
            s@.clients == ClientRegistryView::initial(),
            s@.sessions == SessionManagerView::initial(),
            s@.streams == StreamManagerView::initial(),
            s@.wf(),
    {
        Server {
            clients: ClientRegistry::new(),
            sessions: SessionManager::new(),
            streams: StreamManager::new(),
        }
    }

    /// Takes up a request on a session: the driver of its device is needed.
    fn on_session(&self, packet: &Packet, task: Task) -> (r: Result<Action, AppError>)
        ensures
            match r {
                Ok(a) => self@.session_failure(packet@) is None && a@ == ActionView::UseDriver(
                    self@.sessions.sessions[packet.session_id].device_idx,
                    task@,
                ),
                Err(e) => self@.session_failure(packet@) == Some(e@),
            },
    {
        match self.sessions.get(packet.session_id) {
            Ok(sess) => Ok(Action::UseDriver(sess.device_idx, task)),
            Err(e) => Err(e),
        }
    }

    /// Takes up a request.
    pub fn process(&mut self, addr: ClientAddr, packet: &Packet) -> (r: Result<Action, AppError>)
        requires
            old(self)@.wf(),
        ensures
            match r {
                Ok(a) => old(self)@.failure(addr, packet@) is None && old(self)@.succeeds(
                    addr,
                    packet@,
                    a@,
                ),
                Err(e) => old(self)@.failure(addr, packet@) == Some(e@),
            },
            final(self)@ == old(self)@.after(addr, packet@),
            final(self)@.wf(),
    {
        let cmd = match packet.cmd() {
            Ok(c) => c,
            Err(e) => return Err(e),
        };
        if cmd != Cmd::Register && self.clients.get_by_addr(&addr).is_none() {
            return Ok(
                plain_reply(Packet::error(packet, "not registered — send Register first")),
            );
        }
        match cmd {
            Cmd::Register => {
                let id: u16 = self.clients.register(addr);
                Ok(plain_reply(Packet::response(packet, u16_to_be(id).as_slice())))
            },
            Cmd::Unregister => {
                let (stopped, released) = self.streams.close_all_for_client(packet.client_id);
                self.sessions.close_all_for_client(packet.client_id);
                self.clients.unregister(packet.client_id);
                Ok(
                    Action::Reply(
                        Reply { bytes: Packet::response(packet, &[]), stopped, released },
                    ),
                )
            },
            Cmd::Ping => Ok(plain_reply(Packet::response(packet, "pong".as_bytes()))),
            Cmd::DeviceList => Ok(Action::ListDevices),
            Cmd::DeviceInfo => match read_u16(packet.payload.as_slice(), 0) {
                Ok(idx) => Ok(Action::DescribeDevice(idx as usize)),
                Err(e) => Err(e),
            },
            Cmd::DeviceGetVersion => match read_u16(packet.payload.as_slice(), 0) {
                Ok(idx) => Ok(Action::UseDriver(idx as usize, Task::Version)),
                Err(e) => Err(e),
            },
            Cmd::SessionCreate => match read_u16(packet.payload.as_slice(), 0) {
                Ok(idx) => Ok(Action::CreateSession(idx as usize)),
                Err(e) => Err(e),
            },
            Cmd::SessionClose => {
                let id: u16 = match read_u16(packet.payload.as_slice(), 0) {
                    Ok(v) => v,
                    Err(e) => return Err(e),
                };
                let (task, socket) = self.streams.close(packet.client_id, id);
                let bytes = match self.sessions.close(id) {
                    Ok(()) => Packet::response(packet, &[]),
                    Err(e) => Packet::error(packet, e.message().as_str()),
                };
                Ok(
                    Action::Reply(
                        Reply { bytes, stopped: list_of(task), released: list_of(socket) },
                    ),
                )
            },
            Cmd::SessionList => {
                let list = self.sessions.list_for_client(packet.client_id);
                let payload = session_payload(list.as_slice());
                let a = plain_reply(Packet::response(packet, payload.as_slice()));
                assert(self@.sessions.lists(
                    packet.client_id,
                    crate::session::session_views(list@),
                ));
                Ok(a)
            },
            Cmd::StreamOpen => match read_stream_request(packet.payload.as_slice()) {
                Ok((port, n)) => match CanInterface::from_u8(n) {
                    Some(iface) => self.on_session(
                        packet,
                        Task::Stream { iface, data_addr: addr.with_port(port) },
                    ),
                    None => Ok(
                        plain_reply(
                            Packet::error(
                                packet,
                                numbered("bad CAN interface ", n as u64).as_str(),
                            ),
                        ),
                    ),
                },
                Err(e) => Err(e),
            },
            Cmd::StreamClose => {
                let (task, socket) = self.streams.close(packet.client_id, packet.session_id);
                let bytes = Packet::response(packet, &[]);
                Ok(
                    Action::Reply(
                        Reply { bytes, stopped: list_of(task), released: list_of(socket) },
                    ),
                )
            },
            Cmd::CanPeriodicStop => {
                let task = self.streams.stop_periodic(packet.client_id, packet.session_id);
                let bytes = Packet::response(packet, &[]);
                Ok(Action::Reply(Reply { bytes, stopped: list_of(task), released: list_of(None) }))
            },
            Cmd::UartStreamOpen | Cmd::UartStreamClose => Ok(
                plain_reply(Packet::error(packet, "UART stream not yet implemented")),
            ),
            Cmd::CanFrame | Cmd::Event => Ok(
                plain_reply(Packet::error(packet, "server-only command")),
            ),
            Cmd::Error => Ok(plain_reply(Packet::response(packet, &[]))),
            _ => match read_task(cmd, packet.payload.as_slice()) {
                Ok(task) => self.on_session(packet, task),
                Err(e) => Err(e),
            },
        }
    }

    /// Takes up a packet. A packet that is cut short cannot be answered; an answer is
    /// dropped. The error of any other packet goes to the client.
    pub fn handle_packet(&mut self, addr: ClientAddr, data: &[u8]) -> (r: Result<
        Option<(Packet, Action)>,
        AppError,
    >)
        requires
            old(self)@.wf(),
        ensures
            match crate::protocol::packet_in(data@) {
                Err(e) => r matches Err(err) && err@ == e && final(self)@ == old(self)@,
                Ok(p) => if p.is_response() {
                    r matches Ok(None) && final(self)@ == old(self)@
                } else {
                    &&& r matches Ok(Some((q, a))) && q@ == p && old(self)@.handles(addr, p, a@)
                    &&& final(self)@ == old(self)@.after(addr, p)
                },
            },
            final(self)@.wf(),
    {
        let packet = match Packet::parse(data) {
            Ok(p) => p,
            Err(e) => return Err(e),
        };
        if packet.is_response() {
            return Ok(None);
        }
        let action = match self.process(addr, &packet) {
            Ok(a) => a,
            Err(e) => plain_reply(Packet::error(&packet, e.message().as_str())),
        };
        Ok(Some((packet, action)))
    }

    /// Makes a session on the device with an index, given what is known of the device, and
    /// answers the request for it.
    pub fn create_session(&mut self, packet: &Packet, idx: usize, device: Option<&DeviceInfo>) -> (
    bytes: Vec<u8>)
        ensures
            match device {
                Some(d) => {
                    &&& bytes@ == packet@.response(crate::bytes::be16(old(self)@.sessions.next_id))
                    &&& final(self)@ == (ServerView {
                        sessions: old(self)@.sessions.create(packet.client_id, idx, d@.id.key()),
                        ..old(self)@
                    })
                },
                None => bytes@ == packet@.error(no_device(idx)) && final(self)@ == old(self)@,
            },
            old(self)@.wf() ==> final(self)@.wf(),
    {
        match device {
            Some(d) => match self.sessions.create(packet.client_id, idx, d.id.key()) {
                Ok(id) => Packet::response(packet, u16_to_be(id).as_slice()),
                Err(e) => Packet::error(packet, e.message().as_str()),
            },
            None => Packet::error(
                packet,
                numbered("no device at index ", idx as u64).as_str(),
            ),
        }
    }

    /// Files a periodic write that was started, and answers the request for it.
    pub fn periodic_started(&mut self, packet: &Packet, task: u64) -> (r: Reply)
        ensures
            r@ == (ReplyView {
                bytes: packet@.response(seq![]),
                stopped: listed(
                    crate::stream::lookup(
                        old(self)@.streams.periodic,
                        (packet.client_id, packet.session_id),
                    ),
                ),
                released: seq![],
            }),
            final(self)@ == (ServerView {
                streams: old(self)@.streams.add_periodic(
                    packet.client_id,
                    packet.session_id,
                    task,
                ),
                ..old(self)@
            }),
    {
        let stopped = self.streams.add_periodic(packet.client_id, packet.session_id, task);
        Reply {
            bytes: Packet::response(packet, &[]),
            stopped: list_of(stopped),
            released: list_of(None),
        }
    }

    /// Files a stream port that was opened, and answers the request for it.
    pub fn stream_opened(&mut self, packet: &Packet, opened: Result<StreamPort, AppError>) -> (r:
        Reply)
        ensures
            match opened {
                Ok(port) => {
                    &&& r@ == (ReplyView {
                        bytes: packet@.response(crate::bytes::be16(port.local_port)),
                        stopped: seq![],
                        released: listed(
                            old(self)@.streams.socket(packet.client_id, packet.session_id),
                        ),
                    })
                    &&& final(self)@ == (ServerView {
                        streams: old(self)@.streams.open(
                            packet.client_id,
                            packet.session_id,
                            port,
                        ),
                        ..old(self)@
                    })
                },
                Err(e) => {
                    &&& r@ == (ReplyView {
                        bytes: packet@.error(e@.text()),
                        stopped: seq![],
                        released: seq![],
                    })
                    &&& final(self)@ == old(self)@
                },
            },
    {
        match opened {
            Ok(port) => {
                let released = self.streams.open(packet.client_id, packet.session_id, port);
                Reply {
                    bytes: Packet::response(packet, u16_to_be(port.local_port).as_slice()),
                    stopped: list_of(None),
                    released: list_of(released),
                }
            },
            Err(e) => Reply {
                bytes: Packet::error(packet, e.message().as_str()),
                stopped: list_of(None),
                released: list_of(None),
            },
        }
    }
}

/// The text on a device that does not exist.
pub open spec fn no_device(idx: usize) -> Seq<char> {
    "no device at index "@ + crate::text::decimal(idx as nat)
}

/// Answers a request for the list of devices.
pub fn list_devices(packet: &Packet, list: &[DeviceInfo]) -> (bytes: Vec<u8>)
    ensures
        bytes@ == packet@.response(
            crate::listing::device_list(crate::device_info::info_views(list@)),
        ),
{
    Packet::response(packet, device_payload(list).as_slice())
}

/// Answers a request on the device with an index, given what is known of it.
pub fn describe_device(packet: &Packet, idx: usize, device: Option<&DeviceInfo>) -> (bytes: Vec<u8>)
    ensures
        bytes@ == match device {
            Some(d) => packet@.response(crate::listing::device_place(d@)),
            None => packet@.error(no_device(idx)),
        },
{
    match device {
        Some(d) => {
            let mut p: Vec<u8> = Vec::new();
            push_device_place(&mut p, d);
            assert(p@ =~= crate::listing::device_place(d@));
            Packet::response(packet, p.as_slice())
        },
        None => Packet::error(packet, numbered("no device at index ", idx as u64).as_str()),
    }
}

/// What a driver is good for.
#[derive(Debug, Clone, Copy, PartialEq, Eq, Structural)]
pub struct Driver {
    /// What it says that it can do.
    pub declared: CapabilitySet,
    /// What it gives access to.
    pub offered: CapabilitySet,
}

/// Something to do with a device.
#[derive(Debug)]
pub enum DeviceOp {
    Version,
    CanWrite { iface: CanInterface, frame: CanFrame },
    CanSetBaudrate { iface: CanInterface, baud: BaudRate },
    CanRead { iface: CanInterface },
    UartConfigure { mode: UartMode },
    UartWrite { data: Vec<u8> },
    UartRead,
    GenSet { settings: GenSettings },
    GenSetFrequency { channel: u8, frequency: u32 },
    GenSetAmplitude { channel: u8, amplitude: u16 },
}

/// A [`DeviceOp`] with what it holds taken by its view.
pub enum DeviceOpView {
    Version,
    CanWrite { iface: CanInterface, frame: CanFrameView },
    CanSetBaudrate { iface: CanInterface, baud: BaudRate },
    CanRead { iface: CanInterface },
    UartConfigure { mode: UartMode },
    UartWrite { data: Seq<u8> },
    UartRead,
    GenSet { settings: GenSettingsView },
    GenSetFrequency { channel: u8, frequency: u32 },
    GenSetAmplitude { channel: u8, amplitude: u16 },
}

impl View for DeviceOp {
    type V = DeviceOpView;

    open spec fn view(&self) -> DeviceOpView {
        match *self {
            DeviceOp::Version => DeviceOpView::Version,
            DeviceOp::CanWrite { iface, frame } => DeviceOpView::CanWrite { iface, frame: frame@ },
            DeviceOp::CanSetBaudrate { iface, baud } => DeviceOpView::CanSetBaudrate {
                iface,
                baud,
            },
            DeviceOp::CanRead { iface } => DeviceOpView::CanRead { iface },
            DeviceOp::UartConfigure { mode } => DeviceOpView::UartConfigure { mode },
            DeviceOp::UartWrite { data } => DeviceOpView::UartWrite { data: data@ },
            DeviceOp::UartRead => DeviceOpView::UartRead,
            DeviceOp::GenSet { settings } => DeviceOpView::GenSet { settings: settings@ },
            DeviceOp::GenSetFrequency { channel, frequency } => DeviceOpView::GenSetFrequency {
                channel,
                frequency,
            },
            DeviceOp::GenSetAmplitude { channel, amplitude } => DeviceOpView::GenSetAmplitude {
                channel,
                amplitude,
            },
        }
    }
}

/// How a task goes on once its driver was looked up.
#[derive(Debug)]
pub enum Next {
    /// Answer.
    Reply(Vec<u8>),
    /// Do this, then answer with [`on_result`].
    Run(DeviceOp),
    /// Start to write the frame every so many milliseconds until it fails, then answer with
    /// [`Server::periodic_started`].
    StartPeriodic { interval_ms: u16, iface: CanInterface, frame: CanFrame },
    /// Open a port for the address, answer with [`Server::stream_opened`], and stream what
    /// the interface reads until it fails.
    OpenStream { iface: CanInterface, data_addr: ClientAddr },
}

/// A [`Next`] with what it holds taken by its view.
pub enum NextView {
    Reply(Seq<u8>),
    Run(DeviceOpView),
    StartPeriodic { interval_ms: u16, iface: CanInterface, frame: CanFrameView },
    OpenStream { iface: CanInterface, data_addr: ClientAddr },
}

impl View for Next {
    type V = NextView;

    open spec fn view(&self) -> NextView {
        match *self {
            Next::Reply(bytes) => NextView::Reply(bytes@),
            Next::Run(op) => NextView::Run(op@),
            Next::StartPeriodic { interval_ms, iface, frame } => NextView::StartPeriodic {
                interval_ms,
                iface,
                frame: frame@,
            },
            Next::OpenStream { iface, data_addr } => NextView::OpenStream { iface, data_addr },
        }
    }
}

/// The kinds of access to a device.
pub enum Access {
    Any,
    Can,
    Uart,
    Gen,
}

/// The access that a task needs.
pub open spec fn access_of(task: TaskView) -> Access {
    match task {
        TaskView::Version | TaskView::CheckUart => Access::Any,
        TaskView::CanWrite
        | TaskView::CanPeriodic { .. }
        | TaskView::CanSetBaudrate { .. }
        | TaskView::CanRead { .. }
        | TaskView::Stream { .. } => Access::Can,
        TaskView::UartConfigure { .. } | TaskView::UartWrite | TaskView::UartRead => Access::Uart,
        TaskView::GenSet
        | TaskView::GenSetFrequency { .. }
        | TaskView::GenSetAmplitude { .. } => Access::Gen,
    }
}

/// The text on a driver that does not give the access, if it does not.
pub open spec fn access_failure(access: Access, offered: CapabilitySet) -> Option<Seq<char>> {
    match access {
        Access::Any => None,
        Access::Can => if offered.can {
            None
        } else {
            Some("device has no CAN capability"@)
        },
        Access::Uart => if offered.uart {
            None
        } else {
            Some("device has no UART capability"@)
        },
        Access::Gen => if offered.gen {
            None
        } else {
            Some("device has no generator capability"@)
        },
    }
}

/// The text on a number in a task that names nothing, if there is one. It counts before
/// anything that is known of the driver.
pub open spec fn number_failure(task: TaskView) -> Option<Seq<char>> {
    match task {
        TaskView::CanSetBaudrate { iface, .. } => if CanInterface::numbered(iface) is None {
            Some(bad_interface(iface))
        } else {
            None
        },
        TaskView::CanRead { iface } => if CanInterface::numbered(iface) is None {
            Some(bad_interface(iface))
        } else {
            None
        },
        TaskView::UartConfigure { mode } => if UartMode::coded(mode) is None {
            Some("bad UART mode "@ + crate::text::decimal(mode as nat))
        } else {
            None
        },
        _ => None,
    }
}

/// How a task goes on with a driver that gives the access it needs.
pub open spec fn with_access(p: PacketView, task: TaskView, declared: CapabilitySet) -> NextView {
    match task {
        TaskView::Version => NextView::Run(DeviceOpView::Version),
        TaskView::CheckUart => NextView::Reply(
            p.response(
                seq![
                    if declared.uart {
                        1u8
                    } else {
                        0u8
                    },
                ],
            ),
        ),
        TaskView::CanWrite => match can_payload(p.payload) {
            Ok((iface, frame)) => NextView::Run(DeviceOpView::CanWrite { iface, frame }),
            Err(e) => NextView::Reply(p.error(e.text())),
        },
        TaskView::CanPeriodic { interval_ms, iface, frame } => NextView::StartPeriodic {
            interval_ms,
            iface,
            frame,
        },
        TaskView::CanSetBaudrate { iface, baud } => NextView::Run(
            DeviceOpView::CanSetBaudrate { iface: CanInterface::numbered(iface)->Some_0, baud },
        ),
        TaskView::CanRead { iface } => NextView::Run(
            DeviceOpView::CanRead { iface: CanInterface::numbered(iface)->Some_0 },
        ),
        TaskView::UartConfigure { mode } => NextView::Run(
            DeviceOpView::UartConfigure { mode: UartMode::coded(mode)->Some_0 },
        ),
        TaskView::UartWrite => NextView::Run(DeviceOpView::UartWrite { data: p.payload }),
        TaskView::UartRead => NextView::Run(DeviceOpView::UartRead),
        TaskView::GenSet => match gen_payload(p.payload) {
            Ok(settings) => NextView::Run(DeviceOpView::GenSet { settings }),
            Err(e) => NextView::Reply(p.error(e.text())),
        },
        TaskView::GenSetFrequency { channel, frequency } => NextView::Run(
            DeviceOpView::GenSetFrequency { channel, frequency },
        ),
        TaskView::GenSetAmplitude { channel, amplitude } => NextView::Run(
            DeviceOpView::GenSetAmplitude { channel, amplitude },
        ),
        TaskView::Stream { iface, data_addr } => NextView::OpenStream { iface, data_addr },
    }
}

/// How a task goes on, given what came of looking for its driver.
pub open spec fn next(
    p: PacketView,
    task: TaskView,
    driver: Result<Driver, DeviceErrorView>,
) -> NextView {
    match number_failure(task) {
        Some(text) => NextView::Reply(p.error(text)),
        None => match driver {
            Err(e) => NextView::Reply(p.error(e.text())),
            Ok(d) => match access_failure(access_of(task), d.offered) {
                Some(text) => NextView::Reply(p.error(text)),
                None => with_access(p, task, d.declared),
            },
        },
    }
}

/// Answers a request with an error.
fn refuse(packet: &Packet, text: &str) -> (n: Next)
    ensures
        n@ == NextView::Reply(packet@.error(text@)),
{
    Next::Reply(Packet::error(packet, text))
}

/// The text on a number in a task that names nothing, if there is one.
fn bad_number(task: &Task) -> (r: Option<String>)
    ensures
        match r {
            Some(text) => number_failure(task@) == Some(text@),
            None => number_failure(task@) is None,
        },
{
    match task {
        Task::CanSetBaudrate { iface, .. } | Task::CanRead { iface } => {
            if CanInterface::from_u8(*iface).is_none() {
                Some(numbered("bad CAN interface ", *iface as u64))
            } else {
                None
            }
        },
        Task::UartConfigure { mode } => if UartMode::from_u8(*mode).is_none() {
            Some(numbered("bad UART mode ", *mode as u64))
        } else {
            None
        },
        _ => None,
    }
}

/// The text on a driver that does not give the access that a task needs, if it does not.
fn missing_access(task: &Task, offered: CapabilitySet) -> (r: Option<&'static str>)
    ensures
        match r {
            Some(text) => access_failure(access_of(task@), offered) == Some(text@),
            None => access_failure(access_of(task@), offered) is None,
        },
{
    match task {
        Task::Version | Task::CheckUart => None,
        Task::CanWrite
        | Task::CanPeriodic { .. }
        | Task::CanSetBaudrate { .. }
        | Task::CanRead { .. }
        | Task::Stream { .. } => if offered.can {
            None
        } else {
            Some("device has no CAN capability")
        },
        Task::UartConfigure { .. } | Task::UartWrite | Task::UartRead => if offered.uart {
            None
        } else {
            Some("device has no UART capability")
        },
        Task::GenSet | Task::GenSetFrequency { .. } | Task::GenSetAmplitude { .. } => {
            if offered.gen {
                None
            } else {
                Some("device has no generator capability")
            }
        },
    }
}

/// Goes on with a task whose driver gives the access it needs.
fn granted(packet: &Packet, task: Task, declared: CapabilitySet) -> (n: Next)
    requires
        number_failure(task@) is None,
    ensures
        n@ == with_access(packet@, task@, declared),
{
    match task {
        Task::Version => Next::Run(DeviceOp::Version),
        Task::CheckUart => {
            let has: [u8; 1] = [
                if declared.uart {
                    1
                } else {
                    0
                },
            ];
            assert(has@ =~= seq![has[0]]);
            Next::Reply(Packet::response(packet, has.as_slice()))
        },
        Task::CanWrite => match parse_can_payload(packet.payload.as_slice()) {
            Ok((iface, frame)) => Next::Run(DeviceOp::CanWrite { iface, frame }),
            Err(e) => refuse(packet, e.message().as_str()),
        },
        Task::CanPeriodic { interval_ms, iface, frame } => Next::StartPeriodic {
            interval_ms,
            iface,
            frame,
        },
        Task::CanSetBaudrate { iface, baud } => Next::Run(
            DeviceOp::CanSetBaudrate { iface: CanInterface::from_u8(iface).unwrap(), baud },
        ),
        Task::CanRead { iface } => Next::Run(
            DeviceOp::CanRead { iface: CanInterface::from_u8(iface).unwrap() },
        ),
        Task::UartConfigure { mode } => Next::Run(
            DeviceOp::UartConfigure { mode: UartMode::from_u8(mode).unwrap() },
        ),
        Task::UartWrite => Next::Run(
            DeviceOp::UartWrite { data: vstd::slice::slice_to_vec(packet.payload.as_slice()) },
        ),
        Task::UartRead => Next::Run(DeviceOp::UartRead),
        Task::GenSet => match parse_gen_settings(packet.payload.as_slice()) {
            Ok(settings) => Next::Run(DeviceOp::GenSet { settings }),
            Err(e) => refuse(packet, e.message().as_str()),
        },
        Task::GenSetFrequency { channel, frequency } => Next::Run(
            DeviceOp::GenSetFrequency { channel, frequency },
        ),
        Task::GenSetAmplitude { channel, amplitude } => Next::Run(
            DeviceOp::GenSetAmplitude { channel, amplitude },
        ),
        Task::Stream { iface, data_addr } => Next::OpenStream { iface, data_addr },
    }
}

/// Goes on with a task, given what came of looking for its driver.
pub fn on_driver(packet: &Packet, task: Task, driver: Result<Driver, DeviceError>) -> (n: Next)
    ensures
        n@ == next(packet@, task@, crate::error::device_outcome(driver)),
{
    if let Some(text) = bad_number(&task) {
        return refuse(packet, text.as_str());
    }
    match driver {
        Err(e) => refuse(packet, e.message().as_str()),
        Ok(d) => match missing_access(&task, d.offered) {
            Some(text) => refuse(packet, text),
            None => granted(packet, task, d.declared),
        },
    }
}

/// What a device gave back.
#[derive(Debug)]
pub enum DeviceReply {
    /// Nothing.
    Done,
    /// Its firmware version.
    Version(String),
    /// The frames that it read.
    Frames(Vec<CanFrame>),
    /// The bytes that it read.
    Data(Vec<u8>),
}

/// The payload that hands on what a device gave back.
pub open spec fn reply_payload(r: DeviceReply) -> Seq<u8> {
    match r {
        DeviceReply::Done => seq![],
        DeviceReply::Version(text) => vstd::utf8::encode_utf8(text@),
        DeviceReply::Frames(frames) => crate::listing::frame_list(
            crate::devices::appi_common::frame_views(frames@),
        ),
        DeviceReply::Data(data) => data@,
    }
}

/// Answers a request with what came of it.
pub fn on_result(packet: &Packet, result: Result<DeviceReply, DeviceError>) -> (bytes: Vec<u8>)
    ensures
        bytes@ == match result {
            Ok(r) => packet@.response(reply_payload(r)),
            Err(e) => packet@.error(e@.text()),
        },
{
    match result {
        Ok(DeviceReply::Done) => Packet::response(packet, &[]),
        Ok(DeviceReply::Version(text)) => Packet::response(packet, text.as_str().as_bytes()),
        Ok(DeviceReply::Frames(frames)) => Packet::response(
            packet,
            frame_payload(frames.as_slice()).as_slice(),
        ),
        Ok(DeviceReply::Data(data)) => Packet::response(packet, data.as_slice()),
        Err(e) => Packet::error(packet, e.message().as_str()),
    }
}

/// The lines to send for what a stream read, one for each frame; `None` where reading failed
/// and the stream ends.
pub fn stream_lines(read: Result<Vec<CanFrame>, DeviceError>) -> (r: Option<Vec<String>>)
    ensures
        match read {
            Ok(frames) => r matches Some(lines) && lines@.len() == frames@.len() && forall|i: int|
                0 <= i < lines@.len() ==> (#[trigger] lines@[i])@ == frames@[i]@.hex_line(),
            Err(_) => r is None,
        },
{
    let frames = match read {
        Ok(f) => f,
        Err(_) => return None,
    };
    let mut lines: Vec<String> = Vec::new();
    for i in 0..frames.len()
        invariant
            lines@.len() == i,
            forall|j: int| 0 <= j < i ==> (#[trigger] lines@[j])@ == frames@[j]@.hex_line(),
    {
        lines.push(frames[i].to_hex_line());
    }
    Some(lines)
}

/// Whether bytes answer a request: they repeat its identifiers, and their command is the one
/// of the request, marked as an answer, or the one of an error.
pub open spec fn answers(p: PacketView, bytes: Seq<u8>) -> bool {
    &&& bytes.len() >= crate::protocol::HEADER_LEN
    &&& crate::protocol::be16_at(bytes, 0) == p.client_id
    &&& crate::protocol::be16_at(bytes, 2) == p.session_id
    &&& crate::protocol::be16_at(bytes, 4) == p.seq
    &&& {
        ||| crate::protocol::be16_at(bytes, 6) == 0x8000 + p.base_cmd()
        ||| crate::protocol::be16_at(bytes, 6) == Cmd::Error.code()
    }
}

/// Whatever is sent as the answer to a request, or as its error, answers it.
pub proof fn law_packets_answer(p: PacketView, payload: Seq<u8>, text: Seq<char>)
    ensures
        answers(p, p.response(payload)),
        answers(p, p.error(text)),
{
    crate::bytes::law_be16_round_trip(p.client_id, 0, 0);
    crate::bytes::law_be16_round_trip(p.session_id, 0, 0);
    crate::bytes::law_be16_round_trip(p.seq, 0, 0);
    crate::bytes::law_be16_round_trip((0x8000 + p.base_cmd()) as u16, 0, 0);
    crate::bytes::law_be16_round_trip(0xFFFF, 0, 0);
}

/// What is sent at once for a request answers it.
pub proof fn law_replies_answer_request(
    s: ServerView,
    addr: ClientAddr,
    p: PacketView,
    r: ReplyView,
)
    requires
        s.handles(addr, p, ActionView::Reply(r)),
    ensures
        answers(p, r.bytes),
{
    assert forall|payload: Seq<u8>| answers(p, #[trigger] p.response(payload)) by {
        law_packets_answer(p, payload, seq![]);
    }
    assert forall|text: Seq<char>| answers(p, #[trigger] p.error(text)) by {
        law_packets_answer(p, seq![], text);
    }
}

/// What is sent for a task without touching the device answers the request.
pub proof fn law_refusals_answer_request(
    p: PacketView,
    task: TaskView,
    driver: Result<Driver, DeviceErrorView>,
)
    ensures
        next(p, task, driver) matches NextView::Reply(bytes) ==> answers(p, bytes),
{
    assert forall|payload: Seq<u8>| answers(p, #[trigger] p.response(payload)) by {
        law_packets_answer(p, payload, seq![]);
    }
    assert forall|text: Seq<char>| answers(p, #[trigger] p.error(text)) by {
        law_packets_answer(p, seq![], text);
    }
}

/// The error of a request goes to the client, as an error packet with its text, and nothing
/// is ended for it.
pub proof fn law_errors_reach_client(
    s: ServerView,
    addr: ClientAddr,
    p: PacketView,
    e: AppErrorView,
    a: ActionView,
)
    requires
        s.failure(addr, p) == Some(e),
        s.handles(addr, p, a),
    ensures
        a == plain(p.error(e.text())),
        s.after(addr, p) == s,
{
}

/// A request from an address that is not registered is refused and changes nothing.
pub proof fn law_unregistered_is_refused(
    s: ServerView,
    addr: ClientAddr,
    p: PacketView,
    cmd: Cmd,
    a: ActionView,
)
    requires
        p.cmd() == Some(cmd),
        cmd != Cmd::Register,
        s.clients.id_at(addr) is None,
        s.handles(addr, p, a),
    ensures
        a == plain(p.error("not registered — send Register first"@)),
        s.after(addr, p) == s,
{
}

/// Once an address was registered it is served, and registering it again changes nothing and
/// gives the same identifier.
pub proof fn law_register_admits(s: ServerView, addr: ClientAddr, p: PacketView, a: ActionView)
    requires
        p.cmd() == Some(Cmd::Register),
        s.handles(addr, p, a),
    ensures
        s.after(addr, p).clients.id_at(addr) matches Some(id) && a == plain(
            p.response(crate::bytes::be16(id)),
        ),
        forall|cmd: Cmd| s.after(addr, p).admits(addr, cmd),
        s.after(addr, p).after(addr, p) == s.after(addr, p),
        s.after(addr, p).handles(addr, p, a),
{
}

/// Once a client was unregistered nothing is left of it: no session, no stream, no periodic
/// write, and its address is no longer served.
pub proof fn law_unregister_ends_client(s: ServerView, addr: ClientAddr, p: PacketView, id: u16)
    requires
        p.cmd() == Some(Cmd::Unregister),
        s.clients.id_at(addr) is Some,
        s.clients.paired(),
    ensures
        !s.after(addr, p).sessions.owned(p.client_id, id),
        crate::stream::lookup(s.after(addr, p).streams.ports, (p.client_id, id)) is None,
        crate::stream::lookup(s.after(addr, p).streams.periodic, (p.client_id, id)) is None,
        s.after(addr, p).clients.client(p.client_id) is None,
        s.clients.client(p.client_id) matches Some(c) ==> s.after(addr, p).clients.id_at(
            c.addr,
        ) is None,
{
}

/// Once a session was closed, what ran for it has ended, and every further task on it is
/// refused.
pub proof fn law_closed_session_is_refused(
    s: ServerView,
    addr: ClientAddr,
    p: PacketView,
    q: PacketView,
    cmd: Cmd,
    a: ActionView,
)
    requires
        p.cmd() == Some(Cmd::SessionClose),
        s.clients.id_at(addr) is Some,
        crate::protocol::u16_at(p.payload, 0) == Ok::<u16, AppErrorView>(q.session_id),
        q.cmd() == Some(cmd),
        task_of(cmd, q.payload) matches Some(Ok(_)),
        s.after(addr, p).handles(addr, q, a),
    ensures
        a == plain(q.error(AppErrorView::UnknownSession(q.session_id).text())),
        crate::stream::lookup(
            s.after(addr, p).streams.ports,
            (p.client_id, q.session_id),
        ) is None,
        crate::stream::lookup(
            s.after(addr, p).streams.periodic,
            (p.client_id, q.session_id),
        ) is None,
{
}

/// A session that was made leads to the device that it was made on.
pub proof fn law_session_leads_to_device(
    s: ServerView,
    addr: ClientAddr,
    client_id: u16,
    idx: usize,
    key: Seq<char>,
    q: PacketView,
    cmd: Cmd,
    a: ActionView,
)
    requires
        s.clients.id_at(addr) is Some,
        q.session_id == s.sessions.next_id,
        q.cmd() == Some(cmd),
        task_of(cmd, q.payload) matches Some(Ok(_)),
        (ServerView { sessions: s.sessions.create(client_id, idx, key), ..s }).handles(addr, q, a),
    ensures
        a == ActionView::UseDriver(idx, task_of(cmd, q.payload)->Some_0->Ok_0),
{
}

/// A request leaves alone what runs for other clients than the one it names.
pub proof fn law_request_keeps_other_streams(
    s: ServerView,
    addr: ClientAddr,
    p: PacketView,
    other: (u16, u16),
)
    requires
        other.0 != p.client_id,
    ensures
        crate::stream::lookup(s.after(addr, p).streams.ports, other) == crate::stream::lookup(
            s.streams.ports,
            other,
        ),
        crate::stream::lookup(s.after(addr, p).streams.periodic, other) == crate::stream::lookup(
            s.streams.periodic,
            other,
        ),
{
}

/// What is done on a device stays within what its driver gives access to.
pub proof fn law_tasks_need_access(
    p: PacketView,
    task: TaskView,
    driver: Result<Driver, DeviceErrorView>,
)
    ensures
        !(next(p, task, driver) is Reply) ==> driver is Ok && match access_of(task) {
            Access::Any => true,
            Access::Can => driver->Ok_0.offered.can,
            Access::Uart => driver->Ok_0.offered.uart,
            Access::Gen => driver->Ok_0.offered.gen,
        },
{
}

/// The frame that a client asks to write is the frame that is written.
pub proof fn law_written_frame(
    p: PacketView,
    iface: CanInterface,
    id: u16,
    data: Seq<u8>,
    d: Driver,
)
    requires
        p.payload == seq![iface.number()] + crate::bytes::be16(id) + data,
        d.offered.can,
    ensures
        next(p, TaskView::CanWrite, Ok(d)) == NextView::Run(
            DeviceOpView::CanWrite { iface, frame: crate::types::frame_of(id, data) },
        ),
{
    crate::bytes::law_be16_round_trip(id, 0, 0);
    crate::types::law_can_interface_numbers(iface, 0);
    assert(p.payload.skip(3) =~= data);
}

/// The frame that a client asks to write periodically is the frame that is written, as often
/// as asked.
pub proof fn law_periodic_frame(
    p: PacketView,
    interval_ms: u16,
    iface: CanInterface,
    id: u16,
    data: Seq<u8>,
    d: Driver,
)
    requires
        p.payload == crate::bytes::be16(interval_ms) + (seq![iface.number()] + crate::bytes::be16(
            id,
        ) + data),
        d.offered.can,
    ensures
        task_of(Cmd::CanPeriodicStart, p.payload) matches Some(Ok(task)) && next(p, task, Ok(d))
            == (NextView::StartPeriodic {
            interval_ms,
            iface,
            frame: crate::types::frame_of(id, data),
        }),
{
    let rest = seq![iface.number()] + crate::bytes::be16(id) + data;
    crate::bytes::law_be16_round_trip(interval_ms, 0, 0);
    crate::bytes::law_be16_round_trip(id, 0, 0);
    crate::types::law_can_interface_numbers(iface, 0);
    assert(p.payload.skip(2) =~= rest);
    assert(rest.skip(3) =~= data);
}

/// The settings that a client asks for are the settings that the generator gets.
pub proof fn law_generator_settings(p: PacketView, s: GenSettingsView, d: Driver)
    requires
        s.saut_blocks.len() == 6,
        p.payload == seq![
            s.code.number(),
            if s.gain_x10 {
                1u8
            } else {
                0u8
            },
        ] + crate::bytes::be16(s.dac) + seq![s.alsn_code] + crate::bytes::be32(s.frequency)
            + crate::bytes::be16(s.alsen_sg_kk) + seq![s.saut_freq] + s.saut_blocks,
        d.offered.gen,
    ensures
        next(p, TaskView::GenSet, Ok(d)) == NextView::Run(DeviceOpView::GenSet { settings: s }),
{
    lemma_settings_read_back(p.payload, s);
}

/// Settings are read back from the payload that names them.
#[verifier::spinoff_prover]
proof fn lemma_settings_read_back(payload: Seq<u8>, s: GenSettingsView)
    requires
        s.saut_blocks.len() == 6,
        payload == seq![
            s.code.number(),
            if s.gain_x10 {
                1u8
            } else {
                0u8
            },
        ] + crate::bytes::be16(s.dac) + seq![s.alsn_code] + crate::bytes::be32(s.frequency)
            + crate::bytes::be16(s.alsen_sg_kk) + seq![s.saut_freq] + s.saut_blocks,
    ensures
        gen_payload(payload) == Ok::<_, AppErrorView>(s),
{
    let (dac, freq, alsen) = (
        crate::bytes::be16(s.dac),
        crate::bytes::be32(s.frequency),
        crate::bytes::be16(s.alsen_sg_kk),
    );
    crate::types::law_mode_codes(UartMode::Off, s.code, 0);
    crate::bytes::law_be16_round_trip(s.dac, 0, 0);
    crate::bytes::law_be16_round_trip(s.alsen_sg_kk, 0, 0);
    crate::bytes::law_be32_round_trip(s.frequency, 0, 0, 0, 0);
    assert(dac.len() == 2 && freq.len() == 4 && alsen.len() == 2);
    assert(payload.len() == 18);
    assert(payload[0] == s.code.number());
    assert(payload[2] == dac[0] && payload[3] == dac[1]);
    assert(payload[4] == s.alsn_code);
    assert(payload[5] == freq[0] && payload[6] == freq[1]);
    assert(payload[7] == freq[2] && payload[8] == freq[3]);
    assert(payload[9] == alsen[0] && payload[10] == alsen[1]);
    assert(payload[11] == s.saut_freq);
    assert(payload.subrange(12, 18) =~= s.saut_blocks);
    assert(gen_payload(payload)->Ok_0 =~= s);
}

/// Every request keeps the registry of clients and the list of sessions in order, provided
/// that the next identifier is free when a new address is registered.
pub proof fn law_requests_keep_order(s: ServerView, addr: ClientAddr, p: PacketView)
    requires
        s.wf(),
        s.clients.wf(),
        s.clients.paired(),
        p.cmd() == Some(Cmd::Register) && s.clients.id_at(addr) is None
            ==> !s.clients.by_id.contains_key(s.clients.next_id),
    ensures
        s.after(addr, p).wf(),
        s.after(addr, p).clients.wf(),
        s.after(addr, p).clients.paired(),
{
    crate::client::law_registry_wf(s.clients, p.client_id, addr);
    crate::client::law_registry_paired(s.clients, p.client_id, addr);
}

/// A CAN payload names an interface by its first byte, an identifier by the next two, the
/// heavier first, and data by the rest. It is refused if it has fewer than three bytes or if
/// the interface is not one of the five.
pub proof fn law_can_payload(payload: Seq<u8>)
    ensures
        can_payload(payload) is Ok <==> payload.len() >= 3 && 1 <= payload[0] <= 5,
        can_payload(payload) matches Ok((iface, frame)) ==> {
            &&& iface.number() == payload[0]
            &&& frame == crate::types::frame_of(
                (256 * payload[1] + payload[2]) as u16,
                payload.skip(3),
            )
        },
        payload.len() < 3 ==> can_payload(payload) == Err::<(CanInterface, CanFrameView), _>(
            AppErrorView::PayloadDecode("CAN payload too short"@),
        ),
        payload.len() >= 3 && !(1 <= payload[0] <= 5) ==> can_payload(payload) == Err::<
            (CanInterface, CanFrameView),
            _,
        >(
            AppErrorView::PayloadDecode(
                "bad CAN interface "@ + crate::text::decimal(payload[0] as nat),
            ),
        ),
{
    crate::types::law_can_interface_numbers(CanInterface::Can1, payload[0]);
    crate::bytes::law_bytes_weigh(0, 0, payload[1], payload[2], 0, 0);
}

/// A generator payload names a code, the tenfold gain, which is on unless its byte is zero,
/// and the other settings, each at its place with the heavier byte first. It is refused if it
/// has fewer than 18 bytes or if the code is not one of the three.
pub proof fn law_gen_payload(payload: Seq<u8>, i: int)
    requires
        0 <= i < 6,
    ensures
        gen_payload(payload) is Ok <==> payload.len() >= 18 && 1 <= payload[0] <= 3,
        gen_payload(payload) matches Ok(s) ==> {
            &&& s.code.number() == payload[0]
            &&& s.gain_x10 <==> payload[1] > 0
            &&& s.dac == 256 * payload[2] + payload[3]
            &&& s.alsn_code == payload[4]
            &&& s.frequency == 0x1000000 * payload[5] + 0x10000 * payload[6] + 0x100 * payload[7]
                + payload[8]
            &&& s.alsen_sg_kk == 256 * payload[9] + payload[10]
            &&& s.saut_freq == payload[11]
            &&& s.saut_blocks.len() == 6
            &&& s.saut_blocks[i] == payload[12 + i]
        },
        payload.len() < 18 ==> gen_payload(payload) == Err::<GenSettingsView, _>(
            AppErrorView::PayloadDecode("gen payload too short"@),
        ),
        payload.len() >= 18 && !(1 <= payload[0] <= 3) ==> gen_payload(payload) == Err::<
            GenSettingsView,
            _,
        >(
            AppErrorView::PayloadDecode(
                "bad gen code "@ + crate::text::decimal(payload[0] as nat),
            ),
        ),
{
    crate::bytes::law_bytes_weigh(0, 0, payload[2], payload[3], 0, 0);
    crate::bytes::law_bytes_weigh(0, 0, payload[9], payload[10], 0, 0);
    crate::bytes::law_bytes_weigh(0, 0, payload[5], payload[6], payload[7], payload[8]);
}

/// What each command wants of a driver, by the bytes of its payload. Numbers have their
/// heavier byte first; a payload that ends too early is refused for the first number that is
/// missing.
pub proof fn law_tasks_of_commands(payload: Seq<u8>)
    ensures
        task_of(Cmd::GetVersion, payload) == Some(Ok::<_, AppErrorView>(TaskView::Version)),
        task_of(Cmd::CheckUart, payload) == Some(Ok::<_, AppErrorView>(TaskView::CheckUart)),
        task_of(Cmd::CanWrite, payload) == Some(Ok::<_, AppErrorView>(TaskView::CanWrite)),
        task_of(Cmd::UartWrite, payload) == Some(Ok::<_, AppErrorView>(TaskView::UartWrite)),
        task_of(Cmd::UartRead, payload) == Some(Ok::<_, AppErrorView>(TaskView::UartRead)),
        task_of(Cmd::GenSetMode, payload) == Some(Ok::<_, AppErrorView>(TaskView::GenSet)),
        task_of(Cmd::CanSetBaudrate, payload) == Some(
            if payload.len() < 1 {
                Err(crate::protocol::need("u8"@, 0))
            } else if payload.len() < 3 {
                Err(crate::protocol::need("u16"@, 1))
            } else {
                Ok(
                    TaskView::CanSetBaudrate {
                        iface: payload[0],
                        baud: BaudRate((256 * payload[1] + payload[2]) as u16),
                    },
                )
            },
        ),
        task_of(Cmd::CanReadOnce, payload) == Some(
            if payload.len() < 1 {
                Err(crate::protocol::need("u8"@, 0))
            } else {
                Ok(TaskView::CanRead { iface: payload[0] })
            },
        ),
        task_of(Cmd::UartConfigure, payload) == Some(
            if payload.len() < 1 {
                Err(crate::protocol::need("u8"@, 0))
            } else {
                Ok(TaskView::UartConfigure { mode: payload[0] })
            },
        ),
        task_of(Cmd::GenSetFrequency, payload) == Some(
            if payload.len() < 1 {
                Err(crate::protocol::need("u8"@, 0))
            } else if payload.len() < 5 {
                Err(crate::protocol::need("u32"@, 1))
            } else {
                Ok(
                    TaskView::GenSetFrequency {
                        channel: payload[0],
                        frequency: (0x1000000 * payload[1] + 0x10000 * payload[2] + 0x100
                            * payload[3] + payload[4]) as u32,
                    },
                )
            },
        ),
        task_of(Cmd::GenSetAmplitude, payload) == Some(
            if payload.len() < 1 {
                Err(crate::protocol::need("u8"@, 0))
            } else if payload.len() < 3 {
                Err(crate::protocol::need("u16"@, 1))
            } else {
                Ok(
                    TaskView::GenSetAmplitude {
                        channel: payload[0],
                        amplitude: (256 * payload[1] + payload[2]) as u16,
                    },
                )
            },
        ),
        payload.len() < 2 ==> task_of(Cmd::CanPeriodicStart, payload) == Some(
            Err::<TaskView, _>(crate::protocol::need("u16"@, 0)),
        ),
        payload.len() >= 2 ==> match can_payload(payload.skip(2)) {
            Ok((iface, frame)) => task_of(Cmd::CanPeriodicStart, payload) == Some(
                Ok::<_, AppErrorView>(
                    TaskView::CanPeriodic {
                        interval_ms: (256 * payload[0] + payload[1]) as u16,
                        iface,
                        frame,
                    },
                ),
            ),
            Err(e) => task_of(Cmd::CanPeriodicStart, payload) == Some(Err::<TaskView, _>(e)),
        },
{
    crate::bytes::law_bytes_weigh(0, 0, payload[1], payload[2], payload[3], payload[4]);
    crate::bytes::law_bytes_weigh(0, 0, payload[0], payload[1], 0, 0);
}

/// The commands that want nothing of a driver.
pub proof fn law_commands_without_task(cmd: Cmd, payload: Seq<u8>)
    ensures
        task_of(cmd, payload) is None <==> {
            ||| cmd == Cmd::Register
            ||| cmd == Cmd::Unregister
            ||| cmd == Cmd::Ping
            ||| cmd == Cmd::DeviceList
            ||| cmd == Cmd::DeviceInfo
            ||| cmd == Cmd::DeviceGetVersion
            ||| cmd == Cmd::SessionCreate
            ||| cmd == Cmd::SessionClose
            ||| cmd == Cmd::SessionList
            ||| cmd == Cmd::StreamOpen
            ||| cmd == Cmd::StreamClose
            ||| cmd == Cmd::CanPeriodicStop
            ||| cmd == Cmd::CanFrame
            ||| cmd == Cmd::UartStreamOpen
            ||| cmd == Cmd::UartStreamClose
            ||| cmd == Cmd::Event
            ||| cmd == Cmd::Error
        },
{
}

/// A request for a stream names the port of the client by its first two bytes and the
/// interface by its fourth.
pub proof fn law_stream_request(payload: Seq<u8>)
    ensures
        stream_request(payload) == if payload.len() < 2 {
            Err(crate::protocol::need("u16"@, 0))
        } else if payload.len() < 4 {
            Err(crate::protocol::need("u16"@, 2))
        } else {
            Ok(((256 * payload[0] + payload[1]) as u16, payload[3]))
        },
{
    crate::bytes::law_bytes_weigh(0, 0, payload[0], payload[1], 0, 0);
    crate::bytes::law_bytes_weigh(0, 0, payload[2], payload[3], 0, 0);
}

/// A number that names no interface, or no mode, is refused whatever is known of the driver,
/// with a text that ends in the number.
pub proof fn law_bad_numbers_are_refused(
    p: PacketView,
    n: u8,
    baud: BaudRate,
    driver: Result<Driver, DeviceErrorView>,
)
    ensures
        !(1 <= n <= 5) ==> next(p, TaskView::CanRead { iface: n }, driver) == NextView::Reply(
            p.error("bad CAN interface "@ + crate::text::decimal(n as nat)),
        ),
        !(1 <= n <= 5) ==> next(p, TaskView::CanSetBaudrate { iface: n, baud }, driver)
            == NextView::Reply(p.error("bad CAN interface "@ + crate::text::decimal(n as nat))),
        n != 1 && n != 2 && n != 3 && n != 9 ==> next(
            p,
            TaskView::UartConfigure { mode: n },
            driver,
        ) == NextView::Reply(p.error("bad UART mode "@ + crate::text::decimal(n as nat))),
{
    crate::types::law_can_interface_numbers(CanInterface::Can1, n);
}

/// Whether the number in a task names something.
pub open spec fn names_something(task: TaskView) -> bool {
    match task {
        TaskView::CanRead { iface } => 1 <= iface <= 5,
        TaskView::CanSetBaudrate { iface, .. } => 1 <= iface <= 5,
        TaskView::UartConfigure { mode } => mode == 1 || mode == 2 || mode == 3 || mode == 9,
        _ => true,
    }
}

/// Where a driver cannot be had, its error goes to the client.
pub proof fn law_driver_errors_reach_client(p: PacketView, task: TaskView, e: DeviceErrorView)
    requires
        names_something(task),
    ensures
        next(p, task, Err(e)) == NextView::Reply(p.error(e.text())),
{
}

/// A driver without CAN is refused for every task on CAN, one without UART for every task on
/// the UART, one without generator for every task on the generator.
pub proof fn law_missing_access_is_refused(p: PacketView, task: TaskView, d: Driver)
    requires
        names_something(task),
    ensures
        !d.offered.can && (task is CanWrite || task is CanPeriodic || task is CanSetBaudrate
            || task is CanRead || task is Stream) ==> next(p, task, Ok(d)) == NextView::Reply(
            p.error("device has no CAN capability"@),
        ),
        !d.offered.uart && (task is UartConfigure || task is UartWrite || task is UartRead)
            ==> next(p, task, Ok(d)) == NextView::Reply(
            p.error("device has no UART capability"@),
        ),
        !d.offered.gen && (task is GenSet || task is GenSetFrequency || task is GenSetAmplitude)
            ==> next(p, task, Ok(d)) == NextView::Reply(
            p.error("device has no generator capability"@),
        ),
{
}

/// What is done on a device is done through what its driver offers: CAN for frames and speeds,
/// UART for its data and mode, the generator for its settings.
pub proof fn law_operations_use_what_is_offered(
    p: PacketView,
    task: TaskView,
    driver: Result<Driver, DeviceErrorView>,
)
    ensures
        next(p, task, driver) matches NextView::Run(op) ==> (driver matches Ok(d) && match op {
            DeviceOpView::Version => true,
            DeviceOpView::CanWrite { .. } => d.offered.can,
            DeviceOpView::CanSetBaudrate { .. } => d.offered.can,
            DeviceOpView::CanRead { .. } => d.offered.can,
            DeviceOpView::UartConfigure { .. } => d.offered.uart,
            DeviceOpView::UartWrite { .. } => d.offered.uart,
            DeviceOpView::UartRead => d.offered.uart,
            DeviceOpView::GenSet { .. } => d.offered.gen,
            DeviceOpView::GenSetFrequency { .. } => d.offered.gen,
            DeviceOpView::GenSetAmplitude { .. } => d.offered.gen,
        }),
        next(p, task, driver) is StartPeriodic ==> (driver matches Ok(d) && d.offered.can),
        next(p, task, driver) is OpenStream ==> (driver matches Ok(d) && d.offered.can),
{
}

/// Each task is carried out as what it is, with the interface or mode that its number names,
/// on a driver that offers what it needs. Whether there is a UART is answered by what the
/// driver says of itself.
pub proof fn law_tasks_are_carried_out(
    p: PacketView,
    d: Driver,
    iface: CanInterface,
    mode: UartMode,
    baud: BaudRate,
    channel: u8,
    frequency: u32,
    amplitude: u16,
    data_addr: ClientAddr,
)
    ensures
        next(p, TaskView::Version, Ok(d)) == NextView::Run(DeviceOpView::Version),
        next(p, TaskView::CheckUart, Ok(d)) == NextView::Reply(
            p.response(
                if d.declared.uart {
                    seq![1u8]
                } else {
                    seq![0u8]
                },
            ),
        ),
        d.offered.can ==> {
            &&& next(p, TaskView::CanSetBaudrate { iface: iface.number(), baud }, Ok(d))
                == NextView::Run(DeviceOpView::CanSetBaudrate { iface, baud })
            &&& next(p, TaskView::CanRead { iface: iface.number() }, Ok(d)) == NextView::Run(
                DeviceOpView::CanRead { iface },
            )
            &&& next(p, TaskView::Stream { iface, data_addr }, Ok(d)) == (NextView::OpenStream {
                iface,
                data_addr,
            })
            &&& can_payload(p.payload) matches Err(e) ==> next(p, TaskView::CanWrite, Ok(d))
                == NextView::Reply(p.error(e.text()))
        },
        d.offered.uart ==> {
            &&& next(p, TaskView::UartConfigure { mode: mode.code() }, Ok(d)) == NextView::Run(
                DeviceOpView::UartConfigure { mode },
            )
            &&& next(p, TaskView::UartWrite, Ok(d)) == NextView::Run(
                DeviceOpView::UartWrite { data: p.payload },
            )
            &&& next(p, TaskView::UartRead, Ok(d)) == NextView::Run(DeviceOpView::UartRead)
        },
        d.offered.gen ==> {
            &&& next(p, TaskView::GenSetFrequency { channel, frequency }, Ok(d)) == NextView::Run(
                DeviceOpView::GenSetFrequency { channel, frequency },
            )
            &&& next(p, TaskView::GenSetAmplitude { channel, amplitude }, Ok(d)) == NextView::Run(
                DeviceOpView::GenSetAmplitude { channel, amplitude },
            )
            &&& gen_payload(p.payload) matches Err(e) ==> next(p, TaskView::GenSet, Ok(d))
                == NextView::Reply(p.error(e.text()))
        },
{
    assert(seq![1u8] =~= seq![
        if true {
            1u8
        } else {
            0u8
        },
    ]);
    assert(seq![0u8] =~= seq![
        if false {
            1u8
        } else {
            0u8
        },
    ]);
    crate::types::law_can_interface_numbers(iface, 0);
    crate::types::law_mode_codes(mode, GenCode::Als, 0);
}

/// Bytes that are sent, and nothing that is ended.
pub open spec fn sent(bytes: Seq<u8>) -> ActionView {
    ActionView::Reply(
        ReplyView { bytes, stopped: Seq::<u64>::empty(), released: Seq::<u64>::empty() },
    )
}

/// Requests that are answered at once: a ping by `pong`, what only the daemon sends and what
/// does not exist yet by an error, and an unknown command by an error that names it.
pub proof fn law_simple_requests(s: ServerView, addr: ClientAddr, p: PacketView, a: ActionView)
    requires
        s.clients.id_at(addr) is Some,
        s.handles(addr, p, a),
    ensures
        p.cmd() == Some(Cmd::Ping) ==> a == sent(
            p.response(vstd::utf8::encode_utf8("pong"@)),
        ),
        p.cmd() == Some(Cmd::CanFrame) || p.cmd() == Some(Cmd::Event) ==> a == sent(
            p.error("server-only command"@),
        ),
        p.cmd() == Some(Cmd::UartStreamOpen) || p.cmd() == Some(Cmd::UartStreamClose) ==> a == sent(
            p.error("UART stream not yet implemented"@),
        ),
        p.cmd() is None ==> a == sent(p.error(AppErrorView::UnknownCmd(p.base_cmd()).text())),
        p.cmd() == Some(Cmd::DeviceList) ==> a == ActionView::ListDevices,
{
    assert(seq![] =~= Seq::<u64>::empty());
}

/// Requests on a device name it by the first two bytes of their payload, the heavier first;
/// without them they are refused.
pub proof fn law_device_requests(s: ServerView, addr: ClientAddr, p: PacketView, a: ActionView)
    requires
        s.clients.id_at(addr) is Some,
        s.handles(addr, p, a),
        p.cmd() == Some(Cmd::DeviceInfo) || p.cmd() == Some(Cmd::DeviceGetVersion) || p.cmd()
            == Some(Cmd::SessionCreate),
    ensures
        a == if p.payload.len() < 2 {
            sent(p.error(crate::protocol::need("u16"@, 0).text()))
        } else {
            let idx = (256 * p.payload[0] + p.payload[1]) as usize;
            if p.cmd() == Some(Cmd::DeviceInfo) {
                ActionView::DescribeDevice(idx)
            } else if p.cmd() == Some(Cmd::SessionCreate) {
                ActionView::CreateSession(idx)
            } else {
                ActionView::UseDriver(idx, TaskView::Version)
            }
        },
        s.after(addr, p) == s,
{
    crate::bytes::law_bytes_weigh(0, 0, p.payload[0], p.payload[1], 0, 0);
    assert(seq![] =~= Seq::<u64>::empty());
}

/// A task on a session goes to the device of that session; it is refused if the session is
/// unknown, and before that if its payload cannot be read.
pub proof fn law_task_requests(
    s: ServerView,
    addr: ClientAddr,
    p: PacketView,
    cmd: Cmd,
    a: ActionView,
)
    requires
        s.clients.id_at(addr) is Some,
        s.handles(addr, p, a),
        p.cmd() == Some(cmd),
        task_of(cmd, p.payload) is Some,
    ensures
        a == match task_of(cmd, p.payload)->Some_0 {
            Err(e) => sent(p.error(e.text())),
            Ok(task) => match s.sessions.get(p.session_id) {
                Err(e) => sent(p.error(e.text())),
                Ok(info) => ActionView::UseDriver(info.device_idx, task),
            },
        },
        s.after(addr, p) == s,
{
    assert(seq![] =~= Seq::<u64>::empty());
}

/// A request for a stream goes to the device of its session, to be sent to the port that it
/// names on the host that it comes from.
pub proof fn law_stream_open_request(
    s: ServerView,
    addr: ClientAddr,
    p: PacketView,
    a: ActionView,
)
    requires
        s.clients.id_at(addr) is Some,
        s.handles(addr, p, a),
        p.cmd() == Some(Cmd::StreamOpen),
    ensures
        p.payload.len() < 4 ==> a is Reply,
        p.payload.len() >= 4 && !(1 <= p.payload[3] <= 5) ==> a == sent(
            p.error("bad CAN interface "@ + crate::text::decimal(p.payload[3] as nat)),
        ),
        p.payload.len() >= 4 && 1 <= p.payload[3] <= 5 ==> match s.sessions.get(p.session_id) {
            Err(e) => a == sent(p.error(e.text())),
            Ok(info) => a matches ActionView::UseDriver(
                idx,
                TaskView::Stream { iface, data_addr },
            ) && idx == info.device_idx && iface.number() == p.payload[3] && data_addr.ip == addr.ip
                && data_addr.v6 == addr.v6 && data_addr.port == 256 * p.payload[0] + p.payload[1],
        },
        s.after(addr, p) == s,
{
    law_stream_request(p.payload);
    if p.payload.len() >= 4 {
        crate::types::law_can_interface_numbers(CanInterface::Can1, p.payload[3]);
    }
    assert(seq![] =~= Seq::<u64>::empty());
}

/// A list of sessions goes out for the client that the request names.
pub proof fn law_session_list_request(
    s: ServerView,
    addr: ClientAddr,
    p: PacketView,
    a: ActionView,
)
    requires
        s.clients.id_at(addr) is Some,
        s.handles(addr, p, a),
        p.cmd() == Some(Cmd::SessionList),
    ensures
        exists|list: Seq<SessionInfoView>| #[trigger]
            s.sessions.lists(p.client_id, list) && a == sent(
                p.response(crate::listing::session_list(list)),
            ),
        s.after(addr, p) == s,
{
    let list = choose|list: Seq<SessionInfoView>| #[trigger]
        s.sessions.lists(p.client_id, list) && a == plain(
            p.response(crate::listing::session_list(list)),
        );
    assert(s.sessions.lists(p.client_id, list));
    assert(seq![] =~= Seq::<u64>::empty());
}

/// Whether a list holds the value, if there is one, and nothing else.
pub open spec fn just(list: Seq<u64>, v: Option<u64>) -> bool {
    match v {
        Some(x) => list.len() == 1 && list[0] == x,
        None => list.len() == 0,
    }
}

/// Closing a session ends the periodic write and the stream that the client has for it, and
/// closes it; a session that is unknown is an error.
pub proof fn law_session_close_request(
    s: ServerView,
    addr: ClientAddr,
    p: PacketView,
    a: ActionView,
    other: u16,
    key: (u16, u16),
)
    requires
        s.clients.id_at(addr) is Some,
        s.handles(addr, p, a),
        p.cmd() == Some(Cmd::SessionClose),
    ensures
        p.payload.len() < 2 ==> a == sent(p.error(crate::protocol::need("u16"@, 0).text()))
            && s.after(addr, p) == s,
        p.payload.len() >= 2 ==> {
            let id = (256 * p.payload[0] + p.payload[1]) as u16;
            &&& a matches ActionView::Reply(r) && {
                &&& r.bytes == match s.sessions.get(id) {
                    Ok(_) => p.response(seq![]),
                    Err(e) => p.error(e.text()),
                }
                &&& just(r.stopped, crate::stream::lookup(s.streams.periodic, (p.client_id, id)))
                &&& just(r.released, s.streams.socket(p.client_id, id))
            }
            &&& s.after(addr, p).sessions.get(id) is Err
            &&& other != id ==> s.after(addr, p).sessions.get(other) == s.sessions.get(other)
            &&& crate::stream::lookup(s.after(addr, p).streams.ports, (p.client_id, id)) is None
            &&& crate::stream::lookup(s.after(addr, p).streams.periodic, (p.client_id, id)) is None
            &&& key != (p.client_id, id) ==> crate::stream::lookup(
                s.after(addr, p).streams.ports,
                key,
            ) == crate::stream::lookup(s.streams.ports, key)
            &&& key != (p.client_id, id) ==> crate::stream::lookup(
                s.after(addr, p).streams.periodic,
                key,
            ) == crate::stream::lookup(s.streams.periodic, key)
        },
        s.after(addr, p).clients == s.clients,
{
    crate::bytes::law_bytes_weigh(0, 0, p.payload[0], p.payload[1], 0, 0);
    assert(seq![] =~= Seq::<u64>::empty());
}

/// Closing a stream ends the stream and the periodic write of its session; stopping a periodic
/// write ends that alone. Neither touches another session, or what is known of clients and
/// sessions.
pub proof fn law_stop_requests(
    s: ServerView,
    addr: ClientAddr,
    p: PacketView,
    a: ActionView,
    key: (u16, u16),
)
    requires
        s.clients.id_at(addr) is Some,
        s.handles(addr, p, a),
        p.cmd() == Some(Cmd::StreamClose) || p.cmd() == Some(Cmd::CanPeriodicStop),
    ensures
        a matches ActionView::Reply(r) && {
            &&& r.bytes == p.response(seq![])
            &&& just(
                r.stopped,
                crate::stream::lookup(s.streams.periodic, (p.client_id, p.session_id)),
            )
            &&& p.cmd() == Some(Cmd::StreamClose) ==> just(
                r.released,
                s.streams.socket(p.client_id, p.session_id),
            )
            &&& p.cmd() == Some(Cmd::CanPeriodicStop) ==> r.released.len() == 0
        },
        crate::stream::lookup(
            s.after(addr, p).streams.periodic,
            (p.client_id, p.session_id),
        ) is None,
        p.cmd() == Some(Cmd::StreamClose) ==> crate::stream::lookup(
            s.after(addr, p).streams.ports,
            (p.client_id, p.session_id),
        ) is None,
        p.cmd() == Some(Cmd::CanPeriodicStop) ==> s.after(addr, p).streams.ports
            == s.streams.ports,
        key != (p.client_id, p.session_id) ==> crate::stream::lookup(
            s.after(addr, p).streams.ports,
            key,
        ) == crate::stream::lookup(s.streams.ports, key),
        key != (p.client_id, p.session_id) ==> crate::stream::lookup(
            s.after(addr, p).streams.periodic,
            key,
        ) == crate::stream::lookup(s.streams.periodic, key),
        s.after(addr, p).clients == s.clients,
        s.after(addr, p).sessions == s.sessions,
{
}

/// Registering changes the registry alone, and nothing is ended for it.
pub proof fn law_register_request(
    s: ServerView,
    addr: ClientAddr,
    p: PacketView,
    a: ActionView,
    other: ClientAddr,
)
    requires
        s.handles(addr, p, a),
        p.cmd() == Some(Cmd::Register),
    ensures
        a == sent(p.response(crate::bytes::be16(s.clients.id_for(addr)))),
        s.after(addr, p).sessions == s.sessions,
        s.after(addr, p).streams == s.streams,
        other != addr ==> s.after(addr, p).clients.id_at(other) == s.clients.id_at(other),
{
    assert(seq![] =~= Seq::<u64>::empty());
}

/// Unregistering a client ends what ran for it and leaves all other clients alone: their
/// addresses are still served, and their sessions, streams and periodic writes stay.
pub proof fn law_unregister_keeps_other_clients(
    s: ServerView,
    addr: ClientAddr,
    p: PacketView,
    a: ActionView,
    other: ClientAddr,
    cmd: Cmd,
    id: u16,
    key: (u16, u16),
)
    requires
        s.clients.id_at(addr) is Some,
        s.handles(addr, p, a),
        p.cmd() == Some(Cmd::Unregister),
    ensures
        a matches ActionView::Reply(r) && r.bytes == p.response(seq![]) && s.streams.ended(
            p.client_id,
            r.stopped,
            r.released,
        ),
        (s.clients.client(p.client_id) matches Some(c) ==> c.addr != other) ==> s.after(
            addr,
            p,
        ).admits(other, cmd) == s.admits(other, cmd) && s.after(addr, p).clients.id_at(other)
            == s.clients.id_at(other),
        id != p.client_id ==> s.after(addr, p).clients.client(id) == s.clients.client(id),
        s.sessions.get(id) matches Ok(info) ==> (info.client_id != p.client_id ==> s.after(
            addr,
            p,
        ).sessions.get(id) == s.sessions.get(id)),
        s.sessions.get(id) matches Ok(info) ==> (info.client_id == p.client_id ==> s.after(
            addr,
            p,
        ).sessions.get(id) is Err),
        key.0 != p.client_id ==> crate::stream::lookup(s.after(addr, p).streams.ports, key)
            == crate::stream::lookup(s.streams.ports, key),
        key.0 != p.client_id ==> crate::stream::lookup(s.after(addr, p).streams.periodic, key)
            == crate::stream::lookup(s.streams.periodic, key),
{
}

/// A request changes what the daemon knows only if it registers or unregisters a client,
/// closes a session or a stream, or stops a periodic write.
pub proof fn law_other_requests_change_nothing(s: ServerView, addr: ClientAddr, p: PacketView)
    requires
        p.cmd() != Some(Cmd::Register),
        p.cmd() != Some(Cmd::Unregister),
        p.cmd() != Some(Cmd::SessionClose),
        p.cmd() != Some(Cmd::StreamClose),
        p.cmd() != Some(Cmd::CanPeriodicStop),
    ensures
        s.after(addr, p) == s,
{
}

/// What a device gave back is handed on as it is: a text in UTF-8, bytes as bytes, frames as
/// the list of their lines.
pub proof fn law_results_are_handed_on(r: DeviceReply)
    ensures
        r is Done ==> reply_payload(r).len() == 0,
        r matches DeviceReply::Version(text) ==> vstd::utf8::decode_utf8(reply_payload(r))
            == text@,
        r matches DeviceReply::Data(data) ==> reply_payload(r) == data@,
        r matches DeviceReply::Frames(frames) ==> reply_payload(r) == crate::listing::frame_list(
            frames@.map_values(|f: CanFrame| f@),
        ),
{
    if let DeviceReply::Version(text) = r {
        vstd::utf8::encode_utf8_decode_utf8(text@);
    }
}

/// The text on a device that does not exist ends in its index.
pub proof fn law_no_device(idx: usize)
    ensures
        no_device(idx).take(19) == "no device at index "@,
        crate::text::digits_value(no_device(idx).skip(19), 10) == idx,
{
    reveal_strlit("no device at index ");
    crate::text::law_decimal_reads_back(idx as nat);
    assert(no_device(idx).take(19) =~= "no device at index "@);
    assert(no_device(idx).skip(19) =~= crate::text::decimal(idx as nat));
}

} // verus!
