//! Errors of the daemon and of the device drivers, and the text that describes each.

use vstd::prelude::*;
use crate::text::{push_decimal, push_hex4};

verus! {

/// What can go wrong while a packet is handled.
#[derive(Debug)]
pub enum AppError {
    /// An I/O error, described by its text.
    Io(String),
    PacketTooShort,
    UnknownCmd(u16),
    UnknownClient(u16),
    UnknownSession(u16),
    SessionExists(u16),
    DeviceNotFound(usize),
    Usb(String),
    PayloadDecode(String),
    ChannelClosed,
}

/// An [`AppError`] with its texts as character sequences.
pub enum AppErrorView {
    Io(Seq<char>),
    PacketTooShort,
    UnknownCmd(u16),
    UnknownClient(u16),
    UnknownSession(u16),
    SessionExists(u16),
    DeviceNotFound(usize),
    Usb(Seq<char>),
    PayloadDecode(Seq<char>),
    ChannelClosed,
}

impl View for AppError {
    type V = AppErrorView;

    open spec fn view(&self) -> AppErrorView {
        match *self {
            AppError::Io(s) => AppErrorView::Io(s@),
            AppError::PacketTooShort => AppErrorView::PacketTooShort,
            AppError::UnknownCmd(v) => AppErrorView::UnknownCmd(v),
            AppError::UnknownClient(v) => AppErrorView::UnknownClient(v),
            AppError::UnknownSession(v) => AppErrorView::UnknownSession(v),
            AppError::SessionExists(v) => AppErrorView::SessionExists(v),
            AppError::DeviceNotFound(v) => AppErrorView::DeviceNotFound(v),
            AppError::Usb(s) => AppErrorView::Usb(s@),
            AppError::PayloadDecode(s) => AppErrorView::PayloadDecode(s@),
            AppError::ChannelClosed => AppErrorView::ChannelClosed,
        }
    }
}

impl AppErrorView {
    /// The text that describes the error.
    pub open spec fn text(self) -> Seq<char> {
        match self {
            AppErrorView::Io(s) => "IO error: "@ + s,
            AppErrorView::PacketTooShort => "Packet too short"@,
            AppErrorView::UnknownCmd(v) => "Unknown command: 0x"@ + crate::text::hex4(v),
            AppErrorView::UnknownClient(v) => "Unknown client id: "@ + crate::text::decimal(
                v as nat,
            ),
            AppErrorView::UnknownSession(v) => "Unknown session id: "@ + crate::text::decimal(
                v as nat,
            ),
            AppErrorView::SessionExists(v) => "Session already exists: "@ + crate::text::decimal(
                v as nat,
            ),
            AppErrorView::DeviceNotFound(v) => "No USB device found at index "@
                + crate::text::decimal(v as nat),
            AppErrorView::Usb(s) => "USB error: "@ + s,
            AppErrorView::PayloadDecode(s) => "Payload decode error: "@ + s,
            AppErrorView::ChannelClosed => "Internal channel error"@,
        }
    }
}

impl AppError {
    /// The text that describes the error.
    pub fn message(&self) -> (s: String)
        ensures
            s@ == self@.text(),
    {
        let mut s = String::new();
        match self {
            AppError::Io(e) => {
                s.append("IO error: ");
                s.append(e.as_str());
            },
            AppError::PacketTooShort => s.append("Packet too short"),
            AppError::UnknownCmd(v) => {
                s.append("Unknown command: 0x");
                push_hex4(&mut s, *v);
            },
            AppError::UnknownClient(v) => {
                s.append("Unknown client id: ");
                push_decimal(&mut s, *v as u64);
            },
            AppError::UnknownSession(v) => {
                s.append("Unknown session id: ");
                push_decimal(&mut s, *v as u64);
            },
            AppError::SessionExists(v) => {
                s.append("Session already exists: ");
                push_decimal(&mut s, *v as u64);
            },
            AppError::DeviceNotFound(v) => {
                s.append("No USB device found at index ");
                push_decimal(&mut s, *v as u64);
            },
            AppError::Usb(e) => {
                s.append("USB error: ");
                s.append(e.as_str());
            },
            AppError::PayloadDecode(e) => {
                s.append("Payload decode error: ");
                s.append(e.as_str());
            },
            AppError::ChannelClosed => s.append("Internal channel error"),
        }
        assert(s@ =~= self@.text());
        s
    }
}

/// What can go wrong while a driver talks to its device.
#[derive(Debug)]
pub enum DeviceError {
    Usb(String),
    NotFound,
    Protocol(String),
    Timeout,
    NoData,
    SyncFailed,
}

/// A [`DeviceError`] with its texts as character sequences.
pub enum DeviceErrorView {
    Usb(Seq<char>),
    NotFound,
    Protocol(Seq<char>),
    Timeout,
    NoData,
    SyncFailed,
}

impl View for DeviceError {
    type V = DeviceErrorView;

    open spec fn view(&self) -> DeviceErrorView {
        match *self {
            DeviceError::Usb(s) => DeviceErrorView::Usb(s@),
            DeviceError::NotFound => DeviceErrorView::NotFound,
            DeviceError::Protocol(s) => DeviceErrorView::Protocol(s@),
            DeviceError::Timeout => DeviceErrorView::Timeout,
            DeviceError::NoData => DeviceErrorView::NoData,
            DeviceError::SyncFailed => DeviceErrorView::SyncFailed,
        }
    }
}

impl DeviceErrorView {
    /// The text that describes the error.
    pub open spec fn text(self) -> Seq<char> {
        match self {
            DeviceErrorView::Usb(s) => "USB error: "@ + s,
            DeviceErrorView::NotFound => "Device not found"@,
            DeviceErrorView::Protocol(s) => "Protocol error: "@ + s,
            DeviceErrorView::Timeout => "Timeout"@,
            DeviceErrorView::NoData => "No data"@,
            DeviceErrorView::SyncFailed => "Sync failed"@,
        }
    }
}

impl DeviceError {
    /// The text that describes the error.
    pub fn message(&self) -> (s: String)
        ensures
            s@ == self@.text(),
    {
        let mut s = String::new();
        match self {
            DeviceError::Usb(e) => {
                s.append("USB error: ");
                s.append(e.as_str());
            },
            DeviceError::NotFound => s.append("Device not found"),
            DeviceError::Protocol(e) => {
                s.append("Protocol error: ");
                s.append(e.as_str());
            },
            DeviceError::Timeout => s.append("Timeout"),
            DeviceError::NoData => s.append("No data"),
            DeviceError::SyncFailed => s.append("Sync failed"),
        }
        assert(s@ =~= self@.text());
        s
    }
}

/// An outcome with the error taken by its view.
pub open spec fn app_outcome<T>(r: Result<T, AppError>) -> Result<T, AppErrorView> {
    match r {
        Ok(v) => Ok(v),
        Err(e) => Err(e@),
    }
}

/// An outcome with the error taken by its view.
pub open spec fn device_outcome<T>(r: Result<T, DeviceError>) -> Result<T, DeviceErrorView> {
    match r {
        Ok(v) => Ok(v),
        Err(e) => Err(e@),
    }
}

/// An error that names a number ends in it, behind what went wrong.
pub proof fn law_numbers_in_errors(v: u16, idx: usize)
    ensures
        AppErrorView::UnknownCmd(v).text().len() == 23,
        crate::text::digits_value(AppErrorView::UnknownCmd(v).text().skip(19), 16) == v,
        AppErrorView::UnknownCmd(v).text().take(19) == "Unknown command: 0x"@,
        crate::text::digits_value(AppErrorView::UnknownClient(v).text().skip(19), 10) == v,
        AppErrorView::UnknownClient(v).text().take(19) == "Unknown client id: "@,
        crate::text::digits_value(AppErrorView::UnknownSession(v).text().skip(20), 10) == v,
        AppErrorView::UnknownSession(v).text().take(20) == "Unknown session id: "@,
        crate::text::digits_value(AppErrorView::SessionExists(v).text().skip(24), 10) == v,
        AppErrorView::SessionExists(v).text().take(24) == "Session already exists: "@,
        crate::text::digits_value(AppErrorView::DeviceNotFound(idx).text().skip(29), 10) == idx,
        AppErrorView::DeviceNotFound(idx).text().take(29) == "No USB device found at index "@,
{
    reveal_strlit("Unknown command: 0x");
    reveal_strlit("Unknown client id: ");
    reveal_strlit("Unknown session id: ");
    reveal_strlit("Session already exists: ");
    reveal_strlit("No USB device found at index ");
    crate::text::law_hex_reads_back(0, v);
    crate::text::law_decimal_reads_back(v as nat);
    crate::text::law_decimal_reads_back(idx as nat);
    let d = crate::text::decimal(v as nat);
    assert(AppErrorView::UnknownCmd(v).text().skip(19) =~= crate::text::hex4(v));
    assert(AppErrorView::UnknownCmd(v).text().take(19) =~= "Unknown command: 0x"@);
    assert(AppErrorView::UnknownClient(v).text().skip(19) =~= d);
    assert(AppErrorView::UnknownClient(v).text().take(19) =~= "Unknown client id: "@);
    assert(AppErrorView::UnknownSession(v).text().skip(20) =~= d);
    assert(AppErrorView::UnknownSession(v).text().take(20) =~= "Unknown session id: "@);
    assert(AppErrorView::SessionExists(v).text().skip(24) =~= d);
    assert(AppErrorView::SessionExists(v).text().take(24) =~= "Session already exists: "@);
    assert(AppErrorView::DeviceNotFound(idx).text().skip(29) =~= crate::text::decimal(idx as nat));
    assert(AppErrorView::DeviceNotFound(idx).text().take(29)
        =~= "No USB device found at index "@);
}

/// An error that carries a text ends in it, behind where it comes from.
pub proof fn law_texts_in_errors(s: Seq<char>)
    ensures
        AppErrorView::Io(s).text() == "IO error: "@ + s,
        AppErrorView::Usb(s).text() == "USB error: "@ + s,
        AppErrorView::PayloadDecode(s).text() == "Payload decode error: "@ + s,
        DeviceErrorView::Usb(s).text() == AppErrorView::Usb(s).text(),
        DeviceErrorView::Protocol(s).text() == "Protocol error: "@ + s,
        AppErrorView::PacketTooShort.text() == "Packet too short"@,
        AppErrorView::ChannelClosed.text() == "Internal channel error"@,
        DeviceErrorView::NotFound.text() == "Device not found"@,
        DeviceErrorView::Timeout.text() == "Timeout"@,
        DeviceErrorView::NoData.text() == "No data"@,
        DeviceErrorView::SyncFailed.text() == "Sync failed"@,
{
}

} // verus!
