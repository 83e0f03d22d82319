//! The driver of the APPI-2 and APPI-2M (VID 0x1992, PID 0x1972).
//!
//! The driver keeps the state of the device and writes its packets; the caller performs
//! the USB transfers.

use vstd::prelude::*;
use crate::capability::CapabilitySet;
use crate::devices::appi_common::{pkt_can_write, pkt_uart_write, BufferLayout, CanConfig};
use crate::error::{DeviceError, DeviceErrorView};
use crate::types::{CanFrame, CanInterface, UartMode};

verus! {

/// The two models that the driver serves.
#[derive(Debug, Clone, Copy, PartialEq, Eq, Structural)]
pub enum Appi2Variant {
    Appi2,
    Appi2M,
}

impl Appi2Variant {
    /// The name of the model.
    pub open spec fn spec_name(self) -> Seq<char> {
        match self {
            Appi2Variant::Appi2 => "АППИ-2"@,
            Appi2Variant::Appi2M => "АППИ-2М"@,
        }
    }

    /// The name of the model.
    pub fn name(self) -> (s: &'static str)
        ensures
            s@ == self.spec_name(),
    {
        match self {
            Appi2Variant::Appi2 => "АППИ-2",
            Appi2Variant::Appi2M => "АППИ-2М",
        }
    }
}

/// The state of the driver.
#[derive(Debug, Clone, Copy)]
pub struct Appi2 {
    /// The layout of the receive buffer.
    pub layout: BufferLayout,
    pub variant: Appi2Variant,
    /// How far the device has been set up for CAN.
    pub config: CanConfig,
    /// The mode that was set on the UART.
    pub uart_mode: Option<UartMode>,
    /// The counter of the last frame that was sent.
    pub tx_counter: u8,
}

impl Appi2 {
    /// A driver for a device that was just opened.
    pub fn new(variant: Appi2Variant) -> (a: Self)
        ensures
            a == (Appi2 {
                layout: BufferLayout::appi(),
                variant,
                config: CanConfig::fresh(),
                uart_mode: None,
                tx_counter: 0,
            }),
    {
        Appi2 {
            layout: BufferLayout::appi(),
            variant,
            config: CanConfig::fresh(),
            uart_mode: None,
            tx_counter: 0,
        }
    }

    /// The model of the device.
    pub fn variant(&self) -> (v: Appi2Variant)
        ensures
            v == self.variant,
    {
        self.variant
    }

    /// What the device can do.
    pub fn capabilities(&self) -> (c: CapabilitySet)
        ensures
            c == CapabilitySet::all(),
    {
        CapabilitySet::all()
    }

    /// The CAN interfaces of the device.
    pub fn can_interfaces(&self) -> (v: Vec<CanInterface>)
        ensures
            v@ == seq![CanInterface::Can1, CanInterface::Can2],
    {
        let v = vec![CanInterface::Can1, CanInterface::Can2];
        assert(v@ =~= seq![CanInterface::Can1, CanInterface::Can2]);
        v
    }

    /// Counts a frame and writes the packet that sends it.
    pub fn can_write(&mut self, iface: CanInterface, frame: &CanFrame) -> (r: Result<
        Vec<u8>,
        DeviceError,
    >)
        ensures
            final(self).tx_counter == (old(self).tx_counter + 1) % 256,
            *final(self) == (Appi2 { tx_counter: final(self).tx_counter, ..*old(self) }),
            r is Ok,
            r->Ok_0@ == crate::devices::appi_common::can_write_bytes(
                iface,
                frame@,
                final(self).tx_counter,
            ),
    {
        self.tx_counter = self.tx_counter.wrapping_add(1);
        pkt_can_write(iface, frame, self.tx_counter)
    }

    /// Remembers that a mode was set on the UART.
    pub fn uart_configured(&mut self, mode: UartMode)
        ensures
            *final(self) == (Appi2 { uart_mode: Some(mode), ..*old(self) }),
    {
        self.uart_mode = Some(mode);
    }

    /// Writes the packet that sends data to the UART, once a mode was set.
    pub fn uart_write(&self, data: &[u8]) -> (r: Result<Vec<u8>, DeviceError>)
        ensures
            match r {
                Ok(pkt) => {
                    &&& self.uart_mode is Some
                    &&& pkt@ == crate::devices::appi_common::uart_write_bytes(data@)
                },
                Err(e) => {
                    &&& self.uart_mode is None
                    &&& e@ == DeviceErrorView::Protocol(
                        "UART не сконфигурирован (вызовите uart_configure)"@,
                    )
                },
            },
    {
        if self.uart_mode.is_none() {
            return Err(
                DeviceError::Protocol(
                    "UART не сконфигурирован (вызовите uart_configure)".to_owned(),
                ),
            );
        }
        Ok(pkt_uart_write(data))
    }

    /// The data of the UART in a received buffer: the device delivers none.
    pub fn uart_read(&self, _buf: &[u8]) -> (data: Vec<u8>)
        ensures
            data@ == Seq::<u8>::empty(),
    {
        Vec::new()
    }
}

} // verus!
