//! The driver of the ordinary APPI (VID 0x1992, PID 0x1972, bcdDevice 0x0000).
//!
//! The driver keeps the state of the device and writes its packets; the caller performs
//! the USB transfers.

use vstd::prelude::*;
use crate::capability::CapabilitySet;
use crate::devices::appi_common::{pkt_can_write, BufferLayout, CanConfig};
use crate::error::DeviceError;
use crate::types::{CanFrame, CanInterface};

verus! {

/// The state of the driver.
#[derive(Debug, Clone, Copy)]
pub struct Appi {
    /// The layout of the receive buffer.
    pub layout: BufferLayout,
    /// How far the device has been set up.
    pub config: CanConfig,
    /// The counter of the last frame that was sent.
    pub tx_counter: u8,
}

impl Appi {
    /// A driver for a device that was just opened.
    pub fn new() -> (a: Self)
        ensures
            a == (Appi {
                layout: BufferLayout::appi(),
                config: CanConfig::fresh(),
                tx_counter: 0,
            }),
    {
        Appi { layout: BufferLayout::appi(), config: CanConfig::fresh(), tx_counter: 0 }
    }

    /// What the device can do.
    pub fn capabilities(&self) -> (c: CapabilitySet)
        ensures
            c == CapabilitySet::can_only(),
    {
        CapabilitySet::can_only()
    }

    /// The CAN interfaces of the device.
    pub fn can_interfaces(&self) -> (v: Vec<CanInterface>)
        ensures
            v@ == seq![CanInterface::Can1, CanInterface::Can2],
    {
        let v = vec![CanInterface::Can1, CanInterface::Can2];
        assert(v@ =~= seq![CanInterface::Can1, CanInterface::Can2]);
        v
    }

    /// Counts a frame and writes the packet that sends it.
    pub fn can_write(&mut self, iface: CanInterface, frame: &CanFrame) -> (r: Result<
        Vec<u8>,
        DeviceError,
    >)
        ensures
            final(self).tx_counter == (old(self).tx_counter + 1) % 256,
            *final(self) == (Appi { tx_counter: final(self).tx_counter, ..*old(self) }),
            r is Ok,
            r->Ok_0@ == crate::devices::appi_common::can_write_bytes(
                iface,
                frame@,
                final(self).tx_counter,
            ),
    {
        self.tx_counter = self.tx_counter.wrapping_add(1);
        pkt_can_write(iface, frame, self.tx_counter)
    }
}

} // verus!
