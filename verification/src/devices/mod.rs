//! Drivers: what each device family expects on the wire.

pub mod appi;
pub mod appi2;
pub mod appi_common;
pub mod phlox;
pub mod phlox_common;
