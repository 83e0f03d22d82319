//! A daemon that shares USB/CAN adapters with network clients over UDP.

pub mod bytes;
pub mod capability;
pub mod client;
pub mod device_info;
pub mod devices;
pub mod error;
pub mod listing;
pub mod manager;
pub mod protocol;
pub mod service;
pub mod session;
pub mod stream;
pub mod text;
pub mod transport;
pub mod types;
