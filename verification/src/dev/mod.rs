//! Devices.

pub mod virtio;
