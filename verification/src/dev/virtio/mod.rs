//! virtio devices.

pub mod snd;
