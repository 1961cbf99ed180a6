//! Known section tags of the resume-snapshot container.

use vstd::prelude::*;

verus! {

pub const CPU: u32 = 1;
pub const RAM: u32 = 2;
pub const CLINT: u32 = 3;
pub const PLIC: u32 = 4;
pub const UART: u32 = 5;
pub const VIRTIO_BLK: u32 = 6;
pub const VIRTIO_NET: u32 = 7;

} // verus!
