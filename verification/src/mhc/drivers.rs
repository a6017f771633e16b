//! Drivers of GPU devices.

pub mod software;
pub mod virtio_gpu;
