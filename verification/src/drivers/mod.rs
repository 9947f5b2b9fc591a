//! What this crate knows of devices.

pub mod virtio;
