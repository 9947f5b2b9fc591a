//! Devices behind the virtio transport.

pub mod blk;
