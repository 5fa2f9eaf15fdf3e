//! Device drivers: the parts that are layout arithmetic and protocol checks.
pub mod virtio_common;
pub mod virtio_gpu;
pub mod virtio_blk;
pub mod virtio_input;
