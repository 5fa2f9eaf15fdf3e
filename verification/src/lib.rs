//! AIOS kernel logic: the compositor's window, surface, focus and input
//! routing state; the IPC channel, notification, timeout, select and
//! shared-memory tables; capability checks; and the small arithmetic of
//! the aarch64 boot path (descriptors, GIC, timer, VirtIO layout).
use vstd::prelude::*;

pub mod ids;
pub mod task;
pub mod cap;
pub mod arch;
pub mod boot_phase;
pub mod drivers;
pub mod framebuffer;
pub mod font;
pub mod dtb;
pub mod fdt_walk;
pub mod compositor;
pub mod input;
pub mod ipc;
pub mod bench;
pub mod gpu;
pub mod laws;
pub mod strings;

verus! {
}
