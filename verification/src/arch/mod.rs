//! The aarch64 platform arithmetic: GIC register selection, page-table
//! descriptors, the generic timer's tick bookkeeping, the PL011 console's
//! byte stream, and the trap frame. Register and MMIO accesses themselves
//! are the platform layer's part.
pub mod gic;
pub mod mmu;
pub mod timer;
pub mod trap;
pub mod uart;
