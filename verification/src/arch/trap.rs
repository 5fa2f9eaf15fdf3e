//! The register state saved on an exception.
use vstd::prelude::*;

verus! {

/// Registers saved on exception entry.
#[derive(Debug, Clone, Copy)]
pub struct TrapFrame {
    /// General-purpose registers x0–x30.
    pub x: [u64; 31],
    /// User stack pointer (SP_EL0).
    pub sp_el0: u64,
    /// Exception link register (return address).
    pub elr_el1: u64,
    /// Saved processor state.
    pub spsr_el1: u64,
}

impl TrapFrame {
    /// All registers zero.
    pub fn zeroed() -> (tf: TrapFrame)
        ensures
            forall|i: int| 0 <= i < 31 ==> tf.x@[i] == 0,
            tf.sp_el0 == 0,
            tf.elr_el1 == 0,
            tf.spsr_el1 == 0,
    {
        TrapFrame { x: [0u64; 31], sp_el0: 0, elr_el1: 0, spsr_el1: 0 }
    }
}

} // verus!
