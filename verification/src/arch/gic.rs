//! GICv3: distributor/redistributor bases, the enable register of an IRQ,
//! and what the IRQ entry does with an interrupt id.
use vstd::prelude::*;

verus! {

/// Distributor set-enable registers.
pub const GICD_ISENABLER: usize = 0x0100;
/// Redistributor SGI/PPI set-enable register (SGI frame at +64 KiB).
pub const GICR_ISENABLER0: usize = 0x0100 + 0x10000;
/// Redistributor frames are this far apart, one per core.
pub const GICR_STRIDE: usize = 0x20000;
/// Interrupt ids from here on are special (spurious).
pub const SPURIOUS_INTID_BASE: u32 = 1020;
/// The non-secure physical timer's PPI.
pub const TIMER_INTID: u32 = 30;

/// The GIC's register bases.
pub struct InterruptController {
    gicd_base: usize,
    gicr_base: usize,
}

impl InterruptController {
    pub closed spec fn spec_gicd_base(&self) -> usize {
        self.gicd_base
    }

    pub closed spec fn spec_gicr_base(&self) -> usize {
        self.gicr_base
    }

    /// A controller at the given distributor and redistributor bases.
    pub fn new(gicd_base: usize, gicr_base: usize) -> (ic: InterruptController)
        ensures
            ic.spec_gicd_base() == gicd_base,
            ic.spec_gicr_base() == gicr_base,
    {
        InterruptController { gicd_base, gicr_base }
    }

    /// Distributor base.
    pub fn gicd_base(&self) -> (b: usize)
        ensures
            b == self.spec_gicd_base(),
    {
        self.gicd_base
    }

    /// Redistributor base.
    pub fn gicr_base(&self) -> (b: usize)
        ensures
            b == self.spec_gicr_base(),
    {
        self.gicr_base
    }

    /// Move both bases (after the MMIO remap).
    pub fn update_bases(&mut self, gicd: usize, gicr: usize)
        ensures
            final(self).spec_gicd_base() == gicd,
            final(self).spec_gicr_base() == gicr,
    {
        self.gicd_base = gicd;
        self.gicr_base = gicr;
    }

    /// The register to write, and the bit to set in it, to enable `irq`:
    /// SGIs and PPIs (below 32) in the redistributor's set-enable register,
    /// SPIs in the distributor's set-enable register of their group of 32.
    pub fn enable_irq_target(&self, irq: u32) -> (r: (usize, u32))
        requires
            self.spec_gicr_base() + GICR_ISENABLER0 <= usize::MAX,
            self.spec_gicd_base() + GICD_ISENABLER + (irq / 32) * 4 <= usize::MAX,
        ensures
            r.1 == 1u32 << (irq % 32),
            irq < 32 ==> r.0 == self.spec_gicr_base() + GICR_ISENABLER0,
            irq >= 32 ==> r.0 == self.spec_gicd_base() + GICD_ISENABLER + (irq / 32) * 4,
    {
        let bit = 1u32 << (irq % 32);
        if irq < 32 {
            (self.gicr_base + GICR_ISENABLER0, bit)
        } else {
            let reg_offset = GICD_ISENABLER + ((irq / 32) as usize) * 4;
            (self.gicd_base + reg_offset, bit)
        }
    }
}

/// The redistributor frame of core `core_id`.
pub fn redistributor_base(gicr_base: usize, core_id: usize) -> (b: usize)
    requires
        gicr_base + core_id * GICR_STRIDE <= usize::MAX,
    ensures
        b == gicr_base + core_id * GICR_STRIDE,
{
    gicr_base + core_id * GICR_STRIDE
}

/// What the IRQ entry does with an acknowledged interrupt id.
#[derive(Debug, Clone, Copy, PartialEq, Eq, Structural)]
pub enum IrqAction {
    /// Special id (1020 and up): return at once, no end-of-interrupt.
    Ignore,
    /// The timer tick, then end-of-interrupt.
    TimerTick,
    /// Counted as spurious, then end-of-interrupt.
    Unhandled,
}

/// What the IRQ entry does with interrupt id `intid`.
pub fn irq_action(intid: u32) -> (a: IrqAction)
    ensures
        intid >= SPURIOUS_INTID_BASE ==> a == IrqAction::Ignore,
        intid == TIMER_INTID ==> a == IrqAction::TimerTick,
        (intid < SPURIOUS_INTID_BASE && intid != TIMER_INTID) ==> a == IrqAction::Unhandled,
{
    if intid >= SPURIOUS_INTID_BASE {
        IrqAction::Ignore
    } else if intid == TIMER_INTID {
        IrqAction::TimerTick
    } else {
        IrqAction::Unhandled
    }
}

} // verus!
