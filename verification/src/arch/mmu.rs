//! Page-table descriptors of the boot identity map and the kernel's
//! virtual-to-physical offset.
use vstd::prelude::*;

verus! {

/// Descriptor is valid.
pub const PTE_VALID: u64 = 1;
/// Table descriptor (not a block).
pub const PTE_TABLE: u64 = 2;
/// Access flag.
pub const PTE_AF: u64 = 0x400;
/// Inner shareable.
pub const PTE_SH_INNER: u64 = 0x300;
/// Privileged execute-never.
pub const PTE_PXN: u64 = 0x20_0000_0000_0000;
/// Unprivileged execute-never.
pub const PTE_UXN: u64 = 0x40_0000_0000_0000;
/// Output-address bits of a table descriptor (4 KiB aligned, 48-bit).
pub const TABLE_ADDR_MASK: u64 = 0x0000_FFFF_FFFF_F000;
/// Output-address bits of a level-1 block (1 GiB aligned, 48-bit).
pub const L1_BLOCK_ADDR_MASK: u64 = 0x0000_FFFF_C000_0000;
/// MAIR index of device memory.
pub const MAIR_DEVICE_IDX: u64 = 0;
/// MAIR index of normal non-cacheable memory.
pub const MAIR_NORMAL_NC_IDX: u64 = 1;
/// MAIR index of normal write-back memory.
pub const MAIR_NORMAL_WB_IDX: u64 = 3;
/// Kernel image virtual address minus physical address (wrapping).
pub const VIRT_PHYS_OFFSET: u64 = 0xFFFE_FFFF_C000_0000;

/// Table descriptor pointing at the next-level table at `next_table_phys`.
pub open spec fn spec_table_descriptor(next_table_phys: u64) -> u64 {
    (next_table_phys & TABLE_ADDR_MASK) | PTE_TABLE | PTE_VALID
}

/// Table descriptor pointing at the next-level table at `next_table_phys`.
pub fn table_descriptor(next_table_phys: u64) -> (d: u64)
    ensures
        d == spec_table_descriptor(next_table_phys),
        d & 3 == 3,
        d & TABLE_ADDR_MASK == next_table_phys & TABLE_ADDR_MASK,
{
    let d = (next_table_phys & TABLE_ADDR_MASK) | PTE_TABLE | PTE_VALID;
    assert(d & 3 == 3 && d & TABLE_ADDR_MASK == next_table_phys & TABLE_ADDR_MASK) by (bit_vector)
        requires d == (next_table_phys & 0x0000_FFFF_FFFF_F000u64) | 2u64 | 1u64;
    d
}

/// Level-1 block descriptor mapping the 1 GiB block at `phys_addr` with
/// memory attribute `mair_idx`; non-executable blocks get PXN and UXN.
pub open spec fn spec_l1_block_descriptor(phys_addr: u64, mair_idx: u64, executable: bool) -> u64 {
    let d = (phys_addr & L1_BLOCK_ADDR_MASK) | PTE_VALID | ((mair_idx & 7) << 2) | PTE_AF | PTE_SH_INNER;
    if executable { d } else { d | PTE_PXN | PTE_UXN }
}

/// Level-1 block descriptor for the 1 GiB block at `phys_addr`.
pub fn l1_block_descriptor(phys_addr: u64, mair_idx: u64, executable: bool) -> (d: u64)
    ensures
        d == spec_l1_block_descriptor(phys_addr, mair_idx, executable),
        d & 3 == 1,
        d & L1_BLOCK_ADDR_MASK == phys_addr & L1_BLOCK_ADDR_MASK,
        (d >> 2) & 7 == mair_idx & 7,
        executable <==> d & (PTE_PXN | PTE_UXN) == 0,
{
    let mut desc = (phys_addr & L1_BLOCK_ADDR_MASK) | PTE_VALID;
    desc = desc | ((mair_idx & 0x7) << 2);
    desc = desc | PTE_AF;
    desc = desc | PTE_SH_INNER;
    if !executable {
        desc = desc | PTE_PXN | PTE_UXN;
    }
    assert(desc & 3 == 1 && desc & 0x0000_FFFF_C000_0000u64 == phys_addr & 0x0000_FFFF_C000_0000u64
        && (desc >> 2) & 7 == mair_idx & 7
        && (executable <==> desc & (0x20_0000_0000_0000u64 | 0x40_0000_0000_0000u64) == 0)) by (bit_vector)
        requires
            desc == (if executable {
                ((phys_addr & 0x0000_FFFF_C000_0000u64) | 1u64 | ((mair_idx & 7) << 2) | 0x400u64 | 0x300u64)
            } else {
                ((phys_addr & 0x0000_FFFF_C000_0000u64) | 1u64 | ((mair_idx & 7) << 2) | 0x400u64 | 0x300u64)
                    | 0x20_0000_0000_0000u64 | 0x40_0000_0000_0000u64
            });
    desc
}

/// Physical address of kernel virtual address `va` (wrapping subtraction
/// of the image offset).
pub fn virt_to_phys(va: u64) -> (pa: u64)
    ensures
        pa == (if va >= VIRT_PHYS_OFFSET { va - VIRT_PHYS_OFFSET } else { va + 0x1_0000_0000_0000_0000 - VIRT_PHYS_OFFSET }),
{
    va.wrapping_sub(VIRT_PHYS_OFFSET)
}

/// Physical address of the boot level-0 table whose kernel virtual address
/// is `l0_table_va`.
pub fn ttbr0_l0_addr(l0_table_va: u64) -> (pa: u64)
    ensures
        pa == (if l0_table_va >= VIRT_PHYS_OFFSET {
            l0_table_va - VIRT_PHYS_OFFSET
        } else {
            l0_table_va + 0x1_0000_0000_0000_0000 - VIRT_PHYS_OFFSET
        }),
{
    virt_to_phys(l0_table_va)
}

/// The MAIR, TCR and SCTLR values recorded when the boot map went live.
#[derive(Debug, Clone, Copy, PartialEq, Eq, Structural)]
pub struct BootMmuRegs {
    pub mair: u64,
    pub tcr: u64,
    pub sctlr: u64,
}

/// The recorded `(MAIR, TCR, SCTLR)` triple.
pub fn boot_mmu_regs(regs: &BootMmuRegs) -> (r: (u64, u64, u64))
    ensures
        r == (regs.mair, regs.tcr, regs.sctlr),
{
    (regs.mair, regs.tcr, regs.sctlr)
}

/// The boot identity map: the level-0 entry pointing at the level-1 table
/// at `l1_phys`, then the three 1 GiB blocks — device memory at 0
/// (non-executable), normal memory at 1 GiB (executable, the kernel) and at
/// 2 GiB (non-executable).
pub fn boot_identity_map(l1_phys: u64) -> (r: (u64, [u64; 3]))
    ensures
        r.0 == spec_table_descriptor(l1_phys),
        r.1@[0] == spec_l1_block_descriptor(0, MAIR_DEVICE_IDX, false),
        r.1@[1] == spec_l1_block_descriptor(0x4000_0000, MAIR_NORMAL_WB_IDX, true),
        r.1@[2] == spec_l1_block_descriptor(0x8000_0000, MAIR_NORMAL_WB_IDX, false),
{
    let l0 = table_descriptor(l1_phys);
    let b0 = l1_block_descriptor(0x0000_0000, MAIR_DEVICE_IDX, false);
    let b1 = l1_block_descriptor(0x4000_0000, MAIR_NORMAL_WB_IDX, true);
    let b2 = l1_block_descriptor(0x8000_0000, MAIR_NORMAL_WB_IDX, false);
    (l0, [b0, b1, b2])
}

} // verus!
