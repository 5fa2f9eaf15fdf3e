//! Shared memory regions: creation (W^X, capability-gated), per-process
//! mappings with a reference count equal to the number of mappings, sharing
//! by the creator, unmapping (the last unmap frees the region) and cleanup at
//! process exit. Page allocation and page tables are the memory manager's part.
use vstd::prelude::*;

use crate::cap::{
    check_shared_memory_access, check_shared_memory_create, first_free, grant_to_process, Capability,
    CapabilityToken, KernelCapabilitySystem, MAX_PROCESSES,
};
use crate::ids::{CapabilityTokenId, ProcessId, SharedMemoryId};
use super::IpcError;

verus! {

/// Page size.
pub const PAGE_SIZE: usize = 4096;
/// Regions the table holds.
pub const MAX_SHARED_REGIONS: usize = 64;
/// Mappings one region holds.
pub const MAX_SHARED_MAPPINGS: usize = 16;
/// Base of the user heap; region `i` is mapped at `SHM_VA_BASE + i * SHM_VA_STRIDE`.
pub const SHM_VA_BASE: u64 = 0x0000_0040_0000_0000;
/// Spacing between region address slots (1 MiB).
pub const SHM_VA_STRIDE: u64 = 0x0010_0000;
/// Kernel virtual address of physical address 0.
pub const DIRECT_MAP_BASE: u64 = 0xFFFF_0001_0000_0000;

/// Page permission flags.
#[derive(Debug, Clone, Copy, PartialEq, Eq, Structural)]
pub struct VmFlags(pub u32);

/// Readable.
pub const VM_READ: u32 = 1;
/// Writable.
pub const VM_WRITE: u32 = 2;
/// Executable.
pub const VM_EXECUTE: u32 = 4;
/// Accessible from user mode.
pub const VM_USER: u32 = 8;

impl VmFlags {
    /// Every bit of `other` is set in `self`.
    pub open spec fn spec_contains(self, other: VmFlags) -> bool {
        self.0 & other.0 == other.0
    }

    /// Every bit of `other` is set in `self`.
    #[verifier::when_used_as_spec(spec_contains)]
    pub fn contains(self, other: VmFlags) -> (b: bool)
        ensures
            b == self.spec_contains(other),
    {
        self.0 & other.0 == other.0
    }

    /// Both writable and executable: refused everywhere (W^X).
    pub open spec fn spec_is_wx(self) -> bool {
        self.0 & (VM_WRITE | VM_EXECUTE) == (VM_WRITE | VM_EXECUTE)
    }

    /// Both writable and executable: refused everywhere (W^X).
    #[verifier::when_used_as_spec(spec_is_wx)]
    pub fn is_wx(self) -> (b: bool)
        ensures
            b == self.spec_is_wx(),
    {
        self.0 & (VM_WRITE | VM_EXECUTE) == (VM_WRITE | VM_EXECUTE)
    }
}

/// `2^n`.
pub open spec fn pow2(n: nat) -> nat
    decreases n,
{
    if n == 0 { 1 } else { 2 * pow2((n - 1) as nat) }
}

/// The smallest buddy order whose block holds `pages` pages.
pub open spec fn is_order_for(pages: nat, order: nat) -> bool {
    &&& pow2(order) >= pages
    &&& (order == 0 || pow2((order - 1) as nat) < pages)
}

/// The smallest `order` with `2^order >= pages`.
pub fn order_for_pages(pages: usize) -> (order: usize)
    ensures
        is_order_for(pages as nat, order as nat),
{
    let mut order: usize = 0;
    let mut p: u128 = 1;
    while p < pages as u128
        invariant
            p == pow2(order as nat),
            p >= 1,
            order == 0 || pow2((order - 1) as nat) < pages,
            order == 0 || p <= 2 * (pages as int),
            order <= 64,
        decreases 64 - order,
    {
        proof {
            if order >= 64 {
                lemma_pow2_mono(64, order as nat);
                lemma_pow2_64();
            }
        }
        order = order + 1;
        p = p * 2;
        assert(p == pow2(order as nat));
    }
    order
}

proof fn lemma_pow2_add(a: nat, b: nat)
    ensures
        pow2(a + b) == pow2(a) * pow2(b),
    decreases a,
{
    if a > 0 {
        let a1 = (a - 1) as nat;
        lemma_pow2_add(a1, b);
        assert(a1 + b + 1 == a + b);
        assert(pow2(a + b) == 2 * pow2(a1 + b));
        assert(pow2(a) == 2 * pow2(a1));
        let x = pow2(a1);
        let y = pow2(b);
        assert(2 * (x * y) == (2 * x) * y) by (nonlinear_arith);
        assert(pow2(a + b) == 2 * (x * y));
        assert(pow2(a) * pow2(b) == (2 * x) * y);
    } else {
        assert(a + b == b);
        assert(pow2(a) == 1);
        assert(pow2(a) * pow2(b) == pow2(b));
    }
}

proof fn lemma_pow2_64()
    ensures
        pow2(64) == 0x1_0000_0000_0000_0000,
{
    assert(pow2(8) == 256) by {
        reveal_with_fuel(pow2, 9);
    }
    lemma_pow2_add(8, 8);
    assert(pow2(16) == 65536);
    lemma_pow2_add(16, 16);
    assert(pow2(32) == 0x1_0000_0000);
    lemma_pow2_add(32, 32);
}

proof fn lemma_pow2_mono(a: nat, b: nat)
    requires
        a <= b,
    ensures
        pow2(a) <= pow2(b),
    decreases b,
{
    if a < b {
        lemma_pow2_mono(a, (b - 1) as nat);
    }
}

/// Pages backing a region of `size` bytes: `size` rounded up to whole pages,
/// at least one.
pub open spec fn pages_for(size: nat) -> nat {
    let p = ((size + 4095) / 4096) as nat;
    if p == 0 { 1 } else { p }
}

/// Pages backing a region of `size` bytes.
pub fn size_pages(size: usize) -> (p: usize)
    ensures
        p == pages_for(size as nat),
{
    let q = size / PAGE_SIZE;
    let p = if size % PAGE_SIZE != 0 { q + 1 } else { q };
    proof {
        assert((size as int + 4095) / 4096 == if size % 4096 != 0 { size as int / 4096 + 1 } else { size as int / 4096 }) by (nonlinear_arith);
    }
    if p == 0 { 1 } else { p }
}

/// A process's mapping of a region.
#[derive(Debug, Clone, Copy, PartialEq, Eq, Structural)]
pub struct SharedMapping {
    pub pid: ProcessId,
    pub vaddr: u64,
    pub flags: VmFlags,
}

/// Number of occupied mapping slots.
pub open spec fn count_mapped(ms: Seq<Option<SharedMapping>>) -> nat
    decreases ms.len(),
{
    if ms.len() == 0 {
        0
    } else {
        count_mapped(ms.drop_last()) + if ms.last() is Some { 1nat } else { 0nat }
    }
}

proof fn lemma_count_update(ms: Seq<Option<SharedMapping>>, i: int, v: Option<SharedMapping>)
    requires
        0 <= i < ms.len(),
    ensures
        count_mapped(ms.update(i, v)) + (if ms[i] is Some { 1int } else { 0int }) == count_mapped(ms) + (if v is Some { 1int } else { 0int }),
    decreases ms.len(),
{
    if i == ms.len() - 1 {
        assert(ms.update(i, v).drop_last() =~= ms.drop_last());
    } else {
        lemma_count_update(ms.drop_last(), i, v);
        assert(ms.update(i, v).drop_last() =~= ms.drop_last().update(i, v));
    }
}

proof fn lemma_count_bound(ms: Seq<Option<SharedMapping>>)
    ensures
        count_mapped(ms) <= ms.len(),
    decreases ms.len(),
{
    if ms.len() > 0 {
        lemma_count_bound(ms.drop_last());
    }
}

/// A shared memory region.
pub struct SharedMemoryRegion {
    pub id: SharedMemoryId,
    pub base_phys: u64,
    /// Buddy order of the backing block (`2^order` pages).
    pub order: usize,
    pub size_bytes: usize,
    /// Active mappings; always equal to the number of occupied mapping slots.
    pub ref_count: u32,
    pub creator: ProcessId,
    /// Most permissive flags a mapping may ask for (never W+X).
    pub max_flags: VmFlags,
    pub creation_cap: Option<CapabilityTokenId>,
    pub mappings: Vec<Option<SharedMapping>>,
}

impl SharedMemoryRegion {
    pub open spec fn wf(&self) -> bool {
        &&& self.mappings@.len() == MAX_SHARED_MAPPINGS
        &&& self.ref_count == count_mapped(self.mappings@)
    }
}

/// Index of the first mapping of `pid` at or after `i`; `-1` if none.
pub open spec fn find_mapping(ms: Seq<Option<SharedMapping>>, pid: ProcessId, i: int) -> int
    decreases ms.len() - i,
{
    if i < 0 || i >= ms.len() {
        -1
    } else if ms[i] matches Some(m) && m.pid == pid {
        i
    } else {
        find_mapping(ms, pid, i + 1)
    }
}

/// Index of the first free mapping slot at or after `i`; `-1` if none.
pub open spec fn find_free_mapping(ms: Seq<Option<SharedMapping>>, i: int) -> int
    decreases ms.len() - i,
{
    if i < 0 || i >= ms.len() {
        -1
    } else if ms[i] is None {
        i
    } else {
        find_free_mapping(ms, i + 1)
    }
}

proof fn lemma_find_mapping(ms: Seq<Option<SharedMapping>>, pid: ProcessId, i: int)
    requires
        0 <= i,
    ensures
        find_mapping(ms, pid, i) < ms.len(),
        find_mapping(ms, pid, i) >= 0 ==> i <= find_mapping(ms, pid, i) && (ms[find_mapping(ms, pid, i)] matches Some(m)
            && m.pid == pid),
        find_mapping(ms, pid, i) < 0 ==> forall|j: int| i <= j < ms.len() ==> !(#[trigger] ms[j] matches Some(m) && m.pid == pid),
    decreases ms.len() - i,
{
    if i < ms.len() && !(ms[i] matches Some(m) && m.pid == pid) {
        lemma_find_mapping(ms, pid, i + 1);
    }
}

proof fn lemma_find_free_mapping(ms: Seq<Option<SharedMapping>>, i: int)
    requires
        0 <= i,
    ensures
        find_free_mapping(ms, i) < ms.len(),
        find_free_mapping(ms, i) >= 0 ==> i <= find_free_mapping(ms, i) && ms[find_free_mapping(ms, i)] is None,
    decreases ms.len() - i,
{
    if i < ms.len() && ms[i] is Some {
        lemma_find_free_mapping(ms, i + 1);
    }
}

/// What creating a region of `size` bytes needs: the authorizing token, the
/// buddy order to allocate and the region size in bytes.
#[derive(Debug, Clone, Copy, PartialEq, Eq, Structural)]
pub struct ShmPlan {
    pub token: CapabilityTokenId,
    pub order: usize,
    pub size_bytes: usize,
}

/// The region table.
pub struct SharedRegionTable {
    pub slots: Vec<Option<SharedMemoryRegion>>,
}

impl SharedRegionTable {
    pub open spec fn wf(&self) -> bool {
        &&& self.slots@.len() == MAX_SHARED_REGIONS
        &&& forall|i: int| 0 <= i < MAX_SHARED_REGIONS ==> (#[trigger] self.slots@[i] matches Some(r) ==> r.wf() && r.id.0 == i
            && !r.max_flags.spec_is_wx())
    }

    /// The region `id`, if it exists.
    pub open spec fn region(&self, id: SharedMemoryId) -> Option<SharedMemoryRegion> {
        self.slots@[id.0 as int]
    }

    /// An empty table.
    pub fn new() -> (t: SharedRegionTable)
        ensures
            t.wf(),
            forall|i: int| 0 <= i < MAX_SHARED_REGIONS ==> t.slots@[i] is None,
    {
        let mut slots: Vec<Option<SharedMemoryRegion>> = Vec::new();
        let mut i: usize = 0;
        while i < MAX_SHARED_REGIONS
            invariant
                i <= MAX_SHARED_REGIONS,
                slots@.len() == i,
                forall|j: int| 0 <= j < i ==> slots@[j] is None,
            decreases MAX_SHARED_REGIONS - i,
        {
            slots.push(None);
            i = i + 1;
        }
        SharedRegionTable { slots }
    }

    fn take(&mut self, id: SharedMemoryId) -> (r: Option<SharedMemoryRegion>)
        requires
            old(self).wf(),
            (id.0 as int) < MAX_SHARED_REGIONS,
        ensures
            r == old(self).region(id),
            final(self).slots@ == old(self).slots@.update(id.0 as int, None),
            final(self).wf(),
            r matches Some(x) ==> x.wf() && x.id == id && !x.max_flags.spec_is_wx(),
    {
        let mut taken: Option<SharedMemoryRegion> = None;
        self.slots.set_and_swap(id.0 as usize, &mut taken);
        proof {
            assert(old(self).slots@[id.0 as int] matches Some(x) ==> x.wf() && x.id.0 == id.0 && !x.max_flags.spec_is_wx());
            assert forall|j: int| 0 <= j < MAX_SHARED_REGIONS && j != id.0 implies self.slots@[j] == old(self).slots@[j] by {}
        }
        taken
    }

    fn put(&mut self, id: SharedMemoryId, r: SharedMemoryRegion)
        requires
            old(self).wf(),
            (id.0 as int) < MAX_SHARED_REGIONS,
            r.wf(),
            r.id == id,
            !r.max_flags.spec_is_wx(),
        ensures
            final(self).slots@ == old(self).slots@.update(id.0 as int, Some(r)),
            final(self).wf(),
    {
        let mut put = Some(r);
        self.slots.set_and_swap(id.0 as usize, &mut put);
        proof {
            assert forall|j: int| 0 <= j < MAX_SHARED_REGIONS && j != id.0 implies self.slots@[j] == old(self).slots@[j] by {}
        }
    }
    /// Record a new region in the first free slot: created by `pid` under
    /// `plan`, backed at `base_phys`, no mappings yet. `Enospc` when the
    /// table is full (the caller frees the pages).
    pub fn create(&mut self, pid: ProcessId, plan: ShmPlan, flags: VmFlags, base_phys: u64) -> (r: Result<SharedMemoryId, IpcError>)
        requires
            old(self).wf(),
            !flags.spec_is_wx(),
        ensures
            final(self).wf(),
            (forall|i: int| 0 <= i < MAX_SHARED_REGIONS ==> old(self).slots@[i] is Some) <==> r is Err,
            r is Err ==> r == Err::<SharedMemoryId, IpcError>(IpcError::Enospc) && final(self).slots@ == old(self).slots@,
            r matches Ok(id) ==> {
                &&& (id.0 as int) < MAX_SHARED_REGIONS
                &&& old(self).slots@[id.0 as int] is None
                &&& forall|j: int| 0 <= j < id.0 ==> old(self).slots@[j] is Some
                &&& forall|j: int| 0 <= j < MAX_SHARED_REGIONS && j != id.0 ==> final(self).slots@[j] == old(self).slots@[j]
                &&& final(self).region(id) matches Some(rg) && rg.id == id && rg.base_phys == base_phys
                    && rg.order == plan.order && rg.size_bytes == plan.size_bytes && rg.ref_count == 0
                    && rg.creator == pid && rg.max_flags == flags && rg.creation_cap == Some(plan.token)
                    && forall|k: int| 0 <= k < MAX_SHARED_MAPPINGS ==> rg.mappings@[k] is None
            },
    {
        let mut i: usize = 0;
        while i < MAX_SHARED_REGIONS
            invariant
                i <= MAX_SHARED_REGIONS,
                self.wf(),
                !flags.spec_is_wx(),
                self.slots@ == old(self).slots@,
                forall|j: int| 0 <= j < i ==> self.slots@[j] is Some,
            decreases MAX_SHARED_REGIONS - i,
        {
            if self.slots[i].is_none() {
                let mut mappings: Vec<Option<SharedMapping>> = Vec::new();
                let mut k: usize = 0;
                while k < MAX_SHARED_MAPPINGS
                    invariant
                        k <= MAX_SHARED_MAPPINGS,
                        mappings@.len() == k,
                        forall|j: int| 0 <= j < k ==> mappings@[j] is None,
                        count_mapped(mappings@) == 0,
                    decreases MAX_SHARED_MAPPINGS - k,
                {
                    proof {
                        assert(mappings@.push(None).drop_last() =~= mappings@);
                    }
                    mappings.push(None);
                    k = k + 1;
                }
                let id = SharedMemoryId(i as u32);
                let rg = SharedMemoryRegion {
                    id,
                    base_phys,
                    order: plan.order,
                    size_bytes: plan.size_bytes,
                    ref_count: 0,
                    creator: pid,
                    max_flags: flags,
                    creation_cap: Some(plan.token),
                    mappings,
                };
                self.put(id, rg);
                return Ok(id);
            }
            i = i + 1;
        }
        Err(IpcError::Enospc)
    }

    /// Add a mapping of region `id` for `pid` with `flags`, in the first
    /// free mapping slot, at the region's address slot; the reference count
    /// goes up by one. `Epipe` for a missing region, `Eperm` when `flags`
    /// exceed the region's maximum, `Eexist` when `pid` has it mapped already,
    /// `Enospc` when every mapping slot is taken.
    pub fn add_mapping(&mut self, pid: ProcessId, id: SharedMemoryId, flags: VmFlags) -> (r: Result<u64, IpcError>)
        requires
            old(self).wf(),
            (id.0 as int) < MAX_SHARED_REGIONS,
        ensures
            final(self).wf(),
            r is Err ==> final(self).slots@ == old(self).slots@,
            old(self).region(id) is None ==> r == Err::<u64, IpcError>(IpcError::Epipe),
            old(self).region(id) matches Some(rg) ==> {
                let dup = find_mapping(rg.mappings@, pid, 0) >= 0;
                let k = find_free_mapping(rg.mappings@, 0);
                let va = (SHM_VA_BASE + id.0 * SHM_VA_STRIDE) as u64;
                &&& !rg.max_flags.spec_contains(flags) ==> r == Err::<u64, IpcError>(IpcError::Eperm)
                &&& (rg.max_flags.spec_contains(flags) && dup) ==> r == Err::<u64, IpcError>(IpcError::Eexist)
                &&& (rg.max_flags.spec_contains(flags) && !dup && k < 0) ==> r == Err::<u64, IpcError>(IpcError::Enospc)
                &&& (rg.max_flags.spec_contains(flags) && !dup && k >= 0) ==> {
                    &&& r == Ok::<u64, IpcError>(va)
                    &&& final(self).slots@ == old(self).slots@.update(
                        id.0 as int,
                        Some(SharedMemoryRegion {
                            ref_count: (rg.ref_count + 1) as u32,
                            mappings: final(self).region(id)->Some_0.mappings,
                            ..rg
                        }),
                    )
                    &&& final(self).region(id)->Some_0.mappings@ == rg.mappings@.update(
                        k,
                        Some(SharedMapping { pid, vaddr: va, flags }),
                    )
                }
            },
    {
        match self.take(id) {
            None => {
                proof {
                    assert(self.slots@ =~= old(self).slots@);
                }
                Err(IpcError::Epipe)
            },
            Some(mut rg) => {
                let ghost rg0 = rg;
                if !rg.max_flags.contains(flags) {
                    self.put(id, rg);
                    proof {
                        assert(self.slots@ =~= old(self).slots@);
                    }
                    return Err(IpcError::Eperm);
                }
                let mut i: usize = 0;
                while i < MAX_SHARED_MAPPINGS
                    invariant
                        i <= MAX_SHARED_MAPPINGS,
                        rg == rg0,
                        rg.wf(),
                        self.wf(),
                        old(self).wf(),
                        (id.0 as int) < MAX_SHARED_REGIONS,
                        rg0.id == id,
                        !rg0.max_flags.spec_is_wx(),
                        old(self).region(id) == Some(rg0),
                        self.slots@ == old(self).slots@.update(id.0 as int, None),
                        rg0.max_flags.spec_contains(flags),
                        find_mapping(rg.mappings@, pid, 0) == find_mapping(rg.mappings@, pid, i as int),
                    decreases MAX_SHARED_MAPPINGS - i,
                {
                    match rg.mappings[i] {
                        Some(m) => {
                            if m.pid == pid {
                                self.put(id, rg);
                                proof {
                                    assert(self.slots@ =~= old(self).slots@);
                                }
                                return Err(IpcError::Eexist);
                            }
                        },
                        None => {},
                    }
                    i = i + 1;
                }
                let mut j: usize = 0;
                while j < MAX_SHARED_MAPPINGS
                    invariant
                        j <= MAX_SHARED_MAPPINGS,
                        rg == rg0,
                        rg.wf(),
                        self.wf(),
                        old(self).wf(),
                        (id.0 as int) < MAX_SHARED_REGIONS,
                        rg0.id == id,
                        !rg0.max_flags.spec_is_wx(),
                        old(self).region(id) == Some(rg0),
                        self.slots@ == old(self).slots@.update(id.0 as int, None),
                        rg0.max_flags.spec_contains(flags),
                        find_mapping(rg0.mappings@, pid, 0) < 0,
                        find_free_mapping(rg.mappings@, 0) == find_free_mapping(rg.mappings@, j as int),
                    decreases MAX_SHARED_MAPPINGS - j,
                {
                    if rg.mappings[j].is_none() {
                        let va: u64 = SHM_VA_BASE + (id.0 as u64) * SHM_VA_STRIDE;
                        proof {
                            lemma_count_update(rg.mappings@, j as int, Some(SharedMapping { pid, vaddr: va, flags }));
                            lemma_count_bound(rg.mappings@);
                        }
                        rg.mappings.set(j, Some(SharedMapping { pid, vaddr: va, flags }));
                        rg.ref_count = rg.ref_count + 1;
                        self.put(id, rg);
                        return Ok(va);
                    }
                    j = j + 1;
                }
                self.put(id, rg);
                proof {
                    assert(self.slots@ =~= old(self).slots@);
                }
                Err(IpcError::Enospc)
            },
        }
    }

    /// Remove `pid`'s mapping of region `id`; the reference count drops by
    /// one, and when it reaches zero the region leaves the table and its
    /// backing block `(base_phys, order)` is returned for freeing. `Epipe`
    /// for a missing region, `Eperm` when `pid` has no mapping of it.
    pub fn remove_mapping(&mut self, pid: ProcessId, id: SharedMemoryId) -> (r: Result<Option<(u64, usize)>, IpcError>)
        requires
            old(self).wf(),
            (id.0 as int) < MAX_SHARED_REGIONS,
        ensures
            final(self).wf(),
            r is Err ==> final(self).slots@ == old(self).slots@,
            old(self).region(id) is None ==> r == Err::<Option<(u64, usize)>, IpcError>(IpcError::Epipe),
            old(self).region(id) matches Some(rg) ==> {
                let k = find_mapping(rg.mappings@, pid, 0);
                &&& k < 0 ==> r == Err::<Option<(u64, usize)>, IpcError>(IpcError::Eperm)
                &&& (k >= 0 && rg.ref_count == 1) ==> {
                    &&& r == Ok::<Option<(u64, usize)>, IpcError>(Some((rg.base_phys, rg.order)))
                    &&& final(self).slots@ == old(self).slots@.update(id.0 as int, None)
                }
                &&& (k >= 0 && rg.ref_count != 1) ==> {
                    &&& r == Ok::<Option<(u64, usize)>, IpcError>(None)
                    &&& rg.ref_count > 1
                    &&& final(self).slots@ == old(self).slots@.update(
                        id.0 as int,
                        Some(SharedMemoryRegion {
                            ref_count: (rg.ref_count - 1) as u32,
                            mappings: final(self).region(id)->Some_0.mappings,
                            ..rg
                        }),
                    )
                    &&& final(self).region(id)->Some_0.mappings@ == rg.mappings@.update(k, None)
                }
            },
    {
        match self.take(id) {
            None => {
                proof {
                    assert(self.slots@ =~= old(self).slots@);
                }
                Err(IpcError::Epipe)
            },
            Some(mut rg) => {
                let ghost rg0 = rg;
                let mut i: usize = 0;
                while i < MAX_SHARED_MAPPINGS
                    invariant
                        i <= MAX_SHARED_MAPPINGS,
                        rg == rg0,
                        rg.wf(),
                        self.wf(),
                        old(self).wf(),
                        (id.0 as int) < MAX_SHARED_REGIONS,
                        rg0.id == id,
                        !rg0.max_flags.spec_is_wx(),
                        old(self).region(id) == Some(rg0),
                        self.slots@ == old(self).slots@.update(id.0 as int, None),
                        find_mapping(rg.mappings@, pid, 0) == find_mapping(rg.mappings@, pid, i as int),
                    decreases MAX_SHARED_MAPPINGS - i,
                {
                    match rg.mappings[i] {
                        Some(m) => {
                            if m.pid == pid {
                                proof {
                                    lemma_count_update(rg.mappings@, i as int, None);
                                }
                                rg.mappings.set(i, None);
                                let old_ref = rg.ref_count;
                                rg.ref_count = rg.ref_count - 1;
                                if old_ref == 1 {
                                    return Ok(Some((rg.base_phys, rg.order)));
                                }
                                self.put(id, rg);
                                return Ok(None);
                            }
                        },
                        None => {},
                    }
                    i = i + 1;
                }
                self.put(id, rg);
                proof {
                    assert(self.slots@ =~= old(self).slots@);
                }
                Err(IpcError::Eperm)
            },
        }
    }
    /// The creator of region `id`; `Epipe` for a missing region.
    pub fn creator_of(&self, id: SharedMemoryId) -> (r: Result<ProcessId, IpcError>)
        requires
            self.wf(),
            (id.0 as int) < MAX_SHARED_REGIONS,
        ensures
            self.region(id) is None ==> r == Err::<ProcessId, IpcError>(IpcError::Epipe),
            self.region(id) matches Some(rg) ==> r == Ok::<ProcessId, IpcError>(rg.creator),
    {
        match &self.slots[id.0 as usize] {
            Some(rg) => Ok(rg.creator),
            None => Err(IpcError::Epipe),
        }
    }
}

/// Slot `new` is slot `old` after process `pid` exits: a region it had
/// mapped loses that mapping and one reference, and leaves the table when
/// that was its last reference; other slots stay as they were.
pub open spec fn cleaned_slot(old: Option<SharedMemoryRegion>, new: Option<SharedMemoryRegion>, pid: ProcessId) -> bool {
    match old {
        None => new is None,
        Some(rg) => {
            let k = find_mapping(rg.mappings@, pid, 0);
            if k < 0 {
                new == old
            } else if rg.ref_count == 1 {
                new is None
            } else {
                new matches Some(n) && n == SharedMemoryRegion { ref_count: (rg.ref_count - 1) as u32, mappings: n.mappings, ..rg }
                    && n.mappings@ == rg.mappings@.update(k, None)
            }
        },
    }
}

/// The backing blocks `(base_phys, order)` freed by process `pid` exiting,
/// among the first `n` slots, in slot order.
pub open spec fn freed_prefix(slots: Seq<Option<SharedMemoryRegion>>, pid: ProcessId, n: int) -> Seq<(u64, usize)>
    decreases n,
{
    if n <= 0 {
        Seq::empty()
    } else {
        let rest = freed_prefix(slots, pid, n - 1);
        if slots[n - 1] matches Some(rg) && find_mapping(rg.mappings@, pid, 0) >= 0 && rg.ref_count == 1 {
            rest.push((slots[n - 1]->Some_0.base_phys, slots[n - 1]->Some_0.order))
        } else {
            rest
        }
    }
}

/// Process `pid` exits: drop its mapping of every region (one reference
/// each); regions left without references leave the table, and their
/// backing blocks are returned for freeing, in slot order.
pub fn process_cleanup_shared_memory(regions: &mut SharedRegionTable, pid: ProcessId) -> (freed: Vec<(u64, usize)>)
    requires
        old(regions).wf(),
    ensures
        final(regions).wf(),
        freed@ == freed_prefix(old(regions).slots@, pid, MAX_SHARED_REGIONS as int),
        forall|i: int| 0 <= i < MAX_SHARED_REGIONS ==> cleaned_slot(old(regions).slots@[i], #[trigger] final(regions).slots@[i], pid),
{
    let mut freed: Vec<(u64, usize)> = Vec::new();
    let mut i: usize = 0;
    while i < MAX_SHARED_REGIONS
        invariant
            i <= MAX_SHARED_REGIONS,
            regions.wf(),
            old(regions).wf(),
            freed@ == freed_prefix(old(regions).slots@, pid, i as int),
            forall|j: int| 0 <= j < i ==> cleaned_slot(old(regions).slots@[j], #[trigger] regions.slots@[j], pid),
            forall|j: int| i <= j < MAX_SHARED_REGIONS ==> #[trigger] regions.slots@[j] == old(regions).slots@[j],
        decreases MAX_SHARED_REGIONS - i,
    {
        let id = SharedMemoryId(i as u32);
        let ghost before = regions.slots@;
        let r = regions.remove_mapping(pid, id);
        match r {
            Ok(Some(block)) => {
                freed.push(block);
            },
            _ => {},
        }
        proof {
            let o = old(regions).slots@[i as int];
            assert(before[i as int] == o);
            if o is Some {
                lemma_find_mapping(o->Some_0.mappings@, pid, 0);
            }
            assert forall|j: int| 0 <= j < MAX_SHARED_REGIONS && j != i implies #[trigger] regions.slots@[j] == before[j] by {}
        }
        i = i + 1;
    }
    freed
}

/// Kernel address of region `id`'s backing memory through the direct map.
pub fn region_dmap_addr(regions: &SharedRegionTable, id: SharedMemoryId) -> (a: Option<u64>)
    requires
        regions.wf(),
        (id.0 as int) < MAX_SHARED_REGIONS,
    ensures
        a == match regions.region(id) {
            Some(rg) => Some(((DIRECT_MAP_BASE + rg.base_phys) % 0x1_0000_0000_0000_0000) as u64),
            None => None,
        },
{
    match &regions.slots[id.0 as usize] {
        Some(rg) => {
            let a = DIRECT_MAP_BASE.wrapping_add(rg.base_phys);
            Some(a)
        },
        None => None,
    }
}

/// Size in bytes of region `id`.
pub fn region_size(regions: &SharedRegionTable, id: SharedMemoryId) -> (s: Option<usize>)
    requires
        regions.wf(),
        (id.0 as int) < MAX_SHARED_REGIONS,
    ensures
        s == match regions.region(id) {
            Some(rg) => Some(rg.size_bytes),
            None => None,
        },
{
    match &regions.slots[id.0 as usize] {
        Some(rg) => Some(rg.size_bytes),
        None => None,
    }
}

/// The region whose address slot holds `va`, for an address inside the
/// shared-memory window.
pub fn shm_region_of(va: u64) -> (r: Option<SharedMemoryId>)
    ensures
        (SHM_VA_BASE <= va < SHM_VA_BASE + MAX_SHARED_REGIONS * SHM_VA_STRIDE) ==> r == Some(
            SharedMemoryId(((va - SHM_VA_BASE) / (SHM_VA_STRIDE as int)) as u32),
        ),
        !(SHM_VA_BASE <= va < SHM_VA_BASE + MAX_SHARED_REGIONS * SHM_VA_STRIDE) ==> r is None,
        r matches Some(id) ==> (id.0 as int) < MAX_SHARED_REGIONS,
{
    if SHM_VA_BASE <= va && va < SHM_VA_BASE + (MAX_SHARED_REGIONS as u64) * SHM_VA_STRIDE {
        let idx = (va - SHM_VA_BASE) / SHM_VA_STRIDE;
        Some(SharedMemoryId(idx as u32))
    } else {
        None
    }
}

/// The first half of creating a region of `size` bytes with `flags` for
/// `pid`: `Eperm` for writable+executable flags (W^X), then the
/// `SharedMemoryCreate` check; on success the token, the buddy order to
/// allocate and the region size (whole pages, at least one).
pub fn shared_memory_prepare(caps: &KernelCapabilitySystem, pid: ProcessId, size: usize, flags: VmFlags, now: u64) -> (r: Result<ShmPlan, IpcError>)
    requires
        caps.wf(),
        pages_for(size as nat) * PAGE_SIZE <= usize::MAX,
    ensures
        flags.spec_is_wx() ==> r == Err::<ShmPlan, IpcError>(IpcError::Eperm),
        (!flags.spec_is_wx() && (pid.0 as int) >= MAX_PROCESSES) ==> r == Err::<ShmPlan, IpcError>(IpcError::Einval),
        (!flags.spec_is_wx() && (pid.0 as int) < MAX_PROCESSES) ==> {
            &&& r is Ok <==> caps.process_permits(pid, Capability::SharedMemoryCreate, now)
            &&& r is Err ==> r == Err::<ShmPlan, IpcError>(IpcError::Eperm)
            &&& r matches Ok(plan) ==> {
                &&& plan.token == caps.authorizing_token(pid, Capability::SharedMemoryCreate, now)
                &&& is_order_for(pages_for(size as nat), plan.order as nat)
                &&& plan.size_bytes == pages_for(size as nat) * PAGE_SIZE
            }
        },
{
    if flags.is_wx() {
        return Err(IpcError::Eperm);
    }
    let token = match check_shared_memory_create(caps, pid, now) {
        Ok(t) => t,
        Err(e) => {
            return Err(e);
        },
    };
    let pages = size_pages(size);
    let order = order_for_pages(pages);
    Ok(ShmPlan { token, order, size_bytes: pages * PAGE_SIZE })
}

/// The second half of creating a region: record it (backed by the block the
/// allocator returned, `None` when it had none) and grant the creator a
/// delegatable `SharedMemoryAccess` to it. `Enospc` when there was no block
/// or the region table is full.
pub fn shared_memory_create(
    regions: &mut SharedRegionTable,
    caps: &mut KernelCapabilitySystem,
    pid: ProcessId,
    plan: ShmPlan,
    flags: VmFlags,
    base_phys: Option<u64>,
    now: u64,
) -> (r: Result<SharedMemoryId, IpcError>)
    requires
        old(regions).wf(),
        old(caps).wf(),
    ensures
        final(regions).wf(),
        final(caps).wf(),
        flags.spec_is_wx() ==> r == Err::<SharedMemoryId, IpcError>(IpcError::Eperm) && final(regions).slots@ == old(regions).slots@,
        (!flags.spec_is_wx() && base_phys is None) ==> r == Err::<SharedMemoryId, IpcError>(IpcError::Enospc) && final(regions).slots@ == old(regions).slots@,
        (!flags.spec_is_wx() && base_phys is Some) ==> {
            let b = base_phys->Some_0;
            &&& (forall|i: int| 0 <= i < MAX_SHARED_REGIONS ==> old(regions).slots@[i] is Some) <==> r is Err
            &&& r is Err ==> r == Err::<SharedMemoryId, IpcError>(IpcError::Enospc) && final(regions).slots@ == old(regions).slots@
            &&& r matches Ok(id) ==> {
                &&& (id.0 as int) < MAX_SHARED_REGIONS
                &&& old(regions).slots@[id.0 as int] is None
                &&& forall|j: int| 0 <= j < id.0 ==> old(regions).slots@[j] is Some
                &&& forall|j: int| 0 <= j < MAX_SHARED_REGIONS && j != id.0 ==> final(regions).slots@[j] == old(regions).slots@[j]
                &&& final(regions).region(id) matches Some(rg) && rg.id == id && rg.base_phys == b
                    && rg.order == plan.order && rg.size_bytes == plan.size_bytes && rg.ref_count == 0
                    && rg.creator == pid && rg.max_flags == flags && rg.creation_cap == Some(plan.token)
                &&& old(caps).has_process(pid) ==> {
                    let k = first_free(old(caps).tokens_of(pid), 0);
                    k >= 0 ==> final(caps).tokens_of(pid) == old(caps).tokens_of(pid).update(
                        k,
                        Some(CapabilityToken {
                            id: CapabilityTokenId(old(caps).next_token_id),
                            capability: Capability::SharedMemoryAccess(id.0),
                            holder: pid,
                            delegatable: true,
                            revoked: false,
                            parent_token: None,
                            usage_count: 0,
                            created_at_tick: now,
                            expires_at_tick: None,
                        }),
                    )
                }
            }
        },
{
    if flags.is_wx() {
        return Err(IpcError::Eperm);
    }
    let b = match base_phys {
        Some(b) => b,
        None => {
            return Err(IpcError::Enospc);
        },
    };
    let id = match regions.create(pid, plan, flags, b) {
        Ok(id) => id,
        Err(e) => {
            return Err(e);
        },
    };
    // A failed grant leaves the region in place; the creator can still be
    // granted access later.
    let _ = grant_to_process(caps, pid, Capability::SharedMemoryAccess(id.0), true, now);
    Ok(id)
}

/// Map region `id` into process `pid` with `flags`: `Eperm` for W+X flags,
/// then the `SharedMemoryAccess` check (`Einval` / `Eperm`), then the table
/// rules of `add_mapping`. On success the mapping's virtual address.
pub fn shared_memory_map(
    regions: &mut SharedRegionTable,
    caps: &KernelCapabilitySystem,
    pid: ProcessId,
    id: SharedMemoryId,
    flags: VmFlags,
    now: u64,
) -> (r: Result<u64, IpcError>)
    requires
        old(regions).wf(),
        caps.wf(),
        (id.0 as int) < MAX_SHARED_REGIONS,
    ensures
        final(regions).wf(),
        r is Err ==> final(regions).slots@ == old(regions).slots@,
        flags.spec_is_wx() ==> r == Err::<u64, IpcError>(IpcError::Eperm),
        (!flags.spec_is_wx() && (pid.0 as int) >= MAX_PROCESSES) ==> r == Err::<u64, IpcError>(IpcError::Einval),
        (!flags.spec_is_wx() && (pid.0 as int) < MAX_PROCESSES && !caps.process_permits(
            pid,
            Capability::SharedMemoryAccess(id.0),
            now,
        )) ==> r == Err::<u64, IpcError>(IpcError::Eperm),
        (!flags.spec_is_wx() && (pid.0 as int) < MAX_PROCESSES && caps.process_permits(
            pid,
            Capability::SharedMemoryAccess(id.0),
            now,
        )) ==> {
            &&& old(regions).region(id) is None ==> r == Err::<u64, IpcError>(IpcError::Epipe)
            &&& old(regions).region(id) matches Some(rg) ==> {
                let dup = find_mapping(rg.mappings@, pid, 0) >= 0;
                let k = find_free_mapping(rg.mappings@, 0);
                let va = (SHM_VA_BASE + id.0 * SHM_VA_STRIDE) as u64;
                &&& !rg.max_flags.spec_contains(flags) ==> r == Err::<u64, IpcError>(IpcError::Eperm)
                &&& (rg.max_flags.spec_contains(flags) && dup) ==> r == Err::<u64, IpcError>(IpcError::Eexist)
                &&& (rg.max_flags.spec_contains(flags) && !dup && k < 0) ==> r == Err::<u64, IpcError>(IpcError::Enospc)
                &&& (rg.max_flags.spec_contains(flags) && !dup && k >= 0) ==> {
                    &&& r == Ok::<u64, IpcError>(va)
                    &&& final(regions).region(id) matches Some(n)
                    &&& n == SharedMemoryRegion { ref_count: (rg.ref_count + 1) as u32, mappings: n.mappings, ..rg }
                    &&& n.mappings@ == rg.mappings@.update(k, Some(SharedMapping { pid, vaddr: va, flags }))
                    &&& forall|j: int| 0 <= j < MAX_SHARED_REGIONS && j != id.0 ==> final(regions).slots@[j] == old(regions).slots@[j]
                }
            }
        },
{
    if flags.is_wx() {
        return Err(IpcError::Eperm);
    }
    match check_shared_memory_access(caps, pid, id.0, now) {
        Ok(()) => {},
        Err(e) => {
            return Err(e);
        },
    }
    regions.add_mapping(pid, id, flags)
}

/// Unmap region `id` from process `pid` (see `remove_mapping`); needs no
/// capability. On success the backing block to free, when this was the
/// last mapping.
pub fn shared_memory_unmap(regions: &mut SharedRegionTable, pid: ProcessId, id: SharedMemoryId) -> (r: Result<Option<(u64, usize)>, IpcError>)
    requires
        old(regions).wf(),
        (id.0 as int) < MAX_SHARED_REGIONS,
    ensures
        final(regions).wf(),
        r is Err ==> final(regions).slots@ == old(regions).slots@,
        old(regions).region(id) is None ==> r == Err::<Option<(u64, usize)>, IpcError>(IpcError::Epipe),
        old(regions).region(id) matches Some(rg) ==> {
            let k = find_mapping(rg.mappings@, pid, 0);
            &&& k < 0 ==> r == Err::<Option<(u64, usize)>, IpcError>(IpcError::Eperm)
            &&& (k >= 0 && rg.ref_count == 1) ==> r == Ok::<Option<(u64, usize)>, IpcError>(Some((rg.base_phys, rg.order)))
                && final(regions).slots@ == old(regions).slots@.update(id.0 as int, None)
            &&& (k >= 0 && rg.ref_count != 1) ==> (r == Ok::<Option<(u64, usize)>, IpcError>(None)
                && (final(regions).region(id) matches Some(n)
                && n == SharedMemoryRegion { ref_count: (rg.ref_count - 1) as u32, mappings: n.mappings, ..rg }
                && n.mappings@ == rg.mappings@.update(k, None)))
        },
{
    regions.remove_mapping(pid, id)
}

/// Share region `id` from its creator `pid` with `target_pid`, by granting
/// the target a non-delegatable `SharedMemoryAccess`. `Epipe` for a missing
/// region, `Eperm` when `pid` is not the creator; then the grant's errors.
pub fn shared_memory_share(
    regions: &SharedRegionTable,
    caps: &mut KernelCapabilitySystem,
    pid: ProcessId,
    id: SharedMemoryId,
    target_pid: ProcessId,
    now: u64,
) -> (r: Result<(), IpcError>)
    requires
        regions.wf(),
        old(caps).wf(),
        (id.0 as int) < MAX_SHARED_REGIONS,
    ensures
        final(caps).wf(),
        regions.region(id) is None ==> r == Err::<(), IpcError>(IpcError::Epipe) && final(caps).procs@ == old(caps).procs@,
        regions.region(id) matches Some(rg) ==> {
            &&& rg.creator != pid ==> r == Err::<(), IpcError>(IpcError::Eperm) && final(caps).procs@ == old(caps).procs@
            &&& rg.creator == pid ==> {
                &&& (target_pid.0 as int) >= MAX_PROCESSES ==> r == Err::<(), IpcError>(IpcError::Einval)
                &&& ((target_pid.0 as int) < MAX_PROCESSES && !old(caps).has_process(target_pid)) ==> r == Err::<(), IpcError>(
                    IpcError::Eperm,
                )
                &&& old(caps).has_process(target_pid) ==> {
                    let k = first_free(old(caps).tokens_of(target_pid), 0);
                    &&& k < 0 ==> r == Err::<(), IpcError>(IpcError::Enospc)
                    &&& k >= 0 ==> r is Ok && final(caps).tokens_of(target_pid) == old(caps).tokens_of(target_pid).update(
                        k,
                        Some(CapabilityToken {
                            id: CapabilityTokenId(old(caps).next_token_id),
                            capability: Capability::SharedMemoryAccess(id.0),
                            holder: target_pid,
                            delegatable: false,
                            revoked: false,
                            parent_token: None,
                            usage_count: 0,
                            created_at_tick: now,
                            expires_at_tick: None,
                        }),
                    )
                }
            }
        },
{
    let creator = match regions.creator_of(id) {
        Ok(c) => c,
        Err(e) => {
            return Err(e);
        },
    };
    if creator != pid {
        return Err(IpcError::Eperm);
    }
    match grant_to_process(caps, target_pid, Capability::SharedMemoryAccess(id.0), false, now) {
        Ok(_) => Ok(()),
        Err(e) => Err(e),
    }
}

} // verus!
