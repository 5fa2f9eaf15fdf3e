//! When a device tree blob can be walked by `fdt_parser` without a panic or
//! a hang: a model of the crate's token walk over the struct block.
//!
//! The crate reads the struct block token by token from the header's
//! struct offset. A begin-node token is followed by the NUL-terminated
//! node name, padded to four bytes; a property token by its length, its
//! name offset into the strings block and its value, padded to four bytes;
//! end-node, nop and unknown tokens are four bytes; the end token stops
//! the walk, and so does a record that does not fit. At each begin-node
//! the crate first scans the node's properties ahead for `#address-cells`,
//! `#size-cells` and `ranges` and keeps them, per open node, for the `reg`
//! of its children. Every walk the library asks for (all nodes, path and
//! compatible searches, children, a node's properties) reads records of
//! this one sequence.
use vstd::prelude::*;

use crate::dtb::{be_u32, fdt_offsets_ok};

verus! {

/// `x` rounded up to a multiple of four.
pub open spec fn align4(x: int) -> int {
    ((x + 3) / 4) * 4
}

pub proof fn lemma_align4(x: int)
    requires
        x >= 0,
    ensures
        x <= align4(x) <= x + 3,
{
    assert(x <= ((x + 3) / 4) * 4 <= x + 3) by (nonlinear_arith)
        requires
            x >= 0,
    ;
}

/// Index of the first zero byte of `data` at or after `i`; -1 when none.
pub open spec fn nul_from(data: Seq<u8>, i: int) -> int
    decreases data.len() - i,
{
    if i < 0 || i >= data.len() {
        -1
    } else if data[i] == 0 {
        i
    } else {
        nul_from(data, i + 1)
    }
}

pub proof fn lemma_nul_from(data: Seq<u8>, i: int)
    ensures
        nul_from(data, i) < 0 || (i <= nul_from(data, i) < data.len() && data[nul_from(data, i)] == 0),
    decreases data.len() - i,
{
    if 0 <= i < data.len() && data[i] != 0 {
        lemma_nul_from(data, i + 1);
    }
}

/// The bytes at `at` are the NUL-terminated string `s`.
pub open spec fn str_at(data: Seq<u8>, at: int, s: Seq<u8>) -> bool {
    &&& 0 <= at
    &&& at + s.len() < data.len()
    &&& forall|i: int| 0 <= i < s.len() ==> data[at + i] == s[i]
    &&& data[at + s.len()] == 0
}

/// `#address-cells`.
pub open spec fn address_cells_name() -> Seq<u8> {
    seq![35u8, 97, 100, 100, 114, 101, 115, 115, 45, 99, 101, 108, 108, 115]
}

/// `#size-cells`.
pub open spec fn size_cells_name() -> Seq<u8> {
    seq![35u8, 115, 105, 122, 101, 45, 99, 101, 108, 108, 115]
}

/// `ranges`.
pub open spec fn ranges_name() -> Seq<u8> {
    seq![114u8, 97, 110, 103, 101, 115]
}

/// `reg`.
pub open spec fn reg_name() -> Seq<u8> {
    seq![114u8, 101, 103]
}

/// What the look-ahead over a node's properties finds: the last
/// `#address-cells` and `#size-cells` values the crate reads (the low byte
/// of a value of at least four bytes), whether some `ranges` has a value,
/// whether some property is named `reg`.
pub ghost struct PropScan {
    pub addr: Option<int>,
    pub size: Option<int>,
    pub ranges: bool,
    pub reg: bool,
}

/// Nothing found.
pub open spec fn no_props() -> PropScan {
    PropScan { addr: None, size: None, ranges: false, reg: false }
}

/// The scan of the records from `first` on, a later value winning.
pub open spec fn merge_scan(first: PropScan, rest: PropScan) -> PropScan {
    PropScan {
        addr: if rest.addr is Some { rest.addr } else { first.addr },
        size: if rest.size is Some { rest.size } else { first.size },
        ranges: first.ranges || rest.ranges,
        reg: first.reg || rest.reg,
    }
}

/// What one property record at `q` (value length `len`, name at `at`)
/// contributes to the scan.
pub open spec fn prop_contrib(data: Seq<u8>, q: int, len: int, at: int) -> PropScan {
    let word = if len >= 4 { Some(be_u32(data, q + 12) % 256) } else { None };
    PropScan {
        addr: if str_at(data, at, address_cells_name()) { word } else { None },
        size: if str_at(data, at, size_cells_name()) { word } else { None },
        ranges: str_at(data, at, ranges_name()) && len > 0,
        reg: str_at(data, at, reg_name()),
    }
}

/// The crate's look-ahead over the properties of a node whose body starts
/// at `q`, up to the next begin-node, end-node or end token (nop and
/// unknown tokens are skipped), or to a record that does not fit.
pub open spec fn prop_scan(data: Seq<u8>, strings: int, q: int) -> PropScan
    decreases data.len() - q,
{
    if q < 0 || q + 4 > data.len() {
        no_props()
    } else {
        let tok = be_u32(data, q);
        if tok == 3 {
            if q + 12 > data.len() {
                no_props()
            } else {
                let len = be_u32(data, q + 4);
                let next = q + 12 + align4(len);
                proof {
                    lemma_align4(len);
                }
                if next > data.len() {
                    no_props()
                } else {
                    merge_scan(prop_contrib(data, q, len, strings + be_u32(data, q + 8)), prop_scan(data, strings, next))
                }
            }
        } else if tok == 1 || tok == 2 || tok == 9 {
            no_props()
        } else {
            prop_scan(data, strings, q + 4)
        }
    }
}

/// The cells and ranges the crate keeps for an open node.
pub ghost struct CellFrame {
    pub addr: int,
    pub size: int,
    pub ranges: bool,
}

/// A child's `reg` can be read under this frame without a panic: one or
/// two address cells, at most two size cells, and no `ranges` entries to
/// translate through.
pub open spec fn frame_reg_ok(f: CellFrame) -> bool {
    &&& (f.addr == 1 || f.addr == 2)
    &&& 0 <= f.size <= 2
    &&& !f.ranges
}

/// The frame of a node whose look-ahead found `scan`, under the open nodes
/// `stack` (cells not given are inherited, two and one at the top).
pub open spec fn frame_of(scan: PropScan, stack: Seq<CellFrame>) -> CellFrame {
    let pa = if stack.len() == 0 { 2 } else { stack.last().addr };
    let ps = if stack.len() == 0 { 1 } else { stack.last().size };
    CellFrame {
        addr: match scan.addr {
            Some(a) => a,
            None => pa,
        },
        size: match scan.size {
            Some(s) => s,
            None => ps,
        },
        ranges: scan.ranges,
    }
}

/// The walk from the token at `p` (struct block at `base`, strings block at
/// `strings`) with `stack` the frames of the open nodes, `in_scan` when a
/// node's property look-ahead is still running, never panics or hangs:
/// each property name offset lands inside the blob and the value's padded
/// length does not overflow; each node with a `reg` property sits under a
/// frame `frame_reg_ok` accepts; and the blob does not end inside a
/// look-ahead (the crate would retry the missing token without end).
pub open spec fn walk_ok(data: Seq<u8>, base: int, strings: int, p: int, stack: Seq<CellFrame>, in_scan: bool) -> bool
    decreases data.len() - p,
{
    if p < base || p + 4 > data.len() {
        !in_scan
    } else {
        let tok = be_u32(data, p);
        if tok == 9 {
            true
        } else if tok == 1 {
            let n = nul_from(data, p + 4);
            proof {
                lemma_nul_from(data, p + 4);
                if n >= 0 {
                    lemma_align4(n + 1 - base);
                }
            }
            if n < 0 {
                true
            } else {
                let b0 = base + align4(n + 1 - base);
                let b = if b0 > data.len() { data.len() as int } else { b0 };
                let scan = prop_scan(data, strings, b);
                &&& (stack.len() > 0 && scan.reg ==> frame_reg_ok(stack.last()))
                &&& walk_ok(data, base, strings, b, stack.push(frame_of(scan, stack)), true)
            }
        } else if tok == 3 {
            if p + 12 > data.len() {
                true
            } else {
                let len = be_u32(data, p + 4);
                let next = p + 12 + align4(len);
                proof {
                    lemma_align4(len);
                }
                &&& len + 3 <= usize::MAX
                &&& p - base + 12 + align4(len) <= usize::MAX
                &&& next <= data.len() ==> {
                    &&& strings + be_u32(data, p + 8) <= data.len()
                    &&& walk_ok(data, base, strings, next, stack, in_scan)
                }
            }
        } else if tok == 2 {
            walk_ok(data, base, strings, p + 4, if stack.len() > 0 { stack.drop_last() } else { stack }, false)
        } else {
            walk_ok(data, base, strings, p + 4, stack, in_scan)
        }
    }
}

/// `fdt_parser` walks the blob without a panic or a hang: the header's
/// offsets lie inside it and the walk from the struct block is `walk_ok`.
pub open spec fn fdt_walk_safe(data: Seq<u8>) -> bool {
    &&& fdt_offsets_ok(data)
    &&& walk_ok(data, be_u32(data, 8), be_u32(data, 12), be_u32(data, 8), Seq::empty(), false)
}

/// The big-endian `u32` at byte `off` of `data`.
fn be32(data: &[u8], off: usize) -> (v: u32)
    requires
        off + 4 <= data@.len(),
    ensures
        v == be_u32(data@, off as int),
{
    (data[off] as u32) * 0x100_0000 + (data[off + 1] as u32) * 0x1_0000 + (data[off + 2] as u32) * 0x100 + data[off + 3] as u32
}

/// The first zero byte at or after `i` (see `nul_from`).
fn find_nul(data: &[u8], i: usize) -> (r: Option<usize>)
    ensures
        match r {
            Some(k) => k == nul_from(data@, i as int),
            None => nul_from(data@, i as int) < 0,
        },
{
    let mut j: usize = i;
    while j < data.len()
        invariant
            i <= j,
            nul_from(data@, i as int) == nul_from(data@, j as int),
        decreases data@.len() - j,
    {
        if data[j] == 0 {
            return Some(j);
        }
        j = j + 1;
    }
    None
}

/// The bytes at `at` are the NUL-terminated string `s` (see `str_at`).
fn str_at_exec(data: &[u8], at: u128, s: &[u8]) -> (b: bool)
    requires
        at <= 0x1_0000_0000_0000_0000,
        s@.len() <= 64,
    ensures
        b == str_at(data@, at as int, s@),
{
    if at + (s.len() as u128) >= data.len() as u128 {
        return false;
    }
    let base = at as usize;
    let end = base + s.len();
    let mut i: usize = 0;
    while i < s.len()
        invariant
            base == at,
            end == base + s@.len(),
            end < data@.len(),
            i <= s@.len(),
            forall|k: int| 0 <= k < i ==> data@[base + k] == s@[k],
        decreases s@.len() - i,
    {
        if data[base + i] != s[i] {
            return false;
        }
        i = i + 1;
    }
    data[end] == 0
}

/// A scan result as machine values.
struct ScanExec {
    addr: Option<u32>,
    size: Option<u32>,
    ranges: bool,
    reg: bool,
}

impl ScanExec {
    spec fn view_scan(&self) -> PropScan {
        PropScan {
            addr: match self.addr {
                Some(a) => Some(a as int),
                None => None,
            },
            size: match self.size {
                Some(a) => Some(a as int),
                None => None,
            },
            ranges: self.ranges,
            reg: self.reg,
        }
    }
}

proof fn lemma_merge(a: PropScan, c: PropScan, r: PropScan)
    ensures
        merge_scan(a, merge_scan(c, r)) == merge_scan(merge_scan(a, c), r),
        merge_scan(a, no_props()) == a,
{
}

/// One record of the look-ahead at `p`.
enum ScanStep {
    /// The look-ahead ends here.
    Stop,
    /// A nop or unknown token: go on at the position.
    Skip(usize),
    /// A property: its contribution, then go on at the position.
    Prop(ScanExec, usize),
}

fn scan_step(data: &[u8], strings: u32, p: usize) -> (r: ScanStep)
    requires
        p <= data@.len(),
    ensures
        match r {
            ScanStep::Stop => prop_scan(data@, strings as int, p as int) == no_props(),
            ScanStep::Skip(n) => p < n <= data@.len() && prop_scan(data@, strings as int, p as int) == prop_scan(
                data@,
                strings as int,
                n as int,
            ),
            ScanStep::Prop(c, n) => p < n <= data@.len() && prop_scan(data@, strings as int, p as int) == merge_scan(
                c.view_scan(),
                prop_scan(data@, strings as int, n as int),
            ),
        },
{
    if data.len() - p < 4 {
        return ScanStep::Stop;
    }
    let tok = be32(data, p);
    if tok == 3 {
        if data.len() - p < 12 {
            return ScanStep::Stop;
        }
        let len = be32(data, p + 4);
        let off = be32(data, p + 8);
        proof {
            lemma_align4(len as int);
        }
        let next: u128 = (p as u128) + 12 + ((len as u128) + 3) / 4 * 4;
        if next > data.len() as u128 {
            return ScanStep::Stop;
        }
        let addr_name: [u8; 14] = [35, 97, 100, 100, 114, 101, 115, 115, 45, 99, 101, 108, 108, 115];
        let size_name: [u8; 11] = [35, 115, 105, 122, 101, 45, 99, 101, 108, 108, 115];
        let ranges_n: [u8; 6] = [114, 97, 110, 103, 101, 115];
        let reg_n: [u8; 3] = [114, 101, 103];
        proof {
            assert(addr_name@ =~= address_cells_name());
            assert(size_name@ =~= size_cells_name());
            assert(ranges_n@ =~= ranges_name());
            assert(reg_n@ =~= reg_name());
        }
        let at: u128 = (strings as u128) + (off as u128);
        let word: Option<u32> = if len >= 4 {
            Some(be32(data, p + 12) % 256)
        } else {
            None
        };
        let is_addr = str_at_exec(data, at, &addr_name);
        let is_size = str_at_exec(data, at, &size_name);
        let is_ranges = str_at_exec(data, at, &ranges_n);
        let is_reg = str_at_exec(data, at, &reg_n);
        let c = ScanExec {
            addr: if is_addr { word } else { None },
            size: if is_size { word } else { None },
            ranges: is_ranges && len > 0,
            reg: is_reg,
        };
        assert(c.view_scan() == prop_contrib(data@, p as int, len as int, strings + off));
        ScanStep::Prop(c, next as usize)
    } else if tok == 1 || tok == 2 || tok == 9 {
        ScanStep::Stop
    } else {
        ScanStep::Skip(p + 4)
    }
}

/// The look-ahead over a node's properties from `q` (see `prop_scan`).
fn scan_props(data: &[u8], strings: u32, q: usize) -> (r: ScanExec)
    requires
        q <= data@.len(),
    ensures
        r.view_scan() == prop_scan(data@, strings as int, q as int),
{
    let mut acc = ScanExec { addr: None, size: None, ranges: false, reg: false };
    let mut p: usize = q;
    loop
        invariant
            p <= data@.len(),
            prop_scan(data@, strings as int, q as int) == merge_scan(acc.view_scan(), prop_scan(data@, strings as int, p as int)),
        decreases data@.len() - p,
    {
        match scan_step(data, strings, p) {
            ScanStep::Stop => {
                proof {
                    lemma_merge(acc.view_scan(), no_props(), no_props());
                }
                return acc;
            },
            ScanStep::Skip(n) => {
                p = n;
            },
            ScanStep::Prop(c, n) => {
                let ghost old_acc = acc.view_scan();
                proof {
                    lemma_merge(old_acc, c.view_scan(), prop_scan(data@, strings as int, n as int));
                }
                acc = ScanExec {
                    addr: if c.addr.is_some() { c.addr } else { acc.addr },
                    size: if c.size.is_some() { c.size } else { acc.size },
                    ranges: acc.ranges || c.ranges,
                    reg: acc.reg || c.reg,
                };
                assert(acc.view_scan() == merge_scan(old_acc, c.view_scan()));
                p = n;
            },
        }
    }
}

/// A frame as machine values.
struct FrameExec {
    addr: u32,
    size: u32,
    ranges: bool,
}

impl FrameExec {
    spec fn view_frame(&self) -> CellFrame {
        CellFrame { addr: self.addr as int, size: self.size as int, ranges: self.ranges }
    }
}

spec fn frames_view(v: Seq<FrameExec>) -> Seq<CellFrame> {
    v.map_values(|f: FrameExec| f.view_frame())
}

/// The begin-node token at `p` with the open nodes `stack`: `None` when
/// the walk fails there (a `reg` under a frame that cannot read it);
/// otherwise the body start and the node's frame.
fn begin_node_step(data: &[u8], base: u32, strings: u32, p: usize, n: usize, stack: &Vec<FrameExec>) -> (r: Option<(usize, FrameExec)>)
    requires
        base <= p,
        p + 4 <= data@.len(),
        n == nul_from(data@, p + 4),
        n >= 0,
    ensures
        ({
            let b0 = base + align4(n + 1 - base);
            let b = if b0 > data@.len() { data@.len() as int } else { b0 };
            let scan = prop_scan(data@, strings as int, b);
            let st = frames_view(stack@);
            &&& r is None <==> !(st.len() > 0 && scan.reg ==> frame_reg_ok(st.last()))
            &&& r matches Some(x) ==> x.0 == b && p < b <= data@.len() && x.1.view_frame() == frame_of(scan, st)
        }),
{
    proof {
        lemma_nul_from(data@, p + 4);
        lemma_align4(n + 1 - base);
    }
    let x: u128 = (n as u128) + 1 - (base as u128);
    let b0: u128 = (base as u128) + (x + 3) / 4 * 4;
    let b: usize = if b0 > data.len() as u128 { data.len() } else { b0 as usize };
    let scan = scan_props(data, strings, b);
    let top = stack.len();
    if top > 0 && scan.reg {
        let f = &stack[top - 1];
        if !((f.addr == 1 || f.addr == 2) && f.size <= 2 && !f.ranges) {
            return None;
        }
    }
    let (pa, ps) = if top == 0 { (2u32, 1u32) } else { (stack[top - 1].addr, stack[top - 1].size) };
    let frame = FrameExec {
        addr: match scan.addr {
            Some(a) => a,
            None => pa,
        },
        size: match scan.size {
            Some(s) => s,
            None => ps,
        },
        ranges: scan.ranges,
    };
    Some((b, frame))
}

/// Whether `fdt_parser` walks the blob `data` without a panic or a hang
/// (see `fdt_walk_safe`): the check a caller makes before handing a blob
/// to `DeviceTree::parse_bytes`.
pub fn fdt_walk_check(data: &[u8]) -> (b: bool)
    ensures
        b == fdt_walk_safe(data@),
{
    if data.len() < 16 {
        return false;
    }
    let base = be32(data, 8);
    let strings = be32(data, 12);
    if base as usize > data.len() || strings as usize > data.len() {
        return false;
    }
    let mut stack: Vec<FrameExec> = Vec::new();
    let mut in_scan = false;
    let mut p: usize = base as usize;
    proof {
        assert(frames_view(stack@) =~= Seq::<CellFrame>::empty());
    }
    loop
        invariant
            data@.len() >= 16,
            base as int == be_u32(data@, 8),
            strings as int == be_u32(data@, 12),
            fdt_offsets_ok(data@),
            base <= p <= data@.len(),
            fdt_walk_safe(data@) == walk_ok(data@, base as int, strings as int, p as int, frames_view(stack@), in_scan),
        decreases data@.len() - p,
    {
        if data.len() - p < 4 {
            return !in_scan;
        }
        let tok = be32(data, p);
        if tok == 9 {
            return true;
        } else if tok == 1 {
            let n = match find_nul(data, p + 4) {
                Some(n) => n,
                None => {
                    return true;
                },
            };
            match begin_node_step(data, base, strings, p, n, &stack) {
                None => {
                    return false;
                },
                Some((b, frame)) => {
                    let ghost old_stack = stack@;
                    stack.push(frame);
                    proof {
                        assert(frames_view(stack@) =~= frames_view(old_stack).push(frame.view_frame()));
                    }
                    p = b;
                    in_scan = true;
                },
            }
        } else if tok == 3 {
            if data.len() - p < 12 {
                return true;
            }
            let len = be32(data, p + 4);
            let off = be32(data, p + 8);
            proof {
                lemma_align4(len as int);
            }
            let padded: u128 = ((len as u128) + 3) / 4 * 4;
            if (len as u128) + 3 > usize::MAX as u128 {
                return false;
            }
            if (p as u128) - (base as u128) + 12 + padded > usize::MAX as u128 {
                return false;
            }
            let next: u128 = (p as u128) + 12 + padded;
            if next > data.len() as u128 {
                return true;
            }
            if (strings as u128) + (off as u128) > data.len() as u128 {
                return false;
            }
            p = next as usize;
        } else if tok == 2 {
            let ghost old_stack = stack@;
            if stack.len() > 0 {
                stack.pop();
                proof {
                    assert(frames_view(stack@) =~= frames_view(old_stack).drop_last());
                }
            }
            in_scan = false;
            p = p + 4;
        } else {
            p = p + 4;
        }
    }
}

} // verus!
