//! The flattened device tree: the platform facts the kernel takes from it
//! (console, GIC, timer interrupt, CPUs, PSCI conduit), read through the
//! `fdt_parser` crate, with the QEMU virt defaults when there is none.
use vstd::prelude::*;

use fdt_parser::base::{Fdt, Node};
use fdt_parser::Property;

use crate::strings::utf8_str;
use crate::fdt_walk::fdt_walk_safe;
use vstd::utf8::{decode_utf8, valid_utf8};

verus! {

#[verifier::external_type_specification]
#[verifier::external_body]
pub struct ExFdt<'a>(Fdt<'a>);

#[verifier::external_type_specification]
#[verifier::external_body]
pub struct ExNode<'a>(Node<'a>);

#[verifier::external_type_specification]
#[verifier::external_body]
pub struct ExProperty<'a>(Property<'a>);

/// CPUs whose MPIDR the tree record keeps.
pub const MAX_DT_CPUS: usize = 8;
/// Bytes of the root `compatible` string kept (one less than the buffer).
pub const ROOT_COMPAT_MAX: usize = 63;
/// Timer PPI when the tree gives none.
pub const DEFAULT_TIMER_PPI: u32 = 30;
/// QEMU virt GIC distributor base.
pub const QEMU_GICD_BASE: u64 = 0x0800_0000;
/// QEMU virt GIC redistributor base.
pub const QEMU_GICR_BASE: u64 = 0x080A_0000;
/// QEMU virt PL011 base.
pub const QEMU_UART_BASE: u64 = 0x0900_0000;
/// Big-endian magic word at the start of a device tree blob.
pub const FDT_MAGIC: u32 = 0xd00d_feed;

/// The big-endian `u32` at byte `off` of `b`.
pub open spec fn be_u32(b: Seq<u8>, off: int) -> int {
    (b[off] as int) * 0x100_0000 + (b[off + 1] as int) * 0x1_0000 + (b[off + 2] as int) * 0x100 + (b[off + 3] as int)
}

/// Size of a device tree header.
pub const FDT_HEADER_SIZE: usize = 40;

/// The blob starts with a whole header, carries the magic, and is at least
/// as long as the total size the header records.
pub open spec fn fdt_header_ok(data: Seq<u8>) -> bool {
    &&& data.len() >= FDT_HEADER_SIZE
    &&& be_u32(data, 0) == FDT_MAGIC
    &&& data.len() >= be_u32(data, 4)
}

/// The header's struct-block and strings-block offsets (the big-endian words
/// at bytes 8 and 12) lie inside the blob. The crate slices the blob at both
/// without a check when it walks the tree, so a blob without this makes the
/// walk panic.
pub open spec fn fdt_offsets_ok(data: Seq<u8>) -> bool {
    &&& data.len() >= 16
    &&& be_u32(data, 8) <= data.len()
    &&& be_u32(data, 12) <= data.len()
}

/// A tree `fdt_parser` parsed, with the blob it was parsed from.
pub struct Tree<'a> {
    fdt: Fdt<'a>,
    data: &'a [u8],
}

impl<'a> View for Tree<'a> {
    type V = Seq<u8>;

    closed spec fn view(&self) -> Seq<u8> {
        self.data@
    }
}

/// How a node of a tree was found.
#[derive(Clone, Copy)]
pub enum NodeQuery {
    /// The first node of the walk (the root).
    Root,
    /// The first node `find_nodes` gives for a path.
    Path(&'static str),
    /// The first node `find_compatible` gives for one compatible string.
    Compatible(&'static str),
    /// The child with the given index among the `children()` of the node
    /// found for a path.
    ChildOfPath(&'static str, usize),
}

/// A node query as a plain value.
pub ghost enum QueryView {
    Root,
    Path(Seq<char>),
    Compatible(Seq<char>),
    ChildOfPath(Seq<char>, int),
}

impl View for NodeQuery {
    type V = QueryView;

    open spec fn view(&self) -> QueryView {
        match self {
            NodeQuery::Root => QueryView::Root,
            NodeQuery::Path(p) => QueryView::Path(p@),
            NodeQuery::Compatible(c) => QueryView::Compatible(c@),
            NodeQuery::ChildOfPath(p, i) => QueryView::ChildOfPath(p@, *i as int),
        }
    }
}

/// A node of a tree: the crate's node, the blob, and how it was found.
pub struct TreeNode<'a> {
    node: Node<'a>,
    data: &'a [u8],
    query: NodeQuery,
}

impl<'a> View for TreeNode<'a> {
    type V = (Seq<u8>, QueryView);

    closed spec fn view(&self) -> (Seq<u8>, QueryView) {
        (self.data@, self.query@)
    }
}

/// A property of a tree node: the crate's property, the blob, how its node
/// was found and the property's name.
pub struct TreeProperty<'a> {
    prop: Property<'a>,
    data: &'a [u8],
    query: NodeQuery,
    name: &'static str,
}

impl<'a> View for TreeProperty<'a> {
    type V = (Seq<u8>, QueryView, Seq<char>);

    closed spec fn view(&self) -> (Seq<u8>, QueryView, Seq<char>) {
        (self.data@, self.query@, self.name@)
    }
}

/// Whether `all_nodes()` of the tree of `blob` starts with a node (not an
/// error).
pub uninterp spec fn dtb_first_node_ok(blob: Seq<u8>) -> bool;

/// Whether `find_nodes(path)` of the tree of `blob` gives a node first.
pub uninterp spec fn dtb_path_found(blob: Seq<u8>, path: Seq<char>) -> bool;

/// Whether `find_compatible(&[compatible])` of the tree of `blob` gives a
/// node first.
pub uninterp spec fn dtb_compatible_found(blob: Seq<u8>, compatible: Seq<char>) -> bool;

/// `is_root()` of the node `q` finds in the tree of `blob`.
pub uninterp spec fn dtb_is_root(blob: Seq<u8>, q: QueryView) -> bool;

/// The first string of `compatibles()` of the node `q` finds, as bytes.
pub uninterp spec fn dtb_first_compatible(blob: Seq<u8>, q: QueryView) -> Option<Seq<u8>>;

/// For each item of `children()` of the node `q` finds, whether it is a
/// node (not an error).
pub uninterp spec fn dtb_children(blob: Seq<u8>, q: QueryView) -> Seq<bool>;

/// `name()` of the node `q` finds, as bytes.
pub uninterp spec fn dtb_node_name(blob: Seq<u8>, q: QueryView) -> Seq<u8>;

/// The addresses of the first two entries of `reg()` of the node `q` finds.
pub uninterp spec fn dtb_node_reg(blob: Seq<u8>, q: QueryView) -> Option<Seq<u64>>;

/// Whether `find_property(name)` of the node `q` finds gives a property.
pub uninterp spec fn dtb_property_found(blob: Seq<u8>, q: QueryView, name: Seq<char>) -> bool;

/// `str()` of that property, as bytes.
pub uninterp spec fn dtb_property_str(blob: Seq<u8>, q: QueryView, name: Seq<char>) -> Option<Seq<u8>>;

/// The first two interrupts of `interrupts()` of the node `q` finds, each
/// as its first three cells.
pub uninterp spec fn dtb_node_interrupts(blob: Seq<u8>, q: QueryView) -> Option<Seq<Seq<u32>>>;

/// A byte vector's contents, if any.
pub open spec fn opt_bytes(o: Option<Vec<u8>>) -> Option<Seq<u8>> {
    match o {
        Some(v) => Some(v@),
        None => None,
    }
}

/// A `u64` vector's contents, if any.
pub open spec fn opt_words(o: Option<Vec<u64>>) -> Option<Seq<u64>> {
    match o {
        Some(v) => Some(v@),
        None => None,
    }
}

/// Rows of cells, if any.
pub open spec fn opt_rows(o: Option<Vec<Vec<u32>>>) -> Option<Seq<Seq<u32>>> {
    match o {
        Some(v) => Some(v.deep_view()),
        None => None,
    }
}

/// `Fdt::from_bytes(data)`; `None` when the blob does not parse. As the
/// crate's source reads the header, that is exactly when the blob is shorter
/// than the 40-byte header, its magic is wrong, or it is shorter than the
/// total size its header records. The tree keeps the blob, so the wrappers
/// below can name what the crate computes from it. A blob that parses is
/// one the crate walks without a panic or a hang (`fdt_walk_safe`).
#[verifier::external_body]
fn fdt_from_bytes<'a>(data: &'a [u8]) -> (r: Option<Tree<'a>>)
    requires
        fdt_header_ok(data@) ==> fdt_walk_safe(data@),
    ensures
        r is Some <==> fdt_header_ok(data@),
        r matches Some(t) ==> t@ == data@ && fdt_walk_safe(t@),
{
    match Fdt::from_bytes(data) {
        Ok(f) => Some(Tree { fdt: f, data }),
        Err(_) => None,
    }
}

/// The first item of `Fdt::all_nodes()`, `None` where there is none or it
/// is an error. The walk starts below level 0 and the first node it yields
/// opens level 0, so that node is the root.
#[verifier::external_body]
fn fdt_first_node<'a>(t: &Tree<'a>) -> (r: Option<TreeNode<'a>>)
    requires
        fdt_walk_safe(t@),
    ensures
        r is Some <==> dtb_first_node_ok(t@),
        r matches Some(n) ==> n@ == (t@, QueryView::Root),
{
    match t.fdt.all_nodes().next() {
        Some(Ok(n)) => Some(TreeNode { node: n, data: t.data, query: NodeQuery::Root }),
        _ => None,
    }
}

/// The first node that `Fdt::find_nodes(path)` finds (errors skipped). The
/// path starts with `/`: the crate looks any other path up as an alias and
/// unwraps that lookup.
#[verifier::external_body]
fn fdt_find_node<'a>(t: &Tree<'a>, path: &'static str) -> (r: Option<TreeNode<'a>>)
    requires
        fdt_walk_safe(t@),
        path@.len() > 0,
        path@[0] == '/',
    ensures
        r is Some <==> dtb_path_found(t@, path@),
        r matches Some(n) ==> n@ == (t@, QueryView::Path(path@)),
{
    let found = t.fdt.find_nodes(path).flatten().next();
    found.map(|n| TreeNode { node: n, data: t.data, query: NodeQuery::Path(path) })
}

/// The first node that `Fdt::find_compatible(&[compatible])` finds (errors
/// skipped).
#[verifier::external_body]
fn fdt_find_compatible<'a>(t: &Tree<'a>, compatible: &'static str) -> (r: Option<TreeNode<'a>>)
    requires
        fdt_walk_safe(t@),
    ensures
        r is Some <==> dtb_compatible_found(t@, compatible@),
        r matches Some(n) ==> n@ == (t@, QueryView::Compatible(compatible@)),
{
    let with: [&'static str; 1] = [compatible];
    let found = t.fdt.find_compatible(&with).flatten().next();
    found.map(|n| TreeNode { node: n, data: t.data, query: NodeQuery::Compatible(compatible) })
}

/// `Node::is_root()`.
#[verifier::external_body]
fn node_is_root(n: &TreeNode) -> (b: bool)
    ensures
        b == dtb_is_root(n@.0, n@.1),
{
    n.node.is_root()
}

/// The first string of `Node::compatibles()`, as bytes; `None` on error or
/// when there is none.
#[verifier::external_body]
fn node_first_compatible(n: &TreeNode) -> (r: Option<Vec<u8>>)
    requires
        fdt_walk_safe(n@.0),
    ensures
        opt_bytes(r) == dtb_first_compatible(n@.0, n@.1),
{
    match n.node.compatibles() {
        Ok(mut it) => it.next().map(|c| c.as_bytes().to_vec()),
        Err(_) => None,
    }
}

/// `Node::children()` of the node found for `path`, each item `None` where
/// the walk reported an error.
#[verifier::external_body]
fn node_children<'a>(n: &TreeNode<'a>, path: &'static str) -> (r: Vec<Option<TreeNode<'a>>>)
    requires
        fdt_walk_safe(n@.0),
        n@.1 == QueryView::Path(path@),
    ensures
        r@.len() == dtb_children(n@.0, n@.1).len(),
        forall|i: int| 0 <= i < r@.len() ==> (#[trigger] r@[i] is Some) == dtb_children(n@.0, n@.1)[i],
        forall|i: int|
            0 <= i < r@.len() ==> (#[trigger] r@[i] matches Some(c) ==> c@ == (n@.0, QueryView::ChildOfPath(path@, i))),
{
    n.node.children().enumerate().map(|(i, c)| c.ok().map(|c| TreeNode {
        node: c,
        data: n.data,
        query: NodeQuery::ChildOfPath(path, i),
    })).collect()
}

/// `Node::name()` as bytes.
#[verifier::external_body]
fn node_name(n: &TreeNode) -> (r: Vec<u8>)
    ensures
        r@ == dtb_node_name(n@.0, n@.1),
{
    n.node.name().as_bytes().to_vec()
}

/// The addresses of the first two entries of `Node::reg()`; `None` on
/// error.
#[verifier::external_body]
fn node_reg(n: &TreeNode) -> (r: Option<Vec<u64>>)
    requires
        fdt_walk_safe(n@.0),
    ensures
        opt_words(r) == dtb_node_reg(n@.0, n@.1),
{
    match n.node.reg() {
        Ok(it) => Some(it.take(2).map(|r| r.address).collect()),
        Err(_) => None,
    }
}

/// `Node::find_property(name)`; `None` on error.
#[verifier::external_body]
fn node_find_property<'a>(n: &TreeNode<'a>, name: &'static str) -> (r: Option<TreeProperty<'a>>)
    requires
        fdt_walk_safe(n@.0),
    ensures
        r is Some <==> dtb_property_found(n@.0, n@.1, name@),
        r matches Some(p) ==> p@ == (n@.0, n@.1, name@),
{
    match n.node.find_property(name) {
        Ok(p) => Some(TreeProperty { prop: p, data: n.data, query: n.query, name }),
        Err(_) => None,
    }
}

/// `Property::str()` as bytes; `None` on error.
#[verifier::external_body]
fn property_str(p: &TreeProperty) -> (r: Option<Vec<u8>>)
    ensures
        opt_bytes(r) == dtb_property_str(p@.0, p@.1, p@.2),
{
    match p.prop.str() {
        Ok(s) => Some(s.as_bytes().to_vec()),
        Err(_) => None,
    }
}

/// The first two interrupts of `Node::interrupts()`, each as its first
/// three cells; `None` on error. (Reading no further keeps this finite: with
/// `#interrupt-cells` 0 the crate yields empty interrupts without end.)
#[verifier::external_body]
fn node_interrupts(n: &TreeNode) -> (r: Option<Vec<Vec<u32>>>)
    requires
        fdt_walk_safe(n@.0),
    ensures
        opt_rows(r) == dtb_node_interrupts(n@.0, n@.1),
{
    match n.node.interrupts() {
        Ok(it) => Some(it.take(2).map(|cells| cells.take(3).collect()).collect()),
        Err(_) => None,
    }
}

/// What the kernel reads of a device tree, as plain values.
pub struct FdtFacts {
    /// First `compatible` string of the root node (`None`: no root node, no
    /// property or an empty one).
    pub root_compatible: Option<Vec<u8>>,
    /// Children of the first `/cpus` node, in order: name and `reg` addresses.
    pub cpu_nodes: Vec<(Vec<u8>, Option<Vec<u64>>)>,
    /// `reg` addresses (the first two) of the first `arm,pl011` node.
    pub uart_regs: Option<Vec<u64>>,
    /// `reg` addresses (the first two) of the first `arm,gic-v3` node.
    pub gic_regs: Option<Vec<u64>>,
    /// The `method` string of the first `/psci` node.
    pub psci_method: Option<Vec<u8>>,
    /// The first two interrupts (three cells each at most) of the first
    /// `arm,armv8-timer` node.
    pub timer_interrupts: Option<Vec<Vec<u32>>>,
}

/// The facts as sequences.
pub ghost struct DtbFacts {
    pub root_compatible: Option<Seq<u8>>,
    pub cpu_nodes: Seq<(Seq<u8>, Option<Seq<u64>>)>,
    pub uart_regs: Option<Seq<u64>>,
    pub gic_regs: Option<Seq<u64>>,
    pub psci_method: Option<Seq<u8>>,
    pub timer_interrupts: Option<Seq<Seq<u32>>>,
}

/// A CPU child's name and `reg` addresses as sequences.
pub open spec fn cpu_entry_view(e: (Vec<u8>, Option<Vec<u64>>)) -> (Seq<u8>, Option<Seq<u64>>) {
    (e.0@, opt_words(e.1))
}

impl View for FdtFacts {
    type V = DtbFacts;

    open spec fn view(&self) -> DtbFacts {
        DtbFacts {
            root_compatible: opt_bytes(self.root_compatible),
            cpu_nodes: self.cpu_nodes@.map_values(|e: (Vec<u8>, Option<Vec<u64>>)| cpu_entry_view(e)),
            uart_regs: opt_words(self.uart_regs),
            gic_regs: opt_words(self.gic_regs),
            psci_method: opt_bytes(self.psci_method),
            timer_interrupts: opt_rows(self.timer_interrupts),
        }
    }
}

/// Name and `reg` addresses of the children of the node found for `path`
/// that are nodes, among the first `n` items.
pub open spec fn path_children(blob: Seq<u8>, path: Seq<char>, n: int) -> Seq<(Seq<u8>, Option<Seq<u64>>)>
    decreases n,
{
    if n <= 0 {
        Seq::empty()
    } else {
        let rest = path_children(blob, path, n - 1);
        if dtb_children(blob, QueryView::Path(path))[n - 1] {
            let q = QueryView::ChildOfPath(path, n - 1);
            rest.push((dtb_node_name(blob, q), dtb_node_reg(blob, q)))
        } else {
            rest
        }
    }
}

/// `/cpus`.
pub open spec fn cpus_path() -> Seq<char> {
    seq!['/', 'c', 'p', 'u', 's']
}

/// `/psci`.
pub open spec fn psci_path() -> Seq<char> {
    seq!['/', 'p', 's', 'c', 'i']
}

/// `method`.
pub open spec fn method_name() -> Seq<char> {
    seq!['m', 'e', 't', 'h', 'o', 'd']
}

/// `arm,pl011`.
pub open spec fn pl011_compatible() -> Seq<char> {
    seq!['a', 'r', 'm', ',', 'p', 'l', '0', '1', '1']
}

/// `arm,gic-v3`.
pub open spec fn gic_v3_compatible() -> Seq<char> {
    seq!['a', 'r', 'm', ',', 'g', 'i', 'c', '-', 'v', '3']
}

/// `arm,armv8-timer`.
pub open spec fn armv8_timer_compatible() -> Seq<char> {
    seq!['a', 'r', 'm', ',', 'a', 'r', 'm', 'v', '8', '-', 't', 'i', 'm', 'e', 'r']
}

/// The `reg` addresses of the first node compatible with `c`, if any.
pub open spec fn compatible_regs(blob: Seq<u8>, c: Seq<char>) -> Option<Seq<u64>> {
    if dtb_compatible_found(blob, c) {
        dtb_node_reg(blob, QueryView::Compatible(c))
    } else {
        None
    }
}

/// The facts the kernel reads of the tree of `blob`: the root's first
/// compatible string; name and `reg` of each child of `/cpus`; the `reg`
/// of the first `arm,pl011` and `arm,gic-v3` nodes; the `method` string of
/// `/psci`; the interrupts of the first `arm,armv8-timer` node.
pub open spec fn dtb_facts(blob: Seq<u8>) -> DtbFacts {
    DtbFacts {
        root_compatible: if dtb_first_node_ok(blob) && dtb_is_root(blob, QueryView::Root) {
            dtb_first_compatible(blob, QueryView::Root)
        } else {
            None
        },
        cpu_nodes: if dtb_path_found(blob, cpus_path()) {
            path_children(blob, cpus_path(), dtb_children(blob, QueryView::Path(cpus_path())).len() as int)
        } else {
            Seq::empty()
        },
        uart_regs: compatible_regs(blob, pl011_compatible()),
        gic_regs: compatible_regs(blob, gic_v3_compatible()),
        psci_method: if dtb_path_found(blob, psci_path()) && dtb_property_found(
            blob,
            QueryView::Path(psci_path()),
            method_name(),
        ) {
            dtb_property_str(blob, QueryView::Path(psci_path()), method_name())
        } else {
            None
        },
        timer_interrupts: if dtb_compatible_found(blob, armv8_timer_compatible()) {
            dtb_node_interrupts(blob, QueryView::Compatible(armv8_timer_compatible()))
        } else {
            None
        },
    }
}

/// The platform record.
pub struct DeviceTree {
    pub root_compatible: [u8; 64],
    pub root_compatible_len: usize,
    pub uart_base: Option<u64>,
    pub gicd_base: Option<u64>,
    pub gicr_base: Option<u64>,
    pub timer_ppi: u32,
    pub cpu_count_val: usize,
    pub cpu_mpidrs: [u64; 8],
    pub psci_hvc: bool,
}

/// `name` starts with `cpu@`.
pub open spec fn is_cpu_name(name: Seq<u8>) -> bool {
    name.len() >= 4 && name[0] == 99u8 && name[1] == 112u8 && name[2] == 117u8 && name[3] == 64u8
}

/// Number of CPU nodes among the first `n` children.
pub open spec fn cpu_count_prefix(nodes: Seq<(Seq<u8>, Option<Seq<u64>>)>, n: int) -> nat
    decreases n,
{
    if n <= 0 {
        0
    } else {
        cpu_count_prefix(nodes, n - 1) + if is_cpu_name(nodes[n - 1].0) { 1nat } else { 0nat }
    }
}

/// The MPIDRs the record keeps after the first `n` children: the first
/// `reg` address of each of the first eight CPU nodes that has one, zero
/// elsewhere.
pub open spec fn mpidrs_prefix(nodes: Seq<(Seq<u8>, Option<Seq<u64>>)>, n: int) -> Seq<u64>
    decreases n,
{
    if n <= 0 {
        Seq::new(8, |i: int| 0u64)
    } else {
        let prev = mpidrs_prefix(nodes, n - 1);
        let idx = cpu_count_prefix(nodes, n - 1);
        if is_cpu_name(nodes[n - 1].0) && idx < MAX_DT_CPUS {
            match nodes[n - 1].1 {
                Some(r) => if r.len() > 0 { prev.update(idx as int, r[0]) } else { prev },
                None => prev,
            }
        } else {
            prev
        }
    }
}

/// The cells of the non-secure physical timer interrupt (the second one),
/// as three cells padded with zeros.
pub open spec fn timer_cells(irqs: Seq<Seq<u32>>) -> Option<Seq<u32>> {
    if irqs.len() < 2 {
        None
    } else {
        let c = irqs[1];
        Some(Seq::new(3, |i: int| if i < c.len() { c[i] } else { 0u32 }))
    }
}

/// The timer PPI the facts give: a PPI (type 1) cell's number plus 16
/// (wrapping, as a release build computes it); otherwise the default.
pub open spec fn timer_ppi_of(t: Option<Seq<Seq<u32>>>) -> u32 {
    match t {
        Some(irqs) => match timer_cells(irqs) {
            Some(c) => if c[0] == 1 {
                if c[1] + 16 <= u32::MAX { (c[1] + 16) as u32 } else { (c[1] + 16 - 0x1_0000_0000) as u32 }
            } else {
                DEFAULT_TIMER_PPI
            },
            None => DEFAULT_TIMER_PPI,
        },
        None => DEFAULT_TIMER_PPI,
    }
}

/// The record the facts `f` give, field by field.
pub open spec fn facts_give(f: DtbFacts, dt: &DeviceTree) -> bool {
    &&& match f.root_compatible {
        Some(c) => {
            let n = if c.len() < ROOT_COMPAT_MAX { c.len() } else { ROOT_COMPAT_MAX as nat };
            &&& dt.root_compatible_len == n
            &&& dt.root_compatible@.subrange(0, n as int) == c.subrange(0, n as int)
            &&& forall|i: int| n <= i < 64 ==> dt.root_compatible@[i] == 0
        },
        _ => dt.root_compatible_len == 0 && forall|i: int| 0 <= i < 64 ==> dt.root_compatible@[i] == 0,
    }
    &&& dt.cpu_count_val == cpu_count_prefix(f.cpu_nodes, f.cpu_nodes.len() as int)
    &&& dt.cpu_mpidrs@ == mpidrs_prefix(f.cpu_nodes, f.cpu_nodes.len() as int)
    &&& dt.uart_base == match f.uart_regs {
        Some(r) => if r.len() > 0 { Some(r[0]) } else { None },
        None => None,
    }
    &&& dt.gicd_base == match f.gic_regs {
        Some(r) => if r.len() > 0 { Some(r[0]) } else { None },
        None => None,
    }
    &&& dt.gicr_base == match f.gic_regs {
        Some(r) => if r.len() > 1 { Some(r[1]) } else { None },
        None => None,
    }
    &&& dt.psci_hvc == match f.psci_method {
        Some(m) => m == seq![104u8, 118u8, 99u8],
        None => true,
    }
    &&& dt.timer_ppi == timer_ppi_of(f.timer_interrupts)
}

impl DeviceTree {
    /// The record the facts `f` give.
    pub fn from_facts(f: &FdtFacts) -> (dt: DeviceTree)
        ensures
            facts_give(f@, &dt),
    {
        let mut dt = DeviceTree {
            root_compatible: [0u8; 64],
            root_compatible_len: 0,
            uart_base: None,
            gicd_base: None,
            gicr_base: None,
            timer_ppi: DEFAULT_TIMER_PPI,
            cpu_count_val: 0,
            cpu_mpidrs: [0u64; 8],
            psci_hvc: true,
        };
        proof {
            assert(forall|i: int| 0 <= i < 64 ==> dt.root_compatible@[i] == 0);
            assert(dt.cpu_mpidrs@ =~= mpidrs_prefix(f@.cpu_nodes, 0));
        }
        match &f.root_compatible {
            Some(c) => {
                {
                    let n = if c.len() < ROOT_COMPAT_MAX { c.len() } else { ROOT_COMPAT_MAX };
                    let mut i: usize = 0;
                    while i < n
                        invariant
                            n <= c@.len(),
                            n <= ROOT_COMPAT_MAX,
                            i <= n,
                            forall|j: int| 0 <= j < i ==> dt.root_compatible@[j] == c@[j],
                            forall|j: int| i <= j < 64 ==> dt.root_compatible@[j] == 0,
                            dt.root_compatible_len == 0,
                            dt.cpu_count_val == 0,
                            dt.cpu_mpidrs@ == mpidrs_prefix(f@.cpu_nodes, 0),
                            dt.uart_base is None,
                            dt.gicd_base is None,
                            dt.gicr_base is None,
                            dt.timer_ppi == DEFAULT_TIMER_PPI,
                            dt.psci_hvc,
                        decreases n - i,
                    {
                        dt.root_compatible[i] = c[i];
                        i = i + 1;
                    }
                    dt.root_compatible_len = n;
                    proof {
                        assert(dt.root_compatible@.subrange(0, n as int) =~= c@.subrange(0, n as int));
                    }
                }
            },
            None => {},
        }
        let mut k: usize = 0;
        let ghost nodes = f@.cpu_nodes;
        let ghost rc = dt.root_compatible;
        let ghost rcl = dt.root_compatible_len;
        while k < f.cpu_nodes.len()
            invariant
                k <= nodes.len(),
                nodes == f@.cpu_nodes,
                nodes.len() == f.cpu_nodes@.len(),
                dt.cpu_count_val == cpu_count_prefix(nodes, k as int),
                dt.cpu_count_val <= k,
                dt.cpu_mpidrs@ == mpidrs_prefix(nodes, k as int),
                dt.root_compatible == rc,
                dt.root_compatible_len == rcl,
                dt.uart_base is None,
                dt.gicd_base is None,
                dt.gicr_base is None,
                dt.timer_ppi == DEFAULT_TIMER_PPI,
                dt.psci_hvc,
            decreases nodes.len() - k,
        {
            let ghost before = dt.cpu_mpidrs@;
            let name = &f.cpu_nodes[k].0;
            let is_cpu = name.len() >= 4 && name[0] == 99u8 && name[1] == 112u8 && name[2] == 117u8 && name[3] == 64u8;
            if is_cpu {
                let idx = dt.cpu_count_val;
                if idx < MAX_DT_CPUS {
                    match &f.cpu_nodes[k].1 {
                        Some(regs) => {
                            if regs.len() > 0 {
                                dt.cpu_mpidrs[idx] = regs[0];
                            }
                        },
                        None => {},
                    }
                }
                dt.cpu_count_val = dt.cpu_count_val + 1;
            }
            proof {
                assert(dt.cpu_mpidrs@ =~= mpidrs_prefix(nodes, k + 1));
            }
            k = k + 1;
        }
        match &f.uart_regs {
            Some(r) => {
                if r.len() > 0 {
                    dt.uart_base = Some(r[0]);
                }
            },
            None => {},
        }
        match &f.gic_regs {
            Some(r) => {
                if r.len() > 0 {
                    dt.gicd_base = Some(r[0]);
                    if r.len() > 1 {
                        dt.gicr_base = Some(r[1]);
                    }
                }
            },
            None => {},
        }
        match &f.psci_method {
            Some(m) => {
                dt.psci_hvc = m.len() == 3 && m[0] == 104u8 && m[1] == 118u8 && m[2] == 99u8;
                proof {
                    if m@.len() == 3 && m@[0] == 104u8 && m@[1] == 118u8 && m@[2] == 99u8 {
                        assert(m@ =~= seq![104u8, 118u8, 99u8]);
                    }
                }
            },
            None => {},
        }
        match &f.timer_interrupts {
            Some(irqs) => {
                proof {
                    assert(irqs.deep_view().len() == irqs@.len());
                }
                if irqs.len() >= 2 {
                    let ns = &irqs[1];
                    let mut cells: [u32; 3] = [0, 0, 0];
                    let mut i: usize = 0;
                    while i < ns.len() && i < 3
                        invariant
                            i <= 3,
                            i <= ns@.len(),
                            forall|j: int| 0 <= j < i ==> cells@[j] == ns@[j],
                            forall|j: int| i <= j < 3 ==> cells@[j] == 0,
                        decreases 3 - i,
                    {
                        cells[i] = ns[i];
                        i = i + 1;
                    }
                    proof {
                        assert(irqs.deep_view()[1] == ns.deep_view());
                        let tc = timer_cells(irqs.deep_view())->Some_0;
                        assert(tc[0] == cells@[0]);
                        assert(tc[1] == cells@[1]);
                    }
                    if cells[0] == 1 {
                        dt.timer_ppi = cells[1].wrapping_add(16);
                    }
                }
            },
            None => {},
        }
        dt
    }

    /// The QEMU virt machine's record: PL011 at 0x0900_0000, GIC at
    /// 0x0800_0000 / 0x080A_0000, timer PPI 30, four CPUs with MPIDRs 0–3,
    /// PSCI through `hvc`, root compatible `linux,dummy-virt`.
    pub fn qemu_defaults() -> (dt: DeviceTree)
        ensures
            dt.uart_base == Some(QEMU_UART_BASE),
            dt.gicd_base == Some(QEMU_GICD_BASE),
            dt.gicr_base == Some(QEMU_GICR_BASE),
            dt.timer_ppi == DEFAULT_TIMER_PPI,
            dt.cpu_count_val == 4,
            dt.cpu_mpidrs@ == seq![0u64, 1, 2, 3, 0, 0, 0, 0],
            dt.psci_hvc,
            dt.root_compatible_len == 16,
            dt.root_compatible@.subrange(0, 16) == qemu_compatible(),
            forall|i: int| 16 <= i < 64 ==> dt.root_compatible@[i] == 0,
    {
        let compat: [u8; 16] = [108, 105, 110, 117, 120, 44, 100, 117, 109, 109, 121, 45, 118, 105, 114, 116];
        let mut dt = DeviceTree {
            root_compatible: [0u8; 64],
            root_compatible_len: 0,
            uart_base: Some(QEMU_UART_BASE),
            gicd_base: Some(QEMU_GICD_BASE),
            gicr_base: Some(QEMU_GICR_BASE),
            timer_ppi: DEFAULT_TIMER_PPI,
            cpu_count_val: 4,
            cpu_mpidrs: [0, 1, 2, 3, 0, 0, 0, 0],
            psci_hvc: true,
        };
        let mut i: usize = 0;
        while i < 16
            invariant
                i <= 16,
                compat@ == qemu_compatible(),
                dt.root_compatible@.len() == 64,
                forall|j: int| 0 <= j < i ==> dt.root_compatible@[j] == compat@[j],
                forall|j: int| 16 <= j < 64 ==> dt.root_compatible@[j] == 0,
                dt.uart_base == Some(QEMU_UART_BASE),
                dt.gicd_base == Some(QEMU_GICD_BASE),
                dt.gicr_base == Some(QEMU_GICR_BASE),
                dt.timer_ppi == DEFAULT_TIMER_PPI,
                dt.cpu_count_val == 4,
                dt.cpu_mpidrs@ == seq![0u64, 1, 2, 3, 0, 0, 0, 0],
                dt.psci_hvc,
            decreases 16 - i,
        {
            dt.root_compatible[i] = compat[i];
            i = i + 1;
        }
        dt.root_compatible_len = 16;
        proof {
            assert(dt.root_compatible@.subrange(0, 16) =~= qemu_compatible());
        }
        dt
    }

    /// The root compatible bytes.
    pub fn root_compatible_bytes(&self) -> (s: &[u8])
        requires
            self.root_compatible_len <= 64,
        ensures
            s@ == self.root_compatible@.subrange(0, self.root_compatible_len as int),
    {
        let s: &[u8] = self.root_compatible.as_slice();
        vstd::slice::slice_subrange(s, 0, self.root_compatible_len)
    }

    /// The root compatible string; `unknown` when its bytes are not UTF-8.
    pub fn root_compatible_str(&self) -> (s: &str)
        requires
            self.root_compatible_len <= 64,
        ensures
            all_ascii(self.root_compatible@.subrange(0, self.root_compatible_len as int)) ==> s@ == ascii_chars(
                self.root_compatible@.subrange(0, self.root_compatible_len as int),
            ),
            valid_utf8(self.root_compatible@.subrange(0, self.root_compatible_len as int)) ==> s@ == decode_utf8(
                self.root_compatible@.subrange(0, self.root_compatible_len as int),
            ),
    {
        match utf8_str(self.root_compatible_bytes()) {
            Some(s) => s,
            None => "unknown",
        }
    }

    /// GIC distributor and redistributor bases, the QEMU virt ones where the
    /// tree gave none.
    pub fn gic_bases(&self) -> (r: (u64, u64))
        ensures
            r.0 == match self.gicd_base {
                Some(b) => b,
                None => QEMU_GICD_BASE,
            },
            r.1 == match self.gicr_base {
                Some(b) => b,
                None => QEMU_GICR_BASE,
            },
    {
        let d = match self.gicd_base {
            Some(b) => b,
            None => QEMU_GICD_BASE,
        };
        let r = match self.gicr_base {
            Some(b) => b,
            None => QEMU_GICR_BASE,
        };
        (d, r)
    }

    /// Number of CPU nodes found.
    pub fn cpu_count(&self) -> (n: usize)
        ensures
            n == self.cpu_count_val,
    {
        self.cpu_count_val
    }

    /// MPIDR of CPU `index` (of the first eight).
    pub fn cpu_mpidr(&self, index: usize) -> (m: u64)
        requires
            index < MAX_DT_CPUS,
        ensures
            m == self.cpu_mpidrs@[index as int],
    {
        self.cpu_mpidrs[index]
    }

    /// The PSCI conduit: `hvc` or `smc`.
    pub fn psci_method(&self) -> (m: Option<&'static str>)
        ensures
            m is Some,
            self.psci_hvc ==> m == Some("hvc"),
            !self.psci_hvc ==> m == Some("smc"),
    {
        if self.psci_hvc { Some("hvc") } else { Some("smc") }
    }
}

/// `linux,dummy-virt`.
pub open spec fn qemu_compatible() -> Seq<u8> {
    seq![108u8, 105, 110, 117, 120, 44, 100, 117, 109, 109, 121, 45, 118, 105, 114, 116]
}

/// Every byte is ASCII.
pub open spec fn all_ascii(b: Seq<u8>) -> bool {
    forall|i: int| 0 <= i < b.len() ==> b[i] < 128
}

/// ASCII bytes as characters.
pub open spec fn ascii_chars(b: Seq<u8>) -> Seq<char> {
    b.map_values(|x: u8| x as char)
}

/// The total size recorded in a device tree header (its first 8 bytes):
/// `None` unless the big-endian magic is `0xd00dfeed`.
pub fn fdt_total_size(header: &[u8]) -> (r: Option<u32>)
    requires
        header@.len() >= 8,
    ensures
        ({
            let be = |i: int| (header@[i] as int) * 0x100_0000 + (header@[i + 1] as int) * 0x1_0000 + (header@[i + 2] as int) * 0x100
                + (header@[i + 3] as int);
            &&& be(0) != FDT_MAGIC ==> r is None
            &&& be(0) == FDT_MAGIC ==> r == Some(be(4) as u32)
        }),
{
    let magic: u32 = (header[0] as u32) * 0x100_0000 + (header[1] as u32) * 0x1_0000 + (header[2] as u32) * 0x100 + header[3] as u32;
    if magic != FDT_MAGIC {
        return None;
    }
    let size: u32 = (header[4] as u32) * 0x100_0000 + (header[5] as u32) * 0x1_0000 + (header[6] as u32) * 0x100 + header[7] as u32;
    Some(size)
}

/// Read the facts out of a parsed tree (see `dtb_facts`).
fn gather_facts(t: &Tree) -> (f: FdtFacts)
    requires
        fdt_walk_safe(t@),
    ensures
        f@ == dtb_facts(t@),
{
    let root_compatible = match fdt_first_node(t) {
        Some(node) => if node_is_root(&node) {
            node_first_compatible(&node)
        } else {
            None
        },
        None => None,
    };
    let cpus_str = "/cpus";
    let psci_str = "/psci";
    let method_str = "method";
    let pl011 = "arm,pl011";
    let gic = "arm,gic-v3";
    let timer = "arm,armv8-timer";
    proof {
        reveal_strlit("/cpus");
        reveal_strlit("/psci");
        reveal_strlit("method");
        reveal_strlit("arm,pl011");
        reveal_strlit("arm,gic-v3");
        reveal_strlit("arm,armv8-timer");
        assert(cpus_str@ =~= cpus_path());
        assert(psci_str@ =~= psci_path());
        assert(method_str@ =~= method_name());
        assert(pl011@ =~= pl011_compatible());
        assert(gic@ =~= gic_v3_compatible());
        assert(timer@ =~= armv8_timer_compatible());
    }
    let mut cpu_nodes: Vec<(Vec<u8>, Option<Vec<u64>>)> = Vec::new();
    match fdt_find_node(t, cpus_str) {
        Some(cpus) => {
            let children = node_children(&cpus, cpus_str);
            let ghost blob = t@;
            let mut i: usize = 0;
            while i < children.len()
                invariant
                    i <= children@.len(),
                    blob == t@,
                    cpus@ == (blob, QueryView::Path(cpus_path())),
                    children@.len() == dtb_children(blob, QueryView::Path(cpus_path())).len(),
                    forall|k: int|
                        0 <= k < children@.len() ==> (#[trigger] children@[k] is Some) == dtb_children(
                            blob,
                            QueryView::Path(cpus_path()),
                        )[k],
                    forall|k: int|
                        0 <= k < children@.len() ==> (#[trigger] children@[k] matches Some(c) ==> c@ == (
                            blob,
                            QueryView::ChildOfPath(cpus_path(), k),
                        )),
                    fdt_walk_safe(blob),
                    cpu_nodes@.map_values(|e: (Vec<u8>, Option<Vec<u64>>)| cpu_entry_view(e)) == path_children(
                        blob,
                        cpus_path(),
                        i as int,
                    ),
                decreases children@.len() - i,
            {
                let ghost before = cpu_nodes@;
                match &children[i] {
                    Some(child) => {
                        let name = node_name(child);
                        let regs = node_reg(child);
                        cpu_nodes.push((name, regs));
                        proof {
                            assert(cpu_nodes@ == before.push((name, regs)));
                            assert(cpu_nodes@.map_values(|e: (Vec<u8>, Option<Vec<u64>>)| cpu_entry_view(e)) =~= before.map_values(
                                |e: (Vec<u8>, Option<Vec<u64>>)| cpu_entry_view(e),
                            ).push(cpu_entry_view((name, regs))));
                        }
                    },
                    None => {},
                }
                i = i + 1;
            }
        },
        None => {},
    }
    let uart_regs = match fdt_find_compatible(t, pl011) {
        Some(n) => node_reg(&n),
        None => None,
    };
    let gic_regs = match fdt_find_compatible(t, gic) {
        Some(n) => node_reg(&n),
        None => None,
    };
    let psci_method = match fdt_find_node(t, psci_str) {
        Some(n) => match node_find_property(&n, method_str) {
            Some(p) => property_str(&p),
            None => None,
        },
        None => None,
    };
    let timer_interrupts = match fdt_find_compatible(t, timer) {
        Some(n) => node_interrupts(&n),
        None => None,
    };
    let f = FdtFacts { root_compatible, cpu_nodes, uart_regs, gic_regs, psci_method, timer_interrupts };
    proof {
        assert(f@.cpu_nodes =~= dtb_facts(t@).cpu_nodes);
    }
    f
}

impl DeviceTree {
    /// Read the device tree blob `data`: `None` exactly when it does not
    /// parse (see `fdt_header_ok`); otherwise the record of the facts the
    /// crate reads from it (see `dtb_facts`). A blob that parses must be one
    /// the crate walks without a panic or a hang (`fdt_walk_safe`).
    pub fn parse_bytes(data: &[u8]) -> (r: Option<DeviceTree>)
        requires
            fdt_header_ok(data@) ==> fdt_walk_safe(data@),
        ensures
            r is Some <==> fdt_header_ok(data@),
            r matches Some(dt) ==> facts_give(dtb_facts(data@), &dt),
    {
        let t = match fdt_from_bytes(data) {
            Some(t) => t,
            None => {
                return None;
            },
        };
        let facts = gather_facts(&t);
        Some(DeviceTree::from_facts(&facts))
    }
}

} // verus!
