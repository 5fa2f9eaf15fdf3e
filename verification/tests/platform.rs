use aios_kernel::arch::gic::{irq_action, redistributor_base, InterruptController, IrqAction};
use aios_kernel::arch::trap::TrapFrame;
use aios_kernel::arch::mmu::{boot_identity_map, l1_block_descriptor, table_descriptor, ttbr0_l0_addr, virt_to_phys};
use aios_kernel::arch::timer::{secondary_timer_interval, set_tick_interval, timer_tick_handler, TickState};
use aios_kernel::arch::uart::{put_hex, put_str, update_base, UartState, UartWriter};
use aios_kernel::bench::{gate1_verdict, BenchResult};
use aios_kernel::bench::MAX_SAMPLES;
use aios_kernel::boot_phase::{
    advance_boot_phase, boot_elapsed_ms, current_boot_phase, init_boot_timing, BootTiming, EarlyBootPhase,
};
use aios_kernel::drivers::virtio_common::{avail_offset, used_offset, virtqueue_size};
use aios_kernel::drivers::virtio_gpu::{
    check_response, display_info_from_response, DisplayInfo, GpuError, GpuPixelFormat, RESP_DISPLAY_INFO_SIZE,
};
use aios_kernel::dtb::{fdt_total_size, DeviceTree, QEMU_GICD_BASE, QEMU_GICR_BASE};
use aios_kernel::fdt_walk::fdt_walk_check;
use aios_kernel::font::{glyph_rows, load_font_16x32, load_font_8x16, FontFace};
use aios_kernel::gpu::service::{check_swap_allowed, present_rect, GpuBufferHandle, GpuServiceState, VirtioGpuRect, MAX_BUFFERS};
use aios_kernel::ids::ChannelId;

#[test]
fn gpu_response_header_is_checked() {
    assert_eq!(check_response(&[0x00, 0x11, 0, 0]), Ok(()));
    assert_eq!(check_response(&[0x01, 0x11, 0, 0, 9]), Ok(()));
    assert_eq!(check_response(&[0x00, 0x12, 0, 0]), Err(GpuError::CommandFailed));
    assert_eq!(check_response(&[0x00, 0x11]), Err(GpuError::CommandFailed));
}

fn put_le(b: &mut [u8], off: usize, v: u32) {
    b[off..off + 4].copy_from_slice(&v.to_le_bytes());
}

#[test]
fn display_info_picks_first_enabled_scanout() {
    let mut resp = vec![0u8; RESP_DISPLAY_INFO_SIZE];
    put_le(&mut resp, 0, 0x1101);
    // Scanout 1 enabled but empty; scanout 2 enabled 1280x800.
    put_le(&mut resp, 24 + 24 + 16, 1);
    put_le(&mut resp, 24 + 48 + 8, 1280);
    put_le(&mut resp, 24 + 48 + 12, 800);
    put_le(&mut resp, 24 + 48 + 16, 1);
    let d = display_info_from_response(&resp);
    assert_eq!(d, DisplayInfo { width: 1280, height: 800, format: GpuPixelFormat::B8G8R8A8, scanout_id: 2 });
    let blank = vec![0u8; RESP_DISPLAY_INFO_SIZE];
    assert_eq!(
        display_info_from_response(&blank),
        DisplayInfo { width: 1024, height: 768, format: GpuPixelFormat::B8G8R8A8, scanout_id: 0 }
    );
}

fn handle(id: u32) -> GpuBufferHandle {
    GpuBufferHandle {
        resource_id: id,
        width: 64,
        height: 32,
        format: GpuPixelFormat::B8G8R8A8,
        stride: 256,
        fb_phys: 0x1000 * id as u64,
        fb_virt: 0,
        page_count: 2,
        order: 1,
    }
}

#[test]
fn gpu_buffer_table_tracks_finds_and_releases() {
    let display = DisplayInfo { width: 640, height: 480, format: GpuPixelFormat::B8G8R8A8, scanout_id: 0 };
    let mut st = GpuServiceState::new(display, ChannelId(3));
    assert_eq!(st.track_buffer(handle(5)), Ok(0));
    assert_eq!(st.track_buffer(handle(6)), Ok(1));
    assert_eq!(st.find_buffer(6), Some(handle(6)));
    assert_eq!(st.remove_buffer(5), Some(handle(5)));
    assert_eq!(st.find_buffer(5), None);
    assert_eq!(st.remove_buffer(5), None);
    // The freed slot is reused first.
    assert_eq!(st.track_buffer(handle(7)), Ok(0));
    for i in 0..(MAX_BUFFERS - 2) {
        assert!(st.track_buffer(handle(100 + i as u32)).is_ok());
    }
    assert_eq!(st.track_buffer(handle(999)), Err(GpuError::OutOfMemory));
    assert_eq!(st.allocation_size(0, 100), Ok((640, 100)));
    assert_eq!(st.allocation_size(10, 0), Ok((10, 480)));
}

#[test]
fn gpu_swap_and_present_rules() {
    let display = DisplayInfo { width: 0, height: 0, format: GpuPixelFormat::B8G8R8A8, scanout_id: 0 };
    let mut st = GpuServiceState::new(display, ChannelId(3));
    assert_eq!(st.allocation_size(0, 0), Err(GpuError::InvalidResource));
    assert_eq!(check_swap_allowed(&st), Err(GpuError::DeviceNotFound));
    assert_eq!(st.swap_begin(), Err(GpuError::InvalidResource));
    st.enable_double_buffering(handle(1), handle(2));
    assert_eq!(check_swap_allowed(&st), Ok(()));
    let (nf, nb) = st.swap_begin().unwrap();
    assert_eq!((nf, nb), (handle(2), handle(1)));
    assert_eq!(st.swap_finish(nf, nb, Ok(())), Ok(()));
    assert_eq!((st.front_buffer, st.back_buffer), (Some(handle(2)), Some(handle(1))));
    let (nf, nb) = st.swap_begin().unwrap();
    assert_eq!(st.swap_finish(nf, nb, Err(GpuError::CommandFailed)), Err(GpuError::CommandFailed));
    assert_eq!((st.front_buffer, st.back_buffer), (Some(handle(2)), Some(handle(1))));

    let h = handle(1);
    assert_eq!(present_rect(&h, 0, 0, 0, 5), Ok(VirtioGpuRect { x: 0, y: 0, width: 64, height: 32 }));
    assert_eq!(present_rect(&h, 10, 4, 20, 8), Ok(VirtioGpuRect { x: 10, y: 4, width: 20, height: 8 }));
    assert_eq!(present_rect(&h, 50, 0, 20, 8), Err(GpuError::InvalidResource));
    assert_eq!(present_rect(&h, u32::MAX, 0, 20, 8), Err(GpuError::InvalidResource));
}

#[test]
fn bench_statistics_and_p99() {
    let mut buf = vec![0u64; MAX_SAMPLES];
    let mut r = BenchResult::new("t");
    assert_eq!(r.avg_ns(), 0);
    assert_eq!(r.p99_ns(&mut buf), 0);
    for v in [500u64, 100, 300, 200, 400] {
        r.record(&mut buf, v);
    }
    assert_eq!(r.iterations, 5);
    assert_eq!(r.min_ns, 100);
    assert_eq!(r.max_ns, 500);
    assert_eq!(r.avg_ns(), 300);
    assert_eq!(r.avg_us(), 0);
    // 5 * 99 / 100 = 4: the largest of five.
    assert_eq!(r.p99_ns(&mut buf), 500);
    assert_eq!(&buf[..5], &[100, 200, 300, 400, 500]);
    r.reset_samples(&mut buf);
    assert_eq!(&buf[..5], &[0, 0, 0, 0, 0]);
}

#[test]
fn bench_p99_of_many_samples() {
    let mut buf = vec![0u64; MAX_SAMPLES];
    let mut r = BenchResult::new("many");
    for i in 0..200u64 {
        r.record(&mut buf, (i * 7919) % 200 + 1000);
    }
    // 200 * 99 / 100 = 198: the second largest sample.
    assert_eq!(r.p99_ns(&mut buf), 1198);
    assert_eq!(r.p99_us(&mut buf), 1);
}

#[test]
fn virtqueue_layout() {
    assert_eq!(avail_offset(128), 2048);
    assert_eq!(used_offset(128), 4096);
    assert_eq!(virtqueue_size(128), 8192);
    assert_eq!(used_offset(8), 4096);
}

#[test]
fn page_table_descriptors() {
    assert_eq!(table_descriptor(0x4000_1000), 0x4000_1003);
    assert_eq!(table_descriptor(0x4000_1234), 0x4000_1003);
    assert_eq!(l1_block_descriptor(0x4000_0000, 3, true), 0x4000_070D);
    assert_eq!(l1_block_descriptor(0x4000_0000, 3, false), 0x0060_0000_4000_070D);
    assert_eq!(virt_to_phys(0xFFFE_FFFF_C008_0000), 0x8_0000);
}

#[test]
fn interrupt_dispatch() {
    assert_eq!(irq_action(30), IrqAction::TimerTick);
    assert_eq!(irq_action(1023), IrqAction::Ignore);
    assert_eq!(irq_action(33), IrqAction::Unhandled);
    assert_eq!(redistributor_base(0x080A_0000, 2), 0x080E_0000);
}

#[test]
fn timer_tick_actions() {
    let mut st = TickState { tick_count: 0, tick_interval: 625_000 };
    let a = timer_tick_handler(&mut st, 0);
    assert_eq!(a.rearm, Some(625_000));
    assert!(a.drain_logs);
    assert_eq!(a.heartbeat, Some(0));
    assert_eq!(st.tick_count, 1);
    let b = timer_tick_handler(&mut st, 2);
    assert_eq!(st.tick_count, 1);
    assert!(!b.drain_logs);
    assert_eq!(b.heartbeat, None);
}

#[test]
fn console_output() {
    let mut w = UartWriter { out: Vec::new() };
    w.write_str(b"a\nb");
    assert_eq!(w.out, b"a\r\nb".to_vec());
    let mut out = Vec::new();
    put_str(&mut out, b"x=");
    put_hex(&mut out, 0x1234_abcd);
    assert_eq!(out, b"x=000000001234abcd".to_vec());
}

#[test]
fn boot_phases_and_elapsed_time() {
    let mut t = BootTiming { start_ticks: 100, current_phase: 0 };
    assert!(!advance_boot_phase(&mut t, EarlyBootPhase::ExceptionVectors));
    assert!(advance_boot_phase(&mut t, EarlyBootPhase::UartReady));
    assert_eq!(t.current_phase, 3);
    assert_eq!(EarlyBootPhase::from_number(3).map(|p| p.number()), Some(3));
    assert!(EarlyBootPhase::from_number(17).is_none());
    assert_eq!(boot_elapsed_ms(&t, 62_500_100, 62_500_000), 1000);
    assert_eq!(boot_elapsed_ms(&t, 62_500_100, 0), 0);
}

fn minimal_fdt() -> Vec<u8> {
    let mut b = Vec::new();
    let be = |v: u32| v.to_be_bytes();
    b.extend_from_slice(&be(0xd00d_feed)); // magic
    b.extend_from_slice(&be(72)); // total size
    b.extend_from_slice(&be(56)); // struct block
    b.extend_from_slice(&be(72)); // strings block
    b.extend_from_slice(&be(40)); // memory reservations
    b.extend_from_slice(&be(17)); // version
    b.extend_from_slice(&be(16)); // last compatible version
    b.extend_from_slice(&be(0)); // boot cpu
    b.extend_from_slice(&be(0)); // strings size
    b.extend_from_slice(&be(16)); // struct size
    b.extend_from_slice(&[0u8; 16]); // empty reservation map
    b.extend_from_slice(&be(1)); // begin node
    b.extend_from_slice(&[0u8; 4]); // root name, padded
    b.extend_from_slice(&be(2)); // end node
    b.extend_from_slice(&be(9)); // end
    b
}

#[test]
fn device_tree_header() {
    let fdt = minimal_fdt();
    assert_eq!(fdt_total_size(&fdt[..8]), Some(72));
    assert_eq!(fdt_total_size(&[0u8; 8]), None);
    // A blob with a bad magic, or shorter than it says, does not parse.
    assert!(DeviceTree::parse_bytes(&[0u8; 64]).is_none());
    assert!(DeviceTree::parse_bytes(&fdt[..60]).is_none());
}

#[test]
fn device_tree_without_devices_uses_defaults() {
    let fdt = minimal_fdt();
    let dt = DeviceTree::parse_bytes(&fdt).expect("a minimal tree parses");
    assert_eq!(dt.uart_base, None);
    assert_eq!(dt.gic_bases(), (QEMU_GICD_BASE, QEMU_GICR_BASE));
    assert_eq!(dt.cpu_count_val, 0);
    assert_eq!(dt.timer_ppi, 30);
    let q = DeviceTree::qemu_defaults();
    assert_eq!(q.gic_bases(), (QEMU_GICD_BASE, QEMU_GICR_BASE));
}

#[test]
fn spleen_fonts_load_and_give_glyphs() {
    let mut small = load_font_8x16().expect("8x16 loads");
    assert_eq!(small.face(), FontFace::Spleen8x16);
    let g = glyph_rows(&mut small, b"A").expect("A has a glyph");
    assert!(!g.is_empty());
    assert!(g.iter().all(|row| row.len() == 8));
    let mut big = load_font_16x32().expect("16x32 loads");
    assert_eq!(big.face(), FontFace::Spleen16x32);
    let a = glyph_rows(&mut big, b"A").expect("A has a glyph");
    assert_eq!(a.len(), 32);
    assert!(a.iter().all(|row| row.len() == 16));
    assert!(a.iter().any(|row| row.iter().any(|p| *p)));
    let b = glyph_rows(&mut big, b"B").expect("B has a glyph");
    assert_ne!(a, b);
    let space = glyph_rows(&mut big, b" ").expect("space has a glyph");
    assert!(space.iter().all(|row| row.iter().all(|p| !*p)));
    // A multi-byte sequence the font does not cover has no glyph.
    assert!(glyph_rows(&mut big, &[0xF4, 0x8F, 0xBF, 0xBF]).is_none());
}

#[test]
fn interrupt_enable_registers() {
    let mut ic = InterruptController::new(QEMU_GICD_BASE as usize, QEMU_GICR_BASE as usize);
    assert_eq!(ic.enable_irq_target(30), (QEMU_GICR_BASE as usize + 0x10100, 1 << 30));
    assert_eq!(ic.enable_irq_target(33), (QEMU_GICD_BASE as usize + 0x104, 1 << 1));
    ic.update_bases(0x1000, 0x2000);
    assert_eq!((ic.gicd_base(), ic.gicr_base()), (0x1000, 0x2000));
    let mut uart = UartState { base_addr: 0x0900_0000 };
    update_base(&mut uart, 0x1234);
    assert_eq!(uart.base_addr, 0x1234);
}

#[test]
fn boot_identity_map_and_ttbr0() {
    let (l0, blocks) = boot_identity_map(0x4008_1000);
    assert_eq!(l0, table_descriptor(0x4008_1000));
    assert_eq!(blocks[1], l1_block_descriptor(0x4000_0000, 3, true));
    assert_eq!(blocks[2] & 0xFFFF_FFFF, 0x8000_070D);
    assert_eq!(blocks[0] & 0x1C, 0); // device memory: MAIR index 0
    assert_eq!(ttbr0_l0_addr(0xFFFE_FFFF_C008_0000), 0x8_0000);
}

#[test]
fn secondary_cores_and_boot_phase_lookup() {
    let mut st = TickState { tick_count: 0, tick_interval: 0 };
    assert_eq!(secondary_timer_interval(&st), None);
    set_tick_interval(&mut st, 62_500);
    assert_eq!(secondary_timer_interval(&st), Some(62_500));
    let mut t = BootTiming { start_ticks: 0, current_phase: 0 };
    init_boot_timing(&mut t, 77);
    assert_eq!(t.start_ticks, 77);
    advance_boot_phase(&mut t, EarlyBootPhase::HeapReady);
    assert_eq!(current_boot_phase(&t), EarlyBootPhase::HeapReady);
    t.current_phase = 99;
    assert_eq!(current_boot_phase(&t), EarlyBootPhase::EntryPoint);
    let tf = TrapFrame::zeroed();
    assert!(tf.x.iter().all(|r| *r == 0));
}

#[test]
fn gate1_thresholds() {
    assert_eq!(gate1_verdict(9, 19), (true, true));
    assert_eq!(gate1_verdict(10, 20), (false, false));
    assert_eq!(gate1_verdict(3, 25), (true, false));
}

/// Builds a device tree blob: struct block after the header and an empty
/// reservation map, strings block after it.
struct FdtBuilder {
    structs: Vec<u8>,
    strings: Vec<u8>,
}

impl FdtBuilder {
    fn new() -> FdtBuilder {
        FdtBuilder { structs: Vec::new(), strings: Vec::new() }
    }
    fn word(&mut self, v: u32) {
        self.structs.extend_from_slice(&v.to_be_bytes());
    }
    fn pad(&mut self) {
        while self.structs.len() % 4 != 0 {
            self.structs.push(0);
        }
    }
    fn begin(&mut self, name: &str) {
        self.word(1);
        self.structs.extend_from_slice(name.as_bytes());
        self.structs.push(0);
        self.pad();
    }
    fn end(&mut self) {
        self.word(2);
    }
    fn name_offset(&mut self, name: &str) -> u32 {
        let off = self.strings.len() as u32;
        self.strings.extend_from_slice(name.as_bytes());
        self.strings.push(0);
        off
    }
    fn prop(&mut self, name: &str, value: &[u8]) {
        let off = self.name_offset(name);
        self.word(3);
        self.word(value.len() as u32);
        self.word(off);
        self.structs.extend_from_slice(value);
        self.pad();
    }
    fn prop_u32s(&mut self, name: &str, cells: &[u32]) {
        let v: Vec<u8> = cells.iter().flat_map(|c| c.to_be_bytes()).collect();
        self.prop(name, &v);
    }
    fn finish(mut self, with_end: bool) -> Vec<u8> {
        if with_end {
            self.word(9);
        }
        let struct_off = 56u32;
        let strings_off = struct_off + self.structs.len() as u32;
        let total = strings_off + self.strings.len() as u32;
        let mut b = Vec::new();
        for v in [0xd00d_feed, total, struct_off, strings_off, 40, 17, 16, 0, self.strings.len() as u32, self.structs.len() as u32] {
            b.extend_from_slice(&u32::to_be_bytes(v));
        }
        b.extend_from_slice(&[0u8; 16]);
        b.extend_from_slice(&self.structs);
        b.extend_from_slice(&self.strings);
        b
    }
}

fn small_virt_tree(method: &str, pcie_cells: u32) -> FdtBuilder {
    let mut t = FdtBuilder::new();
    t.begin("");
    t.prop("compatible", b"linux,dummy-virt\0");
    t.prop_u32s("#address-cells", &[2]);
    t.prop_u32s("#size-cells", &[2]);
    t.begin("psci");
    t.prop("method", format!("{}\0", method).as_bytes());
    t.end();
    t.begin("pl011@9000000");
    t.prop("compatible", b"arm,pl011\0arm,primecell\0");
    t.prop_u32s("reg", &[0, 0x0900_0000, 0, 0x1000]);
    t.end();
    t.begin("pcie@10000000");
    t.prop_u32s("#address-cells", &[pcie_cells]);
    t.prop_u32s("#size-cells", &[2]);
    t.end();
    t.begin("cpus");
    t.prop_u32s("#address-cells", &[1]);
    t.prop_u32s("#size-cells", &[0]);
    t.begin("cpu@0");
    t.prop_u32s("reg", &[0]);
    t.end();
    t.begin("cpu@1");
    t.prop_u32s("reg", &[1]);
    t.end();
    t.end();
    t.end();
    t
}

#[test]
fn device_tree_facts_come_from_the_blob() {
    let blob = small_virt_tree("hvc", 3).finish(true);
    assert!(fdt_walk_check(&blob));
    let dt = DeviceTree::parse_bytes(&blob).expect("the tree parses");
    assert_eq!(dt.root_compatible_str(), "linux,dummy-virt");
    assert_eq!(dt.uart_base, Some(0x0900_0000));
    assert_eq!(dt.cpu_count(), 2);
    assert_eq!(dt.cpu_mpidr(1), 1);
    assert!(dt.psci_hvc);
    assert_eq!(dt.gic_bases(), (QEMU_GICD_BASE, QEMU_GICR_BASE));
    assert_eq!(dt.timer_ppi, 30);
    let smc = small_virt_tree("smc", 3).finish(true);
    assert!(!DeviceTree::parse_bytes(&smc).unwrap().psci_hvc);
}

#[test]
fn walk_check_refuses_blobs_the_parser_cannot_walk() {
    // A child with `reg` under three address cells.
    let mut t = FdtBuilder::new();
    t.begin("");
    t.begin("pcie@10000000");
    t.prop_u32s("#address-cells", &[3]);
    t.begin("dev@0");
    t.prop_u32s("reg", &[0, 0, 0]);
    t.end();
    t.end();
    t.end();
    assert!(!fdt_walk_check(&t.finish(true)));
    // The same node under two address cells is fine.
    let mut t = FdtBuilder::new();
    t.begin("");
    t.begin("bus@10000000");
    t.prop_u32s("#address-cells", &[2]);
    t.begin("dev@0");
    t.prop_u32s("reg", &[0, 0, 0]);
    t.end();
    t.end();
    t.end();
    assert!(fdt_walk_check(&t.finish(true)));
    // A property name offset past the blob.
    let mut t = FdtBuilder::new();
    t.begin("");
    t.word(3);
    t.word(0);
    t.word(0x10_0000);
    t.end();
    assert!(!fdt_walk_check(&t.finish(true)));
    // The blob ends inside a node's property look-ahead.
    let mut t = FdtBuilder::new();
    t.begin("");
    t.prop_u32s("#size-cells", &[1]);
    assert!(!fdt_walk_check(&t.finish(false)));
    // Offsets past the blob.
    let mut bad = minimal_fdt();
    bad[8..12].copy_from_slice(&1000u32.to_be_bytes());
    assert!(!fdt_walk_check(&bad));
    assert!(fdt_walk_check(&minimal_fdt()));
}
