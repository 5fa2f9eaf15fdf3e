use aios_kernel::compositor::cursor::{cursor_arrow, render_cursor, set_position, CursorState};
use aios_kernel::compositor::render::blend_premultiplied;
use aios_kernel::compositor::surface::DamageRect;
use aios_kernel::compositor::text::draw_text_clipped;
use aios_kernel::dtb::DeviceTree;
use aios_kernel::font::load_font_8x16;
use aios_kernel::framebuffer::{BootInfo, Framebuffer};

#[test]
fn qemu_defaults_describe_the_virt_machine() {
    let dt = DeviceTree::qemu_defaults();
    assert_eq!(dt.root_compatible_str(), "linux,dummy-virt");
    assert_eq!(dt.root_compatible_bytes(), b"linux,dummy-virt");
    assert_eq!(dt.cpu_count(), 4);
    assert_eq!(dt.cpu_mpidr(3), 3);
    assert_eq!(dt.psci_method(), Some("hvc"));
}

#[test]
fn framebuffer_from_boot_info_and_test_pattern() {
    let none = BootInfo { framebuffer: 0, fb_width: 10, fb_height: 10, fb_stride: 40, fb_pixel_format: 0 };
    assert!(Framebuffer::from_boot_info(&none).is_none());
    // 10x10 visible, 12 pixels per row in memory.
    let bi = BootInfo { framebuffer: 0x8000_0000, fb_width: 10, fb_height: 10, fb_stride: 48, fb_pixel_format: 0 };
    let mut fb = Framebuffer::from_boot_info(&bi).unwrap();
    assert_eq!(fb.pixels.len(), 120);
    assert_eq!(fb.pack_pixel(0x5B, 0x8C, 0xFF), 0xFF5B_8CFF);
    fb.render_test_pattern();
    // 60% of 10 = 6, centred at 2..8.
    let at = |x: usize, y: usize| fb.pixels[y * 12 + x];
    assert_eq!(at(0, 0), 0xFF00_0000);
    assert_eq!(at(1, 5), 0xFF00_0000);
    assert_eq!(at(2, 2), 0xFF5B_8CFF);
    assert_eq!(at(7, 7), 0xFF5B_8CFF);
    assert_eq!(at(8, 7), 0xFF00_0000);
    // The padding past the visible width is left alone.
    assert_eq!(at(10, 3), 0);
    assert_eq!(at(11, 9), 0);
    // RGBX packs red into the low byte.
    let rgbx = BootInfo { fb_pixel_format: 1, ..bi };
    let fb = Framebuffer::from_boot_info(&rgbx).unwrap();
    assert_eq!(fb.pack_pixel(0x5B, 0x8C, 0xFF), 0xFFFF_8C5B);
    // A stride narrower than the width is still described, row by row.
    let narrow = BootInfo { framebuffer: 0x8000_0000, fb_width: 10, fb_height: 4, fb_stride: 16, fb_pixel_format: 0 };
    let fb = Framebuffer::from_boot_info(&narrow).unwrap();
    assert_eq!((fb.width(), fb.height(), fb.stride()), (10, 4, 16));
    assert_eq!(fb.pixels.len(), 16);
}

#[test]
fn cursor_arrow_is_drawn_with_alpha() {
    let arrow = cursor_arrow();
    assert_eq!(arrow.len(), 256);
    assert_eq!(arrow[0], 0xFF00_0000);
    assert_eq!(arrow[16 + 1], 0xFF00_0000);
    assert_eq!(arrow[2 * 16 + 1], 0xFFFF_FFFF);
    assert_eq!(arrow[15], 0);
    let mut c = CursorState::new();
    set_position(&mut c, 30, 20);
    let mut dst = vec![0xFF12_3456u32; 40 * 30];
    let r = render_cursor(&c, &mut dst, 40, 30);
    assert_eq!(r, Some(DamageRect { x: 30, y: 20, width: 10, height: 10 }));
    assert_eq!(dst[20 * 40 + 30], 0xFF00_0000);
    assert_eq!(dst[22 * 40 + 31], 0xFFFF_FFFF);
    // Transparent parts of the arrow blend a clear pixel over the
    // background.
    assert_eq!(dst[20 * 40 + 35], blend_premultiplied(0, 0xFF12_3456));
    assert_eq!(dst[0], 0xFF12_3456);
}

#[test]
fn clipped_text_stops_at_max_x() {
    let mut font = load_font_8x16();
    assert!(font.is_some());
    let mut dst = vec![0u32; 64 * 20];
    draw_text_clipped(&mut font, &mut dst, 64, 20, 0, 0, 20, b"MMMMMMMM", 1, 2);
    // Glyphs whose cell would pass x = 20 are not drawn.
    for y in 0..20 {
        for x in 20..64 {
            assert_eq!(dst[y * 64 + x], 0);
        }
    }
    assert!(dst[..16].iter().any(|p| *p != 0));
}
