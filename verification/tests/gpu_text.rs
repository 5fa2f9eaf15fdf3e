use aios_kernel::font::load_font_16x32;
use aios_kernel::gpu::text::{draw_boot_log, draw_text, fill_rect, BootLogColors, FbInfo};

#[test]
fn fill_rect_clips_to_visible_area() {
    let fb = FbInfo { stride_px: 5, width: 4, height: 3 };
    let mut buf = vec![0u32; 15];
    fill_rect(&fb, &mut buf, 1, 1, 2, 5, 7);
    let expected = vec![
        0, 0, 0, 0, 0, //
        0, 7, 7, 0, 0, //
        0, 7, 7, 0, 0,
    ];
    assert_eq!(buf, expected);
    // The padding column past the visible width is never written.
    fill_rect(&fb, &mut buf, 0, 0, 100, 100, 9);
    for row in 0..3 {
        assert_eq!(&buf[row * 5..row * 5 + 4], &[9, 9, 9, 9]);
        assert_eq!(buf[row * 5 + 4], 0);
    }
}

#[test]
fn draw_text_wraps_at_right_edge() {
    let mut font = load_font_16x32().expect("spleen 16x32");
    let fb = FbInfo { stride_px: 40, width: 40, height: 70 };
    let mut buf = vec![0u32; 40 * 70];
    draw_text(&mut font, &fb, &mut buf, "AAA", 0, 0, 1, 2);
    // Two glyph cells on the first row, each only foreground/background.
    for y in 0..32 {
        for x in 0..32 {
            let p = buf[y * 40 + x];
            assert!(p == 1 || p == 2);
        }
        // The last 8 columns stay untouched: the third glyph wrapped.
        for x in 32..40 {
            assert_eq!(buf[y * 40 + x], 0);
        }
    }
    assert!(buf[..32 * 40].iter().any(|p| *p == 1));
    // The wrapped glyph is on the second line at x = 0.
    for y in 32..64 {
        for x in 0..16 {
            let p = buf[y * 40 + x];
            assert!(p == 1 || p == 2);
        }
        assert_eq!(buf[y * 40 + 16], 0);
    }
    // Below the second line nothing is drawn.
    assert!(buf[64 * 40..].iter().all(|p| *p == 0));
}

#[test]
fn draw_text_newline_returns_to_start_column() {
    let mut font = load_font_16x32().expect("spleen 16x32");
    let fb = FbInfo { stride_px: 64, width: 64, height: 64 };
    let mut buf = vec![0u32; 64 * 64];
    draw_text(&mut font, &fb, &mut buf, "B\nC", 8, 0, 1, 2);
    assert_eq!(buf[0], 0);
    assert!(buf[8] == 1 || buf[8] == 2);
    assert!(buf[32 * 64 + 8] == 1 || buf[32 * 64 + 8] == 2);
    assert_eq!(buf[32 * 64 + 24], 0);
}

#[test]
fn boot_log_clears_and_draws_header_and_lines() {
    let mut font = None;
    let fb = FbInfo { stride_px: 320, width: 320, height: 128 };
    let mut buf = vec![5u32; 320 * 128];
    let colors = BootLogColors { background: 0x10, header: 0x20, text: 0x30 };
    let lines = vec![b"hello".to_vec()];
    draw_boot_log(&mut font, &fb, &mut buf, &lines, colors);
    assert!(font.is_some());
    assert!(buf.iter().all(|p| *p == 0x10 || *p == 0x20 || *p == 0x30));
    // Header glyphs in the first 32 rows; the log line from row 64.
    assert!(buf[..32 * 320].iter().any(|p| *p == 0x20));
    assert!(buf[64 * 320..96 * 320].iter().any(|p| *p == 0x30));
    assert!(buf[32 * 320..64 * 320].iter().all(|p| *p == 0x10));
    assert_eq!(buf[127 * 320 + 319], 0x10);
}
