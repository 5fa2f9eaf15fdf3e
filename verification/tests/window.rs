use aios_kernel::compositor::surface::{
    Surface, SurfaceContentType, SurfaceLayer, SurfaceState, SurfaceTitle,
};
use aios_kernel::compositor::window::{
    clamp_window_size, default_position, fill_rect, is_decorated, outer_rect, render_focus_indicator,
    render_title_bar, WindowDecoration, ZOrder, BORDER_FOCUSED, BORDER_UNFOCUSED, CASCADE_STEP,
    CLOSE_BUTTON_FG, MIN_WINDOW_HEIGHT, MIN_WINDOW_WIDTH, TITLE_BAR_FOCUSED_BG, TITLE_BAR_UNFOCUSED_BG,
};
use aios_kernel::ids::{ChannelId, ProcessId, SurfaceId, MAX_SURFACES};

#[test]
fn z_order_push_and_iter() {
    let mut z = ZOrder::new();
    assert!(z.push(SurfaceId(1)));
    assert!(z.push(SurfaceId(2)));
    assert!(z.push(SurfaceId(3)));
    let collected = z.iter();
    assert_eq!(collected, vec![SurfaceId(1), SurfaceId(2), SurfaceId(3)]);
}

#[test]
fn z_order_raise_to_top_moves_entry() {
    let mut z = ZOrder::new();
    z.push(SurfaceId(1));
    z.push(SurfaceId(2));
    z.push(SurfaceId(3));
    z.raise_to_top(SurfaceId(1));
    let collected = z.iter();
    assert_eq!(collected, vec![SurfaceId(2), SurfaceId(3), SurfaceId(1)]);
}

#[test]
fn z_order_remove() {
    let mut z = ZOrder::new();
    z.push(SurfaceId(1));
    z.push(SurfaceId(2));
    z.push(SurfaceId(3));
    z.remove(SurfaceId(2));
    let collected = z.iter();
    assert_eq!(collected, vec![SurfaceId(1), SurfaceId(3)]);
    assert_eq!(z.len(), 2);
}

#[test]
fn z_order_raise_unknown_is_noop() {
    let mut z = ZOrder::new();
    z.push(SurfaceId(1));
    z.raise_to_top(SurfaceId(99));
    let collected = z.iter();
    assert_eq!(collected, vec![SurfaceId(1)]);
}

#[test]
fn z_order_full_capacity_rejects_extra_push() {
    let mut z = ZOrder::new();
    for i in 1..=MAX_SURFACES as u64 {
        assert!(z.push(SurfaceId(i)));
    }
    assert!(!z.push(SurfaceId(999)));
}

#[test]
fn default_position_centers_then_cascades() {
    // 200x100 window in a 1280x800 display.
    let (x0, y0) = default_position(200, 100, 1280, 800, 0);
    assert_eq!((x0, y0), (540, 350));
    // Sequence 1 cascades by CASCADE_STEP.
    let (x1, y1) = default_position(200, 100, 1280, 800, 1);
    assert_eq!((x1 - x0, y1 - y0), (CASCADE_STEP, CASCADE_STEP));
}

#[test]
fn clamp_window_size_enforces_minimum() {
    assert_eq!(clamp_window_size(50, 50), (MIN_WINDOW_WIDTH, MIN_WINDOW_HEIGHT));
    assert_eq!(clamp_window_size(800, 600), (800, 600));
}

#[test]
fn fill_rect_clips_at_bounds() {
    let mut dst = vec![0u32; 16];
    // 4x4 framebuffer; fill from (-1, -1) size (3, 3) -> only (0,0)..(1,1) drawn.
    fill_rect(&mut dst, 4, 4, -1, -1, 3, 3, 0xAB);
    assert_eq!(dst[0], 0xAB);
    assert_eq!(dst[1], 0xAB);
    assert_eq!(dst[4], 0xAB);
    assert_eq!(dst[5], 0xAB);
    // Pixel (2,2) untouched.
    assert_eq!(dst[10], 0);
}

#[test]
fn z_order_push_then_remove_restores_list() {
    let mut z = ZOrder::new();
    z.push(SurfaceId(4));
    z.push(SurfaceId(5));
    let before = z.iter();
    assert!(z.push(SurfaceId(6)));
    z.remove(SurfaceId(6));
    assert_eq!(z.iter(), before);
}

#[test]
fn z_order_rejects_none_id() {
    let mut z = ZOrder::new();
    assert!(!z.push(SurfaceId(0)));
    assert_eq!(z.len(), 0);
    assert_eq!(z.iter_top_down(), Vec::<SurfaceId>::new());
}

#[test]
fn default_position_wraps_cascade() {
    // Eight steps of 24 reach the wrap distance of 192 and start over.
    let (x0, y0) = default_position(200, 100, 1280, 800, 0);
    let (x8, y8) = default_position(200, 100, 1280, 800, 8);
    assert_eq!((x8, y8), (x0, y0));
    let (x9, _) = default_position(200, 100, 1280, 800, 9);
    assert_eq!(x9 - x0, CASCADE_STEP);
}

#[test]
fn fill_rect_zero_size_draws_nothing() {
    let mut dst = vec![7u32; 16];
    fill_rect(&mut dst, 4, 4, 0, 0, 0, 3, 1);
    assert_eq!(dst, vec![7u32; 16]);
}

fn surface(layer: SurfaceLayer) -> Surface {
    Surface {
        id: SurfaceId(3),
        state: SurfaceState::Active,
        layer,
        title: SurfaceTitle::from_bytes(b"t"),
        content_type: SurfaceContentType::Generic,
        x: 10,
        y: 20,
        width: 100,
        height: 50,
        shmem_id: None,
        owner_pid: ProcessId(2),
        channel: ChannelId(1),
        layer_seq: 0,
        damaged: false,
        visible: true,
    }
}

#[test]
fn outer_rect_adds_decoration_only_to_windows() {
    let deco = WindowDecoration::default_decoration();
    assert!(is_decorated(&surface(SurfaceLayer::Normal)));
    assert!(is_decorated(&surface(SurfaceLayer::TopLevel)));
    assert!(!is_decorated(&surface(SurfaceLayer::Panel)));
    assert_eq!(outer_rect(&surface(SurfaceLayer::Normal), &deco), (10, 20, 104, 78));
    assert_eq!(outer_rect(&surface(SurfaceLayer::Background), &deco), (10, 20, 100, 50));
}

#[test]
fn focus_indicator_draws_the_border_in_focus_color() {
    let deco = WindowDecoration::default_decoration();
    let mut dst = vec![0u32; 100];
    render_focus_indicator(&mut dst, 10, 10, 0, 0, 10, 10, true, &deco);
    assert_eq!(dst[0], BORDER_FOCUSED);
    assert_eq!(dst[9], BORDER_FOCUSED);
    assert_eq!(dst[99], BORDER_FOCUSED);
    assert_eq!(dst[5 * 10 + 1], BORDER_FOCUSED);
    // The inside is untouched.
    assert_eq!(dst[5 * 10 + 5], 0);
    let mut dst2 = vec![0u32; 100];
    render_focus_indicator(&mut dst2, 10, 10, 0, 0, 10, 10, false, &deco);
    assert_eq!(dst2[0], BORDER_UNFOCUSED);
}

#[test]
fn title_bar_fills_bar_and_draws_close_cross() {
    let deco = WindowDecoration::default_decoration();
    let w = 200u32;
    let h = 40u32;
    let mut dst = vec![0u32; (w * h) as usize];
    let mut font = None;
    render_title_bar(&mut font, &mut dst, w, h, 0, 0, 196, true, b"", &deco);
    // The bar starts below the 2-pixel border and spans the outer width.
    assert_eq!(dst[0], 0);
    assert_eq!(dst[(2 * w) as usize], TITLE_BAR_FOCUSED_BG);
    assert_eq!(dst[(2 * w + 199) as usize], TITLE_BAR_FOCUSED_BG);
    // Close cell at x = 200 - 2 - 24 = 174; inset 6; first cross pixel (180, 8).
    assert_eq!(dst[(8 * w + 180) as usize], CLOSE_BUTTON_FG);
    // Its anti-diagonal starts at (180 + 11, 8).
    assert_eq!(dst[(8 * w + 191) as usize], CLOSE_BUTTON_FG);
    let mut dst2 = vec![0u32; (w * h) as usize];
    render_title_bar(&mut font, &mut dst2, w, h, 0, 0, 196, false, b"", &deco);
    assert_eq!(dst2[(2 * w) as usize], TITLE_BAR_UNFOCUSED_BG);
}

#[test]
fn title_bar_draws_title_text_with_font() {
    let deco = WindowDecoration::default_decoration();
    let w = 200u32;
    let h = 40u32;
    let mut plain = vec![0u32; (w * h) as usize];
    let mut font = None;
    render_title_bar(&mut font, &mut plain, w, h, 0, 0, 196, true, b"", &deco);
    let mut titled = vec![0u32; (w * h) as usize];
    render_title_bar(&mut font, &mut titled, w, h, 0, 0, 196, true, b"AB", &deco);
    assert!(font.is_some());
    // The glyph cells of the title differ from the bare bar.
    let mut differs = false;
    for y in 2..26u32 {
        for x in 8..24u32 {
            if titled[(y * w + x) as usize] != plain[(y * w + x) as usize] {
                differs = true;
            }
        }
    }
    assert!(differs);
}

#[test]
fn cascade_repeats_every_eight_windows() {
    for s in 0..20u64 {
        assert_eq!(default_position(200, 100, 1280, 800, s), default_position(200, 100, 1280, 800, s + 8));
    }
    assert_eq!(default_position(200, 100, 1280, 800, 7), (540 + 168, 350 + 168));
}
