use aios_kernel::compositor::render::{
    blit_alpha_premultiplied, blit_opaque, compose_frame, z_order_key, ClipRect, DamageTracker,
};
use aios_kernel::compositor::surface::{
    DamageRect, Surface, SurfaceContentType, SurfaceLayer, SurfaceState, SurfaceTitle,
};
use aios_kernel::compositor::window::{hit_test_topmost, HitZone, WindowDecoration, ZOrder};
use aios_kernel::ids::{ChannelId, ProcessId, SurfaceId};

#[test]
fn clip_rect_trims_to_destination() {
    let c = ClipRect::new(-2, 1, 4, 4, 5, 5).unwrap();
    assert_eq!((c.src_x, c.src_y, c.dst_x, c.dst_y, c.copy_w, c.copy_h), (2, 0, 0, 1, 2, 4));
    assert!(ClipRect::new(5, 0, 4, 4, 5, 5).is_none());
    assert!(ClipRect::new(-4, 0, 4, 4, 5, 5).is_none());
    assert!(ClipRect::new(0, 0, 0, 4, 5, 5).is_none());
}

#[test]
fn opaque_blit_copies_the_visible_part() {
    let src = vec![1, 2, 3, 4];
    let mut dst = vec![0u32; 12];
    let r = blit_opaque(&src, 2, 2, &mut dst, 4, 3, 3, 2);
    assert_eq!(r, Some(DamageRect { x: 3, y: 2, width: 1, height: 1 }));
    assert_eq!(dst, vec![0, 0, 0, 0, 0, 0, 0, 0, 0, 0, 0, 1]);
    let r = blit_opaque(&src, 2, 2, &mut dst, 4, 3, -1, -1);
    assert_eq!(r, Some(DamageRect { x: 0, y: 0, width: 1, height: 1 }));
    assert_eq!(dst[0], 4);
    assert_eq!(blit_opaque(&src, 2, 2, &mut dst, 4, 3, 10, 0), None);
}

#[test]
fn alpha_blit_blends_each_pixel() {
    let src = vec![0xFF11_2233, 0x0000_0000];
    let mut dst = vec![0xFF80_8080u32; 2];
    let r = blit_alpha_premultiplied(&src, 2, 1, &mut dst, 2, 1, 0, 0);
    assert_eq!(r, Some(DamageRect { x: 0, y: 0, width: 2, height: 1 }));
    assert_eq!(dst, vec![0xFF11_2233, 0xFE7F_7F7F]);
}

fn window(id: u64, x: i32, y: i32, w: u32, h: u32, layer: SurfaceLayer, seq: u64) -> Surface {
    Surface {
        id: SurfaceId(id),
        state: SurfaceState::Active,
        layer,
        title: SurfaceTitle::from_bytes(b"w"),
        content_type: SurfaceContentType::Generic,
        x,
        y,
        width: w,
        height: h,
        shmem_id: None,
        owner_pid: ProcessId(2),
        channel: ChannelId(1),
        layer_seq: seq,
        damaged: true,
        visible: true,
    }
}

#[test]
fn compose_paints_in_order_and_tracks_damage() {
    let mut dst = vec![0u32; 16];
    let mut damage = DamageTracker::new();
    let low = window(1, 0, 0, 2, 2, SurfaceLayer::Normal, 1);
    let high = window(2, 1, 1, 2, 2, SurfaceLayer::Normal, 2);
    let mut hidden = window(3, 0, 0, 4, 4, SurfaceLayer::Overlay, 3);
    hidden.visible = false;
    let surfaces = vec![low, high, hidden];
    let sources = vec![Some(vec![5u32; 4]), Some(vec![7u32; 4]), Some(vec![9u32; 16])];
    compose_frame(&mut dst, 4, 4, &surfaces, &sources, &mut damage, false, 0);
    assert_eq!(dst, vec![5, 5, 0, 0, 5, 7, 7, 0, 0, 7, 7, 0, 0, 0, 0, 0]);
    assert!(!damage.full);
    assert_eq!(damage.bounds, Some(DamageRect { x: 0, y: 0, width: 3, height: 3 }));

    // Clearing first paints the clear colour under everything and marks
    // the whole frame damaged.
    let mut dst = vec![0u32; 16];
    let mut damage = DamageTracker::new();
    let none: Vec<Option<Vec<u32>>> = vec![None, Some(vec![7u32; 4]), None];
    compose_frame(&mut dst, 4, 4, &surfaces, &none, &mut damage, true, 3);
    assert_eq!(dst, vec![3, 3, 3, 3, 3, 7, 7, 3, 3, 7, 7, 3, 3, 3, 3, 3]);
    assert!(damage.full);
}

#[test]
fn z_order_key_is_layer_then_sequence() {
    let a = window(1, 0, 0, 1, 1, SurfaceLayer::Normal, 9);
    let b = window(2, 0, 0, 1, 1, SurfaceLayer::Panel, 1);
    assert!(z_order_key(&a) < z_order_key(&b));
    assert_eq!(z_order_key(&a).1, 9);
}

/// A stand-in zone test: inside the rectangle is content, nothing else.
fn inside(px: i32, py: i32, x: i32, y: i32, w: u32, h: u32) -> Option<HitZone> {
    let (px, py, x, y) = (px as i64, py as i64, x as i64, y as i64);
    if px >= x && px < x + w as i64 && py >= y && py < y + h as i64 {
        Some(HitZone::Content)
    } else {
        None
    }
}

#[test]
fn hit_test_walks_from_the_top() {
    let deco = WindowDecoration::default_decoration();
    let mut z = ZOrder::new();
    assert!(z.push(SurfaceId(1)));
    assert!(z.push(SurfaceId(2)));
    assert!(z.push(SurfaceId(3)));
    let bottom = window(1, 0, 0, 100, 100, SurfaceLayer::Normal, 1);
    let top = window(2, 50, 50, 10, 10, SurfaceLayer::Normal, 2);
    let mut hidden = window(3, 0, 0, 200, 200, SurfaceLayer::Panel, 3);
    hidden.state = SurfaceState::Created;
    let table = vec![Some(hidden), Some(bottom), None, Some(top)];
    // Surface 2's outer rectangle is 14 x 38 (border 2, title bar 24).
    assert_eq!(hit_test_topmost(55, 80, &z, &table, &deco, inside), Some((SurfaceId(2), HitZone::Content)));
    assert_eq!(hit_test_topmost(55, 95, &z, &table, &deco, inside), Some((SurfaceId(1), HitZone::Content)));
    // The not-yet-active surface on top is skipped; outside everything: none.
    assert_eq!(hit_test_topmost(150, 150, &z, &table, &deco, inside), None);
    let r = hit_test_topmost(1, 1, &z, &table, &deco, |_, _, _, _, _, _| Some(HitZone::TitleBar));
    assert_eq!(r, Some((SurfaceId(2), HitZone::TitleBar)));
}
