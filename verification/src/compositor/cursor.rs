//! The mouse cursor: its position and its arrow image.
use vstd::prelude::*;

use super::render::{blit_alpha_premultiplied, blit_fits, blitted, clip_damage, clip_spec};
use super::surface::DamageRect;

verus! {

/// Cursor image width.
pub const CURSOR_WIDTH: u32 = 16;
/// Cursor image height.
pub const CURSOR_HEIGHT: u32 = 16;
/// Fully transparent pixel.
pub const CURSOR_CLEAR: u32 = 0x0000_0000;
/// Opaque white (premultiplied).
pub const CURSOR_FILL: u32 = 0xFFFF_FFFF;
/// Opaque black outline.
pub const CURSOR_OUTLINE: u32 = 0xFF00_0000;

/// The arrow's pixel codes, row by row: 0 transparent, 1 fill, 2 outline.
pub open spec fn arrow_codes() -> Seq<u8> {
    seq![
        2u8, 0u8, 0u8, 0u8, 0u8, 0u8, 0u8, 0u8, 0u8, 0u8, 0u8, 0u8, 0u8, 0u8, 0u8, 0u8,
        2u8, 2u8, 0u8, 0u8, 0u8, 0u8, 0u8, 0u8, 0u8, 0u8, 0u8, 0u8, 0u8, 0u8, 0u8, 0u8,
        2u8, 1u8, 2u8, 0u8, 0u8, 0u8, 0u8, 0u8, 0u8, 0u8, 0u8, 0u8, 0u8, 0u8, 0u8, 0u8,
        2u8, 1u8, 1u8, 2u8, 0u8, 0u8, 0u8, 0u8, 0u8, 0u8, 0u8, 0u8, 0u8, 0u8, 0u8, 0u8,
        2u8, 1u8, 1u8, 1u8, 2u8, 0u8, 0u8, 0u8, 0u8, 0u8, 0u8, 0u8, 0u8, 0u8, 0u8, 0u8,
        2u8, 1u8, 1u8, 1u8, 1u8, 2u8, 0u8, 0u8, 0u8, 0u8, 0u8, 0u8, 0u8, 0u8, 0u8, 0u8,
        2u8, 1u8, 1u8, 1u8, 1u8, 1u8, 2u8, 0u8, 0u8, 0u8, 0u8, 0u8, 0u8, 0u8, 0u8, 0u8,
        2u8, 1u8, 1u8, 1u8, 1u8, 1u8, 1u8, 2u8, 0u8, 0u8, 0u8, 0u8, 0u8, 0u8, 0u8, 0u8,
        2u8, 1u8, 1u8, 1u8, 1u8, 1u8, 1u8, 1u8, 2u8, 0u8, 0u8, 0u8, 0u8, 0u8, 0u8, 0u8,
        2u8, 1u8, 1u8, 1u8, 1u8, 1u8, 2u8, 2u8, 2u8, 0u8, 0u8, 0u8, 0u8, 0u8, 0u8, 0u8,
        2u8, 1u8, 1u8, 2u8, 1u8, 1u8, 2u8, 0u8, 0u8, 0u8, 0u8, 0u8, 0u8, 0u8, 0u8, 0u8,
        2u8, 1u8, 2u8, 0u8, 2u8, 1u8, 1u8, 2u8, 0u8, 0u8, 0u8, 0u8, 0u8, 0u8, 0u8, 0u8,
        2u8, 2u8, 0u8, 0u8, 2u8, 1u8, 1u8, 2u8, 0u8, 0u8, 0u8, 0u8, 0u8, 0u8, 0u8, 0u8,
        2u8, 0u8, 0u8, 0u8, 0u8, 2u8, 1u8, 1u8, 2u8, 0u8, 0u8, 0u8, 0u8, 0u8, 0u8, 0u8,
        0u8, 0u8, 0u8, 0u8, 0u8, 2u8, 1u8, 1u8, 2u8, 0u8, 0u8, 0u8, 0u8, 0u8, 0u8, 0u8,
        0u8, 0u8, 0u8, 0u8, 0u8, 0u8, 2u8, 2u8, 0u8, 0u8, 0u8, 0u8, 0u8, 0u8, 0u8, 0u8,
    ]
}

/// The pixel of code `c`.
pub open spec fn code_pixel(c: u8) -> u32 {
    if c == 1 { CURSOR_FILL } else if c == 2 { CURSOR_OUTLINE } else { CURSOR_CLEAR }
}

/// The arrow image, 16x16 premultiplied ARGB, row by row.
pub open spec fn arrow_pixels() -> Seq<u32> {
    arrow_codes().map_values(|c: u8| code_pixel(c))
}

/// The arrow image.
pub fn cursor_arrow() -> (v: Vec<u32>)
    ensures
        v@ == arrow_pixels(),
        v@.len() == 256,
{
    let codes: [u8; 256] = [
        2u8, 0u8, 0u8, 0u8, 0u8, 0u8, 0u8, 0u8, 0u8, 0u8, 0u8, 0u8, 0u8, 0u8, 0u8, 0u8,
        2u8, 2u8, 0u8, 0u8, 0u8, 0u8, 0u8, 0u8, 0u8, 0u8, 0u8, 0u8, 0u8, 0u8, 0u8, 0u8,
        2u8, 1u8, 2u8, 0u8, 0u8, 0u8, 0u8, 0u8, 0u8, 0u8, 0u8, 0u8, 0u8, 0u8, 0u8, 0u8,
        2u8, 1u8, 1u8, 2u8, 0u8, 0u8, 0u8, 0u8, 0u8, 0u8, 0u8, 0u8, 0u8, 0u8, 0u8, 0u8,
        2u8, 1u8, 1u8, 1u8, 2u8, 0u8, 0u8, 0u8, 0u8, 0u8, 0u8, 0u8, 0u8, 0u8, 0u8, 0u8,
        2u8, 1u8, 1u8, 1u8, 1u8, 2u8, 0u8, 0u8, 0u8, 0u8, 0u8, 0u8, 0u8, 0u8, 0u8, 0u8,
        2u8, 1u8, 1u8, 1u8, 1u8, 1u8, 2u8, 0u8, 0u8, 0u8, 0u8, 0u8, 0u8, 0u8, 0u8, 0u8,
        2u8, 1u8, 1u8, 1u8, 1u8, 1u8, 1u8, 2u8, 0u8, 0u8, 0u8, 0u8, 0u8, 0u8, 0u8, 0u8,
        2u8, 1u8, 1u8, 1u8, 1u8, 1u8, 1u8, 1u8, 2u8, 0u8, 0u8, 0u8, 0u8, 0u8, 0u8, 0u8,
        2u8, 1u8, 1u8, 1u8, 1u8, 1u8, 2u8, 2u8, 2u8, 0u8, 0u8, 0u8, 0u8, 0u8, 0u8, 0u8,
        2u8, 1u8, 1u8, 2u8, 1u8, 1u8, 2u8, 0u8, 0u8, 0u8, 0u8, 0u8, 0u8, 0u8, 0u8, 0u8,
        2u8, 1u8, 2u8, 0u8, 2u8, 1u8, 1u8, 2u8, 0u8, 0u8, 0u8, 0u8, 0u8, 0u8, 0u8, 0u8,
        2u8, 2u8, 0u8, 0u8, 2u8, 1u8, 1u8, 2u8, 0u8, 0u8, 0u8, 0u8, 0u8, 0u8, 0u8, 0u8,
        2u8, 0u8, 0u8, 0u8, 0u8, 2u8, 1u8, 1u8, 2u8, 0u8, 0u8, 0u8, 0u8, 0u8, 0u8, 0u8,
        0u8, 0u8, 0u8, 0u8, 0u8, 2u8, 1u8, 1u8, 2u8, 0u8, 0u8, 0u8, 0u8, 0u8, 0u8, 0u8,
        0u8, 0u8, 0u8, 0u8, 0u8, 0u8, 2u8, 2u8, 0u8, 0u8, 0u8, 0u8, 0u8, 0u8, 0u8, 0u8,
    ];
    proof {
        assert(codes@ =~= arrow_codes());
    }
    let mut v: Vec<u32> = Vec::new();
    let mut i: usize = 0;
    while i < 256
        invariant
            i <= 256,
            codes@ == arrow_codes(),
            v@ =~= arrow_pixels().take(i as int),
        decreases 256 - i,
    {
        let c = codes[i];
        let p = if c == 1 { CURSOR_FILL } else if c == 2 { CURSOR_OUTLINE } else { CURSOR_CLEAR };
        v.push(p);
        proof {
            assert(arrow_pixels()[i as int] == code_pixel(arrow_codes()[i as int]));
        }
        i = i + 1;
    }
    proof {
        assert(arrow_pixels().take(256) =~= arrow_pixels());
    }
    v
}

/// Where the cursor is.
pub struct CursorState {
    pub x: i32,
    pub y: i32,
}

impl CursorState {
    /// The cursor at its boot position, (400, 300).
    pub fn new() -> (c: CursorState)
        ensures
            c.x == 400 && c.y == 300,
    {
        CursorState { x: 400, y: 300 }
    }
}

/// Move the cursor to `(x, y)`.
pub fn set_position(state: &mut CursorState, x: i32, y: i32)
    ensures
        final(state).x == x,
        final(state).y == y,
{
    state.x = x;
    state.y = y;
}

/// The cursor position.
pub fn position(state: &CursorState) -> (p: (i32, i32))
    ensures
        p == (state.x, state.y),
{
    (state.x, state.y)
}

/// Draw the arrow over `dst` at the cursor position, blending
/// premultiplied alpha; the damaged rectangle, if any of it is visible.
pub fn render_cursor(state: &CursorState, dst: &mut Vec<u32>, dst_w: u32, dst_h: u32) -> (r: Option<DamageRect>)
    requires
        blit_fits(256, old(dst)@.len(), CURSOR_WIDTH, CURSOR_HEIGHT, dst_w, dst_h, state.x, state.y),
    ensures
        match clip_spec(state.x, state.y, CURSOR_WIDTH, CURSOR_HEIGHT, dst_w, dst_h) {
            Some(c) => r == Some(clip_damage(c)) && final(dst)@ == blitted(old(dst)@, arrow_pixels(), CURSOR_WIDTH, dst_w, c, true),
            None => r is None && final(dst)@ == old(dst)@,
        },
{
    let arrow = cursor_arrow();
    let (x, y) = position(state);
    blit_alpha_premultiplied(&arrow, CURSOR_WIDTH, CURSOR_HEIGHT, dst, dst_w, dst_h, x, y)
}

} // verus!
