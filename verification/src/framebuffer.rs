//! The boot framebuffer: pixel packing for its format, clipped rectangle
//! fills and the boot test pattern, over the pixel memory as a vector of
//! 32-bit pixels, `stride / 4` per row.
use vstd::prelude::*;

verus! {

/// What the boot stub reports about the framebuffer.
#[derive(Debug, Clone, Copy, PartialEq, Eq, Structural)]
pub struct BootInfo {
    pub framebuffer: u64,
    pub fb_width: u32,
    pub fb_height: u32,
    pub fb_stride: u32,
    pub fb_pixel_format: u32,
}

/// The framebuffer: its address, geometry, pixel format and pixels.
pub struct Framebuffer {
    pub base: u64,
    pub width: u32,
    pub height: u32,
    pub stride: u32,
    pub format: u32,
    pub pixels: Vec<u32>,
}

/// Pixel value of colour `(r, g, b)` in pixel format `format`: 0 is
/// opaque BGRX-in-memory (`0xFFRRGGBB`), 1 is RGBX (`0xFFBBGGRR`); any other
/// format gives opaque black.
pub open spec fn packed(format: u32, r: u8, g: u8, b: u8) -> u32 {
    if format == 0 {
        (0xFF00_0000u32 | ((r as u32) << 16u32) | ((g as u32) << 8u32) | (b as u32)) as u32
    } else if format == 1 {
        (0xFF00_0000u32 | ((b as u32) << 16u32) | ((g as u32) << 8u32) | (r as u32)) as u32
    } else {
        0xFF00_0000u32
    }
}

/// Pixel `i` of a framebuffer with `s` pixels per row lies in the
/// rectangle of columns `[x1, x2)` and rows `[y1, y2)`.
pub open spec fn in_fb_rect(i: int, s: int, x1: int, x2: int, y1: int, y2: int) -> bool {
    s > 0 && y1 <= i / s < y2 && x1 <= i % s < x2
}

/// `min(a, b)`.
pub open spec fn min32(a: int, b: int) -> int {
    if a < b { a } else { b }
}

impl Framebuffer {
    pub open spec fn spec_width(&self) -> u32 {
        self.width
    }

    pub open spec fn spec_height(&self) -> u32 {
        self.height
    }

    pub open spec fn spec_stride(&self) -> u32 {
        self.stride
    }

    pub open spec fn spec_format(&self) -> u32 {
        self.format
    }

    pub open spec fn spec_base(&self) -> u64 {
        self.base
    }

    /// Pixels per row.
    pub open spec fn row_pixels(&self) -> int {
        (self.spec_stride() / 4) as int
    }

    /// The pixel vector covers every row and each row holds the width.
    pub open spec fn wf(&self) -> bool {
        &&& self.spec_width() <= self.row_pixels()
        &&& self.pixels@.len() == self.row_pixels() * self.spec_height()
    }

    /// The framebuffer described by `bi` with its pixels (all zero, one row
    /// of `stride / 4` per line); `None` when the address, width or height
    /// is zero. Its rows hold its width (`wf`) exactly when the stride covers
    /// the width; drawing needs that.
    pub fn from_boot_info(bi: &BootInfo) -> (fb: Option<Framebuffer>)
        requires
            (bi.fb_stride / 4) * bi.fb_height <= usize::MAX,
        ensures
            (bi.framebuffer == 0 || bi.fb_width == 0 || bi.fb_height == 0) <==> fb is None,
            fb matches Some(f) ==> (f.wf() <==> bi.fb_width <= bi.fb_stride / 4),
            fb matches Some(f) ==> f.pixels@.len() == (bi.fb_stride / 4) * bi.fb_height && f.spec_base() == bi.framebuffer && f.spec_width() == bi.fb_width
                && f.spec_height() == bi.fb_height && f.spec_stride() == bi.fb_stride && f.spec_format()
                == bi.fb_pixel_format && forall|i: int| 0 <= i < f.pixels@.len() ==> f.pixels@[i] == 0,
    {
        if bi.framebuffer == 0 || bi.fb_width == 0 || bi.fb_height == 0 {
            return None;
        }
        let n = (bi.fb_stride / 4) as usize * bi.fb_height as usize;
        let mut pixels: Vec<u32> = Vec::new();
        let mut i: usize = 0;
        while i < n
            invariant
                i <= n,
                pixels@.len() == i,
                forall|j: int| 0 <= j < i ==> pixels@[j] == 0,
            decreases n - i,
        {
            pixels.push(0);
            i = i + 1;
        }
        Some(Framebuffer {
            base: bi.framebuffer,
            width: bi.fb_width,
            height: bi.fb_height,
            stride: bi.fb_stride,
            format: bi.fb_pixel_format,
            pixels,
        })
    }

    /// The pixel value of `(r, g, b)` in this framebuffer's format.
    pub fn pack_pixel(&self, r: u8, g: u8, b: u8) -> (p: u32)
        ensures
            p == packed(self.spec_format(), r, g, b),
    {
        if self.format == 0 {
            0xFF00_0000 | (r as u32) << 16 | (g as u32) << 8 | b as u32
        } else if self.format == 1 {
            0xFF00_0000 | (b as u32) << 16 | (g as u32) << 8 | r as u32
        } else {
            0xFF00_0000
        }
    }

    /// Fill columns `[x, x + w)` and rows `[y, y + h)`, clipped to the
    /// screen, with `pixel`; nothing else changes.
    pub fn fill_rect(&mut self, x: u32, y: u32, w: u32, h: u32, pixel: u32)
        requires
            old(self).wf(),
            x + w <= u32::MAX,
            y + h <= u32::MAX,
        ensures
            final(self).wf(),
            final(self).spec_width() == old(self).spec_width(),
            final(self).spec_height() == old(self).spec_height(),
            final(self).spec_stride() == old(self).spec_stride(),
            final(self).spec_format() == old(self).spec_format(),
            final(self).spec_base() == old(self).spec_base(),
            final(self).pixels@.len() == old(self).pixels@.len(),
            forall|i: int| 0 <= i < old(self).pixels@.len() ==> #[trigger] final(self).pixels@[i] == if in_fb_rect(
                i,
                old(self).row_pixels(),
                min32(x as int, old(self).spec_width() as int),
                min32(x + w, old(self).spec_width() as int),
                min32(y as int, old(self).spec_height() as int),
                min32(y + h, old(self).spec_height() as int),
            ) {
                pixel
            } else {
                old(self).pixels@[i]
            },
    {
        let x1 = if x < self.width { x } else { self.width };
        let y1 = if y < self.height { y } else { self.height };
        let x2 = if x + w < self.width { x + w } else { self.width };
        let y2 = if y + h < self.height { y + h } else { self.height };
        let s = (self.stride / 4) as usize;
        let ghost p0 = self.pixels@;
        let ghost sw = self.width;
        let ghost sh = self.height;
        let ghost ss = self.stride;
        let ghost sf = self.format;
        let ghost sb = self.base;
        let n_pix = self.pixels.len();
        assert(n_pix == s * sh);
        let mut row = y1;
        while row < y2
            invariant
                y1 <= y2 <= sh,
                x1 <= x2 <= sw,
                y1 <= row <= y2,
                self.width == sw,
                self.height == sh,
                self.stride == ss,
                self.format == sf,
                self.base == sb,
                s == ss / 4,
                sw <= s,
                s * sh <= usize::MAX,
                self.pixels@.len() == p0.len(),
                p0.len() == s * sh,
                forall|i: int| 0 <= i < p0.len() ==> #[trigger] self.pixels@[i] == if in_fb_rect(i, s as int, x1 as int, x2 as int, y1 as int, row as int) {
                    pixel
                } else {
                    p0[i]
                },
            decreases y2 - row,
        {
            proof {
                assert(row * s + s <= s * sh) by (nonlinear_arith)
                    requires row < sh;
            }
            let row_base = row as usize * s;
            let mut col = x1;
            while col < x2
                invariant
                    y1 <= row < y2 <= sh,
                    x1 <= col <= x2 <= sw,
                    self.width == sw,
                    self.height == sh,
                    self.stride == ss,
                    self.format == sf,
                    self.base == sb,
                    sw <= s,
                    s * sh <= usize::MAX,
                    row_base == row * s,
                    row_base + s <= s * sh,
                    self.pixels@.len() == p0.len(),
                    p0.len() == s * sh,
                    forall|i: int| 0 <= i < p0.len() ==> #[trigger] self.pixels@[i] == if in_fb_rect(i, s as int, x1 as int, x2 as int, y1 as int, row as int)
                        || (s > 0 && i / (s as int) == row && x1 <= i % (s as int) < col) {
                        pixel
                    } else {
                        p0[i]
                    },
                decreases x2 - col,
            {
                let idx = row_base + col as usize;
                proof {
                    assert((idx as int) / (s as int) == row && (idx as int) % (s as int) == col) by (nonlinear_arith)
                        requires idx == row * s + col, col < s;
                }
                let ghost prev = self.pixels@;
                self.pixels.set(idx, pixel);
                proof {
                    assert forall|i: int| 0 <= i < p0.len() implies #[trigger] self.pixels@[i] == if in_fb_rect(i, s as int, x1 as int, x2 as int, y1 as int, row as int)
                        || (s > 0 && i / (s as int) == row && x1 <= i % (s as int) < col + 1) {
                        pixel
                    } else {
                        p0[i]
                    } by {
                        if i != idx {
                            assert(self.pixels@[i] == prev[i]);
                            if s > 0 && i / (s as int) == row && i % (s as int) == col {
                                assert(i == (s as int) * (i / (s as int)) + i % (s as int)) by (nonlinear_arith)
                                    requires s > 0;
                                assert(i == idx) by (nonlinear_arith)
                                    requires i == (s as int) * row + col, idx == row * s + col;
                            }
                        }
                    }
                }
                col = col + 1;
            }
            proof {
                assert forall|i: int| 0 <= i < p0.len() implies #[trigger] self.pixels@[i] == if in_fb_rect(i, s as int, x1 as int, x2 as int, y1 as int, row + 1) {
                    pixel
                } else {
                    p0[i]
                } by {}
            }
            row = row + 1;
        }
    }

    /// The boot test pattern: the screen black, then a blue rectangle of 60%
    /// of each dimension centred on it.
    pub fn render_test_pattern(&mut self)
        requires
            old(self).wf(),
            old(self).spec_width() * 60 <= u32::MAX,
            old(self).spec_height() * 60 <= u32::MAX,
        ensures
            final(self).wf(),
            final(self).pixels@.len() == old(self).pixels@.len(),
            ({
                let wd = old(self).spec_width() as int;
                let ht = old(self).spec_height() as int;
                let rw = wd * 60 / 100;
                let rh = ht * 60 / 100;
                let rx = (wd - rw) / 2;
                let ry = (ht - rh) / 2;
                let black = packed(old(self).spec_format(), 0, 0, 0);
                let blue = packed(old(self).spec_format(), 0x5B, 0x8C, 0xFF);
                forall|i: int| 0 <= i < old(self).pixels@.len() ==> #[trigger] final(self).pixels@[i] == if in_fb_rect(
                    i,
                    old(self).row_pixels(),
                    rx,
                    rx + rw,
                    ry,
                    ry + rh,
                ) {
                    blue
                } else if in_fb_rect(i, old(self).row_pixels(), 0, wd, 0, ht) {
                    black
                } else {
                    old(self).pixels@[i]
                }
            }),
    {
        let black = self.pack_pixel(0, 0, 0);
        let w = self.width;
        let h = self.height;
        self.fill_rect(0, 0, w, h, black);
        let blue = self.pack_pixel(0x5B, 0x8C, 0xFF);
        let rect_w = w * 60 / 100;
        let rect_h = h * 60 / 100;
        let rect_x = (w - rect_w) / 2;
        let rect_y = (h - rect_h) / 2;
        self.fill_rect(rect_x, rect_y, rect_w, rect_h, blue);
    }

    /// Width in pixels.
    pub fn width(&self) -> (w: u32)
        ensures
            w == self.spec_width(),
    {
        self.width
    }

    /// Height in pixels.
    pub fn height(&self) -> (h: u32)
        ensures
            h == self.spec_height(),
    {
        self.height
    }

    /// Bytes per row.
    pub fn stride(&self) -> (s: u32)
        ensures
            s == self.spec_stride(),
    {
        self.stride
    }

    /// Pixel format code.
    pub fn format(&self) -> (f: u32)
        ensures
            f == self.spec_format(),
    {
        self.format
    }

    /// Physical address of the pixel memory.
    pub fn base_addr(&self) -> (a: u64)
        ensures
            a == self.spec_base(),
    {
        self.base
    }
}

} // verus!
