//! # Framebuffer colors and rectangles
//!
//! The pixel value of a color in each pixel format, and the part of a
//! rectangle that lies on a screen.
use vstd::prelude::*;

verus! {

/// The order of the color channels in a 32-bit pixel.
#[derive(Clone, Copy, Debug, Eq, PartialEq, Structural)]
pub enum PixelFormat {
    /// Red in the low byte, then green, then blue.
    Rgb,
    /// Blue in the low byte, then green, then red.
    Bgr,
}

/// A color as red, green, blue and alpha components of any type.
#[derive(Clone, Copy, Debug)]
pub struct Rgba<V> {
    pub r: V,
    pub g: V,
    pub b: V,
    pub a: V,
}

#[derive(Clone, Copy, Debug, Eq, PartialEq, Structural)]
pub struct Color {
    pub r: u8,
    pub g: u8,
    pub b: u8,
    pub a: u8,
}

impl Color {
    pub fn new(r: u8, g: u8, b: u8, a: u8) -> (c: Self)
        ensures
            c == (Color { r, g, b, a }),
    {
        Self { r, g, b, a }
    }

    /// An opaque color.
    pub fn rgb(r: u8, g: u8, b: u8) -> (c: Self)
        ensures
            c == (Color { r, g, b, a: 255 }),
    {
        Self { r, g, b, a: 255 }
    }

    /// The pixel value of this color: one byte per channel, in the order of
    /// `format`, with the top byte (and the alpha channel) left out.
    pub fn to_u32(self, format: PixelFormat) -> (p: u32)
        ensures
            p == match format {
                PixelFormat::Bgr => self.r * 0x1_0000 + self.g * 0x100 + self.b,
                PixelFormat::Rgb => self.b * 0x1_0000 + self.g * 0x100 + self.r,
            },
    {
        let r = self.r as u32;
        let g = self.g as u32;
        let b = self.b as u32;
        match format {
            PixelFormat::Bgr => {
                assert((r << 16u32 | g << 8u32 | b) == r * 0x1_0000 + g * 0x100 + b) by (bit_vector)
                    requires
                        r < 256,
                        g < 256,
                        b < 256,
                ;
                r << 16 | g << 8 | b
            },
            PixelFormat::Rgb => {
                assert((r | g << 8u32 | b << 16u32) == b * 0x1_0000 + g * 0x100 + r) by (bit_vector)
                    requires
                        r < 256,
                        g < 256,
                        b < 256,
                ;
                r | g << 8 | b << 16
            },
        }
    }
}

/// `v` clamped to `lo..=hi` (`lo <= hi`).
pub open spec fn clamp(v: int, lo: int, hi: int) -> int {
    if v < lo {
        lo
    } else if v > hi {
        hi
    } else {
        v
    }
}

/// The part of the rectangle at `(x, y)` of size `w` by `h` (in pixels) that
/// lies on a screen of `width` by `height` pixels, as `(x, y, w, h)`:
/// the corner is clamped onto the screen and the size to what is left of it
/// from there. Negative positions and sizes count as zero.
pub open spec fn clip_rect_of(x: int, y: int, w: int, h: int, width: int, height: int) -> (int, int, int, int) {
    let cx = clamp(x, 0, width);
    let cy = clamp(y, 0, height);
    (cx, cy, clamp(w, 0, width - cx), clamp(h, 0, height - cy))
}

/// The part of a rectangle that lies on a screen of `width` by `height`
/// pixels: see [`clip_rect_of`].
pub fn clip_rect(x: i32, y: i32, w: i32, h: i32, width: usize, height: usize) -> (r: (
    usize,
    usize,
    usize,
    usize,
))
    requires
        width <= i32::MAX,
        height <= i32::MAX,
    ensures
        (r.0 as int, r.1 as int, r.2 as int, r.3 as int) == clip_rect_of(
            x as int,
            y as int,
            w as int,
            h as int,
            width as int,
            height as int,
        ),
        r.0 + r.2 <= width,
        r.1 + r.3 <= height,
{
    let max_x = width as i32;
    let max_y = height as i32;
    let cx = if x < 0 { 0 } else if x > max_x { max_x } else { x };
    let cy = if y < 0 { 0 } else if y > max_y { max_y } else { y };
    let room_x = max_x - cx;
    let room_y = max_y - cy;
    let cw = if w < 0 { 0 } else if w > room_x { room_x } else { w };
    let ch = if h < 0 { 0 } else if h > room_y { room_y } else { h };
    (cx as usize, cy as usize, cw as usize, ch as usize)
}

} // verus!
