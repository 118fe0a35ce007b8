//! Colors, rectangles and the per-frame viewport.
//!
//! All geometry is kept in logical coordinates; a viewport carries the
//! logical-to-physical scale factor expressed in hundredths, and layers are
//! snapped to physical pixel bounds before culling and scissoring.

use vstd::prelude::*;

verus! {

/// A packed RGBA color, one byte per channel.
#[derive(Clone, Copy, PartialEq, Eq, Structural, Debug)]
pub struct Color {
    pub r: u8,
    pub g: u8,
    pub b: u8,
    pub a: u8,
}

/// An axis-aligned rectangle. Logical or physical, depending on context:
/// layer bounds are logical, scissor bounds in emitted commands physical.
#[derive(Clone, Copy, PartialEq, Eq, Structural, Debug)]
pub struct Rectangle {
    pub x: u32,
    pub y: u32,
    pub width: u32,
    pub height: u32,
}

/// The immutable per-frame context: physical target size and the
/// logical-to-physical scale factor in hundredths (100 means 1x).
#[derive(Clone, Copy, PartialEq, Eq, Structural, Debug)]
pub struct Viewport {
    pub width: u32,
    pub height: u32,
    pub scale_hundredths: u32,
}

/// A logical length scaled to physical pixels, rounded to the nearest
/// pixel and saturated at the representable maximum.
pub open spec fn scale_len(v: u32, scale: u32) -> u32 {
    let exact = (v * scale + 50) / 100;
    if exact <= u32::MAX { exact as u32 } else { u32::MAX }
}

/// A rectangle snapped to physical pixel bounds under `scale`.
pub open spec fn snap_rect(r: Rectangle, scale: u32) -> Rectangle {
    Rectangle {
        x: scale_len(r.x, scale),
        y: scale_len(r.y, scale),
        width: scale_len(r.width, scale),
        height: scale_len(r.height, scale),
    }
}

/// Whether bounds survive the tiny-layer cull: at least one physical
/// pixel in each dimension.
pub open spec fn rect_visible(r: Rectangle, scale: u32) -> bool {
    scale_len(r.width, scale) >= 1 && scale_len(r.height, scale) >= 1
}

/// The intersection of two rectangles; empty overlaps collapse to a
/// zero-sized rectangle at the clamped corner.
pub open spec fn rect_intersect(a: Rectangle, b: Rectangle) -> Rectangle {
    let x1 = if a.x >= b.x { a.x as int } else { b.x as int };
    let y1 = if a.y >= b.y { a.y as int } else { b.y as int };
    let ar = a.x + a.width;
    let br = b.x + b.width;
    let x2 = if ar <= br { ar } else { br };
    let ab = a.y + a.height;
    let bb = b.y + b.height;
    let y2 = if ab <= bb { ab } else { bb };
    Rectangle {
        x: x1 as u32,
        y: y1 as u32,
        width: (if x2 >= x1 { x2 - x1 } else { 0 }) as u32,
        height: (if y2 >= y1 { y2 - y1 } else { 0 }) as u32,
    }
}

impl Rectangle {
    /// Scales the rectangle to physical pixels, rounding each side to the
    /// nearest pixel.
    pub fn snap(&self, scale: u32) -> (r: Rectangle)
        ensures
            r == snap_rect(*self, scale),
    {
        Rectangle {
            x: scale_u32(self.x, scale),
            y: scale_u32(self.y, scale),
            width: scale_u32(self.width, scale),
            height: scale_u32(self.height, scale),
        }
    }

    /// Whether the rectangle covers at least one physical pixel in both
    /// dimensions under `scale`.
    pub fn is_visible(&self, scale: u32) -> (r: bool)
        ensures
            r == rect_visible(*self, scale),
    {
        let s = self.snap(scale);
        s.width >= 1 && s.height >= 1
    }

    /// Clips the rectangle to `other`.
    pub fn intersect(&self, other: &Rectangle) -> (r: Rectangle)
        ensures
            r == rect_intersect(*self, *other),
    {
        let x1: u64 = if self.x >= other.x { self.x as u64 } else { other.x as u64 };
        let y1: u64 = if self.y >= other.y { self.y as u64 } else { other.y as u64 };
        let ar: u64 = self.x as u64 + self.width as u64;
        let br: u64 = other.x as u64 + other.width as u64;
        let x2: u64 = if ar <= br { ar } else { br };
        let ab: u64 = self.y as u64 + self.height as u64;
        let bb: u64 = other.y as u64 + other.height as u64;
        let y2: u64 = if ab <= bb { ab } else { bb };
        Rectangle {
            x: x1 as u32,
            y: y1 as u32,
            width: (if x2 >= x1 { x2 - x1 } else { 0 }) as u32,
            height: (if y2 >= y1 { y2 - y1 } else { 0 }) as u32,
        }
    }
}

/// Scales one length to physical pixels: multiply by the scale in
/// hundredths, round to the nearest pixel, saturate at `u32::MAX`.
fn scale_u32(v: u32, scale: u32) -> (r: u32)
    ensures
        r == scale_len(v, scale),
{
    proof {
        assert((v as int) * (scale as int) <= 0xffff_ffff * 0xffff_ffff) by (nonlinear_arith)
            requires v <= 0xffff_ffffu32 && scale <= 0xffff_ffffu32;
    }
    let exact: u64 = (v as u64 * scale as u64 + 50) / 100;
    if exact <= u32::MAX as u64 {
        exact as u32
    } else {
        u32::MAX
    }
}

impl Viewport {
    /// Builds a per-frame viewport.
    pub fn new(width: u32, height: u32, scale_hundredths: u32) -> (r: Viewport)
        ensures
            r == (Viewport { width, height, scale_hundredths }),
    {
        Viewport { width, height, scale_hundredths }
    }

    /// The full logical bounds covered by the viewport, placed at the
    /// origin.
    pub open spec fn spec_bounds(&self) -> Rectangle {
        Rectangle { x: 0, y: 0, width: self.width, height: self.height }
    }

    /// The logical rectangle covering the whole target.
    pub fn bounds(&self) -> (r: Rectangle)
        ensures
            r == self.spec_bounds(),
    {
        Rectangle { x: 0, y: 0, width: self.width, height: self.height }
    }
}

} // verus!
