//! The drawing surface of the light runtime.
//!
//! Phase 1 targets the 2D canvas API; the drawing calls do not draw yet and
//! only the surface's size and clip rectangle are state.

use vstd::prelude::*;

verus! {

/// A drawing surface of a fixed size with an optional clip rectangle.
pub struct Canvas {
    width: u32,
    height: u32,
    clip: Option<(i32, i32, u32, u32)>,
}

impl Canvas {
    /// The surface's width in pixels.
    pub closed spec fn spec_width(&self) -> u32 {
        self.width
    }

    /// The surface's height in pixels.
    pub closed spec fn spec_height(&self) -> u32 {
        self.height
    }

    /// The clip rectangle `(x, y, width, height)`, if one is set.
    pub closed spec fn spec_clip(&self) -> Option<(i32, i32, u32, u32)> {
        self.clip
    }

    /// A surface of the given size with no clip rectangle.
    pub fn new(width: u32, height: u32) -> (c: Self)
        ensures
            c.spec_width() == width,
            c.spec_height() == height,
            c.spec_clip() is None,
    {
        Canvas { width, height, clip: None }
    }

    /// The surface's width.
    pub fn width(&self) -> (w: u32)
        ensures
            w == self.spec_width(),
    {
        self.width
    }

    /// The surface's height.
    pub fn height(&self) -> (h: u32)
        ensures
            h == self.spec_height(),
    {
        self.height
    }

    /// Clears the surface to `color`; the surface keeps its size and clip.
    pub fn clear(&self, color: [u8; 4]) {
        let _ = color;
    }

    /// Fills a rectangle.
    pub fn fill_rect(&self, x: i32, y: i32, width: u32, height: u32, color: [u8; 4]) {
        let _ = (x, y, width, height, color);
    }

    /// Fills a circle.
    pub fn fill_circle(&self, x: i32, y: i32, radius: u32, color: [u8; 4]) {
        let _ = (x, y, radius, color);
    }

    /// Draws a line.
    pub fn draw_line(&self, x1: i32, y1: i32, x2: i32, y2: i32, color: [u8; 4], width: u32) {
        let _ = (x1, y1, x2, y2, color, width);
    }

    /// Sets the clip rectangle.
    pub fn set_clip(&mut self, x: i32, y: i32, width: u32, height: u32)
        ensures
            final(self).spec_clip() == Some((x, y, width, height)),
            final(self).spec_width() == old(self).spec_width(),
            final(self).spec_height() == old(self).spec_height(),
    {
        self.clip = Some((x, y, width, height));
    }

    /// Removes the clip rectangle.
    pub fn clear_clip(&mut self)
        ensures
            final(self).spec_clip() is None,
            final(self).spec_width() == old(self).spec_width(),
            final(self).spec_height() == old(self).spec_height(),
    {
        self.clip = None;
    }
}

} // verus!
