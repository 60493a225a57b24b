//! What a window asks its backend to draw.

use crate::shape::{Point, Rect};
use vstd::prelude::*;

verus! {

/// A color with its opacity; `a` is 255 where it is opaque.
#[derive(Clone, Copy, Debug, PartialEq, Eq, Structural)]
pub struct Color {
    pub r: u8,
    pub g: u8,
    pub b: u8,
    pub a: u8,
}

/// One drawing operation for the backend. Each carries the foreground color
/// that the window had when it was issued.
#[derive(Clone, Copy, Debug, PartialEq, Eq, Structural)]
pub enum DrawCommand {
    /// Fill the whole window with `color`.
    Clear { color: Color },
    /// Draw the outline of `rect`.
    DrawRect { color: Color, rect: Rect },
    /// Draw `rect` filled.
    FillRect { color: Color, rect: Rect },
    /// Draw the single pixel at `point`.
    DrawPoint { color: Color, point: Point },
    /// Draw a whole image into `dst`, tinted by `tint`.
    Image { tint: Color, dst: Rect },
    /// Draw the part `src` of the font atlas into `dst`, tinted by `tint`.
    Glyph { tint: Color, src: Rect, dst: Rect },
}

/// Image stands for a texture that can be drawn on the screen: the library
/// keeps its size, the backend its pixels.
#[derive(Clone, Copy, Debug, PartialEq, Eq, Structural)]
pub struct Image {
    width: i32,
    height: i32,
}

impl Image {
    /// An image of the given size in pixels.
    pub fn new(width: i32, height: i32) -> (image: Image)
        ensures
            image.width() == width,
            image.height() == height,
    {
        Image { width, height }
    }

    pub closed spec fn width(&self) -> i32 {
        self.width
    }

    pub closed spec fn height(&self) -> i32 {
        self.height
    }

    pub fn get_width(&self) -> (w: i32)
        ensures
            w == self.width(),
    {
        self.width
    }

    pub fn get_height(&self) -> (h: i32)
        ensures
            h == self.height(),
    {
        self.height
    }
}

} // verus!
