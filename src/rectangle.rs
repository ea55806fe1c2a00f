//! Axis-aligned rectangles with whole-number sides.
use vstd::prelude::*;

verus! {

/// A rectangle of `width` by `height`.
#[derive(Debug)]
pub struct Rectangle {
    pub width: u32,
    pub height: u32,
}

impl Rectangle {
    /// A rectangle with the given width and height.
    pub fn build_rectangle(width: u32, height: u32) -> (r: Self)
        ensures
            r.width == width,
            r.height == height,
    {
        Self { width, height }
    }

    /// A square with sides of `size`.
    pub fn square(size: u32) -> (r: Self)
        ensures
            r.width == size,
            r.height == size,
    {
        Self { width: size, height: size }
    }

    /// The area, width times height; it must fit in a `u32`.
    pub fn area(&self) -> (r: u32)
        requires
            self.width * self.height <= u32::MAX,
        ensures
            r == self.width * self.height,
    {
        self.width * self.height
    }

    /// Whether the width is zero.
    pub fn has_zero_width(&self) -> (r: bool)
        ensures
            r == (self.width == 0),
    {
        self.width == 0
    }

    /// Whether `other` fits strictly inside this rectangle, side by side.
    pub fn can_hold(&self, other: &Rectangle) -> (r: bool)
        ensures
            r == (self.width > other.width && self.height > other.height),
    {
        self.width > other.width && self.height > other.height
    }

    /// Whether the width equals the height.
    pub fn is_square(&self) -> (r: bool)
        ensures
            r == (self.width == self.height),
    {
        self.width == self.height
    }
}

} // verus!
