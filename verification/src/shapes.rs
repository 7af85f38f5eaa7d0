//! Rectangles by length and width.

use vstd::prelude::*;

verus! {

/// A rectangle with sides along the axes.
#[derive(Debug)]
pub struct Rectangle {
    pub length: u32,
    pub width: u32,
}

impl Rectangle {
    /// The area of the rectangle.
    pub fn area(&self) -> (a: u32)
        requires
            self.length * self.width <= u32::MAX,
        ensures
            a == self.length * self.width,
    {
        self.length * self.width
    }

    /// Whether the rectangle has any width at all.
    pub fn width(&self) -> (b: bool)
        ensures
            b == (self.width > 0),
    {
        self.width > 0
    }

    /// Whether `other` fits inside the rectangle with room on each side.
    pub fn can_hold(&self, other: &Rectangle) -> (b: bool)
        ensures
            b == (self.width > other.width && self.length > other.length),
    {
        self.width > other.width && self.length > other.length
    }

    /// The square with sides of length `size`.
    pub fn square(size: u32) -> (sq: Self)
        ensures
            sq.width == size,
            sq.length == size,
    {
        Self { width: size, length: size }
    }
}

} // verus!
