//! Points of the plane, lengths in two units, and pairs of any two values.

use vstd::prelude::*;

verus! {

/// A point of the plane with whole coordinates.
#[derive(Clone, Copy, Debug, PartialEq, Eq, Structural)]
pub struct Point {
    pub x: i32,
    pub y: i32,
}

impl Point {
    /// The sum of two points, coordinate by coordinate.
    pub fn add(self, other: Point) -> (sum: Point)
        requires
            i32::MIN <= self.x + other.x <= i32::MAX,
            i32::MIN <= self.y + other.y <= i32::MAX,
        ensures
            sum.x == self.x + other.x,
            sum.y == self.y + other.y,
    {
        Point { x: self.x + other.x, y: self.y + other.y }
    }
}

/// A length in millimetres.
#[derive(Clone, Copy, Debug, PartialEq, Eq, Structural)]
pub struct Milimeters(pub u32);

/// A length in metres.
#[derive(Clone, Copy, Debug, PartialEq, Eq, Structural)]
pub struct Meters(pub u32);

impl Milimeters {
    /// The sum of a length in millimetres and one in metres, in
    /// millimetres.
    pub fn add(self, other: Meters) -> (sum: Milimeters)
        requires
            self.0 + other.0 * 1000 <= u32::MAX,
        ensures
            sum.0 == self.0 + other.0 * 1000,
    {
        Milimeters(self.0 + (other.0 * 1000))
    }
}

/// Two values of any two types.
pub struct Pair<T, U> {
    pub x: T,
    pub y: U,
}

impl<X1, Y1> Pair<X1, Y1> {
    /// The pair of two values.
    pub fn new(x: X1, y: Y1) -> (p: Self)
        ensures
            p.x == x,
            p.y == y,
    {
        Pair { x, y }
    }

    /// The first value of this pair with the second value of `other`.
    pub fn mixup<X2, Y2>(self, other: Pair<X2, Y2>) -> (mixed: Pair<X1, Y2>)
        ensures
            mixed.x == self.x,
            mixed.y == other.y,
    {
        Pair { x: self.x, y: other.y }
    }
}

/// A value in a box of its own.
pub struct MyBox<T>(pub T);

impl<T> MyBox<T> {
    /// Puts `x` in a box.
    pub fn new(x: T) -> (b: MyBox<T>)
        ensures
            b.0 == x,
    {
        MyBox(x)
    }

    /// The value in the box.
    pub fn deref(&self) -> (x: &T)
        ensures
            *x == self.0,
    {
        &self.0
    }
}

} // verus!
