//! Integer points, sizes and rectangles on the pixel grid.
//!
//! Coordinates are `i32`, extents are `u32`. Every operation that could leave
//! the `i32` range clamps to it, so no function here can overflow.

use vstd::prelude::*;

verus! {

/// A position on the pixel grid. `x` grows to the right, `y` grows downwards.
#[derive(Clone, Copy, Debug, PartialEq, Eq, Structural)]
pub struct Point {
    pub x: i32,
    pub y: i32,
}

/// A width and a height in pixels.
#[derive(Clone, Copy, Debug, PartialEq, Eq, Structural)]
pub struct Size {
    pub width: u32,
    pub height: u32,
}

/// An axis-aligned rectangle: the pixels `(x, y)` with
/// `top_left.x <= x < top_left.x + size.width` and
/// `top_left.y <= y < top_left.y + size.height`.
#[derive(Clone, Copy, Debug, PartialEq, Eq, Structural)]
pub struct Rectangle {
    pub top_left: Point,
    pub size: Size,
}

/// `v` clamped to the range of `i32`.
pub open spec fn clamp_i32(v: int) -> int {
    if v < i32::MIN {
        i32::MIN as int
    } else if v > i32::MAX {
        i32::MAX as int
    } else {
        v
    }
}

/// `base + delta`, clamped to the range of `i32`.
pub fn offset_coord(base: i32, delta: u32) -> (r: i32)
    ensures
        r == clamp_i32(base + delta),
{
    let wide: i64 = base as i64 + delta as i64;
    if wide > i32::MAX as i64 {
        i32::MAX
    } else {
        wide as i32
    }
}

impl Point {
    pub fn new(x: i32, y: i32) -> (p: Point)
        ensures
            p == (Point { x, y }),
    {
        Point { x, y }
    }

    /// The point moved right by `dx` and down by `dy`, each coordinate
    /// clamped to the range of `i32`.
    pub open spec fn spec_offset(self, dx: u32, dy: u32) -> Point {
        Point { x: clamp_i32(self.x + dx) as i32, y: clamp_i32(self.y + dy) as i32 }
    }

    #[verifier::when_used_as_spec(spec_offset)]
    pub fn offset(self, dx: u32, dy: u32) -> (p: Point)
        ensures
            p == self.spec_offset(dx, dy),
    {
        Point { x: offset_coord(self.x, dx), y: offset_coord(self.y, dy) }
    }
}

impl Size {
    pub fn new(width: u32, height: u32) -> (s: Size)
        ensures
            s == (Size { width, height }),
    {
        Size { width, height }
    }
}

impl Rectangle {
    pub fn new(top_left: Point, size: Size) -> (r: Rectangle)
        ensures
            r == (Rectangle { top_left, size }),
    {
        Rectangle { top_left, size }
    }

    /// Whether the rectangle covers no pixel at all.
    pub open spec fn spec_is_zero_sized(&self) -> bool {
        self.size.width == 0 || self.size.height == 0
    }

    #[verifier::when_used_as_spec(spec_is_zero_sized)]
    pub fn is_zero_sized(&self) -> (b: bool)
        ensures
            b == self.spec_is_zero_sized(),
    {
        self.size.width == 0 || self.size.height == 0
    }

    /// Whether the pixel `(x, y)` lies inside the rectangle.
    pub open spec fn contains(self, x: int, y: int) -> bool {
        &&& self.top_left.x <= x < self.top_left.x + self.size.width
        &&& self.top_left.y <= y < self.top_left.y + self.size.height
    }
}

} // verus!
