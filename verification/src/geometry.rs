//! Integer points and rectangles in texel space.

use vstd::prelude::*;

verus! {

/// A point, or a size, with 32-bit integer coordinates.
#[derive(Clone, Copy, Debug, PartialEq, Eq, Hash, Structural)]
pub struct Point2DI32 {
    pub x: i32,
    pub y: i32,
}

/// An axis-aligned rectangle, given by its upper left corner and its size.
#[derive(Clone, Copy, Debug, PartialEq, Eq, Hash, Structural)]
pub struct RectI32 {
    pub origin: Point2DI32,
    pub size: Point2DI32,
}

impl Point2DI32 {
    /// The point `(x, y)`.
    pub fn new(x: i32, y: i32) -> (point: Point2DI32)
        ensures
            point == (Point2DI32 { x, y }),
    {
        Point2DI32 { x, y }
    }

    /// The point whose two coordinates are both `value`.
    pub fn splat(value: i32) -> (point: Point2DI32)
        ensures
            point == (Point2DI32 { x: value, y: value }),
    {
        Point2DI32 { x: value, y: value }
    }

    /// The horizontal coordinate.
    pub fn x(&self) -> (x: i32)
        ensures
            x == self.x,
    {
        self.x
    }

    /// The vertical coordinate.
    pub fn y(&self) -> (y: i32)
        ensures
            y == self.y,
    {
        self.y
    }

    /// Replaces the horizontal coordinate.
    pub fn set_x(&mut self, x: i32)
        ensures
            *final(self) == (Point2DI32 { x, y: old(self).y }),
    {
        self.x = x;
    }

    /// Replaces the vertical coordinate.
    pub fn set_y(&mut self, y: i32)
        ensures
            *final(self) == (Point2DI32 { x: old(self).x, y }),
    {
        self.y = y;
    }

    /// Multiplies each coordinate by the matching coordinate of `factors`.
    pub fn scale_xy(&self, factors: Point2DI32) -> (scaled: Point2DI32)
        requires
            i32::MIN <= self.x * factors.x <= i32::MAX,
            i32::MIN <= self.y * factors.y <= i32::MAX,
        ensures
            scaled.x == self.x * factors.x,
            scaled.y == self.y * factors.y,
    {
        Point2DI32 { x: self.x * factors.x, y: self.y * factors.y }
    }
}

impl Default for Point2DI32 {
    /// The origin.
    fn default() -> (point: Point2DI32)
        ensures
            point == (Point2DI32 { x: 0, y: 0 }),
    {
        Point2DI32 { x: 0, y: 0 }
    }
}

impl RectI32 {
    /// The rectangle of the given size whose upper left corner is `origin`.
    pub fn new(origin: Point2DI32, size: Point2DI32) -> (rect: RectI32)
        ensures
            rect == (RectI32 { origin, size }),
    {
        RectI32 { origin, size }
    }

    /// The upper left corner.
    pub fn origin(&self) -> (origin: Point2DI32)
        ensures
            origin == self.origin,
    {
        self.origin
    }

    /// The width and the height.
    pub fn size(&self) -> (size: Point2DI32)
        ensures
            size == self.size,
    {
        self.size
    }

    /// The texels that the rectangle covers: those at `(x, y)` with
    /// `origin.x <= x < origin.x + size.x` and `origin.y <= y < origin.y + size.y`.
    pub open spec fn covers(&self, x: int, y: int) -> bool {
        &&& self.origin.x <= x < self.origin.x + self.size.x
        &&& self.origin.y <= y < self.origin.y + self.size.y
    }

    /// Two rectangles overlap when some texel lies in both.
    pub open spec fn overlaps(&self, other: RectI32) -> bool {
        exists|x: int, y: int| self.covers(x, y) && other.covers(x, y)
    }

    /// The rectangle lies inside a `width` by `height` grid whose first texel is `(0, 0)`.
    pub open spec fn within(&self, width: int, height: int) -> bool {
        &&& 0 <= self.origin.x
        &&& 0 <= self.origin.y
        &&& 0 <= self.size.x
        &&& 0 <= self.size.y
        &&& self.origin.x + self.size.x <= width
        &&& self.origin.y + self.size.y <= height
    }
}

impl Default for RectI32 {
    /// The empty rectangle at the origin.
    fn default() -> (rect: RectI32)
        ensures
            rect == (RectI32 {
                origin: Point2DI32 { x: 0, y: 0 },
                size: Point2DI32 { x: 0, y: 0 },
            }),
    {
        RectI32 { origin: Point2DI32 { x: 0, y: 0 }, size: Point2DI32 { x: 0, y: 0 } }
    }
}

} // verus!
