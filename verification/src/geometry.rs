//! Integer geometry: sizes, points and rectangles, with the intersection
//! arithmetic that clips pixel transfers and snapshots to surface bounds.

use vstd::prelude::*;

verus! {

/// A width and a height in pixels. Either may be non-positive in a request;
/// a surface is only ever created from a positive size.
#[derive(Clone, Copy, Debug, PartialEq, Eq, Structural)]
pub struct ISize {
    pub width: i32,
    pub height: i32,
}

impl ISize {
    pub fn new(width: i32, height: i32) -> (r: ISize)
        ensures
            r.width == width,
            r.height == height,
    {
        ISize { width, height }
    }

    /// Both dimensions are at least one.
    pub open spec fn spec_is_positive(self) -> bool {
        self.width > 0 && self.height > 0
    }

    pub fn is_positive(&self) -> (r: bool)
        ensures
            r == self.spec_is_positive(),
    {
        self.width > 0 && self.height > 0
    }
}

/// An integer point; used for pixel-copy offsets, which may be negative.
#[derive(Clone, Copy, Debug, PartialEq, Eq, Structural)]
pub struct IPoint {
    pub x: i32,
    pub y: i32,
}

impl IPoint {
    pub fn new(x: i32, y: i32) -> (r: IPoint)
        ensures
            r.x == x,
            r.y == y,
    {
        IPoint { x, y }
    }
}

/// An axis-aligned integer rectangle, bounded by `left..right` and
/// `top..bottom` (right and bottom exclusive). It is empty when
/// `right <= left` or `bottom <= top`.
#[derive(Clone, Copy, Debug, PartialEq, Eq, Structural)]
pub struct IRect {
    pub left: i32,
    pub top: i32,
    pub right: i32,
    pub bottom: i32,
}

impl IRect {
    pub fn new(left: i32, top: i32, right: i32, bottom: i32) -> (r: IRect)
        ensures
            r == (IRect { left, top, right, bottom }),
    {
        IRect { left, top, right, bottom }
    }

    /// The rectangle `[x, x + w) x [y, y + h)`.
    pub fn from_xywh(x: i32, y: i32, w: i32, h: i32) -> (r: IRect)
        requires
            i32::MIN <= x + w <= i32::MAX,
            i32::MIN <= y + h <= i32::MAX,
        ensures
            r.left == x,
            r.top == y,
            r.right == x + w,
            r.bottom == y + h,
    {
        IRect { left: x, top: y, right: x + w, bottom: y + h }
    }

    /// The rectangle `[0, size.width) x [0, size.height)`.
    pub fn from_size(size: ISize) -> (r: IRect)
        ensures
            r.left == 0,
            r.top == 0,
            r.right == size.width,
            r.bottom == size.height,
    {
        IRect { left: 0, top: 0, right: size.width, bottom: size.height }
    }

    pub open spec fn spec_is_empty(self) -> bool {
        self.right <= self.left || self.bottom <= self.top
    }

    pub fn is_empty(&self) -> (r: bool)
        ensures
            r == self.spec_is_empty(),
    {
        self.right <= self.left || self.bottom <= self.top
    }

    /// The point `(x, y)` lies inside the rectangle.
    pub open spec fn spec_contains(self, x: int, y: int) -> bool {
        self.left <= x < self.right && self.top <= y < self.bottom
    }

    pub open spec fn spec_width(self) -> int {
        self.right - self.left
    }

    pub open spec fn spec_height(self) -> int {
        self.bottom - self.top
    }

    /// The largest rectangle contained in both arguments.
    pub open spec fn spec_intersect(a: IRect, b: IRect) -> IRect {
        IRect {
            left: if a.left >= b.left {
                a.left
            } else {
                b.left
            },
            top: if a.top >= b.top {
                a.top
            } else {
                b.top
            },
            right: if a.right <= b.right {
                a.right
            } else {
                b.right
            },
            bottom: if a.bottom <= b.bottom {
                a.bottom
            } else {
                b.bottom
            },
        }
    }

    /// The largest rectangle contained in both arguments: a point lies in the
    /// result exactly when it lies in both. The result is normalised so that
    /// an empty intersection reports itself empty through [`IRect::is_empty`].
    pub fn intersect(a: &IRect, b: &IRect) -> (r: IRect)
        ensures
            r == IRect::spec_intersect(*a, *b),
            forall|x: int, y: int|
                r.spec_contains(x, y) == (a.spec_contains(x, y) && b.spec_contains(x, y)),
    {
        IRect {
            left: if a.left >= b.left { a.left } else { b.left },
            top: if a.top >= b.top { a.top } else { b.top },
            right: if a.right <= b.right { a.right } else { b.right },
            bottom: if a.bottom <= b.bottom { a.bottom } else { b.bottom },
        }
    }
}

} // verus!
