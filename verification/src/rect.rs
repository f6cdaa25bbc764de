//! Axis-aligned rectangles, used as rooms while a dungeon is laid out.

use vstd::prelude::*;

verus! {

/// A rectangle with inclusive corners `(x1, y1)` and `(x2, y2)`.
#[derive(Clone, Copy, Debug)]
pub struct Rect {
    pub x1: i32,
    pub y1: i32,
    pub x2: i32,
    pub y2: i32,
}

/// Integer division by two that rounds toward zero.
pub open spec fn half(n: int) -> int {
    if n >= 0 {
        n / 2
    } else {
        -((-n) / 2)
    }
}

/// Whether two rectangles share a point, their edges included.
pub open spec fn overlapping(a: Rect, b: Rect) -> bool {
    a.x1 <= b.x2 && a.x2 >= b.x1 && a.y1 <= b.y2 && a.y2 >= b.y1
}

impl Rect {
    /// The midpoint of the rectangle.
    pub open spec fn spec_center(self) -> (int, int) {
        (half(self.x1 + self.x2), half(self.y1 + self.y2))
    }

    /// The rectangle with top-left corner `(x, y)` that reaches `w` to the
    /// right and `h` down.
    pub fn new(x: i32, y: i32, w: i32, h: i32) -> (r: Rect)
        requires
            i32::MIN <= x + w <= i32::MAX,
            i32::MIN <= y + h <= i32::MAX,
        ensures
            r == (Rect { x1: x, y1: y, x2: (x + w) as i32, y2: (y + h) as i32 }),
    {
        Rect { x1: x, y1: y, x2: x + w, y2: y + h }
    }

    /// Whether `self` and `other` overlap, counting shared edges.
    pub fn intersect(&self, other: &Rect) -> (r: bool)
        ensures
            r == overlapping(*self, *other),
    {
        self.x1 <= other.x2 && self.x2 >= other.x1 && self.y1 <= other.y2 && self.y2 >= other.y1
    }

    /// The midpoint, each coordinate rounded toward zero.
    pub fn center(&self) -> (r: (i32, i32))
        ensures
            (r.0 as int, r.1 as int) == self.spec_center(),
    {
        (halve(self.x1 as i64 + self.x2 as i64), halve(self.y1 as i64 + self.y2 as i64))
    }
}

/// Half of `n`, rounded toward zero.
fn halve(n: i64) -> (r: i32)
    requires
        2 * i32::MIN <= n <= 2 * i32::MAX,
    ensures
        r as int == half(n as int),
{
    if n >= 0 {
        (n / 2) as i32
    } else {
        let m: i64 = (-n) / 2;
        (-m) as i32
    }
}

} // verus!
