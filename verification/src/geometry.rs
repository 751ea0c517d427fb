//! Integer rectangle geometry in the compositor's logical coordinate
//! space.
//!
//! All coordinates are `i32` logical pixels. The engine's arithmetic is
//! kept overflow-free by bounding every externally supplied coordinate
//! by [`LIMIT`] and every engine-held location and size by the looser
//! [`LOC_LIMIT`] and [`SIZE_LIMIT`]; sums of a handful of such values
//! always fit in `i32`.

use vstd::prelude::*;

verus! {

/// Bound on externally supplied coordinates: output positions, zone
/// rectangles, explicit placement positions, resize amounts.
pub const LIMIT: i32 = 100_000_000;

/// Bound on the magnitude of a location the engine stores for a mapped
/// window (placement centering and merge offsets can push a location a
/// few multiples of `LIMIT` away from the origin, never past this).
pub const LOC_LIMIT: i32 = 500_000_000;

/// Bound on a window's size. Resizing clamps into the bounding box of
/// the registered outputs, which spans at most a few multiples of
/// `LIMIT` per axis.
pub const SIZE_LIMIT: i32 = 400_000_000;

/// Transient bound on a stored location while a merge is translating
/// windows between engines, before the closing reflow restores
/// [`LOC_LIMIT`].
pub const LOC_SLACK: i32 = 1_000_000_000;

#[derive(Clone, Copy, PartialEq, Eq, Structural, Debug)]
pub struct Point {
    pub x: i32,
    pub y: i32,
}

#[derive(Clone, Copy, PartialEq, Eq, Structural, Debug)]
pub struct Extent {
    pub w: i32,
    pub h: i32,
}

#[derive(Clone, Copy, PartialEq, Eq, Structural, Debug)]
pub struct Rect {
    pub loc: Point,
    pub size: Extent,
}

impl Point {
    pub open spec fn bounded(self, limit: int) -> bool {
        -limit <= self.x <= limit && -limit <= self.y <= limit
    }

    pub fn origin() -> (r: Point)
        ensures
            r == (Point { x: 0, y: 0 }),
    {
        Point { x: 0, y: 0 }
    }
}

impl Extent {
    /// A well-formed extent: positive and within the engine's bound.
    pub open spec fn wf(self) -> bool {
        1 <= self.w <= SIZE_LIMIT && 1 <= self.h <= SIZE_LIMIT
    }
}

impl Rect {
    pub open spec fn right(self) -> int {
        self.loc.x + self.size.w
    }

    pub open spec fn bottom(self) -> int {
        self.loc.y + self.size.h
    }

    /// Both rectangles cover at least one common pixel. A rectangle of
    /// zero or negative extent overlaps nothing.
    pub open spec fn overlaps(self, other: Rect) -> bool {
        self.loc.x < other.right() && other.loc.x < self.right() && self.loc.y < other.bottom()
            && other.loc.y < self.bottom()
    }

    /// The point lies inside the rectangle.
    pub open spec fn contains_point(self, p: Point) -> bool {
        self.loc.x <= p.x < self.right() && self.loc.y <= p.y < self.bottom()
    }

    /// `self` lies entirely inside `other`.
    pub open spec fn inside(self, other: Rect) -> bool {
        other.loc.x <= self.loc.x && self.right() <= other.right() && other.loc.y <= self.loc.y
            && self.bottom() <= other.bottom()
    }

    pub open spec fn wf(self) -> bool {
        self.loc.bounded(LOC_LIMIT as int) && self.size.wf()
    }

    /// Area in square pixels, zero for degenerate rectangles.
    pub open spec fn area(self) -> int {
        if self.size.w <= 0 || self.size.h <= 0 {
            0
        } else {
            self.size.w * self.size.h
        }
    }

    /// The common region of two overlapping rectangles.
    pub open spec fn spec_intersection(self, other: Rect) -> Rect {
        let x = if self.loc.x >= other.loc.x {
            self.loc.x as int
        } else {
            other.loc.x as int
        };
        let y = if self.loc.y >= other.loc.y {
            self.loc.y as int
        } else {
            other.loc.y as int
        };
        let r = if self.right() <= other.right() {
            self.right()
        } else {
            other.right()
        };
        let b = if self.bottom() <= other.bottom() {
            self.bottom()
        } else {
            other.bottom()
        };
        Rect {
            loc: Point { x: x as i32, y: y as i32 },
            size: Extent { w: (r - x) as i32, h: (b - y) as i32 },
        }
    }

    /// The smallest rectangle holding both rectangles.
    pub open spec fn spec_union(self, other: Rect) -> Rect {
        let x = if self.loc.x <= other.loc.x {
            self.loc.x as int
        } else {
            other.loc.x as int
        };
        let y = if self.loc.y <= other.loc.y {
            self.loc.y as int
        } else {
            other.loc.y as int
        };
        let r = if self.right() >= other.right() {
            self.right()
        } else {
            other.right()
        };
        let b = if self.bottom() >= other.bottom() {
            self.bottom()
        } else {
            other.bottom()
        };
        Rect {
            loc: Point { x: x as i32, y: y as i32 },
            size: Extent { w: (r - x) as i32, h: (b - y) as i32 },
        }
    }

    pub fn new(x: i32, y: i32, w: i32, h: i32) -> (r: Rect)
        ensures
            r == (Rect { loc: Point { x, y }, size: Extent { w, h } }),
    {
        Rect { loc: Point { x, y }, size: Extent { w, h } }
    }

    /// Executable overlap test.
    pub fn overlaps_exec(&self, other: &Rect) -> (r: bool)
        requires
            self.loc.bounded(2 * LOC_LIMIT as int),
            other.loc.bounded(2 * LOC_LIMIT as int),
            -SIZE_LIMIT - LIMIT <= self.size.w <= 2 * SIZE_LIMIT,
            -SIZE_LIMIT - LIMIT <= self.size.h <= 2 * SIZE_LIMIT,
            0 <= other.size.w <= SIZE_LIMIT,
            0 <= other.size.h <= SIZE_LIMIT,
        ensures
            r == self.overlaps(*other),
    {
        self.loc.x < other.loc.x + other.size.w && other.loc.x < self.loc.x + self.size.w
            && self.loc.y < other.loc.y + other.size.h && other.loc.y < self.loc.y + self.size.h
    }

    /// Executable intersection of two overlapping rectangles.
    pub fn intersection(&self, other: &Rect) -> (r: Rect)
        requires
            self.overlaps(*other),
            self.loc.bounded(2 * LOC_LIMIT as int),
            other.loc.bounded(2 * LOC_LIMIT as int),
            1 <= self.size.w <= 2 * SIZE_LIMIT,
            1 <= self.size.h <= 2 * SIZE_LIMIT,
            1 <= other.size.w <= SIZE_LIMIT,
            1 <= other.size.h <= SIZE_LIMIT,
        ensures
            r == self.spec_intersection(*other),
            1 <= r.size.w <= other.size.w,
            1 <= r.size.h <= other.size.h,
            r.inside(*self),
            r.inside(*other),
    {
        let x = if self.loc.x >= other.loc.x {
            self.loc.x
        } else {
            other.loc.x
        };
        let y = if self.loc.y >= other.loc.y {
            self.loc.y
        } else {
            other.loc.y
        };
        let sr = self.loc.x + self.size.w;
        let or = other.loc.x + other.size.w;
        let right = if sr <= or {
            sr
        } else {
            or
        };
        let sb = self.loc.y + self.size.h;
        let ob = other.loc.y + other.size.h;
        let bottom = if sb <= ob {
            sb
        } else {
            ob
        };
        Rect { loc: Point { x, y }, size: Extent { w: right - x, h: bottom - y } }
    }

    /// Executable bounding union of two rectangles.
    pub fn union(&self, other: &Rect) -> (r: Rect)
        requires
            self.loc.bounded(LIMIT as int),
            other.loc.bounded(LIMIT as int),
            0 <= self.size.w,
            0 <= self.size.h,
            0 <= other.size.w,
            0 <= other.size.h,
            self.right() <= 2 * LIMIT,
            self.bottom() <= 2 * LIMIT,
            other.right() <= 2 * LIMIT,
            other.bottom() <= 2 * LIMIT,
        ensures
            r == self.spec_union(*other),
            self.inside(r),
            other.inside(r),
            r.loc.bounded(LIMIT as int),
            0 <= r.size.w,
            0 <= r.size.h,
            r.right() <= 2 * LIMIT,
            r.bottom() <= 2 * LIMIT,
    {
        let x = if self.loc.x <= other.loc.x {
            self.loc.x
        } else {
            other.loc.x
        };
        let y = if self.loc.y <= other.loc.y {
            self.loc.y
        } else {
            other.loc.y
        };
        let sr = self.loc.x + self.size.w;
        let or = other.loc.x + other.size.w;
        let right = if sr >= or {
            sr
        } else {
            or
        };
        let sb = self.loc.y + self.size.h;
        let ob = other.loc.y + other.size.h;
        let bottom = if sb >= ob {
            sb
        } else {
            ob
        };
        Rect { loc: Point { x, y }, size: Extent { w: right - x, h: bottom - y } }
    }

    /// Executable pixel area of the intersection of two rectangles,
    /// zero when they do not overlap. Computed in `i64` so that the
    /// product of two axis extents cannot overflow.
    pub fn intersection_area(&self, other: &Rect) -> (a: i64)
        requires
            self.loc.bounded(2 * LOC_LIMIT as int),
            other.loc.bounded(2 * LOC_LIMIT as int),
            1 <= self.size.w <= SIZE_LIMIT,
            1 <= self.size.h <= SIZE_LIMIT,
            1 <= other.size.w <= SIZE_LIMIT,
            1 <= other.size.h <= SIZE_LIMIT,
        ensures
            self.overlaps(*other) ==> a == self.spec_intersection(*other).area(),
            self.overlaps(*other) ==> a >= 1,
            !self.overlaps(*other) ==> a == 0,
            a >= 0,
    {
        if self.overlaps_exec(other) {
            let i = self.intersection(other);
            let w = i.size.w as i64;
            let h = i.size.h as i64;
            assert(w * h <= 400_000_000i64 * 400_000_000i64 && w * h >= 1) by (nonlinear_arith)
                requires
                    1 <= w <= 400_000_000,
                    1 <= h <= 400_000_000,
            ;
            w * h
        } else {
            0
        }
    }
}

} // verus!
