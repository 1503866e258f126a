//! Integer pixel rectangles and the algebra of effect regions.

use vstd::prelude::*;

verus! {

/// A rectangle in integer pixel coordinates, covering `x0 <= x < x1` and
/// `y0 <= y < y1`.
#[derive(Clone, Copy, Debug, PartialEq, Eq, Structural)]
pub struct IRect {
    pub x0: i32,
    pub y0: i32,
    pub x1: i32,
    pub y1: i32,
}

/// The smaller of two integers.
pub open spec fn min_int(a: int, b: int) -> int {
    if a <= b {
        a
    } else {
        b
    }
}

/// The larger of two integers.
pub open spec fn max_int(a: int, b: int) -> int {
    if a >= b {
        a
    } else {
        b
    }
}

/// `v` moved by the shortest way into `lo ..= hi`.
pub open spec fn clamp_int(v: int, lo: int, hi: int) -> int {
    if v < lo {
        lo
    } else if v > hi {
        hi
    } else {
        v
    }
}

fn min_i32(a: i32, b: i32) -> (m: i32)
    ensures
        m == min_int(a as int, b as int),
{
    if a <= b {
        a
    } else {
        b
    }
}

fn max_i32(a: i32, b: i32) -> (m: i32)
    ensures
        m == max_int(a as int, b as int),
{
    if a >= b {
        a
    } else {
        b
    }
}

fn clamp_i32(v: i32, lo: i32, hi: i32) -> (c: i32)
    ensures
        c == clamp_int(v as int, lo as int, hi as int),
{
    if v < lo {
        lo
    } else if v > hi {
        hi
    } else {
        v
    }
}

impl IRect {
    /// The edges are ordered: the rectangle has a width and a height of at
    /// least zero.
    pub open spec fn is_valid(self) -> bool {
        self.x0 <= self.x1 && self.y0 <= self.y1
    }

    /// No pixel lies inside.
    pub open spec fn spec_is_empty(self) -> bool {
        self.x0 >= self.x1 || self.y0 >= self.y1
    }

    /// Every edge of `other` lies between the edges of `self`.
    pub open spec fn spec_contains(self, other: IRect) -> bool {
        &&& self.x0 <= other.x0
        &&& other.x1 <= self.x1
        &&& self.y0 <= other.y0
        &&& other.y1 <= self.y1
    }

    /// The pixel `(x, y)` lies inside.
    pub open spec fn covers(self, x: int, y: int) -> bool {
        self.x0 <= x < self.x1 && self.y0 <= y < self.y1
    }

    /// The smallest rectangle whose edges enclose the edges of both.
    pub open spec fn spec_union(self, other: IRect) -> IRect {
        IRect {
            x0: min_int(self.x0 as int, other.x0 as int) as i32,
            y0: min_int(self.y0 as int, other.y0 as int) as i32,
            x1: max_int(self.x1 as int, other.x1 as int) as i32,
            y1: max_int(self.y1 as int, other.y1 as int) as i32,
        }
    }

    /// The largest rectangle whose edges both enclose; its edges may cross.
    pub open spec fn overlap(self, other: IRect) -> IRect {
        IRect {
            x0: max_int(self.x0 as int, other.x0 as int) as i32,
            y0: max_int(self.y0 as int, other.y0 as int) as i32,
            x1: min_int(self.x1 as int, other.x1 as int) as i32,
            y1: min_int(self.y1 as int, other.y1 as int) as i32,
        }
    }

    /// The pixels that both cover, where there are any.
    pub open spec fn spec_intersection(self, other: IRect) -> Option<IRect> {
        if self.overlap(other).spec_is_empty() {
            None
        } else {
            Some(self.overlap(other))
        }
    }

    /// Each edge of `self` moved into `region`.
    pub open spec fn spec_clamp_to(self, region: IRect) -> IRect {
        IRect {
            x0: clamp_int(self.x0 as int, region.x0 as int, region.x1 as int) as i32,
            y0: clamp_int(self.y0 as int, region.y0 as int, region.y1 as int) as i32,
            x1: clamp_int(self.x1 as int, region.x0 as int, region.x1 as int) as i32,
            y1: clamp_int(self.y1 as int, region.y0 as int, region.y1 as int) as i32,
        }
    }

    /// The rectangle with the same left and top edges whose right and
    /// bottom edges do not cross them.
    pub open spec fn spec_normalized(self) -> IRect {
        IRect {
            x0: self.x0,
            y0: self.y0,
            x1: max_int(self.x0 as int, self.x1 as int) as i32,
            y1: max_int(self.y0 as int, self.y1 as int) as i32,
        }
    }

    pub fn new(x0: i32, y0: i32, x1: i32, y1: i32) -> (r: IRect)
        ensures
            r == (IRect { x0, y0, x1, y1 }),
    {
        IRect { x0, y0, x1, y1 }
    }

    /// The rectangle `0 <= x < width`, `0 <= y < height`.
    pub fn from_size(width: i32, height: i32) -> (r: IRect)
        ensures
            r == (IRect { x0: 0, y0: 0, x1: width, y1: height }),
    {
        IRect { x0: 0, y0: 0, x1: width, y1: height }
    }

    pub fn width(&self) -> (w: i64)
        ensures
            w == self.x1 - self.x0,
    {
        self.x1 as i64 - self.x0 as i64
    }

    pub fn height(&self) -> (h: i64)
        ensures
            h == self.y1 - self.y0,
    {
        self.y1 as i64 - self.y0 as i64
    }

    pub fn is_empty(&self) -> (b: bool)
        ensures
            b == self.spec_is_empty(),
    {
        self.x0 >= self.x1 || self.y0 >= self.y1
    }

    pub fn contains(&self, other: &IRect) -> (b: bool)
        ensures
            b == self.spec_contains(*other),
    {
        self.x0 <= other.x0 && other.x1 <= self.x1 && self.y0 <= other.y0 && other.y1 <= self.y1
    }

    pub fn union(&self, other: &IRect) -> (r: IRect)
        ensures
            r == self.spec_union(*other),
    {
        IRect {
            x0: min_i32(self.x0, other.x0),
            y0: min_i32(self.y0, other.y0),
            x1: max_i32(self.x1, other.x1),
            y1: max_i32(self.y1, other.y1),
        }
    }

    pub fn intersection(&self, other: &IRect) -> (r: Option<IRect>)
        ensures
            r == self.spec_intersection(*other),
    {
        let inner = IRect {
            x0: max_i32(self.x0, other.x0),
            y0: max_i32(self.y0, other.y0),
            x1: min_i32(self.x1, other.x1),
            y1: min_i32(self.y1, other.y1),
        };
        if inner.is_empty() {
            None
        } else {
            Some(inner)
        }
    }

    /// A valid rectangle: the same where the edges are in order, else
    /// empty at the left and top edges.
    pub fn normalized(&self) -> (r: IRect)
        ensures
            r == self.spec_normalized(),
            r.is_valid(),
    {
        IRect {
            x0: self.x0,
            y0: self.y0,
            x1: max_i32(self.x0, self.x1),
            y1: max_i32(self.y0, self.y1),
        }
    }

    /// Confines the rectangle to `region`.  Where the two overlap this is
    /// their intersection; where they do not, an empty rectangle on the
    /// border of `region`.
    pub fn clamp_to(&self, region: &IRect) -> (r: IRect)
        ensures
            r == self.spec_clamp_to(*region),
    {
        IRect {
            x0: clamp_i32(self.x0, region.x0, region.x1),
            y0: clamp_i32(self.y0, region.y0, region.y1),
            x1: clamp_i32(self.x1, region.x0, region.x1),
            y1: clamp_i32(self.y1, region.y0, region.y1),
        }
    }
}

/// A clamped rectangle lies inside the region it was clamped to, and
/// clamping keeps valid rectangles valid.
pub proof fn lemma_clamp_within(r: IRect, region: IRect)
    requires
        region.is_valid(),
    ensures
        region.spec_contains(r.spec_clamp_to(region)),
        r.is_valid() ==> r.spec_clamp_to(region).is_valid(),
{
}

/// Where a valid rectangle overlaps the region, clamping yields exactly
/// the pixels that both cover.
pub proof fn lemma_clamp_is_intersection(r: IRect, region: IRect)
    requires
        r.is_valid(),
        region.is_valid(),
    ensures
        r.spec_intersection(region) matches Some(i) ==> r.spec_clamp_to(region) == i,
        r.spec_intersection(region) is None ==> r.spec_clamp_to(region).spec_is_empty(),
{
}

/// Union is commutative, associative and idempotent.
pub proof fn lemma_union_laws(a: IRect, b: IRect, c: IRect)
    ensures
        a.spec_union(b) == b.spec_union(a),
        a.spec_union(b).spec_union(c) == a.spec_union(b.spec_union(c)),
        a.spec_union(a) == a,
        a.spec_union(b).spec_contains(a),
        a.spec_union(b).spec_contains(b),
{
}

} // verus!
