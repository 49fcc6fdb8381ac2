//! Rectangles of the compositor's coordinate space.
use vstd::prelude::*;

verus! {

/// A point; `x` grows to the right and `y` downwards.
#[derive(Debug, Clone, Copy, PartialEq, Eq, Structural)]
pub struct Position {
    pub x: i32,
    pub y: i32,
}

/// The extent of a rectangle or of an image.
#[derive(Debug, Clone, Copy, PartialEq, Eq, Structural)]
pub struct Size {
    pub width: u32,
    pub height: u32,
}

/// A rectangle, given by its upper left corner and its size.
#[derive(Debug, Clone, Copy, PartialEq, Eq, Structural)]
pub struct Region {
    pub position: Position,
    pub size: Size,
}

/// A rectangle of the space in which the compositor lays out its outputs.
#[derive(Debug, Clone, Copy, PartialEq, Eq, Structural)]
pub struct LogicalRegion {
    pub inner: Region,
}

/// A rectangle inside another one, placed relative to that one's upper left
/// corner.
#[derive(Debug, Clone, Copy, PartialEq, Eq, Structural)]
pub struct EmbeddedRegion {
    /// The rectangle that `inner` lies in.
    pub relative_to: LogicalRegion,
    /// The embedded rectangle, in coordinates of `relative_to`.
    pub inner: Region,
}

pub open spec fn min(a: int, b: int) -> int {
    if a <= b {
        a
    } else {
        b
    }
}

pub open spec fn max(a: int, b: int) -> int {
    if a >= b {
        a
    } else {
        b
    }
}

impl Region {
    pub open spec fn left(self) -> int {
        self.position.x as int
    }

    pub open spec fn top(self) -> int {
        self.position.y as int
    }

    /// The first column to the right of the rectangle.
    pub open spec fn right(self) -> int {
        self.position.x + self.size.width
    }

    /// The first row below the rectangle.
    pub open spec fn bottom(self) -> int {
        self.position.y + self.size.height
    }

    /// The point `(x, y)` lies in the rectangle.
    pub open spec fn contains(self, x: int, y: int) -> bool {
        &&& self.left() <= x < self.right()
        &&& self.top() <= y < self.bottom()
    }

    /// The corner opposite to `position` has coordinates of its type.
    pub open spec fn corner_fits(self) -> bool {
        &&& self.right() <= i32::MAX
        &&& self.bottom() <= i32::MAX
    }

    /// The two rectangles share a point.
    pub open spec fn overlaps(self, other: Region) -> bool {
        &&& max(self.left(), other.left()) < min(self.right(), other.right())
        &&& max(self.top(), other.top()) < min(self.bottom(), other.bottom())
    }
}

impl EmbeddedRegion {
    /// The region lies inside the one that it is relative to.
    pub open spec fn wf(self) -> bool {
        &&& 0 <= self.inner.left()
        &&& 0 <= self.inner.top()
        &&& self.inner.right() <= self.relative_to.inner.size.width
        &&& self.inner.bottom() <= self.relative_to.inner.size.height
        &&& self.position_fits()
    }

    /// The corner has coordinates of its type in the compositor's space, too.
    pub open spec fn position_fits(self) -> bool {
        &&& i32::MIN <= self.relative_to.inner.left() + self.inner.left() <= i32::MAX
        &&& i32::MIN <= self.relative_to.inner.top() + self.inner.top() <= i32::MAX
    }

    /// The part of `viewport` that lies in `relative_to`.
    pub open spec fn is_overlap(self, viewport: LogicalRegion, relative_to: LogicalRegion) -> bool {
        let v = viewport.inner;
        let r = relative_to.inner;
        &&& self.relative_to == relative_to
        &&& self.inner.left() == max(v.left(), r.left()) - r.left()
        &&& self.inner.top() == max(v.top(), r.top()) - r.top()
        &&& self.inner.right() == min(v.right(), r.right()) - r.left()
        &&& self.inner.bottom() == min(v.bottom(), r.bottom()) - r.top()
    }

    /// The same rectangle in the coordinates of the compositor.
    pub open spec fn in_logical_space(self) -> Region {
        Region {
            position: Position {
                x: (self.relative_to.inner.position.x + self.inner.position.x) as i32,
                y: (self.relative_to.inner.position.y + self.inner.position.y) as i32,
            },
            size: self.inner.size,
        }
    }

    /// Cuts `viewport` down to what lies in `relative_to`; there is nothing left
    /// of it where the two share no point.
    pub fn new(viewport: LogicalRegion, relative_to: LogicalRegion) -> (res: Option<Self>)
        requires
            relative_to.inner.size.width <= i32::MAX,
            relative_to.inner.size.height <= i32::MAX,
        ensures
            res is Some <==> viewport.inner.overlaps(relative_to.inner),
            res matches Some(region) ==> region.wf() && region.is_overlap(viewport, relative_to),
    {
        let (vx, vy): (i64, i64) = (
            viewport.inner.position.x as i64,
            viewport.inner.position.y as i64,
        );
        let (rx, ry): (i64, i64) = (
            relative_to.inner.position.x as i64,
            relative_to.inner.position.y as i64,
        );
        let (x1, x2): (i64, i64) = overlap(
            vx,
            viewport.inner.size.width,
            rx,
            relative_to.inner.size.width,
        );
        let (y1, y2): (i64, i64) = overlap(
            vy,
            viewport.inner.size.height,
            ry,
            relative_to.inner.size.height,
        );
        if x1 >= x2 || y1 >= y2 {
            return None;
        }
        Some(
            EmbeddedRegion {
                relative_to,
                inner: Region {
                    position: Position { x: (x1 - rx) as i32, y: (y1 - ry) as i32 },
                    size: Size { width: (x2 - x1) as u32, height: (y2 - y1) as u32 },
                },
            },
        )
    }

    /// The same rectangle in the coordinates of the compositor.
    pub fn logical(&self) -> (res: LogicalRegion)
        requires
            self.position_fits(),
        ensures
            res.inner == self.in_logical_space(),
    {
        LogicalRegion {
            inner: Region {
                position: Position {
                    x: self.relative_to.inner.position.x + self.inner.position.x,
                    y: self.relative_to.inner.position.y + self.inner.position.y,
                },
                size: self.inner.size,
            },
        }
    }
}

/// The common part of two intervals, each given by its start and its length.
fn overlap(a: i64, a_len: u32, b: i64, b_len: u32) -> (res: (i64, i64))
    requires
        i32::MIN <= a <= i32::MAX,
        i32::MIN <= b <= i32::MAX,
    ensures
        res.0 == max(a as int, b as int),
        res.1 == min(a + a_len, b + b_len),
{
    let a_end: i64 = a + a_len as i64;
    let b_end: i64 = b + b_len as i64;
    let start: i64 = if a >= b {
        a
    } else {
        b
    };
    let end: i64 = if a_end <= b_end {
        a_end
    } else {
        b_end
    };
    (start, end)
}

/// Two rectangles overlap exactly where some point lies in both.
pub proof fn law_overlap_is_shared_point(a: Region, b: Region)
    ensures
        a.overlaps(b) <==> exists|x: int, y: int| #[trigger] a.contains(x, y) && b.contains(x, y),
{
    if a.overlaps(b) {
        let x = max(a.left(), b.left());
        let y = max(a.top(), b.top());
        assert(a.contains(x, y) && b.contains(x, y));
    }
}

/// Cutting a viewport down to an output loses no point and adds none: a point of
/// the compositor's space lies in the embedded region exactly if it lies in the
/// viewport and in the output.
pub proof fn law_embedding_is_intersection(
    region: EmbeddedRegion,
    viewport: LogicalRegion,
    relative_to: LogicalRegion,
    x: int,
    y: int,
)
    requires
        region.wf(),
        region.is_overlap(viewport, relative_to),
    ensures
        region.in_logical_space().contains(x, y) <==> {
            &&& viewport.inner.contains(x, y)
            &&& relative_to.inner.contains(x, y)
        },
{
}

/// A rectangle holds the points from its corner on: as many columns as it is wide,
/// and as many rows as it is high.
pub proof fn law_region_is_its_points(region: Region, x: int, y: int)
    ensures
        region.contains(x, y) <==> {
            &&& region.position.x <= x
            &&& x - region.position.x < region.size.width
            &&& region.position.y <= y
            &&& y - region.position.y < region.size.height
        },
{
}

/// The part of a viewport that lies on an output is not empty, and its corner and its
/// opposite corner are the innermost of the two rectangles' edges, seen from the
/// output.
pub proof fn law_embedded_edges(
    region: EmbeddedRegion,
    viewport: LogicalRegion,
    relative_to: LogicalRegion,
)
    requires
        region.is_overlap(viewport, relative_to),
        viewport.inner.overlaps(relative_to.inner),
    ensures
        region.relative_to == relative_to,
        region.inner.size.width > 0 && region.inner.size.height > 0,
        forall|x: int|
            region.inner.position.x <= x < region.inner.position.x + region.inner.size.width <==> {
                &&& viewport.inner.position.x <= #[trigger] (x + relative_to.inner.position.x)
                &&& x + relative_to.inner.position.x < viewport.inner.position.x
                    + viewport.inner.size.width
                &&& 0 <= x < relative_to.inner.size.width
            },
        forall|y: int|
            region.inner.position.y <= y < region.inner.position.y + region.inner.size.height <==> {
                &&& viewport.inner.position.y <= #[trigger] (y + relative_to.inner.position.y)
                &&& y + relative_to.inner.position.y < viewport.inner.position.y
                    + viewport.inner.size.height
                &&& 0 <= y < relative_to.inner.size.height
            },
{
}

/// To place an embedded region in the compositor's space is to move it by the corner
/// of the rectangle that it lies in; its size stays.
pub proof fn law_placing_is_moving(region: EmbeddedRegion)
    requires
        region.position_fits(),
    ensures
        ({
            let placed = region.in_logical_space();
            &&& placed.position.x - region.inner.position.x == region.relative_to.inner.position.x
            &&& placed.position.y - region.inner.position.y == region.relative_to.inner.position.y
            &&& placed.size == region.inner.size
        }),
{
}

} // verus!
