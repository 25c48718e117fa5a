//! Axis-aligned boxes and the overlap test that every collision rule uses.
use vstd::prelude::*;

verus! {

/// Largest magnitude of a coordinate.
pub const COORD_LIMIT: i64 = 1_000_000_000_000;

/// Largest width or height of a collider.
pub const SIZE_LIMIT: i64 = 1_000_000_000_000;

/// Center of an entity.
#[derive(Clone, Copy, Debug, PartialEq, Eq)]
pub struct Position {
    pub x: i64,
    pub y: i64,
}

/// Rectangular extent of an entity, centered on its position.
#[derive(Clone, Copy, Debug, PartialEq, Eq)]
pub struct Collider {
    pub width: i64,
    pub height: i64,
}

impl Position {
    pub open spec fn wf(self) -> bool {
        -COORD_LIMIT <= self.x <= COORD_LIMIT && -COORD_LIMIT <= self.y <= COORD_LIMIT
    }
}

impl Collider {
    pub open spec fn wf(self) -> bool {
        0 <= self.width <= SIZE_LIMIT && 0 <= self.height <= SIZE_LIMIT
    }
}

/// Edges are stated doubled, so that odd extents need no rounding.
pub open spec fn left2(p: Position, c: Collider) -> int {
    2 * p.x - c.width
}

pub open spec fn right2(p: Position, c: Collider) -> int {
    2 * p.x + c.width
}

pub open spec fn bottom2(p: Position, c: Collider) -> int {
    2 * p.y - c.height
}

pub open spec fn top2(p: Position, c: Collider) -> int {
    2 * p.y + c.height
}

/// The interiors of the two boxes intersect; touching edges do not count.
pub open spec fn overlaps(pa: Position, ca: Collider, pb: Position, cb: Collider) -> bool {
    &&& left2(pb, cb) < right2(pa, ca)
    &&& right2(pb, cb) > left2(pa, ca)
    &&& top2(pb, cb) > bottom2(pa, ca)
    &&& bottom2(pb, cb) < top2(pa, ca)
}

/// Two boxes share an edge: one's right edge is the other's left edge, or
/// one's top edge is the other's bottom edge.
pub open spec fn share_edge(pa: Position, ca: Collider, pb: Position, cb: Collider) -> bool {
    ||| right2(pa, ca) == left2(pb, cb)
    ||| left2(pa, ca) == right2(pb, cb)
    ||| top2(pa, ca) == bottom2(pb, cb)
    ||| bottom2(pa, ca) == top2(pb, cb)
}

/// Whether the box of `collider_1` centered at `transform_1` overlaps the box
/// of `collider_2` centered at `transform_2`.
pub fn check_collision(
    collider_1: &Collider,
    transform_1: &Position,
    collider_2: &Collider,
    transform_2: &Position,
) -> (r: bool)
    requires
        collider_1.wf(),
        transform_1.wf(),
        collider_2.wf(),
        transform_2.wf(),
    ensures
        r == overlaps(*transform_1, *collider_1, *transform_2, *collider_2),
{
    let pl = 2 * transform_1.x - collider_1.width;
    let pr = 2 * transform_1.x + collider_1.width;
    let pb = 2 * transform_1.y - collider_1.height;
    let pt = 2 * transform_1.y + collider_1.height;

    let wl = 2 * transform_2.x - collider_2.width;
    let wr = 2 * transform_2.x + collider_2.width;
    let wb = 2 * transform_2.y - collider_2.height;
    let wt = 2 * transform_2.y + collider_2.height;

    wl < pr && wr > pl && wt > pb && wb < pt
}

/// Overlap does not depend on the order of the two boxes.
pub proof fn lemma_overlap_symmetric(pa: Position, ca: Collider, pb: Position, cb: Collider)
    ensures
        overlaps(pa, ca, pb, cb) == overlaps(pb, cb, pa, ca),
{
}

/// Boxes that only touch along an edge are not overlapping.
pub proof fn lemma_touching_boxes_do_not_overlap(
    pa: Position,
    ca: Collider,
    pb: Position,
    cb: Collider,
)
    requires
        share_edge(pa, ca, pb, cb),
    ensures
        !overlaps(pa, ca, pb, cb),
        !overlaps(pb, cb, pa, ca),
{
}

} // verus!
