//! Collision geometry: axis-aligned bounding boxes and closed-interval
//! overlap, the sole collision primitive of the simulation. Touching edges
//! count as overlapping.

use vstd::prelude::*;
use crate::math::{half, half_i64};
use crate::types::{Body, BodyV, body_in_range};

verus! {

pub open spec fn contains_spec(lo: int, hi: int, x: int) -> bool {
    lo <= x && x <= hi
}

/// Closed intervals `[a0, a1]` and `[b0, b1]` overlap: either contains an
/// endpoint of the other.
pub open spec fn overlaps_spec(a0: int, a1: int, b0: int, b1: int) -> bool {
    ||| contains_spec(a0, a1, b0)
    ||| contains_spec(a0, a1, b1)
    ||| contains_spec(b0, b1, a0)
    ||| contains_spec(b0, b1, a1)
}

pub open spec fn x_min(b: BodyV) -> int {
    b.pos.x - half(b.scale.x)
}

pub open spec fn x_max(b: BodyV) -> int {
    b.pos.x + half(b.scale.x)
}

pub open spec fn y_min(b: BodyV) -> int {
    b.pos.y - half(b.scale.y)
}

pub open spec fn y_max(b: BodyV) -> int {
    b.pos.y + half(b.scale.y)
}

/// Bounding boxes of two bodies overlap: their x-intervals overlap and
/// their y-intervals overlap.
pub open spec fn bodies_overlap(a: BodyV, b: BodyV) -> bool {
    &&& overlaps_spec(x_min(a), x_max(a), x_min(b), x_max(b))
    &&& overlaps_spec(y_min(a), y_max(a), y_min(b), y_max(b))
}

/// Interval overlap does not depend on the order of the two intervals.
pub proof fn lemma_overlaps_symmetric(a0: int, a1: int, b0: int, b1: int)
    ensures
        overlaps_spec(a0, a1, b0, b1) == overlaps_spec(b0, b1, a0, a1),
{
}

/// Bounding-box overlap does not depend on the order of the two bodies.
pub proof fn lemma_aabb_overlap_symmetric(a: BodyV, b: BodyV)
    ensures
        bodies_overlap(a, b) == bodies_overlap(b, a),
{
}

/// Two intervals that share exactly a boundary coordinate overlap.
pub proof fn lemma_edge_touching_overlaps(a0: int, a1: int, b0: int, b1: int)
    requires
        a0 <= a1,
        b0 <= b1,
        a1 == b0,
    ensures
        overlaps_spec(a0, a1, b0, b1),
{
}

/// Two bodies whose boxes touch at a shared x boundary, and whose
/// y-intervals overlap, are reported as overlapping.
pub proof fn lemma_edge_touching_bodies_overlap(a: BodyV, b: BodyV)
    requires
        x_max(a) == x_min(b),
        x_min(a) <= x_max(a),
        x_min(b) <= x_max(b),
        overlaps_spec(y_min(a), y_max(a), y_min(b), y_max(b)),
    ensures
        bodies_overlap(a, b),
{
}

pub fn contains(lo: i64, hi: i64, x: i64) -> (r: bool)
    ensures
        r == contains_spec(lo as int, hi as int, x as int),
{
    lo <= x && hi >= x
}

pub fn overlaps(a0: i64, a1: i64, b0: i64, b1: i64) -> (r: bool)
    ensures
        r == overlaps_spec(a0 as int, a1 as int, b0 as int, b1 as int),
{
    contains(a0, a1, b0) || contains(a0, a1, b1) || contains(b0, b1, a0) || contains(b0, b1, a1)
}

/// `(x_min, x_max, y_min, y_max)` of a body's bounding box.
pub fn bounds(body: &Body) -> (r: (i64, i64, i64, i64))
    requires
        body_in_range(body@),
    ensures
        r.0 as int == x_min(body@),
        r.1 as int == x_max(body@),
        r.2 as int == y_min(body@),
        r.3 as int == y_max(body@),
{
    let hw = half_i64(body.scale.x);
    let hh = half_i64(body.scale.y);
    let x0 = body.pos.x - hw;
    let x1 = body.pos.x + hw;
    let y0 = body.pos.y - hh;
    let y1 = body.pos.y + hh;
    (x0, x1, y0, y1)
}

pub fn aabb_overlap(a: &Body, b: &Body) -> (r: bool)
    requires
        body_in_range(a@),
        body_in_range(b@),
    ensures
        r == bodies_overlap(a@, b@),
{
    let ab = bounds(a);
    let bb = bounds(b);
    overlaps(ab.0, ab.1, bb.0, bb.1) && overlaps(ab.2, ab.3, bb.2, bb.3)
}

} // verus!
