//! Narrow-phase geometry: the exact intersection test between the bee's
//! transformed hitbox quadrilateral and a flower's circle, plus the inclusive
//! box-overlap predicate the broad phase is measured against.
//!
//! Everything is decided by comparing integer products of raw fixed-point
//! coordinates, so the predicates are exact over the represented values: a
//! circle meets a convex quad iff its center lies strictly inside the quad
//! or some side passes within the radius of the center.  A degenerate quad
//! has no interior, so only its sides can be met — exactly.

use vstd::prelude::*;

use crate::fx::{mul_bound, Fx, FX_MAX_RAW};
use crate::prelude::Quad;
use crate::vec2::Vec2;

verus! {

/// Inclusive overlap of the boxes `[amin, amax]` and `[bmin, bmax]`, matching
/// the broad-phase index: touching edges or corners counts as overlap.
pub open spec fn boxes_overlap(amin: Vec2, amax: Vec2, bmin: Vec2, bmax: Vec2) -> bool {
    !(amax.x.raw < bmin.x.raw || amax.y.raw < bmin.y.raw || amin.x.raw > bmax.x.raw
        || amin.y.raw > bmax.y.raw)
}

pub fn boxes_overlap_exec(amin: Vec2, amax: Vec2, bmin: Vec2, bmax: Vec2) -> (r: bool)
    ensures
        r == boxes_overlap(amin, amax, bmin, bmax),
{
    !(amax.x.raw < bmin.x.raw || amax.y.raw < bmin.y.raw || amin.x.raw > bmax.x.raw
        || amin.y.raw > bmax.y.raw)
}

/// Cross product of the edge `a -> b` with the direction `a -> p`: positive
/// when `p` lies to one side of the edge, negative on the other.
pub open spec fn edge_cross(a: Vec2, b: Vec2, p: Vec2) -> int {
    (b.x.raw - a.x.raw) * (p.y.raw - a.y.raw) - (b.y.raw - a.y.raw) * (p.x.raw - a.x.raw)
}

/// `p` lies inside (or on the border of) the convex quad: all four edge
/// crosses carry the same sign, whichever way the corners wind, and at least
/// one of them is strict.  The strictness clause keeps a degenerate quad —
/// one collapsed to a segment or a point, where every cross is zero — from
/// swallowing the whole plane; such a quad is nothing but its boundary, and
/// the segment tests below decide it exactly.
pub open spec fn point_in_quad(q: Quad, p: Vec2) -> bool {
    let c0 = edge_cross(q.p0, q.p1, p);
    let c1 = edge_cross(q.p1, q.p2, p);
    let c2 = edge_cross(q.p2, q.p3, p);
    let c3 = edge_cross(q.p3, q.p0, p);
    ||| (c0 >= 0 && c1 >= 0 && c2 >= 0 && c3 >= 0 && (c0 > 0 || c1 > 0 || c2 > 0 || c3 > 0))
    ||| (c0 <= 0 && c1 <= 0 && c2 <= 0 && c3 <= 0 && (c0 < 0 || c1 < 0 || c2 < 0 || c3 < 0))
}

/// Squared distance between two points, on raw coordinates.
pub open spec fn dist2(a: Vec2, b: Vec2) -> int {
    (a.x.raw - b.x.raw) * (a.x.raw - b.x.raw) + (a.y.raw - b.y.raw) * (a.y.raw - b.y.raw)
}

/// The segment `a -> b` passes within `radius` of the center `c`: the squared
/// distance from `c` to the nearest point of the segment is at most the
/// squared radius, written without any division.
pub open spec fn segment_near(a: Vec2, b: Vec2, c: Vec2, radius: Fx) -> bool {
    let abx = b.x.raw - a.x.raw;
    let aby = b.y.raw - a.y.raw;
    let apx = c.x.raw - a.x.raw;
    let apy = c.y.raw - a.y.raw;
    let dot = abx * apx + aby * apy;
    let ab2 = abx * abx + aby * aby;
    let rr = (radius.raw as int) * (radius.raw as int);
    if dot <= 0 {
        dist2(c, a) <= rr
    } else if dot >= ab2 {
        dist2(c, b) <= rr
    } else {
        let cross = abx * apy - aby * apx;
        cross * cross <= rr * ab2
    }
}

/// The exact narrow-phase predicate: the circle `(center, radius)` meets the
/// convex quad `q`.
pub open spec fn quad_circle_intersects(q: Quad, center: Vec2, radius: Fx) -> bool {
    point_in_quad(q, center) || segment_near(q.p0, q.p1, center, radius) || segment_near(
        q.p1,
        q.p2,
        center,
        radius,
    ) || segment_near(q.p2, q.p3, center, radius) || segment_near(q.p3, q.p0, center, radius)
}

fn edge_cross_exec(a: Vec2, b: Vec2, p: Vec2) -> (r: i128)
    requires
        a.wf(),
        b.wf(),
        p.wf(),
    ensures
        r == edge_cross(a, b, p),
{
    let abx: i64 = b.x.raw - a.x.raw;
    let aby: i64 = b.y.raw - a.y.raw;
    let apx: i64 = p.x.raw - a.x.raw;
    let apy: i64 = p.y.raw - a.y.raw;
    proof {
        mul_bound(abx as int, apy as int, 0x8000_0000);
        mul_bound(aby as int, apx as int, 0x8000_0000);
    }
    (abx as i128) * (apy as i128) - (aby as i128) * (apx as i128)
}

fn dist2_exec(a: Vec2, b: Vec2) -> (r: i128)
    requires
        a.wf(),
        b.wf(),
    ensures
        r == dist2(a, b),
        r >= 0,
{
    let dx: i64 = a.x.raw - b.x.raw;
    let dy: i64 = a.y.raw - b.y.raw;
    proof {
        mul_bound(dx as int, dx as int, 0x8000_0000);
        mul_bound(dy as int, dy as int, 0x8000_0000);
        assert((dx as int) * (dx as int) >= 0) by (nonlinear_arith);
        assert((dy as int) * (dy as int) >= 0) by (nonlinear_arith);
    }
    (dx as i128) * (dx as i128) + (dy as i128) * (dy as i128)
}

fn point_in_quad_exec(q: &Quad, p: Vec2) -> (r: bool)
    requires
        q.wf(),
        p.wf(),
    ensures
        r == point_in_quad(*q, p),
{
    let c0 = edge_cross_exec(q.p0, q.p1, p);
    let c1 = edge_cross_exec(q.p1, q.p2, p);
    let c2 = edge_cross_exec(q.p2, q.p3, p);
    let c3 = edge_cross_exec(q.p3, q.p0, p);
    (c0 >= 0 && c1 >= 0 && c2 >= 0 && c3 >= 0 && (c0 > 0 || c1 > 0 || c2 > 0 || c3 > 0)) || (c0
        <= 0 && c1 <= 0 && c2 <= 0 && c3 <= 0 && (c0 < 0 || c1 < 0 || c2 < 0 || c3 < 0))
}

fn segment_near_exec(a: Vec2, b: Vec2, c: Vec2, radius: Fx) -> (r: bool)
    requires
        a.wf(),
        b.wf(),
        c.wf(),
        radius.wf(),
    ensures
        r == segment_near(a, b, c, radius),
{
    let abx: i64 = b.x.raw - a.x.raw;
    let aby: i64 = b.y.raw - a.y.raw;
    let apx: i64 = c.x.raw - a.x.raw;
    let apy: i64 = c.y.raw - a.y.raw;
    proof {
        mul_bound(abx as int, apx as int, 0x8000_0000);
        mul_bound(aby as int, apy as int, 0x8000_0000);
        mul_bound(abx as int, abx as int, 0x8000_0000);
        mul_bound(aby as int, aby as int, 0x8000_0000);
        mul_bound(radius.raw as int, radius.raw as int, FX_MAX_RAW as int);
    }
    let dot: i128 = (abx as i128) * (apx as i128) + (aby as i128) * (apy as i128);
    let ab2: i128 = (abx as i128) * (abx as i128) + (aby as i128) * (aby as i128);
    let rr: i128 = (radius.raw as i128) * (radius.raw as i128);
    if dot <= 0 {
        dist2_exec(c, a) <= rr
    } else if dot >= ab2 {
        dist2_exec(c, b) <= rr
    } else {
        proof {
            mul_bound(abx as int, apy as int, 0x8000_0000);
            mul_bound(aby as int, apx as int, 0x8000_0000);
        }
        let cross: i128 = (abx as i128) * (apy as i128) - (aby as i128) * (apx as i128);
        proof {
            mul_bound(cross as int, cross as int, 0x8000_0000_0000_0000);
            mul_bound(rr as int, ab2 as int, 0x8000_0000_0000_0000);
        }
        cross * cross <= rr * ab2
    }
}

/// The circle around `center` with the given radius meets the quad.
pub fn quad_circle_intersects_exec(q: &Quad, center: Vec2, radius: Fx) -> (r: bool)
    requires
        q.wf(),
        center.wf(),
        radius.wf(),
    ensures
        r == quad_circle_intersects(*q, center, radius),
{
    point_in_quad_exec(q, center) || segment_near_exec(q.p0, q.p1, center, radius)
        || segment_near_exec(q.p1, q.p2, center, radius) || segment_near_exec(
        q.p2,
        q.p3,
        center,
        radius,
    ) || segment_near_exec(q.p3, q.p0, center, radius)
}

} // verus!
