//! The common vocabulary: components, tick-scoped resources, rectangles and
//! the quadrilateral that the bee's sprite and hitbox are transformed through.

use vstd::prelude::*;

use crate::fx::{fx_add, fx_max, fx_min, Fx};
use crate::vec2::{v2, v_add, v_scale, Vec2};

verus! {

/// Entities are opaque identities: indices into the store's component arenas.
pub type EntityId = usize;

/// The two ways the core can fail.  A missing assumed-present component or
/// resource is a setup defect and aborts the tick; a zero-length vector that
/// needed normalizing is recovered locally by the default heading.
#[derive(Clone, Copy, Debug, PartialEq, Eq, Structural)]
pub enum Error {
    ConfigurationViolation,
    DegenerateGeometry,
}

/// A location in world space.
#[derive(Clone, Copy, Debug, PartialEq, Eq, Structural)]
pub struct Position(pub Vec2);

impl From<Vec2> for Position {
    fn from(position: Vec2) -> Self {
        Position(position)
    }
}

impl vstd::std_specs::convert::FromSpecImpl<Vec2> for Position {
    open spec fn obeys_from_spec() -> bool {
        true
    }

    open spec fn from_spec(v: Vec2) -> Self {
        Position(v)
    }
}

impl Default for Position {
    fn default() -> (r: Self)
        ensures
            r == Position(Vec2 { x: Fx { raw: 0 }, y: Fx { raw: 0 } }),
    {
        Position(Vec2::zero())
    }
}

/// A velocity in world units per second.
#[derive(Clone, Copy, Debug, PartialEq, Eq, Structural)]
pub struct Velocity(pub Vec2);

impl From<Vec2> for Velocity {
    fn from(velocity: Vec2) -> Self {
        Velocity(velocity)
    }
}

impl vstd::std_specs::convert::FromSpecImpl<Vec2> for Velocity {
    open spec fn obeys_from_spec() -> bool {
        true
    }

    open spec fn from_spec(v: Vec2) -> Self {
        Velocity(v)
    }
}

impl Default for Velocity {
    fn default() -> (r: Self)
        ensures
            r == Velocity(Vec2 { x: Fx { raw: 0 }, y: Fx { raw: 0 } }),
    {
        Velocity(Vec2::zero())
    }
}

/// Inputs, refreshed once per tick: the most recent pointer click in world
/// coordinates, if one arrived since the previous tick, and the current
/// screen extent, which the camera shapes its rectangle by.
#[derive(Clone, Copy, Debug, PartialEq, Eq, Structural)]
pub struct Inputs {
    pub mouse_click: Option<Vec2>,
    pub screen: Vec2,
}

impl Default for Inputs {
    fn default() -> (r: Self)
        ensures
            r == (Inputs {
                mouse_click: None::<Vec2>,
                screen: Vec2 { x: Fx { raw: 0 }, y: Fx { raw: 0 } },
            }),
    {
        Inputs { mouse_click: None, screen: Vec2::zero() }
    }
}

/// The clock, refreshed once per tick: elapsed time and the delta since the
/// previous tick, both in fixed-point seconds.
#[derive(Clone, Copy, Debug, PartialEq, Eq, Structural)]
pub struct GameClock {
    pub time: Fx,
    pub tick: Fx,
}

impl GameClock {
    pub open spec fn wf(self) -> bool {
        self.time.wf() && self.tick.wf()
    }
}

impl Default for GameClock {
    fn default() -> (r: Self)
        ensures
            r == (GameClock { time: Fx { raw: 0 }, tick: Fx { raw: 0 } }),
    {
        GameClock { time: Fx { raw: 0 }, tick: Fx { raw: 0 } }
    }
}

/// The identity of the singleton bee entity, published as a resource.
#[derive(Clone, Copy, Debug, PartialEq, Eq, Structural)]
pub struct TheBee {
    pub entity: EntityId,
}

/// An opaque 8-bit-per-channel color, handed to the presentation layer.
#[derive(Clone, Copy, Debug, PartialEq, Eq, Structural)]
pub struct Color {
    pub r: u8,
    pub g: u8,
    pub b: u8,
    pub a: u8,
}

impl Color {
    pub fn new(r: u8, g: u8, b: u8, a: u8) -> (c: Color)
        ensures
            c == (Color { r, g, b, a }),
    {
        Color { r, g, b, a }
    }
}

/// An axis-aligned rectangle: origin corner plus extent.
#[derive(Clone, Copy, Debug, PartialEq, Eq, Structural)]
pub struct Rect {
    pub x: Fx,
    pub y: Fx,
    pub w: Fx,
    pub h: Fx,
}

impl Rect {
    pub open spec fn wf(self) -> bool {
        self.x.wf() && self.y.wf() && self.w.wf() && self.h.wf()
    }

    pub open spec fn spec_left(self) -> Fx {
        self.x
    }

    pub open spec fn spec_top(self) -> Fx {
        self.y
    }

    pub open spec fn spec_right(self) -> Fx {
        fx_add(self.x, self.w)
    }

    pub open spec fn spec_bottom(self) -> Fx {
        fx_add(self.y, self.h)
    }

    pub fn new(x: Fx, y: Fx, w: Fx, h: Fx) -> (r: Rect)
        ensures
            r == (Rect { x, y, w, h }),
    {
        Rect { x, y, w, h }
    }

    pub fn left(&self) -> (r: Fx)
        ensures
            r == self.spec_left(),
    {
        self.x
    }

    pub fn top(&self) -> (r: Fx)
        ensures
            r == self.spec_top(),
    {
        self.y
    }

    pub fn right(&self) -> (r: Fx)
        requires
            self.wf(),
        ensures
            r == self.spec_right(),
    {
        self.x.add(self.w)
    }

    pub fn bottom(&self) -> (r: Fx)
        requires
            self.wf(),
        ensures
            r == self.spec_bottom(),
    {
        self.y.add(self.h)
    }
}

/// A quadrilateral of points.  Points appear clockwise when the quad comes out
/// of `from_rect` and stay clockwise under the scale/rotate/translate chain.
#[derive(Clone, Copy, Debug, PartialEq, Eq, Structural)]
pub struct Quad {
    pub p0: Vec2,
    pub p1: Vec2,
    pub p2: Vec2,
    pub p3: Vec2,
}

/// Rotation of `v` by the rotation taking the positive x axis to the unit
/// vector `u`: the matrix columns are `(u.x, u.y)` and `(-u.y, u.x)`.
pub open spec fn v_rotate(u: Vec2, v: Vec2) -> Vec2 {
    v2(
        crate::fx::fx_sub(crate::fx::fx_mul(u.x, v.x), crate::fx::fx_mul(u.y, v.y)),
        crate::fx::fx_add(crate::fx::fx_mul(u.y, v.x), crate::fx::fx_mul(u.x, v.y)),
    )
}

pub open spec fn q_from_rect(rect: Rect) -> Quad {
    Quad {
        p0: v2(rect.spec_left(), rect.spec_top()),
        p1: v2(rect.spec_right(), rect.spec_top()),
        p2: v2(rect.spec_right(), rect.spec_bottom()),
        p3: v2(rect.spec_left(), rect.spec_bottom()),
    }
}

pub open spec fn q_scale(q: Quad, s: Fx) -> Quad {
    Quad {
        p0: v_scale(q.p0, s),
        p1: v_scale(q.p1, s),
        p2: v_scale(q.p2, s),
        p3: v_scale(q.p3, s),
    }
}

pub open spec fn q_translate(q: Quad, offset: Vec2) -> Quad {
    Quad {
        p0: v_add(q.p0, offset),
        p1: v_add(q.p1, offset),
        p2: v_add(q.p2, offset),
        p3: v_add(q.p3, offset),
    }
}

pub open spec fn q_rotate_to(q: Quad, unit: Vec2) -> Quad {
    Quad {
        p0: v_rotate(unit, q.p0),
        p1: v_rotate(unit, q.p1),
        p2: v_rotate(unit, q.p2),
        p3: v_rotate(unit, q.p3),
    }
}

/// Smallest axis-aligned bounds of the four corners, as (min, max) corners.
pub open spec fn q_bb_min(q: Quad) -> Vec2 {
    v2(
        fx_min(fx_min(q.p0.x, q.p1.x), fx_min(q.p2.x, q.p3.x)),
        fx_min(fx_min(q.p0.y, q.p1.y), fx_min(q.p2.y, q.p3.y)),
    )
}

pub open spec fn q_bb_max(q: Quad) -> Vec2 {
    v2(
        fx_max(fx_max(q.p0.x, q.p1.x), fx_max(q.p2.x, q.p3.x)),
        fx_max(fx_max(q.p0.y, q.p1.y), fx_max(q.p2.y, q.p3.y)),
    )
}

impl Quad {
    pub open spec fn wf(self) -> bool {
        self.p0.wf() && self.p1.wf() && self.p2.wf() && self.p3.wf()
    }

    pub fn from_rect(rect: &Rect) -> (q: Quad)
        requires
            rect.wf(),
        ensures
            q == q_from_rect(*rect),
            q.wf(),
    {
        let l = rect.left();
        let t = rect.top();
        let r = rect.right();
        let b = rect.bottom();
        Quad {
            p0: Vec2 { x: l, y: t },
            p1: Vec2 { x: r, y: t },
            p2: Vec2 { x: r, y: b },
            p3: Vec2 { x: l, y: b },
        }
    }

    /// Uniform scale about the local origin.
    pub fn scale_to_origin(&self, scale: Fx) -> (q: Quad)
        requires
            self.wf(),
            scale.wf(),
        ensures
            q == q_scale(*self, scale),
            q.wf(),
    {
        Quad {
            p0: self.p0.scale(scale),
            p1: self.p1.scale(scale),
            p2: self.p2.scale(scale),
            p3: self.p3.scale(scale),
        }
    }

    /// Translation by `offset`.
    pub fn translate(&self, offset: Vec2) -> (q: Quad)
        requires
            self.wf(),
            offset.wf(),
        ensures
            q == q_translate(*self, offset),
            q.wf(),
    {
        Quad {
            p0: self.p0.add(offset),
            p1: self.p1.add(offset),
            p2: self.p2.add(offset),
            p3: self.p3.add(offset),
        }
    }

    /// Rotation about the local origin aligning the x axis with `unit`.
    pub fn rotate_to(&self, unit: Vec2) -> (q: Quad)
        requires
            self.wf(),
            unit.wf(),
        ensures
            q == q_rotate_to(*self, unit),
            q.wf(),
    {
        Quad {
            p0: rotate_point(unit, self.p0),
            p1: rotate_point(unit, self.p1),
            p2: rotate_point(unit, self.p2),
            p3: rotate_point(unit, self.p3),
        }
    }

    /// The four sides, each as a (from, to) pair, walking the corners in
    /// order.
    pub fn sides(&self) -> (r: [(Vec2, Vec2); 4])
        ensures
            r@ == seq![
                (self.p0, self.p1),
                (self.p1, self.p2),
                (self.p2, self.p3),
                (self.p3, self.p0),
            ],
    {
        let r = [
            (self.p0, self.p1),
            (self.p1, self.p2),
            (self.p2, self.p3),
            (self.p3, self.p0),
        ];
        proof {
            assert(r@ =~= seq![
                (self.p0, self.p1),
                (self.p1, self.p2),
                (self.p2, self.p3),
                (self.p3, self.p0),
            ]);
        }
        r
    }

    /// Axis-aligned bounds of the corners, as the (min, max) corner pair.
    pub fn bb(&self) -> (r: (Vec2, Vec2))
        ensures
            r.0 == q_bb_min(*self),
            r.1 == q_bb_max(*self),
    {
        let min = Vec2 {
            x: self.p0.x.min(self.p1.x).min(self.p2.x.min(self.p3.x)),
            y: self.p0.y.min(self.p1.y).min(self.p2.y.min(self.p3.y)),
        };
        let max = Vec2 {
            x: self.p0.x.max(self.p1.x).max(self.p2.x.max(self.p3.x)),
            y: self.p0.y.max(self.p1.y).max(self.p2.y.max(self.p3.y)),
        };
        (min, max)
    }
}

/// One corner through the rotation that `rotate_to` applies to all four.
fn rotate_point(u: Vec2, v: Vec2) -> (r: Vec2)
    requires
        u.wf(),
        v.wf(),
    ensures
        r == v_rotate(u, v),
        r.wf(),
{
    Vec2 {
        x: u.x.mul(v.x).sub(u.y.mul(v.y)),
        y: u.y.mul(v.x).add(u.x.mul(v.y)),
    }
}

} // verus!
