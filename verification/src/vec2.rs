//! Fixed-point 2D vectors: the coordinate type of every position, velocity,
//! heading and extent in the world.

use vstd::prelude::*;

use crate::fx::{
    clip, fx_add, fx_clamp, fx_div, fx_mul, fx_neg, fx_sub, fxs, isqrt_u64, sqrt_floor, sqrt_lemma,
    Fx, FX_MAX_RAW, SCALE,
};

verus! {

#[derive(Clone, Copy, Debug, PartialEq, Eq, Structural)]
pub struct Vec2 {
    pub x: Fx,
    pub y: Fx,
}

impl Vec2 {
    pub open spec fn wf(self) -> bool {
        self.x.wf() && self.y.wf()
    }
}

pub open spec fn v2(x: Fx, y: Fx) -> Vec2 {
    Vec2 { x, y }
}

pub open spec fn v_add(a: Vec2, b: Vec2) -> Vec2 {
    v2(fx_add(a.x, b.x), fx_add(a.y, b.y))
}

pub open spec fn v_sub(a: Vec2, b: Vec2) -> Vec2 {
    v2(fx_sub(a.x, b.x), fx_sub(a.y, b.y))
}

pub open spec fn v_neg(a: Vec2) -> Vec2 {
    v2(fx_neg(a.x), fx_neg(a.y))
}

pub open spec fn v_scale(a: Vec2, s: Fx) -> Vec2 {
    v2(fx_mul(a.x, s), fx_mul(a.y, s))
}

/// Componentwise division by a scalar (callers keep the scalar nonzero).
pub open spec fn v_div_s(a: Vec2, s: Fx) -> Vec2
    recommends
        s.raw != 0,
{
    v2(fx_div(a.x, s), fx_div(a.y, s))
}

/// Componentwise clamp into the box `[lo, hi]`.
pub open spec fn v_clamp(a: Vec2, lo: Vec2, hi: Vec2) -> Vec2 {
    v2(fx_clamp(a.x, lo.x, hi.x), fx_clamp(a.y, lo.y, hi.y))
}

/// Squared length of a vector, measured on raw values (so scaled by SCALE^2).
pub open spec fn v_norm2_raw(a: Vec2) -> int {
    (a.x.raw as int) * (a.x.raw as int) + (a.y.raw as int) * (a.y.raw as int)
}

/// Euclidean length: the raw of the result is the floor square root of the
/// raw squared length, saturated into the band.
pub open spec fn v_length(a: Vec2) -> Fx {
    fxs(sqrt_floor(v_norm2_raw(a) as nat) as int)
}

/// A unit-length vector pointing along the positive x axis: the default
/// heading substituted when a direction is asked of the zero vector.
pub open spec fn v_east() -> Vec2 {
    v2(Fx { raw: SCALE }, Fx { raw: 0 })
}

/// Direction of `a`: each component divided by the length.  Asking for the
/// direction of the zero vector is the degenerate case; `v_east` stands in.
pub open spec fn v_normalize(a: Vec2) -> Vec2 {
    if a.x.raw == 0 && a.y.raw == 0 {
        v_east()
    } else {
        let len = v_length(a);
        v2(fx_div(a.x, len), fx_div(a.y, len))
    }
}

impl Vec2 {
    pub fn new(x: Fx, y: Fx) -> (r: Vec2)
        ensures
            r == v2(x, y),
    {
        Vec2 { x, y }
    }

    /// The vector worth `(x, y)` whole world units.
    pub fn from_units(x: i64, y: i64) -> (r: Vec2)
        ensures
            r == v2(crate::fx::fx_from_units(x as int), crate::fx::fx_from_units(y as int)),
            r.wf(),
    {
        Vec2 { x: Fx::from_units(x), y: Fx::from_units(y) }
    }

    pub fn zero() -> (r: Vec2)
        ensures
            r == v2(Fx { raw: 0 }, Fx { raw: 0 }),
            r.wf(),
    {
        Vec2 { x: Fx { raw: 0 }, y: Fx { raw: 0 } }
    }

    pub fn add(self, b: Vec2) -> (r: Vec2)
        requires
            self.wf(),
            b.wf(),
        ensures
            r == v_add(self, b),
            r.wf(),
    {
        Vec2 { x: self.x.add(b.x), y: self.y.add(b.y) }
    }

    pub fn sub(self, b: Vec2) -> (r: Vec2)
        requires
            self.wf(),
            b.wf(),
        ensures
            r == v_sub(self, b),
            r.wf(),
    {
        Vec2 { x: self.x.sub(b.x), y: self.y.sub(b.y) }
    }

    pub fn neg(self) -> (r: Vec2)
        requires
            self.wf(),
        ensures
            r == v_neg(self),
            r.wf(),
    {
        Vec2 { x: self.x.neg(), y: self.y.neg() }
    }

    pub fn scale(self, s: Fx) -> (r: Vec2)
        requires
            self.wf(),
            s.wf(),
        ensures
            r == v_scale(self, s),
            r.wf(),
    {
        Vec2 { x: self.x.mul(s), y: self.y.mul(s) }
    }

    pub fn div_s(self, s: Fx) -> (r: Vec2)
        requires
            self.wf(),
            s.wf(),
            s.raw != 0,
        ensures
            r == v_div_s(self, s),
            r.wf(),
    {
        Vec2 { x: self.x.div(s), y: self.y.div(s) }
    }

    pub fn clamp(self, lo: Vec2, hi: Vec2) -> (r: Vec2)
        ensures
            r == v_clamp(self, lo, hi),
    {
        Vec2 { x: self.x.clamp(lo.x, hi.x), y: self.y.clamp(lo.y, hi.y) }
    }

    pub fn length(self) -> (r: Fx)
        requires
            self.wf(),
        ensures
            r == v_length(self),
            r.wf(),
            r.raw >= 0,
    {
        proof {
            crate::fx::mul_bound(self.x.raw as int, self.x.raw as int, FX_MAX_RAW as int);
            crate::fx::mul_bound(self.y.raw as int, self.y.raw as int, FX_MAX_RAW as int);
        }
        let n2: i64 = self.x.raw * self.x.raw + self.y.raw * self.y.raw;
        proof {
            assert(self.x.raw * self.x.raw >= 0) by (nonlinear_arith);
            assert(self.y.raw * self.y.raw >= 0) by (nonlinear_arith);
        }
        let root: u64 = isqrt_u64(n2 as u64);
        proof {
            sqrt_lemma(n2 as nat);
            assert(sqrt_floor(n2 as nat) * sqrt_floor(n2 as nat) <= n2 as nat);
        }
        if root > FX_MAX_RAW as u64 {
            Fx { raw: FX_MAX_RAW }
        } else {
            Fx { raw: root as i64 }
        }
    }

    /// Direction of `self`, or the degenerate-geometry error on the zero
    /// vector, which has no direction.
    pub fn normalize(self) -> (r: Result<Vec2, crate::prelude::Error>)
        requires
            self.wf(),
        ensures
            r is Ok <==> !(self.x.raw == 0 && self.y.raw == 0),
            r is Ok ==> r->Ok_0 == v_normalize(self) && r->Ok_0.wf(),
            r is Err ==> r->Err_0 == crate::prelude::Error::DegenerateGeometry,
    {
        if self.x.raw == 0 && self.y.raw == 0 {
            Err(crate::prelude::Error::DegenerateGeometry)
        } else {
            Ok(self.normalize_or_east())
        }
    }

    /// Direction of `self`, with the degenerate zero vector recovered by the
    /// fixed default heading.
    pub fn normalize_or_east(self) -> (r: Vec2)
        requires
            self.wf(),
        ensures
            r == v_normalize(self),
            r.wf(),
    {
        if self.x.raw == 0 && self.y.raw == 0 {
            Vec2 { x: Fx { raw: SCALE }, y: Fx { raw: 0 } }
        } else {
            let len = self.length();
            proof {
                assert((self.x.raw as int) * (self.x.raw as int) >= 0) by (nonlinear_arith);
                assert((self.y.raw as int) * (self.y.raw as int) >= 0) by (nonlinear_arith);
                if self.x.raw != 0 {
                    assert((self.x.raw as int) * (self.x.raw as int) >= 1) by (nonlinear_arith)
                        requires
                            self.x.raw != 0,
                    ;
                } else {
                    assert((self.y.raw as int) * (self.y.raw as int) >= 1) by (nonlinear_arith)
                        requires
                            self.y.raw != 0,
                    ;
                }
                assert(v_norm2_raw(self) >= 1);
                sqrt_lemma(v_norm2_raw(self) as nat);
                let s = sqrt_floor(v_norm2_raw(self) as nat) as int;
                assert(v_norm2_raw(self) < (s + 1) * (s + 1));
                assert(s >= 1) by (nonlinear_arith)
                    requires
                        v_norm2_raw(self) >= 1,
                        v_norm2_raw(self) < (s + 1) * (s + 1),
                        s >= 0,
                ;
                assert(len.raw == clip(s));
                assert(len.raw >= 1);
            }
            Vec2 { x: self.x.div(len), y: self.y.div(len) }
        }
    }
}

} // verus!
