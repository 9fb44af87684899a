//! Fixed-point scalars.
//!
//! Every scalar quantity in the world (positions, velocities, radii, tuning
//! constants) is a fixed-point number: an `i64` raw value standing for
//! `raw / SCALE` world units.  All operations saturate into the band
//! `[-FX_MAX_RAW, FX_MAX_RAW]`, so every well-formed scalar stays small enough
//! that products of two raws fit an `i64` and products of four fit an `i128`.

use vstd::prelude::*;

verus! {

/// Number of raw steps per world unit.
pub const SCALE: i64 = 4096;

/// Largest admissible raw value: about 262144 world units either way.
pub const FX_MAX_RAW: i64 = 0x4000_0000;

/// A fixed-point scalar worth `raw / SCALE` world units.
#[derive(Clone, Copy, Debug, PartialEq, Eq, Structural)]
pub struct Fx {
    pub raw: i64,
}

impl Fx {
    /// Every scalar the library hands around stays inside the saturation band.
    pub open spec fn wf(self) -> bool {
        -FX_MAX_RAW <= self.raw <= FX_MAX_RAW
    }
}

/// Saturate an unbounded result into the representable band.
pub open spec fn clip(v: int) -> int {
    if v > FX_MAX_RAW as int {
        FX_MAX_RAW as int
    } else if v < -FX_MAX_RAW {
        -FX_MAX_RAW as int
    } else {
        v
    }
}

/// Division truncating toward zero, the rounding the executable code uses.
/// Callers keep `b` positive; a zero divisor yields zero so the function stays
/// total in specifications.
pub open spec fn divt(a: int, b: int) -> int
    recommends
        b > 0,
{
    if b == 0 {
        0
    } else if a >= 0 {
        a / b
    } else {
        -((-a) / b)
    }
}

/// Build a scalar out of a clipped raw value.
pub open spec fn fxs(v: int) -> Fx {
    Fx { raw: clip(v) as i64 }
}

pub open spec fn fx_add(a: Fx, b: Fx) -> Fx {
    fxs(a.raw + b.raw)
}

pub open spec fn fx_sub(a: Fx, b: Fx) -> Fx {
    fxs(a.raw - b.raw)
}

pub open spec fn fx_neg(a: Fx) -> Fx {
    fxs(-a.raw)
}

/// Fixed-point product: the mathematical product is `a*b / SCALE^2`, so the
/// raw of the result is the raw product scaled back down once.
pub open spec fn fx_mul(a: Fx, b: Fx) -> Fx {
    fxs(divt(a.raw * b.raw, SCALE as int))
}

/// Fixed-point quotient, truncating toward zero.
pub open spec fn fx_div(a: Fx, b: Fx) -> Fx
    recommends
        b.raw != 0,
{
    if b.raw >= 0 {
        fxs(divt(a.raw * SCALE, b.raw as int))
    } else {
        fxs(-divt(a.raw * SCALE, -b.raw as int))
    }
}

pub open spec fn fx_min(a: Fx, b: Fx) -> Fx {
    if a.raw <= b.raw {
        a
    } else {
        b
    }
}

pub open spec fn fx_max(a: Fx, b: Fx) -> Fx {
    if a.raw >= b.raw {
        a
    } else {
        b
    }
}

pub open spec fn fx_abs(a: Fx) -> Fx {
    if a.raw >= 0 {
        a
    } else {
        fx_neg(a)
    }
}

/// Clamp `a` into `[lo, hi]` (callers keep `lo <= hi`).
pub open spec fn fx_clamp(a: Fx, lo: Fx, hi: Fx) -> Fx
    recommends
        lo.raw <= hi.raw,
{
    fx_max(lo, fx_min(a, hi))
}

/// The scalar worth `v` whole world units.
pub open spec fn fx_from_units(v: int) -> Fx {
    fxs(v * SCALE)
}

/// Floor of the square root, defined by counting up; `sqrt_lemma` below gives
/// the usual bracketing characterization.
pub open spec fn sqrt_floor(n: nat) -> nat
    decreases n,
{
    if n == 0 {
        0
    } else {
        let s = sqrt_floor((n - 1) as nat);
        if (s + 1) * (s + 1) <= n {
            s + 1
        } else {
            s
        }
    }
}

pub proof fn sqrt_lemma(n: nat)
    ensures
        (sqrt_floor(n) as int) * (sqrt_floor(n) as int) <= n as int,
        (n as int) < (sqrt_floor(n) as int + 1) * (sqrt_floor(n) as int + 1),
    decreases n,
{
    if n == 0 {
        assert(sqrt_floor(0) == 0);
    } else {
        sqrt_lemma((n - 1) as nat);
        let s = sqrt_floor((n - 1) as nat) as int;
        if (s + 1) * (s + 1) <= n as int {
            assert(sqrt_floor(n) == s + 1);
            assert((n as int) < (s + 1 + 1) * (s + 1 + 1)) by (nonlinear_arith)
                requires
                    (n as int - 1) < (s + 1) * (s + 1),
                    s >= 0,
            ;
            assert(sqrt_floor(n) as int + 1 == s + 1 + 1);
        } else {
            assert(sqrt_floor(n) == s);
        }
    }
}

/// The bracketing pins the root down: any value meeting it is `sqrt_floor(n)`.
pub proof fn sqrt_unique(n: nat, r: nat)
    requires
        (r as int) * (r as int) <= n as int,
        (n as int) < (r as int + 1) * (r as int + 1),
    ensures
        r == sqrt_floor(n),
{
    sqrt_lemma(n);
    let s = sqrt_floor(n) as int;
    if (r as int) < s {
        assert((r as int + 1) * (r as int + 1) <= s * s) by (nonlinear_arith)
            requires
                r as int + 1 <= s,
                r >= 0,
        ;
    }
    if s < r as int {
        assert((s + 1) * (s + 1) <= (r as int) * (r as int)) by (nonlinear_arith)
            requires
                s + 1 <= r as int,
                s >= 0,
        ;
    }
}

impl Fx {
    /// The scalar worth `v` whole world units, saturated into the band.
    pub fn from_units(v: i64) -> (r: Fx)
        ensures
            r == fx_from_units(v as int),
            r.wf(),
    {
        if v > FX_MAX_RAW / SCALE {
            Fx { raw: FX_MAX_RAW }
        } else if v < -(FX_MAX_RAW / SCALE) {
            Fx { raw: -FX_MAX_RAW }
        } else {
            Fx { raw: v * SCALE }
        }
    }

    pub fn add(self, b: Fx) -> (r: Fx)
        requires
            self.wf(),
            b.wf(),
        ensures
            r == fx_add(self, b),
            r.wf(),
    {
        clip_exec(self.raw + b.raw)
    }

    pub fn sub(self, b: Fx) -> (r: Fx)
        requires
            self.wf(),
            b.wf(),
        ensures
            r == fx_sub(self, b),
            r.wf(),
    {
        clip_exec(self.raw - b.raw)
    }

    pub fn neg(self) -> (r: Fx)
        requires
            self.wf(),
        ensures
            r == fx_neg(self),
            r.wf(),
    {
        Fx { raw: -self.raw }
    }

    pub fn mul(self, b: Fx) -> (r: Fx)
        requires
            self.wf(),
            b.wf(),
        ensures
            r == fx_mul(self, b),
            r.wf(),
    {
        proof {
            mul_bound(self.raw as int, b.raw as int, FX_MAX_RAW as int);
        }
        let p: i64 = self.raw * b.raw;
        clip_exec(div_trunc(p, SCALE))
    }

    pub fn div(self, b: Fx) -> (r: Fx)
        requires
            self.wf(),
            b.wf(),
            b.raw != 0,
        ensures
            r == fx_div(self, b),
            r.wf(),
    {
        let p: i64 = self.raw * SCALE;
        if b.raw >= 0 {
            clip_exec(div_trunc(p, b.raw))
        } else {
            clip_exec(-div_trunc(p, -b.raw))
        }
    }

    pub fn min(self, b: Fx) -> (r: Fx)
        ensures
            r == fx_min(self, b),
    {
        if self.raw <= b.raw {
            self
        } else {
            b
        }
    }

    pub fn max(self, b: Fx) -> (r: Fx)
        ensures
            r == fx_max(self, b),
    {
        if self.raw >= b.raw {
            self
        } else {
            b
        }
    }

    pub fn abs(self) -> (r: Fx)
        requires
            self.wf(),
        ensures
            r == fx_abs(self),
            r.wf(),
    {
        if self.raw >= 0 {
            self
        } else {
            Fx { raw: -self.raw }
        }
    }

    pub fn clamp(self, lo: Fx, hi: Fx) -> (r: Fx)
        ensures
            r == fx_clamp(self, lo, hi),
    {
        lo.max(self.min(hi))
    }
}

/// Saturate an already-computed raw value into the band.
fn clip_exec(v: i64) -> (r: Fx)
    requires
        i64::MIN < v,
    ensures
        r == fxs(v as int),
        r.wf(),
{
    if v > FX_MAX_RAW {
        Fx { raw: FX_MAX_RAW }
    } else if v < -FX_MAX_RAW {
        Fx { raw: -FX_MAX_RAW }
    } else {
        Fx { raw: v }
    }
}

/// Division truncating toward zero, carried out on non-negative operands so
/// that the machine's rounding matches `divt`.
fn div_trunc(a: i64, b: i64) -> (r: i64)
    requires
        b > 0,
        i64::MIN < a,
    ensures
        r == divt(a as int, b as int),
        (a >= 0 ==> 0 <= r <= a) && (a < 0 ==> a <= r <= 0),
{
    if a >= 0 {
        a / b
    } else {
        -((-a) / b)
    }
}

/// |a|, |b| <= m implies the product stays within m*m.
pub proof fn mul_bound(a: int, b: int, m: int)
    requires
        -m <= a <= m,
        -m <= b <= m,
        m >= 0,
    ensures
        -(m * m) <= a * b <= m * m,
{
    assert(-(m * m) <= a * b <= m * m) by (nonlinear_arith)
        requires
            -m <= a <= m,
            -m <= b <= m,
            m >= 0,
    ;
}

/// Floor square root over `u64`, by binary search on the answer.
pub fn isqrt_u64(n: u64) -> (r: u64)
    ensures
        r == sqrt_floor(n as nat),
        r * r <= n,
{
    let mut lo: u64 = 0;
    let mut hi: u64 = 0x1_0000_0000;
    proof {
        assert((0x1_0000_0000int + 1) * (0x1_0000_0000int + 1) > u64::MAX) by (nonlinear_arith);
    }
    while lo < hi
        invariant
            lo <= hi <= 0x1_0000_0000,
            (lo as int) * (lo as int) <= n as int,
            (n as int) < ((hi as int) + 1) * ((hi as int) + 1),
        decreases hi - lo,
    {
        let mid: u64 = lo + (hi - lo + 1) / 2;
        proof {
            assert((mid as int) * (mid as int) <= u128::MAX) by (nonlinear_arith)
                requires
                    0 <= mid <= 0x1_0000_0000int,
            ;
        }
        let sq: u128 = (mid as u128) * (mid as u128);
        if sq <= n as u128 {
            lo = mid;
        } else {
            hi = mid - 1;
        }
    }
    proof {
        sqrt_unique(n as nat, lo as nat);
    }
    lo
}

} // verus!
