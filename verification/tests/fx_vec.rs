//! Fixed-point scalars and vectors: exact arithmetic, saturation, square
//! roots, and the degenerate-heading recovery.

use bumble::fx::{isqrt_u64, Fx, FX_MAX_RAW, SCALE};
use bumble::prelude::Error;
use bumble::vec2::Vec2;

#[test]
fn fx_from_units_is_scaled() {
    assert_eq!(Fx::from_units(1).raw, SCALE);
    assert_eq!(Fx::from_units(100).raw, 100 * SCALE);
    assert_eq!(Fx::from_units(-3).raw, -3 * SCALE);
    assert_eq!(Fx::from_units(0).raw, 0);
}

#[test]
fn fx_add_sub_exact() {
    let a = Fx::from_units(7);
    let b = Fx::from_units(5);
    assert_eq!(a.add(b).raw, 12 * SCALE);
    assert_eq!(a.sub(b).raw, 2 * SCALE);
    assert_eq!(b.sub(a).raw, -2 * SCALE);
    assert_eq!(a.neg().raw, -7 * SCALE);
}

#[test]
fn fx_mul_div_exact() {
    let a = Fx::from_units(3);
    let b = Fx::from_units(4);
    assert_eq!(a.mul(b).raw, 12 * SCALE);
    assert_eq!(Fx::from_units(12).div(b).raw, 3 * SCALE);
    // 1/3 truncates toward zero
    assert_eq!(Fx::from_units(1).div(Fx::from_units(3)).raw, SCALE / 3);
    // negative division also truncates toward zero
    assert_eq!(Fx::from_units(-1).div(Fx::from_units(3)).raw, -(SCALE / 3));
}

#[test]
fn fx_saturates_at_band_edge() {
    let big = Fx::from_units(1 << 40);
    assert_eq!(big.raw, FX_MAX_RAW);
    let small = Fx::from_units(-(1 << 40));
    assert_eq!(small.raw, -FX_MAX_RAW);
    // adding at the edge stays at the edge
    assert_eq!(big.add(Fx::from_units(1000)).raw, FX_MAX_RAW);
}

#[test]
fn fx_min_max_clamp() {
    let a = Fx::from_units(2);
    let b = Fx::from_units(9);
    assert_eq!(a.min(b), a);
    assert_eq!(a.max(b), b);
    assert_eq!(Fx::from_units(50).clamp(a, b), b);
    assert_eq!(Fx::from_units(-50).clamp(a, b), a);
    assert_eq!(Fx::from_units(5).clamp(a, b), Fx::from_units(5));
}

#[test]
fn isqrt_edges() {
    assert_eq!(isqrt_u64(0), 0);
    assert_eq!(isqrt_u64(1), 1);
    assert_eq!(isqrt_u64(2), 1);
    assert_eq!(isqrt_u64(3), 1);
    assert_eq!(isqrt_u64(4), 2);
    assert_eq!(isqrt_u64(15), 3);
    assert_eq!(isqrt_u64(16), 4);
    assert_eq!(isqrt_u64(u64::MAX), 4294967295);
}

#[test]
fn vec_length_three_four_five() {
    let v = Vec2::from_units(3, 4);
    assert_eq!(v.length().raw, 5 * SCALE);
}

#[test]
fn vec_add_scale() {
    let v = Vec2::from_units(1, 2).add(Vec2::from_units(3, 4));
    assert_eq!(v, Vec2::from_units(4, 6));
    let w = Vec2::from_units(2, -3).scale(Fx::from_units(5));
    assert_eq!(w, Vec2::from_units(10, -15));
}

#[test]
fn normalize_unit_axis() {
    let v = Vec2::from_units(5, 0);
    let u = v.normalize_or_east();
    assert_eq!(u.x.raw, SCALE);
    assert_eq!(u.y.raw, 0);
    let w = Vec2::from_units(0, -7).normalize_or_east();
    assert_eq!(w.x.raw, 0);
    assert_eq!(w.y.raw, -SCALE);
}

#[test]
fn normalize_zero_vector_is_degenerate() {
    // the strict form reports the degenerate geometry
    let r = Vec2::zero().normalize();
    assert_eq!(r, Err(Error::DegenerateGeometry));
    // the recovering form falls back to the default heading
    let u = Vec2::zero().normalize_or_east();
    assert_eq!(u.x.raw, SCALE);
    assert_eq!(u.y.raw, 0);
}

#[test]
fn clamp_into_box() {
    let lo = Vec2::from_units(0, 0);
    let hi = Vec2::from_units(10, 10);
    assert_eq!(Vec2::from_units(-5, 4).clamp(lo, hi), Vec2::from_units(0, 4));
    assert_eq!(Vec2::from_units(25, -1).clamp(lo, hi), Vec2::from_units(10, 0));
    assert_eq!(Vec2::from_units(3, 7).clamp(lo, hi), Vec2::from_units(3, 7));
}
