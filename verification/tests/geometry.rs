//! The quadrilateral transform chain and the exact narrow-phase predicate.

use bumble::bee::Bee;
use bumble::collision::{boxes_overlap_exec, quad_circle_intersects_exec};
use bumble::fx::{Fx, SCALE};
use bumble::prelude::{Quad, Rect};
use bumble::settings::Settings;
use bumble::vec2::Vec2;

fn unit_square_around_origin() -> Rect {
    Rect::new(
        Fx::from_units(-1),
        Fx::from_units(-1),
        Fx::from_units(2),
        Fx::from_units(2),
    )
}

/// Scaling then rotation then translation: with heading (1,0) (no rotation),
/// scale 1 and translation (10,10), the local square [-1,-1]..[1,1] lands
/// exactly on {(9,9),(11,9),(11,11),(9,11)}.
#[test]
fn transform_order_is_scale_rotate_translate() {
    let bee = Bee {
        destination: Vec2::zero(),
        thrust: Vec2::from_units(42, 0),  // heading (1, 0)
        score: 0,
    };
    let mut settings = Settings::default();
    settings.bee_size = Fx::from_units(1000);  // scale factor exactly 1
    let q = bee.transform_rect(Vec2::from_units(10, 10), &settings, &unit_square_around_origin());
    assert_eq!(q.p0, Vec2::from_units(9, 9));
    assert_eq!(q.p1, Vec2::from_units(11, 9));
    assert_eq!(q.p2, Vec2::from_units(11, 11));
    assert_eq!(q.p3, Vec2::from_units(9, 11));
}

/// A quarter-turn heading (0,1) maps the local corner (1,0) to (0,1).
#[test]
fn transform_rotates_about_local_origin() {
    let bee = Bee {
        destination: Vec2::zero(),
        thrust: Vec2::from_units(0, 9),  // heading (0, 1)
        score: 0,
    };
    let mut settings = Settings::default();
    settings.bee_size = Fx::from_units(1000);
    let q = bee.transform_rect(Vec2::zero(), &settings, &unit_square_around_origin());
    // local (-1,-1) -> rotated (1,-1)
    assert_eq!(q.p0, Vec2::from_units(1, -1));
    // local (1,-1) -> rotated (1,1)
    assert_eq!(q.p1, Vec2::from_units(1, 1));
    // local (1,1) -> rotated (-1,1)
    assert_eq!(q.p2, Vec2::from_units(-1, 1));
    // local (-1,1) -> rotated (-1,-1)
    assert_eq!(q.p3, Vec2::from_units(-1, -1));
}

/// Degenerate heading: zero thrust must not fail, and must behave exactly
/// like the default heading (no rotation).
#[test]
fn transform_zero_thrust_uses_default_heading() {
    let bee = Bee { destination: Vec2::zero(), thrust: Vec2::zero(), score: 0 };
    let mut settings = Settings::default();
    settings.bee_size = Fx::from_units(1000);
    let q = bee.transform_rect(Vec2::from_units(10, 10), &settings, &unit_square_around_origin());
    assert_eq!(q.p0, Vec2::from_units(9, 9));
    assert_eq!(q.p1, Vec2::from_units(11, 9));
    assert_eq!(q.p2, Vec2::from_units(11, 11));
    assert_eq!(q.p3, Vec2::from_units(9, 11));
}

#[test]
fn transform_scales_by_thousandths() {
    let bee = Bee { destination: Vec2::zero(), thrust: Vec2::from_units(1, 0), score: 0 };
    let mut settings = Settings::default();
    settings.bee_size = Fx::from_units(500);  // scale one half
    let q = bee.transform_rect(Vec2::zero(), &settings, &unit_square_around_origin());
    assert_eq!(q.p2.x.raw, SCALE / 2);
    assert_eq!(q.p2.y.raw, SCALE / 2);
}

#[test]
fn quad_corners_and_bounds() {
    let q = Quad::from_rect(&Rect::new(
        Fx::from_units(1),
        Fx::from_units(2),
        Fx::from_units(3),
        Fx::from_units(4),
    ));
    assert_eq!(q.p0, Vec2::from_units(1, 2));
    assert_eq!(q.p1, Vec2::from_units(4, 2));
    assert_eq!(q.p2, Vec2::from_units(4, 6));
    assert_eq!(q.p3, Vec2::from_units(1, 6));
    let (min, max) = q.bb();
    assert_eq!(min, Vec2::from_units(1, 2));
    assert_eq!(max, Vec2::from_units(4, 6));
    let sides = q.sides();
    assert_eq!(sides[0], (q.p0, q.p1));
    assert_eq!(sides[3], (q.p3, q.p0));
}

fn unit_quad_at(x: i64, y: i64) -> Quad {
    Quad::from_rect(&Rect::new(
        Fx::from_units(x - 1),
        Fx::from_units(y - 1),
        Fx::from_units(2),
        Fx::from_units(2),
    ))
}

#[test]
fn circle_meets_quad_center_inside() {
    let q = unit_quad_at(0, 0);
    assert!(quad_circle_intersects_exec(&q, Vec2::zero(), Fx::from_units(1)));
}

#[test]
fn circle_meets_quad_at_edge() {
    let q = unit_quad_at(0, 0);
    // circle centered 2 to the right with radius 1 exactly touches x = 1
    assert!(quad_circle_intersects_exec(&q, Vec2::from_units(2, 0), Fx::from_units(1)));
    // a hair farther (one raw step) no longer touches
    let just_past = Vec2 { x: Fx { raw: 2 * SCALE + 1 }, y: Fx { raw: 0 } };
    assert!(!quad_circle_intersects_exec(&q, just_past, Fx::from_units(1)));
}

#[test]
fn circle_misses_quad_diagonally() {
    let q = unit_quad_at(0, 0);
    // corner (1,1); center (2,2) is sqrt(2) > 1.4 away
    let r = Fx { raw: (1.4 * SCALE as f64) as i64 };
    assert!(!quad_circle_intersects_exec(&q, Vec2::from_units(2, 2), r));
    // radius 1.5 > sqrt(2) reaches the corner
    let r2 = Fx { raw: (1.5 * SCALE as f64) as i64 };
    assert!(quad_circle_intersects_exec(&q, Vec2::from_units(2, 2), r2));
}

#[test]
fn big_circle_swallows_quad() {
    let q = unit_quad_at(5, 5);
    assert!(quad_circle_intersects_exec(&q, Vec2::zero(), Fx::from_units(20)));
}

/// A quad collapsed to a single point has no interior: it meets a circle
/// exactly when the circle reaches that point, not whenever the boxes touch.
#[test]
fn degenerate_point_quad_is_not_the_whole_plane() {
    let p = Vec2::from_units(0, 0);
    let q = Quad { p0: p, p1: p, p2: p, p3: p };
    // center (3,3): within 4 on each axis, but sqrt(18) > 4 away
    assert!(!quad_circle_intersects_exec(&q, Vec2::from_units(3, 3), Fx::from_units(4)));
    // radius 5 > sqrt(18) does reach the point
    assert!(quad_circle_intersects_exec(&q, Vec2::from_units(3, 3), Fx::from_units(5)));
}

/// A quad collapsed to a segment is exactly its segment.
#[test]
fn degenerate_segment_quad_is_its_segment() {
    let a = Vec2::from_units(0, 0);
    let b = Vec2::from_units(10, 0);
    let q = Quad { p0: a, p1: b, p2: b, p3: a };
    // 3 above the segment, radius 2: misses
    assert!(!quad_circle_intersects_exec(&q, Vec2::from_units(5, 3), Fx::from_units(2)));
    // radius 3: touches
    assert!(quad_circle_intersects_exec(&q, Vec2::from_units(5, 3), Fx::from_units(3)));
}

#[test]
fn boxes_overlap_is_inclusive() {
    let a_min = Vec2::from_units(0, 0);
    let a_max = Vec2::from_units(2, 2);
    assert!(boxes_overlap_exec(a_min, a_max, Vec2::from_units(2, 2), Vec2::from_units(3, 3)));
    assert!(boxes_overlap_exec(a_min, a_max, Vec2::from_units(1, 1), Vec2::from_units(3, 3)));
    assert!(!boxes_overlap_exec(a_min, a_max, Vec2::from_units(3, 0), Vec2::from_units(4, 2)));
}
