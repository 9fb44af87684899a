//! The entity store's last-write-wins lookups and the broad-phase index
//! measured against a brute-force scan.

use bumble::bee::Bee;
use bumble::fx::Fx;
use bumble::meadow::{rand_flower_color, rand_pos, Flower, Meadow};
use bumble::prelude::{Color, Position, Rect, Velocity};
use bumble::store::World;
use bumble::vec2::Vec2;

#[test]
fn store_get_returns_last_write() {
    let mut w = World::new();
    let e0 = w.create(Some(Position(Vec2::from_units(1, 1))), None, None, None);
    let e1 = w.create(
        Some(Position(Vec2::from_units(2, 2))),
        Some(Velocity(Vec2::zero())),
        None,
        None,
    );
    assert_eq!(w.get_position(e0), Some(Position(Vec2::from_units(1, 1))));
    assert_eq!(w.get_position(e1), Some(Position(Vec2::from_units(2, 2))));
    // overwrite e0 twice: the last value wins, never a stale or default one
    w.set_position(e0, Position(Vec2::from_units(5, 5)));
    w.set_position(e0, Position(Vec2::from_units(9, 9)));
    assert_eq!(w.get_position(e0), Some(Position(Vec2::from_units(9, 9))));
    // a write to one entity leaves the other untouched
    assert_eq!(w.get_position(e1), Some(Position(Vec2::from_units(2, 2))));
    // and a write to one component kind leaves the others untouched
    assert_eq!(w.get_velocity(e0), None);
    assert_eq!(w.get_velocity(e1), Some(Velocity(Vec2::zero())));
    assert_eq!(w.get_bee(e0), None);
}

#[test]
fn store_missing_component_reads_none() {
    let mut w = World::new();
    let e = w.create(None, None, None, None);
    assert_eq!(w.get_position(e), None);
    assert_eq!(w.get_flower(e), None);
    w.set_bee(e, Bee { destination: Vec2::zero(), thrust: Vec2::zero(), score: 3 });
    assert_eq!(w.get_bee(e).unwrap().score, 3);
}

#[test]
fn store_query_flowers_lists_pairs_in_order() {
    let mut w = World::new();
    let white = Color::new(255, 255, 255, 255);
    let f0 = w.create(
        Some(Position(Vec2::from_units(1, 0))),
        None,
        None,
        Some(Flower { color: white, radius: Fx::from_units(2), collected: false }),
    );
    let _bare = w.create(Some(Position(Vec2::from_units(7, 7))), None, None, None);
    let f1 = w.create(
        Some(Position(Vec2::from_units(3, 0))),
        None,
        None,
        Some(Flower { color: white, radius: Fx::from_units(4), collected: true }),
    );
    let q = w.query_flowers();
    assert_eq!(q.len(), 2);
    assert_eq!(q[0].0, f0);
    assert_eq!(q[0].2, Position(Vec2::from_units(1, 0)));
    assert_eq!(q[1].0, f1);
    assert!(q[1].1.collected);
}

struct TestRng(u64);

impl TestRng {
    fn next(&mut self) -> u64 {
        self.0 = self.0.wrapping_mul(6364136223846793005).wrapping_add(1442695040888963407);
        self.0 >> 16
    }

    fn units(&mut self, lo: i64, hi: i64) -> i64 {
        lo + (self.next() % ((hi - lo + 1) as u64)) as i64
    }
}

/// Randomized rectangle queries against a brute-force scan: the index must
/// include every truly overlapping flower (no false negatives), and —
/// because this index is exact — nothing else.
#[test]
fn broad_phase_matches_brute_force() {
    let mut rng = TestRng(0x5eed_5eed_5eed_5eed);
    let mut field: Vec<(Vec2, Fx, Color)> = Vec::new();
    for _ in 0..120 {
        let pos = Vec2::from_units(rng.units(0, 1000), rng.units(0, 1000));
        let radius = Fx::from_units(rng.units(1, 45));
        field.push((pos, radius, Color::new(250, 200, 0, 255)));
    }
    let mut world = World::new();
    let meadow = Meadow::from_field(&mut world, Vec2::from_units(1000, 1000), &field);
    for _ in 0..60 {
        let x0 = rng.units(-50, 1050);
        let y0 = rng.units(-50, 1050);
        let w = rng.units(0, 300);
        let h = rng.units(0, 300);
        let rect = Rect::new(
            Fx::from_units(x0),
            Fx::from_units(y0),
            Fx::from_units(w),
            Fx::from_units(h),
        );
        let mut got = meadow.flower_index_within(&rect);
        got.sort();
        let mut want: Vec<usize> = Vec::new();
        for (k, (pos, radius, _)) in field.iter().enumerate() {
            let min_x = pos.x.raw - radius.raw;
            let min_y = pos.y.raw - radius.raw;
            let max_x = pos.x.raw + radius.raw;
            let max_y = pos.y.raw + radius.raw;
            let qx0 = x0 * 4096;
            let qy0 = y0 * 4096;
            let qx1 = (x0 + w) * 4096;
            let qy1 = (y0 + h) * 4096;
            if !(max_x < qx0 || max_y < qy0 || min_x > qx1 || min_y > qy1) {
                want.push(k);
            }
        }
        assert_eq!(got, want);
    }
}

#[test]
fn broad_phase_empty_field() {
    let mut world = World::new();
    let field: Vec<(Vec2, Fx, Color)> = Vec::new();
    let meadow = Meadow::from_field(&mut world, Vec2::from_units(100, 100), &field);
    let rect = Rect::new(Fx::from_units(0), Fx::from_units(0), Fx::from_units(100), Fx::from_units(100));
    assert!(meadow.flower_index_within(&rect).is_empty());
    assert_eq!(meadow.flower_entities.len(), 0);
}

#[test]
fn meadow_from_field_attaches_flowers() {
    let mut world = World::new();
    let field = vec![
        (Vec2::from_units(10, 10), Fx::from_units(3), Color::new(1, 2, 3, 255)),
        (Vec2::from_units(20, 20), Fx::from_units(4), Color::new(4, 5, 6, 255)),
    ];
    let meadow = Meadow::from_field(&mut world, Vec2::from_units(50, 50), &field);
    assert_eq!(meadow.flower_entities.len(), 2);
    let e0 = meadow.flower_entities[0];
    let f0 = world.get_flower(e0).unwrap();
    assert_eq!(f0.radius, Fx::from_units(3));
    assert!(!f0.collected);
    assert_eq!(world.get_position(e0), Some(Position(Vec2::from_units(10, 10))));
    assert_eq!(world.get_velocity(e0), None);
}

#[test]
fn meadow_clamp_stays_in_field() {
    let mut world = World::new();
    let field: Vec<(Vec2, Fx, Color)> = Vec::new();
    let meadow = Meadow::from_field(&mut world, Vec2::from_units(100, 80), &field);
    assert_eq!(meadow.clamp(Vec2::from_units(150, -20)), Vec2::from_units(100, 0));
    assert_eq!(meadow.clamp(Vec2::from_units(30, 40)), Vec2::from_units(30, 40));
}

#[test]
fn random_positions_inside_field() {
    for _ in 0..100 {
        let size = Vec2::from_units(200, 300);
        let p = rand_pos(&size);
        assert!(0 <= p.x.raw && p.x.raw <= size.x.raw);
        assert!(0 <= p.y.raw && p.y.raw <= size.y.raw);
    }
}

#[test]
fn random_positions_vary() {
    let size = Vec2::from_units(1000000, 1000000);
    let first = rand_pos(&size);
    let mut saw_different = false;
    for _ in 0..100 {
        if rand_pos(&size) != first {
            saw_different = true;
        }
    }
    assert!(saw_different, "the generator never left its first value");
}

#[test]
fn random_flower_colors_keep_palette_shape() {
    for _ in 0..100 {
        let c = rand_flower_color();
        assert_eq!(c.a, 255);
        assert!(c.r == 255 || c.b == 255);
        assert!(c.g <= c.r && c.g <= c.b);
    }
}
