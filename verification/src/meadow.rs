//! The meadow: the play field, its flowers, and the broad-phase index over
//! their bounding boxes.  The field is populated once, in bulk; flowers never
//! move and are never removed, so the index is built once and then only
//! queried.

use vstd::prelude::*;

use crate::backstage::{DrawCmd, Step};
use crate::camera::Camera;
use crate::fx::{fx_div, fx_from_units, fx_mul, Fx};
use crate::index::{
    box_in_band, builder_boxes, builder_capacity, index_boxes, index_build, index_builder_add,
    index_builder_new, index_query, spec_box_overlaps, FlowerIndex,
};
use crate::prelude::{Color, EntityId, GameClock, Position, Rect};
use crate::rng::gen_range_i64;
use crate::settings::Settings;
use crate::store::{World, WorldView};
use crate::vec2::{v2, v_add, v_clamp, v_scale, Vec2};

verus! {

/// A flower: visual radius, color, and the once-only collected flag.
#[derive(Clone, Copy, Debug, PartialEq, Eq, Structural)]
pub struct Flower {
    pub color: Color,
    pub radius: Fx,
    pub collected: bool,
}

impl Flower {
    pub open spec fn wf(self) -> bool {
        self.radius.wf()
    }
}

/// The axis-aligned bounds of a flower's circular footprint, on raw
/// coordinates: center plus and minus the radius on each axis.
pub open spec fn flower_box(pos: Vec2, radius: Fx) -> (i64, i64, i64, i64) {
    (
        (pos.x.raw - radius.raw) as i64,
        (pos.y.raw - radius.raw) as i64,
        (pos.x.raw + radius.raw) as i64,
        (pos.y.raw + radius.raw) as i64,
    )
}

/// The meadow resource: field extent, the broad-phase index, and the entity
/// identity behind each indexed box.
pub struct Meadow {
    pub size: Vec2,
    pub flower_index: FlowerIndex,
    pub flower_entities: Vec<EntityId>,
}

impl Meadow {
    /// The standing coupling between the meadow and the store: every indexed
    /// box belongs to a live flower entity, is exactly that flower's current
    /// bounds, and flowers carry no velocity (so they never move).
    pub open spec fn wf(self, w: WorldView) -> bool {
        &&& self.size.wf()
        &&& self.size.x.raw >= 0
        &&& self.size.y.raw >= 0
        &&& self.flower_entities@.len() == index_boxes(self.flower_index).len()
        &&& self.flower_entities@.no_duplicates()
        &&& forall|k: int|
            0 <= k < self.flower_entities@.len() ==> {
                let e = (#[trigger] self.flower_entities@[k]) as int;
                &&& e < w.len()
                &&& w.flowers[e] is Some
                &&& w.positions[e] is Some
                &&& w.velocities[e] is None
                &&& w.flowers[e]->Some_0.wf()
                &&& w.flowers[e]->Some_0.radius.raw > 0
                &&& w.positions[e]->Some_0.0.wf()
                &&& index_boxes(self.flower_index)[k] == flower_box(
                    w.positions[e]->Some_0.0,
                    w.flowers[e]->Some_0.radius,
                )
            }
    }

    /// Populate the world with the given field of flowers — one entity with
    /// a flower and a position each, nothing collected yet — and build the
    /// broad-phase index over their bounds, in the same order.
    pub fn from_field(
        world: &mut World,
        size: Vec2,
        field: &Vec<(Vec2, Fx, Color)>,
    ) -> (m: Meadow)
        requires
            old(world).wf(),
            size.wf(),
            size.x.raw >= 0,
            size.y.raw >= 0,
            old(world)@.len() + field@.len() <= usize::MAX,
            forall|i: int|
                0 <= i < field@.len() ==> {
                    &&& (#[trigger] field@[i]).0.wf()
                    &&& field@[i].1.wf()
                    &&& field@[i].1.raw > 0
                },
        ensures
            final(world).wf(),
            final(world)@.len() == old(world)@.len() + field@.len(),
            forall|j: int|
                0 <= j < old(world)@.len() ==> {
                    &&& final(world)@.positions[j] == old(world)@.positions[j]
                    &&& final(world)@.velocities[j] == old(world)@.velocities[j]
                    &&& final(world)@.bees[j] == old(world)@.bees[j]
                    &&& final(world)@.flowers[j] == old(world)@.flowers[j]
                },
            forall|i: int|
                0 <= i < field@.len() ==> {
                    let e = old(world)@.len() + i;
                    &&& final(world)@.positions[e] == Some(Position((#[trigger] field@[i]).0))
                    &&& final(world)@.velocities[e] is None
                    &&& final(world)@.bees[e] is None
                    &&& final(world)@.flowers[e] == Some(
                        Flower { color: field@[i].2, radius: field@[i].1, collected: false },
                    )
                },
            m.size == size,
            m.flower_entities@.len() == field@.len(),
            forall|i: int|
                0 <= i < field@.len() ==> (#[trigger] m.flower_entities@[i]) == old(world)@.len()
                    + i,
            index_boxes(m.flower_index).len() == field@.len(),
            forall|i: int|
                0 <= i < field@.len() ==> index_boxes(m.flower_index)[i] == flower_box(
                    (#[trigger] field@[i]).0,
                    field@[i].1,
                ),
            m.wf(final(world)@),
    {
        let ghost old_len = old(world)@.len() as int;
        let n = field.len();
        let mut builder = index_builder_new(n);
        let mut entities: Vec<EntityId> = Vec::new();
        let mut i: usize = 0;
        while i < n
            invariant
                n == field@.len(),
                i <= n,
                old(world).wf(),
                world.wf(),
                world@.len() == old_len + i,
                old_len == old(world)@.len(),
                old_len + n <= usize::MAX,
                forall|i0: int|
                    0 <= i0 < field@.len() ==> {
                        &&& (#[trigger] field@[i0]).0.wf()
                        &&& field@[i0].1.wf()
                        &&& field@[i0].1.raw > 0
                    },
                forall|j: int|
                    0 <= j < old_len ==> {
                        &&& world@.positions[j] == old(world)@.positions[j]
                        &&& world@.velocities[j] == old(world)@.velocities[j]
                        &&& world@.bees[j] == old(world)@.bees[j]
                        &&& world@.flowers[j] == old(world)@.flowers[j]
                    },
                forall|i0: int|
                    0 <= i0 < i ==> {
                        let e = old_len + i0;
                        &&& world@.positions[e] == Some(Position((#[trigger] field@[i0]).0))
                        &&& world@.velocities[e] is None
                        &&& world@.bees[e] is None
                        &&& world@.flowers[e] == Some(
                            Flower { color: field@[i0].2, radius: field@[i0].1, collected: false },
                        )
                    },
                entities@.len() == i,
                forall|i0: int| 0 <= i0 < i ==> (#[trigger] entities@[i0]) == old_len + i0,
                builder_capacity(builder) == n,
                builder_boxes(builder).len() == i,
                forall|i0: int|
                    0 <= i0 < i ==> builder_boxes(builder)[i0] == flower_box(
                        (#[trigger] field@[i0]).0,
                        field@[i0].1,
                    ),
            decreases n - i,
        {
            let (pos, radius, color) = field[i];
            let e = world.create(
                Some(Position(pos)),
                None,
                None,
                Some(Flower { color, radius, collected: false }),
            );
            entities.push(e);
            index_builder_add(
                &mut builder,
                pos.x.raw - radius.raw,
                pos.y.raw - radius.raw,
                pos.x.raw + radius.raw,
                pos.y.raw + radius.raw,
            );
            i = i + 1;
        }
        proof {
            assert forall|k: int|
                0 <= k < builder_boxes(builder).len() implies box_in_band(
                #[trigger] builder_boxes(builder)[k]) by {
                let fl = field@[k];
                assert(builder_boxes(builder)[k] == flower_box(fl.0, fl.1));
            }
        }
        let flower_index = match index_build(builder) {
            Ok(idx) => idx,
            Err(_) => vstd::pervasive::unreached(),
        };
        let m = Meadow { size, flower_index, flower_entities: entities };
        proof {
            assert forall|a: int, b: int|
                0 <= a < m.flower_entities@.len() && 0 <= b < m.flower_entities@.len() && a != b
                    implies m.flower_entities@[a] != m.flower_entities@[b] by {
                assert(m.flower_entities@[a] == old_len + a);
                assert(m.flower_entities@[b] == old_len + b);
            }
            assert forall|k: int| 0 <= k < m.flower_entities@.len() implies {
                let e = (#[trigger] m.flower_entities@[k]) as int;
                &&& e < world@.len()
                &&& world@.flowers[e] is Some
                &&& world@.positions[e] is Some
                &&& world@.velocities[e] is None
                &&& world@.flowers[e]->Some_0.wf()
                &&& world@.flowers[e]->Some_0.radius.raw > 0
                &&& world@.positions[e]->Some_0.0.wf()
                &&& index_boxes(m.flower_index)[k] == flower_box(
                    world@.positions[e]->Some_0.0,
                    world@.flowers[e]->Some_0.radius,
                )
            } by {
                assert(m.flower_entities@[k] == old_len + k);
                let fl = field@[k];
                assert(world@.positions[old_len + k] == Some(Position(fl.0)));
                assert(world@.flowers[old_len + k] == Some(
                    Flower { color: fl.2, radius: fl.1, collected: false },
                ));
                assert(index_boxes(m.flower_index)[k] == flower_box(fl.0, fl.1));
            }
            assert(m.wf(world@));
        }
        m
    }

    /// Populate a fresh random field, as the configuration asks: the field
    /// extent is a hundredfold of the configured numbers, the flower count a
    /// tenfold, and every flower draws its position inside the field, its
    /// radius inside the configured range, and its color from the flower
    /// palette.
    pub fn new(world: &mut World, settings: &Settings) -> (m: Meadow)
        requires
            old(world).wf(),
            settings.wf(),
            old(world)@.len() + settings.num_flowers * 10 <= usize::MAX,
        ensures
            final(world).wf(),
            final(world)@.len() == old(world)@.len() + settings.num_flowers * 10,
            forall|j: int|
                0 <= j < old(world)@.len() ==> {
                    &&& final(world)@.positions[j] == old(world)@.positions[j]
                    &&& final(world)@.velocities[j] == old(world)@.velocities[j]
                    &&& final(world)@.bees[j] == old(world)@.bees[j]
                    &&& final(world)@.flowers[j] == old(world)@.flowers[j]
                },
            m.wf(final(world)@),
            forall|i: int|
                0 <= i < settings.num_flowers * 10 ==> (#[trigger] final(world)@.bees[old(
                    world,
                )@.len() + i]) is None,
            m.size == v2(
                fx_mul(settings.meadow_height, fx_from_units(100)),
                fx_mul(settings.meadow_width, fx_from_units(100)),
            ),
            m.flower_entities@.len() == settings.num_flowers * 10,
            forall|i: int|
                0 <= i < m.flower_entities@.len() ==> (#[trigger] m.flower_entities@[i])
                    == old(world)@.len() + i,
            forall|i: int|
                0 <= i < m.flower_entities@.len() ==> {
                    let e = (#[trigger] m.flower_entities@[i]) as int;
                    let f = final(world)@.flowers[e]->Some_0;
                    let p = final(world)@.positions[e]->Some_0.0;
                    &&& settings.flower_size_min.raw <= f.radius.raw
                        <= settings.flower_size_max.raw
                    &&& !f.collected
                    &&& 0 <= p.x.raw <= m.size.x.raw
                    &&& 0 <= p.y.raw <= m.size.y.raw
                },
    {
        let meadow_size = Vec2 {
            x: settings.meadow_height.mul(Fx::from_units(100)),
            y: settings.meadow_width.mul(Fx::from_units(100)),
        };
        let num_flowers = settings.num_flowers * 10;
        let mut field: Vec<(Vec2, Fx, Color)> = Vec::new();
        let mut i: usize = 0;
        while i < num_flowers
            invariant
                settings.wf(),
                meadow_size == v2(
                    fx_mul(settings.meadow_height, fx_from_units(100)),
                    fx_mul(settings.meadow_width, fx_from_units(100)),
                ),
                meadow_size.wf(),
                meadow_size.x.raw >= 0,
                meadow_size.y.raw >= 0,
                i <= num_flowers,
                field@.len() == i,
                forall|i0: int|
                    0 <= i0 < i ==> {
                        let fl = #[trigger] field@[i0];
                        &&& fl.0.wf()
                        &&& fl.1.wf()
                        &&& fl.1.raw > 0
                        &&& settings.flower_size_min.raw <= fl.1.raw
                            <= settings.flower_size_max.raw
                        &&& 0 <= fl.0.x.raw <= meadow_size.x.raw
                        &&& 0 <= fl.0.y.raw <= meadow_size.y.raw
                    },
            decreases num_flowers - i,
        {
            let pos = rand_pos(&meadow_size);
            let color = rand_flower_color();
            let radius = Fx {
                raw: gen_range_i64(settings.flower_size_min.raw, settings.flower_size_max.raw),
            };
            field.push((pos, radius, color));
            i = i + 1;
        }
        let m = Meadow::from_field(world, meadow_size, &field);
        proof {
            assert forall|i0: int| 0 <= i0 < m.flower_entities@.len() implies {
                let e = (#[trigger] m.flower_entities@[i0]) as int;
                let f = world@.flowers[e]->Some_0;
                let p = world@.positions[e]->Some_0.0;
                &&& settings.flower_size_min.raw <= f.radius.raw <= settings.flower_size_max.raw
                &&& !f.collected
                &&& 0 <= p.x.raw <= m.size.x.raw
                &&& 0 <= p.y.raw <= m.size.y.raw
            } by {
                assert(m.flower_entities@[i0] == old(world)@.len() + i0);
                let fl = field@[i0];
                assert(world@.flowers[old(world)@.len() + i0] == Some(
                    Flower { color: fl.2, radius: fl.1, collected: false },
                ));
                assert(world@.positions[old(world)@.len() + i0] == Some(Position(fl.0)));
            }
            assert forall|i0: int| 0 <= i0 < settings.num_flowers * 10 implies (
            #[trigger] world@.bees[old(world)@.len() + i0]) is None by {
                let fl = field@[i0];
                assert(fl == field@[i0]);
            }
        }
        m
    }


    /// Clamp a point into the play field.
    pub fn clamp(&self, point: Vec2) -> (r: Vec2)
        ensures
            r == v_clamp(
                point,
                v2(Fx { raw: 0 }, Fx { raw: 0 }),
                v2(self.size.x, self.size.y),
            ),
    {
        point.clamp(Vec2::zero(), Vec2 { x: self.size.x, y: self.size.y })
    }

    /// A uniformly random point of the play field.
    pub fn rand_pos(&self) -> (r: Vec2)
        requires
            self.size.wf(),
            self.size.x.raw >= 0,
            self.size.y.raw >= 0,
        ensures
            r.wf(),
            0 <= r.x.raw <= self.size.x.raw,
            0 <= r.y.raw <= self.size.y.raw,
    {
        rand_pos(&self.size)
    }

    /// Broad phase over explicit corner points: the add positions of every
    /// indexed flower whose bounds overlap the box `[min, max]` — a superset
    /// of the truly overlapping flowers, never omitting one (and, this index
    /// being exact, nothing else), each position reported once.
    pub fn flower_index_within_bounds(&self, min: Vec2, max: Vec2) -> (r: Vec<usize>)
        ensures
            forall|k: int|
                0 <= k < r@.len() ==> (#[trigger] r@[k]) < index_boxes(self.flower_index).len(),
            forall|k: int|
                0 <= k < r@.len() ==> spec_box_overlaps(
                    index_boxes(self.flower_index)[(#[trigger] r@[k]) as int],
                    min.x.raw,
                    min.y.raw,
                    max.x.raw,
                    max.y.raw,
                ),
            forall|j: int|
                0 <= j < index_boxes(self.flower_index).len() && spec_box_overlaps(
                    #[trigger] index_boxes(self.flower_index)[j],
                    min.x.raw,
                    min.y.raw,
                    max.x.raw,
                    max.y.raw,
                ) ==> r@.contains(j as usize),
            r@.no_duplicates(),
    {
        index_query(&self.flower_index, min.x.raw, min.y.raw, max.x.raw, max.y.raw)
    }

    /// Broad phase: the add positions of every indexed flower whose bounds
    /// overlap the given rectangle — a superset of the truly overlapping
    /// flowers, never omitting one (and, this index being exact, nothing
    /// else), each position reported once.
    pub fn flower_index_within(&self, rect: &Rect) -> (r: Vec<usize>)
        requires
            rect.wf(),
        ensures
            forall|k: int|
                0 <= k < r@.len() ==> (#[trigger] r@[k]) < index_boxes(self.flower_index).len(),
            forall|k: int|
                0 <= k < r@.len() ==> spec_box_overlaps(
                    index_boxes(self.flower_index)[(#[trigger] r@[k]) as int],
                    rect.spec_left().raw,
                    rect.spec_top().raw,
                    rect.spec_right().raw,
                    rect.spec_bottom().raw,
                ),
            forall|j: int|
                0 <= j < index_boxes(self.flower_index).len() && spec_box_overlaps(
                    #[trigger] index_boxes(self.flower_index)[j],
                    rect.spec_left().raw,
                    rect.spec_top().raw,
                    rect.spec_right().raw,
                    rect.spec_bottom().raw,
                ) ==> r@.contains(j as usize),
            r@.no_duplicates(),
    {
        let left = rect.left();
        let top = rect.top();
        let right = rect.right();
        let bottom = rect.bottom();
        index_query(&self.flower_index, left.raw, top.raw, right.raw, bottom.raw)
    }
}

/// A uniformly random point of the box `[0, size]`.
pub fn rand_pos(size: &Vec2) -> (r: Vec2)
    requires
        size.wf(),
        size.x.raw >= 0,
        size.y.raw >= 0,
    ensures
        r.wf(),
        0 <= r.x.raw <= size.x.raw,
        0 <= r.y.raw <= size.y.raw,
{
    Vec2 { x: Fx { raw: gen_range_i64(0, size.x.raw) }, y: Fx { raw: gen_range_i64(0, size.y.raw) } }
}

/// A reasonable random flower color: fully opaque, green at most the lesser
/// of red and blue, and at least one of red and blue at full strength.
pub fn rand_flower_color() -> (c: Color)
    ensures
        c.a == 255,
        c.r == 255 || c.b == 255,
        c.g <= c.r,
        c.g <= c.b,
{
    let r0 = gen_range_i64(0, 255);
    let b0 = gen_range_i64(0, 255);
    let min0 = if r0 <= b0 { r0 } else { b0 };
    let max0 = if r0 >= b0 { r0 } else { b0 };
    if max0 == 0 {
        return Color { r: 255, g: 0, b: 255, a: 255 };
    }
    let g0 = gen_range_i64(0, min0);
    // scale all channels so that the larger of red and blue reaches 255
    let r1 = r0 * 255 / max0;
    let b1 = b0 * 255 / max0;
    let g1 = g0 * 255 / max0;
    proof {
        scaled_channel_order(g0 as int, r0 as int, max0 as int);
        scaled_channel_order(g0 as int, b0 as int, max0 as int);
        scaled_channel_order(r0 as int, max0 as int, max0 as int);
        scaled_channel_order(b0 as int, max0 as int, max0 as int);
        assert((max0 as int) * 255 / (max0 as int) == 255) by (nonlinear_arith)
            requires
                1 <= max0 <= 255,
        ;
    }
    Color { r: r1 as u8, g: g1 as u8, b: b1 as u8, a: 255 }
}

/// Scaling by 255/m keeps channel order: smaller channels stay at most as
/// large as bigger ones, and nothing climbs past the maximum channel.
proof fn scaled_channel_order(a: int, b: int, m: int)
    requires
        0 <= a <= b,
        1 <= m,
    ensures
        a * 255 / m <= b * 255 / m,
{
    assert(a * 255 <= b * 255) by (nonlinear_arith)
        requires
            0 <= a <= b,
    ;
    vstd::arithmetic::div_mod::lemma_div_is_ordered(a * 255, b * 255, m);
}


/// One explicit-Euler position step for everything that moves: position plus
/// velocity times the tick length.
pub open spec fn positions_updated(w: WorldView, clock: GameClock) -> Seq<Option<Position>> {
    Seq::new(
        w.positions.len(),
        |e: int|
            match (w.positions[e], w.velocities[e]) {
                (Some(p), Some(v)) => Some(Position(v_add(p.0, v_scale(v.0, clock.tick)))),
                _ => w.positions[e],
            },
    )
}

/// Integrate every entity that has both a position and a velocity.
pub fn update_position(world: &mut World, clock: &GameClock)
    requires
        old(world).wf(),
        clock.wf(),
        forall|e: int|
            0 <= e < old(world)@.len() ==> ((#[trigger] old(world)@.positions[e]) matches Some(p)
                ==> p.0.wf()),
        forall|e: int|
            0 <= e < old(world)@.len() ==> ((#[trigger] old(world)@.velocities[e]) matches Some(v)
                ==> v.0.wf()),
    ensures
        final(world).wf(),
        final(world)@.positions == positions_updated(old(world)@, *clock),
        final(world)@.velocities == old(world)@.velocities,
        final(world)@.bees == old(world)@.bees,
        final(world)@.flowers == old(world)@.flowers,
{
    let n = world.len();
    let mut e: usize = 0;
    while e < n
        invariant
            old(world).wf(),
            world.wf(),
            n == world@.len(),
            world@.len() == old(world)@.len(),
            e <= n,
            clock.wf(),
            forall|j: int|
                0 <= j < n ==> ((#[trigger] old(world)@.positions[j]) matches Some(p)
                    ==> p.0.wf()),
            forall|j: int|
                0 <= j < n ==> ((#[trigger] old(world)@.velocities[j]) matches Some(v)
                    ==> v.0.wf()),
            world@.velocities == old(world)@.velocities,
            world@.bees == old(world)@.bees,
            world@.flowers == old(world)@.flowers,
            forall|j: int| e <= j < n ==> world@.positions[j] == old(world)@.positions[j],
            forall|j: int|
                0 <= j < e ==> world@.positions[j] == positions_updated(old(world)@, *clock)[j],
        decreases n - e,
    {
        match (world.get_position(e), world.get_velocity(e)) {
            (Some(p), Some(vel)) => {
                world.set_position(e, Position(p.0.add(vel.0.scale(clock.tick))));
            }
            _ => {}
        }
        e = e + 1;
    }
    proof {
        assert(world@.positions =~= positions_updated(old(world)@, *clock));
    }
}

/// Clear the stage to the meadow's ground color.
pub fn draw_ground(settings: &Settings, frame: &mut Vec<DrawCmd>)
    ensures
        final(frame)@ == old(frame)@.push(DrawCmd::Ground { color: settings.meadow_color }),
{
    frame.push(DrawCmd::Ground { color: settings.meadow_color });
}

/// The flower circles one tick of drawing emits, walking the first `k`
/// listed flowers in order and keeping those whose bounds touch the camera
/// rectangle: the full circle in the flower's own color, and a core circle
/// sized by the configuration and colored by the collected flag.
pub open spec fn flower_cmds_upto(
    w: WorldView,
    m: Meadow,
    settings: Settings,
    rect: Rect,
    k: int,
) -> Seq<DrawCmd>
    decreases k,
{
    if k <= 0 {
        Seq::empty()
    } else {
        let prefix = flower_cmds_upto(w, m, settings, rect, k - 1);
        if spec_box_overlaps(
            index_boxes(m.flower_index)[k - 1],
            rect.spec_left().raw,
            rect.spec_top().raw,
            rect.spec_right().raw,
            rect.spec_bottom().raw,
        ) {
            let e = m.flower_entities@[k - 1] as int;
            let f = w.flowers[e]->Some_0;
            let p = w.positions[e]->Some_0.0;
            prefix.push(
                DrawCmd::Flower {
                    pos: p,
                    radius: f.radius,
                    color: f.color,
                    core_radius: fx_mul(
                        f.radius,
                        fx_div(settings.flower_core_size, fx_from_units(1000)),
                    ),
                    core_color: if f.collected {
                        settings.flower_collected_color
                    } else {
                        settings.flower_uncollected_color
                    },
                },
            )
        } else {
            prefix
        }
    }
}

/// Hand the presentation layer every flower the camera can see, culled by
/// the broad-phase index, in listing order.
pub fn draw_flower(
    world: &World,
    camera: &Camera,
    meadow: &Meadow,
    settings: &Settings,
    frame: &mut Vec<DrawCmd>,
)
    requires
        world.wf(),
        settings.wf(),
        meadow.wf(world@),
        camera.rect.wf(),
    ensures
        final(frame)@ == old(frame)@ + flower_cmds_upto(
            world@,
            *meadow,
            *settings,
            camera.rect,
            meadow.flower_entities@.len() as int,
        ),
{
    let candidates = meadow.flower_index_within(&camera.rect);
    let n = meadow.flower_entities.len();
    let core_scale = settings.flower_core_size.div(Fx::from_units(1000));
    let mut mask: Vec<bool> = Vec::new();
    let mut i: usize = 0;
    while i < n
        invariant
            i <= n,
            mask@.len() == i,
            forall|j: int| 0 <= j < i ==> !(#[trigger] mask@[j]),
        decreases n - i,
    {
        mask.push(false);
        i = i + 1;
    }
    let mut c: usize = 0;
    while c < candidates.len()
        invariant
            c <= candidates@.len(),
            mask@.len() == n,
            n == meadow.flower_entities@.len(),
            meadow.wf(world@),
            forall|k: int| 0 <= k < candidates@.len() ==> (#[trigger] candidates@[k]) < n,
            forall|j: int|
                0 <= j < n ==> ((#[trigger] mask@[j]) ==> candidates@.contains(j as usize)),
            forall|k: int| 0 <= k < c ==> mask@[(#[trigger] candidates@[k]) as int],
        decreases candidates@.len() - c,
    {
        let k0 = candidates[c];
        mask.set(k0, true);
        c = c + 1;
    }
    proof {
        assert forall|j: int| 0 <= j < n implies ((#[trigger] mask@[j]) <==> spec_box_overlaps(
            index_boxes(meadow.flower_index)[j],
            camera.rect.spec_left().raw,
            camera.rect.spec_top().raw,
            camera.rect.spec_right().raw,
            camera.rect.spec_bottom().raw,
        )) by {
            if mask@[j] {
                let k = choose|k: int|
                    0 <= k < candidates@.len() && candidates@[k] == j as usize;
                assert(spec_box_overlaps(
                    index_boxes(meadow.flower_index)[candidates@[k] as int],
                    camera.rect.spec_left().raw,
                    camera.rect.spec_top().raw,
                    camera.rect.spec_right().raw,
                    camera.rect.spec_bottom().raw,
                ));
            }
            if spec_box_overlaps(
                index_boxes(meadow.flower_index)[j],
                camera.rect.spec_left().raw,
                camera.rect.spec_top().raw,
                camera.rect.spec_right().raw,
                camera.rect.spec_bottom().raw,
            ) {
                assert(candidates@.contains(j as usize));
                let k = choose|k: int|
                    0 <= k < candidates@.len() && candidates@[k] == j as usize;
                assert(mask@[candidates@[k] as int]);
            }
        }
    }
    let mut k: usize = 0;
    while k < n
        invariant
            k <= n,
            world.wf(),
            settings.wf(),
            meadow.wf(world@),
            camera.rect.wf(),
            n == meadow.flower_entities@.len(),
            mask@.len() == n,
            core_scale == fx_div(settings.flower_core_size, fx_from_units(1000)),
            forall|j: int|
                0 <= j < n ==> ((#[trigger] mask@[j]) <==> spec_box_overlaps(
                    index_boxes(meadow.flower_index)[j],
                    camera.rect.spec_left().raw,
                    camera.rect.spec_top().raw,
                    camera.rect.spec_right().raw,
                    camera.rect.spec_bottom().raw,
                )),
            frame@ == old(frame)@ + flower_cmds_upto(
                world@,
                *meadow,
                *settings,
                camera.rect,
                k as int,
            ),
        decreases n - k,
    {
        if mask[k] {
            let e = meadow.flower_entities[k];
            proof {
                assert(meadow.flower_entities@[k as int] == e);
                assert(world@.flowers[e as int] is Some);
                assert(world@.positions[e as int] is Some);
            }
            let f = match world.get_flower(e) {
                Some(f) => f,
                None => vstd::pervasive::unreached(),
            };
            let p = match world.get_position(e) {
                Some(p) => p,
                None => vstd::pervasive::unreached(),
            };
            frame.push(
                DrawCmd::Flower {
                    pos: p.0,
                    radius: f.radius,
                    color: f.color,
                    core_radius: f.radius.mul(core_scale),
                    core_color: if f.collected {
                        settings.flower_collected_color
                    } else {
                        settings.flower_uncollected_color
                    },
                },
            );
        }
        k = k + 1;
        proof {
            assert(frame@ =~= old(frame)@ + flower_cmds_upto(
                world@,
                *meadow,
                *settings,
                camera.rect,
                k as int,
            ));
        }
    }
}

/// Populate the field and register the meadow's routines: integrate
/// positions, paint the ground, then — after a barrier, so drawing order
/// reflects end-of-physics state — the flowers, and another barrier
/// before the groups that follow.
pub fn roll_call(
    world: &mut World,
    schedule: &mut Vec<Step>,
    settings: &Settings,
) -> (m: Meadow)
    requires
        old(world).wf(),
        settings.wf(),
        old(world)@.len() + settings.num_flowers * 10 <= usize::MAX,
    ensures
        final(world).wf(),
        final(world)@.len() == old(world)@.len() + settings.num_flowers * 10,
        forall|j: int|
            0 <= j < old(world)@.len() ==> {
                &&& final(world)@.positions[j] == old(world)@.positions[j]
                &&& final(world)@.velocities[j] == old(world)@.velocities[j]
                &&& final(world)@.bees[j] == old(world)@.bees[j]
                &&& final(world)@.flowers[j] == old(world)@.flowers[j]
            },
        m.wf(final(world)@),
        forall|i: int|
            0 <= i < settings.num_flowers * 10 ==> (#[trigger] final(world)@.bees[old(
                world,
            )@.len() + i]) is None,
        m.size == v2(
            fx_mul(settings.meadow_height, fx_from_units(100)),
            fx_mul(settings.meadow_width, fx_from_units(100)),
        ),
        m.flower_entities@.len() == settings.num_flowers * 10,
        forall|i: int|
            0 <= i < m.flower_entities@.len() ==> (#[trigger] m.flower_entities@[i])
                == old(world)@.len() + i,
        forall|i: int|
            0 <= i < m.flower_entities@.len() ==> {
                let e = (#[trigger] m.flower_entities@[i]) as int;
                let f = final(world)@.flowers[e]->Some_0;
                let p = final(world)@.positions[e]->Some_0.0;
                &&& settings.flower_size_min.raw <= f.radius.raw <= settings.flower_size_max.raw
                &&& !f.collected
                &&& 0 <= p.x.raw <= m.size.x.raw
                &&& 0 <= p.y.raw <= m.size.y.raw
            },
        final(schedule)@ == old(schedule)@ + seq![
            Step::UpdatePosition,
            Step::DrawGround,
            Step::Barrier,
            Step::DrawFlowers,
            Step::Barrier,
        ],
{
    let m = Meadow::new(world, settings);
    schedule.push(Step::UpdatePosition);
    schedule.push(Step::DrawGround);
    schedule.push(Step::Barrier);
    schedule.push(Step::DrawFlowers);
    schedule.push(Step::Barrier);
    proof {
        assert(schedule@ =~= old(schedule)@ + seq![
            Step::UpdatePosition,
            Step::DrawGround,
            Step::Barrier,
            Step::DrawFlowers,
            Step::Barrier,
        ]);
    }
    m
}

} // verus!
