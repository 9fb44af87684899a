//! The bee: the one controllable entity, with its steering, flight and
//! flower-collecting routines.

use vstd::prelude::*;

use crate::backstage::{DrawCmd, Step};
use crate::collision::{quad_circle_intersects, quad_circle_intersects_exec};
use crate::fx::{divt, fx_div, fx_from_units, fx_mul, Fx, SCALE};
use crate::index::{index_boxes, spec_box_overlaps};
use crate::meadow::{flower_box, Flower, Meadow};
use crate::prelude::{q_bb_max, q_bb_min, Error, GameClock, Inputs, Position, Quad, Rect, TheBee, Velocity};
use crate::settings::Settings;
use crate::store::{World, WorldView};
use crate::vec2::{v2, v_add, v_clamp, v_div_s, v_length, v_neg, v_normalize, v_scale, v_sub, Vec2};

verus! {

/// Width and height of one animation frame of the flying bee, in raw
/// fixed-point world units (64 by 32 units).
pub const BEE_FRAME_W_RAW: i64 = 64 * 4096;

pub const BEE_FRAME_H_RAW: i64 = 32 * 4096;

/// How many animation frames the flying loop has.
pub const BEE_FLYING_FRAMES: u64 = 8;

/// The bee's sprite rectangle translated so the bee position is at the
/// origin: most of the sprite trails behind the position, which sits at 85%
/// of the frame width.
pub open spec fn bee_sprite_rect() -> Rect {
    Rect {
        x: Fx { raw: (-(BEE_FRAME_W_RAW * 85 / 100)) as i64 },
        y: Fx { raw: (-(BEE_FRAME_H_RAW / 2)) as i64 },
        w: Fx { raw: BEE_FRAME_W_RAW },
        h: Fx { raw: BEE_FRAME_H_RAW },
    }
}

/// The bee's hitbox relative to the bee position: the sprite's span in x, the
/// middle third in y.  It goes through the same transformations as the
/// sprite itself.
pub open spec fn bee_hitbox_rect() -> Rect {
    Rect {
        x: Fx { raw: (-(BEE_FRAME_W_RAW * 85 / 100)) as i64 },
        y: Fx { raw: (-(BEE_FRAME_H_RAW / 6)) as i64 },
        w: Fx { raw: (BEE_FRAME_W_RAW * 85 / 100) as i64 },
        h: Fx { raw: (BEE_FRAME_H_RAW / 3) as i64 },
    }
}

pub fn bee_sprite_rect_exec() -> (r: Rect)
    ensures
        r == bee_sprite_rect(),
        r.wf(),
{
    Rect {
        x: Fx { raw: -(BEE_FRAME_W_RAW * 85 / 100) },
        y: Fx { raw: -(BEE_FRAME_H_RAW / 2) },
        w: Fx { raw: BEE_FRAME_W_RAW },
        h: Fx { raw: BEE_FRAME_H_RAW },
    }
}

pub fn bee_hitbox_rect_exec() -> (r: Rect)
    ensures
        r == bee_hitbox_rect(),
        r.wf(),
{
    Rect {
        x: Fx { raw: -(BEE_FRAME_W_RAW * 85 / 100) },
        y: Fx { raw: -(BEE_FRAME_H_RAW / 6) },
        w: Fx { raw: BEE_FRAME_W_RAW * 85 / 100 },
        h: Fx { raw: BEE_FRAME_H_RAW / 3 },
    }
}

/// The bee's behavior state: where it wants to go, how hard it is pushing,
/// and how many flowers it has collected.
#[derive(Clone, Copy, Debug, PartialEq, Eq, Structural)]
pub struct Bee {
    pub destination: Vec2,
    pub thrust: Vec2,
    pub score: u32,
}

impl Bee {
    pub open spec fn wf(self) -> bool {
        self.destination.wf() && self.thrust.wf()
    }
}

/// The fixed transform chain taking a rectangle from the bee's local frame
/// into world space: scale about the origin by the configured bee size (in
/// thousandths), then rotate about the origin to the bee's heading, then
/// translate to the bee's position.  The order is part of the contract:
/// rotation pivots at the local origin, not at the world position.  A bee
/// with zero thrust has no heading; the default heading (no rotation) stands
/// in.
pub open spec fn bee_transform(bee: Bee, pos: Vec2, settings: Settings, rect: Rect) -> Quad {
    crate::prelude::q_translate(
        crate::prelude::q_rotate_to(
            crate::prelude::q_scale(
                crate::prelude::q_from_rect(rect),
                fx_div(settings.bee_size, fx_from_units(1000)),
            ),
            v_normalize(bee.thrust),
        ),
        pos,
    )
}

impl Bee {
    /// Carry `rect` from the bee's local frame into world space: scale, then
    /// rotate to the heading, then translate.
    pub fn transform_rect(&self, pos: Vec2, settings: &Settings, rect: &Rect) -> (q: Quad)
        requires
            self.wf(),
            pos.wf(),
            settings.bee_size.wf(),
            rect.wf(),
        ensures
            q == bee_transform(*self, pos, *settings, *rect),
            q.wf(),
    {
        let scale = settings.bee_size.div(Fx::from_units(1000));
        Quad::from_rect(rect).scale_to_origin(scale).rotate_to(self.thrust.normalize_or_east())
            .translate(pos)
    }
}

/// How every bee's destination looks after a tick's input: unchanged when no
/// click arrived, else the clicked point clamped into the play field.
pub open spec fn dest_updated_bees(
    bees: Seq<Option<Bee>>,
    click: Option<Vec2>,
    size: Vec2,
) -> Seq<Option<Bee>> {
    match click {
        None => bees,
        Some(c) => Seq::new(
            bees.len(),
            |e: int|
                match bees[e] {
                    Some(b) => Some(
                        Bee {
                            destination: v_clamp(c, v2(Fx { raw: 0 }, Fx { raw: 0 }), size),
                            thrust: b.thrust,
                            score: b.score,
                        },
                    ),
                    None => None,
                },
        ),
    }
}

/// If a click arrived this tick, every bee heads for the clicked point,
/// clamped into the play field.
pub fn update_destination(world: &mut World, inputs: &Inputs, meadow: &Meadow)
    requires
        old(world).wf(),
    ensures
        final(world).wf(),
        final(world)@.bees == dest_updated_bees(old(world)@.bees, inputs.mouse_click, meadow.size),
        final(world)@.positions == old(world)@.positions,
        final(world)@.velocities == old(world)@.velocities,
        final(world)@.flowers == old(world)@.flowers,
{
    match inputs.mouse_click {
        None => {}
        Some(click) => {
            let dest = meadow.clamp(click);
            let n = world.len();
            let mut e: usize = 0;
            while e < n
                invariant
                    old(world).wf(),
                    world.wf(),
                    n == world@.len(),
                    world@.len() == old(world)@.len(),
                    e <= n,
                    inputs.mouse_click == Some(click),
                    dest == v_clamp(click, v2(Fx { raw: 0 }, Fx { raw: 0 }), meadow.size),
                    world@.positions == old(world)@.positions,
                    world@.velocities == old(world)@.velocities,
                    world@.flowers == old(world)@.flowers,
                    forall|j: int| e <= j < n ==> world@.bees[j] == old(world)@.bees[j],
                    forall|j: int|
                        0 <= j < e ==> world@.bees[j] == (match old(world)@.bees[j] {
                            Some(b) => Some(
                                Bee { destination: dest, thrust: b.thrust, score: b.score },
                            ),
                            None => None::<Bee>,
                        }),
                decreases n - e,
            {
                match world.get_bee(e) {
                    Some(b) => {
                        world.set_bee(
                            e,
                            Bee { destination: dest, thrust: b.thrust, score: b.score },
                        );
                    }
                    None => {}
                }
                e = e + 1;
            }
            proof {
                assert(world@.bees =~= dest_updated_bees(
                    old(world)@.bees,
                    inputs.mouse_click,
                    meadow.size,
                ));
            }
        }
    }
}

/// Thrust toward the destination: full force while far away, easing off to
/// the remaining displacement once it is shorter than the thrust cap, so the
/// bee decelerates into its target instead of overshooting.
pub open spec fn head_thrust(b: Bee, p: Position, settings: Settings) -> Vec2 {
    let disp = v_sub(b.destination, p.0);
    let dist = v_length(disp);
    if dist.raw > settings.max_thrust.raw {
        v_scale(v_div_s(disp, dist), settings.max_thrust)
    } else {
        disp
    }
}

pub open spec fn heading_updated_bees(w: WorldView, settings: Settings) -> Seq<Option<Bee>> {
    Seq::new(
        w.bees.len(),
        |e: int|
            match (w.bees[e], w.positions[e]) {
                (Some(b), Some(p)) => Some(
                    Bee {
                        destination: b.destination,
                        thrust: head_thrust(b, p, settings),
                        score: b.score,
                    },
                ),
                _ => w.bees[e],
            },
    )
}

pub fn head_for_destination(world: &mut World, settings: &Settings)
    requires
        old(world).wf(),
        settings.wf(),
        forall|e: int|
            0 <= e < old(world)@.len() ==> ((#[trigger] old(world)@.bees[e]) matches Some(b)
                ==> b.wf()),
        forall|e: int|
            0 <= e < old(world)@.len() ==> ((#[trigger] old(world)@.positions[e]) matches Some(p)
                ==> p.0.wf()),
    ensures
        final(world).wf(),
        final(world)@.bees == heading_updated_bees(old(world)@, *settings),
        final(world)@.positions == old(world)@.positions,
        final(world)@.velocities == old(world)@.velocities,
        final(world)@.flowers == old(world)@.flowers,
{
    let n = world.len();
    let mut e: usize = 0;
    while e < n
        invariant
            old(world).wf(),
            world.wf(),
            n == world@.len(),
            world@.len() == old(world)@.len(),
            e <= n,
            settings.wf(),
            forall|j: int|
                0 <= j < n ==> ((#[trigger] old(world)@.bees[j]) matches Some(b) ==> b.wf()),
            forall|j: int|
                0 <= j < n ==> ((#[trigger] old(world)@.positions[j]) matches Some(p)
                    ==> p.0.wf()),
            world@.positions == old(world)@.positions,
            world@.velocities == old(world)@.velocities,
            world@.flowers == old(world)@.flowers,
            forall|j: int| e <= j < n ==> world@.bees[j] == old(world)@.bees[j],
            forall|j: int|
                0 <= j < e ==> world@.bees[j] == heading_updated_bees(old(world)@, *settings)[j],
        decreases n - e,
    {
        match (world.get_bee(e), world.get_position(e)) {
            (Some(b), Some(p)) => {
                let disp = b.destination.sub(p.0);
                let dist = disp.length();
                let thrust = if dist.raw > settings.max_thrust.raw {
                    disp.div_s(dist).scale(settings.max_thrust)
                } else {
                    disp
                };
                world.set_bee(
                    e,
                    Bee { destination: b.destination, thrust, score: b.score },
                );
            }
            _ => {}
        }
        e = e + 1;
    }
    proof {
        assert(world@.bees =~= heading_updated_bees(old(world)@, *settings));
    }
}

/// One explicit-Euler velocity step: thrust plus a drag term opposing the
/// current velocity, scaled by the tick length and divided by the mass.
pub open spec fn fly_velocity(b: Bee, v: Velocity, clock: GameClock, settings: Settings) -> Velocity {
    let wind = v_neg(v.0);
    let thrust = v_add(
        b.thrust,
        v_div_s(v_scale(wind, settings.wind_resistance), fx_from_units(100)),
    );
    Velocity(v_add(v.0, v_div_s(v_scale(thrust, clock.tick), settings.mass)))
}

pub open spec fn fly_updated_velocities(
    w: WorldView,
    clock: GameClock,
    settings: Settings,
) -> Seq<Option<Velocity>> {
    Seq::new(
        w.velocities.len(),
        |e: int|
            match (w.bees[e], w.velocities[e]) {
                (Some(b), Some(v)) => Some(fly_velocity(b, v, clock, settings)),
                _ => w.velocities[e],
            },
    )
}

pub fn fly(world: &mut World, clock: &GameClock, settings: &Settings)
    requires
        old(world).wf(),
        settings.wf(),
        clock.wf(),
        forall|e: int|
            0 <= e < old(world)@.len() ==> ((#[trigger] old(world)@.bees[e]) matches Some(b)
                ==> b.wf()),
        forall|e: int|
            0 <= e < old(world)@.len() ==> ((#[trigger] old(world)@.velocities[e]) matches Some(v)
                ==> v.0.wf()),
    ensures
        final(world).wf(),
        final(world)@.velocities == fly_updated_velocities(old(world)@, *clock, *settings),
        final(world)@.positions == old(world)@.positions,
        final(world)@.bees == old(world)@.bees,
        final(world)@.flowers == old(world)@.flowers,
{
    let n = world.len();
    let mut e: usize = 0;
    while e < n
        invariant
            old(world).wf(),
            world.wf(),
            n == world@.len(),
            world@.len() == old(world)@.len(),
            e <= n,
            settings.wf(),
            clock.wf(),
            forall|j: int|
                0 <= j < n ==> ((#[trigger] old(world)@.bees[j]) matches Some(b) ==> b.wf()),
            forall|j: int|
                0 <= j < n ==> ((#[trigger] old(world)@.velocities[j]) matches Some(v)
                    ==> v.0.wf()),
            world@.positions == old(world)@.positions,
            world@.bees == old(world)@.bees,
            world@.flowers == old(world)@.flowers,
            forall|j: int| e <= j < n ==> world@.velocities[j] == old(world)@.velocities[j],
            forall|j: int|
                0 <= j < e ==> world@.velocities[j] == fly_updated_velocities(
                    old(world)@,
                    *clock,
                    *settings,
                )[j],
        decreases n - e,
    {
        match (world.get_bee(e), world.get_velocity(e)) {
            (Some(b), Some(vel)) => {
                let Velocity(v) = vel;
                let wind = v.neg();
                let hundred = Fx::from_units(100);
                let thrust = b.thrust.add(wind.scale(settings.wind_resistance).div_s(hundred));
                let v1 = v.add(thrust.scale(clock.tick).div_s(settings.mass));
                world.set_velocity(e, Velocity(v1));
            }
            _ => {}
        }
        e = e + 1;
    }
    proof {
        assert(world@.velocities =~= fly_updated_velocities(old(world)@, *clock, *settings));
    }
}

/// Which animation frame of the flying loop is on show at this moment.
pub open spec fn bee_frame_index(clock: GameClock, settings: Settings) -> u64 {
    (divt(fx_mul(settings.animation_speed, clock.time).raw as int, SCALE as int) % (
    BEE_FLYING_FRAMES as int)) as u64
}

/// The sprite commands one tick of drawing emits for the first `n` entities:
/// one transformed sprite quad per bee, in entity order.
pub open spec fn bee_cmds_upto(
    w: WorldView,
    clock: GameClock,
    settings: Settings,
    n: int,
) -> Seq<DrawCmd>
    decreases n,
{
    if n <= 0 {
        Seq::empty()
    } else {
        let prefix = bee_cmds_upto(w, clock, settings, n - 1);
        match (w.bees[n - 1], w.positions[n - 1]) {
            (Some(b), Some(p)) => prefix.push(
                DrawCmd::BeeSprite {
                    quad: bee_transform(b, p.0, settings, bee_sprite_rect()),
                    frame: bee_frame_index(clock, settings),
                },
            ),
            _ => prefix,
        }
    }
}

/// Hand the presentation layer every bee's transformed sprite quad and the
/// animation frame the clock calls for.
pub fn draw(world: &World, clock: &GameClock, settings: &Settings, frame: &mut Vec<DrawCmd>)
    requires
        world.wf(),
        settings.wf(),
        clock.wf(),
        clock.time.raw >= 0,
        forall|e: int|
            0 <= e < world@.len() ==> ((#[trigger] world@.bees[e]) matches Some(b) ==> b.wf()),
        forall|e: int|
            0 <= e < world@.len() ==> ((#[trigger] world@.positions[e]) matches Some(p)
                ==> p.0.wf()),
    ensures
        final(frame)@ == old(frame)@ + bee_cmds_upto(world@, *clock, *settings, world@.len() as int),
{
    let t = settings.animation_speed.mul(clock.time);
    proof {
        assert(settings.animation_speed.raw * clock.time.raw >= 0) by (nonlinear_arith)
            requires
                settings.animation_speed.raw >= 0,
                clock.time.raw >= 0,
        ;
    }
    let units: i64 = t.raw / SCALE;
    let frame_num: u64 = (units % (BEE_FLYING_FRAMES as i64)) as u64;
    proof {
        assert(frame_num == bee_frame_index(*clock, *settings));
    }
    let n = world.len();
    let mut e: usize = 0;
    while e < n
        invariant
            world.wf(),
            n == world@.len(),
            e <= n,
            settings.wf(),
            clock.wf(),
            forall|j: int|
                0 <= j < n ==> ((#[trigger] world@.bees[j]) matches Some(b) ==> b.wf()),
            forall|j: int|
                0 <= j < n ==> ((#[trigger] world@.positions[j]) matches Some(p) ==> p.0.wf()),
            frame_num == bee_frame_index(*clock, *settings),
            frame@ == old(frame)@ + bee_cmds_upto(world@, *clock, *settings, e as int),
        decreases n - e,
    {
        match (world.get_bee(e), world.get_position(e)) {
            (Some(b), Some(p)) => {
                let quad = b.transform_rect(p.0, settings, &bee_sprite_rect_exec());
                frame.push(DrawCmd::BeeSprite { quad, frame: frame_num });
            }
            _ => {}
        }
        e = e + 1;
        proof {
            assert(frame@ =~= old(frame)@ + bee_cmds_upto(world@, *clock, *settings, e as int));
        }
    }
}

/// The score overlay commands: one per bee, placed against the camera's
/// current display rectangle.
pub open spec fn score_cmds_upto(w: WorldView, camera: crate::camera::Camera, n: int) -> Seq<
    DrawCmd,
>
    decreases n,
{
    if n <= 0 {
        Seq::empty()
    } else {
        let prefix = score_cmds_upto(w, camera, n - 1);
        match w.bees[n - 1] {
            Some(b) => prefix.push(DrawCmd::Score { score: b.score, rect: camera.rect }),
            None => prefix,
        }
    }
}

/// Hand the presentation layer every bee's score, placed by the camera.
pub fn draw_score(
    world: &World,
    settings: &Settings,
    camera: &crate::camera::Camera,
    frame: &mut Vec<DrawCmd>,
)
    requires
        world.wf(),
    ensures
        final(frame)@ == old(frame)@ + score_cmds_upto(world@, *camera, world@.len() as int),
{
    let n = world.len();
    let mut e: usize = 0;
    while e < n
        invariant
            world.wf(),
            n == world@.len(),
            e <= n,
            frame@ == old(frame)@ + score_cmds_upto(world@, *camera, e as int),
        decreases n - e,
    {
        match world.get_bee(e) {
            Some(b) => {
                frame.push(DrawCmd::Score { score: b.score, rect: camera.rect });
            }
            None => {}
        }
        e = e + 1;
        proof {
            assert(frame@ =~= old(frame)@ + score_cmds_upto(world@, *camera, e as int));
        }
    }
}


/// What `found_flower` assumes present: the published bee entity with its
/// behavior state and position.  Anything less is a setup defect.
pub open spec fn bee_ready(w: WorldView, the_bee: TheBee) -> bool {
    &&& the_bee.entity < w.len()
    &&& w.bees[the_bee.entity as int] is Some
    &&& w.positions[the_bee.entity as int] is Some
}

/// The collision verdict for one entity: a flower listed in the meadow whose
/// bounds touch the hitbox's bounds (the broad phase) and whose circle meets
/// the transformed hitbox exactly (the narrow phase).
pub open spec fn bee_hit(w: WorldView, m: Meadow, hitbox: Quad, e: int) -> bool {
    let bbmin = q_bb_min(hitbox);
    let bbmax = q_bb_max(hitbox);
    &&& 0 <= e < w.len()
    &&& w.flowers[e] is Some
    &&& w.positions[e] is Some
    &&& m.flower_entities@.contains(e as usize)
    &&& spec_box_overlaps(
        flower_box(w.positions[e]->Some_0.0, w.flowers[e]->Some_0.radius),
        bbmin.x.raw,
        bbmin.y.raw,
        bbmax.x.raw,
        bbmax.y.raw,
    )
    &&& quad_circle_intersects(hitbox, w.positions[e]->Some_0.0, w.flowers[e]->Some_0.radius)
}

/// Entity `e` appears among the first `k` listed flowers.
pub open spec fn prefix_lists(m: Meadow, k: int, e: usize) -> bool {
    exists|k2: int| 0 <= k2 < k && m.flower_entities@[k2] == e
}

/// The flower arena after the hits among the first `k` listed flowers have
/// been collected.  The flag only ever goes from false to true; radius and
/// color stay.
pub open spec fn collected_flowers_upto(w: WorldView, m: Meadow, hitbox: Quad, k: int) -> Seq<
    Option<Flower>,
> {
    Seq::new(
        w.flowers.len(),
        |e: int|
            match w.flowers[e] {
                Some(f) => Some(
                    Flower {
                        color: f.color,
                        radius: f.radius,
                        collected: f.collected || (bee_hit(w, m, hitbox, e) && prefix_lists(
                            m,
                            k,
                            e as usize,
                        )),
                    },
                ),
                None => None,
            },
    )
}

/// The flower arena after every hit flower has been collected.
pub open spec fn collected_flowers(w: WorldView, m: Meadow, hitbox: Quad) -> Seq<Option<Flower>> {
    Seq::new(
        w.flowers.len(),
        |e: int|
            match w.flowers[e] {
                Some(f) => Some(
                    Flower {
                        color: f.color,
                        radius: f.radius,
                        collected: f.collected || bee_hit(w, m, hitbox, e),
                    },
                ),
                None => None,
            },
    )
}

/// How many of the first `k` listed flowers are hit now and were not yet
/// collected: the score the tick earns.  A flower already collected counts
/// nothing, however often it is hit again.
pub open spec fn new_hits_upto(w: WorldView, m: Meadow, hitbox: Quad, k: int) -> nat
    decreases k,
{
    if k <= 0 {
        0
    } else {
        let e = m.flower_entities@[k - 1] as int;
        new_hits_upto(w, m, hitbox, k - 1) + (if bee_hit(w, m, hitbox, e)
            && !w.flowers[e]->Some_0.collected {
            1nat
        } else {
            0nat
        })
    }
}

pub open spec fn new_hits(w: WorldView, m: Meadow, hitbox: Quad) -> nat {
    new_hits_upto(w, m, hitbox, m.flower_entities@.len() as int)
}

/// Add newly collected flowers to the score, stopping at the counter's top.
pub open spec fn score_saturate(score: u32, add: nat) -> u32 {
    if score + add > u32::MAX {
        u32::MAX
    } else {
        (score + add) as u32
    }
}

/// The whole store after one collision pass: hit flowers collected, the
/// bee's score grown by the newly collected ones, everything else untouched.
pub open spec fn found_flower_world(
    w: WorldView,
    the_bee: TheBee,
    m: Meadow,
    settings: Settings,
) -> WorldView {
    let b = w.bees[the_bee.entity as int]->Some_0;
    let p = w.positions[the_bee.entity as int]->Some_0;
    let hitbox = bee_transform(b, p.0, settings, bee_hitbox_rect());
    WorldView {
        positions: w.positions,
        velocities: w.velocities,
        bees: w.bees.update(
            the_bee.entity as int,
            Some(
                Bee {
                    destination: b.destination,
                    thrust: b.thrust,
                    score: score_saturate(b.score, new_hits(w, m, hitbox)),
                },
            ),
        ),
        flowers: collected_flowers(w, m, hitbox),
    }
}

/// Appending one listed flower to the prefix adds exactly that flower to the
/// listed set.
proof fn prefix_lists_step(m: Meadow, k: int, e: usize)
    requires
        0 <= k < m.flower_entities@.len(),
    ensures
        prefix_lists(m, k + 1, e) <==> (prefix_lists(m, k, e) || m.flower_entities@[k] == e),
{
    if prefix_lists(m, k + 1, e) {
        let k2 = choose|k2: int| 0 <= k2 < k + 1 && m.flower_entities@[k2] == e;
        if k2 < k {
            assert(prefix_lists(m, k, e));
        }
    }
    if prefix_lists(m, k, e) {
        let k2 = choose|k2: int| 0 <= k2 < k && m.flower_entities@[k2] == e;
        assert(0 <= k2 < k + 1 && m.flower_entities@[k2] == e);
    }
    if m.flower_entities@[k] == e {
        assert(0 <= k < k + 1 && m.flower_entities@[k] == e);
    }
}

/// Broad phase then narrow phase: query the meadow's index with the
/// transformed hitbox's bounds, test each candidate flower's circle exactly,
/// collect every hit not yet collected, and grow the bee's score by the
/// newly collected count.  Re-colliding with an already-collected flower
/// changes nothing.
pub fn found_flower(
    world: &mut World,
    the_bee: &TheBee,
    meadow: &Meadow,
    settings: &Settings,
) -> (r: Result<(), Error>)
    requires
        old(world).wf(),
        settings.wf(),
        meadow.wf(old(world)@),
        forall|e: int|
            0 <= e < old(world)@.len() ==> ((#[trigger] old(world)@.bees[e]) matches Some(b)
                ==> b.wf()),
        forall|e: int|
            0 <= e < old(world)@.len() ==> ((#[trigger] old(world)@.positions[e]) matches Some(p)
                ==> p.0.wf()),
    ensures
        final(world).wf(),
        r is Ok <==> bee_ready(old(world)@, *the_bee),
        r is Err ==> final(world)@ == old(world)@ && r->Err_0 == Error::ConfigurationViolation,
        r is Ok ==> final(world)@ == found_flower_world(old(world)@, *the_bee, *meadow, *settings),
{
    let eb = the_bee.entity;
    let nw = world.len();
    if eb >= nw {
        return Err(Error::ConfigurationViolation);
    }
    let b = match world.get_bee(eb) {
        Some(b) => b,
        None => { return Err(Error::ConfigurationViolation); },
    };
    let bp = match world.get_position(eb) {
        Some(p) => p,
        None => { return Err(Error::ConfigurationViolation); },
    };
    let ghost w0 = old(world)@;
    let hitbox = b.transform_rect(bp.0, settings, &bee_hitbox_rect_exec());
    let (bbmin, bbmax) = hitbox.bb();
    let candidates = meadow.flower_index_within_bounds(bbmin, bbmax);
    let n = meadow.flower_entities.len();
    proof {
        assert(n == index_boxes(meadow.flower_index).len());
    }
    // Mark the candidate positions, so the flowers can then be walked in
    // ascending order.
    let mut mask: Vec<bool> = Vec::new();
    let mut i: usize = 0;
    while i < n
        invariant
            i <= n,
            mask@.len() == i,
            forall|j: int| 0 <= j < i ==> !(#[trigger] mask@[j]),
        decreases n - i,
    {
        mask.push(false);
        i = i + 1;
    }
    let mut c: usize = 0;
    while c < candidates.len()
        invariant
            c <= candidates@.len(),
            mask@.len() == n,
            n == index_boxes(meadow.flower_index).len(),
            forall|k: int|
                0 <= k < candidates@.len() ==> (#[trigger] candidates@[k]) < n,
            forall|j: int|
                0 <= j < n ==> ((#[trigger] mask@[j]) ==> candidates@.contains(j as usize)),
            forall|k: int| 0 <= k < c ==> mask@[(#[trigger] candidates@[k]) as int],
        decreases candidates@.len() - c,
    {
        let k0 = candidates[c];
        mask.set(k0, true);
        c = c + 1;
    }
    proof {
        assert forall|j: int| 0 <= j < n implies ((#[trigger] mask@[j]) <==> spec_box_overlaps(
            index_boxes(meadow.flower_index)[j],
            bbmin.x.raw,
            bbmin.y.raw,
            bbmax.x.raw,
            bbmax.y.raw,
        )) by {
            if mask@[j] {
                let k = choose|k: int|
                    0 <= k < candidates@.len() && candidates@[k] == j as usize;
                assert(spec_box_overlaps(
                    index_boxes(meadow.flower_index)[candidates@[k] as int],
                    bbmin.x.raw,
                    bbmin.y.raw,
                    bbmax.x.raw,
                    bbmax.y.raw,
                ));
            }
            if spec_box_overlaps(
                index_boxes(meadow.flower_index)[j],
                bbmin.x.raw,
                bbmin.y.raw,
                bbmax.x.raw,
                bbmax.y.raw,
            ) {
                assert(candidates@.contains(j as usize));
                let k = choose|k: int|
                    0 <= k < candidates@.len() && candidates@[k] == j as usize;
                assert(mask@[candidates@[k] as int]);
            }
        }
    }
    // Walk the listed flowers in order; the mask says whose bounds touch the
    // hitbox's bounds.
    let mut delta: u64 = 0;
    let mut k: usize = 0;
    while k < n
        invariant
            k <= n,
            world.wf(),
            settings.wf(),
            meadow.wf(w0),
            n == meadow.flower_entities@.len(),
            n == index_boxes(meadow.flower_index).len(),
            mask@.len() == n,
            w0 == old(world)@,
            old(world).wf(),
            w0.flowers.len() <= usize::MAX,
            bee_ready(w0, *the_bee),
            eb == the_bee.entity,
            b == w0.bees[eb as int]->Some_0,
            bp == w0.positions[eb as int]->Some_0,
            hitbox == bee_transform(b, bp.0, *settings, bee_hitbox_rect()),
            bbmin == q_bb_min(hitbox),
            bbmax == q_bb_max(hitbox),
            forall|j: int|
                0 <= j < n ==> ((#[trigger] mask@[j]) <==> spec_box_overlaps(
                    index_boxes(meadow.flower_index)[j],
                    bbmin.x.raw,
                    bbmin.y.raw,
                    bbmax.x.raw,
                    bbmax.y.raw,
                )),
            world@.positions == w0.positions,
            world@.velocities == w0.velocities,
            world@.bees == w0.bees,
            world@.flowers == collected_flowers_upto(w0, *meadow, hitbox, k as int),
            delta == new_hits_upto(w0, *meadow, hitbox, k as int),
            delta <= k,
        decreases n - k,
    {
        let ghost ki = k as int;
        let ghost ec = meadow.flower_entities@[ki];
        proof {
            prefix_lists_step(*meadow, ki, ec);
            assert forall|e2: usize| e2 != ec implies (prefix_lists(*meadow, ki + 1, e2)
                <==> prefix_lists(*meadow, ki, e2)) by {
                prefix_lists_step(*meadow, ki, e2);
            }
        }
        if mask[k] {
            let e = meadow.flower_entities[k];
            proof {
                assert(meadow.flower_entities@[k as int] == e);
                assert(w0.flowers[e as int] is Some);
                assert(world@.flowers[e as int] is Some);
            }
            let f = match world.get_flower(e) {
                Some(f) => f,
                None => vstd::pervasive::unreached(),
            };
            proof {
                // With no duplicate listings, nothing before `k` touched this
                // flower, so its flag still carries the tick's initial value.
                if prefix_lists(*meadow, k as int, e) {
                    let k2 = choose|k2: int|
                        0 <= k2 < k && meadow.flower_entities@[k2] == e;
                    assert(meadow.flower_entities@[k2] == meadow.flower_entities@[k as int]);
                    assert(false);
                }
                assert(f.collected == w0.flowers[e as int]->Some_0.collected);
                assert(f.radius == w0.flowers[e as int]->Some_0.radius);
                assert(f.color == w0.flowers[e as int]->Some_0.color);
            }
            if !f.collected {
                let fp = match world.get_position(e) {
                    Some(p) => p,
                    None => vstd::pervasive::unreached(),
                };
                proof {
                    assert(fp.0 == w0.positions[e as int]->Some_0.0);
                }
                if quad_circle_intersects_exec(&hitbox, fp.0, f.radius) {
                    world.set_flower(
                        e,
                        Flower { color: f.color, radius: f.radius, collected: true },
                    );
                    delta = delta + 1;
                    proof {
                        assert(bee_hit(w0, *meadow, hitbox, e as int));
                        assert(prefix_lists(*meadow, ki + 1, ec));
                        assert forall|e2: int| 0 <= e2 < w0.flowers.len() implies world@.flowers[e2]
                            == collected_flowers_upto(w0, *meadow, hitbox, ki + 1)[e2] by {
                            if e2 != ec as int {
                                assert((e2 as usize) != ec);
                                assert(prefix_lists(*meadow, ki + 1, e2 as usize)
                                    <==> prefix_lists(*meadow, ki, e2 as usize));
                            }
                        }
                        assert(world@.flowers =~= collected_flowers_upto(
                            w0,
                            *meadow,
                            hitbox,
                            ki + 1,
                        ));
                    }
                } else {
                    proof {
                        assert(!quad_circle_intersects(
                            hitbox,
                            w0.positions[e as int]->Some_0.0,
                            w0.flowers[e as int]->Some_0.radius,
                        ));
                        assert(!bee_hit(w0, *meadow, hitbox, ec as int));
                        assert forall|e2: int| 0 <= e2 < w0.flowers.len() implies world@.flowers[e2]
                            == collected_flowers_upto(w0, *meadow, hitbox, ki + 1)[e2] by {
                            if e2 != ec as int {
                                assert((e2 as usize) != ec);
                                assert(prefix_lists(*meadow, ki + 1, e2 as usize)
                                    <==> prefix_lists(*meadow, ki, e2 as usize));
                            }
                        }
                        assert(world@.flowers =~= collected_flowers_upto(
                            w0,
                            *meadow,
                            hitbox,
                            ki + 1,
                        ));
                    }
                }
            } else {
                proof {
                    assert(w0.flowers[ec as int]->Some_0.collected);
                    assert(world@.flowers =~= collected_flowers_upto(
                        w0,
                        *meadow,
                        hitbox,
                        ki + 1,
                    ));
                }
            }
        } else {
            proof {
                // the indexed box is this flower's bounds, so no overlap
                // means no hit
                assert(index_boxes(meadow.flower_index)[ki] == flower_box(
                    w0.positions[ec as int]->Some_0.0,
                    w0.flowers[ec as int]->Some_0.radius,
                ));
                assert(!bee_hit(w0, *meadow, hitbox, ec as int));
                assert(world@.flowers =~= collected_flowers_upto(w0, *meadow, hitbox, ki + 1));
            }
        }
        k = k + 1;
    }
    proof {
        assert forall|e2: usize| true implies (prefix_lists(*meadow, n as int, e2)
            <==> meadow.flower_entities@.contains(e2)) by {
            if prefix_lists(*meadow, n as int, e2) {
                let k2 = choose|k2: int|
                    0 <= k2 < n && meadow.flower_entities@[k2] == e2;
                assert(meadow.flower_entities@.contains(e2));
            }
            if meadow.flower_entities@.contains(e2) {
                let k2 = choose|k2: int|
                    0 <= k2 < meadow.flower_entities@.len()
                        && meadow.flower_entities@[k2] == e2;
                assert(prefix_lists(*meadow, n as int, e2));
            }
        }
        assert(world@.flowers =~= collected_flowers(w0, *meadow, hitbox));
    }
    let cap: u32 = u32::MAX - b.score;
    let newscore: u32 = if (cap as u64) < delta {
        u32::MAX
    } else {
        b.score + (delta as u32)
    };
    proof {
        assert(newscore == score_saturate(b.score, new_hits(w0, *meadow, hitbox)));
    }
    world.set_bee(eb, Bee { destination: b.destination, thrust: b.thrust, score: newscore });
    proof {
        assert(world@ =~= found_flower_world(w0, *the_bee, *meadow, *settings));
    }
    Ok(())
}


/// Spawn the bee — one entity with behavior state, a random position and
/// destination inside the meadow, and a standing start — publish its
/// identity, and register the bee's routines in pipeline order.
pub fn roll_call(world: &mut World, schedule: &mut Vec<Step>, meadow: &Meadow) -> (t: TheBee)
    requires
        old(world).wf(),
        meadow.size.wf(),
        meadow.size.x.raw >= 0,
        meadow.size.y.raw >= 0,
        old(world)@.len() < usize::MAX,
    ensures
        final(world).wf(),
        t.entity == old(world)@.len(),
        final(world)@.len() == old(world)@.len() + 1,
        forall|j: int|
            0 <= j < old(world)@.len() ==> {
                &&& final(world)@.positions[j] == old(world)@.positions[j]
                &&& final(world)@.velocities[j] == old(world)@.velocities[j]
                &&& final(world)@.bees[j] == old(world)@.bees[j]
                &&& final(world)@.flowers[j] == old(world)@.flowers[j]
            },
        final(world)@.bees[t.entity as int] matches Some(b) && b.wf() && b.score == 0
            && b.thrust == (Vec2 { x: Fx { raw: 0 }, y: Fx { raw: 0 } }) && 0 <= b.destination.x.raw
            <= meadow.size.x.raw && 0 <= b.destination.y.raw <= meadow.size.y.raw,
        final(world)@.positions[t.entity as int] matches Some(p) && p.0.wf() && 0 <= p.0.x.raw
            <= meadow.size.x.raw && 0 <= p.0.y.raw <= meadow.size.y.raw,
        final(world)@.velocities[t.entity as int] == Some(
            Velocity(Vec2 { x: Fx { raw: 0 }, y: Fx { raw: 0 } }),
        ),
        final(world)@.flowers[t.entity as int] is None,
        final(schedule)@ == old(schedule)@ + seq![
            Step::UpdateDestination,
            Step::HeadForDestination,
            Step::Fly,
            Step::FoundFlower,
            Step::DrawBee,
            Step::DrawScore,
        ],
{
    let destination = meadow.rand_pos();
    let position = meadow.rand_pos();
    let entity = world.create(
        Some(Position(position)),
        Some(Velocity(Vec2::zero())),
        Some(Bee { destination, thrust: Vec2::zero(), score: 0 }),
        None,
    );
    schedule.push(Step::UpdateDestination);
    schedule.push(Step::HeadForDestination);
    schedule.push(Step::Fly);
    schedule.push(Step::FoundFlower);
    schedule.push(Step::DrawBee);
    schedule.push(Step::DrawScore);
    proof {
        assert(schedule@ =~= old(schedule)@ + seq![
            Step::UpdateDestination,
            Step::HeadForDestination,
            Step::Fly,
            Step::FoundFlower,
            Step::DrawBee,
            Step::DrawScore,
        ]);
    }
    TheBee { entity }
}

} // verus!
