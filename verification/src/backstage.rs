//! The stage manager: owns the world, the resources and the schedule, and
//! runs one tick after another.
//!
//! The schedule is an ordered list of steps with explicit barriers; a tick
//! refreshes the clock and input resources and then executes every step in
//! registration order.  Since execution is sequential, a barrier is a
//! synchronization point by construction: everything before it has fully
//! happened when the steps after it run.  What each step does to the stage
//! is pinned down by `run_step`, and a whole tick by `run_seq`.

use vstd::prelude::*;

use crate::bee::Bee;
use crate::camera::Camera;
use crate::fx::Fx;
use crate::meadow::Meadow;
use crate::prelude::{Color, GameClock, Inputs, Quad, Rect, TheBee};
use crate::settings::Settings;
use crate::store::{World, WorldView};
use crate::vec2::Vec2;

verus! {

/// One entry of the schedule: a routine, or a barrier separating groups of
/// routines whose effects must be complete before the next group runs.
#[derive(Clone, Copy, Debug, PartialEq, Eq, Structural)]
pub enum Step {
    UpdatePosition,
    DrawGround,
    Barrier,
    DrawFlowers,
    UpdateDestination,
    HeadForDestination,
    Fly,
    FoundFlower,
    DrawBee,
    DrawScore,
    FollowBee,
}

/// What the core hands the presentation layer for one tick, in draw order.
#[derive(Clone, Copy, Debug, PartialEq, Eq, Structural)]
pub enum DrawCmd {
    Ground { color: Color },
    Flower { pos: Vec2, radius: Fx, color: Color, core_radius: Fx, core_color: Color },
    BeeSprite { quad: Quad, frame: u64 },
    Score { score: u32, rect: Rect },
    SetCamera { rect: Rect },
}

/// The whole per-tick state: the entity store plus every resource.
pub struct Stage {
    pub world: World,
    pub settings: Settings,
    pub clock: GameClock,
    pub inputs: Inputs,
    pub meadow: Meadow,
    pub the_bee: TheBee,
    pub camera: Camera,
    pub frame: Vec<DrawCmd>,
}

/// Mathematical model of the stage.
#[verifier::ext_equal]
pub struct StageView {
    pub world: WorldView,
    pub settings: Settings,
    pub clock: GameClock,
    pub inputs: Inputs,
    pub meadow: Meadow,
    pub the_bee: TheBee,
    pub camera: Camera,
    pub frame: Seq<DrawCmd>,
}

impl View for Stage {
    type V = StageView;

    open spec fn view(&self) -> StageView {
        StageView {
            world: self.world@,
            settings: self.settings,
            clock: self.clock,
            inputs: self.inputs,
            meadow: self.meadow,
            the_bee: self.the_bee,
            camera: self.camera,
            frame: self.frame@,
        }
    }
}

impl StageView {
    /// The standing invariant of a well-built stage: consistent arenas,
    /// well-formed resources, the meadow coupled to its flowers, and exactly
    /// one bee — the published one — carrying behavior state, position and
    /// velocity.
    pub open spec fn wf(self) -> bool {
        &&& self.world.wf()
        &&& self.settings.wf()
        &&& self.clock.wf()
        &&& self.clock.time.raw >= 0
        &&& self.clock.tick.raw >= 0
        &&& (match self.inputs.mouse_click {
            Some(c) => c.wf(),
            None => true,
        })
        &&& self.inputs.screen.wf()
        &&& self.meadow.wf(self.world)
        &&& self.the_bee.entity < self.world.len()
        &&& self.world.bees[self.the_bee.entity as int] is Some
        &&& self.world.positions[self.the_bee.entity as int] is Some
        &&& self.world.velocities[self.the_bee.entity as int] is Some
        &&& (forall|e: int|
            0 <= e < self.world.len() && e != self.the_bee.entity ==> self.world.bees[e] is None)
        &&& (forall|e: int|
            0 <= e < self.world.len() ==> ((#[trigger] self.world.bees[e]) matches Some(b)
                ==> b.wf()))
        &&& (forall|e: int|
            0 <= e < self.world.len() ==> ((#[trigger] self.world.positions[e]) matches Some(p)
                ==> p.0.wf()))
        &&& (forall|e: int|
            0 <= e < self.world.len() ==> ((#[trigger] self.world.velocities[e]) matches Some(v)
                ==> v.0.wf()))
        &&& (forall|e: int|
            0 <= e < self.world.len() ==> ((#[trigger] self.world.flowers[e]) matches Some(f)
                ==> f.wf()))
        &&& self.camera.bee == self.the_bee.entity
        &&& self.camera.rect.wf()
    }

    pub open spec fn with_bees(self, bees: Seq<Option<Bee>>) -> StageView {
        StageView {
            world: WorldView {
                positions: self.world.positions,
                velocities: self.world.velocities,
                bees,
                flowers: self.world.flowers,
            },
            ..self
        }
    }

    pub open spec fn with_velocities(self, velocities: Seq<Option<crate::prelude::Velocity>>) -> StageView {
        StageView {
            world: WorldView {
                positions: self.world.positions,
                velocities,
                bees: self.world.bees,
                flowers: self.world.flowers,
            },
            ..self
        }
    }

    pub open spec fn with_positions(self, positions: Seq<Option<crate::prelude::Position>>) -> StageView {
        StageView {
            world: WorldView {
                positions,
                velocities: self.world.velocities,
                bees: self.world.bees,
                flowers: self.world.flowers,
            },
            ..self
        }
    }

    pub open spec fn with_flowers_and_bees(
        self,
        flowers: Seq<Option<crate::meadow::Flower>>,
        bees: Seq<Option<Bee>>,
    ) -> StageView {
        StageView {
            world: WorldView {
                positions: self.world.positions,
                velocities: self.world.velocities,
                bees,
                flowers,
            },
            ..self
        }
    }

    pub open spec fn with_frame(self, frame: Seq<DrawCmd>) -> StageView {
        StageView { frame, ..self }
    }

    pub open spec fn with_camera_and_frame(self, camera: Camera, frame: Seq<DrawCmd>) -> StageView {
        StageView { camera, frame, ..self }
    }
}


/// What one schedule entry does to the stage.  A barrier changes nothing:
/// with sequential execution, everything registered earlier has already
/// fully happened.
pub open spec fn run_step(s: StageView, step: Step) -> StageView {
    match step {
        Step::UpdatePosition => s.with_positions(crate::meadow::positions_updated(s.world, s.clock)),
        Step::DrawGround => s.with_frame(
            s.frame.push(DrawCmd::Ground { color: s.settings.meadow_color }),
        ),
        Step::Barrier => s,
        Step::DrawFlowers => s.with_frame(
            s.frame + crate::meadow::flower_cmds_upto(
                s.world,
                s.meadow,
                s.settings,
                s.camera.rect,
                s.meadow.flower_entities@.len() as int,
            ),
        ),
        Step::UpdateDestination => s.with_bees(
            crate::bee::dest_updated_bees(s.world.bees, s.inputs.mouse_click, s.meadow.size),
        ),
        Step::HeadForDestination => s.with_bees(
            crate::bee::heading_updated_bees(s.world, s.settings),
        ),
        Step::Fly => s.with_velocities(
            crate::bee::fly_updated_velocities(s.world, s.clock, s.settings),
        ),
        Step::FoundFlower => StageView {
            world: crate::bee::found_flower_world(s.world, s.the_bee, s.meadow, s.settings),
            ..s
        },
        Step::DrawBee => s.with_frame(
            s.frame + crate::bee::bee_cmds_upto(s.world, s.clock, s.settings, s.world.len() as int),
        ),
        Step::DrawScore => s.with_frame(
            s.frame + crate::bee::score_cmds_upto(s.world, s.camera, s.world.len() as int),
        ),
        Step::FollowBee => {
            let cam = crate::camera::follow_camera(
                s.world.positions[s.camera.bee as int]->Some_0,
                s.world.velocities[s.camera.bee as int]->Some_0,
                s.inputs,
                s.camera,
            );
            s.with_camera_and_frame(cam, s.frame.push(DrawCmd::SetCamera { rect: cam.rect }))
        },
    }
}

/// The stage after the first `k` schedule entries have run, in order.
pub open spec fn run_to(s: StageView, steps: Seq<Step>, k: int) -> StageView
    decreases k,
{
    if k <= 0 {
        s
    } else {
        run_step(run_to(s, steps, k - 1), steps[k - 1])
    }
}

/// The stage after a whole schedule has run.
pub open spec fn run_seq(s: StageView, steps: Seq<Step>) -> StageView {
    run_to(s, steps, steps.len() as int)
}

/// The stage after the tick's prologue: the clock advanced to `now` with the
/// delta since the previous tick, the inputs replaced by this tick's, and
/// the previous tick's draw output discarded.
pub open spec fn refreshed(s: StageView, now: Fx, click: Option<Vec2>, screen: Vec2) -> StageView {
    StageView {
        clock: GameClock { time: now, tick: crate::fx::fx_sub(now, s.clock.time) },
        inputs: Inputs { mouse_click: click, screen },
        frame: Seq::empty(),
        ..s
    }
}

/// Run one schedule entry on a well-formed stage.  The effect is exactly
/// `run_step`, and well-formedness survives.
fn execute_step(stage: &mut Stage, step: Step)
    requires
        old(stage)@.wf(),
    ensures
        final(stage)@ == run_step(old(stage)@, step),
        final(stage)@.wf(),
{
    let ghost s0 = old(stage)@;
    let ghost s1 = run_step(s0, step);
    match step {
        Step::UpdatePosition => {
            crate::meadow::update_position(&mut stage.world, &stage.clock);
            proof {
                assert(stage@ =~= s1);
                assert forall|k: int| 0 <= k < s1.meadow.flower_entities@.len() implies {
                    let e = (#[trigger] s1.meadow.flower_entities@[k]) as int;
                    &&& e < s1.world.len()
                    &&& s1.world.flowers[e] is Some
                    &&& s1.world.positions[e] is Some
                    &&& s1.world.velocities[e] is None
                    &&& s1.world.flowers[e]->Some_0.wf()
                    &&& s1.world.flowers[e]->Some_0.radius.raw > 0
                    &&& s1.world.positions[e]->Some_0.0.wf()
                    &&& crate::index::index_boxes(s1.meadow.flower_index)[k]
                        == crate::meadow::flower_box(
                        s1.world.positions[e]->Some_0.0,
                        s1.world.flowers[e]->Some_0.radius,
                    )
                } by {
                    let e = s0.meadow.flower_entities@[k] as int;
                    assert(s0.world.velocities[e] is None);
                    assert(s1.world.positions[e] == s0.world.positions[e]);
                }
                assert(s1.meadow.wf(s1.world));
                assert(s1.wf());
            }
        },
        Step::DrawGround => {
            crate::meadow::draw_ground(&stage.settings, &mut stage.frame);
            proof {
                assert(stage@ =~= s1);
                assert(s1.meadow.wf(s1.world));
                assert(s1.wf());
            }
        },
        Step::Barrier => {
            proof {
                assert(stage@ =~= s1);
            }
        },
        Step::DrawFlowers => {
            crate::meadow::draw_flower(
                &stage.world,
                &stage.camera,
                &stage.meadow,
                &stage.settings,
                &mut stage.frame,
            );
            proof {
                assert(stage@ =~= s1);
                assert(s1.meadow.wf(s1.world));
                assert(s1.wf());
            }
        },
        Step::UpdateDestination => {
            crate::bee::update_destination(&mut stage.world, &stage.inputs, &stage.meadow);
            proof {
                assert(stage@ =~= s1);
                assert(s1.meadow.wf(s1.world));
                assert forall|e: int|
                    0 <= e < s1.world.len() implies ((#[trigger] s1.world.bees[e]) matches Some(b)
                    ==> b.wf()) by {
                    if s0.world.bees[e] is Some {
                        assert(s0.world.bees[e]->Some_0.wf());
                    }
                }
                assert(s1.wf());
            }
        },
        Step::HeadForDestination => {
            crate::bee::head_for_destination(&mut stage.world, &stage.settings);
            proof {
                assert(stage@ =~= s1);
                assert(s1.meadow.wf(s1.world));
                assert forall|e: int|
                    0 <= e < s1.world.len() implies ((#[trigger] s1.world.bees[e]) matches Some(b)
                    ==> b.wf()) by {
                    if s0.world.bees[e] is Some {
                        assert(s0.world.bees[e]->Some_0.wf());
                    }
                }
                assert(s1.wf());
            }
        },
        Step::Fly => {
            crate::bee::fly(&mut stage.world, &stage.clock, &stage.settings);
            proof {
                assert(stage@ =~= s1);
                assert forall|k: int| 0 <= k < s1.meadow.flower_entities@.len() implies {
                    let e = (#[trigger] s1.meadow.flower_entities@[k]) as int;
                    &&& e < s1.world.len()
                    &&& s1.world.flowers[e] is Some
                    &&& s1.world.positions[e] is Some
                    &&& s1.world.velocities[e] is None
                    &&& s1.world.flowers[e]->Some_0.wf()
                    &&& s1.world.flowers[e]->Some_0.radius.raw > 0
                    &&& s1.world.positions[e]->Some_0.0.wf()
                    &&& crate::index::index_boxes(s1.meadow.flower_index)[k]
                        == crate::meadow::flower_box(
                        s1.world.positions[e]->Some_0.0,
                        s1.world.flowers[e]->Some_0.radius,
                    )
                } by {
                    let e = s0.meadow.flower_entities@[k] as int;
                    assert(s0.world.velocities[e] is None);
                    assert(s1.world.velocities[e] == s0.world.velocities[e]);
                }
                assert(s1.meadow.wf(s1.world));
                assert forall|e: int|
                    0 <= e < s1.world.len() implies ((#[trigger] s1.world.velocities[e]) matches
                    Some(v) ==> v.0.wf()) by {
                    if s0.world.velocities[e] is Some {
                        assert(s0.world.velocities[e]->Some_0.0.wf());
                    }
                }
                assert(s1.wf());
            }
        },
        Step::FoundFlower => {
            let r = crate::bee::found_flower(
                &mut stage.world,
                &stage.the_bee,
                &stage.meadow,
                &stage.settings,
            );
            match r {
                Ok(()) => {},
                Err(_) => vstd::pervasive::unreached(),
            }
            proof {
                assert(stage@ =~= s1);
                assert forall|k: int| 0 <= k < s1.meadow.flower_entities@.len() implies {
                    let e = (#[trigger] s1.meadow.flower_entities@[k]) as int;
                    &&& e < s1.world.len()
                    &&& s1.world.flowers[e] is Some
                    &&& s1.world.positions[e] is Some
                    &&& s1.world.velocities[e] is None
                    &&& s1.world.flowers[e]->Some_0.wf()
                    &&& s1.world.flowers[e]->Some_0.radius.raw > 0
                    &&& s1.world.positions[e]->Some_0.0.wf()
                    &&& crate::index::index_boxes(s1.meadow.flower_index)[k]
                        == crate::meadow::flower_box(
                        s1.world.positions[e]->Some_0.0,
                        s1.world.flowers[e]->Some_0.radius,
                    )
                } by {
                    let e = s0.meadow.flower_entities@[k] as int;
                    assert(s0.world.flowers[e] is Some);
                    assert(s1.world.flowers[e]->Some_0.radius == s0.world.flowers[e]->Some_0.radius);
                }
                assert(s1.meadow.wf(s1.world));
                assert forall|e: int|
                    0 <= e < s1.world.len() implies ((#[trigger] s1.world.bees[e]) matches Some(b)
                    ==> b.wf()) by {
                    if s0.world.bees[e] is Some {
                        assert(s0.world.bees[e]->Some_0.wf());
                    }
                }
                assert forall|e: int|
                    0 <= e < s1.world.len() implies ((#[trigger] s1.world.flowers[e]) matches Some(
                    f,
                ) ==> f.wf()) by {
                    if s0.world.flowers[e] is Some {
                        assert(s0.world.flowers[e]->Some_0.wf());
                    }
                }
                assert(s1.wf());
            }
        },
        Step::DrawBee => {
            crate::bee::draw(&stage.world, &stage.clock, &stage.settings, &mut stage.frame);
            proof {
                assert(stage@ =~= s1);
                assert(s1.meadow.wf(s1.world));
                assert(s1.wf());
            }
        },
        Step::DrawScore => {
            crate::bee::draw_score(&stage.world, &stage.settings, &stage.camera, &mut stage.frame);
            proof {
                assert(stage@ =~= s1);
                assert(s1.meadow.wf(s1.world));
                assert(s1.wf());
            }
        },
        Step::FollowBee => {
            let r = crate::camera::follow_bee(
                &stage.world,
                &stage.inputs,
                &mut stage.camera,
                &mut stage.frame,
            );
            match r {
                Ok(()) => {},
                Err(_) => vstd::pervasive::unreached(),
            }
            proof {
                assert(stage@ =~= s1);
                assert(s1.meadow.wf(s1.world));
                assert(s1.wf());
            }
        },
    }
}

/// The stage manager: everything a run needs, plus the registered schedule.
pub struct StageManager {
    pub stage: Stage,
    pub schedule: Vec<Step>,
}

/// The pipeline as the roll calls register it: meadow physics and drawing,
/// barriers between the draw groups, then the bee's routines, then the
/// camera.
pub open spec fn full_schedule() -> Seq<Step> {
    seq![
        Step::UpdatePosition,
        Step::DrawGround,
        Step::Barrier,
        Step::DrawFlowers,
        Step::Barrier,
        Step::UpdateDestination,
        Step::HeadForDestination,
        Step::Fly,
        Step::FoundFlower,
        Step::DrawBee,
        Step::DrawScore,
        Step::FollowBee,
    ]
}

impl StageManager {
    pub open spec fn wf(self) -> bool {
        self.stage@.wf()
    }

    /// Build a fresh world: settings in place, the clock started at `now`,
    /// the meadow populated, the bee spawned and published, the camera on
    /// it, and the schedule registered in order.
    pub fn new(settings: Settings, now: Fx) -> (r: StageManager)
        requires
            settings.wf(),
            now.wf(),
            now.raw >= 0,
        ensures
            r.wf(),
            r.schedule@ == full_schedule(),
            r.stage@.settings == settings,
            r.stage@.clock == (GameClock { time: now, tick: Fx { raw: 0 } }),
            r.stage@.inputs == (Inputs {
                mouse_click: None::<Vec2>,
                screen: Vec2 { x: Fx { raw: 0 }, y: Fx { raw: 0 } },
            }),
            r.stage@.frame == Seq::<DrawCmd>::empty(),
            r.stage@.the_bee.entity == settings.num_flowers * 10,
            r.stage@.world.len() == settings.num_flowers * 10 + 1,
            r.stage@.meadow.size == crate::vec2::v2(
                crate::fx::fx_mul(settings.meadow_height, crate::fx::fx_from_units(100)),
                crate::fx::fx_mul(settings.meadow_width, crate::fx::fx_from_units(100)),
            ),
            forall|i: int|
                0 <= i < r.stage@.meadow.flower_entities@.len() ==> {
                    let e = (#[trigger] r.stage@.meadow.flower_entities@[i]) as int;
                    let f = r.stage@.world.flowers[e]->Some_0;
                    let p = r.stage@.world.positions[e]->Some_0.0;
                    &&& settings.flower_size_min.raw <= f.radius.raw
                        <= settings.flower_size_max.raw
                    &&& !f.collected
                    &&& 0 <= p.x.raw <= r.stage@.meadow.size.x.raw
                    &&& 0 <= p.y.raw <= r.stage@.meadow.size.y.raw
                },
            r.stage@.world.bees[r.stage@.the_bee.entity as int]->Some_0.score == 0,
    {
        let mut world = World::new();
        let mut schedule: Vec<Step> = Vec::new();
        let meadow = crate::meadow::roll_call(&mut world, &mut schedule, &settings);
        let ghost w_mid = world@;
        let the_bee = crate::bee::roll_call(&mut world, &mut schedule, &meadow);
        let ghost nf = settings.num_flowers * 10;
        proof {
            assert forall|e: int|
                0 <= e < world@.len() && e != the_bee.entity implies world@.bees[e] is None by {
                assert(world@.bees[e] == w_mid.bees[e]);
                assert(w_mid.bees[0 + e] is None);
            }
        }
        let camera = match crate::camera::roll_call(&world, &mut schedule) {
            Ok(c) => c,
            Err(_) => {
                proof {
                    crate::camera::lemma_count_singleton(
                        world@,
                        the_bee.entity as int,
                        world@.len() as int,
                    );
                }
                vstd::pervasive::unreached()
            },
        };
        proof {
            crate::camera::lemma_count_singleton(
                world@,
                the_bee.entity as int,
                world@.len() as int,
            );
            assert(camera.bee == the_bee.entity);
        }
        let stage = Stage {
            world,
            settings,
            clock: GameClock { time: now, tick: Fx { raw: 0 } },
            inputs: Inputs { mouse_click: None, screen: Vec2::zero() },
            meadow,
            the_bee,
            camera,
            frame: Vec::new(),
        };
        let r = StageManager { stage, schedule };
        proof {
            let sv = r.stage@;
            assert(sv.frame =~= Seq::<DrawCmd>::empty());
            assert(r.schedule@ =~= full_schedule());
            assert forall|k: int| 0 <= k < sv.meadow.flower_entities@.len() implies {
                let e = (#[trigger] sv.meadow.flower_entities@[k]) as int;
                &&& e < sv.world.len()
                &&& sv.world.flowers[e] is Some
                &&& sv.world.positions[e] is Some
                &&& sv.world.velocities[e] is None
                &&& sv.world.flowers[e]->Some_0.wf()
                &&& sv.world.flowers[e]->Some_0.radius.raw > 0
                &&& sv.world.positions[e]->Some_0.0.wf()
                &&& crate::index::index_boxes(sv.meadow.flower_index)[k]
                    == crate::meadow::flower_box(
                    sv.world.positions[e]->Some_0.0,
                    sv.world.flowers[e]->Some_0.radius,
                )
            } by {
                assert(sv.meadow.flower_entities@[k] == k);
            }
            assert(sv.meadow.wf(sv.world));
            assert forall|e: int|
                0 <= e < sv.world.len() implies ((#[trigger] sv.world.bees[e]) matches Some(b)
                ==> b.wf()) by {
            }
            assert forall|e: int|
                0 <= e < sv.world.len() implies ((#[trigger] sv.world.positions[e]) matches Some(p)
                ==> p.0.wf()) by {
                if e < nf {
                    assert(sv.meadow.flower_entities@[e] == e);
                    assert(sv.world.positions[e]->Some_0.0.wf());
                }
            }
            assert forall|e: int|
                0 <= e < sv.world.len() implies ((#[trigger] sv.world.velocities[e]) matches Some(
                v,
            ) ==> v.0.wf()) by {
                if e < nf {
                    assert(sv.meadow.flower_entities@[e] == e);
                }
            }
            assert forall|e: int|
                0 <= e < sv.world.len() implies ((#[trigger] sv.world.flowers[e]) matches Some(f)
                ==> f.wf()) by {
                if e < nf {
                    assert(sv.meadow.flower_entities@[e] == e);
                }
            }
            assert(sv.wf());
            assert forall|i: int| 0 <= i < sv.meadow.flower_entities@.len() implies {
                let e = (#[trigger] sv.meadow.flower_entities@[i]) as int;
                let f = sv.world.flowers[e]->Some_0;
                let p = sv.world.positions[e]->Some_0.0;
                &&& settings.flower_size_min.raw <= f.radius.raw <= settings.flower_size_max.raw
                &&& !f.collected
                &&& 0 <= p.x.raw <= sv.meadow.size.x.raw
                &&& 0 <= p.y.raw <= sv.meadow.size.y.raw
            } by {
                assert(sv.meadow.flower_entities@[i] == 0 + i);
                assert(sv.world.flowers[i] == w_mid.flowers[i]);
                assert(sv.world.positions[i] == w_mid.positions[i]);
            }
        }
        r
    }

    /// One external tick: refresh the clock and the inputs, then run every
    /// registered routine once, in registration order, barriers respected.
    #[verifier::rlimit(100)]
    pub fn execute(&mut self, now: Fx, click: Option<Vec2>, screen: Vec2)
        requires
            old(self).wf(),
            now.wf(),
            now.raw >= old(self).stage@.clock.time.raw,
            old(self).stage@.clock.time.raw >= 0,
            (click matches Some(c) ==> c.wf()),
            screen.wf(),
        ensures
            final(self).wf(),
            final(self).schedule@ == old(self).schedule@,
            final(self).stage@ == run_seq(
                refreshed(old(self).stage@, now, click, screen),
                old(self).schedule@,
            ),
    {
        let tick = now.sub(self.stage.clock.time);
        self.stage.clock = GameClock { time: now, tick };
        self.stage.inputs = Inputs { mouse_click: click, screen };
        self.stage.frame.clear();
        proof {
            assert(self.stage@ =~= refreshed(old(self).stage@, now, click, screen));
            assert(self.stage@.wf());
        }
        let ghost s0 = self.stage@;
        let n = self.schedule.len();
        let mut k: usize = 0;
        while k < n
            invariant
                n == self.schedule@.len(),
                k <= n,
                self.schedule@ == old(self).schedule@,
                self.stage@ == run_to(s0, self.schedule@, k as int),
                self.stage@.wf(),
            decreases n - k,
        {
            let step = self.schedule[k];
            execute_step(&mut self.stage, step);
            k = k + 1;
        }
    }

    /// A copy of the current configuration.
    pub fn settings(&self) -> (r: Settings)
        ensures
            r == self@.settings,
    {
        self.stage.settings
    }
}

impl View for StageManager {
    type V = StageView;

    open spec fn view(&self) -> StageView {
        self.stage@
    }
}


/// The scheduler's ordering guarantee, stated as composition: the stage
/// after `k + 1` steps is exactly one step applied to the stage after `k`.
/// Every routine therefore observes precisely the writes of the routines
/// registered before it in the same tick — the last value written, never a
/// stale or default one — and everything before a barrier has fully
/// happened when the steps after it run.
pub proof fn lemma_run_to_composes(s: StageView, steps: Seq<Step>, k: int)
    requires
        0 <= k < steps.len(),
    ensures
        run_to(s, steps, k + 1) == run_step(run_to(s, steps, k), steps[k]),
{
}

/// One step never clears a collected flag.
proof fn lemma_collected_monotonic_step(s: StageView, step: Step, e: int)
    requires
        0 <= e < s.world.flowers.len(),
        s.world.flowers[e] matches Some(f) && f.collected,
    ensures
        run_step(s, step).world.flowers.len() == s.world.flowers.len(),
        run_step(s, step).world.flowers[e] matches Some(f2) && f2.collected,
{
}

proof fn lemma_collected_monotonic_to(s: StageView, steps: Seq<Step>, k: int, e: int)
    requires
        0 <= e < s.world.flowers.len(),
        s.world.flowers[e] matches Some(f) && f.collected,
    ensures
        run_to(s, steps, k).world.flowers.len() == s.world.flowers.len(),
        run_to(s, steps, k).world.flowers[e] matches Some(f2) && f2.collected,
    decreases k,
{
    if k > 0 {
        lemma_collected_monotonic_to(s, steps, k - 1, e);
        lemma_collected_monotonic_step(run_to(s, steps, k - 1), steps[k - 1], e);
    }
}

/// The collected flag is monotonic: once a flower is collected, no sequence
/// of further ticks — each a clock/input refresh followed by any schedule of
/// steps — ever sets it back to false.
pub proof fn lemma_collected_monotonic(
    s: StageView,
    now: Fx,
    click: Option<Vec2>,
    screen: Vec2,
    steps: Seq<Step>,
    e: int,
)
    requires
        0 <= e < s.world.flowers.len(),
        s.world.flowers[e] matches Some(f) && f.collected,
    ensures
        run_seq(refreshed(s, now, click, screen), steps).world.flowers.len()
            == s.world.flowers.len(),
        run_seq(refreshed(s, now, click, screen), steps).world.flowers[e] matches Some(f2)
            && f2.collected,
{
    lemma_collected_monotonic_to(
        refreshed(s, now, click, screen),
        steps,
        steps.len() as int,
        e,
    );
}

/// When every hit flower is already collected, a collision pass collects
/// nothing new.
proof fn lemma_no_new_hits(w: WorldView, m: Meadow, hb: Quad, k: int)
    requires
        forall|e: int|
            #[trigger] crate::bee::bee_hit(w, m, hb, e) ==> w.flowers[e]->Some_0.collected,
    ensures
        crate::bee::new_hits_upto(w, m, hb, k) == 0,
    decreases k,
{
    if k > 0 {
        lemma_no_new_hits(w, m, hb, k - 1);
    }
}

/// Re-running the collision test is idempotent: against a stage that has
/// already been through one collision pass, a second pass has no observable
/// effect — no flag changes, and the score does not grow again for the same
/// flowers.
pub proof fn lemma_found_flower_idempotent(s: StageView)
    requires
        s.wf(),
    ensures
        run_step(run_step(s, Step::FoundFlower), Step::FoundFlower) == run_step(
            s,
            Step::FoundFlower,
        ),
{
    let w = s.world;
    let tb = s.the_bee;
    let m = s.meadow;
    let st = s.settings;
    let b0 = w.bees[tb.entity as int]->Some_0;
    let p0 = w.positions[tb.entity as int]->Some_0;
    let hb = crate::bee::bee_transform(b0, p0.0, st, crate::bee::bee_hitbox_rect());
    let w1 = crate::bee::found_flower_world(w, tb, m, st);
    let b1 = w1.bees[tb.entity as int]->Some_0;
    assert(b1.thrust == b0.thrust && b1.destination == b0.destination);
    let p1 = w1.positions[tb.entity as int]->Some_0;
    let hb1 = crate::bee::bee_transform(b1, p1.0, st, crate::bee::bee_hitbox_rect());
    assert(hb1 == hb);
    assert forall|e: int| #[trigger]
        crate::bee::bee_hit(w1, m, hb, e) == crate::bee::bee_hit(w, m, hb, e) by {
        if 0 <= e < w.flowers.len() {
            assert(w1.flowers[e] is Some <==> w.flowers[e] is Some);
            if w.flowers[e] is Some {
                assert(w1.flowers[e]->Some_0.radius == w.flowers[e]->Some_0.radius);
            }
        }
    }
    assert forall|e: int| #[trigger]
        crate::bee::bee_hit(w1, m, hb, e) implies w1.flowers[e]->Some_0.collected by {
        assert(crate::bee::bee_hit(w, m, hb, e));
    }
    lemma_no_new_hits(w1, m, hb, m.flower_entities@.len() as int);
    assert(crate::bee::new_hits(w1, m, hb1) == 0);
    assert(crate::bee::score_saturate(b1.score, 0) == b1.score);
    assert(crate::bee::collected_flowers(w1, m, hb1) =~= w1.flowers);
    assert(w1.bees.update(
        tb.entity as int,
        Some(Bee { destination: b1.destination, thrust: b1.thrust, score: b1.score }),
    ) =~= w1.bees);
    let w2 = crate::bee::found_flower_world(w1, tb, m, st);
    assert(w2 =~= w1);
    assert(run_step(run_step(s, Step::FoundFlower), Step::FoundFlower) =~= run_step(
        s,
        Step::FoundFlower,
    ));
}

} // verus!
