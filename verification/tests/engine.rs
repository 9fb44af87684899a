//! The scheduler pipeline end to end: ticking, collecting, idempotence,
//! monotonicity, draw output, and the failure modes.

use bumble::backstage::{DrawCmd, Stage, StageManager, Step};
use bumble::bee::{found_flower, Bee};
use bumble::camera::{follow_bee, roll_call, Camera};
use bumble::fx::{Fx, SCALE};
use bumble::meadow::{Flower, Meadow};
use bumble::prelude::{Color, Error, GameClock, Inputs, Position, Rect, TheBee, Velocity};
use bumble::settings::Settings;
use bumble::store::World;
use bumble::vec2::Vec2;

fn zero_rect() -> Rect {
    Rect::new(Fx { raw: 0 }, Fx { raw: 0 }, Fx { raw: 0 }, Fx { raw: 0 })
}

fn pipeline() -> Vec<Step> {
    vec![
        Step::UpdatePosition,
        Step::DrawGround,
        Step::Barrier,
        Step::DrawFlowers,
        Step::Barrier,
        Step::UpdateDestination,
        Step::HeadForDestination,
        Step::Fly,
        Step::FoundFlower,
        Step::DrawBee,
        Step::DrawScore,
        Step::FollowBee,
    ]
}

/// A deterministic world: the given flowers, and one bee starting at
/// `bee_pos` heading for `destination`.
fn test_stage(
    field: Vec<(Vec2, Fx, Color)>,
    size: Vec2,
    bee_pos: Vec2,
    destination: Vec2,
    settings: Settings,
) -> StageManager {
    let mut world = World::new();
    let meadow = Meadow::from_field(&mut world, size, &field);
    let entity = world.create(
        Some(Position(bee_pos)),
        Some(Velocity(Vec2::zero())),
        Some(Bee { destination, thrust: Vec2::zero(), score: 0 }),
        None,
    );
    StageManager {
        stage: Stage {
            world,
            settings,
            clock: GameClock { time: Fx { raw: 0 }, tick: Fx { raw: 0 } },
            inputs: Inputs { mouse_click: None, screen: Vec2::from_units(800, 600) },
            meadow,
            the_bee: TheBee { entity },
            camera: Camera { bee: entity, rect: zero_rect() },
            frame: Vec::new(),
        },
        schedule: pipeline(),
    }
}

fn bee_distance_to(sm: &StageManager, target: (f64, f64)) -> f64 {
    let e = sm.stage.the_bee.entity;
    let p = sm.stage.world.get_position(e).unwrap().0;
    let x = p.x.raw as f64 / SCALE as f64;
    let y = p.y.raw as f64 / SCALE as f64;
    ((x - target.0).powi(2) + (y - target.1).powi(2)).sqrt()
}

fn the_flower(sm: &StageManager) -> Flower {
    let e = sm.stage.meadow.flower_entities[0];
    sm.stage.world.get_flower(e).unwrap()
}

fn bee_score(sm: &StageManager) -> u32 {
    sm.stage.world.get_bee(sm.stage.the_bee.entity).unwrap().score
}

/// End-to-end scenario: one collectible at (50,50) with radius 10, the bee
/// from (0,0) heading there, fixed timestep 1/60, max thrust 100, drag 0.7,
/// mass 1.  The bee closes in with strictly decreasing distance (after the
/// initial transient), the flower becomes collected exactly once, and
/// staying on it afterwards changes nothing.
#[test]
fn end_to_end_collects_the_flower() {
    let mut settings = Settings::default();
    settings.mass = Fx::from_units(1);
    settings.max_thrust = Fx::from_units(100);
    settings.wind_resistance = Fx::from_units(70);  // drag coefficient 0.7
    let field = vec![(
        Vec2::from_units(50, 50),
        Fx::from_units(10),
        Color::new(250, 200, 0, 255),
    )];
    let mut sm = test_stage(
        field,
        Vec2::from_units(1000, 1000),
        Vec2::zero(),
        Vec2::from_units(50, 50),
        settings,
    );
    let dt: i64 = SCALE / 60;  // one tick of a 60 Hz clock
    let mut now: i64 = 0;
    let mut dist_log: Vec<f64> = Vec::new();
    let mut collected_at: Option<usize> = None;
    for tick in 0..3600 {
        now += dt;
        sm.execute(Fx { raw: now }, None, Vec2::from_units(800, 600));
        dist_log.push(bee_distance_to(&sm, (50.0, 50.0)));
        if collected_at.is_none() && the_flower(&sm).collected {
            collected_at = Some(tick);
        }
    }
    let hit = collected_at.expect("the bee never collected the flower");
    // the approach is strictly decreasing tick-over-tick until the flower
    // is reached (distance within the radius), once the transient is over
    let mut reach = hit;
    for i in 0..hit {
        if dist_log[i] <= 10.0 {
            reach = i;
            break;
        }
    }
    for i in 3..reach {
        assert!(
            dist_log[i] < dist_log[i - 1],
            "distance grew at tick {}: {} -> {}",
            i,
            dist_log[i - 1],
            dist_log[i]
        );
    }
    // collected exactly once: the score counted it a single time...
    assert_eq!(bee_score(&sm), 1);
    assert!(the_flower(&sm).collected);
    // ...and further ticks on top of the flower change neither flag nor
    // score (idempotence), nor does the flag ever revert (monotonicity)
    for _ in 0..120 {
        now += dt;
        sm.execute(Fx { raw: now }, None, Vec2::from_units(800, 600));
        assert!(the_flower(&sm).collected);
        assert_eq!(bee_score(&sm), 1);
    }
}

/// The collision pass alone, run twice against an overlapping, already
/// collected flower: no observable effect the second time.
#[test]
fn found_flower_is_idempotent() {
    let field = vec![(
        Vec2::from_units(0, 0),
        Fx::from_units(10),
        Color::new(250, 200, 0, 255),
    )];
    let mut sm = test_stage(
        field,
        Vec2::from_units(100, 100),
        Vec2::zero(),
        Vec2::from_units(1, 0),
        Settings::default(),
    );
    let tb = sm.stage.the_bee;
    let r1 = found_flower(&mut sm.stage.world, &tb, &sm.stage.meadow, &sm.stage.settings);
    assert_eq!(r1, Ok(()));
    assert!(the_flower(&sm).collected);
    assert_eq!(bee_score(&sm), 1);
    let r2 = found_flower(&mut sm.stage.world, &tb, &sm.stage.meadow, &sm.stage.settings);
    assert_eq!(r2, Ok(()));
    assert!(the_flower(&sm).collected);
    assert_eq!(bee_score(&sm), 1, "the score must not grow twice for one flower");
}

/// With a bee size so small that the scale truncates to zero, the hitbox
/// collapses to the bee's position.  A collapsed hitbox must collect only
/// flowers whose circles truly reach that point, not every broad-phase
/// candidate.
#[test]
fn collapsed_hitbox_does_not_over_collect() {
    let field = vec![
        // box overlaps the bee's position, circle does not reach it:
        // sqrt(32) > 5
        (Vec2::from_units(4, 4), Fx::from_units(5), Color::new(250, 200, 0, 255)),
        // circle reaches it: sqrt(18) < 5
        (Vec2::from_units(3, 3), Fx::from_units(5), Color::new(250, 200, 0, 255)),
    ];
    let mut settings = Settings::default();
    settings.bee_size = Fx { raw: 500 };  // scale 500/1000 of a raw step: truncates to zero
    let mut sm = test_stage(
        field,
        Vec2::from_units(100, 100),
        Vec2::zero(),
        Vec2::from_units(1, 0),
        settings,
    );
    let tb = sm.stage.the_bee;
    let r = found_flower(&mut sm.stage.world, &tb, &sm.stage.meadow, &sm.stage.settings);
    assert_eq!(r, Ok(()));
    let far = sm.stage.meadow.flower_entities[0];
    let near = sm.stage.meadow.flower_entities[1];
    assert!(!sm.stage.world.get_flower(far).unwrap().collected);
    assert!(sm.stage.world.get_flower(near).unwrap().collected);
    assert_eq!(bee_score(&sm), 1);
}

#[test]
fn found_flower_without_bee_is_configuration_violation() {
    let mut world = World::new();
    let field = vec![(
        Vec2::from_units(5, 5),
        Fx::from_units(2),
        Color::new(250, 200, 0, 255),
    )];
    let meadow = Meadow::from_field(&mut world, Vec2::from_units(100, 100), &field);
    // entity 0 is a flower, not a bee
    let the_bee = TheBee { entity: 0 };
    let r = found_flower(&mut world, &the_bee, &meadow, &Settings::default());
    assert_eq!(r, Err(Error::ConfigurationViolation));
    // an identity out of range fails the same way
    let ghost_bee = TheBee { entity: 999 };
    let r2 = found_flower(&mut world, &ghost_bee, &meadow, &Settings::default());
    assert_eq!(r2, Err(Error::ConfigurationViolation));
}

#[test]
fn follow_bee_without_velocity_is_configuration_violation() {
    let mut world = World::new();
    let e = world.create(Some(Position(Vec2::zero())), None, None, None);
    let mut camera = Camera { bee: e, rect: zero_rect() };
    let mut frame: Vec<DrawCmd> = Vec::new();
    let inputs = Inputs { mouse_click: None, screen: Vec2::from_units(800, 600) };
    let r = follow_bee(&world, &inputs, &mut camera, &mut frame);
    assert_eq!(r, Err(Error::ConfigurationViolation));
    assert!(frame.is_empty());
}

#[test]
fn camera_roll_call_needs_exactly_one_bee() {
    let mut world = World::new();
    let mut schedule: Vec<Step> = Vec::new();
    // no bee at all
    assert_eq!(roll_call(&world, &mut schedule), Err(Error::ConfigurationViolation));
    let b = Bee { destination: Vec2::zero(), thrust: Vec2::zero(), score: 0 };
    let e0 = world.create(Some(Position(Vec2::zero())), Some(Velocity(Vec2::zero())), Some(b), None);
    let cam = roll_call(&world, &mut schedule).unwrap();
    assert_eq!(cam.bee, e0);
    assert_eq!(schedule, vec![Step::FollowBee]);
    // a second bee is a setup defect
    world.create(Some(Position(Vec2::zero())), Some(Velocity(Vec2::zero())), Some(b), None);
    assert_eq!(roll_call(&world, &mut schedule), Err(Error::ConfigurationViolation));
}

/// One tick's draw output, in draw order: ground first, then the visible
/// flower, the bee's sprite, the score overlay, and the camera update last.
#[test]
fn tick_emits_draw_commands_in_order() {
    let field = vec![(
        Vec2::from_units(0, 0),
        Fx::from_units(5),
        Color::new(9, 8, 7, 255),
    )];
    let mut sm = test_stage(
        field,
        Vec2::from_units(100, 100),
        Vec2::from_units(60, 60),
        Vec2::from_units(60, 60),
        Settings::default(),
    );
    sm.execute(Fx { raw: SCALE }, None, Vec2::from_units(800, 600));
    let frame = &sm.stage.frame;
    assert!(frame.len() >= 4);
    assert!(matches!(frame[0], DrawCmd::Ground { color } if color == Settings::default().meadow_color));
    // the initial camera rectangle sits at the origin, so the flower there
    // is visible; it is not collected, so its core carries the uncollected
    // color
    assert!(matches!(
        frame[1],
        DrawCmd::Flower { radius, core_color, .. }
            if radius == Fx::from_units(5)
                && core_color == Settings::default().flower_uncollected_color
    ));
    // at one second with animation speed 30 and 8 frames, the loop shows
    // frame 30 mod 8 = 6
    assert!(matches!(frame[frame.len() - 3], DrawCmd::BeeSprite { frame: 6, .. }));
    assert!(matches!(frame[frame.len() - 2], DrawCmd::Score { score: 0, .. }));
    assert!(matches!(frame[frame.len() - 1], DrawCmd::SetCamera { .. }));
}

#[test]
fn click_redirects_the_bee_clamped_to_field() {
    let mut sm = test_stage(
        Vec::new(),
        Vec2::from_units(100, 100),
        Vec2::from_units(50, 50),
        Vec2::from_units(50, 50),
        Settings::default(),
    );
    // a click outside the field is clamped onto its edge
    sm.execute(
        Fx { raw: SCALE / 60 },
        Some(Vec2::from_units(500, -20)),
        Vec2::from_units(800, 600),
    );
    let bee = sm.stage.world.get_bee(sm.stage.the_bee.entity).unwrap();
    assert_eq!(bee.destination, Vec2::from_units(100, 0));
}

#[test]
fn settings_quit_and_restart_latch() {
    let mut s = Settings::default();
    assert!(!s.want_quit());
    s.quit = true;
    assert!(s.want_quit());
    // reading the latch clears it
    assert!(!s.want_quit());
    s.restart = true;
    assert!(s.want_restart());
    assert!(!s.want_restart());
    // a pending quit also asks for a restart, without clearing the quit
    s.quit = true;
    assert!(s.want_restart());
    assert!(s.want_quit());
}

#[test]
fn default_settings_baseline() {
    let s = Settings::default();
    assert_eq!(s.num_flowers, 300);
    assert_eq!(s.mass, Fx::from_units(1));
    assert_eq!(s.max_thrust, Fx::from_units(100));
    assert_eq!(s.wind_resistance, Fx::from_units(70));
    assert_eq!(s.flower_size_min, Fx::from_units(25));
    assert_eq!(s.flower_size_max, Fx::from_units(40));
    assert!(!s.quit && !s.restart);
}

/// The full random construction path: meadow, bee and camera roll calls,
/// the real index build, and a few live ticks.
#[test]
fn stage_manager_runs_random_world() {
    let mut settings = Settings::default();
    settings.num_flowers = 30;  // a 300-flower field keeps the test quick
    let mut sm = StageManager::new(settings, Fx { raw: 0 });
    assert_eq!(sm.stage.meadow.flower_entities.len(), 300);
    assert_eq!(sm.settings().num_flowers, 30);
    let mut now: i64 = 0;
    for _ in 0..10 {
        now += SCALE / 60;
        sm.execute(Fx { raw: now }, None, Vec2::from_units(800, 600));
    }
    assert!(matches!(sm.stage.frame[0], DrawCmd::Ground { .. }));
    assert!(matches!(sm.stage.frame.last().unwrap(), DrawCmd::SetCamera { .. }));
}
