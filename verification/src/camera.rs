//! The camera: follows the bee, zooming out with speed.  Mapping screen
//! points back into the world is the host's business; the core only computes
//! the display rectangle.

use vstd::prelude::*;

use crate::backstage::{DrawCmd, Step};
use crate::fx::{fx_from_units, fx_max, Fx};
use crate::prelude::{EntityId, Error, Inputs, Position, Rect, Velocity};
use crate::store::{World, WorldView};
use crate::vec2::{v_add, v_div_s, v_length, v_normalize, v_scale, v_sub};

verus! {

/// The camera resource: which entity it follows and the display rectangle it
/// last computed.
#[derive(Clone, Copy, Debug, PartialEq, Eq, Structural)]
pub struct Camera {
    pub bee: EntityId,
    pub rect: Rect,
}

/// What `follow_bee` assumes present: the followed entity with a position
/// and a velocity.
pub open spec fn camera_ready(w: WorldView, camera: Camera) -> bool {
    &&& camera.bee < w.len()
    &&& w.positions[camera.bee as int] is Some
    &&& w.velocities[camera.bee as int] is Some
}

/// Where the camera looks after one tick: a rectangle shaped like the
/// screen, grown with the bee's speed (never tighter than a floor of 40
/// units), centered ahead of the bee by its velocity.
pub open spec fn follow_camera(pos: Position, vel: Velocity, inputs: Inputs, camera: Camera) -> Camera {
    let aspect = v_scale(
        v_scale(v_normalize(inputs.screen), fx_max(v_length(vel.0), fx_from_units(40))),
        fx_from_units(5),
    );
    let target = v_sub(v_add(pos.0, vel.0), v_div_s(aspect, fx_from_units(2)));
    Camera {
        bee: camera.bee,
        rect: Rect { x: target.x, y: target.y, w: aspect.x, h: aspect.y },
    }
}

/// Recompute the display rectangle from the bee's position and velocity and
/// hand it to the presentation layer.
pub fn follow_bee(
    world: &World,
    inputs: &Inputs,
    camera: &mut Camera,
    frame: &mut Vec<DrawCmd>,
) -> (r: Result<(), Error>)
    requires
        world.wf(),
        inputs.screen.wf(),
        forall|e: int|
            0 <= e < world@.len() ==> ((#[trigger] world@.positions[e]) matches Some(p)
                ==> p.0.wf()),
        forall|e: int|
            0 <= e < world@.len() ==> ((#[trigger] world@.velocities[e]) matches Some(v)
                ==> v.0.wf()),
    ensures
        r is Ok <==> camera_ready(world@, *old(camera)),
        r is Err ==> *final(camera) == *old(camera) && final(frame)@ == old(frame)@ && r->Err_0
            == Error::ConfigurationViolation,
        r is Ok ==> *final(camera) == follow_camera(
            world@.positions[old(camera).bee as int]->Some_0,
            world@.velocities[old(camera).bee as int]->Some_0,
            *inputs,
            *old(camera),
        ),
        r is Ok ==> final(frame)@ == old(frame)@.push(
            DrawCmd::SetCamera { rect: final(camera).rect },
        ),
        final(camera).rect.wf() || r is Err,
{
    let cb = camera.bee;
    if cb >= world.len() {
        return Err(Error::ConfigurationViolation);
    }
    let p = match world.get_position(cb) {
        Some(p) => p,
        None => { return Err(Error::ConfigurationViolation); },
    };
    let v = match world.get_velocity(cb) {
        Some(v) => v,
        None => { return Err(Error::ConfigurationViolation); },
    };
    let aspect = inputs.screen.normalize_or_east().scale(
        v.0.length().max(Fx::from_units(40)),
    ).scale(Fx::from_units(5));
    let target = p.0.add(v.0).sub(aspect.div_s(Fx::from_units(2)));
    let rect = Rect { x: target.x, y: target.y, w: aspect.x, h: aspect.y };
    camera.rect = rect;
    frame.push(DrawCmd::SetCamera { rect });
    Ok(())
}

/// How many entities of the first `n` carry bee state.
pub open spec fn bee_count_upto(w: WorldView, n: int) -> nat
    decreases n,
{
    if n <= 0 {
        0
    } else {
        bee_count_upto(w, n - 1) + (if w.bees[n - 1] is Some {
            1nat
        } else {
            0nat
        })
    }
}

/// An arena with exactly one bee, at `b`, counts to one.
pub proof fn lemma_count_singleton(w: WorldView, b: int, n: int)
    requires
        0 <= b < w.bees.len(),
        w.bees[b] is Some,
        forall|e: int| 0 <= e < w.bees.len() && e != b ==> w.bees[e] is None,
        0 <= n <= w.bees.len(),
    ensures
        bee_count_upto(w, n) == if b < n {
            1nat
        } else {
            0nat
        },
    decreases n,
{
    if n > 0 {
        lemma_count_singleton(w, b, n - 1);
    }
}

/// Resolve the singleton bee the camera follows — exactly one entity must
/// carry bee state, anything else is a setup defect — and register the
/// follow routine.
pub fn roll_call(world: &World, schedule: &mut Vec<Step>) -> (r: Result<Camera, Error>)
    requires
        world.wf(),
    ensures
        r is Ok <==> bee_count_upto(world@, world@.len() as int) == 1,
        r is Err ==> final(schedule)@ == old(schedule)@ && r->Err_0
            == Error::ConfigurationViolation,
        r is Ok ==> {
            let cam = r->Ok_0;
            &&& cam.bee < world@.len()
            &&& world@.bees[cam.bee as int] is Some
            &&& cam.rect == (Rect {
                x: Fx { raw: 0 },
                y: Fx { raw: 0 },
                w: Fx { raw: 0 },
                h: Fx { raw: 0 },
            })
            &&& final(schedule)@ == old(schedule)@.push(Step::FollowBee)
        },
{
    let n = world.len();
    let mut count: usize = 0;
    let mut found: usize = 0;
    let mut e: usize = 0;
    while e < n
        invariant
            world.wf(),
            n == world@.len(),
            e <= n,
            count == bee_count_upto(world@, e as int),
            count <= e,
            count > 0 ==> found < e && world@.bees[found as int] is Some,
        decreases n - e,
    {
        match world.get_bee(e) {
            Some(_) => {
                count = count + 1;
                if count == 1 {
                    found = e;
                }
            }
            None => {}
        }
        e = e + 1;
    }
    if count != 1 {
        return Err(Error::ConfigurationViolation);
    }
    let camera = Camera {
        bee: found,
        rect: Rect { x: Fx { raw: 0 }, y: Fx { raw: 0 }, w: Fx { raw: 0 }, h: Fx { raw: 0 } },
    };
    schedule.push(Step::FollowBee);
    Ok(camera)
}

} // verus!
