//! Velocity, acceleration and how a frame advances them.
use vstd::prelude::*;
use crate::fixed::{saturate, saturated, squared};
use crate::vector::Vec3;
use crate::world::{body_ok, Body, Entity, World};

verus! {

/// The square of the speed below which a body that nothing pushes stops.
pub const STOPPED_SPEED: u128 = 2_000_000;

/// Displacement per second.
#[derive(Clone, Copy, Debug, PartialEq, Eq)]
pub struct Velocity(pub Vec3);

/// What changes a body's velocity: a push, a drag against the motion and a
/// limit on the speed.
#[derive(Clone, Copy, Debug, PartialEq, Eq)]
pub struct Acceleration {
    pub acceleration: Vec3,
    pub damping: i32,
    pub max_speed: i32,
}

impl Acceleration {
    pub fn new(acceleration: Vec3, damping: i32, max_speed: i32) -> (r: Self)
        ensures
            r == (Acceleration { acceleration, damping, max_speed }),
    {
        Acceleration { acceleration, damping, max_speed }
    }
}

/// Turning rates about the body's own axes, in thousandths of a radian per second.
#[derive(Clone, Copy, Debug, PartialEq, Eq)]
pub struct Roller {
    pub roll: Vec3,
}

impl Roller {
    pub fn new(roll: i32, pitch: i32, yaw: i32) -> (r: Self)
        ensures
            r == (Roller { roll: Vec3 { x: roll, y: pitch, z: yaw } }),
    {
        Roller { roll: Vec3 { x: roll, y: pitch, z: yaw } }
    }
}

impl Acceleration {
    /// The velocity after `delta` nanoseconds. A body that nothing pushes and
    /// that is slow enough stops. Else the drag acts against the motion with
    /// the push, the sum acts for the time, and a speed beyond the limit is cut
    /// back to it.
    pub open spec fn applied(&self, velocity: Vec3, delta: u64) -> Vec3 {
        if self.acceleration == Vec3::spec_zero() && velocity.spec_length_squared()
            < STOPPED_SPEED {
            Vec3::spec_zero()
        } else {
            let drag = velocity.spec_with_length(saturated(-self.damping) as i32);
            let faster = velocity.spec_plus(
                self.acceleration.spec_plus(drag).spec_over_time(delta),
            );
            if faster.spec_length_squared() > self.max_speed * self.max_speed {
                faster.spec_with_length(self.max_speed)
            } else {
                faster
            }
        }
    }

    #[verifier::when_used_as_spec(applied)]
    pub fn apply(&self, velocity: Vec3, delta: u64) -> (r: Vec3)
        ensures
            r == self.applied(velocity, delta),
    {
        let pushed: bool = self.acceleration.x != 0 || self.acceleration.y != 0
            || self.acceleration.z != 0;
        if !pushed && velocity.length_squared() < STOPPED_SPEED {
            Vec3::zero()
        } else {
            let drag: Vec3 = velocity.with_length(saturate(-(self.damping as i128)));
            let faster: Vec3 = velocity.plus(self.acceleration.plus(drag).over_time(delta));
            if faster.length_squared() > squared(self.max_speed) {
                faster.with_length(self.max_speed)
            } else {
                faster
            }
        }
    }
}

impl Velocity {
    /// Where a body at `translation` is after `delta` nanoseconds.
    pub open spec fn carried(&self, translation: Vec3, delta: u64) -> Vec3 {
        translation.spec_plus(self.0.spec_over_time(delta))
    }

    #[verifier::when_used_as_spec(carried)]
    pub fn carry(&self, translation: Vec3, delta: u64) -> (r: Vec3)
        ensures
            r == self.carried(translation, delta),
    {
        translation.plus(self.0.over_time(delta))
    }
}

/// The body after `delta` nanoseconds of acceleration: unchanged where it
/// lacks a velocity or an acceleration.
pub open spec fn accelerated(body: Body, delta: u64) -> Body {
    match (body.velocity, body.acceleration) {
        (Some(velocity), Some(acceleration)) => Body {
            velocity: Some(Velocity(acceleration.applied(velocity.0, delta))),
            ..body
        },
        _ => body,
    }
}

/// The body after `delta` nanoseconds of motion: unchanged where it has no velocity.
pub open spec fn moved(body: Body, delta: u64) -> Body {
    match body.velocity {
        Some(velocity) => Body { translation: velocity.carried(body.translation, delta), ..body },
        None => body,
    }
}

/// The bodies after each has had `delta` nanoseconds of acceleration.
pub open spec fn after_update_velocity(bodies: Seq<Option<Body>>, delta: u64) -> Seq<Option<Body>> {
    Seq::new(
        bodies.len(),
        |i: int|
            match bodies[i] {
                Some(body) => Some(accelerated(body, delta)),
                None => None,
            },
    )
}

/// The bodies after each has had `delta` nanoseconds of motion.
pub open spec fn after_update_position(bodies: Seq<Option<Body>>, delta: u64) -> Seq<Option<Body>> {
    Seq::new(
        bodies.len(),
        |i: int|
            match bodies[i] {
                Some(body) => Some(moved(body, delta)),
                None => None,
            },
    )
}

/// Gives every body that has a velocity and an acceleration its velocity
/// after `delta` nanoseconds.
pub fn update_velocity(world: &mut World, delta: u64)
    requires
        old(world).wf(),
    ensures
        final(world).wf(),
        final(world)@ == after_update_velocity(old(world)@, delta),
{
    let ghost before = world@;
    let n: usize = world.len();
    let mut i: usize = 0;
    while i < n
        invariant
            n == before.len(),
            world@.len() == n,
            i <= n,
            world.wf(),
            forall|k: int| 0 <= k < i ==> world@[k] == #[trigger] after_update_velocity(before, delta)[k],
            forall|k: int| i <= k < n ==> #[trigger] world@[k] == before[k],
        decreases n - i,
    {
        match world.at(i) {
            Some(body) => match body.velocity {
                Some(velocity) => match body.acceleration {
                    Some(acceleration) => {
                        proof {
                            assert(body_ok(world@, i as int));
                        }
                        world.change(
                            Entity(i as u64),
                            Body { velocity: Some(Velocity(acceleration.apply(velocity.0, delta))), ..body },
                        );
                    },
                    None => {},
                },
                None => {},
            },
            None => {},
        }
        i += 1;
    }
    assert(world@ =~= after_update_velocity(before, delta));
}

/// Moves every body that has a velocity by what it covers in `delta` nanoseconds.
pub fn update_position(world: &mut World, delta: u64)
    requires
        old(world).wf(),
    ensures
        final(world).wf(),
        final(world)@ == after_update_position(old(world)@, delta),
{
    let ghost before = world@;
    let n: usize = world.len();
    let mut i: usize = 0;
    while i < n
        invariant
            n == before.len(),
            world@.len() == n,
            i <= n,
            world.wf(),
            forall|k: int| 0 <= k < i ==> world@[k] == #[trigger] after_update_position(before, delta)[k],
            forall|k: int| i <= k < n ==> #[trigger] world@[k] == before[k],
        decreases n - i,
    {
        match world.at(i) {
            Some(body) => match body.velocity {
                Some(velocity) => {
                    proof {
                        assert(body_ok(world@, i as int));
                    }
                    world.change(
                        Entity(i as u64),
                        Body { translation: velocity.carry(body.translation, delta), ..body },
                    );
                },
                None => {},
            },
            None => {},
        }
        i += 1;
    }
    assert(world@ =~= after_update_position(before, delta));
}

} // verus!
