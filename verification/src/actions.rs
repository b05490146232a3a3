//! Ways in which an enemy moves: along a sine, after a target, adrift, and
//! set off by the player coming near.
use vstd::prelude::*;
use crate::fixed::{squared, NANOS_PER_SECOND, UNIT};
use crate::random::random_in;
use crate::timer::{saturating_sum, Stopwatch, Timer, TimerMode};
use crate::vector::Vec3;
use crate::world::Entity;

verus! {

/// Swings a body's velocity along `axis` as a sine of the time it has lived.
#[derive(Clone, Copy, Debug, PartialEq, Eq)]
pub struct SinePath {
    pub axis: Vec3,
    /// Radians of phase per second, in thousandths.
    pub multiplier: i32,
    pub offset: i32,
    pub live_time: Stopwatch,
}

impl SinePath {
    pub fn new(axis: Vec3, multiplier: i32, offset: i32) -> (r: Self)
        ensures
            r == (SinePath { axis, multiplier, offset, live_time: Stopwatch { elapsed: 0 } }),
    {
        SinePath { axis, multiplier, offset, live_time: Stopwatch::new() }
    }

    /// The phase after `elapsed` nanoseconds, in thousandths of a radian,
    /// rounded toward zero.
    pub open spec fn phase_at(&self, elapsed: u64) -> int {
        crate::fixed::mul_div_of(elapsed as int, self.multiplier as int, NANOS_PER_SECOND as int)
    }

    /// Lets `delta` nanoseconds pass and gives the phase reached. The sine of
    /// the phase is for the host to take; [`SinePath::velocity`] makes the
    /// velocity of it.
    pub fn advance(&mut self, delta: u64) -> (phase: i128)
        ensures
            final(self).live_time.elapsed == saturating_sum(old(self).live_time.elapsed, delta),
            final(self).axis == old(self).axis,
            final(self).multiplier == old(self).multiplier,
            final(self).offset == old(self).offset,
            phase == final(self).phase_at(final(self).live_time.elapsed),
    {
        self.live_time.tick(delta);
        crate::fixed::mul_div(
            self.live_time.elapsed as i128,
            self.multiplier as i128,
            NANOS_PER_SECOND as i128,
        )
    }

    /// The velocity where the sine of the phase is `sine`, in thousandths.
    pub fn velocity(&self, sine: i32) -> (r: Vec3)
        ensures
            r == self.axis.spec_scaled(sine),
    {
        self.axis.scaled(sine)
    }
}

/// Steers a body after a target, afresh at each interval.
#[derive(Clone, Copy, Debug, PartialEq, Eq)]
pub struct TrackToTarget {
    pub target: Entity,
    pub linear_acceleration: i32,
    pub update_timer: Timer,
}

/// The push that steers a body at `position` moving with `velocity` after a
/// target at `target_position`: it points from the velocity that the body has
/// to the one that would take it straight at the target at `max_speed`.
pub open spec fn tracking_push(
    position: Vec3,
    velocity: Vec3,
    target_position: Vec3,
    max_speed: i32,
    linear_acceleration: i32,
) -> Vec3 {
    velocity.spec_toward(position.spec_toward(target_position, max_speed), linear_acceleration)
}

impl TrackToTarget {
    pub fn new(target: Entity, linear_acceleration: i32, update_nanos: u64) -> (r: Self)
        ensures
            r == (TrackToTarget {
                target,
                linear_acceleration,
                update_timer: Timer::spec_new(update_nanos, TimerMode::Repeating),
            }),
    {
        TrackToTarget {
            target,
            linear_acceleration,
            update_timer: Timer::new(update_nanos, TimerMode::Repeating),
        }
    }

    /// Lets `delta` nanoseconds pass; says whether it is time to steer afresh.
    pub fn tick(&mut self, delta: u64) -> (due: bool)
        ensures
            *final(self) == (TrackToTarget {
                update_timer: old(self).update_timer.ticked(delta),
                ..*old(self)
            }),
            due == old(self).update_timer.ticked(delta).spec_just_finished(),
    {
        self.update_timer.tick(delta);
        self.update_timer.just_finished()
    }

    /// The push that steers the body after its target.
    pub fn steer(&self, position: Vec3, velocity: Vec3, target_position: Vec3, max_speed: i32) -> (r:
        Vec3)
        ensures
            r == tracking_push(
                position,
                velocity,
                target_position,
                max_speed,
                self.linear_acceleration,
            ),
    {
        velocity.toward(position.toward(target_position, max_speed), self.linear_acceleration)
    }
}

/// Sets off an action when the player comes near. The action is the host's.
#[derive(Clone, Copy, Debug, PartialEq, Eq)]
pub struct PlayerProximityTest {
    pub trigger_distance_squared: u128,
    pub test_timer: Timer,
}

impl PlayerProximityTest {
    pub fn new(trigger_distance_squared: u128, test_frequency_nanos: u64) -> (r: Self)
        ensures
            r == (PlayerProximityTest {
                trigger_distance_squared,
                test_timer: Timer::spec_new(test_frequency_nanos, TimerMode::Repeating),
            }),
    {
        PlayerProximityTest {
            trigger_distance_squared,
            test_timer: Timer::new(test_frequency_nanos, TimerMode::Repeating),
        }
    }

    /// Lets `delta` nanoseconds pass; says whether it is time to test.
    pub fn tick(&mut self, delta: u64) -> (due: bool)
        ensures
            *final(self) == (PlayerProximityTest {
                test_timer: old(self).test_timer.ticked(delta),
                ..*old(self)
            }),
            due == old(self).test_timer.ticked(delta).spec_just_finished(),
    {
        self.test_timer.tick(delta);
        self.test_timer.just_finished()
    }

    /// Whether a player at `player_position` is near enough to a body at
    /// `position` to set the action off.
    pub fn triggered(&self, position: Vec3, player_position: Vec3) -> (r: bool)
        ensures
            r == (position.spec_distance_squared(player_position)
                < self.trigger_distance_squared),
    {
        position.distance_squared(player_position) < self.trigger_distance_squared
    }
}

/// Pushes a body about at random, afresh at each interval.
#[derive(Clone, Copy, Debug, PartialEq, Eq)]
pub struct Drift {
    pub variance: Vec3,
    pub trend: Vec3,
    pub update_timer: Timer,
}

impl Drift {
    pub fn new(variance: Vec3, trend: Vec3, update_nanos: u64) -> (r: Self)
        ensures
            r == (Drift {
                variance,
                trend,
                update_timer: Timer::spec_new(update_nanos, TimerMode::Repeating),
            }),
    {
        Drift { variance, trend, update_timer: Timer::new(update_nanos, TimerMode::Repeating) }
    }

    /// The push for the draw `roll`: that part of the variance, and the trend.
    pub open spec fn push_of(&self, roll: i32) -> Vec3 {
        self.variance.spec_scaled(roll).spec_plus(self.trend)
    }

    /// The push for the draw `roll`, which lies between minus one and one.
    #[verifier::when_used_as_spec(push_of)]
    pub fn push(&self, roll: i32) -> (r: Vec3)
        ensures
            r == self.push_of(roll),
    {
        self.variance.scaled(roll).plus(self.trend)
    }

    /// Lets `delta` nanoseconds pass and, when the interval has just ended,
    /// draws a new push.
    pub fn drift(&mut self, delta: u64) -> (r: Option<Vec3>)
        ensures
            *final(self) == (Drift { update_timer: old(self).update_timer.ticked(delta), ..*old(self) }),
            r is Some <==> old(self).update_timer.ticked(delta).spec_just_finished(),
            r matches Some(push) ==> exists|roll: i32|
                -UNIT <= roll < UNIT && push == #[trigger] old(self).push_of(roll),
    {
        self.update_timer.tick(delta);
        if self.update_timer.just_finished() {
            let roll: i32 = random_in(-UNIT, UNIT);
            let push: Vec3 = self.push(roll);
            assert(push == old(self).push_of(roll));
            Some(push)
        } else {
            None
        }
    }
}

} // verus!
