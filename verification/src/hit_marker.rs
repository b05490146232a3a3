//! The flash that shows a hit.
use vstd::prelude::*;
use crate::health::HealthEvent;
use crate::timer::{Timer, TimerMode};
use crate::world::{body_ok, slot_at, Body, Entity, World};

verus! {

/// Nanoseconds for which a hit shows.
pub const HIT_MARKER_TIME: u64 = 83_300_000;

/// Lets a body flash when it is hit.
#[derive(Clone, Copy, Debug, PartialEq, Eq)]
pub struct HitMarker {
    pub timer: Timer,
    pub active: bool,
}

impl HitMarker {
    /// A marker that shows nothing.
    pub open spec fn spec_default() -> HitMarker {
        HitMarker { timer: Timer::spec_new(HIT_MARKER_TIME, TimerMode::Once), active: false }
    }
}

impl Default for HitMarker {
    fn default() -> (r: Self)
        ensures
            r == HitMarker::spec_default(),
    {
        HitMarker { timer: Timer::new(HIT_MARKER_TIME, TimerMode::Once), active: false }
    }
}

impl HitMarker {
    /// The marker when its body is hit: it shows, from the start of its time.
    pub open spec fn struck(self) -> HitMarker {
        HitMarker { active: true, timer: Timer::spec_new(self.timer.duration, self.timer.mode) }
    }

    /// Shows the hit.
    pub fn strike(&mut self)
        ensures
            *final(self) == old(self).struck(),
    {
        self.active = true;
        self.timer.reset();
    }

    /// The marker after `delta` nanoseconds: one that shows stops showing
    /// when its time has just run out; one that does not show stays as it is.
    pub open spec fn ticked(self, delta: u64) -> HitMarker {
        if self.active {
            HitMarker {
                timer: self.timer.ticked(delta),
                active: !self.timer.ticked(delta).spec_just_finished(),
            }
        } else {
            self
        }
    }

    /// Lets `delta` nanoseconds pass; says whether the marker has just
    /// stopped showing.
    pub fn tick(&mut self, delta: u64) -> (ended: bool)
        ensures
            *final(self) == old(self).ticked(delta),
            ended == (old(self).active && !final(self).active),
    {
        if self.active {
            self.timer.tick(delta);
            if self.timer.just_finished() {
                self.active = false;
                return true;
            }
        }
        false
    }
}

/// Whether the health `event` shows as a hit on `body`: the body can show
/// hits and is shown at all, the event is a loss, and the body has health left.
pub open spec fn shows_hit(body: Body, event: HealthEvent) -> bool {
    body.hit_marker is Some && body.scene is Some && event.health_adjustment < 0 && (
    body.health matches Some(health) && health.value > 0)
}

/// The bodies after the health `event` has been looked at for the hit it shows.
pub open spec fn after_hit(bodies: Seq<Option<Body>>, event: HealthEvent) -> Seq<Option<Body>> {
    match slot_at(bodies, event.entity) {
        Some(body) => if shows_hit(body, event) {
            bodies.update(
                event.entity.0 as int,
                Some(Body { hit_marker: Some(body.hit_marker.unwrap().struck()), ..body }),
            )
        } else {
            bodies
        },
        None => bodies,
    }
}

/// The bodies after the health `events` have been looked at in turn for the
/// hits they show.
pub open spec fn after_hits(bodies: Seq<Option<Body>>, events: Seq<HealthEvent>) -> Seq<Option<Body>>
    decreases events.len(),
{
    if events.len() == 0 {
        bodies
    } else {
        after_hit(after_hits(bodies, events.drop_last()), events.last())
    }
}

/// Lets the bodies that lose health, and have some left, show the hit.
pub fn apply_hit_marker(world: &mut World, events: &Vec<HealthEvent>)
    requires
        old(world).wf(),
    ensures
        final(world).wf(),
        final(world)@ == after_hits(old(world)@, events@),
{
    let ghost before = world@;
    let n: usize = events.len();
    let mut k: usize = 0;
    assert(events@.take(0) =~= Seq::<HealthEvent>::empty());
    while k < n
        invariant
            n == events@.len(),
            k <= n,
            world.wf(),
            world@ == after_hits(before, events@.take(k as int)),
        decreases n - k,
    {
        let event: HealthEvent = events[k];
        proof {
            assert(events@.take(k + 1).drop_last() =~= events@.take(k as int));
            assert(events@.take(k + 1).last() == event);
        }
        match world.get(event.entity) {
            Some(body) => match (body.hit_marker, body.health) {
                (Some(marker), Some(health)) => {
                    if body.scene.is_some() && event.health_adjustment < 0 && health.value > 0 {
                        let mut marker: HitMarker = marker;
                        marker.strike();
                        proof {
                            assert(body_ok(world@, event.entity.0 as int));
                        }
                        world.change(event.entity, Body { hit_marker: Some(marker), ..body });
                    }
                },
                _ => {},
            },
            None => {},
        }
        k += 1;
    }
    assert(events@.take(n as int) =~= events@);
}

/// The body after `delta` nanoseconds of its hit marker.
pub open spec fn marker_ticked(body: Body, delta: u64) -> Body {
    match body.hit_marker {
        Some(marker) => Body { hit_marker: Some(marker.ticked(delta)), ..body },
        None => body,
    }
}

/// The bodies after each has had `delta` nanoseconds of its hit marker.
pub open spec fn after_update_hit_markers(bodies: Seq<Option<Body>>, delta: u64) -> Seq<Option<Body>> {
    Seq::new(
        bodies.len(),
        |i: int|
            match bodies[i] {
                Some(body) => Some(marker_ticked(body, delta)),
                None => None,
            },
    )
}

/// Lets the hit markers that show run on, and stop when their time is over.
pub fn update_hit_markers(world: &mut World, delta: u64)
    requires
        old(world).wf(),
    ensures
        final(world).wf(),
        final(world)@ == after_update_hit_markers(old(world)@, delta),
{
    let ghost before = world@;
    let n: usize = world.len();
    let mut i: usize = 0;
    while i < n
        invariant
            n == before.len(),
            world@.len() == n,
            i <= n,
            world.wf(),
            forall|k: int|
                0 <= k < i ==> world@[k] == #[trigger] after_update_hit_markers(before, delta)[k],
            forall|k: int| i <= k < n ==> #[trigger] world@[k] == before[k],
        decreases n - i,
    {
        match world.at(i) {
            Some(body) => match body.hit_marker {
                Some(marker) => {
                    let mut marker: HitMarker = marker;
                    marker.tick(delta);
                    proof {
                        assert(body_ok(world@, i as int));
                    }
                    world.change(Entity(i as u64), Body { hit_marker: Some(marker), ..body });
                },
                None => {},
            },
            None => {},
        }
        i += 1;
    }
    assert(world@ =~= after_update_hit_markers(before, delta));
}

} // verus!
