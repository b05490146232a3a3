//! Health pools, the events that change them and the mark of the dead.
use vstd::prelude::*;
use crate::fixed::{saturate, saturated};
use crate::world::{body_ok, slot_at, Body, Entity, World};

verus! {

/// Marks a body whose health is spent, with the one that last hurt it.
#[derive(Clone, Copy, Debug, PartialEq, Eq)]
pub struct Dead {
    pub killer: Option<Entity>,
}

/// A request to change a body's health by `health_adjustment`.
#[derive(Clone, Copy, Debug, PartialEq, Eq)]
pub struct HealthEvent {
    pub entity: Entity,
    pub inflictor: Option<Entity>,
    pub health_adjustment: i32,
}

impl HealthEvent {
    pub fn new(entity: Entity, inflictor: Option<Entity>, health_adjustment: i32) -> (r: Self)
        ensures
            r == (HealthEvent { entity, inflictor, health_adjustment }),
    {
        HealthEvent { entity, inflictor, health_adjustment }
    }
}

/// A health pool.
#[derive(Clone, Copy, Debug, PartialEq, Eq)]
pub struct Health {
    pub value: i32,
    pub max: i32,
    pub last_hurt_by: Option<Entity>,
}

impl Health {
    pub fn new(value: i32) -> (r: Self)
        ensures
            r == (Health { value, max: value, last_hurt_by: None }),
    {
        Health { value, max: value, last_hurt_by: None }
    }
}

impl Health {
    /// The pool after an adjustment. A pool below zero takes no more. Else
    /// the adjustment is added, up to the pool's maximum, and a loss is
    /// remembered with the one that inflicted it, where one is named.
    pub open spec fn adjusted(self, inflictor: Option<Entity>, health_adjustment: i32) -> Health {
        if self.value >= 0 {
            let sum = saturated(self.value + health_adjustment);
            Health {
                value: if sum < self.max {
                    sum as i32
                } else {
                    self.max
                },
                last_hurt_by: if health_adjustment < 0 && inflictor is Some {
                    inflictor
                } else {
                    self.last_hurt_by
                },
                ..self
            }
        } else {
            self
        }
    }

    /// Applies an adjustment to the pool.
    pub fn adjust(&mut self, inflictor: Option<Entity>, health_adjustment: i32)
        ensures
            *final(self) == old(self).adjusted(inflictor, health_adjustment),
    {
        if self.value >= 0 {
            if health_adjustment < 0 && inflictor.is_some() {
                self.last_hurt_by = inflictor;
            }
            let sum: i32 = saturate(self.value as i128 + health_adjustment as i128);
            self.value = if sum < self.max {
                sum
            } else {
                self.max
            };
        }
    }

    /// Whether the pool is spent.
    pub open spec fn spec_is_spent(&self) -> bool {
        self.value <= 0
    }

    #[verifier::when_used_as_spec(spec_is_spent)]
    pub fn is_spent(&self) -> (r: bool)
        ensures
            r == self.spec_is_spent(),
    {
        self.value <= 0
    }
}

/// No adjustment lifts a pool above its maximum, unless it was there
/// already and below zero; and a pool below zero stays as it is.
pub proof fn lemma_health_stays_below_max(health: Health, inflictor: Option<Entity>, adjustment: i32)
    ensures
        health.value >= 0 ==> health.adjusted(inflictor, adjustment).value <= health.max,
        health.value < 0 ==> health.adjusted(inflictor, adjustment) == health,
        health.adjusted(inflictor, adjustment).max == health.max,
{
}

/// The bodies after the health `event` has been applied: unchanged where
/// it names no body with health.
pub open spec fn after_health_event(bodies: Seq<Option<Body>>, event: HealthEvent) -> Seq<Option<Body>> {
    match slot_at(bodies, event.entity) {
        Some(body) => match body.health {
            Some(health) => bodies.update(
                event.entity.0 as int,
                Some(
                    Body {
                        health: Some(health.adjusted(event.inflictor, event.health_adjustment)),
                        ..body
                    },
                ),
            ),
            None => bodies,
        },
        None => bodies,
    }
}

/// The bodies after the health `events` have been applied in turn.
pub open spec fn after_health_events(bodies: Seq<Option<Body>>, events: Seq<HealthEvent>) -> Seq<
    Option<Body>,
>
    decreases events.len(),
{
    if events.len() == 0 {
        bodies
    } else {
        after_health_event(after_health_events(bodies, events.drop_last()), events.last())
    }
}

/// Applies each event to the health of the body it names.
pub fn apply_health_changes(world: &mut World, events: &Vec<HealthEvent>)
    requires
        old(world).wf(),
    ensures
        final(world).wf(),
        final(world)@ == after_health_events(old(world)@, events@),
{
    let ghost before = world@;
    let n: usize = events.len();
    let mut k: usize = 0;
    assert(events@.take(0) =~= Seq::<HealthEvent>::empty());
    while k < n
        invariant
            n == events@.len(),
            k <= n,
            world.wf(),
            world@ == after_health_events(before, events@.take(k as int)),
        decreases n - k,
    {
        let event: HealthEvent = events[k];
        proof {
            assert(events@.take(k + 1).drop_last() =~= events@.take(k as int));
            assert(events@.take(k + 1).last() == event);
        }
        match world.get(event.entity) {
            Some(body) => match body.health {
                Some(health) => {
                    let mut health: Health = health;
                    health.adjust(event.inflictor, event.health_adjustment);
                    proof {
                        assert(body_ok(world@, event.entity.0 as int));
                    }
                    world.change(event.entity, Body { health: Some(health), ..body });
                },
                None => {},
            },
            None => {},
        }
        k += 1;
    }
    assert(events@.take(n as int) =~= events@);
}

/// The body with the mark of the dead, where its health is spent.
pub open spec fn marked_dead(body: Body) -> Body {
    match body.health {
        Some(health) => if health.spec_is_spent() {
            Body { dead: Some(Dead { killer: health.last_hurt_by }), ..body }
        } else {
            body
        },
        None => body,
    }
}

/// The bodies after each whose health is spent has been marked.
pub open spec fn after_make_dead(bodies: Seq<Option<Body>>) -> Seq<Option<Body>> {
    Seq::new(
        bodies.len(),
        |i: int|
            match bodies[i] {
                Some(body) => Some(marked_dead(body)),
                None => None,
            },
    )
}

/// Marks every body whose health is spent as dead, with the one that last hurt it.
pub fn make_dead(world: &mut World)
    requires
        old(world).wf(),
    ensures
        final(world).wf(),
        final(world)@ == after_make_dead(old(world)@),
{
    let ghost before = world@;
    let n: usize = world.len();
    let mut i: usize = 0;
    while i < n
        invariant
            n == before.len(),
            world@.len() == n,
            i <= n,
            world.wf(),
            forall|k: int| 0 <= k < i ==> world@[k] == #[trigger] after_make_dead(before)[k],
            forall|k: int| i <= k < n ==> #[trigger] world@[k] == before[k],
        decreases n - i,
    {
        match world.at(i) {
            Some(body) => match body.health {
                Some(health) => {
                    if health.is_spent() {
                        proof {
                            assert(body_ok(world@, i as int));
                        }
                        world.change(
                            Entity(i as u64),
                            Body { dead: Some(Dead { killer: health.last_hurt_by }), ..body },
                        );
                    }
                },
                None => {},
            },
            None => {},
        }
        i += 1;
    }
    assert(world@ =~= after_make_dead(before));
}

} // verus!
