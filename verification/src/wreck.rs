//! Wrecks: what is left of a ship, falling and blasting until it is gone.
use vstd::prelude::*;
use crate::asset_loader::Scene;
use crate::fixed::{mul_div, mul_div_of, saturate, saturated, RATIO_ONE, UNIT};
use crate::movement::{Acceleration, Roller, Velocity};
use crate::splosion::SplosionEvent;
use crate::timer::{Timer, TimerMode};
use crate::vector::{Quat, Vec3};
use crate::world::{body_ok, without, world_translation_of, Body, Entity, World};

verus! {

/// The number of blasts in the life of a wreck.
pub const WRECK_BLASTS: u64 = 4;

/// The speed that a wreck does not exceed.
pub const WRECK_MAX_SPEED: i32 = 40_000;

/// How far from a new wreck its first blast is set off, along the z axis.
pub const WRECK_FIRST_BLAST_Z: i32 = -2_000;

/// A body has been wrecked.
#[derive(Clone, Copy, Debug, PartialEq, Eq)]
pub struct WreckedEvent {
    pub scene: Scene,
    pub translation: Vec3,
    pub quat: Quat,
    pub velocity: Vec3,
    pub roll_speed: i32,
    /// Nanoseconds for which the wreck lasts.
    pub time_to_live: u64,
    pub blast_size: i32,
}

impl WreckedEvent {
    pub fn new(
        scene: Scene,
        translation: Vec3,
        quat: Quat,
        velocity: Vec3,
        roll_speed: i32,
        time_to_live: u64,
        blast_size: i32,
    ) -> (r: Self)
        ensures
            r == (WreckedEvent {
                scene,
                translation,
                quat,
                velocity,
                roll_speed,
                time_to_live,
                blast_size,
            }),
    {
        WreckedEvent { scene, translation, quat, velocity, roll_speed, time_to_live, blast_size }
    }
}

/// Marks a wreck.
#[derive(Clone, Copy, Debug, PartialEq, Eq)]
pub struct Wreck {
    pub time_to_live: Timer,
    pub time_to_blast: Timer,
    pub blast_size: i32,
}

/// What a frame asks to be done about a wreck.
#[derive(Clone, Copy, Debug, PartialEq, Eq)]
pub struct WreckUpdate {
    /// The blast to set off, if it is time for one.
    pub blast: Option<SplosionEvent>,
    /// Whether the wreck's time is over.
    pub gone: bool,
}

impl Wreck {
    /// A wreck that lasts `time_to_live` nanoseconds and blasts at even
    /// intervals on the way.
    pub open spec fn spec_new(time_to_live: u64, blast_size: i32) -> Wreck {
        Wreck {
            blast_size,
            time_to_live: Timer::spec_new(time_to_live, TimerMode::Once),
            time_to_blast: Timer::spec_new(time_to_live / WRECK_BLASTS, TimerMode::Repeating),
        }
    }

    #[verifier::when_used_as_spec(spec_new)]
    pub fn new(time_to_live: u64, blast_size: i32) -> (r: Self)
        ensures
            r == Self::spec_new(time_to_live, blast_size),
    {
        Wreck {
            blast_size,
            time_to_live: Timer::new(time_to_live, TimerMode::Once),
            time_to_blast: Timer::new(time_to_live / WRECK_BLASTS, TimerMode::Repeating),
        }
    }

    /// The wreck after `delta` more nanoseconds.
    pub open spec fn ticked(self, delta: u64) -> Wreck {
        Wreck {
            time_to_live: self.time_to_live.ticked(delta),
            time_to_blast: self.time_to_blast.ticked(delta),
            ..self
        }
    }

    /// What the frame that ends with the wreck as it is asks for, the wreck
    /// being at `translation` and drifting with `velocity`. A blast is due
    /// when the interval has just ended: it is the larger and the nearer to the
    /// ground the further the wreck's time has run.
    pub open spec fn update_of(self, translation: Vec3, velocity: Vec3) -> WreckUpdate {
        WreckUpdate {
            blast: if self.time_to_blast.spec_just_finished() {
                Some(
                    SplosionEvent {
                        translation: translation.spec_plus(
                            Vec3 {
                                x: 0,
                                y: mul_div_of(
                                    2 * UNIT,
                                    RATIO_ONE - self.time_to_live.spec_fraction(),
                                    RATIO_ONE as int,
                                ) as i32,
                                z: 0,
                            },
                        ),
                        scale: saturated(
                            mul_div_of(
                                self.blast_size as int,
                                self.time_to_live.spec_fraction() as int,
                                RATIO_ONE as int,
                            ),
                        ) as i32,
                        velocity,
                    },
                )
            } else {
                None
            },
            gone: self.time_to_live.spec_just_finished(),
        }
    }

    /// Takes the wreck through `delta` nanoseconds.
    pub fn tick(&mut self, delta: u64, translation: Vec3, velocity: Vec3) -> (r: WreckUpdate)
        ensures
            *final(self) == old(self).ticked(delta),
            r == old(self).ticked(delta).update_of(translation, velocity),
    {
        self.time_to_blast.tick(delta);
        self.time_to_live.tick(delta);
        let blast: Option<SplosionEvent> = if self.time_to_blast.just_finished() {
            let remaining: u32 = self.time_to_live.fraction_remaining();
            let fraction: u32 = self.time_to_live.fraction();
            let lift: i128 = mul_div(2 * UNIT as i128, remaining as i128, RATIO_ONE as i128);
            proof {
                crate::fixed::lemma_div_toward_zero_bounds(
                    2 * UNIT * (remaining as int),
                    RATIO_ONE as int,
                );
                assert(0 <= 2 * UNIT * (remaining as int) <= 2 * UNIT * (RATIO_ONE as int))
                    by (nonlinear_arith)
                    requires
                        0 <= remaining <= RATIO_ONE,
                        UNIT == 1000,
                ;
                crate::fixed::lemma_div_toward_zero_monotone(
                    2 * UNIT * (remaining as int),
                    2 * UNIT * (RATIO_ONE as int),
                    RATIO_ONE as int,
                );
                assert(crate::fixed::div_toward_zero(2 * UNIT * (RATIO_ONE as int), RATIO_ONE as int)
                    == 2 * UNIT) by (nonlinear_arith)
                    requires
                        RATIO_ONE == 1_000_000_000,
                        UNIT == 1000,
                ;
            }
            Some(
                SplosionEvent::new(
                    translation.plus(Vec3::new(0, lift as i32, 0)),
                    saturate(mul_div(self.blast_size as i128, fraction as i128, RATIO_ONE as i128)),
                    velocity,
                ),
            )
        } else {
            None
        };
        WreckUpdate { blast, gone: self.time_to_live.just_finished() }
    }
}

/// The wreck that `event` asks for, falling under `gravity`.
pub open spec fn wreck_body(event: WreckedEvent, gravity: Vec3) -> Body {
    Body {
        scene: Some(event.scene),
        rotation: event.quat,
        velocity: Some(Velocity(event.velocity)),
        wreck: Some(Wreck::spec_new(event.time_to_live, event.blast_size)),
        roller: Some(Roller { roll: Vec3 { x: event.roll_speed, y: 0, z: 0 } }),
        acceleration: Some(
            Acceleration { acceleration: gravity, damping: 0, max_speed: WRECK_MAX_SPEED },
        ),
        ..Body::spec_new(event.translation)
    }
}

/// The blast with which the wreck that `event` asks for begins.
pub open spec fn first_blast(event: WreckedEvent) -> SplosionEvent {
    SplosionEvent {
        translation: event.translation.spec_plus(Vec3 { x: 0, y: 0, z: WRECK_FIRST_BLAST_Z }),
        scale: event.blast_size,
        velocity: event.velocity,
    }
}

/// The bodies with the wrecks that `events` ask for, in turn.
pub open spec fn after_spawn_wrecks(bodies: Seq<Option<Body>>, events: Seq<WreckedEvent>, gravity: Vec3) -> Seq<
    Option<Body>,
>
    decreases events.len(),
{
    if events.len() == 0 {
        bodies
    } else {
        after_spawn_wrecks(bodies, events.drop_last(), gravity).push(
            Some(wreck_body(events.last(), gravity)),
        )
    }
}

/// Adds a wreck for each of `events`, falling under `gravity`, and its first
/// blast to `blasts`.
pub fn spawn_wrecks(
    world: &mut World,
    events: &Vec<WreckedEvent>,
    gravity: Vec3,
    blasts: &mut Vec<SplosionEvent>,
)
    requires
        old(world).wf(),
        old(world)@.len() + events@.len() < usize::MAX,
    ensures
        final(world).wf(),
        final(world)@ == after_spawn_wrecks(old(world)@, events@, gravity),
        final(blasts)@ == old(blasts)@ + events@.map_values(|event: WreckedEvent| first_blast(event)),
{
    let ghost before = world@;
    let ghost blasts_before = blasts@;
    let n: usize = events.len();
    let mut k: usize = 0;
    proof {
        assert(events@.take(0) =~= Seq::<WreckedEvent>::empty());
        assert(blasts@ =~= blasts_before + events@.take(0).map_values(
            |event: WreckedEvent| first_blast(event),
        ));
    }
    while k < n
        invariant
            n == events@.len(),
            k <= n,
            world.wf(),
            before.len() + n < usize::MAX,
            world@.len() == before.len() + k,
            world@ == after_spawn_wrecks(before, events@.take(k as int), gravity),
            blasts@ == blasts_before + events@.take(k as int).map_values(
                |event: WreckedEvent| first_blast(event),
            ),
        decreases n - k,
    {
        let event: WreckedEvent = events[k];
        proof {
            assert(events@.take(k + 1).drop_last() =~= events@.take(k as int));
        }
        let mut body: Body = Body::new(event.translation);
        body.scene = Some(event.scene);
        body.rotation = event.quat;
        body.velocity = Some(Velocity(event.velocity));
        body.wreck = Some(Wreck::new(event.time_to_live, event.blast_size));
        body.roller = Some(Roller::new(event.roll_speed, 0, 0));
        body.acceleration = Some(Acceleration::new(gravity, 0, WRECK_MAX_SPEED));
        assert(body.untied() == body);
        world.spawn(body);
        blasts.push(
            SplosionEvent::new(
                event.translation.plus(Vec3::new(0, 0, WRECK_FIRST_BLAST_Z)),
                event.blast_size,
                event.velocity,
            ),
        );
        proof {
            assert(blasts@ =~= blasts_before + events@.take(k + 1).map_values(
                |event: WreckedEvent| first_blast(event),
            ));
        }
        k += 1;
    }
    assert(events@.take(n as int) =~= events@);
}

/// Whether the place `i` holds a wreck that moves.
pub open spec fn is_wreck(bodies: Seq<Option<Body>>, i: int) -> bool {
    bodies[i] matches Some(body) && body.wreck is Some && body.velocity is Some
}

/// What `delta` nanoseconds ask to be done about the wreck in place `i`.
pub open spec fn wreck_update_at(bodies: Seq<Option<Body>>, i: int, delta: u64) -> WreckUpdate {
    let body = bodies[i].unwrap();
    body.wreck.unwrap().ticked(delta).update_of(
        world_translation_of(bodies, Entity(i as u64)).unwrap(),
        body.velocity.unwrap().0,
    )
}

/// The blasts that the wrecks in the places below `upto` set off in `delta`
/// nanoseconds, in the order of the places.
pub open spec fn blasts_upto(bodies: Seq<Option<Body>>, upto: int, delta: u64) -> Seq<SplosionEvent>
    decreases upto,
{
    if upto <= 0 {
        seq![]
    } else if is_wreck(bodies, upto - 1) && wreck_update_at(bodies, upto - 1, delta).blast
        is Some {
        blasts_upto(bodies, upto - 1, delta).push(
            wreck_update_at(bodies, upto - 1, delta).blast.unwrap(),
        )
    } else {
        blasts_upto(bodies, upto - 1, delta)
    }
}

/// The bodies after the wrecks in the places below `upto` have had `delta`
/// nanoseconds, in turn: one whose time is over is gone, with what rides on it.
pub open spec fn wrecks_upto(bodies: Seq<Option<Body>>, upto: int, delta: u64) -> Seq<Option<Body>>
    decreases upto,
{
    if upto <= 0 {
        bodies
    } else {
        let before = wrecks_upto(bodies, upto - 1, delta);
        if upto - 1 < before.len() && is_wreck(before, upto - 1) {
            let body = before[upto - 1].unwrap();
            let wreck = body.wreck.unwrap().ticked(delta);
            let aged = before.update(upto - 1, Some(Body { wreck: Some(wreck), ..body }));
            if wreck.time_to_live.spec_just_finished() {
                without(aged, Entity((upto - 1) as u64))
            } else {
                aged
            }
        } else {
            before
        }
    }
}

/// Lets every wreck that moves have `delta` nanoseconds: adds the blasts
/// that are due to `blasts` and removes the wrecks whose time is over.
pub fn update_wrecks(world: &mut World, delta: u64, blasts: &mut Vec<SplosionEvent>)
    requires
        old(world).wf(),
    ensures
        final(world).wf(),
        final(world)@ == wrecks_upto(old(world)@, old(world)@.len() as int, delta),
        final(blasts)@ == old(blasts)@ + blasts_upto(old(world)@, old(world)@.len() as int, delta),
{
    let ghost before = world@;
    let ghost blasts_before = blasts@;
    let n: usize = world.len();
    let mut i: usize = 0;
    proof {
        assert(blasts@ + Seq::<SplosionEvent>::empty() =~= blasts@);
    }
    while i < n
        invariant
            n == before.len(),
            world@ == before,
            i <= n,
            blasts_before == old(blasts)@,
            blasts@ == blasts_before + blasts_upto(before, i as int, delta),
        decreases n - i,
    {
        let ghost so_far = blasts_upto(before, i as int, delta);
        match world.at(i) {
            Some(body) => match (body.wreck, body.velocity) {
                (Some(wreck), Some(velocity)) => {
                    let place: Vec3 = match world.world_translation(Entity(i as u64)) {
                        Some(place) => place,
                        None => body.translation,
                    };
                    let mut wreck: Wreck = wreck;
                    let update: WreckUpdate = wreck.tick(delta, place, velocity.0);
                    match update.blast {
                        Some(blast) => {
                            blasts.push(blast);
                            proof {
                                assert(blasts@ =~= blasts_before + so_far.push(blast));
                            }
                        },
                        None => {},
                    }
                },
                _ => {},
            },
            None => {},
        }
        i += 1;
    }
    let mut i: usize = 0;
    while i < n
        invariant
            n == before.len(),
            world@.len() == n,
            i <= n,
            world.wf(),
            world@ == wrecks_upto(before, i as int, delta),
        decreases n - i,
    {
        match world.at(i) {
            Some(body) => match (body.wreck, body.velocity) {
                (Some(wreck), Some(velocity)) => {
                    let mut wreck: Wreck = wreck;
                    let update: WreckUpdate = wreck.tick(delta, body.translation, velocity.0);
                    proof {
                        assert(body_ok(world@, i as int));
                    }
                    world.change(Entity(i as u64), Body { wreck: Some(wreck), ..body });
                    if update.gone {
                        world.despawn(Entity(i as u64));
                    }
                },
                _ => {},
            },
            None => {},
        }
        i += 1;
    }
}

} // verus!
