//! Sidewinders: enemies that cross the field and shoot, and that shoot for
//! the player once caught.
use vstd::prelude::*;
use crate::asset_loader::Scene;
use crate::bullet::ShootEvent;
use crate::collision_detection::Collider;
use crate::enemy::{
    deaths_upto, reap, Death, EnemyKind, ENEMY_START_POINT_X, ENEMY_START_POINT_Z_BOUNDS_MAX,
};
use crate::fixed::{mul_div, mul_div_of, saturate, saturated, UNIT};
use crate::game_manager::PointEvent;
use crate::health::Health;
use crate::hit_marker::HitMarker;
use crate::hook::Hookable;
use crate::movement::{Roller, Velocity};
use crate::random::random_in;
use crate::timer::{Timer, TimerMode};
use crate::vector::{Quat, Vec3};
use crate::world::{
    body_ok, without, world_rotation_of, world_translation_of, Body, Entity, World,
};
use crate::wreck::WreckedEvent;

verus! {

/// Nanoseconds between two sidewinders.
pub const SIDEWINDER_SPAWN_TIME: u64 = 2_000_000_000;

pub const SIDEWINDER_SPIN_SPEED: i32 = 3_000;

pub const SIDEWINDER_SPEED: i32 = 20_000;

pub const SIDEWINDER_VERTICAL_VARIANCE: i32 = 10_000;

pub const SIDEWINDER_SHOOT_SPEED: i32 = 16_000;

pub const SIDEWINDER_COLLISION_RADIUS: i32 = 2_500;

pub const SIDEWINDER_COLLISION_DAMAGE: i32 = -25_000;

pub const SIDEWINDER_BULLET_DAMAGE: i32 = -20_000;

pub const SIDEWINDER_BULLET_SCALE: i32 = 1_000;

pub const SIDEWINDER_HEALTH: i32 = 40_000;

/// Nanoseconds between two shots of a sidewinder.
pub const SIDEWINDER_SHOOT_TIME: u64 = 1_700_000_000;

/// Nanoseconds between two shots of a caught sidewinder.
pub const SIDEWINDER_CAPTURED_SHOOT_TIME: u64 = 500_000_000;

pub const SIDEWINDER_CAPTURED_SHOOT_SPEED: i32 = 48_000;

pub const SIDEWINDER_BLAST_SIZE: i32 = 3_000;

/// How far in front of a sidewinder its bullets start.
pub const SIDEWINDER_GUN_REACH: i32 = 3_000;

/// Where a caught sidewinder rests, seen from the hook.
pub const SIDEWINDER_HOOK_TRANSLATION_X: i32 = -3_000;

/// Nanoseconds for which the wreck of a sidewinder lasts.
pub const SIDEWINDER_WRECK_TIME: u64 = 1_500_000_000;

pub const SIDEWINDER_POINTS: u64 = 100;

/// The timer that paces the coming of sidewinders.
#[derive(Clone, Copy, Debug, PartialEq, Eq)]
pub struct SpawnTimer(pub Timer);

impl Default for SpawnTimer {
    fn default() -> (r: Self)
        ensures
            r == SpawnTimer(Timer::spec_new(SIDEWINDER_SPAWN_TIME, TimerMode::Repeating)),
    {
        SpawnTimer(Timer::new(SIDEWINDER_SPAWN_TIME, TimerMode::Repeating))
    }
}

/// Marks a sidewinder.
#[derive(Clone, Copy, Debug, PartialEq, Eq)]
pub struct Sidewinder {
    pub shoot_timer: Timer,
}

/// The sidewinder that enters for the draw `spawn_pos`, which lies between
/// minus one and one: it enters that far to the side, turned half round, and
/// drifts back toward the middle as it crosses.
pub open spec fn sidewinder_body(spawn_pos: i32) -> Body {
    Body {
        sidewinder: Some(
            Sidewinder { shoot_timer: Timer::spec_new(SIDEWINDER_SHOOT_TIME, TimerMode::Repeating) },
        ),
        scene: Some(Scene::Sidewinder),
        rotation: Quat { x: 0, y: 0, z: UNIT, w: 0 },
        velocity: Some(
            Velocity(
                Vec3 {
                    x: SIDEWINDER_SPEED,
                    y: 0,
                    z: saturated(
                        mul_div_of(
                            spawn_pos as int,
                            -SIDEWINDER_VERTICAL_VARIANCE as int,
                            UNIT as int,
                        ),
                    ) as i32,
                },
            ),
        ),
        collider: Some(
            Collider {
                radius: SIDEWINDER_COLLISION_RADIUS,
                collision_damage: SIDEWINDER_COLLISION_DAMAGE,
            },
        ),
        hookable: Some(
            Hookable {
                translation: Vec3 { x: SIDEWINDER_HOOK_TRANSLATION_X, y: 0, z: 0 },
                rotation: Quat::spec_identity(),
            },
        ),
        health: Some(Health { value: SIDEWINDER_HEALTH, max: SIDEWINDER_HEALTH, last_hurt_by: None }),
        roller: Some(Roller { roll: Vec3 { x: SIDEWINDER_SPIN_SPEED, y: 0, z: 0 } }),
        enemy: true,
        hit_marker: Some(HitMarker::spec_default()),
        ..Body::spec_new(
            Vec3 {
                x: ENEMY_START_POINT_X,
                y: 0,
                z: saturated(
                    mul_div_of(
                        ENEMY_START_POINT_Z_BOUNDS_MAX as int,
                        spawn_pos as int,
                        UNIT as int,
                    ),
                ) as i32,
            },
        )
    }
}

/// The sidewinder that enters for the draw `spawn_pos`.
pub fn sidewinder_builder(spawn_pos: i32) -> (r: Body)
    ensures
        r == sidewinder_body(spawn_pos),
{
    let start_z: i32 = saturate(
        mul_div(ENEMY_START_POINT_Z_BOUNDS_MAX as i128, spawn_pos as i128, UNIT as i128),
    );
    let drift: i32 = saturate(
        mul_div(spawn_pos as i128, -SIDEWINDER_VERTICAL_VARIANCE as i128, UNIT as i128),
    );
    let mut body: Body = Body::new(Vec3::new(ENEMY_START_POINT_X, 0, start_z));
    body.sidewinder = Some(
        Sidewinder { shoot_timer: Timer::new(SIDEWINDER_SHOOT_TIME, TimerMode::Repeating) },
    );
    body.scene = Some(Scene::Sidewinder);
    body.rotation = Quat::new(0, 0, UNIT, 0);
    body.velocity = Some(Velocity(Vec3::new(SIDEWINDER_SPEED, 0, drift)));
    body.collider = Some(Collider::new(SIDEWINDER_COLLISION_RADIUS, SIDEWINDER_COLLISION_DAMAGE));
    body.hookable = Some(
        Hookable::new(Vec3::new(SIDEWINDER_HOOK_TRANSLATION_X, 0, 0), Quat::identity()),
    );
    body.health = Some(Health::new(SIDEWINDER_HEALTH));
    body.roller = Some(Roller::new(SIDEWINDER_SPIN_SPEED, 0, 0));
    body.enemy = true;
    body.hit_marker = Some(HitMarker::default());
    body
}

/// Lets `delta` nanoseconds pass and, when the interval has just ended, lets
/// a sidewinder enter at a place drawn at random, and names it.
pub fn spawn_sidewinder(world: &mut World, timer: &mut SpawnTimer, delta: u64) -> (r: Option<Entity>)
    requires
        old(world).wf(),
        old(world)@.len() < usize::MAX,
    ensures
        final(world).wf(),
        final(timer).0 == old(timer).0.ticked(delta),
        r is Some <==> final(timer).0.spec_just_finished(),
        r is None ==> final(world)@ == old(world)@,
        r matches Some(e) ==> e.0 == old(world)@.len() && exists|spawn_pos: i32|
            -UNIT <= spawn_pos < UNIT && final(world)@ == old(world)@.push(
                Some(#[trigger] sidewinder_body(spawn_pos)),
            ),
{
    timer.0.tick(delta);
    if !timer.0.just_finished() {
        return None;
    }
    let spawn_pos: i32 = random_in(-UNIT, UNIT);
    let body: Body = sidewinder_builder(spawn_pos);
    assert(body.untied() == body);
    let e: Entity = world.spawn(body);
    assert(final(world)@ == old(world)@.push(Some(sidewinder_body(spawn_pos))));
    Some(e)
}

/// The way a body turned by `rotation` faces: along the negative x axis,
/// turned, with the length `reach`.
pub open spec fn left_of(rotation: Quat, reach: i32) -> Vec3 {
    rotation.spec_rotated(Vec3 { x: saturated(-reach) as i32, y: 0, z: 0 })
}

fn left(rotation: Quat, reach: i32) -> (r: Vec3)
    ensures
        r == left_of(rotation, reach),
{
    rotation.rotated(Vec3::new(saturate(-(reach as i128)), 0, 0))
}

/// Whether the body shoots on its own account: a sidewinder that moves and
/// is neither settling on a hook nor caught.
pub open spec fn shoots_free(body: Body) -> bool {
    body.sidewinder is Some && body.velocity is Some && body.hooked is None && body.captured
        is None
}

/// Whether the body shoots for its captor: a sidewinder that is caught.
pub open spec fn shoots_captured(body: Body) -> bool {
    body.sidewinder is Some && body.captured is Some
}

/// The shoot timer of a sidewinder after `delta` nanoseconds; that of a
/// caught one runs at the pace of the caught.
pub open spec fn shoot_timer_after(body: Body, delta: u64, captured: bool) -> Timer {
    let timer = body.sidewinder.unwrap().shoot_timer;
    if captured {
        (Timer { duration: SIDEWINDER_CAPTURED_SHOOT_TIME, ..timer }).ticked(delta)
    } else {
        timer.ticked(delta)
    }
}

/// Whether the body is a sidewinder of the kind asked for.
pub open spec fn is_shooter(body: Body, captured: bool) -> bool {
    if captured {
        shoots_captured(body)
    } else {
        shoots_free(body)
    }
}

/// The body after `delta` nanoseconds of its shoot timer, where it is a
/// sidewinder of the kind asked for.
pub open spec fn reloaded(body: Body, delta: u64, captured: bool) -> Body {
    if is_shooter(body, captured) {
        Body {
            sidewinder: Some(Sidewinder { shoot_timer: shoot_timer_after(body, delta, captured) }),
            ..body
        }
    } else {
        body
    }
}

/// The shot of the sidewinder in place `i`: from its gun, which is in front
/// of it, along the way it faces. A free one shoots for itself, at its own
/// speed on top of the shot's; a caught one for its captor, and faster.
pub open spec fn shot_of(bodies: Seq<Option<Body>>, i: int, captured: bool) -> ShootEvent {
    let body = bodies[i].unwrap();
    let rotation = world_rotation_of(bodies, Entity(i as u64)).unwrap();
    let start = world_translation_of(bodies, Entity(i as u64)).unwrap().spec_plus(
        left_of(rotation, SIDEWINDER_GUN_REACH),
    );
    if captured {
        ShootEvent {
            is_player: true,
            start,
            velocity: left_of(rotation, SIDEWINDER_CAPTURED_SHOOT_SPEED),
            damage: SIDEWINDER_BULLET_DAMAGE,
            scale: SIDEWINDER_BULLET_SCALE,
            owner: body.captured.unwrap().captor,
        }
    } else {
        ShootEvent {
            is_player: false,
            start,
            velocity: body.velocity.unwrap().0.spec_plus(left_of(rotation, SIDEWINDER_SHOOT_SPEED)),
            damage: SIDEWINDER_BULLET_DAMAGE,
            scale: SIDEWINDER_BULLET_SCALE,
            owner: Entity(i as u64),
        }
    }
}

/// Whether the body in place `i` shoots after `delta` nanoseconds.
pub open spec fn shoots(bodies: Seq<Option<Body>>, i: int, delta: u64, captured: bool) -> bool {
    bodies[i] matches Some(body) && is_shooter(body, captured) && shoot_timer_after(
        body,
        delta,
        captured,
    ).finished
}

/// The shots of the sidewinders in the places below `upto`, in the order of
/// the places.
pub open spec fn shots_upto(bodies: Seq<Option<Body>>, upto: int, delta: u64, captured: bool) -> Seq<
    ShootEvent,
>
    decreases upto,
{
    if upto <= 0 {
        seq![]
    } else if shoots(bodies, upto - 1, delta, captured) {
        shots_upto(bodies, upto - 1, delta, captured).push(shot_of(bodies, upto - 1, captured))
    } else {
        shots_upto(bodies, upto - 1, delta, captured)
    }
}

/// The bodies after each sidewinder of the kind asked for has had `delta`
/// nanoseconds of its shoot timer.
pub open spec fn after_reload(bodies: Seq<Option<Body>>, delta: u64, captured: bool) -> Seq<Option<Body>> {
    Seq::new(
        bodies.len(),
        |i: int|
            match bodies[i] {
                Some(body) => Some(reloaded(body, delta, captured)),
                None => None,
            },
    )
}

fn shooter(body: &Body, captured: bool) -> (r: Option<Sidewinder>)
    ensures
        r is Some <==> is_shooter(*body, captured),
        r is Some ==> r == body.sidewinder,
{
    let fits: bool = if captured {
        body.captured.is_some()
    } else {
        body.velocity.is_some() && body.hooked.is_none() && body.captured.is_none()
    };
    if fits {
        body.sidewinder
    } else {
        None
    }
}

fn ticked_timer(sidewinder: Sidewinder, body: &Body, delta: u64, captured: bool) -> (r: Timer)
    requires
        body.sidewinder == Some(sidewinder),
    ensures
        r == shoot_timer_after(*body, delta, captured),
{
    let mut timer: Timer = sidewinder.shoot_timer;
    if captured {
        timer.set_duration(SIDEWINDER_CAPTURED_SHOOT_TIME);
    }
    timer.tick(delta);
    timer
}

/// Lets the sidewinders of the kind asked for run their shoot timers, and
/// adds the shots of those whose timers have finished to `shots`.
fn fire(world: &mut World, delta: u64, captured: bool, shots: &mut Vec<ShootEvent>)
    requires
        old(world).wf(),
    ensures
        final(world).wf(),
        final(world)@ == after_reload(old(world)@, delta, captured),
        final(shots)@ == old(shots)@ + shots_upto(
            old(world)@,
            old(world)@.len() as int,
            delta,
            captured,
        ),
{
    let ghost before = world@;
    let ghost shots_before = shots@;
    let n: usize = world.len();
    let mut i: usize = 0;
    proof {
        assert(shots@ + Seq::<ShootEvent>::empty() =~= shots@);
    }
    while i < n
        invariant
            n == before.len(),
            world@ == before,
            i <= n,
            shots_before == old(shots)@,
            shots@ == shots_before + shots_upto(before, i as int, delta, captured),
        decreases n - i,
    {
        let ghost so_far = shots_upto(before, i as int, delta, captured);
        match world.at(i) {
            Some(body) => match shooter(&body, captured) {
                Some(sidewinder) => {
                    let timer: Timer = ticked_timer(sidewinder, &body, delta, captured);
                    if timer.finished() {
                        let me: Entity = Entity(i as u64);
                        let rotation: Quat = match world.world_rotation(me) {
                            Some(rotation) => rotation,
                            None => body.rotation,
                        };
                        let place: Vec3 = match world.world_translation(me) {
                            Some(place) => place,
                            None => body.translation,
                        };
                        let start: Vec3 = place.plus(left(rotation, SIDEWINDER_GUN_REACH));
                        let shot: ShootEvent = if captured {
                            ShootEvent::new(
                                true,
                                start,
                                left(rotation, SIDEWINDER_CAPTURED_SHOOT_SPEED),
                                SIDEWINDER_BULLET_DAMAGE,
                                SIDEWINDER_BULLET_SCALE,
                                match body.captured {
                                    Some(captured) => captured.captor,
                                    None => me,
                                },
                            )
                        } else {
                            ShootEvent::new(
                                false,
                                start,
                                match body.velocity {
                                    Some(velocity) => velocity.0,
                                    None => Vec3::zero(),
                                }.plus(left(rotation, SIDEWINDER_SHOOT_SPEED)),
                                SIDEWINDER_BULLET_DAMAGE,
                                SIDEWINDER_BULLET_SCALE,
                                me,
                            )
                        };
                        shots.push(shot);
                        proof {
                            assert(shot == shot_of(before, i as int, captured));
                            assert(shots@ =~= shots_before + so_far.push(shot));
                        }
                    }
                },
                None => {},
            },
            None => {},
        }
        i += 1;
    }
    let mut i: usize = 0;
    while i < n
        invariant
            n == before.len(),
            world@.len() == n,
            i <= n,
            world.wf(),
            forall|k: int|
                0 <= k < i ==> world@[k] == #[trigger] after_reload(before, delta, captured)[k],
            forall|k: int| i <= k < n ==> #[trigger] world@[k] == before[k],
        decreases n - i,
    {
        match world.at(i) {
            Some(body) => match shooter(&body, captured) {
                Some(sidewinder) => {
                    let timer: Timer = ticked_timer(sidewinder, &body, delta, captured);
                    proof {
                        assert(body_ok(world@, i as int));
                    }
                    world.change(
                        Entity(i as u64),
                        Body { sidewinder: Some(Sidewinder { shoot_timer: timer }), ..body },
                    );
                },
                None => {},
            },
            None => {},
        }
        i += 1;
    }
    assert(world@ =~= after_reload(before, delta, captured));
}

/// Lets the free sidewinders run their shoot timers and shoot when these
/// have finished.
pub fn shoot(world: &mut World, delta: u64, shots: &mut Vec<ShootEvent>)
    requires
        old(world).wf(),
    ensures
        final(world).wf(),
        final(world)@ == after_reload(old(world)@, delta, false),
        final(shots)@ == old(shots)@ + shots_upto(old(world)@, old(world)@.len() as int, delta, false),
{
    fire(world, delta, false, shots);
}

/// Lets the caught sidewinders run their shoot timers, at the pace of the
/// caught, and shoot for their captors when these have finished.
pub fn shoot_captured(world: &mut World, delta: u64, shots: &mut Vec<ShootEvent>)
    requires
        old(world).wf(),
    ensures
        final(world).wf(),
        final(world)@ == after_reload(old(world)@, delta, true),
        final(shots)@ == old(shots)@ + shots_upto(old(world)@, old(world)@.len() as int, delta, true),
{
    fire(world, delta, true, shots);
}

/// The wreck that a dead sidewinder leaves.
pub open spec fn sidewinder_wreck(death: Death) -> WreckedEvent {
    WreckedEvent {
        scene: Scene::Sidewinder,
        translation: death.translation,
        quat: death.rotation,
        velocity: death.velocity,
        roll_speed: SIDEWINDER_SPIN_SPEED,
        time_to_live: SIDEWINDER_WRECK_TIME,
        blast_size: SIDEWINDER_BLAST_SIZE,
    }
}

/// Removes the sidewinders whose health is spent; each leaves a wreck and
/// wins the player points.
pub fn check_dead(world: &mut World, wrecks: &mut Vec<WreckedEvent>, points: &mut Vec<PointEvent>)
    requires
        old(world).wf(),
    ensures
        final(world).wf(),
        final(world)@ == deaths_upto(old(world)@, old(world)@.len() as int, EnemyKind::Sidewinder).0,
        final(wrecks)@ == old(wrecks)@ + deaths_upto(
            old(world)@,
            old(world)@.len() as int,
            EnemyKind::Sidewinder,
        ).1.map_values(|death: Death| sidewinder_wreck(death)),
        final(points)@ == old(points)@ + deaths_upto(
            old(world)@,
            old(world)@.len() as int,
            EnemyKind::Sidewinder,
        ).1.map_values(|death: Death| PointEvent(SIDEWINDER_POINTS)),
{
    let ghost wrecks_before = wrecks@;
    let ghost points_before = points@;
    let deaths: Vec<Death> = reap(world, EnemyKind::Sidewinder);
    let n: usize = deaths.len();
    let mut k: usize = 0;
    proof {
        assert(wrecks@ =~= wrecks_before + deaths@.take(0).map_values(
            |death: Death| sidewinder_wreck(death),
        ));
        assert(points@ =~= points_before + deaths@.take(0).map_values(
            |death: Death| PointEvent(SIDEWINDER_POINTS),
        ));
    }
    while k < n
        invariant
            n == deaths@.len(),
            k <= n,
            wrecks@ == wrecks_before + deaths@.take(k as int).map_values(
                |death: Death| sidewinder_wreck(death),
            ),
            points@ == points_before + deaths@.take(k as int).map_values(
                |death: Death| PointEvent(SIDEWINDER_POINTS),
            ),
        decreases n - k,
    {
        let death: Death = deaths[k];
        wrecks.push(
            WreckedEvent::new(
                Scene::Sidewinder,
                death.translation,
                death.rotation,
                death.velocity,
                SIDEWINDER_SPIN_SPEED,
                SIDEWINDER_WRECK_TIME,
                SIDEWINDER_BLAST_SIZE,
            ),
        );
        points.push(PointEvent(SIDEWINDER_POINTS));
        proof {
            assert(wrecks@ =~= wrecks_before + deaths@.take(k + 1).map_values(
                |death: Death| sidewinder_wreck(death),
            ));
            assert(points@ =~= points_before + deaths@.take(k + 1).map_values(
                |death: Death| PointEvent(SIDEWINDER_POINTS),
            ));
        }
        k += 1;
    }
    assert(deaths@.take(n as int) =~= deaths@);
}

} // verus!
