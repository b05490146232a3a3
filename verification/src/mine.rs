//! Mines: enemies that drift across the field.
use vstd::prelude::*;
use crate::asset_loader::Scene;
use crate::collision_detection::Collider;
use crate::effect_sprite::{EffectSpriteEvent, EffectSpriteType};
use crate::enemy::{
    deaths_upto, reap, Death, EnemyKind, ENEMY_START_POINT_X, ENEMY_START_POINT_Z_BOUNDS_MAX,
};
use crate::fixed::{mul_div, mul_div_of, saturate, saturated, UNIT};
use crate::game_manager::PointEvent;
use crate::health::Health;
use crate::hit_marker::HitMarker;
use crate::hook::Hookable;
use crate::movement::{Roller, Velocity};
use crate::random::random_in;
use crate::timer::{Timer, TimerMode};
use crate::vector::{Quat, Vec3};
use crate::world::{Body, Entity, World};

verus! {

/// Nanoseconds between two mines.
pub const MINE_SPAWN_TIME: u64 = 3_000_000_000;

pub const MINE_SPEED: i32 = 10_000;

pub const MINE_COLLISION_RADIUS: i32 = 1_600;

pub const MINE_COLLISION_DAMAGE: i32 = -30_000;

pub const MINE_HEALTH: i32 = 10_000;

pub const MINE_ROLL_SPEED: i32 = 200;

pub const MINE_PITCH_SPEED: i32 = 100;

pub const MINE_SPIN_SPEED: i32 = 1_200;

/// Where a caught mine rests, seen from the hook.
pub const MINE_HOOK_TRANSLATION_X: i32 = -1_000;

/// The size of the blast of a mine.
pub const MINE_BLAST_SIZE: i32 = 3_000;

pub const MINE_POINTS: u64 = 20;

/// The timer that paces the coming of mines.
#[derive(Clone, Copy, Debug, PartialEq, Eq)]
pub struct SpawnTimer(pub Timer);

impl Default for SpawnTimer {
    fn default() -> (r: Self)
        ensures
            r == SpawnTimer(Timer::spec_new(MINE_SPAWN_TIME, TimerMode::Repeating)),
    {
        SpawnTimer(Timer::new(MINE_SPAWN_TIME, TimerMode::Repeating))
    }
}

/// The mine that enters for the draw `spawn_pos`, which lies between minus
/// one and one: it enters that far to the side and crosses straight.
pub open spec fn mine_body(spawn_pos: i32) -> Body {
    Body {
        mine: true,
        scene: Some(Scene::Mine),
        velocity: Some(Velocity(Vec3 { x: MINE_SPEED, y: 0, z: 0 })),
        collider: Some(
            Collider { radius: MINE_COLLISION_RADIUS, collision_damage: MINE_COLLISION_DAMAGE },
        ),
        hookable: Some(
            Hookable {
                translation: Vec3 { x: MINE_HOOK_TRANSLATION_X, y: 0, z: 0 },
                rotation: Quat::spec_identity(),
            },
        ),
        health: Some(Health { value: MINE_HEALTH, max: MINE_HEALTH, last_hurt_by: None }),
        roller: Some(
            Roller { roll: Vec3 { x: MINE_ROLL_SPEED, y: MINE_PITCH_SPEED, z: MINE_SPIN_SPEED } },
        ),
        enemy: true,
        hit_marker: Some(HitMarker::spec_default()),
        ..Body::spec_new(
            Vec3 {
                x: ENEMY_START_POINT_X,
                y: 0,
                z: saturated(
                    mul_div_of(
                        ENEMY_START_POINT_Z_BOUNDS_MAX as int,
                        spawn_pos as int,
                        UNIT as int,
                    ),
                ) as i32,
            },
        )
    }
}

/// The mine that enters for the draw `spawn_pos`.
pub fn mine_builder(spawn_pos: i32) -> (r: Body)
    ensures
        r == mine_body(spawn_pos),
{
    let start_z: i32 = saturate(
        mul_div(ENEMY_START_POINT_Z_BOUNDS_MAX as i128, spawn_pos as i128, UNIT as i128),
    );
    let mut body: Body = Body::new(Vec3::new(ENEMY_START_POINT_X, 0, start_z));
    body.mine = true;
    body.scene = Some(Scene::Mine);
    body.velocity = Some(Velocity(Vec3::new(MINE_SPEED, 0, 0)));
    body.collider = Some(Collider::new(MINE_COLLISION_RADIUS, MINE_COLLISION_DAMAGE));
    body.hookable = Some(Hookable::new(Vec3::new(MINE_HOOK_TRANSLATION_X, 0, 0), Quat::identity()));
    body.health = Some(Health::new(MINE_HEALTH));
    body.roller = Some(Roller::new(MINE_ROLL_SPEED, MINE_PITCH_SPEED, MINE_SPIN_SPEED));
    body.enemy = true;
    body.hit_marker = Some(HitMarker::default());
    body
}

/// Lets `delta` nanoseconds pass and, when the interval has just ended, lets
/// a mine enter at a place drawn at random, and names it.
pub fn spawn_mine(world: &mut World, timer: &mut SpawnTimer, delta: u64) -> (r: Option<Entity>)
    requires
        old(world).wf(),
        old(world)@.len() < usize::MAX,
    ensures
        final(world).wf(),
        final(timer).0 == old(timer).0.ticked(delta),
        r is Some <==> final(timer).0.spec_just_finished(),
        r is None ==> final(world)@ == old(world)@,
        r matches Some(e) ==> e.0 == old(world)@.len() && exists|spawn_pos: i32|
            -UNIT <= spawn_pos < UNIT && final(world)@ == old(world)@.push(
                Some(#[trigger] mine_body(spawn_pos)),
            ),
{
    timer.0.tick(delta);
    if !timer.0.just_finished() {
        return None;
    }
    let spawn_pos: i32 = random_in(-UNIT, UNIT);
    let body: Body = mine_builder(spawn_pos);
    assert(body.untied() == body);
    let e: Entity = world.spawn(body);
    assert(final(world)@ == old(world)@.push(Some(mine_body(spawn_pos))));
    Some(e)
}

/// The blast that a dead mine leaves.
pub open spec fn mine_blast(death: Death) -> EffectSpriteEvent {
    EffectSpriteEvent {
        translation: death.translation,
        scale: MINE_BLAST_SIZE,
        velocity: death.velocity,
        effect: EffectSpriteType::Splosion,
    }
}

/// Removes the mines whose health is spent; each leaves a blast and wins the
/// player points.
pub fn check_dead(
    world: &mut World,
    effects: &mut Vec<EffectSpriteEvent>,
    points: &mut Vec<PointEvent>,
)
    requires
        old(world).wf(),
    ensures
        final(world).wf(),
        final(world)@ == deaths_upto(old(world)@, old(world)@.len() as int, EnemyKind::Mine).0,
        final(effects)@ == old(effects)@ + deaths_upto(
            old(world)@,
            old(world)@.len() as int,
            EnemyKind::Mine,
        ).1.map_values(|death: Death| mine_blast(death)),
        final(points)@ == old(points)@ + deaths_upto(
            old(world)@,
            old(world)@.len() as int,
            EnemyKind::Mine,
        ).1.map_values(|death: Death| PointEvent(MINE_POINTS)),
{
    let ghost effects_before = effects@;
    let ghost points_before = points@;
    let deaths: Vec<Death> = reap(world, EnemyKind::Mine);
    let n: usize = deaths.len();
    let mut k: usize = 0;
    proof {
        assert(effects@ =~= effects_before + deaths@.take(0).map_values(
            |death: Death| mine_blast(death),
        ));
        assert(points@ =~= points_before + deaths@.take(0).map_values(
            |death: Death| PointEvent(MINE_POINTS),
        ));
    }
    while k < n
        invariant
            n == deaths@.len(),
            k <= n,
            effects@ == effects_before + deaths@.take(k as int).map_values(
                |death: Death| mine_blast(death),
            ),
            points@ == points_before + deaths@.take(k as int).map_values(
                |death: Death| PointEvent(MINE_POINTS),
            ),
        decreases n - k,
    {
        let death: Death = deaths[k];
        effects.push(
            EffectSpriteEvent::new(
                death.translation,
                MINE_BLAST_SIZE,
                death.velocity,
                EffectSpriteType::Splosion,
            ),
        );
        points.push(PointEvent(MINE_POINTS));
        proof {
            assert(effects@ =~= effects_before + deaths@.take(k + 1).map_values(
                |death: Death| mine_blast(death),
            ));
            assert(points@ =~= points_before + deaths@.take(k + 1).map_values(
                |death: Death| PointEvent(MINE_POINTS),
            ));
        }
        k += 1;
    }
    assert(deaths@.take(n as int) =~= deaths@);
}

} // verus!
