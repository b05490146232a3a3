//! What all enemies share.
use vstd::prelude::*;
use crate::vector::{Quat, Vec3};
use crate::world::{without, world_translation_of, Body, Entity, World};

verus! {

/// Where enemies enter the field.
pub const ENEMY_START_POINT_X: i32 = -70_000;

/// How far to either side of the middle enemies enter.
pub const ENEMY_START_POINT_Z_BOUNDS_MAX: i32 = 26_000;

/// Marks an enemy.
#[derive(Clone, Copy, Debug, PartialEq, Eq, Default)]
pub struct Enemy;

/// The kinds of enemy.
#[derive(Clone, Copy, Debug, PartialEq, Eq)]
pub enum EnemyKind {
    Sidewinder,
    Mine,
}

/// An enemy has died: where it was, how it was turned and how it moved.
#[derive(Clone, Copy, Debug, PartialEq, Eq)]
pub struct Death {
    pub entity: Entity,
    pub translation: Vec3,
    pub rotation: Quat,
    pub velocity: Vec3,
}

/// Whether `body` is an enemy of `kind` that can die: a sidewinder that is
/// no wreck, or a mine.
pub open spec fn is_kind(body: Body, kind: EnemyKind) -> bool {
    match kind {
        EnemyKind::Sidewinder => body.sidewinder is Some && body.wreck is None,
        EnemyKind::Mine => body.mine,
    }
}

/// Whether the place `i` holds an enemy of `kind` that moves and whose
/// health is spent.
pub open spec fn dies(bodies: Seq<Option<Body>>, i: int, kind: EnemyKind) -> bool {
    bodies[i] matches Some(body) && is_kind(body, kind) && body.velocity is Some && (
    body.health matches Some(health) && health.spec_is_spent())
}

/// The death of the enemy in place `i`.
pub open spec fn death_of(bodies: Seq<Option<Body>>, i: int) -> Death {
    let body = bodies[i].unwrap();
    Death {
        entity: Entity(i as u64),
        translation: world_translation_of(bodies, Entity(i as u64)).unwrap(),
        rotation: body.rotation,
        velocity: body.velocity.unwrap().0,
    }
}

/// The bodies after the enemies of `kind` in the places below `upto` have
/// been looked at in turn, and the deaths among them: one whose health is
/// spent is gone, with what rides on it.
pub open spec fn deaths_upto(bodies: Seq<Option<Body>>, upto: int, kind: EnemyKind) -> (
    Seq<Option<Body>>,
    Seq<Death>,
)
    decreases upto,
{
    if upto <= 0 {
        (bodies, seq![])
    } else {
        let (before, deaths) = deaths_upto(bodies, upto - 1, kind);
        if upto - 1 < before.len() && dies(before, upto - 1, kind) {
            (without(before, Entity((upto - 1) as u64)), deaths.push(death_of(before, upto - 1)))
        } else {
            (before, deaths)
        }
    }
}

/// Removes the enemies of `kind` whose health is spent, and lists their deaths.
pub fn reap(world: &mut World, kind: EnemyKind) -> (deaths: Vec<Death>)
    requires
        old(world).wf(),
    ensures
        final(world).wf(),
        final(world)@ == deaths_upto(old(world)@, old(world)@.len() as int, kind).0,
        deaths@ == deaths_upto(old(world)@, old(world)@.len() as int, kind).1,
{
    let ghost before = world@;
    let mut deaths: Vec<Death> = Vec::new();
    let n: usize = world.len();
    let mut i: usize = 0;
    while i < n
        invariant
            n == before.len(),
            world@.len() == n,
            i <= n,
            world.wf(),
            before == old(world)@,
            world@ == deaths_upto(before, i as int, kind).0,
            deaths@ == deaths_upto(before, i as int, kind).1,
        decreases n - i,
    {
        let death: Option<Death> = match world.at(i) {
            Some(body) => {
                let fits: bool = match kind {
                    EnemyKind::Sidewinder => body.sidewinder.is_some() && body.wreck.is_none(),
                    EnemyKind::Mine => body.mine,
                };
                match (body.velocity, body.health) {
                    (Some(velocity), Some(health)) => {
                        if fits && health.is_spent() {
                            match world.world_translation(Entity(i as u64)) {
                                Some(translation) => Some(
                                    Death {
                                        entity: Entity(i as u64),
                                        translation,
                                        rotation: body.rotation,
                                        velocity: velocity.0,
                                    },
                                ),
                                None => None,
                            }
                        } else {
                            None
                        }
                    },
                    _ => None,
                }
            },
            None => None,
        };
        match death {
            Some(death) => {
                assert(dies(world@, i as int, kind));
                world.despawn(Entity(i as u64));
                deaths.push(death);
            },
            None => {
                assert(!dies(world@, i as int, kind));
            },
        }
        i += 1;
    }
    deaths
}

} // verus!
