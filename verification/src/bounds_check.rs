//! The edge of the field: what leaves it is gone.
use vstd::prelude::*;
use crate::vector::Vec3;
use crate::world::{without, world_translation_of, Body, Entity, World};

verus! {

pub const DESPAWN_X_MAX: i32 = 80_000;

pub const DESPAWN_X_MIN: i32 = -80_000;

pub const DESPAWN_Z_MAX: i32 = 40_000;

pub const DESPAWN_Z_MIN: i32 = -40_000;

/// Whether a place lies outside the field.
pub open spec fn spec_out_of_bounds(translation: Vec3) -> bool {
    translation.x > DESPAWN_X_MAX || translation.x < DESPAWN_X_MIN || translation.z > DESPAWN_Z_MAX
        || translation.z < DESPAWN_Z_MIN
}

/// Whether a place lies outside the field.
#[verifier::when_used_as_spec(spec_out_of_bounds)]
pub fn out_of_bounds(translation: Vec3) -> (r: bool)
    ensures
        r == spec_out_of_bounds(translation),
{
    translation.x > DESPAWN_X_MAX || translation.x < DESPAWN_X_MIN || translation.z > DESPAWN_Z_MAX
        || translation.z < DESPAWN_Z_MIN
}

/// Whether the body in place `i` is outside the field.
pub open spec fn leaves(bodies: Seq<Option<Body>>, i: int) -> bool {
    world_translation_of(bodies, Entity(i as u64)) matches Some(translation) && spec_out_of_bounds(
        translation,
    )
}

/// The bodies after those in the places below `upto` have been held against
/// the edge of the field in turn: one that is outside is gone, with what rides
/// on it.
pub open spec fn bounds_checked_upto(bodies: Seq<Option<Body>>, upto: int) -> Seq<Option<Body>>
    decreases upto,
{
    if upto <= 0 {
        bodies
    } else {
        let before = bounds_checked_upto(bodies, upto - 1);
        if leaves(before, upto - 1) {
            without(before, Entity((upto - 1) as u64))
        } else {
            before
        }
    }
}

/// Removes every body that is outside the field.
pub fn bounds_check(world: &mut World)
    requires
        old(world).wf(),
    ensures
        final(world).wf(),
        final(world)@ == bounds_checked_upto(old(world)@, old(world)@.len() as int),
{
    let ghost before = world@;
    let n: usize = world.len();
    let mut i: usize = 0;
    while i < n
        invariant
            n == before.len(),
            world@.len() == n,
            i <= n,
            world.wf(),
            world@ == bounds_checked_upto(before, i as int),
        decreases n - i,
    {
        match world.world_translation(Entity(i as u64)) {
            Some(translation) => {
                if out_of_bounds(translation) {
                    world.despawn(Entity(i as u64));
                }
            },
            None => {},
        }
        i += 1;
    }
}

} // verus!
