//! Bullets and the events that fire and spend them.
use vstd::prelude::*;
use crate::asset_loader::Scene;
use crate::effect_sprite::{EffectSpriteEvent, EffectSpriteType};
use crate::fixed::UNIT;
use crate::movement::Velocity;
use crate::vector::Vec3;
use crate::world::{slot_at, without, world_translation_of, Body, Entity, World};

verus! {

/// A bullet has hit `other`, or has been spent otherwise.
#[derive(Clone, Copy, Debug, PartialEq, Eq)]
pub struct BulletHitEvent {
    pub bullet: Entity,
    pub other: Option<Entity>,
}

impl BulletHitEvent {
    pub fn new(entity: Entity, other: Option<Entity>) -> (r: Self)
        ensures
            r == (BulletHitEvent { bullet: entity, other }),
    {
        BulletHitEvent { bullet: entity, other }
    }
}

/// A request to fire a bullet.
#[derive(Clone, Copy, Debug, PartialEq, Eq)]
pub struct ShootEvent {
    pub is_player: bool,
    pub start: Vec3,
    pub velocity: Vec3,
    pub damage: i32,
    pub scale: i32,
    pub owner: Entity,
}

impl ShootEvent {
    pub fn new(
        is_player: bool,
        start: Vec3,
        velocity: Vec3,
        damage: i32,
        scale: i32,
        owner: Entity,
    ) -> (r: Self)
        ensures
            r == (ShootEvent { is_player, start, velocity, damage, scale, owner }),
    {
        ShootEvent { is_player, start, velocity, damage, scale, owner }
    }
}

/// A bullet in flight: what it costs the body it hits, and who fired it.
#[derive(Clone, Copy, Debug, PartialEq, Eq)]
pub struct Bullet {
    pub damage: i32,
    pub owner: Option<Entity>,
}

/// The bullet that `event` asks for.
pub open spec fn bullet_body(event: ShootEvent) -> Body {
    Body {
        bullet: Some(Bullet { damage: event.damage, owner: Some(event.owner) }),
        scene: Some(Scene::Bullet),
        scale: event.scale,
        velocity: Some(Velocity(event.velocity)),
        player: event.is_player,
        ..Body::spec_new(event.start)
    }
}

/// The bullet that `event` asks for.
pub fn bullet_builder(event: &ShootEvent) -> (r: Body)
    ensures
        r == bullet_body(*event),
{
    let mut body: Body = Body::new(event.start);
    body.bullet = Some(Bullet { damage: event.damage, owner: Some(event.owner) });
    body.scene = Some(Scene::Bullet);
    body.scale = event.scale;
    body.velocity = Some(Velocity(event.velocity));
    body.player = event.is_player;
    body
}

/// The bodies with the bullets that `events` ask for, in turn.
pub open spec fn after_shooting(bodies: Seq<Option<Body>>, events: Seq<ShootEvent>) -> Seq<Option<Body>>
    decreases events.len(),
{
    if events.len() == 0 {
        bodies
    } else {
        after_shooting(bodies, events.drop_last()).push(Some(bullet_body(events.last())))
    }
}

/// Fires the bullets that `events` ask for.
pub fn do_shooting(world: &mut World, events: &Vec<ShootEvent>)
    requires
        old(world).wf(),
        old(world)@.len() + events@.len() < usize::MAX,
    ensures
        final(world).wf(),
        final(world)@ == after_shooting(old(world)@, events@),
{
    let ghost before = world@;
    let n: usize = events.len();
    let mut k: usize = 0;
    assert(events@.take(0) =~= Seq::<ShootEvent>::empty());
    while k < n
        invariant
            n == events@.len(),
            k <= n,
            world.wf(),
            before.len() + n < usize::MAX,
            world@.len() == before.len() + k,
            world@ == after_shooting(before, events@.take(k as int)),
        decreases n - k,
    {
        proof {
            assert(events@.take(k + 1).drop_last() =~= events@.take(k as int));
        }
        let body: Body = bullet_builder(&events[k]);
        assert(body.untied() == body);
        world.spawn(body);
        k += 1;
    }
    assert(events@.take(n as int) =~= events@);
}

/// The mark that the hit `event` leaves: a ricochet at the bullet's place
/// that drifts with the body hit, where it moves; none where the bullet is gone.
pub open spec fn ricochet_of(bodies: Seq<Option<Body>>, event: BulletHitEvent) -> Option<
    EffectSpriteEvent,
> {
    match world_translation_of(bodies, event.bullet) {
        Some(translation) => Some(
            EffectSpriteEvent {
                translation,
                scale: UNIT,
                velocity: match event.other {
                    Some(other) => match slot_at(bodies, other) {
                        Some(body) => match body.velocity {
                            Some(velocity) => velocity.0,
                            None => Vec3::spec_zero(),
                        },
                        None => Vec3::spec_zero(),
                    },
                    None => Vec3::spec_zero(),
                },
                effect: EffectSpriteType::Ricochet,
            },
        ),
        None => None,
    }
}

/// The bodies after the hits `events` have been looked at in turn, and the
/// marks they leave: each bullet is gone.
pub open spec fn after_bullet_hits(bodies: Seq<Option<Body>>, events: Seq<BulletHitEvent>) -> (
    Seq<Option<Body>>,
    Seq<EffectSpriteEvent>,
)
    decreases events.len(),
{
    if events.len() == 0 {
        (bodies, seq![])
    } else {
        let (before, marks) = after_bullet_hits(bodies, events.drop_last());
        (
            without(before, events.last().bullet),
            match ricochet_of(before, events.last()) {
                Some(mark) => marks.push(mark),
                None => marks,
            },
        )
    }
}

/// Removes the bullets that have hit, and adds a ricochet for each to `effects`.
pub fn bullet_hits(
    world: &mut World,
    events: &Vec<BulletHitEvent>,
    effects: &mut Vec<EffectSpriteEvent>,
)
    requires
        old(world).wf(),
    ensures
        final(world).wf(),
        final(world)@ == after_bullet_hits(old(world)@, events@).0,
        final(effects)@ == old(effects)@ + after_bullet_hits(old(world)@, events@).1,
{
    let ghost before = world@;
    let ghost effects_before = effects@;
    let n: usize = events.len();
    let mut k: usize = 0;
    proof {
        assert(events@.take(0) =~= Seq::<BulletHitEvent>::empty());
        assert(effects@ + Seq::<EffectSpriteEvent>::empty() =~= effects@);
    }
    while k < n
        invariant
            n == events@.len(),
            k <= n,
            world.wf(),
            effects_before == old(effects)@,
            world@ == after_bullet_hits(before, events@.take(k as int)).0,
            effects@ == effects_before + after_bullet_hits(before, events@.take(k as int)).1,
        decreases n - k,
    {
        let event: BulletHitEvent = events[k];
        let ghost so_far = after_bullet_hits(before, events@.take(k as int));
        proof {
            assert(events@.take(k + 1).drop_last() =~= events@.take(k as int));
            assert(events@.take(k + 1).last() == event);
        }
        match world.world_translation(event.bullet) {
            Some(translation) => {
                let velocity: Vec3 = match event.other {
                    Some(other) => match world.get(other) {
                        Some(body) => match body.velocity {
                            Some(velocity) => velocity.0,
                            None => Vec3::zero(),
                        },
                        None => Vec3::zero(),
                    },
                    None => Vec3::zero(),
                };
                let mark: EffectSpriteEvent = EffectSpriteEvent::new(
                    translation,
                    UNIT,
                    velocity,
                    EffectSpriteType::Ricochet,
                );
                effects.push(mark);
                proof {
                    assert(effects@ =~= effects_before + so_far.1.push(mark));
                }
            },
            None => {},
        }
        world.despawn(event.bullet);
        k += 1;
    }
    assert(events@.take(n as int) =~= events@);
}

} // verus!
