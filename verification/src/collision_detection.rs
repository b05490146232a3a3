//! Bounding spheres and the events their overlaps give rise to.
use vstd::prelude::*;
use crate::bullet::BulletHitEvent;
use crate::health::HealthEvent;
use crate::vector::Vec3;
use crate::world::{slot_at, world_translation_of, Body, Entity, World};

verus! {

/// A bounding sphere and the health that a collision with it costs the other side.
#[derive(Clone, Copy, Debug, PartialEq, Eq)]
pub struct Collider {
    pub radius: i32,
    pub collision_damage: i32,
}

impl Collider {
    pub fn new(radius: i32, collision_damage: i32) -> (r: Self)
        ensures
            r == (Collider { radius, collision_damage }),
    {
        Collider { radius, collision_damage }
    }
}

/// Marks a body as being on the player's side.
#[derive(Clone, Copy, Debug, PartialEq, Eq, Default)]
pub struct Player;

/// A body of the player's side has run into one that is not.
#[derive(Clone, Copy, Debug, PartialEq, Eq)]
pub struct CollisionEvent {
    pub player: Entity,
    pub other: Entity,
}

impl CollisionEvent {
    pub fn new(entity: Entity, collided: Entity) -> (r: Self)
        ensures
            r == (CollisionEvent { player: entity, other: collided }),
    {
        CollisionEvent { player: entity, other: collided }
    }
}

/// The three ways in which bodies are paired for collisions. In each an
/// outer body is held against every inner one.
#[derive(Clone, Copy, Debug, PartialEq, Eq)]
pub enum Pairing {
    /// The player's bullets against the colliders of the other side.
    PlayerBullet,
    /// The player's colliders that are no hook and can be hurt, against the
    /// bullets of the other side.
    EnemyBullet,
    /// The player's colliders that can be hurt, against the colliders of the
    /// other side.
    PlayerBody,
}

/// Whether `body` is an outer body of `pairing`.
pub open spec fn is_outer(body: Body, pairing: Pairing) -> bool {
    match pairing {
        Pairing::PlayerBullet => body.bullet is Some && body.player,
        Pairing::EnemyBullet => body.player && body.collider is Some && body.hook is None
            && body.invincible is None,
        Pairing::PlayerBody => body.player && body.collider is Some && body.invincible is None,
    }
}

/// Whether `body` is an inner body of `pairing`.
pub open spec fn is_inner(body: Body, pairing: Pairing) -> bool {
    match pairing {
        Pairing::PlayerBullet => body.collider is Some && !body.player,
        Pairing::EnemyBullet => body.bullet is Some && !body.player,
        Pairing::PlayerBody => body.collider is Some && !body.player,
    }
}

/// The square of the distance below which an outer and an inner body of
/// `pairing` touch: a bullet touches a collider within its radius, two
/// colliders touch within the sum of their radii.
pub open spec fn reach_squared(outer: Body, inner: Body, pairing: Pairing) -> int {
    match pairing {
        Pairing::PlayerBullet => inner.collider.unwrap().radius * inner.collider.unwrap().radius,
        Pairing::EnemyBullet => outer.collider.unwrap().radius * outer.collider.unwrap().radius,
        Pairing::PlayerBody => (outer.collider.unwrap().radius + inner.collider.unwrap().radius) * (
        outer.collider.unwrap().radius + inner.collider.unwrap().radius),
    }
}

/// Whether the bodies in the places `a` and `b` make a pair of `pairing` and touch.
pub open spec fn touches(bodies: Seq<Option<Body>>, a: int, b: int, pairing: Pairing) -> bool {
    &&& 0 <= a < bodies.len() && 0 <= b < bodies.len()
    &&& bodies[a] matches Some(outer) && is_outer(outer, pairing)
    &&& bodies[b] matches Some(inner) && is_inner(inner, pairing)
    &&& world_translation_of(bodies, Entity(a as u64)).unwrap().spec_distance_squared(
        world_translation_of(bodies, Entity(b as u64)).unwrap(),
    ) < reach_squared(bodies[a].unwrap(), bodies[b].unwrap(), pairing)
}

/// The health events that a touching pair gives rise to. A bullet costs the
/// body it hits its damage, in the name of its owner; two colliders cost each
/// other their collision damage, the player's side named first.
pub open spec fn health_of_pair(
    outer: Body,
    inner: Body,
    outer_name: Entity,
    inner_name: Entity,
    pairing: Pairing,
) -> Seq<HealthEvent> {
    match pairing {
        Pairing::PlayerBullet => seq![
            HealthEvent {
                entity: inner_name,
                inflictor: outer.bullet.unwrap().owner,
                health_adjustment: outer.bullet.unwrap().damage,
            },
        ],
        Pairing::EnemyBullet => seq![
            HealthEvent {
                entity: outer_name,
                inflictor: inner.bullet.unwrap().owner,
                health_adjustment: inner.bullet.unwrap().damage,
            },
        ],
        Pairing::PlayerBody => seq![
            HealthEvent {
                entity: outer_name,
                inflictor: Some(inner_name),
                health_adjustment: inner.collider.unwrap().collision_damage,
            },
            HealthEvent {
                entity: inner_name,
                inflictor: Some(outer_name),
                health_adjustment: outer.collider.unwrap().collision_damage,
            },
        ],
    }
}

/// The health events of the pair in the places `a` and `b`.
pub open spec fn pair_health(bodies: Seq<Option<Body>>, a: int, b: int, pairing: Pairing) -> Seq<
    HealthEvent,
> {
    health_of_pair(
        bodies[a].unwrap(),
        bodies[b].unwrap(),
        Entity(a as u64),
        Entity(b as u64),
        pairing,
    )
}

/// The bullet hits that a touching pair gives rise to.
pub open spec fn pair_hits(a: int, b: int, pairing: Pairing) -> Seq<BulletHitEvent> {
    match pairing {
        Pairing::PlayerBullet => seq![
            BulletHitEvent { bullet: Entity(a as u64), other: Some(Entity(b as u64)) },
        ],
        Pairing::EnemyBullet => seq![
            BulletHitEvent { bullet: Entity(b as u64), other: Some(Entity(a as u64)) },
        ],
        Pairing::PlayerBody => seq![],
    }
}

/// The collision events that a touching pair gives rise to.
pub open spec fn pair_collisions(a: int, b: int, pairing: Pairing) -> Seq<CollisionEvent> {
    match pairing {
        Pairing::PlayerBody => seq![
            CollisionEvent { player: Entity(a as u64), other: Entity(b as u64) },
        ],
        _ => seq![],
    }
}

/// The events of a frame: health events, bullet hits and collisions.
pub type Events = (Seq<HealthEvent>, Seq<BulletHitEvent>, Seq<CollisionEvent>);

/// The events of the outer body in place `a` with the inner bodies in the
/// places below `upto`, in the order of the places.
pub open spec fn row_events(bodies: Seq<Option<Body>>, a: int, upto: int, pairing: Pairing) -> Events
    decreases upto,
{
    if upto <= 0 {
        (seq![], seq![], seq![])
    } else {
        let before = row_events(bodies, a, upto - 1, pairing);
        if touches(bodies, a, upto - 1, pairing) {
            (
                before.0 + pair_health(bodies, a, upto - 1, pairing),
                before.1 + pair_hits(a, upto - 1, pairing),
                before.2 + pair_collisions(a, upto - 1, pairing),
            )
        } else {
            before
        }
    }
}

/// The events of the outer bodies in the places below `upto`, each with all
/// inner bodies, in the order of the places.
pub open spec fn events_upto(bodies: Seq<Option<Body>>, upto: int, pairing: Pairing) -> Events
    decreases upto,
{
    if upto <= 0 {
        (seq![], seq![], seq![])
    } else {
        let before = events_upto(bodies, upto - 1, pairing);
        let row = row_events(bodies, upto - 1, bodies.len() as int, pairing);
        (before.0 + row.0, before.1 + row.1, before.2 + row.2)
    }
}

/// All events of `pairing` among `bodies`.
pub open spec fn detected(bodies: Seq<Option<Body>>, pairing: Pairing) -> Events {
    events_upto(bodies, bodies.len() as int, pairing)
}

/// A body that is no outer body of the pairing gives rise to no event.
pub proof fn lemma_row_of_no_outer(bodies: Seq<Option<Body>>, a: int, upto: int, pairing: Pairing)
    requires
        !(0 <= a < bodies.len() && bodies[a] is Some && is_outer(bodies[a].unwrap(), pairing)),
    ensures
        row_events(bodies, a, upto, pairing) == (
            Seq::<HealthEvent>::empty(),
            Seq::<BulletHitEvent>::empty(),
            Seq::<CollisionEvent>::empty(),
        ),
    decreases upto,
{
    if upto > 0 {
        lemma_row_of_no_outer(bodies, a, upto - 1, pairing);
    }
}

fn outer_role(body: &Body, pairing: Pairing) -> (r: bool)
    ensures
        r == is_outer(*body, pairing),
{
    match pairing {
        Pairing::PlayerBullet => body.bullet.is_some() && body.player,
        Pairing::EnemyBullet => body.player && body.collider.is_some() && body.hook.is_none()
            && body.invincible.is_none(),
        Pairing::PlayerBody => body.player && body.collider.is_some() && body.invincible.is_none(),
    }
}

fn inner_role(body: &Body, pairing: Pairing) -> (r: bool)
    ensures
        r == is_inner(*body, pairing),
{
    match pairing {
        Pairing::PlayerBullet => body.collider.is_some() && !body.player,
        Pairing::EnemyBullet => body.bullet.is_some() && !body.player,
        Pairing::PlayerBody => body.collider.is_some() && !body.player,
    }
}

fn reach(outer: &Body, inner: &Body, pairing: Pairing) -> (r: u128)
    requires
        is_outer(*outer, pairing),
        is_inner(*inner, pairing),
    ensures
        r == reach_squared(*outer, *inner, pairing),
{
    let sum: i64 = match pairing {
        Pairing::PlayerBullet => match inner.collider {
            Some(collider) => collider.radius as i64,
            None => 0,
        },
        Pairing::EnemyBullet => match outer.collider {
            Some(collider) => collider.radius as i64,
            None => 0,
        },
        Pairing::PlayerBody => match (outer.collider, inner.collider) {
            (Some(first), Some(second)) => first.radius as i64 + second.radius as i64,
            _ => 0,
        },
    };
    proof {
        crate::fixed::lemma_product_bound(sum as int, sum as int, 0x1_0000_0000, 0x1_0000_0000);
        assert(sum * sum >= 0) by (nonlinear_arith);
    }
    let wide: i128 = sum as i128;
    (wide * wide) as u128
}

/// Adds the events of `pairing` among the bodies of `world` to the three lists.
fn detect(
    world: &World,
    pairing: Pairing,
    health: &mut Vec<HealthEvent>,
    hits: &mut Vec<BulletHitEvent>,
    collisions: &mut Vec<CollisionEvent>,
)
    ensures
        final(health)@ == old(health)@ + detected(world@, pairing).0,
        final(hits)@ == old(hits)@ + detected(world@, pairing).1,
        final(collisions)@ == old(collisions)@ + detected(world@, pairing).2,
{
    let ghost health_before = health@;
    let ghost hits_before = hits@;
    let ghost collisions_before = collisions@;
    let n: usize = world.len();
    let mut a: usize = 0;
    proof {
        assert(health@ + Seq::<HealthEvent>::empty() =~= health@);
        assert(hits@ + Seq::<BulletHitEvent>::empty() =~= hits@);
        assert(collisions@ + Seq::<CollisionEvent>::empty() =~= collisions@);
    }
    while a < n
        invariant
            n == world@.len(),
            a <= n,
            health_before == old(health)@,
            hits_before == old(hits)@,
            collisions_before == old(collisions)@,
            health@ == health_before + events_upto(world@, a as int, pairing).0,
            hits@ == hits_before + events_upto(world@, a as int, pairing).1,
            collisions@ == collisions_before + events_upto(world@, a as int, pairing).2,
        decreases n - a,
    {
        let ghost health_row = health@;
        let ghost hits_row = hits@;
        let ghost collisions_row = collisions@;
        let outer: Option<Body> = world.at(a);
        let outer_body: Option<Body> = match outer {
            Some(body) => if outer_role(&body, pairing) {
                Some(body)
            } else {
                None
            },
            None => None,
        };
        match outer_body {
            Some(outer) => {
                let outer_position: Vec3 = match world.world_translation(Entity(a as u64)) {
                    Some(position) => position,
                    None => outer.translation,
                };
                let mut b: usize = 0;
                proof {
                    assert(health@ + Seq::<HealthEvent>::empty() =~= health@);
                    assert(hits@ + Seq::<BulletHitEvent>::empty() =~= hits@);
                    assert(collisions@ + Seq::<CollisionEvent>::empty() =~= collisions@);
                }
                while b < n
                    invariant
                        n == world@.len(),
                        a < n,
                        b <= n,
                        world@[a as int] == Some(outer),
                        is_outer(outer, pairing),
                        Some(outer_position) == world_translation_of(world@, Entity(a as u64)),
                        health@ == health_row + row_events(world@, a as int, b as int, pairing).0,
                        hits@ == hits_row + row_events(world@, a as int, b as int, pairing).1,
                        collisions@ == collisions_row + row_events(
                            world@,
                            a as int,
                            b as int,
                            pairing,
                        ).2,
                    decreases n - b,
                {
                    let ghost row = row_events(world@, a as int, b as int, pairing);
                    match world.at(b) {
                        Some(inner) => {
                            if inner_role(&inner, pairing) {
                                let inner_position: Vec3 = match world.world_translation(
                                    Entity(b as u64),
                                ) {
                                    Some(position) => position,
                                    None => inner.translation,
                                };
                                if outer_position.distance_squared(inner_position) < reach(
                                    &outer,
                                    &inner,
                                    pairing,
                                ) {
                                    assert(touches(world@, a as int, b as int, pairing));
                                    push_pair(&outer, &inner, a, b, pairing, health, hits, collisions);
                                    proof {
                                        assert(health@ =~= health_row + (row.0 + pair_health(
                                            world@,
                                            a as int,
                                            b as int,
                                            pairing,
                                        )));
                                        assert(hits@ =~= hits_row + (row.1 + pair_hits(
                                            a as int,
                                            b as int,
                                            pairing,
                                        )));
                                        assert(collisions@ =~= collisions_row + (row.2
                                            + pair_collisions(a as int, b as int, pairing)));
                                    }
                                }
                            }
                        },
                        None => {},
                    }
                    b += 1;
                }
                proof {
                    let row = row_events(world@, a as int, n as int, pairing);
                    let upto = events_upto(world@, a as int, pairing);
                    assert(health@ =~= health_before + (upto.0 + row.0));
                    assert(hits@ =~= hits_before + (upto.1 + row.1));
                    assert(collisions@ =~= collisions_before + (upto.2 + row.2));
                }
            },
            None => {
                proof {
                    lemma_row_of_no_outer(world@, a as int, n as int, pairing);
                    let upto = events_upto(world@, a as int, pairing);
                    assert(upto.0 + Seq::<HealthEvent>::empty() =~= upto.0);
                    assert(upto.1 + Seq::<BulletHitEvent>::empty() =~= upto.1);
                    assert(upto.2 + Seq::<CollisionEvent>::empty() =~= upto.2);
                }
            },
        }
        a += 1;
    }
}

fn push_pair(
    outer: &Body,
    inner: &Body,
    a: usize,
    b: usize,
    pairing: Pairing,
    health: &mut Vec<HealthEvent>,
    hits: &mut Vec<BulletHitEvent>,
    collisions: &mut Vec<CollisionEvent>,
)
    requires
        is_outer(*outer, pairing),
        is_inner(*inner, pairing),
    ensures
        final(health)@ == old(health)@ + health_of_pair(
            *outer,
            *inner,
            Entity(a as u64),
            Entity(b as u64),
            pairing,
        ),
        final(hits)@ == old(hits)@ + pair_hits(a as int, b as int, pairing),
        final(collisions)@ == old(collisions)@ + pair_collisions(a as int, b as int, pairing),
{
    let outer_name: Entity = Entity(a as u64);
    let inner_name: Entity = Entity(b as u64);
    match pairing {
        Pairing::PlayerBullet => {
            match outer.bullet {
                Some(bullet) => {
                    health.push(HealthEvent::new(inner_name, bullet.owner, bullet.damage));
                    hits.push(BulletHitEvent::new(outer_name, Some(inner_name)));
                },
                None => {},
            }
        },
        Pairing::EnemyBullet => {
            match inner.bullet {
                Some(bullet) => {
                    health.push(HealthEvent::new(outer_name, bullet.owner, bullet.damage));
                    hits.push(BulletHitEvent::new(inner_name, Some(outer_name)));
                },
                None => {},
            }
        },
        Pairing::PlayerBody => {
            match (outer.collider, inner.collider) {
                (Some(first), Some(second)) => {
                    health.push(
                        HealthEvent::new(outer_name, Some(inner_name), second.collision_damage),
                    );
                    health.push(
                        HealthEvent::new(inner_name, Some(outer_name), first.collision_damage),
                    );
                    collisions.push(CollisionEvent::new(outer_name, inner_name));
                },
                _ => {},
            }
        },
    }
    proof {
        assert(final(health)@ =~= old(health)@ + health_of_pair(
            *outer,
            *inner,
            outer_name,
            inner_name,
            pairing,
        ));
        assert(final(hits)@ =~= old(hits)@ + pair_hits(a as int, b as int, pairing));
        assert(final(collisions)@ =~= old(collisions)@ + pair_collisions(
            a as int,
            b as int,
            pairing,
        ));
    }
}

/// Holds each bullet of the player against each collider of the other
/// side, and adds for each pair that touches the loss of health and the hit.
pub fn player_bullet_collision_detection(
    world: &World,
    health: &mut Vec<HealthEvent>,
    hits: &mut Vec<BulletHitEvent>,
)
    ensures
        final(health)@ == old(health)@ + detected(world@, Pairing::PlayerBullet).0,
        final(hits)@ == old(hits)@ + detected(world@, Pairing::PlayerBullet).1,
{
    let mut collisions: Vec<CollisionEvent> = Vec::new();
    detect(world, Pairing::PlayerBullet, health, hits, &mut collisions);
}

/// Holds each body of the player that can be hurt, hooks left out, against
/// each bullet of the other side, and adds for each pair that touches the loss
/// of health and the hit.
pub fn enemy_bullet_collision_detection(
    world: &World,
    health: &mut Vec<HealthEvent>,
    hits: &mut Vec<BulletHitEvent>,
)
    ensures
        final(health)@ == old(health)@ + detected(world@, Pairing::EnemyBullet).0,
        final(hits)@ == old(hits)@ + detected(world@, Pairing::EnemyBullet).1,
{
    let mut collisions: Vec<CollisionEvent> = Vec::new();
    detect(world, Pairing::EnemyBullet, health, hits, &mut collisions);
}

/// Holds each body of the player that can be hurt against each collider of
/// the other side, and adds for each pair that touches the loss of health on
/// both sides and the collision.
pub fn player_collision_detection(
    world: &World,
    health: &mut Vec<HealthEvent>,
    collisions: &mut Vec<CollisionEvent>,
)
    ensures
        final(health)@ == old(health)@ + detected(world@, Pairing::PlayerBody).0,
        final(collisions)@ == old(collisions)@ + detected(world@, Pairing::PlayerBody).2,
{
    let mut hits: Vec<BulletHitEvent> = Vec::new();
    detect(world, Pairing::PlayerBody, health, &mut hits, collisions);
}

} // verus!
