use the_claw::asset_loader::Scene;
use the_claw::bounds_check::{bounds_check, out_of_bounds};
use the_claw::bullet::{
    bullet_builder, bullet_hits, do_shooting, Bullet, BulletHitEvent, ShootEvent,
};
use the_claw::collision_detection::{
    enemy_bullet_collision_detection, player_bullet_collision_detection,
    player_collision_detection, Collider, CollisionEvent,
};
use the_claw::effect_sprite::{EffectSpriteEvent, EffectSpriteType};
use the_claw::health::{apply_health_changes, make_dead, Dead, Health, HealthEvent};
use the_claw::hook::hook_builder;
use the_claw::movement::{update_position, update_velocity, Acceleration, Roller, Velocity};
use the_claw::ship::Invincible;
use the_claw::timer::{Timer, TimerMode};
use the_claw::vector::Vec3;
use the_claw::world::{Body, Entity, World};

#[test]
fn health_takes_losses_and_gains_up_to_its_maximum() {
    let mut health = Health::new(30_000);
    assert_eq!(health, Health { value: 30_000, max: 30_000, last_hurt_by: None });
    health.adjust(Some(Entity(3)), -20_000);
    assert_eq!(health, Health { value: 10_000, max: 30_000, last_hurt_by: Some(Entity(3)) });
    health.adjust(None, -4_000);
    assert_eq!(health, Health { value: 6_000, max: 30_000, last_hurt_by: Some(Entity(3)) });
    health.adjust(Some(Entity(4)), 50_000);
    assert_eq!(health, Health { value: 30_000, max: 30_000, last_hurt_by: Some(Entity(3)) });
    health.adjust(Some(Entity(5)), -30_000);
    assert_eq!(health.value, 0);
    assert!(health.is_spent());
    // at zero it still takes adjustments
    health.adjust(Some(Entity(6)), -1_000_000);
    assert_eq!(health, Health { value: -1_000_000, max: 30_000, last_hurt_by: Some(Entity(6)) });
    // below zero it takes none
    health.adjust(Some(Entity(7)), 2_000_000);
    assert_eq!(health, Health { value: -1_000_000, max: 30_000, last_hurt_by: Some(Entity(6)) });
}

#[test]
fn health_saturates() {
    let mut health = Health { value: 5, max: i32::MAX, last_hurt_by: None };
    health.adjust(None, i32::MAX);
    assert_eq!(health.value, i32::MAX);
    let mut low = Health { value: 0, max: 10, last_hurt_by: None };
    low.adjust(None, i32::MIN);
    assert_eq!(low.value, i32::MIN);
}

#[test]
fn health_events_apply_in_turn_and_the_dead_are_marked() {
    let mut world = World::new();
    let mut a = Body::new(Vec3::zero());
    a.health = Some(Health::new(10_000));
    let a = world.spawn(a);
    let b = world.spawn(Body::new(Vec3::zero()));
    apply_health_changes(
        &mut world,
        &vec![
            HealthEvent::new(a, Some(b), -4_000),
            HealthEvent::new(b, Some(a), -4_000),
            HealthEvent::new(Entity(9), None, -4_000),
            HealthEvent::new(a, None, -7_000),
            HealthEvent::new(a, Some(a), 1_000),
        ],
    );
    assert_eq!(world.get(a).unwrap().health, Some(Health { value: -1_000, max: 10_000, last_hurt_by: Some(b) }));
    assert_eq!(world.get(b).unwrap().health, None);
    make_dead(&mut world);
    assert_eq!(world.get(a).unwrap().dead, Some(Dead { killer: Some(b) }));
    assert_eq!(world.get(b).unwrap().dead, None);
}

#[test]
fn velocity_follows_acceleration_with_drag_and_a_limit() {
    let push = Acceleration::new(Vec3::new(500_000, 0, 0), 150_000, 40_000);
    // from rest: no drag, the push acts for a tenth of a second, the limit cuts
    assert_eq!(push.apply(Vec3::zero(), 100_000_000), Vec3::new(40_000, 0, 0));
    assert_eq!(push.apply(Vec3::zero(), 10_000_000), Vec3::new(5_000, 0, 0));
    // moving with the push: the drag takes its part
    assert_eq!(push.apply(Vec3::new(10_000, 0, 0), 10_000_000), Vec3::new(13_500, 0, 0));
    // no push: the drag slows the body
    let coast = Acceleration::new(Vec3::zero(), 5_000, 80_000);
    assert_eq!(coast.apply(Vec3::new(-60_000, 0, 0), 1_000_000_000), Vec3::new(-55_000, 0, 0));
    // slow and not pushed: it stops
    assert_eq!(coast.apply(Vec3::new(1_000, 0, 1_000 - 1), 1), Vec3::zero());
    assert_eq!(coast.apply(Vec3::new(1_000, 0, 1_000), 0), Vec3::new(1_000, 0, 1_000));
}

#[test]
fn bodies_move_with_their_velocity() {
    assert_eq!(
        Velocity(Vec3::new(60_000, 0, -30_000)).carry(Vec3::new(1, 2, 3), 500_000_000),
        Vec3::new(30_001, 2, -14_997)
    );
    let mut world = World::new();
    let mut moving = Body::new(Vec3::new(1_000, 0, 0));
    moving.velocity = Some(Velocity(Vec3::new(-60_000, 0, 0)));
    moving.acceleration = Some(Acceleration::new(Vec3::zero(), 5_000, 80_000));
    let moving = world.spawn(moving);
    let still = world.spawn(Body::new(Vec3::new(5, 5, 5)));
    let mut free = Body::new(Vec3::zero());
    free.velocity = Some(Velocity(Vec3::new(0, 1_000, 0)));
    let free = world.spawn(free);
    update_velocity(&mut world, 1_000_000_000);
    assert_eq!(world.get(moving).unwrap().velocity, Some(Velocity(Vec3::new(-55_000, 0, 0))));
    assert_eq!(world.get(free).unwrap().velocity, Some(Velocity(Vec3::new(0, 1_000, 0))));
    update_position(&mut world, 100_000_000);
    assert_eq!(world.get(moving).unwrap().translation, Vec3::new(-4_500, 0, 0));
    assert_eq!(world.get(still).unwrap().translation, Vec3::new(5, 5, 5));
    assert_eq!(world.get(free).unwrap().translation, Vec3::new(0, 100, 0));
    assert_eq!(Roller::new(1, 2, 3), Roller { roll: Vec3::new(1, 2, 3) });
}

fn bullet(place: Vec3, player: bool, owner: Entity) -> Body {
    bullet_builder(&ShootEvent::new(player, place, Vec3::zero(), -20_000, 1_000, owner))
}

fn collider(place: Vec3, player: bool, radius: i32, damage: i32) -> Body {
    let mut body = Body::new(place);
    body.collider = Some(Collider::new(radius, damage));
    body.player = player;
    body
}

#[test]
fn players_bullets_hit_the_other_side() {
    let mut world = World::new();
    let enemy = world.spawn(collider(Vec3::new(0, 0, 0), false, 2_500, -25_000));
    let friend = world.spawn(collider(Vec3::new(0, 0, 0), true, 2_500, 0));
    let shot = world.spawn(bullet(Vec3::new(2_499, 0, 0), true, friend));
    let miss = world.spawn(bullet(Vec3::new(2_500, 0, 0), true, friend));
    let theirs = world.spawn(bullet(Vec3::new(0, 0, 0), false, enemy));
    let _ = (miss, theirs);
    let mut health = Vec::new();
    let mut hits = Vec::new();
    player_bullet_collision_detection(&world, &mut health, &mut hits);
    assert_eq!(health, vec![HealthEvent::new(enemy, Some(friend), -20_000)]);
    assert_eq!(hits, vec![BulletHitEvent::new(shot, Some(enemy))]);
}

#[test]
fn enemy_bullets_hit_the_player_but_not_hooks_or_the_invincible() {
    let mut world = World::new();
    let enemy = world.spawn(collider(Vec3::new(50_000, 0, 0), false, 2_500, -25_000));
    let ship = world.spawn(collider(Vec3::new(0, 0, 0), true, 1_800, -1_000_000));
    let mut safe = collider(Vec3::new(0, 0, 10_000), true, 1_800, 0);
    safe.invincible = Some(Invincible { time: Timer::new(1, TimerMode::Once) });
    let safe = world.spawn(safe);
    let hook = world.spawn_hook(hook_builder(ship, Vec3::new(0, 0, 20_000), Vec3::zero())).unwrap();
    let first = world.spawn(bullet(Vec3::new(1_000, 0, 0), false, enemy));
    let second = world.spawn(bullet(Vec3::new(0, 0, -1_799), false, enemy));
    world.spawn(bullet(Vec3::new(0, 0, 10_000), false, enemy));
    world.spawn(bullet(Vec3::new(0, 0, 20_000), false, enemy));
    world.spawn(bullet(Vec3::new(0, 0, 0), true, ship));
    let _ = (safe, hook);
    let mut health = vec![HealthEvent::new(Entity(77), None, 1)];
    let mut hits = Vec::new();
    enemy_bullet_collision_detection(&world, &mut health, &mut hits);
    assert_eq!(
        health,
        vec![
            HealthEvent::new(Entity(77), None, 1),
            HealthEvent::new(ship, Some(enemy), -20_000),
            HealthEvent::new(ship, Some(enemy), -20_000),
        ]
    );
    assert_eq!(
        hits,
        vec![BulletHitEvent::new(first, Some(ship)), BulletHitEvent::new(second, Some(ship))]
    );
}

#[test]
fn bodies_collide_within_the_sum_of_their_radii() {
    let mut world = World::new();
    let ship = world.spawn(collider(Vec3::new(0, 0, 0), true, 1_800, -1_000_000));
    let near = world.spawn(collider(Vec3::new(4_299, 0, 0), false, 2_500, -25_000));
    let far = world.spawn(collider(Vec3::new(0, 0, 4_300), false, 2_500, -25_000));
    let hook = world.spawn_hook(hook_builder(ship, Vec3::new(6_000, 0, 0), Vec3::zero())).unwrap();
    let _ = far;
    let mut health = Vec::new();
    let mut collisions = Vec::new();
    player_collision_detection(&world, &mut health, &mut collisions);
    assert_eq!(
        health,
        vec![
            HealthEvent::new(ship, Some(near), -25_000),
            HealthEvent::new(near, Some(ship), -1_000_000),
            HealthEvent::new(hook, Some(near), -25_000),
            HealthEvent::new(near, Some(hook), 0),
        ]
    );
    assert_eq!(collisions, vec![CollisionEvent::new(ship, near), CollisionEvent::new(hook, near)]);
}

#[test]
fn riders_collide_where_they_are_in_the_world() {
    let mut world = World::new();
    let carrier = world.spawn(Body::new(Vec3::new(100_000, 0, 0)));
    let rider = world.spawn(collider(Vec3::new(1_000, 0, 0), true, 1_000, -5));
    assert!(world.add_child(carrier, rider));
    let enemy = world.spawn(collider(Vec3::new(101_500, 0, 0), false, 1_000, -7));
    let mut health = Vec::new();
    let mut collisions = Vec::new();
    player_collision_detection(&world, &mut health, &mut collisions);
    assert_eq!(collisions, vec![CollisionEvent::new(rider, enemy)]);
}

#[test]
fn shooting_adds_bullets() {
    let mut world = World::new();
    let owner = world.spawn(Body::new(Vec3::zero()));
    do_shooting(
        &mut world,
        &vec![
            ShootEvent::new(true, Vec3::new(1, 2, 3), Vec3::new(4, 5, 6), -20_000, 1_500, owner),
            ShootEvent::new(false, Vec3::new(7, 8, 9), Vec3::zero(), -1, 1_000, owner),
        ],
    );
    assert_eq!(world.len(), 3);
    let first = world.get(Entity(1)).unwrap();
    assert_eq!(first.bullet, Some(Bullet { damage: -20_000, owner: Some(owner) }));
    assert_eq!(first.translation, Vec3::new(1, 2, 3));
    assert_eq!(first.velocity, Some(Velocity(Vec3::new(4, 5, 6))));
    assert_eq!(first.scale, 1_500);
    assert_eq!(first.scene, Some(Scene::Bullet));
    assert!(first.player);
    let second = world.get(Entity(2)).unwrap();
    assert!(!second.player);
    assert_eq!(second.translation, Vec3::new(7, 8, 9));
}

#[test]
fn bullets_that_hit_are_gone_and_leave_a_ricochet() {
    let mut world = World::new();
    let mut target = Body::new(Vec3::zero());
    target.velocity = Some(Velocity(Vec3::new(20_000, 0, 0)));
    let target = world.spawn(target);
    let still = world.spawn(Body::new(Vec3::zero()));
    let a = world.spawn(bullet(Vec3::new(1, 0, 0), true, still));
    let b = world.spawn(bullet(Vec3::new(2, 0, 0), true, still));
    let c = world.spawn(bullet(Vec3::new(3, 0, 0), true, still));
    let mut effects = Vec::new();
    bullet_hits(
        &mut world,
        &vec![
            BulletHitEvent::new(a, Some(target)),
            BulletHitEvent::new(b, Some(still)),
            BulletHitEvent::new(c, None),
            BulletHitEvent::new(a, Some(target)),
            BulletHitEvent::new(Entity(50), Some(target)),
        ],
        &mut effects,
    );
    assert_eq!(
        effects,
        vec![
            EffectSpriteEvent::new(Vec3::new(1, 0, 0), 1_000, Vec3::new(20_000, 0, 0), EffectSpriteType::Ricochet),
            EffectSpriteEvent::new(Vec3::new(2, 0, 0), 1_000, Vec3::zero(), EffectSpriteType::Ricochet),
            EffectSpriteEvent::new(Vec3::new(3, 0, 0), 1_000, Vec3::zero(), EffectSpriteType::Ricochet),
        ]
    );
    assert_eq!(world.get(a), None);
    assert_eq!(world.get(b), None);
    assert_eq!(world.get(c), None);
    assert!(world.get(target).is_some());
}

#[test]
fn what_leaves_the_field_is_gone() {
    assert!(!out_of_bounds(Vec3::new(80_000, 1_000_000, 40_000)));
    assert!(!out_of_bounds(Vec3::new(-80_000, 0, -40_000)));
    assert!(out_of_bounds(Vec3::new(80_001, 0, 0)));
    assert!(out_of_bounds(Vec3::new(-80_001, 0, 0)));
    assert!(out_of_bounds(Vec3::new(0, 0, 40_001)));
    assert!(out_of_bounds(Vec3::new(0, 0, -40_001)));
    let mut world = World::new();
    let inside = world.spawn(Body::new(Vec3::new(80_000, 0, 0)));
    let outside = world.spawn(Body::new(Vec3::new(80_001, 0, 0)));
    let carrier = world.spawn(Body::new(Vec3::new(79_000, 0, 0)));
    let rider = world.spawn(Body::new(Vec3::new(2_000, 0, 0)));
    assert!(world.add_child(carrier, rider));
    let gone_carrier = world.spawn(Body::new(Vec3::new(0, 0, -50_000)));
    let gone_rider = world.spawn(Body::new(Vec3::new(0, 0, 50_000)));
    assert!(world.add_child(gone_carrier, gone_rider));
    bounds_check(&mut world);
    assert!(world.get(inside).is_some());
    assert_eq!(world.get(outside), None);
    assert!(world.get(carrier).is_some());
    assert_eq!(world.get(rider), None);
    assert_eq!(world.get(gone_carrier), None);
    assert_eq!(world.get(gone_rider), None);
}
