use the_claw::collision_detection::{player_collision_detection, Collider, CollisionEvent};
use the_claw::health::{apply_health_changes, make_dead, Health, HealthEvent};
use the_claw::hook::{
    apply_collisions, center_hooked, update_hook, HookReturnedEvent, Hookable, HOOK_RECLAIM_DISTANCE,
    HOOK_RETURN_ACCELERATION, HOOK_RETURN_DISTANCE,
};
use the_claw::input::{InputEventAction, InputEventType, InputTriggerEvent};
use the_claw::movement::{update_position, update_velocity, Velocity};
use the_claw::ship::{fire_controls, remove_dead_captive, spawn_ship, Captured};
use the_claw::vector::{Quat, Vec3};
use the_claw::world::{Body, Entity, World};

const FRAME: u64 = 16_666_667;

fn pressed() -> Vec<InputTriggerEvent> {
    vec![InputTriggerEvent::new(InputEventAction::Shoot, InputEventType::Pressed)]
}

/// One frame of the hook and of what it needs: the returns of the frame
/// before remove the hook, the hook is updated, the catch is handed over,
/// everything moves, and collisions are found for the next frame.
fn frame(
    world: &mut World,
    returned: &mut Vec<HookReturnedEvent>,
    collisions: &mut Vec<CollisionEvent>,
    seen: &mut Vec<HookReturnedEvent>,
) {
    the_claw::hook::retrieve_hook(world, returned);
    returned.clear();
    update_hook(world, returned);
    seen.extend(returned.iter().copied());
    the_claw::ship::retrieve_hook(world, returned);
    apply_collisions(world, collisions);
    collisions.clear();
    center_hooked(world, FRAME);
    update_velocity(world, FRAME);
    update_position(world, FRAME);
    let mut health = Vec::new();
    player_collision_detection(world, &mut health, collisions);
}

fn still_ship() -> (World, Entity) {
    let mut world = World::new();
    let ship = spawn_ship(&mut world);
    let mut body = world.get(ship).unwrap();
    body.translation = Vec3::zero();
    body.invincible = None;
    world.update(ship, body);
    (world, ship)
}

#[test]
fn hook_flies_out_turns_back_and_is_reclaimed() {
    let (mut world, ship) = still_ship();
    fire_controls(&mut world, &pressed());
    let hook = Entity(2);
    assert_eq!(world.get(ship).unwrap().ship.unwrap().hook, Some(hook));
    let mut returned = Vec::new();
    let mut collisions = Vec::new();
    let mut seen = Vec::new();
    let mut turned_at = None;
    let mut pulled = false;
    let mut frames = 0;
    while world.get(hook).is_some() {
        frames += 1;
        assert!(frames < 600, "the hook did not come home");
        let before = world.get(hook).unwrap();
        let distance = before.translation.distance_squared(Vec3::zero());
        frame(&mut world, &mut returned, &mut collisions, &mut seen);
        let Some(after) = world.get(hook) else { break };
        let part = after.hook.unwrap();
        if !before.hook.unwrap().returning {
            // it turns back in the very frame that finds it too far out, and not before
            let far = distance > (HOOK_RETURN_DISTANCE as u128) * (HOOK_RETURN_DISTANCE as u128);
            assert_eq!(part.returning, far);
            assert_eq!(after.acceleration.unwrap().acceleration, Vec3::zero());
            assert!(after.velocity.unwrap().0.x < 0);
            if far {
                turned_at = Some(frames);
            }
        } else {
            assert!(part.returning);
            let pull = after.acceleration.unwrap().acceleration;
            // the pull points at the owner, with the return acceleration
            assert!(pull.x > 0);
            let size = pull.length_squared();
            let full = (HOOK_RETURN_ACCELERATION as u128) * (HOOK_RETURN_ACCELERATION as u128);
            assert!(size <= full);
            assert!(size >= full / 100 * 99);
            pulled = true;
            // it is not reported home before it is near enough
            let near = distance < (HOOK_RECLAIM_DISTANCE as u128) * (HOOK_RECLAIM_DISTANCE as u128);
            assert_eq!(!returned.is_empty(), near);
        }
    }
    assert!(turned_at.is_some());
    assert!(pulled);
    assert_eq!(seen, vec![HookReturnedEvent::new(None)]);
    assert_eq!(world.get(hook), None);
    assert_eq!(world.get(ship).unwrap().ship.unwrap().hook, None);
    assert_eq!(world.get(ship).unwrap().ship.unwrap().captive, None);
    assert!(world.get(Entity(1)).unwrap().visible);
    // and it can be fired again
    fire_controls(&mut world, &pressed());
    assert_eq!(world.get(ship).unwrap().ship.unwrap().hook, Some(Entity(3)));
}

fn enemy_at(place: Vec3) -> Body {
    let mut enemy = Body::new(place);
    enemy.hookable = Some(Hookable::new(Vec3::new(-3_000, 0, 0), Quat::identity()));
    enemy.velocity = Some(Velocity(Vec3::new(20_000, 0, 0)));
    enemy.health = Some(Health::new(40_000));
    enemy.collider = Some(Collider::new(2_500, 0));
    enemy.enemy = true;
    enemy
}

#[test]
fn hook_catches_a_target_close_by_and_brings_it_home() {
    let (mut world, ship) = still_ship();
    let mut body = world.get(ship).unwrap();
    body.collider = None;
    world.update(ship, body);
    fire_controls(&mut world, &pressed());
    let hook = Entity(2);
    let target = world.spawn(enemy_at(Vec3::new(-3_500, 0, -724)));
    let mut returned = Vec::new();
    let mut collisions = Vec::new();
    let mut seen = Vec::new();
    // the hook comes within reach of the target: the collision is found in this frame
    frame(&mut world, &mut returned, &mut collisions, &mut seen);
    assert_eq!(collisions, vec![CollisionEvent::new(hook, target)]);
    assert!(!world.get(hook).unwrap().hook.unwrap().returning);
    assert!(world.get(target).unwrap().parent.is_none());
    // and the catch is made in the next, all at once
    let mut only_catch = Vec::new();
    std::mem::swap(&mut only_catch, &mut collisions);
    apply_collisions(&mut world, &only_catch);
    let part = world.get(hook).unwrap().hook.unwrap();
    assert!(part.returning);
    assert_eq!(part.target, Some(target));
    let caught = world.get(target).unwrap();
    assert_eq!(caught.parent, Some(hook));
    assert_eq!(caught.velocity, Some(Velocity(Vec3::zero())));
    assert!(caught.hooked.is_some());
    let distance = world.get(hook).unwrap().translation.distance_squared(Vec3::zero());
    assert!(distance < (HOOK_RECLAIM_DISTANCE as u128) * (HOOK_RECLAIM_DISTANCE as u128));
    let mut frames = 0;
    while world.get(hook).is_some() {
        frames += 1;
        assert!(frames < 10);
        frame(&mut world, &mut returned, &mut collisions, &mut seen);
    }
    assert_eq!(seen, vec![HookReturnedEvent::new(Some(target))]);
    let ship_part = world.get(ship).unwrap().ship.unwrap();
    assert_eq!(ship_part.hook, None);
    assert_eq!(ship_part.captive, Some(target));
    let captive = world.get(target).unwrap();
    assert_eq!(captive.parent, Some(ship));
    assert_eq!(captive.captured, Some(Captured { captor: ship }));
    assert_eq!(captive.hooked, None);
    assert!(captive.player);
}

#[test]
fn captive_that_dies_is_let_go() {
    let (mut world, ship) = still_ship();
    let target = world.spawn(enemy_at(Vec3::new(-3_000, 0, 0)));
    fire_controls(&mut world, &pressed());
    let hook = Entity(3);
    apply_collisions(&mut world, &vec![CollisionEvent::new(hook, target)]);
    let events = vec![HookReturnedEvent::new(Some(target))];
    the_claw::ship::retrieve_hook(&mut world, &events);
    the_claw::hook::retrieve_hook(&mut world, &events);
    assert_eq!(world.get(ship).unwrap().ship.unwrap().captive, Some(target));
    apply_health_changes(&mut world, &vec![HealthEvent::new(target, Some(ship), -39_999)]);
    make_dead(&mut world);
    remove_dead_captive(&mut world);
    assert_eq!(world.get(target).unwrap().parent, Some(ship));
    apply_health_changes(&mut world, &vec![HealthEvent::new(target, Some(ship), -1)]);
    make_dead(&mut world);
    assert_eq!(world.get(target).unwrap().dead.unwrap().killer, Some(ship));
    remove_dead_captive(&mut world);
    assert_eq!(world.get(target).unwrap().parent, None);
    assert_eq!(world.get(ship).unwrap().ship.unwrap().captive, None);
    assert_eq!(world.world_translation(target), Some(world.get(target).unwrap().translation));
}

#[test]
fn captive_dies_while_a_second_hook_is_out() {
    let mut world = World::new();
    let ship = spawn_ship(&mut world);
    let target = world.spawn(enemy_at(Vec3::new(37_000, 0, 0)));
    // the ship holds the target
    fire_controls(&mut world, &pressed());
    let first = Entity(3);
    apply_collisions(&mut world, &vec![CollisionEvent::new(first, target)]);
    let events = vec![HookReturnedEvent::new(Some(target))];
    the_claw::ship::retrieve_hook(&mut world, &events);
    the_claw::hook::retrieve_hook(&mut world, &events);
    // another owner has a hook out
    let other = world.spawn(Body::new(Vec3::zero()));
    let out = world.spawn_hook(the_claw::hook::hook_builder(other, Vec3::zero(), Vec3::zero())).unwrap();
    apply_health_changes(&mut world, &vec![HealthEvent::new(target, None, -100_000)]);
    remove_dead_captive(&mut world);
    assert_eq!(world.get(target).unwrap().parent, None);
    assert_eq!(world.get(ship).unwrap().ship.unwrap().captive, None);
    assert!(world.get(out).is_some());
}
