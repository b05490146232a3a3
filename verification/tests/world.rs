use the_claw::hook::{hook_builder, Hook, Hooked};
use the_claw::movement::Velocity;
use the_claw::ship::{Captured, PlayerShip};
use the_claw::timer::Stopwatch;
use the_claw::vector::{Quat, Vec3};
use the_claw::world::{Body, Entity, Filter, World};

fn at(x: i32, z: i32) -> Body {
    Body::new(Vec3::new(x, 0, z))
}

#[test]
fn new_body_carries_nothing() {
    let body = Body::new(Vec3::new(1, 2, 3));
    assert_eq!(body.translation, Vec3::new(1, 2, 3));
    assert_eq!(body.rotation, Quat::identity());
    assert_eq!(body.scale, 1_000);
    assert!(body.visible);
    assert!(!body.player && !body.display_hook && !body.enemy && !body.mine);
    assert!(body.parent.is_none() && body.velocity.is_none() && body.hook.is_none());
    assert!(body.health.is_none() && body.ship.is_none() && body.hookable.is_none());
}

#[test]
fn spawn_names_bodies_in_order_and_unties_them() {
    let mut world = World::new();
    assert_eq!(world.len(), 0);
    let mut tied = at(1, 1);
    tied.parent = Some(Entity(5));
    tied.hook = Some(Hook::new(Entity(6)));
    tied.hooked = Some(Hooked {
        time: Stopwatch::new(),
        initial_position: Vec3::zero(),
        initial_rotation: Quat::identity(),
    });
    tied.captured = Some(Captured { captor: Entity(7) });
    tied.velocity = Some(Velocity(Vec3::new(1, 0, 0)));
    let first = world.spawn(tied);
    let second = world.spawn(at(2, 2));
    assert_eq!(first, Entity(0));
    assert_eq!(second, Entity(1));
    assert_eq!(world.len(), 2);
    let stored = world.get(first).unwrap();
    assert_eq!(stored.parent, None);
    assert_eq!(stored.hook, None);
    assert_eq!(stored.hooked, None);
    assert_eq!(stored.captured, None);
    assert_eq!(stored.velocity, Some(Velocity(Vec3::new(1, 0, 0))));
    assert_eq!(world.get(Entity(2)), None);
    assert_eq!(world.get(Entity(u64::MAX)), None);
    assert_eq!(world.at(1), world.get(second));
}

#[test]
fn names_are_not_given_out_twice() {
    let mut world = World::new();
    let first = world.spawn(at(0, 0));
    world.despawn(first);
    assert_eq!(world.get(first), None);
    let second = world.spawn(at(0, 0));
    assert_eq!(second, Entity(1));
    assert_eq!(world.get(first), None);
    world.despawn(Entity(40));
    assert_eq!(world.len(), 2);
}

#[test]
fn riders_go_with_their_carrier() {
    let mut world = World::new();
    let carrier = world.spawn(at(10_000, 0));
    let rider = world.spawn(at(1_000, 2_000));
    let other = world.spawn(at(5, 5));
    assert!(!world.has_riders(carrier));
    assert!(world.add_child(carrier, rider));
    assert!(world.has_riders(carrier));
    assert!(!world.has_riders(rider));
    assert_eq!(world.get(rider).unwrap().parent, Some(carrier));
    assert_eq!(world.world_translation(rider), Some(Vec3::new(11_000, 0, 2_000)));
    assert_eq!(world.world_translation(carrier), Some(Vec3::new(10_000, 0, 0)));
    assert_eq!(world.world_translation(Entity(9)), None);
    world.despawn(carrier);
    assert_eq!(world.get(carrier), None);
    assert_eq!(world.get(rider), None);
    assert!(world.get(other).is_some());
}

#[test]
fn a_carrier_turns_its_riders() {
    let mut world = World::new();
    let mut turned = at(10_000, 0);
    turned.rotation = Quat::new(0, 0, 1_000, 0);
    let carrier = world.spawn(turned);
    let mut riding = at(1_000, 2_000);
    riding.translation = Vec3::new(1_000, 500, 2_000);
    riding.rotation = Quat::new(1_000, 0, 0, 0);
    let rider = world.spawn(riding);
    assert!(world.add_child(carrier, rider));
    assert_eq!(world.world_translation(rider), Some(Vec3::new(9_000, -500, 2_000)));
    assert_eq!(world.world_rotation(rider), Some(Quat::new(0, 1_000, 0, 0)));
    assert_eq!(world.world_rotation(carrier), Some(Quat::new(0, 0, 1_000, 0)));
    assert_eq!(world.world_rotation(Entity(9)), None);
}

#[test]
fn riding_is_one_level_deep() {
    let mut world = World::new();
    let a = world.spawn(at(0, 0));
    let b = world.spawn(at(0, 0));
    let c = world.spawn(at(0, 0));
    assert!(!world.add_child(a, a));
    assert!(!world.add_child(a, Entity(9)));
    assert!(!world.add_child(Entity(9), a));
    assert!(world.add_child(a, b));
    // b rides: it cannot carry
    assert!(!world.add_child(b, c));
    // a carries: it cannot ride
    assert!(!world.add_child(c, a));
    // b can change its carrier
    assert!(world.add_child(c, b));
    assert_eq!(world.get(b).unwrap().parent, Some(c));
    assert!(!world.has_riders(a));
    // and now a can ride too
    assert!(world.add_child(c, a));
}

#[test]
fn remove_child_takes_a_rider_off_its_own_carrier_only() {
    let mut world = World::new();
    let a = world.spawn(at(0, 0));
    let b = world.spawn(at(0, 0));
    let c = world.spawn(at(0, 0));
    assert!(world.add_child(a, b));
    world.remove_child(c, b);
    assert_eq!(world.get(b).unwrap().parent, Some(a));
    world.remove_child(a, Entity(9));
    world.remove_child(a, b);
    assert_eq!(world.get(b).unwrap().parent, None);
    world.remove_child(a, b);
    assert_eq!(world.get(b).unwrap().parent, None);
}

#[test]
fn update_keeps_the_ties() {
    let mut world = World::new();
    let a = world.spawn(at(0, 0));
    let b = world.spawn(at(0, 0));
    assert!(world.add_child(a, b));
    let mut parts = at(7, 7);
    parts.parent = None;
    parts.hook = Some(Hook::new(a));
    parts.player = true;
    world.update(b, parts);
    let stored = world.get(b).unwrap();
    assert_eq!(stored.parent, Some(a));
    assert_eq!(stored.hook, None);
    assert_eq!(stored.translation, Vec3::new(7, 0, 7));
    assert!(stored.player);
    world.update(Entity(9), parts);
    assert_eq!(world.len(), 2);
}

#[test]
fn one_hook_per_owner() {
    let mut world = World::new();
    let owner = world.spawn(at(0, 0));
    let other = world.spawn(at(0, 0));
    assert_eq!(world.find_hook_of(owner), None);
    let hook = world.spawn_hook(hook_builder(owner, Vec3::zero(), Vec3::zero())).unwrap();
    assert_eq!(world.find_hook_of(owner), Some(hook));
    assert_eq!(world.find_hook_of(other), None);
    assert_eq!(world.spawn_hook(hook_builder(owner, Vec3::zero(), Vec3::zero())), None);
    assert_eq!(world.len(), 3);
    assert_eq!(world.spawn_hook(at(0, 0)), None);
    let second = world.spawn_hook(hook_builder(other, Vec3::zero(), Vec3::zero())).unwrap();
    assert_eq!(world.find_hook_of(other), Some(second));
    world.despawn(hook);
    assert_eq!(world.find_hook_of(owner), None);
    let again = world.spawn_hook(hook_builder(owner, Vec3::zero(), Vec3::zero())).unwrap();
    assert_eq!(again, Entity(4));
}

#[test]
fn single_finds_the_only_body_of_a_kind() {
    let mut world = World::new();
    assert_eq!(world.single(Filter::Ship), None);
    let mut ship = at(0, 0);
    ship.ship = Some(PlayerShip::new());
    let first = world.spawn(ship);
    assert_eq!(world.single(Filter::Ship), Some(first));
    assert_eq!(world.single(Filter::MovingShip), None);
    assert_eq!(world.single(Filter::SteeredShip), None);
    assert_eq!(world.single(Filter::Hook), None);
    let mut moving = ship;
    moving.velocity = Some(Velocity(Vec3::zero()));
    let second = world.spawn(moving);
    assert_eq!(world.single(Filter::Ship), None);
    assert_eq!(world.single(Filter::MovingShip), Some(second));
    world.despawn(first);
    assert_eq!(world.single(Filter::Ship), Some(second));
    let mut shown = at(0, 0);
    shown.display_hook = true;
    let display = world.spawn(shown);
    assert_eq!(world.single(Filter::DisplayHook), Some(display));
    assert_eq!(world.single(Filter::Invincible), None);
    assert_eq!(world.single(Filter::Captive), None);
    assert_eq!(world.single(Filter::Settling), None);
    assert_eq!(world.single(Filter::FlyingHook), None);
}

#[test]
fn hooks_and_ships_carry_and_what_can_be_caught_rides() {
    let mut world = World::new();
    let mut ship = at(0, 0);
    ship.ship = Some(PlayerShip::new());
    ship.hookable = Some(the_claw::hook::Hookable::new(Vec3::zero(), Quat::identity()));
    // a ship enters without the mark of what can be caught
    let ship = world.spawn(ship);
    assert_eq!(world.get(ship).unwrap().hookable, None);
    assert!(world.get(ship).unwrap().ship.is_some());
    let mut enemy = at(1, 1);
    enemy.hookable = Some(the_claw::hook::Hookable::new(Vec3::zero(), Quat::identity()));
    let enemy = world.spawn(enemy);
    let plain = world.spawn(at(2, 2));
    let mut hooking = hook_builder(ship, Vec3::zero(), Vec3::zero());
    hooking.hookable = Some(the_claw::hook::Hookable::new(Vec3::zero(), Quat::identity()));
    let hook = world.spawn_hook(hooking).unwrap();
    assert_eq!(world.get(hook).unwrap().hookable, None);
    // what can be caught carries nothing
    assert!(!world.add_child(enemy, plain));
    // hooks and ships ride on nothing
    assert!(!world.add_child(plain, hook));
    assert!(!world.add_child(plain, ship));
    // but they carry
    assert!(world.add_child(hook, enemy));
    assert!(world.add_child(ship, enemy));
    assert!(world.add_child(ship, plain));
    // a body becomes neither a ship nor something to catch afterwards
    let mut parts = world.get(plain).unwrap();
    parts.ship = Some(PlayerShip::new());
    parts.hookable = Some(the_claw::hook::Hookable::new(Vec3::zero(), Quat::identity()));
    parts.player = true;
    world.update(plain, parts);
    let stored = world.get(plain).unwrap();
    assert_eq!(stored.ship, None);
    assert_eq!(stored.hookable, None);
    assert!(stored.player);
    // while a ship stays one, with its parts changed, and can cease to be one
    let mut parts = world.get(ship).unwrap();
    parts.ship = Some(PlayerShip { pitch: 5, ..PlayerShip::new() });
    world.update(ship, parts);
    assert_eq!(world.get(ship).unwrap().ship.unwrap().pitch, 5);
    parts.ship = None;
    world.update(ship, parts);
    assert_eq!(world.get(ship).unwrap().ship, None);
}
