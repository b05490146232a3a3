use the_claw::asset_loader::Scene;
use the_claw::bullet::ShootEvent;
use the_claw::collision_detection::Collider;
use the_claw::effect_sprite::{
    create_material_collection, effect_builder, get_animation_length, get_material,
    spawn_effect_sprites, update_effect_sprites, EffectSprite, EffectSpriteEvent, EffectSpriteSettings,
    EffectSpriteType,
};
use the_claw::enemy::{reap, Death, Enemy, EnemyKind};
use the_claw::game_manager::PointEvent;
use the_claw::health::{Health, HealthEvent};
use the_claw::hit_marker::{apply_hit_marker, update_hit_markers, HitMarker, HIT_MARKER_TIME};
use the_claw::hook::Hookable;
use the_claw::mine::{mine_builder, spawn_mine};
use the_claw::movement::{Acceleration, Roller, Velocity};
use the_claw::ship::Captured;
use the_claw::sidewinder::{
    shoot, shoot_captured, sidewinder_builder, spawn_sidewinder, Sidewinder,
};
use the_claw::splosion::SplosionEvent;
use the_claw::timer::{Timer, TimerMode};
use the_claw::vector::{Quat, Vec3};
use the_claw::world::{Body, Entity, World};
use the_claw::wreck::{spawn_wrecks, update_wrecks, Wreck, WreckedEvent};

#[test]
fn sidewinder_enters_as_drawn() {
    let body = sidewinder_builder(500);
    assert_eq!(body.translation, Vec3::new(-70_000, 0, 13_000));
    assert_eq!(body.velocity, Some(Velocity(Vec3::new(20_000, 0, -5_000))));
    assert_eq!(body.rotation, Quat::new(0, 0, 1_000, 0));
    assert_eq!(
        body.sidewinder,
        Some(Sidewinder { shoot_timer: Timer::new(1_700_000_000, TimerMode::Repeating) })
    );
    assert_eq!(body.collider, Some(Collider { radius: 2_500, collision_damage: -25_000 }));
    assert_eq!(body.hookable, Some(Hookable::new(Vec3::new(-3_000, 0, 0), Quat::identity())));
    assert_eq!(body.health, Some(Health::new(40_000)));
    assert_eq!(body.roller, Some(Roller::new(3_000, 0, 0)));
    assert_eq!(body.scene, Some(Scene::Sidewinder));
    assert!(body.enemy && !body.player && !body.mine);
    assert!(body.hit_marker.is_some());
    let low = sidewinder_builder(-1_000);
    assert_eq!(low.translation, Vec3::new(-70_000, 0, -26_000));
    assert_eq!(low.velocity, Some(Velocity(Vec3::new(20_000, 0, 10_000))));
    assert_eq!(sidewinder_builder(0).translation, Vec3::new(-70_000, 0, 0));
    let _ = Enemy;
}

#[test]
fn sidewinders_come_at_their_pace_at_a_place_drawn() {
    let mut world = World::new();
    let mut timer = the_claw::sidewinder::SpawnTimer::default();
    assert_eq!(timer.0, Timer::new(2_000_000_000, TimerMode::Repeating));
    assert_eq!(spawn_sidewinder(&mut world, &mut timer, 1_999_999_999), None);
    assert_eq!(world.len(), 0);
    let mut places = std::collections::BTreeSet::new();
    for round in 0..200 {
        let spawned = spawn_sidewinder(&mut world, &mut timer, if round == 0 { 1 } else { 2_000_000_000 });
        assert_eq!(spawned, Some(Entity(round)));
        let body = world.get(Entity(round)).unwrap();
        // the body is the builder's, for the draw that its place shows
        let z = body.translation.z;
        assert!((-26_000..26_000).contains(&z));
        assert_eq!(z % 26, 0);
        assert_eq!(body, sidewinder_builder(z / 26));
        places.insert(z);
        assert_eq!(spawn_sidewinder(&mut world, &mut timer, 0), None);
    }
    assert!(places.len() > 20);
}

#[test]
fn mine_enters_as_drawn() {
    let body = mine_builder(-250);
    assert_eq!(body.translation, Vec3::new(-70_000, 0, -6_500));
    assert_eq!(body.velocity, Some(Velocity(Vec3::new(10_000, 0, 0))));
    assert_eq!(body.rotation, Quat::identity());
    assert_eq!(body.collider, Some(Collider { radius: 1_600, collision_damage: -30_000 }));
    assert_eq!(body.hookable, Some(Hookable::new(Vec3::new(-1_000, 0, 0), Quat::identity())));
    assert_eq!(body.health, Some(Health::new(10_000)));
    assert_eq!(body.roller, Some(Roller::new(200, 100, 1_200)));
    assert_eq!(body.scene, Some(Scene::Mine));
    assert!(body.mine && body.enemy && !body.player);
    assert_eq!(body.sidewinder, None);
}

#[test]
fn mines_come_at_their_pace_at_a_place_drawn() {
    let mut world = World::new();
    let mut timer = the_claw::mine::SpawnTimer::default();
    assert_eq!(timer.0, Timer::new(3_000_000_000, TimerMode::Repeating));
    assert_eq!(spawn_mine(&mut world, &mut timer, 2_999_999_999), None);
    let mut places = std::collections::BTreeSet::new();
    for round in 0..200 {
        let spawned = spawn_mine(&mut world, &mut timer, if round == 0 { 1 } else { 3_000_000_000 });
        assert_eq!(spawned, Some(Entity(round)));
        let body = world.get(Entity(round)).unwrap();
        let z = body.translation.z;
        assert!((-26_000..26_000).contains(&z));
        assert_eq!(body, mine_builder(z / 26));
        places.insert(z);
    }
    assert!(places.len() > 20);
}

#[test]
fn free_sidewinders_shoot_ahead() {
    let mut world = World::new();
    let winder = world.spawn(sidewinder_builder(0));
    let mut shots = Vec::new();
    shoot(&mut world, 1_699_999_999, &mut shots);
    assert!(shots.is_empty());
    assert_eq!(world.get(winder).unwrap().sidewinder.unwrap().shoot_timer.elapsed, 1_699_999_999);
    shoot(&mut world, 1, &mut shots);
    // turned half round, the sidewinder faces along the positive x axis
    assert_eq!(
        shots,
        vec![ShootEvent::new(
            false,
            Vec3::new(-67_000, 0, 0),
            Vec3::new(36_000, 0, 0),
            -20_000,
            1_000,
            winder
        )]
    );
    shoot(&mut world, 1, &mut shots);
    assert_eq!(shots.len(), 1);
    // a captive does not shoot on its own account
    shoot_captured(&mut world, 10_000_000_000, &mut shots);
    assert_eq!(shots.len(), 1);
}

#[test]
fn caught_sidewinders_shoot_for_their_captor() {
    let mut world = World::new();
    let mut ship = Body::new(Vec3::new(40_000, 0, 0));
    ship.rotation = Quat::identity();
    ship.ship = Some(the_claw::ship::PlayerShip::new());
    let ship = world.spawn(ship);
    let mut hooked = sidewinder_builder(0);
    hooked.translation = Vec3::new(-2_778, 0, -724);
    hooked.rotation = Quat::identity();
    let winder = world.spawn(hooked);
    // hand it to the ship as the game does
    let mut shown = Body::new(Vec3::zero());
    shown.display_hook = true;
    world.spawn(shown);
    the_claw::ship::retrieve_hook(
        &mut world,
        &vec![the_claw::hook::HookReturnedEvent::new(Some(winder))],
    );
    assert_eq!(world.get(winder).unwrap().captured, Some(Captured { captor: ship }));
    let place = world.world_translation(winder).unwrap();
    let mut shots = Vec::new();
    shoot(&mut world, 10_000_000_000, &mut shots);
    assert!(shots.is_empty());
    shoot_captured(&mut world, 499_999_999, &mut shots);
    assert!(shots.is_empty());
    shoot_captured(&mut world, 1, &mut shots);
    assert_eq!(
        shots,
        vec![ShootEvent::new(
            true,
            place.plus(Vec3::new(-3_000, 0, 0)),
            Vec3::new(-48_000, 0, 0),
            -20_000,
            1_000,
            ship
        )]
    );
    assert_eq!(world.get(winder).unwrap().sidewinder.unwrap().shoot_timer.duration, 500_000_000);
}

#[test]
fn dead_enemies_are_reaped() {
    let mut world = World::new();
    let alive = world.spawn(sidewinder_builder(0));
    let mut dying = sidewinder_builder(100);
    dying.health = Some(Health { value: 0, max: 40_000, last_hurt_by: None });
    let dying = world.spawn(dying);
    let mut mine = mine_builder(0);
    mine.health = Some(Health { value: -5, max: 10_000, last_hurt_by: None });
    let mine = world.spawn(mine);
    let mut wrecked = sidewinder_builder(0);
    wrecked.health = Some(Health { value: 0, max: 40_000, last_hurt_by: None });
    wrecked.wreck = Some(Wreck::new(1, 1));
    let wrecked = world.spawn(wrecked);
    let deaths = reap(&mut world, EnemyKind::Sidewinder);
    assert_eq!(
        deaths,
        vec![Death {
            entity: dying,
            translation: Vec3::new(-70_000, 0, 2_600),
            rotation: Quat::new(0, 0, 1_000, 0),
            velocity: Vec3::new(20_000, 0, -1_000),
        }]
    );
    assert!(world.get(alive).is_some());
    assert_eq!(world.get(dying), None);
    assert!(world.get(mine).is_some());
    assert!(world.get(wrecked).is_some());
    let mut effects = Vec::new();
    let mut points = Vec::new();
    the_claw::mine::check_dead(&mut world, &mut effects, &mut points);
    assert_eq!(
        effects,
        vec![EffectSpriteEvent::new(
            Vec3::new(-70_000, 0, 0),
            3_000,
            Vec3::new(10_000, 0, 0),
            EffectSpriteType::Splosion
        )]
    );
    assert_eq!(points, vec![PointEvent(20)]);
    assert_eq!(world.get(mine), None);
}

#[test]
fn dead_sidewinders_leave_wrecks_and_points() {
    let mut world = World::new();
    let mut first = sidewinder_builder(0);
    first.health = Some(Health { value: 0, max: 40_000, last_hurt_by: None });
    let first = world.spawn(first);
    world.spawn(sidewinder_builder(0));
    let mut second = sidewinder_builder(1_000 - 1);
    second.health = Some(Health { value: -1, max: 40_000, last_hurt_by: None });
    let second = world.spawn(second);
    let mut wrecks = Vec::new();
    let mut points = vec![PointEvent(1)];
    the_claw::sidewinder::check_dead(&mut world, &mut wrecks, &mut points);
    assert_eq!(
        wrecks,
        vec![
            WreckedEvent::new(
                Scene::Sidewinder,
                Vec3::new(-70_000, 0, 0),
                Quat::new(0, 0, 1_000, 0),
                Vec3::new(20_000, 0, 0),
                3_000,
                1_500_000_000,
                3_000
            ),
            WreckedEvent::new(
                Scene::Sidewinder,
                Vec3::new(-70_000, 0, 25_974),
                Quat::new(0, 0, 1_000, 0),
                Vec3::new(20_000, 0, -9_990),
                3_000,
                1_500_000_000,
                3_000
            ),
        ]
    );
    assert_eq!(points, vec![PointEvent(1), PointEvent(100), PointEvent(100)]);
    assert_eq!(world.get(first), None);
    assert_eq!(world.get(second), None);
    assert!(world.get(Entity(1)).is_some());
}

#[test]
fn wrecks_fall_blast_and_go() {
    let mut world = World::new();
    let mut blasts = Vec::new();
    let gravity = Vec3::new(0, -9_800, 0);
    spawn_wrecks(
        &mut world,
        &vec![WreckedEvent::new(
            Scene::Ship,
            Vec3::new(1_000, 0, 0),
            Quat::new(0, 0, 1_000, 0),
            Vec3::new(5_000, 0, 0),
            1_200,
            4_000_000_000,
            3_000,
        )],
        gravity,
        &mut blasts,
    );
    assert_eq!(blasts, vec![SplosionEvent::new(Vec3::new(1_000, 0, -2_000), 3_000, Vec3::new(5_000, 0, 0))]);
    let wreck = Entity(0);
    let body = world.get(wreck).unwrap();
    assert_eq!(body.scene, Some(Scene::Ship));
    assert_eq!(body.rotation, Quat::new(0, 0, 1_000, 0));
    assert_eq!(body.roller, Some(Roller::new(1_200, 0, 0)));
    assert_eq!(body.acceleration, Some(Acceleration::new(gravity, 0, 40_000)));
    assert_eq!(
        body.wreck,
        Some(Wreck {
            time_to_live: Timer::new(4_000_000_000, TimerMode::Once),
            time_to_blast: Timer::new(1_000_000_000, TimerMode::Repeating),
            blast_size: 3_000,
        })
    );
    blasts.clear();
    update_wrecks(&mut world, 999_999_999, &mut blasts);
    assert!(blasts.is_empty());
    update_wrecks(&mut world, 1, &mut blasts);
    // a quarter of its time gone: a quarter of the blast, three quarters of the lift
    assert_eq!(blasts, vec![SplosionEvent::new(Vec3::new(1_000, 1_500, 0), 750, Vec3::new(5_000, 0, 0))]);
    // a tick that spans two intervals sets off one blast
    update_wrecks(&mut world, 2_999_999_999, &mut blasts);
    assert_eq!(blasts.len(), 2);
    assert!(world.get(wreck).is_some());
    update_wrecks(&mut world, 1, &mut blasts);
    assert_eq!(blasts.len(), 3);
    assert_eq!(blasts[2], SplosionEvent::new(Vec3::new(1_000, 0, 0), 3_000, Vec3::new(5_000, 0, 0)));
    assert_eq!(world.get(wreck), None);
    assert_eq!(
        blasts[2].effect(),
        EffectSpriteEvent::new(Vec3::new(1_000, 0, 0), 3_000, Vec3::new(5_000, 0, 0), EffectSpriteType::Splosion)
    );
}

#[test]
fn animations_have_their_lengths_and_materials() {
    assert_eq!(get_animation_length(EffectSpriteType::Splosion), 1_066_666_666);
    assert_eq!(get_animation_length(EffectSpriteType::Ricochet), 466_666_666);
    assert_eq!(get_material(EffectSpriteType::Splosion, 0), 16);
    assert_eq!(get_material(EffectSpriteType::Splosion, 66_666_666), 16);
    assert_eq!(get_material(EffectSpriteType::Splosion, 66_666_667), 15);
    assert_eq!(get_material(EffectSpriteType::Splosion, 1_100_000_000), 0);
    assert_eq!(get_material(EffectSpriteType::Splosion, 1_140_000_000), 16);
    assert_eq!(get_material(EffectSpriteType::Ricochet, 0), 7);
    assert_eq!(get_material(EffectSpriteType::Ricochet, 500_000_000), 0);
    assert_eq!(get_material(EffectSpriteType::Ricochet, u64::MAX), 7 - ((u64::MAX as u128 * 15 / 1_000_000_000) % 8) as usize);
    let blasts = create_material_collection(EffectSpriteType::Splosion);
    assert_eq!(blasts.len(), 17);
    assert_eq!(
        blasts[0],
        EffectSpriteSettings {
            frame_offset: 1_000,
            frame_rate: 15_000,
            frames_wide: 4_000,
            frames_deep: 4_000,
            frame_count: 17_000,
            display_frames: 16_000,
        }
    );
    assert_eq!(blasts[16].frame_offset, 17_000);
    let ricochets = create_material_collection(EffectSpriteType::Ricochet);
    assert_eq!(ricochets.len(), 8);
    assert_eq!(
        ricochets[7],
        EffectSpriteSettings {
            frame_offset: 8_000,
            frame_rate: 15_000,
            frames_wide: 4_000,
            frames_deep: 2_000,
            frame_count: 8_000,
            display_frames: 7_000,
        }
    );
}

#[test]
fn animations_run_and_go() {
    let mut world = World::new();
    let events = vec![
        EffectSpriteEvent::new(Vec3::new(1, 2, 3), 3_000, Vec3::new(4, 5, 6), EffectSpriteType::Splosion),
        EffectSpriteEvent::new(Vec3::new(7, 8, 9), 1_000, Vec3::zero(), EffectSpriteType::Ricochet),
    ];
    spawn_effect_sprites(&mut world, &events, 66_666_667);
    assert_eq!(world.len(), 2);
    for (i, event) in events.iter().enumerate() {
        let body = world.at(i).unwrap();
        let spin = body.effect.unwrap().spin;
        assert!((-1_000..1_000).contains(&spin));
        assert_eq!(body, effect_builder(event, 66_666_667, spin));
    }
    let blast = world.at(0).unwrap();
    assert_eq!(blast.translation, Vec3::new(1, 2, 3));
    assert_eq!(blast.scale, 3_000);
    assert_eq!(blast.velocity, Some(Velocity(Vec3::new(4, 5, 6))));
    assert_eq!(
        blast.effect,
        Some(EffectSprite {
            timer: Timer::new(1_066_666_666, TimerMode::Once),
            effect: EffectSpriteType::Splosion,
            material: 15,
            spin: blast.effect.unwrap().spin,
        })
    );
    update_effect_sprites(&mut world, 466_666_665);
    assert!(world.at(0).is_some() && world.at(1).is_some());
    update_effect_sprites(&mut world, 1);
    assert!(world.at(0).is_some());
    assert_eq!(world.at(1), None);
    update_effect_sprites(&mut world, 600_000_000);
    assert_eq!(world.at(0), None);
}

#[test]
fn spins_are_drawn() {
    let mut world = World::new();
    let events: Vec<EffectSpriteEvent> = (0..100)
        .map(|_| EffectSpriteEvent::new(Vec3::zero(), 1_000, Vec3::zero(), EffectSpriteType::Ricochet))
        .collect();
    spawn_effect_sprites(&mut world, &events, 0);
    let spins: std::collections::BTreeSet<i32> =
        (0..100).map(|i| world.at(i).unwrap().effect.unwrap().spin).collect();
    assert!(spins.len() > 10);
}

#[test]
fn hits_show_for_a_moment() {
    assert_eq!(HitMarker::default(), HitMarker { timer: Timer::new(83_300_000, TimerMode::Once), active: false });
    assert_eq!(HIT_MARKER_TIME, 83_300_000);
    let mut world = World::new();
    let winder = world.spawn(sidewinder_builder(0));
    let mut unseen = sidewinder_builder(0);
    unseen.scene = None;
    let unseen = world.spawn(unseen);
    apply_hit_marker(
        &mut world,
        &vec![
            HealthEvent::new(winder, None, 5),
            HealthEvent::new(unseen, None, -5),
            HealthEvent::new(Entity(9), None, -5),
        ],
    );
    assert!(!world.get(winder).unwrap().hit_marker.unwrap().active);
    assert!(!world.get(unseen).unwrap().hit_marker.unwrap().active);
    apply_hit_marker(&mut world, &vec![HealthEvent::new(winder, None, -5)]);
    assert!(world.get(winder).unwrap().hit_marker.unwrap().active);
    update_hit_markers(&mut world, 83_299_999);
    assert!(world.get(winder).unwrap().hit_marker.unwrap().active);
    // a second hit starts the time again
    apply_hit_marker(&mut world, &vec![HealthEvent::new(winder, None, -5)]);
    assert_eq!(world.get(winder).unwrap().hit_marker.unwrap().timer.elapsed, 0);
    update_hit_markers(&mut world, 83_299_999);
    assert!(world.get(winder).unwrap().hit_marker.unwrap().active);
    update_hit_markers(&mut world, 1);
    assert!(!world.get(winder).unwrap().hit_marker.unwrap().active);
    update_hit_markers(&mut world, 1_000_000_000);
    assert!(!world.get(winder).unwrap().hit_marker.unwrap().active);
    // the dead do not show hits
    let mut body = world.get(winder).unwrap();
    body.health = Some(Health { value: 0, max: 40_000, last_hurt_by: None });
    world.update(winder, body);
    apply_hit_marker(&mut world, &vec![HealthEvent::new(winder, None, -5)]);
    assert!(!world.get(winder).unwrap().hit_marker.unwrap().active);
    let mut marker = HitMarker::default();
    marker.strike();
    assert!(!marker.tick(1));
    assert!(marker.tick(HIT_MARKER_TIME));
    assert!(!marker.tick(HIT_MARKER_TIME));
}
