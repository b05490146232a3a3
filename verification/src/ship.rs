//! The player's ship: controls, the hook it fires and the captive it carries.
use vstd::prelude::*;
use crate::asset_loader::Scene;
use crate::collision_detection::Collider;
use crate::fixed::{mul_div, mul_div_of, saturate, saturated, NANOS_PER_SECOND, UNIT};
use crate::health::Health;
use crate::hit_marker::HitMarker;
use crate::hook::{hook_body, hook_builder, Hook, HookReturnedEvent, Hookable};
use crate::input::{
    fire_pressed, shoot_pressed, sum_directions, summed_direction, InputMovementEvent,
    InputTriggerEvent,
};
use crate::movement::{Acceleration, Velocity};
use crate::timer::{Timer, TimerMode};
use crate::vector::{direction_of, Vec2, Vec3};
use crate::wreck::WreckedEvent;
use crate::world::{
    body_ok, detached, has_riders, hook_of, is_single, lemma_catch_can_ride,
    lemma_change_keeps_wf, lemma_detach_keeps_wf, lemma_push_keeps_wf, lemma_ride_keeps_wf,
    lemma_without_keeps_wf, one_hook_per_owner, rides_on, single_of, slot_at, wf_bodies, without,
    world_translation_of, Body, Entity, Filter, World,
};

verus! {

pub const STARTING_TRANSLATION_X: i32 = 40_000;

pub const SHIP_ACCELERATION: i32 = 500_000;

pub const SHIP_DAMPING: i32 = 150_000;

pub const SHIP_MAX_SPEED: i32 = 40_000;

/// A tenth of a half turn, in thousandths of a radian.
pub const SHIP_MAX_PITCH: i32 = 314;

/// Thousandths of a radian per second.
pub const SHIP_PITCH_RATE: i32 = 2_000;

pub const SHIP_COLLISION_RADIUS: i32 = 1_800;

pub const SHIP_COLLISION_DAMAGE: i32 = -1_000_000;

pub const SHIP_INITIAL_HEALTH: i32 = 30_000;

/// Nanoseconds for which a new ship cannot be hurt.
pub const SHIP_INVINCIBLE_TIME: u64 = 1_500_000_000;

/// Steps per second of the flicker of a ship that cannot be hurt.
pub const SHIP_INVINCIBLE_FLICKER_RATE: u64 = 15;

/// Of so many steps of the flicker the ship is hidden for one.
pub const SHIP_INVINCIBLE_FLICKER_RATIO: u64 = 3;

pub const CLAW_OFFSET_X: i32 = 222;

pub const CLAW_OFFSET_Z: i32 = -724;

pub const BOUNDS_X_MIN: i32 = -20_000;

pub const BOUNDS_X_MAX: i32 = 50_000;

pub const BOUNDS_Z_MIN: i32 = -30_000;

pub const BOUNDS_Z_MAX: i32 = 30_000;

/// Where the hook rests on the ship, and where a captive rides on it.
pub open spec fn spec_claw_offset() -> Vec3 {
    Vec3 { x: CLAW_OFFSET_X, y: 0, z: CLAW_OFFSET_Z }
}

#[verifier::when_used_as_spec(spec_claw_offset)]
pub fn claw_offset() -> (r: Vec3)
    ensures
        r == spec_claw_offset(),
{
    Vec3::new(CLAW_OFFSET_X, 0, CLAW_OFFSET_Z)
}

/// The player's ship.
#[derive(Clone, Copy, Debug, PartialEq, Eq)]
pub struct PlayerShip {
    pub target_pitch: i32,
    pub pitch: i32,
    /// The hook that is out, if one is.
    pub hook: Option<Entity>,
    /// The caught enemy that rides along, if one does.
    pub captive: Option<Entity>,
}

/// Marks a body that rides with the ship that caught it.
#[derive(Clone, Copy, Debug, PartialEq, Eq)]
pub struct Captured {
    pub captor: Entity,
}

/// Marks a ship that nothing can hurt until the timer runs out.
#[derive(Clone, Copy, Debug, PartialEq, Eq)]
pub struct Invincible {
    pub time: Timer,
}

/// What the fire button does for a ship.
#[derive(Clone, Copy, Debug, PartialEq, Eq)]
pub enum FireAction {
    /// Call back the hook that is out.
    Recall(Entity),
    /// Do away with the captive.
    Eat(Entity),
    /// Fire the hook.
    Launch,
}

impl PlayerShip {
    /// A ship that flies level, with its hook at rest and no captive.
    pub open spec fn spec_new() -> PlayerShip {
        PlayerShip { target_pitch: 0, pitch: 0, hook: None, captive: None }
    }

    #[verifier::when_used_as_spec(spec_new)]
    pub fn new() -> (r: Self)
        ensures
            r == Self::spec_new(),
    {
        PlayerShip { target_pitch: 0, pitch: 0, hook: None, captive: None }
    }

    /// What the fire button does: with a hook out it calls the hook back;
    /// else with a captive it does away with the captive; else it fires the hook.
    pub open spec fn fire_action(&self) -> FireAction {
        match self.hook {
            Some(hook) => FireAction::Recall(hook),
            None => match self.captive {
                Some(captive) => FireAction::Eat(captive),
                None => FireAction::Launch,
            },
        }
    }

    #[verifier::when_used_as_spec(fire_action)]
    pub fn fire(&self) -> (r: FireAction)
        ensures
            r == self.fire_action(),
    {
        match self.hook {
            Some(hook) => FireAction::Recall(hook),
            None => match self.captive {
                Some(captive) => FireAction::Eat(captive),
                None => FireAction::Launch,
            },
        }
    }
}

/// The body that `e` names, shown or hidden as `visible` says.
pub open spec fn with_visible(bodies: Seq<Option<Body>>, e: Entity, visible: bool) -> Seq<Option<Body>> {
    match slot_at(bodies, e) {
        Some(body) => bodies.update(e.0 as int, Some(Body { visible, ..body })),
        None => bodies,
    }
}

/// The bodies with `ship` as the ship part of the ship that `e` names:
/// unchanged where it names no ship.
pub open spec fn with_ship(bodies: Seq<Option<Body>>, e: Entity, ship: PlayerShip) -> Seq<Option<Body>> {
    match slot_at(bodies, e) {
        Some(body) => if body.ship is Some {
            bodies.update(e.0 as int, Some(Body { ship: Some(ship), ..body }))
        } else {
            bodies
        },
        None => bodies,
    }
}

/// The bodies after the hook that `h` names has been called back: unchanged
/// where `h` names no hook.
pub open spec fn recalled(bodies: Seq<Option<Body>>, h: Entity) -> Seq<Option<Body>> {
    match slot_at(bodies, h) {
        Some(body) => match body.hook {
            Some(hook) => bodies.update(
                h.0 as int,
                Some(Body { hook: Some(Hook { returning: true, ..hook }), ..body }),
            ),
            None => bodies,
        },
        None => bodies,
    }
}

/// The bodies after the ship that `s` names has done away with its captive `c`.
pub open spec fn eaten(bodies: Seq<Option<Body>>, s: Entity, c: Entity) -> Seq<Option<Body>> {
    let ship = slot_at(bodies, s).unwrap().ship.unwrap();
    without(with_ship(bodies, s, PlayerShip { captive: None, ..ship }), c)
}

/// The bodies with the timer of the body that `e` names, where it cannot be
/// hurt, set to the end of its time.
pub open spec fn with_spent_invincibility(bodies: Seq<Option<Body>>, e: Option<Entity>) -> Seq<
    Option<Body>,
> {
    match e {
        Some(e) => match slot_at(bodies, e) {
            Some(body) => match body.invincible {
                Some(invincible) => bodies.update(
                    e.0 as int,
                    Some(
                        Body {
                            invincible: Some(
                                Invincible {
                                    time: Timer {
                                        elapsed: invincible.time.duration,
                                        ..invincible.time
                                    },
                                },
                            ),
                            ..body
                        },
                    ),
                ),
                None => bodies,
            },
            None => bodies,
        },
        None => bodies,
    }
}

/// The bodies after the ship that `s` names has fired its hook: the hook
/// leaves the place of the hook at rest with the ship's velocity and the
/// launch speed; the hook at rest is hidden; the ship remembers the hook; and a ship
/// that could not be hurt can be from the next frame on. Nothing changes where the
/// world has no hook at rest or more than one, the ship has a hook out, or
/// the world has no place left.
pub open spec fn launched(bodies: Seq<Option<Body>>, s: Entity) -> Seq<Option<Body>> {
    match single_of(bodies, Filter::DisplayHook) {
        Some(d) => if hook_of(bodies, s) is Some || bodies.len() >= usize::MAX {
            bodies
        } else {
            let ship_body = slot_at(bodies, s).unwrap();
            let with_hook = bodies.push(
                Some(
                    hook_body(
                        s,
                        world_translation_of(bodies, d).unwrap(),
                        ship_body.velocity.unwrap().0,
                    ),
                ),
            );
            let hidden = with_visible(with_hook, d, false);
            let ship = slot_at(hidden, s).unwrap().ship.unwrap();
            let remembered = with_ship(
                hidden,
                s,
                PlayerShip { hook: Some(Entity(bodies.len() as u64)), ..ship },
            );
            with_spent_invincibility(remembered, single_of(bodies, Filter::Invincible))
        },
        None => bodies,
    }
}

/// The bodies after the fire button has been looked at. Where it went down
/// and the world has one ship that moves, the ship calls back its hook, does
/// away with its captive or fires its hook, in this order of choice.
pub open spec fn after_fire(bodies: Seq<Option<Body>>, shoot: bool) -> Seq<Option<Body>> {
    if !shoot {
        bodies
    } else {
        match single_of(bodies, Filter::MovingShip) {
            Some(s) => match slot_at(bodies, s).unwrap().ship.unwrap().fire_action() {
                FireAction::Recall(h) => recalled(bodies, h),
                FireAction::Eat(c) => eaten(bodies, s, c),
                FireAction::Launch => launched(bodies, s),
            },
            None => bodies,
        }
    }
}

/// Looks at the fire button: see [`after_fire`].
pub fn fire_controls(world: &mut World, events: &Vec<InputTriggerEvent>)
    requires
        old(world).wf(),
    ensures
        final(world).wf(),
        final(world)@ == after_fire(old(world)@, fire_pressed(events@)),
{
    let ghost before = world@;
    if !shoot_pressed(events) {
        return ;
    }
    let s: Entity = match world.single(Filter::MovingShip) {
        Some(s) => s,
        None => {
            return ;
        },
    };
    let ship_body: Body = match world.get(s) {
        Some(body) => body,
        None => {
            return ;
        },
    };
    let ship: PlayerShip = match ship_body.ship {
        Some(ship) => ship,
        None => {
            return ;
        },
    };
    let velocity: Velocity = match ship_body.velocity {
        Some(velocity) => velocity,
        None => {
            return ;
        },
    };
    match ship.fire() {
        FireAction::Recall(h) => {
            recall_hook(world, h);
        },
        FireAction::Eat(c) => {
            proof {
                assert(body_ok(before, s.0 as int));
            }
            world.change(s, Body { ship: Some(PlayerShip { captive: None, ..ship }), ..ship_body });
            world.despawn(c);
        },
        FireAction::Launch => {
            let d: Entity = match world.single(Filter::DisplayHook) {
                Some(d) => d,
                None => {
                    return ;
                },
            };
            let start: Vec3 = match world.world_translation(d) {
                Some(start) => start,
                None => {
                    return ;
                },
            };
            let protected: Option<Entity> = world.single(Filter::Invincible);
            if world.len() == usize::MAX {
                return ;
            }
            let h: Entity = match world.spawn_hook(hook_builder(s, start, velocity.0)) {
                Some(h) => h,
                None => {
                    return ;
                },
            };
            assert(world@ == before.push(Some(hook_body(s, start, velocity.0))));
            set_visible(world, d, false);
            match world.get(s) {
                Some(body) => match body.ship {
                    Some(ship) => {
                        proof {
                            assert(body_ok(world@, s.0 as int));
                        }
                        world.change(
                            s,
                            Body { ship: Some(PlayerShip { hook: Some(h), ..ship }), ..body },
                        );
                    },
                    None => {},
                },
                None => {},
            }
            match protected {
                Some(i) => match world.get(i) {
                    Some(body) => match body.invincible {
                        Some(invincible) => {
                            let mut time: Timer = invincible.time;
                            time.set_elapsed(time.duration);
                            proof {
                                assert(body_ok(world@, i.0 as int));
                            }
                            world.change(i, Body { invincible: Some(Invincible { time }), ..body });
                        },
                        None => {},
                    },
                    None => {},
                },
                None => {},
            }
        },
    }
}

/// Calls back the hook that `h` names; does nothing where it names no hook.
pub fn recall_hook(world: &mut World, h: Entity)
    requires
        old(world).wf(),
    ensures
        final(world).wf(),
        final(world)@ == recalled(old(world)@, h),
{
    match world.get(h) {
        Some(body) => match body.hook {
            Some(hook) => {
                let mut hook: Hook = hook;
                hook.recall();
                proof {
                    assert(body_ok(world@, h.0 as int));
                }
                world.change(h, Body { hook: Some(hook), ..body });
            },
            None => {},
        },
        None => {},
    }
}

/// Shows or hides the body that `e` names.
pub fn set_visible(world: &mut World, e: Entity, visible: bool)
    requires
        old(world).wf(),
    ensures
        final(world).wf(),
        final(world)@ == with_visible(old(world)@, e, visible),
{
    match world.get(e) {
        Some(body) => {
            proof {
                assert(body_ok(world@, e.0 as int));
            }
            world.change(e, Body { visible, ..body });
        },
        None => {},
    }
}

/// Whether a ship can take over the body that `t` names: the body is there
/// and can be caught.
pub open spec fn takes(bodies: Seq<Option<Body>>, t: Entity) -> bool {
    slot_at(bodies, t) matches Some(target) && target.hookable is Some
}

/// The bodies after the ship that `s` names has taken over the body that `t`
/// names: the ship has it as its captive; the body rides on the ship at the
/// claw's offset, is on the player's side and is marked with its captor in
/// place of the mark of settling.
pub open spec fn taken(bodies: Seq<Option<Body>>, s: Entity, t: Entity) -> Seq<Option<Body>> {
    let ship = slot_at(bodies, s).unwrap().ship.unwrap();
    let kept = with_ship(bodies, s, PlayerShip { captive: Some(t), ..ship });
    let target = slot_at(kept, t).unwrap();
    kept.update(
        t.0 as int,
        Some(
            Body {
                parent: Some(s),
                translation: spec_claw_offset(),
                hooked: None,
                captured: Some(Captured { captor: s }),
                player: true,
                ..target
            },
        ),
    )
}

/// The bodies after the return `event` has been looked at from the ship's
/// side, and whether the events after it are looked at too. Where the world
/// has one hook at rest and one ship, the hook at rest is shown, the ship
/// forgets the hook that was out, and a target that came with the hook is
/// taken over. Looking stops where the hook at rest or the ship is missing, or
/// the target is gone or cannot be caught.
pub open spec fn handed_over(bodies: Seq<Option<Body>>, event: HookReturnedEvent) -> (
    Seq<Option<Body>>,
    bool,
) {
    match single_of(bodies, Filter::DisplayHook) {
        Some(d) => match single_of(bodies, Filter::Ship) {
            Some(s) => {
                let shown = with_visible(bodies, d, true);
                let ship = slot_at(shown, s).unwrap().ship.unwrap();
                let freed = with_ship(shown, s, PlayerShip { hook: None, ..ship });
                match event.target {
                    Some(t) => if takes(freed, t) {
                        (taken(freed, s, t), true)
                    } else {
                        (freed, false)
                    },
                    None => (freed, true),
                }
            },
            None => (bodies, false),
        },
        None => (bodies, false),
    }
}

/// The bodies after the returns `events` have been looked at from the
/// ship's side, in turn, as far as looking goes.
pub open spec fn after_handovers(bodies: Seq<Option<Body>>, events: Seq<HookReturnedEvent>) -> Seq<
    Option<Body>,
>
    decreases events.len(),
{
    if events.len() == 0 {
        bodies
    } else {
        let (next, go_on) = handed_over(bodies, events[0]);
        if go_on {
            after_handovers(next, events.skip(1))
        } else {
            next
        }
    }
}

/// Taking a body over keeps the world well-formed.
pub proof fn lemma_taken_keeps_wf(bodies: Seq<Option<Body>>, s: Entity, t: Entity)
    requires
        wf_bodies(bodies),
        takes(bodies, t),
        slot_at(bodies, s) matches Some(body) && body.ship is Some,
    ensures
        wf_bodies(taken(bodies, s, t)),
{
    let ship = slot_at(bodies, s).unwrap().ship.unwrap();
    assert(body_ok(bodies, s.0 as int));
    assert(body_ok(bodies, t.0 as int));
    lemma_change_keeps_wf(
        bodies,
        s.0 as int,
        Body { ship: Some(PlayerShip { captive: Some(t), ..ship }), ..slot_at(bodies, s).unwrap() },
    );
    let kept = with_ship(bodies, s, PlayerShip { captive: Some(t), ..ship });
    lemma_catch_can_ride(kept, s, t);
    lemma_ride_keeps_wf(kept, s, t);
    let target = slot_at(kept, t).unwrap();
    let riding = kept.update(t.0 as int, Some(Body { parent: Some(s), ..target }));
    let captive = Body {
        parent: Some(s),
        translation: spec_claw_offset(),
        hooked: None,
        captured: Some(Captured { captor: s }),
        player: true,
        ..target
    };
    lemma_change_keeps_wf(riding, t.0 as int, captive);
    assert(riding.update(t.0 as int, Some(captive)) =~= taken(bodies, s, t));
}

/// Looks at the hooks that have come home from the ship's side: see
/// [`handed_over`].
pub fn retrieve_hook(world: &mut World, events: &Vec<HookReturnedEvent>)
    requires
        old(world).wf(),
    ensures
        final(world).wf(),
        final(world)@ == after_handovers(old(world)@, events@),
{
    let ghost before = world@;
    let n: usize = events.len();
    let mut k: usize = 0;
    assert(events@.skip(0) =~= events@);
    while k < n
        invariant
            n == events@.len(),
            k <= n,
            world.wf(),
            before == old(world)@,
            after_handovers(before, events@) == after_handovers(world@, events@.skip(k as int)),
        decreases n - k,
    {
        let event: HookReturnedEvent = events[k];
        proof {
            assert(events@.skip(k as int)[0] == event);
            assert(events@.skip(k as int).skip(1) =~= events@.skip(k + 1));
        }
        let ghost mid = world@;
        let go_on: bool = hand_over(world, event);
        proof {
            let rest = events@.skip(k as int);
            assert(rest.len() > 0);
            assert(handed_over(mid, rest[0]) == (world@, go_on));
            assert(after_handovers(mid, rest) == if go_on {
                after_handovers(world@, rest.skip(1))
            } else {
                world@
            });
        }
        if !go_on {
            return ;
        }
        k += 1;
    }
}

fn hand_over(world: &mut World, event: HookReturnedEvent) -> (go_on: bool)
    requires
        old(world).wf(),
    ensures
        final(world).wf(),
        (final(world)@, go_on) == handed_over(old(world)@, event),
{
    let d: Entity = match world.single(Filter::DisplayHook) {
        Some(d) => d,
        None => {
            return false;
        },
    };
    let s: Entity = match world.single(Filter::Ship) {
        Some(s) => s,
        None => {
            return false;
        },
    };
    set_visible(world, d, true);
    let ship_body: Body = match world.get(s) {
        Some(body) => body,
        None => {
            return false;
        },
    };
    let ship: PlayerShip = match ship_body.ship {
        Some(ship) => ship,
        None => {
            return false;
        },
    };
    proof {
        assert(body_ok(world@, s.0 as int));
    }
    let ship: PlayerShip = PlayerShip { hook: None, ..ship };
    world.change(s, Body { ship: Some(ship), ..ship_body });
    let t: Entity = match event.target {
        Some(t) => t,
        None => {
            return true;
        },
    };
    let target: Body = match world.get(t) {
        Some(target) => target,
        None => {
            return false;
        },
    };
    if target.hookable.is_none() {
        return false;
    }
    let ghost freed = world@;
    proof {
        assert(takes(freed, t));
        lemma_taken_keeps_wf(freed, s, t);
        assert(body_ok(freed, s.0 as int));
        assert(body_ok(freed, t.0 as int));
    }
    world.change(s, Body { ship: Some(PlayerShip { captive: Some(t), ..ship }), ..ship_body });
    world.put(
        t,
        Body {
            parent: Some(s),
            translation: claw_offset(),
            hooked: None,
            captured: Some(Captured { captor: s }),
            player: true,
            ..target
        },
    );
    true
}

/// The bodies after the captive has been looked at. Where the world has one
/// captive and its health is spent, it is taken off its captor, and the
/// captor, where it is a ship, forgets it.
pub open spec fn after_captive_check(bodies: Seq<Option<Body>>) -> Seq<Option<Body>> {
    match single_of(bodies, Filter::Captive) {
        Some(c) => {
            let captive = slot_at(bodies, c).unwrap();
            let captor = captive.captured.unwrap().captor;
            if captive.health.unwrap().value <= 0 {
                let loose = detached(bodies, captor, c);
                match slot_at(loose, captor) {
                    Some(body) => match body.ship {
                        Some(ship) => with_ship(loose, captor, PlayerShip { captive: None, ..ship }),
                        None => loose,
                    },
                    None => loose,
                }
            } else {
                bodies
            }
        },
        None => bodies,
    }
}

/// Lets go of a captive whose health is spent: see [`after_captive_check`].
pub fn remove_dead_captive(world: &mut World)
    requires
        old(world).wf(),
    ensures
        final(world).wf(),
        final(world)@ == after_captive_check(old(world)@),
{
    let c: Entity = match world.single(Filter::Captive) {
        Some(c) => c,
        None => {
            return ;
        },
    };
    let captive: Body = match world.get(c) {
        Some(body) => body,
        None => {
            return ;
        },
    };
    let captured: Captured = match captive.captured {
        Some(captured) => captured,
        None => {
            return ;
        },
    };
    let health: Health = match captive.health {
        Some(health) => health,
        None => {
            return ;
        },
    };
    if health.value <= 0 {
        world.remove_child(captured.captor, c);
        match world.get(captured.captor) {
            Some(body) => match body.ship {
                Some(ship) => {
                    proof {
                        assert(body_ok(world@, captured.captor.0 as int));
                    }
                    world.change(
                        captured.captor,
                        Body { ship: Some(PlayerShip { captive: None, ..ship }), ..body },
                    );
                },
                None => {},
            },
            None => {},
        }
    }
}

/// Showing or hiding a body keeps the world well-formed.
pub proof fn lemma_visible_keeps_wf(bodies: Seq<Option<Body>>, e: Entity, visible: bool)
    requires
        wf_bodies(bodies),
    ensures
        wf_bodies(with_visible(bodies, e, visible)),
{
    if let Some(body) = slot_at(bodies, e) {
        assert(body_ok(bodies, e.0 as int));
        lemma_change_keeps_wf(bodies, e.0 as int, Body { visible, ..body });
    }
}

/// A change to the ship part of a body keeps the world well-formed.
pub proof fn lemma_ship_keeps_wf(bodies: Seq<Option<Body>>, e: Entity, ship: PlayerShip)
    requires
        wf_bodies(bodies),
    ensures
        wf_bodies(with_ship(bodies, e, ship)),
{
    if let Some(body) = slot_at(bodies, e) {
        if body.ship is Some {
            assert(body_ok(bodies, e.0 as int));
            lemma_change_keeps_wf(bodies, e.0 as int, Body { ship: Some(ship), ..body });
        }
    }
}

/// Whatever the fire button does, the world stays well-formed: in
/// particular no owner has two hooks out after it.
pub proof fn lemma_fire_keeps_wf(bodies: Seq<Option<Body>>, shoot: bool)
    requires
        wf_bodies(bodies),
    ensures
        wf_bodies(after_fire(bodies, shoot)),
        one_hook_per_owner(after_fire(bodies, shoot)),
{
    if shoot {
        if let Some(s) = single_of(bodies, Filter::MovingShip) {
            assert(is_single(bodies, Filter::MovingShip, s));
            let ship_body = slot_at(bodies, s).unwrap();
            let ship = ship_body.ship.unwrap();
            match ship.fire_action() {
                FireAction::Recall(h) => {
                    if let Some(body) = slot_at(bodies, h) {
                        if let Some(hook) = body.hook {
                            assert(body_ok(bodies, h.0 as int));
                            lemma_change_keeps_wf(
                                bodies,
                                h.0 as int,
                                Body { hook: Some(Hook { returning: true, ..hook }), ..body },
                            );
                        }
                    }
                },
                FireAction::Eat(c) => {
                    lemma_ship_keeps_wf(bodies, s, PlayerShip { captive: None, ..ship });
                    lemma_without_keeps_wf(
                        with_ship(bodies, s, PlayerShip { captive: None, ..ship }),
                        c,
                    );
                },
                FireAction::Launch => {
                    if let Some(d) = single_of(bodies, Filter::DisplayHook) {
                        if hook_of(bodies, s) is None && bodies.len() < usize::MAX {
                            let hook = hook_body(
                                s,
                                world_translation_of(bodies, d).unwrap(),
                                ship_body.velocity.unwrap().0,
                            );
                            lemma_push_keeps_wf(bodies, hook);
                            let with_hook = bodies.push(Some(hook));
                            lemma_visible_keeps_wf(with_hook, d, false);
                            let hidden = with_visible(with_hook, d, false);
                            let remembered = with_ship(
                                hidden,
                                s,
                                PlayerShip {
                                    hook: Some(Entity(bodies.len() as u64)),
                                    ..slot_at(hidden, s).unwrap().ship.unwrap()
                                },
                            );
                            lemma_ship_keeps_wf(
                                hidden,
                                s,
                                PlayerShip {
                                    hook: Some(Entity(bodies.len() as u64)),
                                    ..slot_at(hidden, s).unwrap().ship.unwrap()
                                },
                            );
                            if let Some(i) = single_of(bodies, Filter::Invincible) {
                                if let Some(body) = slot_at(remembered, i) {
                                    if let Some(invincible) = body.invincible {
                                        assert(body_ok(remembered, i.0 as int));
                                        lemma_change_keeps_wf(
                                            remembered,
                                            i.0 as int,
                                            Body {
                                                invincible: Some(
                                                    Invincible {
                                                        time: Timer {
                                                            elapsed: invincible.time.duration,
                                                            ..invincible.time
                                                        },
                                                    },
                                                ),
                                                ..body
                                            },
                                        );
                                    }
                                }
                            }
                        }
                    }
                },
            }
        }
    }
}

/// In a well-formed world the hook of an owner is the one body that is a
/// hook of that owner.
pub proof fn lemma_hook_of(bodies: Seq<Option<Body>>, owner: Entity, h: Entity)
    requires
        wf_bodies(bodies),
        bodies.len() <= usize::MAX,
        h.0 < bodies.len(),
        crate::world::hook_owner(bodies, h.0 as int) == Some(owner),
    ensures
        hook_of(bodies, owner) == Some(h),
{
    let i = choose|i: int|
        0 <= i < bodies.len() && #[trigger] crate::world::hook_owner(bodies, i) == Some(owner);
    assert(i == h.0);
}

/// In a world of no more places than a machine can count, the hook of an
/// owner, where it has one, is a hook of that owner.
pub proof fn lemma_hook_of_is_hook(bodies: Seq<Option<Body>>, owner: Entity)
    requires
        bodies.len() <= usize::MAX,
        hook_of(bodies, owner) is Some,
    ensures
        hook_of(bodies, owner).unwrap().0 < bodies.len(),
        crate::world::hook_owner(bodies, hook_of(bodies, owner).unwrap().0 as int) == Some(owner),
{
    let i = choose|i: int|
        0 <= i < bodies.len() && #[trigger] crate::world::hook_owner(bodies, i) == Some(owner);
    assert(hook_of(bodies, owner) == Some(Entity(i as u64)));
}

/// Whether the ship that `s` names, if it names one, has as the hook it
/// remembers the hook that it has out: none where none is out.
pub open spec fn hook_known(bodies: Seq<Option<Body>>, s: Entity) -> bool {
    match slot_at(bodies, s) {
        Some(body) => match body.ship {
            Some(ship) => ship.hook == hook_of(bodies, s),
            None => true,
        },
        None => true,
    }
}

/// The fire button keeps the ship's memory of its hook right, and fires at
/// most one hook, however often it went down: where the one ship that moves
/// remembers the hook it has out, it does so afterwards; at most one body is
/// added, and one is added only where the button went down and the ship had
/// neither a hook out nor a captive.
pub proof fn lemma_fire_keeps_hook_known(bodies: Seq<Option<Body>>, shoot: bool)
    requires
        wf_bodies(bodies),
        bodies.len() <= usize::MAX,
        single_of(bodies, Filter::MovingShip) matches Some(s) && hook_known(bodies, s),
    ensures
        hook_known(after_fire(bodies, shoot), single_of(bodies, Filter::MovingShip).unwrap()),
        bodies.len() <= after_fire(bodies, shoot).len() <= bodies.len() + 1,
        after_fire(bodies, shoot).len() == bodies.len() + 1 ==> shoot && ({
            let s = single_of(bodies, Filter::MovingShip).unwrap();
            let ship = slot_at(bodies, s).unwrap().ship.unwrap();
            ship.hook is None && ship.captive is None
        }),
{
    let s = single_of(bodies, Filter::MovingShip).unwrap();
    assert(is_single(bodies, Filter::MovingShip, s));
    let ship_body = slot_at(bodies, s).unwrap();
    let ship = ship_body.ship.unwrap();
    let after = after_fire(bodies, shoot);
    lemma_fire_keeps_wf(bodies, shoot);
    if shoot {
        match ship.fire_action() {
            FireAction::Recall(h) => {
                assert(hook_of(bodies, s) == Some(h));
                lemma_hook_of_is_hook(bodies, s);
                assert(h.0 < bodies.len() && crate::world::hook_owner(bodies, h.0 as int) == Some(s));
                assert(crate::world::hook_owner(after, h.0 as int) == Some(s));
                lemma_hook_of(after, s, h);
            },
            FireAction::Eat(c) => {
                assert(hook_of(bodies, s) is None);
                assert forall|k: int| 0 <= k < after.len() implies crate::world::hook_owner(after, k)
                    != Some(s) by {
                    assert(crate::world::hook_owner(bodies, k) != Some(s));
                }
            },
            FireAction::Launch => {
                if after != bodies {
                    let h = Entity(bodies.len() as u64);
                    assert(crate::world::hook_owner(after, bodies.len() as int) == Some(s));
                    lemma_hook_of(after, s, h);
                }
            },
        }
    }
}

/// When the fire button goes down for a ship that has neither a hook out
/// nor a captive, in a world with one hook at rest and a place left, the hook
/// is fired: one body is added, the hook that [`hook_body`] makes at the place
/// of the hook at rest, with the ship's velocity; the ship remembers it; and
/// the hook at rest is hidden.
pub proof fn lemma_fire_launches(bodies: Seq<Option<Body>>)
    requires
        wf_bodies(bodies),
        bodies.len() < usize::MAX,
        single_of(bodies, Filter::MovingShip) matches Some(s) && hook_known(bodies, s) && ({
            let ship = slot_at(bodies, s).unwrap().ship.unwrap();
            ship.hook is None && ship.captive is None
        }),
        single_of(bodies, Filter::DisplayHook) is Some,
    ensures
        ({
            let s = single_of(bodies, Filter::MovingShip).unwrap();
            let d = single_of(bodies, Filter::DisplayHook).unwrap();
            let after = after_fire(bodies, true);
            &&& after.len() == bodies.len() + 1
            &&& after[bodies.len() as int] == Some(
                hook_body(
                    s,
                    world_translation_of(bodies, d).unwrap(),
                    slot_at(bodies, s).unwrap().velocity.unwrap().0,
                ),
            )
            &&& slot_at(after, s) matches Some(body) && (body.ship matches Some(ship) && ship.hook
                == Some(Entity(bodies.len() as u64)))
            &&& slot_at(after, d) matches Some(body) && !body.visible
        }),
{
    let s = single_of(bodies, Filter::MovingShip).unwrap();
    let d = single_of(bodies, Filter::DisplayHook).unwrap();
    assert(is_single(bodies, Filter::MovingShip, s));
    assert(is_single(bodies, Filter::DisplayHook, d));
}

/// A hand-over is whole. Where the world has one hook at rest and one ship,
/// and the event names a body that is there and can be caught: the ship
/// forgets its hook and has the body as its captive; the body rides on the
/// ship at the claw's offset, is on the player's side and is marked with its
/// captor in place of the mark of settling; its slot is as it was; and the hook
/// at rest is shown.
pub proof fn lemma_hand_over_is_whole(bodies: Seq<Option<Body>>, t: Entity)
    requires
        wf_bodies(bodies),
        single_of(bodies, Filter::DisplayHook) is Some,
        single_of(bodies, Filter::Ship) is Some,
        slot_at(bodies, t) matches Some(target) && target.hookable is Some,
    ensures
        ({
            let s = single_of(bodies, Filter::Ship).unwrap();
            let d = single_of(bodies, Filter::DisplayHook).unwrap();
            let (after, go_on) = handed_over(bodies, HookReturnedEvent { target: Some(t) });
            &&& go_on
            &&& slot_at(after, s) matches Some(body) && (body.ship matches Some(ship) && ship.hook
                is None && ship.captive == Some(t))
            &&& slot_at(after, t) matches Some(captive) && captive.parent == Some(s)
                && captive.captured == Some(Captured { captor: s }) && captive.hooked is None
                && captive.player && captive.translation == spec_claw_offset() && captive.hookable
                == slot_at(bodies, t).unwrap().hookable
            &&& slot_at(after, d) matches Some(body) && body.visible
            &&& wf_bodies(after)
        }),
{
    let s = single_of(bodies, Filter::Ship).unwrap();
    let d = single_of(bodies, Filter::DisplayHook).unwrap();
    assert(is_single(bodies, Filter::Ship, s));
    assert(is_single(bodies, Filter::DisplayHook, d));
    assert(body_ok(bodies, s.0 as int));
    assert(body_ok(bodies, t.0 as int));
    lemma_visible_keeps_wf(bodies, d, true);
    let shown = with_visible(bodies, d, true);
    let ship = slot_at(shown, s).unwrap().ship.unwrap();
    lemma_ship_keeps_wf(shown, s, PlayerShip { hook: None, ..ship });
    let freed = with_ship(shown, s, PlayerShip { hook: None, ..ship });
    assert(takes(freed, t));
    lemma_taken_keeps_wf(freed, s, t);
}

/// The fire button turns no returning hook round again.
pub proof fn lemma_fire_keeps_returning(bodies: Seq<Option<Body>>, shoot: bool)
    ensures
        crate::hook::returning_kept(bodies, after_fire(bodies, shoot)),
{
}

/// The bodies after the fire button has been looked at once for each of
/// `presses`, which say whether it went down.
pub open spec fn after_fires(bodies: Seq<Option<Body>>, presses: Seq<bool>) -> Seq<Option<Body>>
    decreases presses.len(),
{
    if presses.len() == 0 {
        bodies
    } else {
        after_fire(after_fires(bodies, presses.drop_last()), presses.last())
    }
}

/// After any run of the fire button no owner has two hooks out.
pub proof fn lemma_one_hook_per_owner(bodies: Seq<Option<Body>>, presses: Seq<bool>)
    requires
        wf_bodies(bodies),
    ensures
        wf_bodies(after_fires(bodies, presses)),
        one_hook_per_owner(after_fires(bodies, presses)),
    decreases presses.len(),
{
    if presses.len() > 0 {
        lemma_one_hook_per_owner(bodies, presses.drop_last());
        lemma_fire_keeps_wf(after_fires(bodies, presses.drop_last()), presses.last());
    }
}

/// A captive whose health is spent is let go, whatever the hook does: where
/// the world has one captive, its health is spent and it rides on its captor,
/// it rides on nothing afterwards, and its captor, where it is a ship, has no
/// captive. While its health lasts nothing changes.
pub proof fn lemma_dead_captive_released(bodies: Seq<Option<Body>>)
    requires
        wf_bodies(bodies),
        single_of(bodies, Filter::Captive) is Some,
    ensures
        ({
            let c = single_of(bodies, Filter::Captive).unwrap();
            let captive = slot_at(bodies, c).unwrap();
            let captor = captive.captured.unwrap().captor;
            let after = after_captive_check(bodies);
            &&& captive.health.unwrap().value > 0 ==> after == bodies
            &&& captive.health.unwrap().value <= 0 ==> {
                &&& slot_at(after, c) matches Some(body) && body.parent != Some(captor)
                &&& captive.parent == Some(captor) ==> slot_at(after, c).unwrap().parent is None
                &&& slot_at(after, captor) matches Some(body) ==> (body.ship matches Some(ship)
                    ==> ship.captive is None)
                &&& forall|e: Entity|
                    e != c && e != captor ==> #[trigger] slot_at(after, e) == slot_at(bodies, e)
            }
        }),
        wf_bodies(after_captive_check(bodies)),
{
    let c = single_of(bodies, Filter::Captive).unwrap();
    assert(is_single(bodies, Filter::Captive, c));
    let captive = slot_at(bodies, c).unwrap();
    let captor = captive.captured.unwrap().captor;
    lemma_detach_keeps_wf(bodies, captor, c);
    let loose = detached(bodies, captor, c);
    if let Some(body) = slot_at(loose, captor) {
        if let Some(ship) = body.ship {
            lemma_ship_keeps_wf(loose, captor, PlayerShip { captive: None, ..ship });
        }
    }
}

/// The roll speed of the wreck of a ship.
pub const SHIP_WRECK_ROLL_SPEED: i32 = 1_200;

/// Nanoseconds for which the wreck of a ship lasts.
pub const SHIP_WRECK_TIME: u64 = 3_000_000_000;

/// The size of the blasts of the wreck of a ship.
pub const SHIP_WRECK_BLAST_SIZE: i32 = 3_000;

/// A new ship: at its starting place, at rest, on the player's side, with
/// its health full, and safe from harm for a while.
pub open spec fn ship_body() -> Body {
    Body {
        ship: Some(PlayerShip::spec_new()),
        scene: Some(Scene::Ship),
        velocity: Some(Velocity(Vec3::spec_zero())),
        acceleration: Some(
            Acceleration {
                acceleration: Vec3::spec_zero(),
                damping: SHIP_DAMPING,
                max_speed: SHIP_MAX_SPEED,
            },
        ),
        health: Some(
            Health { value: SHIP_INITIAL_HEALTH, max: SHIP_INITIAL_HEALTH, last_hurt_by: None },
        ),
        collider: Some(
            Collider { radius: SHIP_COLLISION_RADIUS, collision_damage: SHIP_COLLISION_DAMAGE },
        ),
        player: true,
        invincible: Some(
            Invincible { time: Timer::spec_new(SHIP_INVINCIBLE_TIME, TimerMode::Once) },
        ),
        hit_marker: Some(HitMarker::spec_default()),
        ..Body::spec_new(Vec3 { x: STARTING_TRANSLATION_X, y: 0, z: 0 })
    }
}

/// The hook at rest on the ship that `ship` names.
pub open spec fn display_hook_body(ship: Entity) -> Body {
    Body {
        parent: Some(ship),
        display_hook: true,
        scene: Some(Scene::Hook),
        ..Body::spec_new(spec_claw_offset())
    }
}

/// Adds a new ship with its hook at rest on it, and names the ship.
pub fn spawn_ship(world: &mut World) -> (ship: Entity)
    requires
        old(world).wf(),
        old(world)@.len() + 1 < usize::MAX,
    ensures
        final(world).wf(),
        ship.0 == old(world)@.len(),
        final(world)@ == old(world)@.push(Some(ship_body())).push(Some(display_hook_body(ship))),
{
    let mut body: Body = Body::new(Vec3::new(STARTING_TRANSLATION_X, 0, 0));
    body.ship = Some(PlayerShip::new());
    body.scene = Some(Scene::Ship);
    body.velocity = Some(Velocity(Vec3::zero()));
    body.acceleration = Some(Acceleration::new(Vec3::zero(), SHIP_DAMPING, SHIP_MAX_SPEED));
    body.health = Some(Health::new(SHIP_INITIAL_HEALTH));
    body.collider = Some(Collider::new(SHIP_COLLISION_RADIUS, SHIP_COLLISION_DAMAGE));
    body.player = true;
    body.invincible = Some(Invincible { time: Timer::new(SHIP_INVINCIBLE_TIME, TimerMode::Once) });
    body.hit_marker = Some(HitMarker::default());
    let ghost before = world@;
    let ship: Entity = world.spawn(body);
    let mut hook: Body = Body::new(claw_offset());
    hook.display_hook = true;
    hook.scene = Some(Scene::Hook);
    let display: Entity = world.spawn(hook);
    let ghost spawned = world@;
    proof {
        assert(!has_riders(spawned, display)) by {
            if has_riders(spawned, display) {
                let k = choose|k: int| 0 <= k < spawned.len() && #[trigger] rides_on(spawned, k, display);
                if k < before.len() {
                    assert(body_ok(before, k));
                }
            }
        }
    }
    let attached: bool = world.add_child(ship, display);
    assert(attached);
    ship
}

/// Whether a ship that cannot be hurt is shown, `elapsed` nanoseconds into
/// its time: it flickers, hidden for one step of the flicker in three.
pub open spec fn flicker_shown(elapsed: u64) -> bool {
    (elapsed * SHIP_INVINCIBLE_FLICKER_RATE / (NANOS_PER_SECOND as int))
        % (SHIP_INVINCIBLE_FLICKER_RATIO as int) != 0
}

impl Invincible {
    /// What `delta` more nanoseconds make of the protection and of whether
    /// its bearer is shown: the protection ends when its time has just run out,
    /// and its bearer is shown from there on; until then it flickers.
    pub open spec fn ticked(self, delta: u64) -> (Option<Invincible>, bool) {
        let time = self.time.ticked(delta);
        if time.spec_just_finished() {
            (None, true)
        } else {
            (Some(Invincible { time }), flicker_shown(time.elapsed))
        }
    }

    /// Lets `delta` nanoseconds pass; says what is left of the protection
    /// and whether its bearer is shown.
    pub fn tick(self, delta: u64) -> (r: (Option<Invincible>, bool))
        ensures
            r == self.ticked(delta),
    {
        let mut time: Timer = self.time;
        time.tick(delta);
        if time.just_finished() {
            (None, true)
        } else {
            let steps: u128 = time.elapsed as u128 * SHIP_INVINCIBLE_FLICKER_RATE as u128
                / NANOS_PER_SECOND as u128;
            (Some(Invincible { time }), steps % SHIP_INVINCIBLE_FLICKER_RATIO as u128 != 0)
        }
    }
}

/// The bodies after the one that cannot be hurt has had `delta` more
/// nanoseconds of protection.
pub open spec fn after_invincible(bodies: Seq<Option<Body>>, delta: u64) -> Seq<Option<Body>> {
    match single_of(bodies, Filter::Invincible) {
        Some(e) => {
            let body = slot_at(bodies, e).unwrap();
            let (invincible, visible) = body.invincible.unwrap().ticked(delta);
            bodies.update(e.0 as int, Some(Body { invincible, visible, ..body }))
        },
        None => bodies,
    }
}

/// Lets the protection of the body that cannot be hurt run on.
pub fn invincible(world: &mut World, delta: u64)
    requires
        old(world).wf(),
    ensures
        final(world).wf(),
        final(world)@ == after_invincible(old(world)@, delta),
{
    let e: Entity = match world.single(Filter::Invincible) {
        Some(e) => e,
        None => {
            return ;
        },
    };
    match world.get(e) {
        Some(body) => match body.invincible {
            Some(protection) => {
                let (invincible, visible) = protection.tick(delta);
                proof {
                    assert(body_ok(world@, e.0 as int));
                }
                world.change(e, Body { invincible, visible, ..body });
            },
            None => {},
        },
        None => {},
    }
}

impl PlayerShip {
    /// The ship after `delta` nanoseconds of pitching: it turns toward its
    /// target pitch at the pitch rate, and stops there.
    pub open spec fn pitched(self, delta: u64) -> PlayerShip {
        let diff = self.target_pitch - self.pitch;
        let max_turn = (SHIP_PITCH_RATE as int) * (delta as int) / (NANOS_PER_SECOND as int);
        PlayerShip {
            pitch: if max_turn > (if diff < 0 {
                -diff
            } else {
                diff
            }) {
                self.target_pitch
            } else if diff < 0 {
                (self.pitch - max_turn) as i32
            } else if diff > 0 {
                (self.pitch + max_turn) as i32
            } else {
                self.pitch
            },
            ..self
        }
    }

    /// Pitches the ship for `delta` nanoseconds.
    pub fn update_pitch(&mut self, delta: u64)
        ensures
            *final(self) == old(self).pitched(delta),
    {
        let diff: i64 = self.target_pitch as i64 - self.pitch as i64;
        proof {
            crate::fixed::lemma_product_bound(
                SHIP_PITCH_RATE as int,
                delta as int,
                2_000,
                0xffff_ffff_ffff_ffff,
            );
        }
        let max_turn: u128 = SHIP_PITCH_RATE as u128 * delta as u128 / NANOS_PER_SECOND as u128;
        let span: u128 = if diff < 0 {
            (-diff) as u128
        } else {
            diff as u128
        };
        if max_turn > span {
            self.pitch = self.target_pitch;
        } else if diff < 0 {
            self.pitch = (self.pitch as i64 - max_turn as i64) as i32;
        } else if diff > 0 {
            self.pitch = (self.pitch as i64 + max_turn as i64) as i32;
        }
    }

    /// The ship steered along `direction`: it aims to pitch by as much of the
    /// largest pitch as the direction, brought to length one, has of the
    /// second axis.
    pub open spec fn steered(self, direction: Vec2) -> PlayerShip {
        PlayerShip {
            target_pitch: mul_div_of(
                direction_of(direction.x as int, 0, direction.y as int, UNIT as int).z as int,
                SHIP_MAX_PITCH as int,
                UNIT as int,
            ) as i32,
            ..self
        }
    }
}

/// The push on a ship that is steered along `direction`: the ship's
/// acceleration along it on the plane of play, nothing where it is zero.
pub open spec fn steering_push(direction: Vec2) -> Vec3 {
    direction_of(direction.x as int, 0, direction.y as int, SHIP_ACCELERATION as int)
}

/// The bodies after the ship has pitched for `delta` nanoseconds.
pub open spec fn after_update_pitch(bodies: Seq<Option<Body>>, delta: u64) -> Seq<Option<Body>> {
    match single_of(bodies, Filter::Ship) {
        Some(s) => with_ship(bodies, s, slot_at(bodies, s).unwrap().ship.unwrap().pitched(delta)),
        None => bodies,
    }
}

/// Pitches the ship toward its target pitch. The turn that shows the pitch
/// is left to the host.
pub fn update_pitch(world: &mut World, delta: u64)
    requires
        old(world).wf(),
    ensures
        final(world).wf(),
        final(world)@ == after_update_pitch(old(world)@, delta),
{
    let s: Entity = match world.single(Filter::Ship) {
        Some(s) => s,
        None => {
            return ;
        },
    };
    match world.get(s) {
        Some(body) => match body.ship {
            Some(ship) => {
                let mut ship: PlayerShip = ship;
                ship.update_pitch(delta);
                proof {
                    assert(body_ok(world@, s.0 as int));
                }
                world.change(s, Body { ship: Some(ship), ..body });
            },
            None => {},
        },
        None => {},
    }
}

/// The bodies after the ship that can be accelerated has been steered as
/// `events` ask: it is pushed along the sum of their directions and aims to
/// pitch with it.
pub open spec fn after_movement_controls(bodies: Seq<Option<Body>>, events: Seq<InputMovementEvent>) -> Seq<
    Option<Body>,
> {
    match single_of(bodies, Filter::SteeredShip) {
        Some(s) => {
            let body = slot_at(bodies, s).unwrap();
            let direction = summed_direction(events);
            bodies.update(
                s.0 as int,
                Some(
                    Body {
                        acceleration: Some(
                            Acceleration {
                                acceleration: steering_push(direction),
                                ..body.acceleration.unwrap()
                            },
                        ),
                        ship: Some(body.ship.unwrap().steered(direction)),
                        ..body
                    },
                ),
            )
        },
        None => bodies,
    }
}

/// Steers the ship as the controls ask.
pub fn movement_controls(world: &mut World, events: &Vec<InputMovementEvent>)
    requires
        old(world).wf(),
    ensures
        final(world).wf(),
        final(world)@ == after_movement_controls(old(world)@, events@),
{
    let s: Entity = match world.single(Filter::SteeredShip) {
        Some(s) => s,
        None => {
            return ;
        },
    };
    let body: Body = match world.get(s) {
        Some(body) => body,
        None => {
            return ;
        },
    };
    let ship: PlayerShip = match body.ship {
        Some(ship) => ship,
        None => {
            return ;
        },
    };
    let acceleration: Acceleration = match body.acceleration {
        Some(acceleration) => acceleration,
        None => {
            return ;
        },
    };
    let direction: Vec2 = sum_directions(events);
    let flat: Vec3 = Vec3::new(direction.x, 0, direction.y);
    let push: Vec3 = flat.with_length(SHIP_ACCELERATION);
    let unit: Vec3 = flat.with_length(UNIT);
    proof {
        crate::vector::lemma_direction_bounded(
            direction.x as int,
            0,
            direction.y as int,
            UNIT as int,
        );
        crate::fixed::lemma_product_bound(unit.z as int, SHIP_MAX_PITCH as int, 1000, 314);
        crate::fixed::lemma_div_toward_zero_bounds(unit.z * SHIP_MAX_PITCH, UNIT as int);
    }
    let target_pitch: i32 = mul_div(unit.z as i128, SHIP_MAX_PITCH as i128, UNIT as i128) as i32;
    proof {
        assert(body_ok(world@, s.0 as int));
    }
    world.change(
        s,
        Body {
            acceleration: Some(Acceleration { acceleration: push, ..acceleration }),
            ship: Some(PlayerShip { target_pitch, ..ship }),
            ..body
        },
    );
}

/// `v` held between `low` and `high`.
pub open spec fn clamped(v: i32, low: i32, high: i32) -> i32 {
    if v < low {
        low
    } else if v > high {
        high
    } else {
        v
    }
}

/// A place held within the part of the field that is open to the ship.
pub open spec fn within_bounds(translation: Vec3) -> Vec3 {
    Vec3 {
        x: clamped(translation.x, BOUNDS_X_MIN, BOUNDS_X_MAX),
        z: clamped(translation.z, BOUNDS_Z_MIN, BOUNDS_Z_MAX),
        ..translation
    }
}

/// Holds a place within the part of the field that is open to the ship.
pub fn bound(translation: Vec3) -> (r: Vec3)
    ensures
        r == within_bounds(translation),
{
    let x: i32 = if translation.x < BOUNDS_X_MIN {
        BOUNDS_X_MIN
    } else if translation.x > BOUNDS_X_MAX {
        BOUNDS_X_MAX
    } else {
        translation.x
    };
    let z: i32 = if translation.z < BOUNDS_Z_MIN {
        BOUNDS_Z_MIN
    } else if translation.z > BOUNDS_Z_MAX {
        BOUNDS_Z_MAX
    } else {
        translation.z
    };
    Vec3 { x, y: translation.y, z }
}

/// The bodies after the ship has been held within its part of the field.
pub open spec fn after_bounds_check(bodies: Seq<Option<Body>>) -> Seq<Option<Body>> {
    match single_of(bodies, Filter::Ship) {
        Some(s) => {
            let body = slot_at(bodies, s).unwrap();
            bodies.update(
                s.0 as int,
                Some(Body { translation: within_bounds(body.translation), ..body }),
            )
        },
        None => bodies,
    }
}

/// Holds the ship within its part of the field.
pub fn bounds_check(world: &mut World)
    requires
        old(world).wf(),
    ensures
        final(world).wf(),
        final(world)@ == after_bounds_check(old(world)@),
{
    let s: Entity = match world.single(Filter::Ship) {
        Some(s) => s,
        None => {
            return ;
        },
    };
    match world.get(s) {
        Some(body) => {
            proof {
                assert(body_ok(world@, s.0 as int));
            }
            world.change(s, Body { translation: bound(body.translation), ..body });
        },
        None => {},
    }
}

/// Whether the place `i` holds a ship whose health is spent and that is
/// not a wreck yet.
pub open spec fn ship_dies(bodies: Seq<Option<Body>>, i: int) -> bool {
    bodies[i] matches Some(body) && body.ship is Some && body.velocity is Some
        && body.wreck is None && (body.health matches Some(health) && health.spec_is_spent())
}

/// The wreck that the dying ship in place `i` leaves.
pub open spec fn ship_wreck(bodies: Seq<Option<Body>>, i: int) -> WreckedEvent {
    let body = bodies[i].unwrap();
    WreckedEvent {
        scene: Scene::Ship,
        translation: world_translation_of(bodies, Entity(i as u64)).unwrap(),
        quat: body.rotation,
        velocity: body.velocity.unwrap().0,
        roll_speed: SHIP_WRECK_ROLL_SPEED,
        time_to_live: SHIP_WRECK_TIME,
        blast_size: SHIP_WRECK_BLAST_SIZE,
    }
}

/// The bodies after the ship in place `i` has died: it is gone with what
/// rides on it, and so is the one hook of the world, where there is one.
pub open spec fn after_ship_death(bodies: Seq<Option<Body>>, i: int) -> Seq<Option<Body>> {
    match single_of(bodies, Filter::Hook) {
        Some(h) => without(without(bodies, Entity(i as u64)), h),
        None => without(bodies, Entity(i as u64)),
    }
}

/// The bodies after the ships in the places below `upto` have been looked
/// at in turn, and the wrecks that those that died leave.
pub open spec fn check_dead_upto(bodies: Seq<Option<Body>>, upto: int) -> (
    Seq<Option<Body>>,
    Seq<WreckedEvent>,
)
    decreases upto,
{
    if upto <= 0 {
        (bodies, seq![])
    } else {
        let (before, wrecks) = check_dead_upto(bodies, upto - 1);
        if upto - 1 < before.len() && ship_dies(before, upto - 1) {
            (after_ship_death(before, upto - 1), wrecks.push(ship_wreck(before, upto - 1)))
        } else {
            (before, wrecks)
        }
    }
}

/// Looks at every ship: one whose health is spent leaves a wreck and is
/// gone, and with it the hook that is out. Adds the wrecks to `wrecks` and says
/// whether a ship died.
pub fn check_dead(world: &mut World, wrecks: &mut Vec<WreckedEvent>) -> (died: bool)
    requires
        old(world).wf(),
    ensures
        final(world).wf(),
        final(world)@ == check_dead_upto(old(world)@, old(world)@.len() as int).0,
        final(wrecks)@ == old(wrecks)@ + check_dead_upto(old(world)@, old(world)@.len() as int).1,
        died == (check_dead_upto(old(world)@, old(world)@.len() as int).1.len() > 0),
{
    let ghost before = world@;
    let ghost wrecks_before = wrecks@;
    let n: usize = world.len();
    let mut died: bool = false;
    let mut i: usize = 0;
    proof {
        assert(wrecks@ + Seq::<WreckedEvent>::empty() =~= wrecks@);
    }
    while i < n
        invariant
            n == before.len(),
            world@.len() == n,
            i <= n,
            world.wf(),
            before == old(world)@,
            wrecks_before == old(wrecks)@,
            world@ == check_dead_upto(before, i as int).0,
            wrecks@ == wrecks_before + check_dead_upto(before, i as int).1,
            died == (check_dead_upto(before, i as int).1.len() > 0),
        decreases n - i,
    {
        let ghost so_far = check_dead_upto(before, i as int);
        let dies: Option<WreckedEvent> = match world.at(i) {
            Some(body) => match (body.ship, body.velocity, body.health) {
                (Some(_), Some(velocity), Some(health)) => {
                    if health.is_spent() && body.wreck.is_none() {
                        match world.world_translation(Entity(i as u64)) {
                            Some(translation) => Some(
                                WreckedEvent::new(
                                    Scene::Ship,
                                    translation,
                                    body.rotation,
                                    velocity.0,
                                    SHIP_WRECK_ROLL_SPEED,
                                    SHIP_WRECK_TIME,
                                    SHIP_WRECK_BLAST_SIZE,
                                ),
                            ),
                            None => None,
                        }
                    } else {
                        None
                    }
                },
                _ => None,
            },
            None => None,
        };
        match dies {
            Some(wreck) => {
                assert(ship_dies(world@, i as int));
                let hook: Option<Entity> = world.single(Filter::Hook);
                world.despawn(Entity(i as u64));
                match hook {
                    Some(h) => {
                        world.despawn(h);
                    },
                    None => {},
                }
                wrecks.push(wreck);
                died = true;
                proof {
                    assert(wrecks@ =~= wrecks_before + so_far.1.push(wreck));
                }
            },
            None => {
                assert(!ship_dies(world@, i as int));
            },
        }
        i += 1;
    }
    died
}

} // verus!
