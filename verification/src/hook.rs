//! The grappling hook: launch, recall, capture, centring and reclaim.
//!
//! A hook flies out, returns and is gone: it returns once it is too far from
//! its owner, is called back or has caught something, and it never flies out
//! again. A hook whose owner is gone is no longer steered: it flies on as it
//! is, reports nothing, and goes when it leaves the field.
use vstd::prelude::*;
use crate::collision_detection::{Collider, CollisionEvent};
use crate::fixed::{lemma_lerp_bounds, squared, RATIO_ONE, UNIT};
use crate::movement::{Acceleration, Velocity};
use crate::timer::{saturating_sum, Stopwatch};
use crate::vector::{
    lemma_direction_bounded, lemma_direction_length, lemma_direction_reaches, Quat, Vec3,
};
use crate::world::{
    body_ok, detached, is_single, lemma_catch_can_ride, lemma_change_keeps_wf,
    lemma_ride_keeps_wf, lemma_single_unique, passes_at, single_of, slot_at, wf_bodies, without,
    world_translation_of, Body, Entity, Filter, World,
};

verus! {

/// Distance from its owner beyond which a hook turns back by itself.
pub const HOOK_RETURN_DISTANCE: i32 = 40_000;

/// Distance from its owner below which a returning hook is home.
pub const HOOK_RECLAIM_DISTANCE: i32 = 5_000;

pub const HOOK_LAUNCH_SPEED: i32 = 60_000;

pub const HOOK_MAX_SPEED: i32 = 80_000;

pub const HOOK_RETURN_ACCELERATION: i32 = 800_000;

pub const HOOK_DAMPING: i32 = 5_000;

pub const HOOK_COLLISION_RADIUS: i32 = 1_000;

/// How much of the way into its slot a caught target covers per second.
pub const HOOK_CENTERING_SPEED: i32 = 3_000;

/// Marks a body as one that a hook can catch, with the place and turn, seen
/// from its carrier, in which it comes to rest.
#[derive(Clone, Copy, Debug, PartialEq, Eq)]
pub struct Hookable {
    pub translation: Vec3,
    pub rotation: Quat,
}

impl Hookable {
    pub fn new(translation: Vec3, rotation: Quat) -> (r: Self)
        ensures
            r == (Hookable { translation, rotation }),
    {
        Hookable { translation, rotation }
    }
}

/// Marks a caught body while it settles into its slot: the time since the
/// catch, and where it was and how it was turned, seen from the hook, when caught.
#[derive(Clone, Copy, Debug, PartialEq, Eq)]
pub struct Hooked {
    pub time: Stopwatch,
    pub initial_position: Vec3,
    pub initial_rotation: Quat,
}

/// A hook in flight.
#[derive(Clone, Copy, Debug, PartialEq, Eq)]
pub struct Hook {
    pub owner: Entity,
    /// Once set, stays set for the rest of the hook's life.
    pub returning: bool,
    pub target: Option<Entity>,
}

impl Hook {
    pub fn new(owner: Entity) -> (r: Self)
        ensures
            r == (Hook { owner, returning: false, target: None }),
    {
        Hook { owner, returning: false, target: None }
    }
}

/// A hook has come home, with or without a catch.
#[derive(Clone, Copy, Debug, PartialEq, Eq)]
pub struct HookReturnedEvent {
    pub target: Option<Entity>,
}

impl HookReturnedEvent {
    pub fn new(target: Option<Entity>) -> (r: Self)
        ensures
            r == (HookReturnedEvent { target }),
    {
        HookReturnedEvent { target }
    }
}

/// What a hook is given when it is fired: it leaves `start` with the
/// launcher's velocity and the launch speed on top, along the negative x axis.
pub open spec fn hook_body(owner: Entity, start: Vec3, launcher_velocity: Vec3) -> Body {
    Body {
        hook: Some(Hook { owner, returning: false, target: None }),
        player: true,
        velocity: Some(
            Velocity(
                launcher_velocity.spec_plus(Vec3 { x: (-HOOK_LAUNCH_SPEED) as i32, y: 0, z: 0 }),
            ),
        ),
        acceleration: Some(
            Acceleration {
                acceleration: Vec3::spec_zero(),
                damping: HOOK_DAMPING,
                max_speed: HOOK_MAX_SPEED,
            },
        ),
        collider: Some(Collider { radius: HOOK_COLLISION_RADIUS, collision_damage: 0 }),
        ..Body::spec_new(start)
    }
}

/// The parts of a hook that `owner` fires from `start`.
pub fn hook_builder(owner: Entity, start: Vec3, launcher_velocity: Vec3) -> (r: Body)
    ensures
        r == hook_body(owner, start, launcher_velocity),
{
    let mut body: Body = Body::new(start);
    body.hook = Some(Hook::new(owner));
    body.player = true;
    body.velocity = Some(Velocity(launcher_velocity.plus(Vec3::new(-HOOK_LAUNCH_SPEED, 0, 0))));
    body.acceleration = Some(Acceleration::new(Vec3::zero(), HOOK_DAMPING, HOOK_MAX_SPEED));
    body.collider = Some(Collider::new(HOOK_COLLISION_RADIUS, 0));
    body
}

/// Whether a hook at `hook_position` is so far from its owner that it turns back.
pub open spec fn beyond_return(hook_position: Vec3, owner_position: Vec3) -> bool {
    hook_position.spec_distance_squared(owner_position) > HOOK_RETURN_DISTANCE
        * HOOK_RETURN_DISTANCE
}

/// Whether a hook at `hook_position` is so near its owner that it is home.
pub open spec fn within_reclaim(hook_position: Vec3, owner_position: Vec3) -> bool {
    hook_position.spec_distance_squared(owner_position) < HOOK_RECLAIM_DISTANCE
        * HOOK_RECLAIM_DISTANCE
}

/// The pull on a returning hook: straight at its owner, with the return
/// acceleration, whatever the distance; nothing where the hook is at its
/// owner's place.
pub open spec fn return_acceleration(hook_position: Vec3, owner_position: Vec3) -> Vec3 {
    hook_position.spec_toward(owner_position, HOOK_RETURN_ACCELERATION)
}

/// What a frame asks to be done about a hook.
#[derive(Clone, Copy, Debug, PartialEq, Eq)]
pub struct HookUpdate {
    /// The acceleration to give the hook; none where it keeps the one it has.
    pub acceleration: Option<Vec3>,
    /// The event to send, where the hook has come home.
    pub returned: Option<HookReturnedEvent>,
}

/// Where a caught body is put, and the ratio of the way into its slot.
#[derive(Clone, Copy, Debug, PartialEq, Eq)]
pub struct Placement {
    pub translation: Vec3,
    pub rotation: Quat,
    pub ratio: u32,
}

/// What a catch does to the body caught.
#[derive(Clone, Copy, Debug, PartialEq, Eq)]
pub struct Capture {
    /// Its new velocity: none.
    pub velocity: Velocity,
    /// Its place as seen from the hook.
    pub translation: Vec3,
    pub hooked: Hooked,
}

/// The ratio of the way into its slot that a body covers in `elapsed`
/// nanoseconds: the centring speed times the seconds, at most one.
pub open spec fn centering_ratio(elapsed: u64) -> u32 {
    if elapsed * HOOK_CENTERING_SPEED / (UNIT as int) >= RATIO_ONE {
        RATIO_ONE
    } else {
        (elapsed * HOOK_CENTERING_SPEED / (UNIT as int)) as u32
    }
}

/// What a catch does to a body at `target_position`, turned by
/// `target_rotation`, when the hook is at `hook_position`.
pub open spec fn capture_of(hook_position: Vec3, target_position: Vec3, target_rotation: Quat) -> Capture {
    Capture {
        velocity: Velocity(Vec3::spec_zero()),
        translation: target_position.spec_minus(hook_position),
        hooked: Hooked {
            time: Stopwatch { elapsed: 0 },
            initial_position: target_position.spec_minus(hook_position),
            initial_rotation: target_rotation,
        },
    }
}

impl Hook {
    /// The hook after a frame in which it is at `hook_position` and its
    /// owner at `owner_position`: it turns back once it is too far out.
    pub open spec fn updated(self, hook_position: Vec3, owner_position: Vec3) -> Hook {
        Hook {
            returning: self.returning || beyond_return(hook_position, owner_position),
            ..self
        }
    }

    /// What such a frame asks for: a hook that was returning is pulled at its
    /// owner, and is reported home once it is near enough.
    pub open spec fn update_of(self, hook_position: Vec3, owner_position: Vec3) -> HookUpdate {
        HookUpdate {
            acceleration: if self.returning {
                Some(return_acceleration(hook_position, owner_position))
            } else {
                None
            },
            returned: if self.returning && within_reclaim(hook_position, owner_position) {
                Some(HookReturnedEvent { target: self.target })
            } else {
                None
            },
        }
    }

    /// Takes the hook through one frame.
    pub fn update(&mut self, hook_position: Vec3, owner_position: Vec3) -> (r: HookUpdate)
        ensures
            *final(self) == old(self).updated(hook_position, owner_position),
            r == old(self).update_of(hook_position, owner_position),
    {
        let distance_squared: u128 = hook_position.distance_squared(owner_position);
        let reclaim: u128 = squared(HOOK_RECLAIM_DISTANCE);
        let turn: u128 = squared(HOOK_RETURN_DISTANCE);
        if self.returning {
            HookUpdate {
                acceleration: Some(hook_position.toward(owner_position, HOOK_RETURN_ACCELERATION)),
                returned: if distance_squared < reclaim {
                    Some(HookReturnedEvent::new(self.target))
                } else {
                    None
                },
            }
        } else {
            if distance_squared > turn {
                self.returning = true;
            }
            HookUpdate { acceleration: None, returned: None }
        }
    }

    /// Calls the hook back.
    pub fn recall(&mut self)
        ensures
            *final(self) == (Hook { returning: true, ..*old(self) }),
    {
        self.returning = true;
    }

    /// The hook after it has caught `collided`: it returns, towing it.
    pub open spec fn caught(self, collided: Entity) -> Hook {
        Hook { returning: true, target: Some(collided), ..self }
    }

    /// Catches `collided`.
    pub fn capture(
        &mut self,
        collided: Entity,
        hook_position: Vec3,
        target_position: Vec3,
        target_rotation: Quat,
    ) -> (r: Capture)
        ensures
            *final(self) == old(self).caught(collided),
            r == capture_of(hook_position, target_position, target_rotation),
    {
        self.returning = true;
        self.target = Some(collided);
        let translation: Vec3 = target_position.minus(hook_position);
        Capture {
            velocity: Velocity(Vec3::zero()),
            translation,
            hooked: Hooked {
                time: Stopwatch::new(),
                initial_position: translation,
                initial_rotation: target_rotation,
            },
        }
    }
}

impl Hooked {
    /// The mark after `delta` more nanoseconds.
    pub open spec fn ticked(self, delta: u64) -> Hooked {
        Hooked { time: Stopwatch { elapsed: saturating_sum(self.time.elapsed, delta) }, ..self }
    }

    /// Where the body is put on its way into the slot of `hookable`.
    pub open spec fn placement(self, hookable: Hookable) -> Placement {
        let ratio = centering_ratio(self.time.elapsed);
        Placement {
            translation: self.initial_position.spec_lerp(hookable.translation, ratio),
            rotation: self.initial_rotation.spec_lerp(hookable.rotation, ratio),
            ratio,
        }
    }

    /// Lets `delta` nanoseconds pass and says where the body is put.
    pub fn center(&mut self, hookable: &Hookable, delta: u64) -> (r: Placement)
        ensures
            *final(self) == old(self).ticked(delta),
            r == old(self).ticked(delta).placement(*hookable),
    {
        self.time.tick(delta);
        let parts: u128 = self.time.elapsed as u128 * HOOK_CENTERING_SPEED as u128 / UNIT as u128;
        let ratio: u32 = if parts >= RATIO_ONE as u128 {
            RATIO_ONE
        } else {
            parts as u32
        };
        Placement {
            translation: self.initial_position.lerp(hookable.translation, ratio),
            rotation: self.initial_rotation.lerp(hookable.rotation, ratio),
            ratio,
        }
    }
}

/// The one hook that flies, with its place and its owner's place; none
/// where no hook flies, more than one does, or its owner is gone.
pub open spec fn flying_hook(bodies: Seq<Option<Body>>) -> Option<(Entity, Vec3, Vec3)> {
    match single_of(bodies, Filter::FlyingHook) {
        Some(h) => match world_translation_of(bodies, slot_at(bodies, h).unwrap().hook.unwrap().owner) {
            Some(owner_position) => Some((h, world_translation_of(bodies, h).unwrap(), owner_position)),
            None => None,
        },
        None => None,
    }
}

/// The bodies after the hook that flies has gone through one frame.
pub open spec fn after_update_hook(bodies: Seq<Option<Body>>) -> Seq<Option<Body>> {
    match flying_hook(bodies) {
        Some((h, hook_position, owner_position)) => {
            let body = slot_at(bodies, h).unwrap();
            let hook = body.hook.unwrap();
            let acceleration = body.acceleration.unwrap();
            bodies.update(
                h.0 as int,
                Some(
                    Body {
                        hook: Some(hook.updated(hook_position, owner_position)),
                        acceleration: Some(
                            Acceleration {
                                acceleration: match hook.update_of(
                                    hook_position,
                                    owner_position,
                                ).acceleration {
                                    Some(pull) => pull,
                                    None => acceleration.acceleration,
                                },
                                ..acceleration
                            },
                        ),
                        ..body
                    },
                ),
            )
        },
        None => bodies,
    }
}

/// The events that the frame of the hook that flies gives rise to.
pub open spec fn returned_in(bodies: Seq<Option<Body>>) -> Seq<HookReturnedEvent> {
    match flying_hook(bodies) {
        Some((h, hook_position, owner_position)) => match slot_at(bodies, h).unwrap().hook.unwrap().update_of(
            hook_position,
            owner_position,
        ).returned {
            Some(event) => seq![event],
            None => seq![],
        },
        None => seq![],
    }
}

/// Takes the hook that flies through one frame: once it is too far from its
/// owner it turns back; while it returns it is pulled at its owner; and when
/// it is home, an event is added to `events`. Nothing happens where the hook's
/// owner is gone.
pub fn update_hook(world: &mut World, events: &mut Vec<HookReturnedEvent>)
    requires
        old(world).wf(),
    ensures
        final(world).wf(),
        final(world)@ == after_update_hook(old(world)@),
        final(events)@ == old(events)@ + returned_in(old(world)@),
{
    let ghost before = world@;
    proof {
        assert(events@ + Seq::<HookReturnedEvent>::empty() =~= events@);
    }
    let h: Entity = match world.single(Filter::FlyingHook) {
        Some(h) => h,
        None => {
            return ;
        },
    };
    let body: Body = match world.get(h) {
        Some(body) => body,
        None => {
            return ;
        },
    };
    let mut hook: Hook = match body.hook {
        Some(hook) => hook,
        None => {
            return ;
        },
    };
    let acceleration: Acceleration = match body.acceleration {
        Some(acceleration) => acceleration,
        None => {
            return ;
        },
    };
    let owner_position: Vec3 = match world.world_translation(hook.owner) {
        Some(position) => position,
        None => {
            return ;
        },
    };
    let hook_position: Vec3 = match world.world_translation(h) {
        Some(position) => position,
        None => {
            return ;
        },
    };
    let update: HookUpdate = hook.update(hook_position, owner_position);
    let pull: Vec3 = match update.acceleration {
        Some(pull) => pull,
        None => acceleration.acceleration,
    };
    let changed: Body = Body {
        hook: Some(hook),
        acceleration: Some(Acceleration { acceleration: pull, ..acceleration }),
        ..body
    };
    proof {
        assert(body_ok(before, h.0 as int));
        lemma_change_keeps_wf(before, h.0 as int, changed);
    }
    world.put(h, changed);
    match update.returned {
        Some(event) => {
            events.push(event);
            proof {
                assert(events@ =~= old(events)@ + seq![event]);
            }
        },
        None => {},
    }
}

/// The bodies after the collision `event` has been looked at. Where the
/// player's side of it is a hook and the other side a body that can be
/// caught, has a velocity and is no hook itself, the hook catches it: the hook returns with it as its target and loses its collider; the body
/// stops, rides on the hook at the place where it was caught, loses its roll,
/// is marked as settling and is nobody's captive any more.
pub open spec fn after_collision(bodies: Seq<Option<Body>>, event: CollisionEvent) -> Seq<Option<Body>> {
    if catches(bodies, event) {
        let hook_body = slot_at(bodies, event.player).unwrap();
        let target_body = slot_at(bodies, event.other).unwrap();
        let capture = capture_of(
            world_translation_of(bodies, event.player).unwrap(),
            world_translation_of(bodies, event.other).unwrap(),
            target_body.rotation,
        );
        bodies.update(
            event.player.0 as int,
            Some(
                Body {
                    hook: Some(hook_body.hook.unwrap().caught(event.other)),
                    collider: None,
                    ..hook_body
                },
            ),
        ).update(
            event.other.0 as int,
            Some(
                Body {
                    parent: Some(event.player),
                    velocity: Some(capture.velocity),
                    translation: capture.translation,
                    roller: None,
                    hooked: Some(capture.hooked),
                    captured: None,
                    ..target_body
                },
            ),
        )
    } else {
        bodies
    }
}

/// Whether the collision `event` is a catch: its player's side is a hook,
/// and its other side can be caught, has a velocity and is no hook itself.
pub open spec fn catches(bodies: Seq<Option<Body>>, event: CollisionEvent) -> bool {
    &&& slot_at(bodies, event.player) matches Some(hook_body) && hook_body.hook is Some
    &&& slot_at(bodies, event.other) matches Some(target_body) && target_body.hookable is Some
        && target_body.velocity is Some && target_body.hook is None
}

/// The bodies after the collisions `events` have been looked at in turn.
pub open spec fn after_collisions(bodies: Seq<Option<Body>>, events: Seq<CollisionEvent>) -> Seq<
    Option<Body>,
>
    decreases events.len(),
{
    if events.len() == 0 {
        bodies
    } else {
        after_collision(after_collisions(bodies, events.drop_last()), events.last())
    }
}

/// A catch keeps the world well-formed.
pub proof fn lemma_collision_keeps_wf(bodies: Seq<Option<Body>>, event: CollisionEvent)
    requires
        wf_bodies(bodies),
    ensures
        wf_bodies(after_collision(bodies, event)),
{
    if catches(bodies, event) {
        let hook_body = slot_at(bodies, event.player).unwrap();
        let target_body = slot_at(bodies, event.other).unwrap();
        let hooked_hook = Body {
            hook: Some(hook_body.hook.unwrap().caught(event.other)),
            collider: None,
            ..hook_body
        };
        assert(body_ok(bodies, event.player.0 as int));
        lemma_change_keeps_wf(bodies, event.player.0 as int, hooked_hook);
        let mid = bodies.update(event.player.0 as int, Some(hooked_hook));
        lemma_catch_can_ride(mid, event.player, event.other);
        lemma_ride_keeps_wf(mid, event.player, event.other);
        let riding = mid.update(
            event.other.0 as int,
            Some(Body { parent: Some(event.player), ..target_body }),
        );
        let capture = capture_of(
            world_translation_of(bodies, event.player).unwrap(),
            world_translation_of(bodies, event.other).unwrap(),
            target_body.rotation,
        );
        let caught = Body {
            parent: Some(event.player),
            velocity: Some(capture.velocity),
            translation: capture.translation,
            roller: None,
            hooked: Some(capture.hooked),
            captured: None,
            ..target_body
        };
        lemma_change_keeps_wf(riding, event.other.0 as int, caught);
        assert(riding.update(event.other.0 as int, Some(caught)) =~= after_collision(bodies, event));
    }
}

/// Looks at each collision in turn and lets hooks catch what they have run into.
pub fn apply_collisions(world: &mut World, events: &Vec<CollisionEvent>)
    requires
        old(world).wf(),
    ensures
        final(world).wf(),
        final(world)@ == after_collisions(old(world)@, events@),
{
    let ghost before = world@;
    let n: usize = events.len();
    let mut k: usize = 0;
    assert(events@.take(0) =~= Seq::<CollisionEvent>::empty());
    while k < n
        invariant
            n == events@.len(),
            k <= n,
            world.wf(),
            world@ == after_collisions(before, events@.take(k as int)),
        decreases n - k,
    {
        let event: CollisionEvent = events[k];
        let ghost mid = world@;
        proof {
            assert(events@.take(k + 1).drop_last() =~= events@.take(k as int));
            assert(events@.take(k + 1).last() == event);
            lemma_collision_keeps_wf(mid, event);
        }
        catch_one(world, event);
        k += 1;
    }
    assert(events@.take(n as int) =~= events@);
}

fn catch_one(world: &mut World, event: CollisionEvent)
    requires
        old(world).wf(),
        wf_bodies(after_collision(old(world)@, event)),
    ensures
        final(world).wf(),
        final(world)@ == after_collision(old(world)@, event),
{
    let ghost before = world@;
    let hook_body: Body = match world.get(event.player) {
        Some(body) => body,
        None => {
            return ;
        },
    };
    let mut hook: Hook = match hook_body.hook {
        Some(hook) => hook,
        None => {
            return ;
        },
    };
    let target_body: Body = match world.get(event.other) {
        Some(body) => body,
        None => {
            return ;
        },
    };
    if target_body.hookable.is_none() || target_body.velocity.is_none() || target_body.hook.is_some() {
        return ;
    }
    assert(catches(before, event));
    let hook_position: Vec3 = match world.world_translation(event.player) {
        Some(position) => position,
        None => {
            return ;
        },
    };
    let target_position: Vec3 = match world.world_translation(event.other) {
        Some(position) => position,
        None => {
            return ;
        },
    };
    let capture: Capture = hook.capture(event.other, hook_position, target_position, target_body.rotation);
    let hooked_hook: Body = Body { hook: Some(hook), collider: None, ..hook_body };
    proof {
        assert(body_ok(before, event.player.0 as int));
        lemma_change_keeps_wf(before, event.player.0 as int, hooked_hook);
    }
    world.put(event.player, hooked_hook);
    let caught: Body = Body {
        parent: Some(event.player),
        velocity: Some(capture.velocity),
        translation: capture.translation,
        roller: None,
        hooked: Some(capture.hooked),
        captured: None,
        ..target_body
    };
    world.put(event.other, caught);
}

/// The bodies after the one that settles has had `delta` more nanoseconds
/// for it: it lies that much further along the way from where it was caught
/// to its slot.
pub open spec fn after_centering(bodies: Seq<Option<Body>>, delta: u64) -> Seq<Option<Body>> {
    match single_of(bodies, Filter::Settling) {
        Some(e) => {
            let body = slot_at(bodies, e).unwrap();
            let hooked = body.hooked.unwrap().ticked(delta);
            let placement = hooked.placement(body.hookable.unwrap());
            bodies.update(
                e.0 as int,
                Some(
                    Body {
                        hooked: Some(hooked),
                        translation: placement.translation,
                        rotation: placement.rotation,
                        ..body
                    },
                ),
            )
        },
        None => bodies,
    }
}

/// Moves the body that settles further into its slot.
pub fn center_hooked(world: &mut World, delta: u64)
    requires
        old(world).wf(),
    ensures
        final(world).wf(),
        final(world)@ == after_centering(old(world)@, delta),
{
    let ghost before = world@;
    let e: Entity = match world.single(Filter::Settling) {
        Some(e) => e,
        None => {
            return ;
        },
    };
    let body: Body = match world.get(e) {
        Some(body) => body,
        None => {
            return ;
        },
    };
    let mut hooked: Hooked = match body.hooked {
        Some(hooked) => hooked,
        None => {
            return ;
        },
    };
    let hookable: Hookable = match body.hookable {
        Some(hookable) => hookable,
        None => {
            return ;
        },
    };
    let placement: Placement = hooked.center(&hookable, delta);
    let moved: Body = Body {
        hooked: Some(hooked),
        translation: placement.translation,
        rotation: placement.rotation,
        ..body
    };
    proof {
        assert(body_ok(before, e.0 as int));
        lemma_change_keeps_wf(before, e.0 as int, moved);
    }
    world.put(e, moved);
}

/// The bodies after the return `event` has been looked at: the one hook of
/// the world is gone, and with it what rides on it, but for the target that
/// the event names, which is taken off the hook first. Nothing changes where
/// the world has no hook or more than one.
pub open spec fn after_return(bodies: Seq<Option<Body>>, event: HookReturnedEvent) -> Seq<Option<Body>> {
    match single_of(bodies, Filter::Hook) {
        Some(h) => without(
            match event.target {
                Some(target) => detached(bodies, h, target),
                None => bodies,
            },
            h,
        ),
        None => bodies,
    }
}

/// The bodies after the returns `events` have been looked at in turn.
pub open spec fn after_returns(bodies: Seq<Option<Body>>, events: Seq<HookReturnedEvent>) -> Seq<
    Option<Body>,
>
    decreases events.len(),
{
    if events.len() == 0 {
        bodies
    } else {
        after_return(after_returns(bodies, events.drop_last()), events.last())
    }
}

/// Removes the hook that has come home, for each event; its target stays.
pub fn retrieve_hook(world: &mut World, events: &Vec<HookReturnedEvent>)
    requires
        old(world).wf(),
    ensures
        final(world).wf(),
        final(world)@ == after_returns(old(world)@, events@),
{
    let ghost before = world@;
    let n: usize = events.len();
    let mut k: usize = 0;
    assert(events@.take(0) =~= Seq::<HookReturnedEvent>::empty());
    while k < n
        invariant
            n == events@.len(),
            k <= n,
            world.wf(),
            world@ == after_returns(before, events@.take(k as int)),
        decreases n - k,
    {
        let event: HookReturnedEvent = events[k];
        proof {
            assert(events@.take(k + 1).drop_last() =~= events@.take(k as int));
            assert(events@.take(k + 1).last() == event);
        }
        match world.single(Filter::Hook) {
            Some(h) => {
                match event.target {
                    Some(target) => {
                        world.remove_child(h, target);
                    },
                    None => {},
                }
                world.despawn(h);
            },
            None => {},
        }
        k += 1;
    }
    assert(events@.take(n as int) =~= events@);
}

/// A hook that is further from its owner than the return distance returns
/// after the frame, whatever it did before; and a hook that returns goes on
/// returning.
pub proof fn lemma_far_hook_turns_back(hook: Hook, hook_position: Vec3, owner_position: Vec3)
    ensures
        beyond_return(hook_position, owner_position) ==> hook.updated(
            hook_position,
            owner_position,
        ).returning,
        hook.returning ==> hook.updated(hook_position, owner_position).returning,
        hook.updated(hook_position, owner_position).owner == hook.owner,
        hook.updated(hook_position, owner_position).target == hook.target,
{
}

/// A hook whose owner is gone is left as it is, and reports nothing.
pub proof fn lemma_orphan_hook_is_left_alone(bodies: Seq<Option<Body>>)
    requires
        single_of(bodies, Filter::FlyingHook) matches Some(h) && slot_at(
            bodies,
            slot_at(bodies, h).unwrap().hook.unwrap().owner,
        ) is None,
    ensures
        after_update_hook(bodies) == bodies,
        returned_in(bodies) == Seq::<HookReturnedEvent>::empty(),
{
}

/// Whether the place `i` holds a hook that returns.
pub open spec fn hook_returns(bodies: Seq<Option<Body>>, i: int) -> bool {
    bodies[i] matches Some(body) && (body.hook matches Some(hook) && hook.returning)
}

/// Whether every hook that returns among `before` and is still a hook among
/// `after` returns there too.
pub open spec fn returning_kept(before: Seq<Option<Body>>, after: Seq<Option<Body>>) -> bool {
    forall|i: int|
        0 <= i < before.len() && i < after.len() && #[trigger] hook_returns(before, i) && (
        after[i] matches Some(body) && body.hook is Some) ==> hook_returns(after, i)
}

/// Neither its own frame nor a collision turns a returning hook round again.
pub proof fn lemma_returning_is_kept(bodies: Seq<Option<Body>>, event: CollisionEvent)
    ensures
        returning_kept(bodies, after_update_hook(bodies)),
        returning_kept(bodies, after_collision(bodies, event)),
{
}

/// The pull on a returning hook points back at its owner, coordinate by
/// coordinate. It is no stronger than the return acceleration and, wherever
/// the hook is not at its owner's place, weaker by less than five thousandths.
pub proof fn lemma_pull_points_home(hook_position: Vec3, owner_position: Vec3)
    ensures
        ({
            let pull = return_acceleration(hook_position, owner_position);
            &&& pull.spec_length_squared() <= HOOK_RETURN_ACCELERATION * HOOK_RETURN_ACCELERATION
            &&& hook_position != owner_position ==> pull.spec_length_squared() >= (
            HOOK_RETURN_ACCELERATION - 5) * (HOOK_RETURN_ACCELERATION - 5)
            &&& (owner_position.x >= hook_position.x ==> pull.x >= 0) && (owner_position.x
                <= hook_position.x ==> pull.x <= 0)
            &&& (owner_position.y >= hook_position.y ==> pull.y >= 0) && (owner_position.y
                <= hook_position.y ==> pull.y <= 0)
            &&& (owner_position.z >= hook_position.z ==> pull.z >= 0) && (owner_position.z
                <= hook_position.z ==> pull.z <= 0)
        }),
{
    let dx = owner_position.x - hook_position.x;
    let dy = owner_position.y - hook_position.y;
    let dz = owner_position.z - hook_position.z;
    lemma_direction_bounded(dx, dy, dz, HOOK_RETURN_ACCELERATION as int);
    lemma_direction_length(dx, dy, dz, HOOK_RETURN_ACCELERATION as int);
    if hook_position != owner_position {
        lemma_direction_reaches(dx, dy, dz, HOOK_RETURN_ACCELERATION as int);
        assert(HOOK_RETURN_ACCELERATION * HOOK_RETURN_ACCELERATION - 8 * HOOK_RETURN_ACCELERATION
            >= (HOOK_RETURN_ACCELERATION - 5) * (HOOK_RETURN_ACCELERATION - 5)) by (nonlinear_arith)
            requires
                HOOK_RETURN_ACCELERATION == 800_000,
        ;
    }
}

/// A frame reports a hook home exactly when the hook was returning and is
/// nearer to its owner than the reclaim distance; nothing else does.
pub proof fn lemma_home_exactly_when_near(hook: Hook, hook_position: Vec3, owner_position: Vec3)
    ensures
        hook.update_of(hook_position, owner_position).returned is Some <==> hook.returning
            && hook_position.spec_distance_squared(owner_position) < HOOK_RECLAIM_DISTANCE
            * HOOK_RECLAIM_DISTANCE,
        hook.update_of(hook_position, owner_position).returned matches Some(event)
            ==> event.target == hook.target,
{
}

/// In a world whose one hook flies and whose owner is there, the frame of
/// the hook followed by the removal of the hooks that it reports home leaves
/// the hook out exactly when it was not yet returning or is not yet nearer to
/// its owner than the reclaim distance.
pub proof fn lemma_hook_despawns_exactly_when_home(bodies: Seq<Option<Body>>)
    requires
        wf_bodies(bodies),
        flying_hook(bodies) is Some,
        single_of(bodies, Filter::Hook) is Some,
    ensures
        ({
            let (h, hook_position, owner_position) = flying_hook(bodies).unwrap();
            let hook = slot_at(bodies, h).unwrap().hook.unwrap();
            let after = after_returns(after_update_hook(bodies), returned_in(bodies));
            slot_at(after, h) is None <==> hook.returning && within_reclaim(
                hook_position,
                owner_position,
            )
        }),
{
    let (h, hook_position, owner_position) = flying_hook(bodies).unwrap();
    let only = single_of(bodies, Filter::Hook).unwrap();
    let flying = single_of(bodies, Filter::FlyingHook).unwrap();
    assert(is_single(bodies, Filter::Hook, only));
    assert(is_single(bodies, Filter::FlyingHook, flying));
    assert(passes_at(bodies, flying.0 as int, Filter::Hook));
    assert(only == h);
    let updated = after_update_hook(bodies);
    assert(is_single(updated, Filter::Hook, h)) by {
        assert forall|k: int| 0 <= k < updated.len() && #[trigger] passes_at(
            updated,
            k,
            Filter::Hook,
        ) implies k == h.0 by {
            assert(passes_at(bodies, k, Filter::Hook));
        }
    }
    let chosen = single_of(updated, Filter::Hook).unwrap();
    assert(is_single(updated, Filter::Hook, chosen));
    lemma_single_unique(updated, Filter::Hook, h, chosen);
    let events = returned_in(bodies);
    if events.len() == 0 {
        assert(after_returns(updated, events) == updated);
    } else {
        assert(events.drop_last() =~= Seq::<HookReturnedEvent>::empty());
        assert(after_returns(updated, events.drop_last()) == updated);
        assert(after_returns(updated, events) == after_return(updated, events.last()));
    }
}

/// Whether the body that `e` names is marked as settling and yet rides on nothing.
pub open spec fn adrift(bodies: Seq<Option<Body>>, e: Entity) -> bool {
    slot_at(bodies, e) matches Some(body) && body.hooked is Some && body.parent is None
}

/// A catch is whole. Wherever a hook runs into a body that can be caught,
/// has a velocity and is no hook itself, at whatever distance from its owner:
/// the body has stopped, rides on the hook at the place where it was caught,
/// keeps its turn, has lost its roll and is marked as settling, with no time
/// gone and that place and turn as where it starts from; and the hook returns
/// with it as its target, keeps its owner and has lost its collider. A
/// collision that is no catch changes nothing. So no collision leaves a body
/// marked as settling and riding on nothing that was not so before.
pub proof fn lemma_catch_is_whole(bodies: Seq<Option<Body>>, event: CollisionEvent)
    requires
        wf_bodies(bodies),
    ensures
        !catches(bodies, event) ==> after_collision(bodies, event) == bodies,
        catches(bodies, event) ==> ({
            let after = after_collision(bodies, event);
            let target = slot_at(bodies, event.other).unwrap();
            let place = world_translation_of(bodies, event.other).unwrap().spec_minus(
                world_translation_of(bodies, event.player).unwrap(),
            );
            &&& slot_at(after, event.other) matches Some(caught) && caught.velocity == Some(
                Velocity(Vec3::spec_zero()),
            ) && caught.parent == Some(event.player) && caught.captured is None
                && caught.translation == place && caught.rotation == target.rotation
                && caught.roller is None && caught.hooked == Some(
                Hooked {
                    time: Stopwatch { elapsed: 0 },
                    initial_position: place,
                    initial_rotation: target.rotation,
                },
            )
            &&& slot_at(after, event.player) matches Some(hook_body) && hook_body.hook matches Some(
                hook,
            ) && hook.returning && hook.target == Some(event.other) && hook.owner == slot_at(
                bodies,
                event.player,
            ).unwrap().hook.unwrap().owner && hook_body.collider is None
        }),
        forall|e: Entity| #[trigger]
            adrift(after_collision(bodies, event), e) ==> adrift(bodies, e),
        wf_bodies(after_collision(bodies, event)),
{
    lemma_collision_keeps_wf(bodies, event);
}

/// The ratio of the way into the slot never falls as time passes, and never
/// exceeds one.
pub proof fn lemma_centering_ratio_monotone(earlier: u64, later: u64)
    requires
        earlier <= later,
    ensures
        centering_ratio(earlier) <= centering_ratio(later) <= RATIO_ONE,
{
    let speed = HOOK_CENTERING_SPEED as int;
    assert(earlier * speed <= later * speed) by (nonlinear_arith)
        requires
            earlier <= later,
            speed >= 0,
    ;
    vstd::arithmetic::div_mod::lemma_div_is_ordered(earlier * speed, later * speed, UNIT as int);
}

/// A tick never lowers the ratio of a body that settles.
pub proof fn lemma_tick_keeps_ratio(hooked: Hooked, delta: u64)
    ensures
        centering_ratio(hooked.time.elapsed) <= centering_ratio(hooked.ticked(delta).time.elapsed)
            <= RATIO_ONE,
{
    lemma_centering_ratio_monotone(hooked.time.elapsed, hooked.ticked(delta).time.elapsed);
}

/// At the ratio one a body that settles lies in its slot, turned as the slot
/// asks; at the ratio zero it lies where it was caught, turned as it was.
pub proof fn lemma_settled_in_slot(hooked: Hooked, hookable: Hookable)
    ensures
        centering_ratio(hooked.time.elapsed) == RATIO_ONE ==> hooked.placement(
            hookable,
        ).translation == hookable.translation && hooked.placement(hookable).rotation
            == hooked.initial_rotation.spec_nearest(hookable.rotation),
        centering_ratio(hooked.time.elapsed) == 0 ==> hooked.placement(hookable).translation
            == hooked.initial_position && hooked.placement(hookable).rotation
            == hooked.initial_rotation,
{
    let ratio = centering_ratio(hooked.time.elapsed);
    let from = hooked.initial_position;
    let to = hookable.translation;
    lemma_lerp_bounds(from.x as int, to.x as int, ratio);
    lemma_lerp_bounds(from.y as int, to.y as int, ratio);
    lemma_lerp_bounds(from.z as int, to.z as int, ratio);
    let turn = hooked.initial_rotation;
    let slot = turn.spec_nearest(hookable.rotation);
    lemma_lerp_bounds(turn.x as int, slot.x as int, ratio);
    lemma_lerp_bounds(turn.y as int, slot.y as int, ratio);
    lemma_lerp_bounds(turn.z as int, slot.z as int, ratio);
    lemma_lerp_bounds(turn.w as int, slot.w as int, ratio);
}

} // verus!
