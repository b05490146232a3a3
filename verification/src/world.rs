//! The bodies of the game and who carries whom.
//!
//! A world is an arena: a body's name is its place in it, and a place is
//! never given out twice, so a name that has outlived its body resolves to
//! nothing. A body may ride on another, its carrier; a carrier rides on
//! nothing itself. Hooks and ships carry and do not ride; what can be caught
//! rides and does not carry. So a hook can always take what it catches, and a
//! ship what its hook brings home.
use vstd::prelude::*;
use crate::asset_loader::Scene;
use crate::bullet::Bullet;
use crate::collision_detection::Collider;
use crate::effect_sprite::EffectSprite;
use crate::fixed::UNIT;
use crate::health::{Dead, Health};
use crate::hit_marker::HitMarker;
use crate::hook::{Hook, Hookable, Hooked};
use crate::movement::{Acceleration, Roller, Velocity};
use crate::ship::{Captured, Invincible, PlayerShip};
use crate::sidewinder::Sidewinder;
use crate::vector::{Quat, Vec3};
use crate::wreck::Wreck;

verus! {

/// The name of a body.
#[derive(Clone, Copy, Debug, PartialEq, Eq, Hash, Structural)]
pub struct Entity(pub u64);

/// A body: where it is, seen from its carrier, and the parts it has.
#[derive(Clone, Copy, Debug, PartialEq, Eq)]
pub struct Body {
    /// The body this one rides on.
    pub parent: Option<Entity>,
    pub translation: Vec3,
    pub rotation: Quat,
    /// The size at which the body is shown, one being its own size.
    pub scale: i32,
    pub velocity: Option<Velocity>,
    pub acceleration: Option<Acceleration>,
    pub roller: Option<Roller>,
    pub collider: Option<Collider>,
    /// Whether the body is on the player's side.
    pub player: bool,
    pub health: Option<Health>,
    pub dead: Option<Dead>,
    pub invincible: Option<Invincible>,
    pub ship: Option<PlayerShip>,
    /// Whether the body is a hook at rest on its ship.
    pub display_hook: bool,
    /// Whether the body is shown.
    pub visible: bool,
    pub hook: Option<Hook>,
    pub hookable: Option<Hookable>,
    pub hooked: Option<Hooked>,
    pub captured: Option<Captured>,
    pub bullet: Option<Bullet>,
    /// What the body looks like.
    pub scene: Option<Scene>,
    /// Whether the body is an enemy.
    pub enemy: bool,
    /// Whether the body is a mine.
    pub mine: bool,
    pub sidewinder: Option<Sidewinder>,
    pub wreck: Option<Wreck>,
    pub hit_marker: Option<HitMarker>,
    pub effect: Option<EffectSprite>,
}

impl Body {
    /// A body at `translation` that carries no part.
    pub open spec fn spec_new(translation: Vec3) -> Body {
        Body {
            parent: None,
            translation,
            rotation: Quat::spec_identity(),
            scale: UNIT,
            velocity: None,
            acceleration: None,
            roller: None,
            collider: None,
            player: false,
            health: None,
            dead: None,
            invincible: None,
            ship: None,
            display_hook: false,
            visible: true,
            hook: None,
            hookable: None,
            hooked: None,
            captured: None,
            bullet: None,
            scene: None,
            enemy: false,
            mine: false,
            sidewinder: None,
            wreck: None,
            hit_marker: None,
            effect: None,
        }
    }

    #[verifier::when_used_as_spec(spec_new)]
    pub fn new(translation: Vec3) -> (r: Body)
        ensures
            r == Self::spec_new(translation),
    {
        Body {
            parent: None,
            translation,
            rotation: Quat::identity(),
            scale: UNIT,
            velocity: None,
            acceleration: None,
            roller: None,
            collider: None,
            player: false,
            health: None,
            dead: None,
            invincible: None,
            ship: None,
            display_hook: false,
            visible: true,
            hook: None,
            hookable: None,
            hooked: None,
            captured: None,
            bullet: None,
            scene: None,
            enemy: false,
            mine: false,
            sidewinder: None,
            wreck: None,
            hit_marker: None,
            effect: None,
        }
    }

    /// The body without what ties it to others: carrier, hook and catch. A
    /// ship cannot be caught: it enters without the mark of what can.
    pub open spec fn untied(self) -> Body {
        Body {
            parent: None,
            hook: None,
            hooked: None,
            captured: None,
            hookable: if self.ship is Some {
                None
            } else {
                self.hookable
            },
            ..self
        }
    }

    /// `parts` with the ties of `self`. The body does not become a ship or
    /// something that can be caught unless it was one: where `self` is none,
    /// these parts of `parts` are left out.
    pub open spec fn with_parts_of(self, parts: Body) -> Body {
        Body {
            parent: self.parent,
            hook: self.hook,
            hooked: self.hooked,
            captured: self.captured,
            ship: if self.ship is Some {
                parts.ship
            } else {
                None
            },
            hookable: if self.hookable is Some {
                parts.hookable
            } else {
                None
            },
            ..parts
        }
    }
}

/// The kinds of body that the rules look for.
#[derive(Clone, Copy, Debug, PartialEq, Eq)]
pub enum Filter {
    /// A hook, whatever else it has.
    Hook,
    /// A hook that can be accelerated.
    FlyingHook,
    /// A caught body that settles into its slot.
    Settling,
    /// A ship.
    Ship,
    /// A ship that moves.
    MovingShip,
    /// A ship that can be accelerated.
    SteeredShip,
    /// A hook at rest on its ship.
    DisplayHook,
    /// A body that nothing can hurt.
    Invincible,
    /// A body with health that rides with the ship that caught it, and is no ship.
    Captive,
}

/// Whether `body` is of the kind `filter`.
pub open spec fn passes(body: Body, filter: Filter) -> bool {
    match filter {
        Filter::Hook => body.hook is Some,
        Filter::FlyingHook => body.hook is Some && body.acceleration is Some,
        Filter::Settling => body.hooked is Some && body.hookable is Some,
        Filter::Ship => body.ship is Some,
        Filter::MovingShip => body.ship is Some && body.velocity is Some,
        Filter::SteeredShip => body.ship is Some && body.acceleration is Some,
        Filter::DisplayHook => body.display_hook,
        Filter::Invincible => body.invincible is Some,
        Filter::Captive => body.captured is Some && body.health is Some && body.ship is None,
    }
}

/// Whether the place `i` holds a body of the kind `filter`.
pub open spec fn passes_at(bodies: Seq<Option<Body>>, i: int, filter: Filter) -> bool {
    bodies[i] matches Some(body) && passes(body, filter)
}

/// Whether `e` names the one and only body of the kind `filter`.
pub open spec fn is_single(bodies: Seq<Option<Body>>, filter: Filter, e: Entity) -> bool {
    &&& e.0 < bodies.len()
    &&& passes_at(bodies, e.0 as int, filter)
    &&& forall|k: int| 0 <= k < bodies.len() && #[trigger] passes_at(bodies, k, filter) ==> k == e.0
}

/// The one and only body of the kind `filter`; none where there is no such
/// body or more than one.
pub open spec fn single_of(bodies: Seq<Option<Body>>, filter: Filter) -> Option<Entity> {
    if exists|e: Entity| is_single(bodies, filter, e) {
        Some(choose|e: Entity| is_single(bodies, filter, e))
    } else {
        None
    }
}

/// At most one name is that of the only body of a kind.
pub proof fn lemma_single_unique(bodies: Seq<Option<Body>>, filter: Filter, a: Entity, b: Entity)
    requires
        is_single(bodies, filter, a),
        is_single(bodies, filter, b),
    ensures
        a == b,
{
}

fn passes_filter(body: &Body, filter: Filter) -> (r: bool)
    ensures
        r == passes(*body, filter),
{
    match filter {
        Filter::Hook => body.hook.is_some(),
        Filter::FlyingHook => body.hook.is_some() && body.acceleration.is_some(),
        Filter::Settling => body.hooked.is_some() && body.hookable.is_some(),
        Filter::Ship => body.ship.is_some(),
        Filter::MovingShip => body.ship.is_some() && body.velocity.is_some(),
        Filter::SteeredShip => body.ship.is_some() && body.acceleration.is_some(),
        Filter::DisplayHook => body.display_hook,
        Filter::Invincible => body.invincible.is_some(),
        Filter::Captive => body.captured.is_some() && body.health.is_some() && body.ship.is_none(),
    }
}

/// The body that `e` names among `bodies`, if it names one.
pub open spec fn slot_at(bodies: Seq<Option<Body>>, e: Entity) -> Option<Body> {
    if e.0 < bodies.len() {
        bodies[e.0 as int]
    } else {
        None
    }
}

/// The body in place `i`, if it rides, rides on a body that is there, rides
/// on nothing and cannot be caught; if it is a hook or a ship, it rides on
/// nothing and cannot be caught; and it is not caught and handed over at once.
pub open spec fn body_ok(bodies: Seq<Option<Body>>, i: int) -> bool {
    bodies[i] matches Some(body) ==> {
        &&& body.parent matches Some(p) ==> (slot_at(bodies, p) matches Some(carrier)
            && carrier.parent is None && carrier.hookable is None)
        &&& body.hook is Some || body.ship is Some ==> body.parent is None && body.hookable
            is None
        &&& !(body.hooked is Some && body.captured is Some)
    }
}

/// No two hooks have the same owner.
pub open spec fn one_hook_per_owner(bodies: Seq<Option<Body>>) -> bool {
    forall|i: int, j: int|
        0 <= i < bodies.len() && 0 <= j < bodies.len() && i != j ==> !(#[trigger] hook_owner(
            bodies,
            i,
        ) is Some && hook_owner(bodies, i) == #[trigger] hook_owner(bodies, j))
}

/// The owner of the hook in place `i`, if a hook is there.
pub open spec fn hook_owner(bodies: Seq<Option<Body>>, i: int) -> Option<Entity> {
    match bodies[i] {
        Some(body) => match body.hook {
            Some(hook) => Some(hook.owner),
            None => None,
        },
        None => None,
    }
}

/// What holds of the bodies of every world.
pub open spec fn wf_bodies(bodies: Seq<Option<Body>>) -> bool {
    &&& forall|i: int| 0 <= i < bodies.len() ==> #[trigger] body_ok(bodies, i)
    &&& one_hook_per_owner(bodies)
}

/// Whether some body rides on `e`.
pub open spec fn has_riders(bodies: Seq<Option<Body>>, e: Entity) -> bool {
    exists|i: int| 0 <= i < bodies.len() && #[trigger] rides_on(bodies, i, e)
}

/// Whether the body in place `i` rides on `e`.
pub open spec fn rides_on(bodies: Seq<Option<Body>>, i: int, e: Entity) -> bool {
    bodies[i] matches Some(body) && body.parent == Some(e)
}

/// The bodies after `e` and its riders have gone.
pub open spec fn without(bodies: Seq<Option<Body>>, e: Entity) -> Seq<Option<Body>> {
    Seq::new(
        bodies.len(),
        |i: int|
            if i == e.0 || rides_on(bodies, i, e) {
                None
            } else {
                bodies[i]
            },
    )
}

/// Where `e` is in the world: its place seen from its carrier, turned by
/// the carrier's rotation and moved by the carrier's own place.
pub open spec fn world_translation_of(bodies: Seq<Option<Body>>, e: Entity) -> Option<Vec3> {
    match slot_at(bodies, e) {
        Some(body) => match body.parent {
            Some(p) => match slot_at(bodies, p) {
                Some(carrier) => Some(
                    carrier.translation.spec_plus(carrier.rotation.spec_rotated(body.translation)),
                ),
                None => Some(body.translation),
            },
            None => Some(body.translation),
        },
        None => None,
    }
}

/// How `e` is turned in the world: its own rotation after that of its carrier.
pub open spec fn world_rotation_of(bodies: Seq<Option<Body>>, e: Entity) -> Option<Quat> {
    match slot_at(bodies, e) {
        Some(body) => match body.parent {
            Some(p) => match slot_at(bodies, p) {
                Some(carrier) => Some(carrier.rotation.spec_times(body.rotation)),
                None => Some(body.rotation),
            },
            None => Some(body.rotation),
        },
        None => None,
    }
}

/// Whether `child` can be made to ride on `parent`: both are there and
/// differ; `parent` rides on nothing and cannot be caught; `child` is neither
/// a hook nor a ship, and nothing rides on it.
pub open spec fn can_ride(bodies: Seq<Option<Body>>, parent: Entity, child: Entity) -> bool {
    &&& parent != child
    &&& slot_at(bodies, child) matches Some(rider) && rider.hook is None && rider.ship is None
    &&& slot_at(bodies, parent) matches Some(carrier) && carrier.parent is None
        && carrier.hookable is None
    &&& !has_riders(bodies, child)
}

/// In a well-formed world nothing rides on a body that can be caught.
pub proof fn lemma_hookable_carries_nothing(bodies: Seq<Option<Body>>, e: Entity)
    requires
        wf_bodies(bodies),
        slot_at(bodies, e) matches Some(body) && body.hookable is Some,
    ensures
        !has_riders(bodies, e),
{
    if has_riders(bodies, e) {
        let k = choose|k: int| 0 <= k < bodies.len() && #[trigger] rides_on(bodies, k, e);
        assert(body_ok(bodies, k));
    }
}

/// In a well-formed world a hook can carry whatever can be caught and is no
/// hook itself, and so can a ship.
pub proof fn lemma_catch_can_ride(bodies: Seq<Option<Body>>, carrier: Entity, target: Entity)
    requires
        wf_bodies(bodies),
        slot_at(bodies, carrier) matches Some(body) && (body.hook is Some || body.ship is Some),
        slot_at(bodies, target) matches Some(body) && body.hookable is Some && body.hook is None,
    ensures
        can_ride(bodies, carrier, target),
{
    assert(body_ok(bodies, carrier.0 as int));
    assert(body_ok(bodies, target.0 as int));
    lemma_hookable_carries_nothing(bodies, target);
}

/// The hook that `owner` has out, if it has one.
pub open spec fn hook_of(bodies: Seq<Option<Body>>, owner: Entity) -> Option<Entity> {
    if exists|i: int| 0 <= i < bodies.len() && #[trigger] hook_owner(bodies, i) == Some(owner) {
        let i = choose|i: int| 0 <= i < bodies.len() && #[trigger] hook_owner(bodies, i) == Some(owner);
        Some(Entity(i as u64))
    } else {
        None
    }
}

/// The owner of the hook that `body` is, if it is one.
pub open spec fn owner_of(body: Body) -> Option<Entity> {
    match body.hook {
        Some(hook) => Some(hook.owner),
        None => None,
    }
}

/// Whether `body` can take the place of `before`: it stays with its
/// carrier; it is no hook unless it was one, of the same owner; it is no ship
/// and nothing that can be caught unless it was; and it is not caught and
/// handed over at once.
pub open spec fn keeps_ties(before: Body, body: Body) -> bool {
    &&& before.parent == body.parent
    &&& body.hook is None || owner_of(body) == owner_of(before)
    &&& body.ship is Some ==> before.ship is Some
    &&& body.hookable is Some ==> before.hookable is Some
    &&& !(body.hooked is Some && body.captured is Some)
}

/// A change to one body that keeps its ties keeps the world well-formed.
pub proof fn lemma_change_keeps_wf(bodies: Seq<Option<Body>>, i: int, body: Body)
    requires
        wf_bodies(bodies),
        0 <= i < bodies.len(),
        bodies[i] matches Some(before) && keeps_ties(before, body),
    ensures
        wf_bodies(bodies.update(i, Some(body))),
{
    let after = bodies.update(i, Some(body));
    assert forall|k: int| 0 <= k < after.len() implies #[trigger] body_ok(after, k) by {
        assert(body_ok(bodies, k));
        if let Some(b) = after[k] {
            if let Some(p) = b.parent {
                assert(slot_at(bodies, p) is Some);
                if p.0 == i {
                    assert(body_ok(bodies, i));
                }
            }
        }
    }
    assert forall|a: int, b: int| 0 <= a < after.len() && 0 <= b < after.len() && a != b implies !(
    #[trigger] hook_owner(after, a) is Some && hook_owner(after, a) == #[trigger] hook_owner(
        after,
        b,
    )) by {
        assert(hook_owner(after, a) is Some ==> hook_owner(after, a) == hook_owner(bodies, a));
        assert(hook_owner(after, b) is Some ==> hook_owner(after, b) == hook_owner(bodies, b));
    }
}

/// A new body that is tied to no other keeps the world well-formed, where it
/// is no hook or its owner has no hook out, and where it cannot be caught if
/// it is a hook or a ship.
pub proof fn lemma_push_keeps_wf(bodies: Seq<Option<Body>>, body: Body)
    requires
        wf_bodies(bodies),
        body.parent is None,
        body.hooked is None,
        body.captured is None,
        body.hook is Some || body.ship is Some ==> body.hookable is None,
        owner_of(body) matches Some(owner) ==> hook_of(bodies, owner) is None,
    ensures
        wf_bodies(bodies.push(Some(body))),
{
    let after = bodies.push(Some(body));
    assert forall|k: int| 0 <= k < after.len() implies #[trigger] body_ok(after, k) by {
        if k < bodies.len() {
            assert(body_ok(bodies, k));
        }
    }
    assert forall|a: int, b: int| 0 <= a < after.len() && 0 <= b < after.len() && a != b implies !(
    #[trigger] hook_owner(after, a) is Some && hook_owner(after, a) == #[trigger] hook_owner(
        after,
        b,
    )) by {
        if a < bodies.len() {
            assert(hook_owner(after, a) == hook_owner(bodies, a));
        }
        if b < bodies.len() {
            assert(hook_owner(after, b) == hook_owner(bodies, b));
        }
    }
}

/// The store of all bodies.
pub struct World {
    bodies: Vec<Option<Body>>,
}

impl World {
    /// The places of the world, each with the body in it or empty.
    pub closed spec fn view(&self) -> Seq<Option<Body>> {
        self.bodies@
    }

    /// Whether the world is well-formed. Every world made and changed by the
    /// functions of this library is.
    pub open spec fn wf(&self) -> bool {
        wf_bodies(self@)
    }

    /// The body that `e` names, if it names one.
    pub open spec fn body(&self, e: Entity) -> Option<Body> {
        slot_at(self@, e)
    }

    /// A world without bodies.
    pub fn new() -> (r: Self)
        ensures
            r@ == Seq::<Option<Body>>::empty(),
            r.wf(),
    {
        World { bodies: Vec::new() }
    }

    /// The number of places, empty ones included.
    pub fn len(&self) -> (n: usize)
        ensures
            n == self@.len(),
    {
        self.bodies.len()
    }

    /// The body that `e` names, if it names one.
    pub fn get(&self, e: Entity) -> (r: Option<Body>)
        ensures
            r == self.body(e),
    {
        if e.0 < self.bodies.len() as u64 {
            self.bodies[e.0 as usize]
        } else {
            None
        }
    }

    /// The body in place `i`.
    pub fn at(&self, i: usize) -> (r: Option<Body>)
        requires
            i < self@.len(),
        ensures
            r == self@[i as int],
            r == self.body(Entity(i as u64)),
    {
        self.bodies[i]
    }

    /// Puts `body` in the place of the body that `e` names.
    pub(crate) fn put(&mut self, e: Entity, body: Body)
        requires
            old(self).body(e) is Some,
            wf_bodies(old(self)@.update(e.0 as int, Some(body))),
        ensures
            final(self)@ == old(self)@.update(e.0 as int, Some(body)),
            final(self).wf(),
    {
        let n: usize = self.bodies.len();
        assert(e.0 < n);
        let index: usize = e.0 as usize;
        self.bodies.set(index, Some(body));
    }

    /// Puts `body` in the place of the body that `e` names, where it keeps
    /// the ties of that body.
    pub(crate) fn change(&mut self, e: Entity, body: Body)
        requires
            old(self).wf(),
            old(self).body(e) matches Some(before) && keeps_ties(before, body),
        ensures
            final(self).wf(),
            final(self)@ == old(self)@.update(e.0 as int, Some(body)),
    {
        proof {
            lemma_change_keeps_wf(self@, e.0 as int, body);
        }
        self.put(e, body);
    }

    /// Adds a body that is tied to no other, and names it.
    pub fn spawn(&mut self, body: Body) -> (e: Entity)
        requires
            old(self).wf(),
            old(self)@.len() < usize::MAX,
        ensures
            final(self).wf(),
            e.0 == old(self)@.len(),
            final(self)@ == old(self)@.push(Some(body.untied())),
    {
        let e: Entity = Entity(self.bodies.len() as u64);
        let hookable: Option<Hookable> = if body.ship.is_some() {
            None
        } else {
            body.hookable
        };
        let entering: Body = Body {
            parent: None,
            hook: None,
            hooked: None,
            captured: None,
            hookable,
            ..body
        };
        proof {
            lemma_push_keeps_wf(self.bodies@, entering);
        }
        self.bodies.push(Some(entering));
        e
    }

    /// Adds a hook that is tied to no other body and cannot be caught, and
    /// names it; adds nothing where `body` is no hook or the hook's owner has a
    /// hook out already.
    pub fn spawn_hook(&mut self, body: Body) -> (r: Option<Entity>)
        requires
            old(self).wf(),
            old(self)@.len() < usize::MAX,
        ensures
            final(self).wf(),
            r is Some <==> owner_of(body) is Some && hook_of(old(self)@, owner_of(body).unwrap())
                is None,
            r matches Some(e) ==> e.0 == old(self)@.len() && final(self)@ == old(self)@.push(
                Some(Body { hook: body.hook, hookable: None, ..body.untied() }),
            ),
            r is None ==> final(self)@ == old(self)@,
    {
        let hook: Hook = match body.hook {
            Some(hook) => hook,
            None => {
                return None;
            },
        };
        if self.find_hook_of(hook.owner).is_some() {
            return None;
        }
        let e: Entity = Entity(self.bodies.len() as u64);
        let entering: Body = Body {
            parent: None,
            hooked: None,
            captured: None,
            hookable: None,
            ..body
        };
        proof {
            lemma_push_keeps_wf(self.bodies@, entering);
        }
        self.bodies.push(Some(entering));
        Some(e)
    }

    /// Replaces the parts of the body that `e` names by those of `parts`; the
    /// body keeps its ties, and becomes neither a ship nor something that can
    /// be caught unless it was one. Does nothing where `e` names no body.
    pub fn update(&mut self, e: Entity, parts: Body)
        requires
            old(self).wf(),
        ensures
            final(self).wf(),
            final(self)@ == match old(self).body(e) {
                Some(before) => old(self)@.update(e.0 as int, Some(before.with_parts_of(parts))),
                None => old(self)@,
            },
    {
        match self.get(e) {
            Some(before) => {
                let body: Body = Body {
                    parent: before.parent,
                    hook: before.hook,
                    hooked: before.hooked,
                    captured: before.captured,
                    ship: if before.ship.is_some() {
                        parts.ship
                    } else {
                        None
                    },
                    hookable: if before.hookable.is_some() {
                        parts.hookable
                    } else {
                        None
                    },
                    ..parts
                };
                proof {
                    assert(body_ok(self@, e.0 as int));
                }
                self.change(e, body);
            },
            None => {},
        }
    }

    /// Where `e` is in the world.
    pub fn world_translation(&self, e: Entity) -> (r: Option<Vec3>)
        ensures
            r == world_translation_of(self@, e),
    {
        match self.get(e) {
            Some(body) => match body.parent {
                Some(p) => match self.get(p) {
                    Some(carrier) => Some(
                        carrier.translation.plus(carrier.rotation.rotated(body.translation)),
                    ),
                    None => Some(body.translation),
                },
                None => Some(body.translation),
            },
            None => None,
        }
    }

    /// How `e` is turned in the world.
    pub fn world_rotation(&self, e: Entity) -> (r: Option<Quat>)
        ensures
            r == world_rotation_of(self@, e),
    {
        match self.get(e) {
            Some(body) => match body.parent {
                Some(p) => match self.get(p) {
                    Some(carrier) => Some(carrier.rotation.times(body.rotation)),
                    None => Some(body.rotation),
                },
                None => Some(body.rotation),
            },
            None => None,
        }
    }

    /// The one and only body of the kind `filter`; none where there is no
    /// such body or more than one.
    pub fn single(&self, filter: Filter) -> (r: Option<Entity>)
        ensures
            r == single_of(self@, filter),
            r matches Some(e) ==> is_single(self@, filter, e) && self.body(e) is Some,
            r is None ==> forall|e: Entity| !is_single(self@, filter, e),
    {
        let n: usize = self.bodies.len();
        let mut found: Option<Entity> = None;
        let mut i: usize = 0;
        while i < n
            invariant
                n == self.bodies@.len(),
                i <= n,
                found matches Some(e) ==> e.0 < i && passes_at(self@, e.0 as int, filter),
                found matches Some(e) ==> forall|k: int|
                    0 <= k < i && #[trigger] passes_at(self@, k, filter) ==> k == e.0,
                found is None ==> forall|k: int| 0 <= k < i ==> !#[trigger] passes_at(self@, k, filter),
            decreases n - i,
        {
            match &self.bodies[i] {
                Some(body) => {
                    if passes_filter(body, filter) {
                        if found.is_some() {
                            proof {
                                let first = found.unwrap();
                                assert(passes_at(self@, first.0 as int, filter));
                                assert(passes_at(self@, i as int, filter));
                                assert forall|e: Entity| !is_single(self@, filter, e) by {
                                    if is_single(self@, filter, e) {
                                        assert(first.0 == e.0);
                                        assert(i == e.0);
                                    }
                                }
                            }
                            return None;
                        }
                        found = Some(Entity(i as u64));
                    }
                },
                None => {},
            }
            i += 1;
        }
        proof {
            match found {
                Some(e) => {
                    assert(is_single(self@, filter, e));
                    let chosen = choose|c: Entity| is_single(self@, filter, c);
                    lemma_single_unique(self@, filter, e, chosen);
                },
                None => {
                    assert forall|e: Entity| !is_single(self@, filter, e) by {
                        if is_single(self@, filter, e) {
                            assert(passes_at(self@, e.0 as int, filter));
                        }
                    }
                },
            }
        }
        found
    }

    /// Whether some body rides on `e`.
    pub fn has_riders(&self, e: Entity) -> (r: bool)
        ensures
            r == has_riders(self@, e),
    {
        let n: usize = self.bodies.len();
        let mut i: usize = 0;
        while i < n
            invariant
                n == self.bodies@.len(),
                i <= n,
                forall|k: int| 0 <= k < i ==> !#[trigger] rides_on(self@, k, e),
            decreases n - i,
        {
            match self.bodies[i] {
                Some(body) => match body.parent {
                    Some(p) => {
                        if p.0 == e.0 {
                            assert(rides_on(self@, i as int, e));
                            return true;
                        }
                    },
                    None => {},
                },
                None => {},
            }
            i += 1;
        }
        false
    }

    /// The hook that `owner` has out, if it has one.
    pub fn find_hook_of(&self, owner: Entity) -> (r: Option<Entity>)
        requires
            self.wf(),
        ensures
            r == hook_of(self@, owner),
            r matches Some(h) ==> h.0 < self@.len() && hook_owner(self@, h.0 as int) == Some(owner),
            r is None ==> forall|k: int|
                0 <= k < self@.len() ==> #[trigger] hook_owner(self@, k) != Some(owner),
    {
        let n: usize = self.bodies.len();
        let mut i: usize = 0;
        while i < n
            invariant
                n == self.bodies@.len(),
                i <= n,
                self.wf(),
                forall|k: int| 0 <= k < i ==> #[trigger] hook_owner(self@, k) != Some(owner),
            decreases n - i,
        {
            match self.bodies[i] {
                Some(body) => match body.hook {
                    Some(hook) => {
                        if hook.owner.0 == owner.0 {
                            proof {
                                assert(hook_owner(self@, i as int) == Some(owner));
                                let found = hook_of(self@, owner);
                                let j = choose|j: int|
                                    0 <= j < self@.len() && #[trigger] hook_owner(self@, j) == Some(
                                        owner,
                                    );
                                assert(j == i);
                            }
                            return Some(Entity(i as u64));
                        }
                    },
                    None => {},
                },
                None => {},
            }
            i += 1;
        }
        None
    }

    /// Removes the body that `e` names, and with it the bodies that ride on it.
    pub fn despawn(&mut self, e: Entity)
        requires
            old(self).wf(),
        ensures
            final(self).wf(),
            final(self)@ == without(old(self)@, e),
    {
        let ghost before = self@;
        let n: usize = self.bodies.len();
        let mut i: usize = 0;
        while i < n
            invariant
                n == self.bodies@.len(),
                n == before.len(),
                i <= n,
                forall|k: int| 0 <= k < i ==> self.bodies@[k] == #[trigger] without(before, e)[k],
                forall|k: int| i <= k < n ==> #[trigger] self.bodies@[k] == before[k],
            decreases n - i,
        {
            let gone: bool = match self.bodies[i] {
                Some(body) => match body.parent {
                    Some(p) => p.0 == e.0 || i as u64 == e.0,
                    None => i as u64 == e.0,
                },
                None => false,
            };
            if gone {
                self.bodies.set(i, None);
            }
            assert(self.bodies@[i as int] == without(before, e)[i as int]);
            i += 1;
        }
        proof {
            assert(self@ =~= without(before, e));
            lemma_without_keeps_wf(before, e);
        }
    }

    /// Makes `child` ride on `parent`, where it can; says whether it did.
    pub fn add_child(&mut self, parent: Entity, child: Entity) -> (r: bool)
        requires
            old(self).wf(),
        ensures
            final(self).wf(),
            r == can_ride(old(self)@, parent, child),
            final(self)@ == if r {
                old(self)@.update(
                    child.0 as int,
                    Some(Body { parent: Some(parent), ..old(self).body(child).unwrap() }),
                )
            } else {
                old(self)@
            },
    {
        if parent.0 == child.0 {
            return false;
        }
        let rider: Body = match self.get(child) {
            Some(body) => body,
            None => {
                return false;
            },
        };
        if rider.hook.is_some() || rider.ship.is_some() {
            return false;
        }
        match self.get(parent) {
            Some(carrier) => {
                if carrier.parent.is_some() || carrier.hookable.is_some() {
                    return false;
                }
            },
            None => {
                return false;
            },
        }
        if self.has_riders(child) {
            return false;
        }
        let body: Body = Body { parent: Some(parent), ..rider };
        proof {
            lemma_ride_keeps_wf(self@, parent, child);
        }
        self.put(child, body);
        true
    }

    /// Takes `child` off `parent`, where it rides on it.
    pub fn remove_child(&mut self, parent: Entity, child: Entity)
        requires
            old(self).wf(),
        ensures
            final(self).wf(),
            final(self)@ == detached(old(self)@, parent, child),
    {
        match self.get(child) {
            Some(rider) => match rider.parent {
                Some(p) => {
                    if p.0 == parent.0 {
                        let body: Body = Body { parent: None, ..rider };
                        proof {
                            lemma_detach_keeps_wf(self@, parent, child);
                        }
                        self.put(child, body);
                    }
                },
                None => {},
            },
            None => {},
        }
    }
}

/// The bodies after `child` has been taken off `parent`: unchanged where it
/// does not ride on it.
pub open spec fn detached(bodies: Seq<Option<Body>>, parent: Entity, child: Entity) -> Seq<
    Option<Body>,
> {
    match slot_at(bodies, child) {
        Some(rider) => if rider.parent == Some(parent) {
            bodies.update(child.0 as int, Some(Body { parent: None, ..rider }))
        } else {
            bodies
        },
        None => bodies,
    }
}

/// Removing a body with its riders keeps the world well-formed.
pub proof fn lemma_without_keeps_wf(bodies: Seq<Option<Body>>, e: Entity)
    requires
        wf_bodies(bodies),
    ensures
        wf_bodies(without(bodies, e)),
{
    let after = without(bodies, e);
    assert forall|k: int| 0 <= k < after.len() implies #[trigger] body_ok(after, k) by {
        assert(body_ok(bodies, k));
        if let Some(b) = after[k] {
            if let Some(p) = b.parent {
                assert(!rides_on(bodies, k, e));
                assert(p != e);
                assert(body_ok(bodies, p.0 as int));
                assert(!rides_on(bodies, p.0 as int, e));
            }
        }
    }
    assert forall|a: int, b: int| 0 <= a < after.len() && 0 <= b < after.len() && a != b implies !(
    #[trigger] hook_owner(after, a) is Some && hook_owner(after, a) == #[trigger] hook_owner(
        after,
        b,
    )) by {
        assert(hook_owner(after, a) is Some ==> hook_owner(after, a) == hook_owner(bodies, a));
        assert(hook_owner(after, b) is Some ==> hook_owner(after, b) == hook_owner(bodies, b));
    }
}

/// Making a body ride where it can keeps the world well-formed.
pub proof fn lemma_ride_keeps_wf(bodies: Seq<Option<Body>>, parent: Entity, child: Entity)
    requires
        wf_bodies(bodies),
        can_ride(bodies, parent, child),
    ensures
        wf_bodies(
            bodies.update(
                child.0 as int,
                Some(Body { parent: Some(parent), ..slot_at(bodies, child).unwrap() }),
            ),
        ),
{
    let after = bodies.update(
        child.0 as int,
        Some(Body { parent: Some(parent), ..slot_at(bodies, child).unwrap() }),
    );
    assert forall|k: int| 0 <= k < after.len() implies #[trigger] body_ok(after, k) by {
        assert(body_ok(bodies, k));
        assert(body_ok(bodies, child.0 as int));
        if let Some(b) = after[k] {
            if let Some(p) = b.parent {
                if k != child.0 {
                    assert(!rides_on(bodies, k, child));
                }
            }
        }
    }
    assert forall|a: int, b: int| 0 <= a < after.len() && 0 <= b < after.len() && a != b implies !(
    #[trigger] hook_owner(after, a) is Some && hook_owner(after, a) == #[trigger] hook_owner(
        after,
        b,
    )) by {
        assert(hook_owner(after, a) == hook_owner(bodies, a));
        assert(hook_owner(after, b) == hook_owner(bodies, b));
    }
}

/// Taking a body off its carrier keeps the world well-formed.
pub proof fn lemma_detach_keeps_wf(bodies: Seq<Option<Body>>, parent: Entity, child: Entity)
    requires
        wf_bodies(bodies),
    ensures
        wf_bodies(detached(bodies, parent, child)),
{
    let after = detached(bodies, parent, child);
    assert forall|k: int| 0 <= k < after.len() implies #[trigger] body_ok(after, k) by {
        assert(body_ok(bodies, k));
        if let Some(b) = after[k] {
            if let Some(p) = b.parent {
                assert(body_ok(bodies, p.0 as int));
            }
        }
    }
    assert forall|a: int, b: int| 0 <= a < after.len() && 0 <= b < after.len() && a != b implies !(
    #[trigger] hook_owner(after, a) is Some && hook_owner(after, a) == #[trigger] hook_owner(
        after,
        b,
    )) by {
        assert(hook_owner(after, a) == hook_owner(bodies, a));
        assert(hook_owner(after, b) == hook_owner(bodies, b));
    }
}

} // verus!
