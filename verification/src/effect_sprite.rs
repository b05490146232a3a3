//! Short animations that mark a blast or a ricochet.
use vstd::prelude::*;
use crate::fixed::{NANOS_PER_SECOND, UNIT};
use crate::movement::Velocity;
use crate::random::random_in;
use crate::timer::{Timer, TimerMode};
use crate::vector::Vec3;
use crate::world::{body_ok, without, Body, Entity, World};

verus! {

/// Frames on the sheet of a blast.
pub const SPLOSION_FRAMES: usize = 17;

pub const SPLOSION_DISPLAY_FRAMES: i32 = 16_000;

pub const SPLOSION_HORIZONTAL_FRAMES: i32 = 4_000;

pub const SPLOSION_VERTICAL_FRAMES: i32 = 4_000;

/// Frames per second of a blast.
pub const SPLOSION_ANIMATION_FPS: u64 = 15;

/// Nanoseconds that a blast runs: all its frames but one.
pub const SPLOSION_ANIMATION_LENGTH: u64 = 1_066_666_666;

/// Frames on the sheet of a ricochet.
pub const RICOCHET_FRAMES: usize = 8;

pub const RICOCHET_DISPLAY_FRAMES: i32 = 7_000;

pub const RICOCHET_HORIZONTAL_FRAMES: i32 = 4_000;

pub const RICOCHET_VERTICAL_FRAMES: i32 = 2_000;

/// Frames per second of a ricochet.
pub const RICOCHET_ANIMATION_FPS: u64 = 15;

/// Nanoseconds that a ricochet runs: all its frames but one.
pub const RICOCHET_ANIMATION_LENGTH: u64 = 466_666_666;

/// The animations there are.
#[derive(Clone, Copy, Debug, PartialEq, Eq)]
pub enum EffectSpriteType {
    Splosion,
    Ricochet,
}

/// A request for an animation of size `scale` at `translation`, drifting
/// with `velocity`.
#[derive(Clone, Copy, Debug, PartialEq, Eq)]
pub struct EffectSpriteEvent {
    pub translation: Vec3,
    pub scale: i32,
    pub velocity: Vec3,
    pub effect: EffectSpriteType,
}

impl EffectSpriteEvent {
    pub fn new(translation: Vec3, scale: i32, velocity: Vec3, effect: EffectSpriteType) -> (r: Self)
        ensures
            r == (EffectSpriteEvent { translation, scale, velocity, effect }),
    {
        EffectSpriteEvent { translation, scale, velocity, effect }
    }
}

/// Marks an animation that runs.
#[derive(Clone, Copy, Debug, PartialEq, Eq)]
pub struct EffectSprite {
    pub timer: Timer,
    pub effect: EffectSpriteType,
    /// The material, of those of its kind, with which the animation is shown.
    pub material: usize,
    /// A draw between minus one and one: the part of a half turn by which
    /// the host turns the sprite about the line of sight.
    pub spin: i32,
}

/// What the shader of an animation is told, for one of its materials.
#[derive(Clone, Copy, Debug, PartialEq, Eq)]
pub struct EffectSpriteSettings {
    pub frame_offset: i32,
    pub frame_rate: i32,
    pub frames_wide: i32,
    pub frames_deep: i32,
    pub frame_count: i32,
    pub display_frames: i32,
}

/// The number of frames on the sheet of `effect`.
pub open spec fn spec_frames(effect: EffectSpriteType) -> usize {
    match effect {
        EffectSpriteType::Splosion => SPLOSION_FRAMES,
        EffectSpriteType::Ricochet => RICOCHET_FRAMES,
    }
}

/// The number of frames on the sheet of `effect`.
#[verifier::when_used_as_spec(spec_frames)]
pub fn frames(effect: EffectSpriteType) -> (r: usize)
    ensures
        r == spec_frames(effect),
{
    match effect {
        EffectSpriteType::Splosion => SPLOSION_FRAMES,
        EffectSpriteType::Ricochet => RICOCHET_FRAMES,
    }
}

/// What the shader is told for the material `index` of `effect`: the
/// materials of a kind differ in the frame with which they begin, the first
/// beginning with frame one.
pub open spec fn settings_of(effect: EffectSpriteType, index: usize) -> EffectSpriteSettings {
    match effect {
        EffectSpriteType::Splosion => EffectSpriteSettings {
            frame_offset: ((index + 1) * UNIT) as i32,
            frame_rate: (SPLOSION_ANIMATION_FPS * UNIT as u64) as i32,
            frames_wide: SPLOSION_HORIZONTAL_FRAMES,
            frames_deep: SPLOSION_VERTICAL_FRAMES,
            frame_count: (SPLOSION_FRAMES * UNIT as usize) as i32,
            display_frames: SPLOSION_DISPLAY_FRAMES,
        },
        EffectSpriteType::Ricochet => EffectSpriteSettings {
            frame_offset: ((index + 1) * UNIT) as i32,
            frame_rate: (RICOCHET_ANIMATION_FPS * UNIT as u64) as i32,
            frames_wide: RICOCHET_HORIZONTAL_FRAMES,
            frames_deep: RICOCHET_VERTICAL_FRAMES,
            frame_count: (RICOCHET_FRAMES * UNIT as usize) as i32,
            display_frames: RICOCHET_DISPLAY_FRAMES,
        },
    }
}

/// What the shader is told for each material of `effect`, in their order.
pub fn create_material_collection(effect: EffectSpriteType) -> (r: Vec<EffectSpriteSettings>)
    ensures
        r@.len() == spec_frames(effect),
        forall|i: int| 0 <= i < r@.len() ==> #[trigger] r@[i] == settings_of(effect, i as usize),
{
    let count: usize = frames(effect);
    let mut settings: Vec<EffectSpriteSettings> = Vec::new();
    let mut i: usize = 0;
    while i < count
        invariant
            count == spec_frames(effect),
            i <= count,
            settings@.len() == i,
            forall|k: int| 0 <= k < i ==> #[trigger] settings@[k] == settings_of(effect, k as usize),
        decreases count - i,
    {
        let offset: i32 = (i as i32 + 1) * UNIT;
        settings.push(
            match effect {
                EffectSpriteType::Splosion => EffectSpriteSettings {
                    frame_offset: offset,
                    frame_rate: 15_000,
                    frames_wide: SPLOSION_HORIZONTAL_FRAMES,
                    frames_deep: SPLOSION_VERTICAL_FRAMES,
                    frame_count: 17_000,
                    display_frames: SPLOSION_DISPLAY_FRAMES,
                },
                EffectSpriteType::Ricochet => EffectSpriteSettings {
                    frame_offset: offset,
                    frame_rate: 15_000,
                    frames_wide: RICOCHET_HORIZONTAL_FRAMES,
                    frames_deep: RICOCHET_VERTICAL_FRAMES,
                    frame_count: 8_000,
                    display_frames: RICOCHET_DISPLAY_FRAMES,
                },
            },
        );
        i += 1;
    }
    settings
}

/// Nanoseconds that an animation of `effect` runs.
pub open spec fn animation_length(effect: EffectSpriteType) -> u64 {
    match effect {
        EffectSpriteType::Splosion => SPLOSION_ANIMATION_LENGTH,
        EffectSpriteType::Ricochet => RICOCHET_ANIMATION_LENGTH,
    }
}

/// Nanoseconds that an animation of `effect` runs.
#[verifier::when_used_as_spec(animation_length)]
pub fn get_animation_length(effect: EffectSpriteType) -> (r: u64)
    ensures
        r == animation_length(effect),
{
    match effect {
        EffectSpriteType::Splosion => SPLOSION_ANIMATION_LENGTH,
        EffectSpriteType::Ricochet => RICOCHET_ANIMATION_LENGTH,
    }
}

/// The material with which an animation of `effect` that starts `elapsed`
/// nanoseconds into the game is shown. All materials of a kind run in step
/// with the game's clock; the one chosen is that which shows the first frame
/// now: the last material less the frames that the clock has run, counted
/// round the sheet.
pub open spec fn material_at(effect: EffectSpriteType, elapsed: u64) -> usize {
    (spec_frames(effect) - 1 - (elapsed * 15 / (NANOS_PER_SECOND as int)) % (spec_frames(
        effect,
    ) as int)) as usize
}

/// The material with which an animation of `effect` that starts now is shown.
#[verifier::when_used_as_spec(material_at)]
pub fn get_material(effect: EffectSpriteType, elapsed: u64) -> (r: usize)
    ensures
        r == material_at(effect, elapsed),
        r < spec_frames(effect),
{
    let count: u128 = frames(effect) as u128;
    let frame: u128 = (elapsed as u128 * 15 / NANOS_PER_SECOND as u128) % count;
    (count - 1 - frame) as usize
}

/// The animation that `event` asks for, started `elapsed` nanoseconds into
/// the game and turned by the draw `spin`.
pub open spec fn effect_body(event: EffectSpriteEvent, elapsed: u64, spin: i32) -> Body {
    Body {
        effect: Some(
            EffectSprite {
                timer: Timer::spec_new(animation_length(event.effect), TimerMode::Once),
                effect: event.effect,
                material: material_at(event.effect, elapsed),
                spin,
            },
        ),
        scale: event.scale,
        velocity: Some(Velocity(event.velocity)),
        ..Body::spec_new(event.translation)
    }
}

/// The animation that `event` asks for.
pub fn effect_builder(event: &EffectSpriteEvent, elapsed: u64, spin: i32) -> (r: Body)
    ensures
        r == effect_body(*event, elapsed, spin),
{
    let mut body: Body = Body::new(event.translation);
    body.effect = Some(
        EffectSprite {
            timer: Timer::new(get_animation_length(event.effect), TimerMode::Once),
            effect: event.effect,
            material: get_material(event.effect, elapsed),
            spin,
        },
    );
    body.scale = event.scale;
    body.velocity = Some(Velocity(event.velocity));
    body
}

/// Whether `after` is `before` with the animations that `events` ask for
/// added in turn, each turned by a draw between minus one and one.
pub open spec fn effects_added(
    before: Seq<Option<Body>>,
    after: Seq<Option<Body>>,
    events: Seq<EffectSpriteEvent>,
    elapsed: u64,
) -> bool {
    &&& after.len() == before.len() + events.len()
    &&& forall|i: int| 0 <= i < before.len() ==> #[trigger] after[i] == before[i]
    &&& forall|k: int|
        0 <= k < events.len() ==> #[trigger] is_effect_of(
            after[before.len() + k],
            events[k],
            elapsed,
        )
}

/// Whether `slot` holds the animation that `event` asks for, started
/// `elapsed` nanoseconds into the game and turned by some draw between minus
/// one and one.
pub open spec fn is_effect_of(slot: Option<Body>, event: EffectSpriteEvent, elapsed: u64) -> bool {
    exists|spin: i32|
        -UNIT <= spin < UNIT && slot == Some(#[trigger] effect_body(event, elapsed, spin))
}

/// Adds the animations that `events` ask for, `elapsed` nanoseconds into the
/// game, each turned by a draw.
pub fn spawn_effect_sprites(world: &mut World, events: &Vec<EffectSpriteEvent>, elapsed: u64)
    requires
        old(world).wf(),
        old(world)@.len() + events@.len() < usize::MAX,
    ensures
        final(world).wf(),
        effects_added(old(world)@, final(world)@, events@, elapsed),
{
    let ghost before = world@;
    let n: usize = events.len();
    let mut k: usize = 0;
    while k < n
        invariant
            n == events@.len(),
            k <= n,
            world.wf(),
            before.len() + n < usize::MAX,
            world@.len() == before.len() + k,
            effects_added(before, world@, events@.take(k as int), elapsed),
        decreases n - k,
    {
        let drawn: i32 = random_in(-UNIT, UNIT);
        let body: Body = effect_builder(&events[k], elapsed, drawn);
        assert(body.untied() == body);
        let ghost mid = world@;
        world.spawn(body);
        proof {
            let earlier = events@.take(k as int);
            let taken = events@.take(k + 1);
            assert(world@.len() == before.len() + taken.len());
            assert forall|i: int| 0 <= i < before.len() implies #[trigger] world@[i] == before[i] by {
                assert(mid[i] == before[i]);
            }
            assert forall|j: int| 0 <= j < taken.len() implies #[trigger] is_effect_of(
                world@[before.len() + j],
                taken[j],
                elapsed,
            ) by {
                if j < k {
                    assert(earlier[j] == taken[j]);
                    assert(is_effect_of(mid[before.len() + j], earlier[j], elapsed));
                    assert(world@[before.len() + j] == mid[before.len() + j]);
                } else {
                    assert(taken[j] == events@[k as int]);
                    assert(-UNIT <= drawn < UNIT && world@[before.len() + j] == Some(
                        effect_body(taken[j], elapsed, drawn),
                    ));
                }
            }
        }
        k += 1;
    }
    assert(events@.take(n as int) =~= events@);
}

/// The bodies after the animations in the places below `upto` have had
/// `delta` nanoseconds, in turn: one that has run out is gone.
pub open spec fn effects_upto(bodies: Seq<Option<Body>>, upto: int, delta: u64) -> Seq<Option<Body>>
    decreases upto,
{
    if upto <= 0 {
        bodies
    } else {
        let before = effects_upto(bodies, upto - 1, delta);
        if upto - 1 < before.len() && (before[upto - 1] matches Some(body) && body.effect is Some) {
            let body = before[upto - 1].unwrap();
            let effect = body.effect.unwrap();
            let timer = effect.timer.ticked(delta);
            let aged = before.update(
                upto - 1,
                Some(Body { effect: Some(EffectSprite { timer, ..effect }), ..body }),
            );
            if timer.spec_just_finished() {
                without(aged, Entity((upto - 1) as u64))
            } else {
                aged
            }
        } else {
            before
        }
    }
}

/// Lets every animation run for `delta` nanoseconds and removes those that
/// have run out.
pub fn update_effect_sprites(world: &mut World, delta: u64)
    requires
        old(world).wf(),
    ensures
        final(world).wf(),
        final(world)@ == effects_upto(old(world)@, old(world)@.len() as int, delta),
{
    let ghost before = world@;
    let n: usize = world.len();
    let mut i: usize = 0;
    while i < n
        invariant
            n == before.len(),
            world@.len() == n,
            i <= n,
            world.wf(),
            world@ == effects_upto(before, i as int, delta),
        decreases n - i,
    {
        match world.at(i) {
            Some(body) => match body.effect {
                Some(effect) => {
                    let mut timer: Timer = effect.timer;
                    timer.tick(delta);
                    proof {
                        assert(body_ok(world@, i as int));
                    }
                    world.change(
                        Entity(i as u64),
                        Body { effect: Some(EffectSprite { timer, ..effect }), ..body },
                    );
                    if timer.just_finished() {
                        world.despawn(Entity(i as u64));
                    }
                },
                None => {},
            },
            None => {},
        }
        i += 1;
    }
}

} // verus!
