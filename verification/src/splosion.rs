//! Blasts.
use vstd::prelude::*;
use crate::effect_sprite::{EffectSpriteEvent, EffectSpriteType};
use crate::vector::Vec3;

verus! {

/// A request for a blast of size `scale` at `translation`, drifting with `velocity`.
#[derive(Clone, Copy, Debug, PartialEq, Eq)]
pub struct SplosionEvent {
    pub translation: Vec3,
    pub scale: i32,
    pub velocity: Vec3,
}

impl SplosionEvent {
    pub fn new(translation: Vec3, scale: i32, velocity: Vec3) -> (r: Self)
        ensures
            r == (SplosionEvent { translation, scale, velocity }),
    {
        SplosionEvent { translation, scale, velocity }
    }

    /// The animation that shows the blast.
    pub fn effect(&self) -> (r: EffectSpriteEvent)
        ensures
            r == (EffectSpriteEvent {
                translation: self.translation,
                scale: self.scale,
                velocity: self.velocity,
                effect: EffectSpriteType::Splosion,
            }),
    {
        EffectSpriteEvent::new(
            self.translation,
            self.scale,
            self.velocity,
            EffectSpriteType::Splosion,
        )
    }
}

/// The animation that shows `blast`.
pub open spec fn effect_of(blast: SplosionEvent) -> EffectSpriteEvent {
    EffectSpriteEvent {
        translation: blast.translation,
        scale: blast.scale,
        velocity: blast.velocity,
        effect: EffectSpriteType::Splosion,
    }
}

/// Adds the animations that show `blasts` to `effects`.
pub fn show_blasts(blasts: &Vec<SplosionEvent>, effects: &mut Vec<EffectSpriteEvent>)
    ensures
        final(effects)@ == old(effects)@ + blasts@.map_values(|blast: SplosionEvent| effect_of(blast)),
{
    let ghost before = effects@;
    let n: usize = blasts.len();
    let mut k: usize = 0;
    proof {
        assert(effects@ =~= before + blasts@.take(0).map_values(
            |blast: SplosionEvent| effect_of(blast),
        ));
    }
    while k < n
        invariant
            n == blasts@.len(),
            k <= n,
            before == old(effects)@,
            effects@ == before + blasts@.take(k as int).map_values(
                |blast: SplosionEvent| effect_of(blast),
            ),
        decreases n - k,
    {
        effects.push(blasts[k].effect());
        proof {
            assert(effects@ =~= before + blasts@.take(k + 1).map_values(
                |blast: SplosionEvent| effect_of(blast),
            ));
        }
        k += 1;
    }
    assert(blasts@.take(n as int) =~= blasts@);
}

} // verus!
