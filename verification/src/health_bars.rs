//! The bar that shows the ship's health.
use vstd::prelude::*;
use crate::fixed::{mul_div, mul_div_of, saturate, saturated, UNIT};
use crate::health::Health;

verus! {

/// The width of the bar's frame for each hundred of health, in thousandths
/// of the view's width.
pub const HEALTH_BAR_WIDTH_PER_HUNDRED: i32 = 15_000;

/// What the bar and its frame were last drawn for.
#[derive(Clone, Copy, Debug, PartialEq, Eq)]
pub struct HealthBars {
    /// The health that the bar shows; none before it is first drawn.
    pub value: Option<i32>,
    /// The largest health that the frame is sized for; none before it is
    /// first drawn.
    pub max: Option<i32>,
}

/// How the bar and its frame are to be drawn.
#[derive(Clone, Copy, Debug, PartialEq, Eq)]
pub struct BarLayout {
    /// The width of the frame, in thousandths of a hundredth of the view's
    /// width; none where it stays as it is.
    pub frame_width: Option<i32>,
    /// The part of the frame that the bar fills, in thousandths of a percent.
    pub bar_percent: i32,
    /// Whether the bar is shown: it is hidden when the health is spent.
    pub visible: bool,
}

/// The width of the frame that fits a largest health of `max`.
pub open spec fn frame_width_of(max: i32) -> i32 {
    saturated(mul_div_of(max as int, HEALTH_BAR_WIDTH_PER_HUNDRED as int, 100 * UNIT)) as i32
}

/// The part of the frame that the health fills, in thousandths of a
/// percent; nothing where the largest health is not positive.
pub open spec fn bar_percent_of(health: Health) -> i32 {
    if health.max > 0 {
        saturated(mul_div_of(health.value as int, 100 * UNIT, health.max as int)) as i32
    } else {
        0
    }
}

impl HealthBars {
    /// Bars that have not been drawn yet.
    pub fn new() -> (r: Self)
        ensures
            r == (HealthBars { value: None, max: None }),
    {
        HealthBars { value: None, max: None }
    }

    /// What is to be drawn anew for `health`: nothing where the bars show it
    /// already. The frame is sized anew when the largest health has changed,
    /// and the bar is drawn anew with it or when the health has changed.
    pub open spec fn layout_for(self, health: Health) -> Option<BarLayout> {
        if self.max != Some(health.max) || self.value != Some(health.value) {
            Some(
                BarLayout {
                    frame_width: if self.max != Some(health.max) {
                        Some(frame_width_of(health.max))
                    } else {
                        None
                    },
                    bar_percent: bar_percent_of(health),
                    visible: health.value > 0,
                },
            )
        } else {
            None
        }
    }

    /// Brings the bars up to `health`, and says what is to be drawn anew.
    pub fn health_update(&mut self, health: &Health) -> (r: Option<BarLayout>)
        ensures
            r == old(self).layout_for(*health),
            r is Some ==> *final(self) == (HealthBars {
                value: Some(health.value),
                max: Some(health.max),
            }),
            r is None ==> *final(self) == *old(self),
    {
        let same_max: bool = match self.max {
            Some(max) => max == health.max,
            None => false,
        };
        let same_value: bool = match self.value {
            Some(value) => value == health.value,
            None => false,
        };
        if same_max && same_value {
            return None;
        }
        let frame_width: Option<i32> = if same_max {
            None
        } else {
            Some(
                saturate(
                    mul_div(
                        health.max as i128,
                        HEALTH_BAR_WIDTH_PER_HUNDRED as i128,
                        100 * UNIT as i128,
                    ),
                ),
            )
        };
        let bar_percent: i32 = if health.max > 0 {
            saturate(mul_div(health.value as i128, 100 * UNIT as i128, health.max as i128))
        } else {
            0
        };
        self.max = Some(health.max);
        self.value = Some(health.value);
        Some(BarLayout { frame_width, bar_percent, visible: health.value > 0 })
    }
}

} // verus!
