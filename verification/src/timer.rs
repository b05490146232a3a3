//! Elapsed time kept as a plain count of nanoseconds that each frame advances.
use vstd::prelude::*;
use crate::fixed::{mul_div, mul_div_of, RATIO_ONE};

verus! {

/// `a + b`, stopping at the largest `u64`.
pub open spec fn saturating_sum(a: u64, b: u64) -> u64 {
    if a + b > u64::MAX {
        u64::MAX
    } else {
        (a + b) as u64
    }
}

fn saturating_add(a: u64, b: u64) -> (r: u64)
    ensures
        r == saturating_sum(a, b),
{
    if a > u64::MAX - b {
        u64::MAX
    } else {
        a + b
    }
}

/// Counts the time since it was started or last reset.
#[derive(Clone, Copy, Debug, PartialEq, Eq, Structural)]
pub struct Stopwatch {
    /// Nanoseconds counted so far.
    pub elapsed: u64,
}

impl Stopwatch {
    pub fn new() -> (r: Self)
        ensures
            r.elapsed == 0,
    {
        Stopwatch { elapsed: 0 }
    }

    /// Advances the count by `delta` nanoseconds.
    pub fn tick(&mut self, delta: u64)
        ensures
            final(self).elapsed == saturating_sum(old(self).elapsed, delta),
    {
        self.elapsed = saturating_add(self.elapsed, delta);
    }

    pub fn reset(&mut self)
        ensures
            final(self).elapsed == 0,
    {
        self.elapsed = 0;
    }
}

/// Whether a timer stops at its duration or starts over.
#[derive(Clone, Copy, Debug, PartialEq, Eq, Structural)]
pub enum TimerMode {
    Once,
    Repeating,
}

/// Counts up to a duration. A tick that reaches the duration finishes the
/// timer: one that runs once stays at its duration from there on, one that
/// repeats keeps what is left over and goes on.
#[derive(Clone, Copy, Debug, PartialEq, Eq, Structural)]
pub struct Timer {
    /// Nanoseconds counted since the start or the last wrap.
    pub elapsed: u64,
    /// Nanoseconds after which the timer finishes.
    pub duration: u64,
    pub mode: TimerMode,
    /// Whether the last tick reached the duration or, for a timer that runs
    /// once, any tick before it did.
    pub finished: bool,
    /// How often the last tick crossed the duration.
    pub times_finished_this_tick: u32,
}

/// How often a span of `total` nanoseconds holds `duration`, at most `u32::MAX`.
pub open spec fn crossings(total: u64, duration: u64) -> u32 {
    if duration == 0 || total / duration > u32::MAX {
        u32::MAX
    } else {
        (total / duration) as u32
    }
}

impl Timer {
    /// What a fresh timer is.
    pub open spec fn spec_new(duration: u64, mode: TimerMode) -> Timer {
        Timer { elapsed: 0, duration, mode, finished: false, times_finished_this_tick: 0 }
    }

    #[verifier::when_used_as_spec(spec_new)]
    pub fn new(duration: u64, mode: TimerMode) -> (r: Self)
        ensures
            r == Self::spec_new(duration, mode),
    {
        Timer { elapsed: 0, duration, mode, finished: false, times_finished_this_tick: 0 }
    }

    /// The timer after a tick of `delta` nanoseconds.
    pub open spec fn ticked(self, delta: u64) -> Timer {
        let total = saturating_sum(self.elapsed, delta);
        if self.mode is Once && self.finished {
            Timer { times_finished_this_tick: 0, ..self }
        } else if total < self.duration {
            Timer { elapsed: total, finished: false, times_finished_this_tick: 0, ..self }
        } else if self.mode is Once {
            Timer { elapsed: self.duration, finished: true, times_finished_this_tick: 1, ..self }
        } else {
            Timer {
                elapsed: if self.duration == 0 {
                    0
                } else {
                    total % self.duration
                },
                finished: true,
                times_finished_this_tick: crossings(total, self.duration),
                ..self
            }
        }
    }

    /// Advances the timer by `delta` nanoseconds.
    pub fn tick(&mut self, delta: u64)
        ensures
            *final(self) == old(self).ticked(delta),
    {
        let total: u64 = saturating_add(self.elapsed, delta);
        let once: bool = match self.mode {
            TimerMode::Once => true,
            TimerMode::Repeating => false,
        };
        if once && self.finished {
            self.times_finished_this_tick = 0;
        } else if total < self.duration {
            self.elapsed = total;
            self.finished = false;
            self.times_finished_this_tick = 0;
        } else if once {
            self.elapsed = self.duration;
            self.finished = true;
            self.times_finished_this_tick = 1;
        } else {
            self.finished = true;
            if self.duration == 0 {
                self.elapsed = 0;
                self.times_finished_this_tick = u32::MAX;
            } else {
                let count: u64 = total / self.duration;
                self.elapsed = total % self.duration;
                self.times_finished_this_tick = if count > u32::MAX as u64 {
                    u32::MAX
                } else {
                    count as u32
                };
            }
        }
    }

    /// Whether the last tick reached the duration.
    pub open spec fn spec_just_finished(&self) -> bool {
        self.times_finished_this_tick > 0
    }

    #[verifier::when_used_as_spec(spec_just_finished)]
    pub fn just_finished(&self) -> (r: bool)
        ensures
            r == self.spec_just_finished(),
    {
        self.times_finished_this_tick > 0
    }

    pub fn finished(&self) -> (r: bool)
        ensures
            r == self.finished,
    {
        self.finished
    }

    /// Starts the count over.
    pub fn reset(&mut self)
        ensures
            *final(self) == Self::spec_new(old(self).duration, old(self).mode),
    {
        self.elapsed = 0;
        self.finished = false;
        self.times_finished_this_tick = 0;
    }

    /// Sets the count; whether the timer has finished is left for the next
    /// tick to find.
    pub fn set_elapsed(&mut self, elapsed: u64)
        ensures
            *final(self) == (Timer { elapsed, ..*old(self) }),
    {
        self.elapsed = elapsed;
    }

    pub fn set_duration(&mut self, duration: u64)
        ensures
            *final(self) == (Timer { duration, ..*old(self) }),
    {
        self.duration = duration;
    }

    /// The part of the duration that has passed: one for a duration of zero.
    pub open spec fn spec_fraction(&self) -> u32 {
        if self.duration == 0 || self.elapsed >= self.duration {
            RATIO_ONE
        } else {
            mul_div_of(self.elapsed as int, RATIO_ONE as int, self.duration as int) as u32
        }
    }

    /// The part of the duration that has passed, as a ratio.
    #[verifier::when_used_as_spec(spec_fraction)]
    pub fn fraction(&self) -> (r: u32)
        ensures
            r == self.spec_fraction(),
            r <= RATIO_ONE,
    {
        if self.duration == 0 || self.elapsed >= self.duration {
            RATIO_ONE
        } else {
            proof {
                lemma_fraction_below_one(self.elapsed as int, self.duration as int);
            }
            mul_div(self.elapsed as i128, RATIO_ONE as i128, self.duration as i128) as u32
        }
    }

    /// The part of the duration that is still to come.
    pub fn fraction_remaining(&self) -> (r: u32)
        ensures
            r == RATIO_ONE - self.spec_fraction(),
    {
        RATIO_ONE - self.fraction()
    }
}

/// A part of a whole, as a ratio, is below one.
proof fn lemma_fraction_below_one(part: int, whole: int)
    requires
        0 <= part < whole,
    ensures
        0 <= mul_div_of(part, RATIO_ONE as int, whole) < RATIO_ONE,
{
    let one = RATIO_ONE as int;
    assert(0 <= part * one < whole * one) by (nonlinear_arith)
        requires
            0 <= part < whole,
            one > 0,
    ;
    vstd::arithmetic::div_mod::lemma_div_pos_is_pos(part * one, whole);
    assert(part * one / whole < one) by (nonlinear_arith)
        requires
            0 <= part * one < whole * one,
            whole > 0,
    ;
}

/// A timer that runs once and has finished stays finished, and finishes no
/// second time.
pub proof fn lemma_once_finishes_once(timer: Timer, delta: u64)
    requires
        timer.mode is Once,
        timer.finished,
    ensures
        timer.ticked(delta).finished,
        !timer.ticked(delta).spec_just_finished(),
        timer.ticked(delta).elapsed == timer.elapsed,
{
}

/// A tick has just finished the timer exactly when the time counted with the
/// tick reaches the duration, unless the timer runs once and had finished.
pub proof fn lemma_just_finished(timer: Timer, delta: u64)
    ensures
        timer.ticked(delta).spec_just_finished() <==> saturating_sum(timer.elapsed, delta)
            >= timer.duration && !(timer.mode is Once && timer.finished),
{
    let total = saturating_sum(timer.elapsed, delta);
    if total >= timer.duration && timer.duration > 0 {
        vstd::arithmetic::div_mod::lemma_div_is_ordered(
            timer.duration as int,
            total as int,
            timer.duration as int,
        );
        vstd::arithmetic::div_mod::lemma_div_by_self(timer.duration as int);
    }
}

} // verus!
