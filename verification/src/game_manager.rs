//! Score, lives and the state of play.
use vstd::prelude::*;
use crate::timer::{Timer, TimerMode};

verus! {

pub const GAME_START_LIVES: u32 = 2;

/// Nanoseconds between a ship's death and the next ship.
pub const GAME_RESPAWN_TIME: u64 = 4_000_000_000;

/// Points won.
#[derive(Clone, Copy, Debug, PartialEq, Eq)]
pub struct PointEvent(pub u64);

/// Whether a game runs, and whether the player has a ship in it.
#[derive(Clone, Copy, Debug, PartialEq, Eq, Hash, Structural)]
pub enum PlayState {
    NotInGame,
    Dead,
    Alive,
}

impl Default for PlayState {
    fn default() -> (r: Self)
        ensures
            r == PlayState::NotInGame,
    {
        PlayState::NotInGame
    }
}

/// A game in progress.
#[derive(Clone, Copy, Debug, PartialEq, Eq)]
pub struct Game {
    pub score: u64,
    pub lives: u32,
    pub respawn_timer: Timer,
}

/// The score after `points` more, which `events` name in turn; it stops at
/// the largest number it can hold.
pub open spec fn scored(score: u64, events: Seq<PointEvent>) -> u64
    decreases events.len(),
{
    if events.len() == 0 {
        score
    } else {
        crate::timer::saturating_sum(scored(score, events.drop_last()), events.last().0)
    }
}

impl Game {
    /// A game at its start.
    pub open spec fn spec_new() -> Game {
        Game {
            score: 0,
            lives: GAME_START_LIVES,
            respawn_timer: Timer::spec_new(GAME_RESPAWN_TIME, TimerMode::Once),
        }
    }

    /// The game after the wait for the next ship has gone on for `delta`
    /// nanoseconds: when the wait ends, a life is spent if one is left.
    pub open spec fn respawned(self, delta: u64) -> Game {
        let timer = self.respawn_timer.ticked(delta);
        Game {
            respawn_timer: timer,
            lives: if timer.spec_just_finished() && self.lives > 0 {
                (self.lives - 1) as u32
            } else {
                self.lives
            },
            ..self
        }
    }
}

/// Starts a game: no points, the lives of a start, and the player alive.
pub fn init_game() -> (r: (Game, PlayState))
    ensures
        r.0 == Game::spec_new(),
        r.1 == PlayState::Alive,
{
    (
        Game {
            score: 0,
            lives: GAME_START_LIVES,
            respawn_timer: Timer::new(GAME_RESPAWN_TIME, TimerMode::Once),
        },
        PlayState::Alive,
    )
}

/// Adds the points won to the score.
pub fn point_update(game: &mut Game, events: &Vec<PointEvent>)
    ensures
        *final(game) == (Game { score: scored(old(game).score, events@), ..*old(game) }),
{
    let ghost before = *game;
    let n: usize = events.len();
    let mut k: usize = 0;
    assert(events@.take(0) =~= Seq::<PointEvent>::empty());
    while k < n
        invariant
            n == events@.len(),
            k <= n,
            *game == (Game { score: scored(before.score, events@.take(k as int)), ..before }),
        decreases n - k,
    {
        proof {
            assert(events@.take(k + 1).drop_last() =~= events@.take(k as int));
        }
        let points: u64 = events[k].0;
        game.score = if game.score > u64::MAX - points {
            u64::MAX
        } else {
            game.score + points
        };
        k += 1;
    }
    assert(events@.take(n as int) =~= events@);
}

/// Starts the wait for the next ship.
pub fn start_respawn_timer(game: &mut Game)
    ensures
        *final(game) == (Game {
            respawn_timer: Timer::spec_new(
                old(game).respawn_timer.duration,
                old(game).respawn_timer.mode,
            ),
            ..*old(game)
        }),
{
    game.respawn_timer.reset();
}

/// Lets the wait for the next ship go on for `delta` nanoseconds, while the
/// player is dead; says whether the wait has ended and the player is alive again.
pub fn respawn_player(game: &mut Game, delta: u64) -> (alive: bool)
    ensures
        *final(game) == old(game).respawned(delta),
        alive == old(game).respawn_timer.ticked(delta).spec_just_finished(),
{
    game.respawn_timer.tick(delta);
    if game.respawn_timer.just_finished() {
        if game.lives > 0 {
            game.lives = game.lives - 1;
        }
        true
    } else {
        false
    }
}

} // verus!
