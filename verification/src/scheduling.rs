//! The stages of a frame, their order, and the game as a whole: the world,
//! the score and the events that pass from one rule to another.
//!
//! An event is looked at once by each rule that reads its kind. The rules of
//! a stage that reads what an earlier stage has written find it in the same
//! frame; the others find it in the next.
use vstd::prelude::*;
use crate::bounds_check::{bounds_check, bounds_checked_upto};
use crate::bullet::{
    after_bullet_hits, after_shooting, bullet_hits, do_shooting, BulletHitEvent, ShootEvent,
};
use crate::collision_detection::{
    detected, enemy_bullet_collision_detection, player_bullet_collision_detection,
    player_collision_detection, CollisionEvent, Pairing,
};
use crate::effect_sprite::{
    effects_added, effects_upto, spawn_effect_sprites, update_effect_sprites, EffectSpriteEvent,
};
use crate::enemy::{deaths_upto, Death, EnemyKind};
use crate::game_manager::{
    point_update, respawn_player, scored, start_respawn_timer, Game, PlayState, PointEvent,
    GAME_RESPAWN_TIME, GAME_START_LIVES,
};
use crate::health::{
    after_health_events, after_make_dead, apply_health_changes, make_dead, HealthEvent,
};
use crate::hit_marker::{
    after_hits, after_update_hit_markers, apply_hit_marker, update_hit_markers,
};
use crate::hook::{
    after_centering, after_collisions, after_returns, after_update_hook, apply_collisions,
    center_hooked, returned_in, update_hook, HookReturnedEvent,
};
use crate::input::{fire_pressed, InputMovementEvent, InputTriggerEvent};
use crate::mine::{mine_blast, mine_body, spawn_mine, MINE_POINTS, MINE_SPAWN_TIME};
use crate::movement::{
    after_update_position, after_update_velocity, update_position, update_velocity,
};
use crate::ship::{
    after_captive_check, after_fire, after_handovers, after_invincible, after_movement_controls,
    after_update_pitch, check_dead_upto, display_hook_body, fire_controls, invincible,
    movement_controls, remove_dead_captive, ship_body, spawn_ship, update_pitch,
};
use crate::sidewinder::{
    after_reload, shoot, shoot_captured, shots_upto, sidewinder_body, sidewinder_wreck,
    spawn_sidewinder, SIDEWINDER_POINTS, SIDEWINDER_SPAWN_TIME,
};
use crate::splosion::{effect_of, show_blasts, SplosionEvent};
use crate::timer::{Timer, TimerMode};
use crate::vector::Vec3;
use crate::world::{one_hook_per_owner, Body, Entity, World};
use crate::wreck::{
    after_spawn_wrecks, blasts_upto, first_blast, spawn_wrecks, update_wrecks, wrecks_upto,
    WreckedEvent,
};
use crate::fixed::UNIT;

verus! {

/// The stages of a frame.
#[derive(Clone, Copy, Debug, PartialEq, Eq, Hash, Structural)]
pub enum GameSchedule {
    UserInput,
    EntityUpdates,
    CollisionDetection,
    DespawnEntities,
    PreDespawnEntities,
    HealthAdjust,
}

impl GameSchedule {
    /// The place of the stage in a frame, counted from zero. Health is
    /// adjusted first; then the dead are parted from what holds them and
    /// removed; then the controls are read and the bodies updated; collisions
    /// are detected last, for the frame that follows.
    pub open spec fn spec_position(self) -> nat {
        match self {
            GameSchedule::HealthAdjust => 0,
            GameSchedule::PreDespawnEntities => 1,
            GameSchedule::DespawnEntities => 2,
            GameSchedule::UserInput => 3,
            GameSchedule::EntityUpdates => 4,
            GameSchedule::CollisionDetection => 5,
        }
    }

    /// The place of the stage in a frame, counted from zero.
    pub fn position(self) -> (r: u8)
        ensures
            r == self.spec_position(),
    {
        match self {
            GameSchedule::HealthAdjust => 0,
            GameSchedule::PreDespawnEntities => 1,
            GameSchedule::DespawnEntities => 2,
            GameSchedule::UserInput => 3,
            GameSchedule::EntityUpdates => 4,
            GameSchedule::CollisionDetection => 5,
        }
    }

    /// Whether the stage runs before `other` in a frame.
    pub fn runs_before(self, other: GameSchedule) -> (r: bool)
        ensures
            r == (self.spec_position() < other.spec_position()),
    {
        self.position() < other.position()
    }
}

/// The stages of a frame, in their order.
pub fn stages() -> (r: [GameSchedule; 6])
    ensures
        forall|i: int| 0 <= i < 6 ==> (#[trigger] r[i]).spec_position() == i,
{
    [
        GameSchedule::HealthAdjust,
        GameSchedule::PreDespawnEntities,
        GameSchedule::DespawnEntities,
        GameSchedule::UserInput,
        GameSchedule::EntityUpdates,
        GameSchedule::CollisionDetection,
    ]
}

/// The game as a whole.
pub struct Simulation {
    pub world: World,
    pub game: Game,
    pub play: PlayState,
    /// Paces the coming of sidewinders.
    pub sidewinders: crate::sidewinder::SpawnTimer,
    /// Paces the coming of mines.
    pub mines: crate::mine::SpawnTimer,
    /// Losses and gains of health that are still to be applied.
    pub health: Vec<HealthEvent>,
    /// Bullets that have hit and are still to be removed.
    pub hits: Vec<BulletHitEvent>,
    /// Collisions that hooks have still to look at.
    pub collisions: Vec<CollisionEvent>,
    /// Hooks that have come home and are still to be removed.
    pub returned: Vec<HookReturnedEvent>,
    /// Shots that are still to be fired.
    pub shots: Vec<ShootEvent>,
    /// Wrecks that are still to appear.
    pub wrecks: Vec<WreckedEvent>,
    /// Blasts that are still to be shown.
    pub blasts: Vec<SplosionEvent>,
    /// Animations that are still to be started.
    pub effects: Vec<EffectSpriteEvent>,
    /// Points that are still to be added to the score.
    pub points: Vec<PointEvent>,
}

/// The game as a whole, as plain values.
pub struct SimView {
    pub bodies: Seq<Option<Body>>,
    pub game: Game,
    pub play: PlayState,
    pub sidewinders: Timer,
    pub mines: Timer,
    pub health: Seq<HealthEvent>,
    pub hits: Seq<BulletHitEvent>,
    pub collisions: Seq<CollisionEvent>,
    pub returned: Seq<HookReturnedEvent>,
    pub shots: Seq<ShootEvent>,
    pub wrecks: Seq<WreckedEvent>,
    pub blasts: Seq<SplosionEvent>,
    pub effects: Seq<EffectSpriteEvent>,
    pub points: Seq<PointEvent>,
}

/// The game after the stage in which health is adjusted: the events are
/// applied and the dead are marked.
pub open spec fn health_adjusted(s: SimView) -> SimView {
    SimView { bodies: after_make_dead(after_health_events(s.bodies, s.health)), ..s }
}

/// The game after the stage before removal: a dead captive is let go, and
/// the points won are added to the score.
pub open spec fn pre_despawned(s: SimView) -> SimView {
    SimView {
        bodies: after_captive_check(s.bodies),
        game: Game { score: scored(s.game.score, s.points), ..s.game },
        points: seq![],
        ..s
    }
}

/// The game after the stage of removal. In turn: the hook that has come
/// home goes; the bullets that have hit go and leave their marks; what has
/// left the field goes; the dead sidewinders go and leave wrecks and points;
/// the dead mines go and leave blasts and points; and the wrecks age, blast
/// and go.
pub open spec fn despawned(s: SimView, delta: u64) -> SimView {
    let hooked = after_returns(s.bodies, s.returned);
    let (shot, marks) = after_bullet_hits(hooked, s.hits);
    let fenced = bounds_checked_upto(shot, shot.len() as int);
    let (winded, dead_sidewinders) = deaths_upto(fenced, fenced.len() as int, EnemyKind::Sidewinder);
    let (mined, dead_mines) = deaths_upto(winded, winded.len() as int, EnemyKind::Mine);
    SimView {
        bodies: wrecks_upto(mined, mined.len() as int, delta),
        returned: seq![],
        hits: seq![],
        effects: s.effects + marks + dead_mines.map_values(|death: Death| mine_blast(death)),
        wrecks: s.wrecks + dead_sidewinders.map_values(|death: Death| sidewinder_wreck(death)),
        points: s.points + dead_sidewinders.map_values(
            |death: Death| PointEvent(SIDEWINDER_POINTS),
        ) + dead_mines.map_values(|death: Death| PointEvent(MINE_POINTS)),
        blasts: s.blasts + blasts_upto(mined, mined.len() as int, delta),
        ..s
    }
}

/// The game after the stage in which the controls are read. In turn: the
/// ship is steered, pitches, and fires, recalls or eats as the fire button
/// asks; and the hook that is out goes through its frame.
pub open spec fn input_read(
    s: SimView,
    triggers: Seq<InputTriggerEvent>,
    movements: Seq<InputMovementEvent>,
    delta: u64,
) -> SimView {
    let steered = after_update_pitch(after_movement_controls(s.bodies, movements), delta);
    let fired = after_fire(steered, fire_pressed(triggers));
    SimView {
        bodies: after_update_hook(fired),
        returned: s.returned + returned_in(fired),
        ..s
    }
}

/// The game after the stage in which collisions are detected: the events
/// that were pending are replaced by those of the bodies as they are now.
pub open spec fn collisions_detected(s: SimView) -> SimView {
    SimView {
        health: detected(s.bodies, Pairing::PlayerBullet).0 + detected(
            s.bodies,
            Pairing::EnemyBullet,
        ).0 + detected(s.bodies, Pairing::PlayerBody).0,
        hits: detected(s.bodies, Pairing::PlayerBullet).1 + detected(
            s.bodies,
            Pairing::EnemyBullet,
        ).1,
        collisions: detected(s.bodies, Pairing::PlayerBody).2,
        ..s
    }
}

/// The game after the stage in which the bodies are updated. In turn: the
/// bodies move, and the ship is held within its bounds; the hook that has
/// come home hands its catch to the ship; a ship whose health is spent dies,
/// and the wait for the next begins; the protection of a new ship runs on;
/// hooks catch what they have run into, and what is caught settles; the
/// sidewinders shoot, free ones first, and the shots are fired; the wrecks
/// that are due appear, each with its first blast; hits show; the animations
/// that run age and go; and the blasts that are due are handed on as
/// animations.
pub open spec fn entities_updated(s: SimView, delta: u64, gravity: Vec3) -> SimView {
    let moved = crate::ship::after_bounds_check(
        after_update_position(after_update_velocity(s.bodies, delta), delta),
    );
    let handed = after_handovers(moved, s.returned);
    let (lived, ship_wrecks) = check_dead_upto(handed, handed.len() as int);
    let died = ship_wrecks.len() > 0;
    let centred = after_centering(
        after_collisions(after_invincible(lived, delta), s.collisions),
        delta,
    );
    let reloaded = after_reload(centred, delta, false);
    let armed = after_reload(reloaded, delta, true);
    let shots = s.shots + shots_upto(centred, centred.len() as int, delta, false) + shots_upto(
        reloaded,
        reloaded.len() as int,
        delta,
        true,
    );
    let fired = if armed.len() + shots.len() < usize::MAX {
        after_shooting(armed, shots)
    } else {
        armed
    };
    let wrecks = s.wrecks + ship_wrecks;
    let room = fired.len() + wrecks.len() < usize::MAX;
    let wrecked = if room {
        after_spawn_wrecks(fired, wrecks, gravity)
    } else {
        fired
    };
    let blasts = if room {
        s.blasts + wrecks.map_values(|event: WreckedEvent| first_blast(event))
    } else {
        s.blasts
    };
    let marked = after_update_hit_markers(after_hits(wrecked, s.health), delta);
    SimView {
        bodies: effects_upto(marked, marked.len() as int, delta),
        play: if died {
            PlayState::Dead
        } else {
            s.play
        },
        game: if died {
            Game {
                respawn_timer: Timer::spec_new(
                    s.game.respawn_timer.duration,
                    s.game.respawn_timer.mode,
                ),
                ..s.game
            }
        } else {
            s.game
        },
        shots: seq![],
        wrecks: seq![],
        blasts: seq![],
        effects: s.effects + blasts.map_values(|blast: SplosionEvent| effect_of(blast)),
        ..s
    }
}

/// The game after a game has been started in it: no points, the lives of a
/// start, and the player alive with a new ship, if the world has room for it.
pub open spec fn started(s: SimView) -> SimView {
    SimView {
        game: Game::spec_new(),
        play: PlayState::Alive,
        bodies: if s.bodies.len() + 1 < usize::MAX {
            s.bodies.push(Some(ship_body())).push(
                Some(display_hook_body(Entity(s.bodies.len() as u64))),
            )
        } else {
            s.bodies
        },
        ..s
    }
}

/// The game after the wait for the next ship has gone on, where the player
/// is dead: when the wait ends the player is alive again, at the cost of a
/// life if one is left, and has a new ship if the world has room for it.
pub open spec fn respawned(s: SimView, delta: u64) -> SimView {
    if s.play == PlayState::Dead {
        let game = s.game.respawned(delta);
        if game.respawn_timer.spec_just_finished() {
            SimView {
                game,
                play: PlayState::Alive,
                bodies: if s.bodies.len() + 1 < usize::MAX {
                    s.bodies.push(Some(ship_body())).push(
                        Some(display_hook_body(Entity(s.bodies.len() as u64))),
                    )
                } else {
                    s.bodies
                },
                ..s
            }
        } else {
            SimView { game, ..s }
        }
    } else {
        s
    }
}

/// Whether `after` is `before` with the enemy that a spawn timer lets in:
/// when the timer, as it is after its tick, has just finished, one enemy of
/// the kind, entered for some draw between minus one and one; else none.
pub open spec fn entered(
    before: Seq<Option<Body>>,
    after: Seq<Option<Body>>,
    timer: Timer,
    kind: EnemyKind,
) -> bool {
    if timer.spec_just_finished() {
        exists|spawn_pos: i32|
            -UNIT <= spawn_pos < UNIT && after == before.push(
                Some(#[trigger] enemy_body(kind, spawn_pos)),
            )
    } else {
        after == before
    }
}

/// The enemy of `kind` that enters for the draw `spawn_pos`.
pub open spec fn enemy_body(kind: EnemyKind, spawn_pos: i32) -> Body {
    match kind {
        EnemyKind::Sidewinder => sidewinder_body(spawn_pos),
        EnemyKind::Mine => mine_body(spawn_pos),
    }
}

/// Whether `shown` is `bodies` with the animations that `effects` ask for,
/// each turned by a draw; or `bodies` itself where the world has no room for them.
pub open spec fn effects_shown(
    bodies: Seq<Option<Body>>,
    shown: Seq<Option<Body>>,
    effects: Seq<EffectSpriteEvent>,
    elapsed: u64,
) -> bool {
    if bodies.len() + effects.len() < usize::MAX {
        effects_added(bodies, shown, effects, elapsed)
    } else {
        shown == bodies
    }
}

/// Whether a spawn timer and the bodies have gone from `timer_before` and
/// `before` to `timer_after` and `after` as `delta` nanoseconds let them: the
/// timer ticks and lets an enemy in when it has just finished; nothing happens
/// where the world has no room.
pub open spec fn enemy_entered(
    before: Seq<Option<Body>>,
    after: Seq<Option<Body>>,
    timer_before: Timer,
    timer_after: Timer,
    delta: u64,
    kind: EnemyKind,
) -> bool {
    if before.len() < usize::MAX {
        timer_after == timer_before.ticked(delta) && entered(before, after, timer_after, kind)
    } else {
        timer_after == timer_before && after == before
    }
}

/// Whether `after` is what the stage of arrivals can make of `before`,
/// `elapsed` nanoseconds into the game. In turn: the next ship comes when its
/// wait is over; the animations that are due start, each turned by a draw; and
/// a sidewinder and a mine enter when their timers say so, each at a place
/// drawn. Where the world has no room for what is to come, it does not come.
pub open spec fn arrived(before: SimView, after: SimView, delta: u64, elapsed: u64) -> bool {
    let shipped = respawned(before, delta);
    exists|shown: Seq<Option<Body>>, winded: Seq<Option<Body>>|
        {
            &&& #[trigger] effects_shown(shipped.bodies, shown, shipped.effects, elapsed)
            &&& #[trigger] enemy_entered(
                shown,
                winded,
                shipped.sidewinders,
                after.sidewinders,
                delta,
                EnemyKind::Sidewinder,
            )
            &&& enemy_entered(
                winded,
                after.bodies,
                shipped.mines,
                after.mines,
                delta,
                EnemyKind::Mine,
            )
            &&& after == (SimView {
                bodies: after.bodies,
                sidewinders: after.sidewinders,
                mines: after.mines,
                effects: seq![],
                ..shipped
            })
        }
}

/// Whether `after` is what a frame can make of `before`: the stages in
/// their order, with the arrivals at the end of the stage that updates the
/// bodies.
pub open spec fn frame_of(
    before: SimView,
    after: SimView,
    triggers: Seq<InputTriggerEvent>,
    movements: Seq<InputMovementEvent>,
    delta: u64,
    elapsed: u64,
    gravity: Vec3,
) -> bool {
    exists|come: SimView| #[trigger]
        arrived(
            entities_updated(
                input_read(
                    despawned(pre_despawned(health_adjusted(before)), delta),
                    triggers,
                    movements,
                    delta,
                ),
                delta,
                gravity,
            ),
            come,
            delta,
            elapsed,
        ) && after == collisions_detected(come)
}

impl Simulation {
    /// A game at its start: an empty world, the player alive with a ship
    /// still to come, and no event pending.
    pub fn new() -> (r: Self)
        ensures
            r.wf(),
            r@ == (SimView {
                bodies: seq![],
                game: Game::spec_new(),
                play: PlayState::NotInGame,
                sidewinders: Timer::spec_new(SIDEWINDER_SPAWN_TIME, TimerMode::Repeating),
                mines: Timer::spec_new(MINE_SPAWN_TIME, TimerMode::Repeating),
                health: seq![],
                hits: seq![],
                collisions: seq![],
                returned: seq![],
                shots: seq![],
                wrecks: seq![],
                blasts: seq![],
                effects: seq![],
                points: seq![],
            }),
    {
        Simulation {
            world: World::new(),
            game: Game {
                score: 0,
                lives: GAME_START_LIVES,
                respawn_timer: Timer::new(GAME_RESPAWN_TIME, TimerMode::Once),
            },
            play: PlayState::NotInGame,
            sidewinders: crate::sidewinder::SpawnTimer(
                Timer::new(SIDEWINDER_SPAWN_TIME, TimerMode::Repeating),
            ),
            mines: crate::mine::SpawnTimer(Timer::new(MINE_SPAWN_TIME, TimerMode::Repeating)),
            health: Vec::new(),
            hits: Vec::new(),
            collisions: Vec::new(),
            returned: Vec::new(),
            shots: Vec::new(),
            wrecks: Vec::new(),
            blasts: Vec::new(),
            effects: Vec::new(),
            points: Vec::new(),
        }
    }

    /// Starts a game: see [`started`].
    pub fn start(&mut self)
        requires
            old(self).wf(),
        ensures
            final(self).wf(),
            final(self)@ == started(old(self)@),
    {
        let (game, play) = crate::game_manager::init_game();
        self.game = game;
        self.play = play;
        if self.world.len() < usize::MAX - 1 {
            spawn_ship(&mut self.world);
        }
    }

    /// Updates the bodies: see [`entities_updated`].
    pub fn entity_updates(&mut self, delta: u64, gravity: Vec3)
        requires
            old(self).wf(),
        ensures
            final(self).wf(),
            final(self)@ == entities_updated(old(self)@, delta, gravity),
    {
        let ghost before = self@;
        update_velocity(&mut self.world, delta);
        update_position(&mut self.world, delta);
        crate::ship::bounds_check(&mut self.world);
        crate::ship::retrieve_hook(&mut self.world, &self.returned);
        let died: bool = crate::ship::check_dead(&mut self.world, &mut self.wrecks);
        if died {
            self.play = PlayState::Dead;
            start_respawn_timer(&mut self.game);
        }
        invincible(&mut self.world, delta);
        apply_collisions(&mut self.world, &self.collisions);
        center_hooked(&mut self.world, delta);
        shoot(&mut self.world, delta, &mut self.shots);
        shoot_captured(&mut self.world, delta, &mut self.shots);
        if self.shots.len() < usize::MAX - self.world.len() {
            do_shooting(&mut self.world, &self.shots);
        }
        self.shots.clear();
        if self.wrecks.len() < usize::MAX - self.world.len() {
            spawn_wrecks(&mut self.world, &self.wrecks, gravity, &mut self.blasts);
        }
        self.wrecks.clear();
        apply_hit_marker(&mut self.world, &self.health);
        update_hit_markers(&mut self.world, delta);
        update_effect_sprites(&mut self.world, delta);
        show_blasts(&self.blasts, &mut self.effects);
        self.blasts.clear();
        proof {
            let target = entities_updated(before, delta, gravity);
            assert(self.effects@ =~= target.effects);
            assert(self@ =~= target);
        }
    }

    /// Lets what is due arrive: see [`arrived`].
    pub fn arrivals(&mut self, delta: u64, elapsed: u64)
        requires
            old(self).wf(),
        ensures
            final(self).wf(),
            arrived(old(self)@, final(self)@, delta, elapsed),
    {
        let ghost before = self@;
        match self.play {
            PlayState::Dead => {
                if respawn_player(&mut self.game, delta) {
                    self.play = PlayState::Alive;
                    if self.world.len() < usize::MAX - 1 {
                        spawn_ship(&mut self.world);
                    }
                }
            },
            _ => {},
        }
        let ghost shipped = self@;
        assert(shipped == respawned(before, delta));
        if self.effects.len() < usize::MAX - self.world.len() {
            spawn_effect_sprites(&mut self.world, &self.effects, elapsed);
        }
        self.effects.clear();
        let ghost shown = self.world@;
        if self.world.len() < usize::MAX {
            let spawned: Option<Entity> = spawn_sidewinder(&mut self.world, &mut self.sidewinders, delta);
        }
        let ghost winded = self.world@;
        assert(shown.len() < usize::MAX ==> entered(
            shown,
            winded,
            self.sidewinders.0,
            EnemyKind::Sidewinder,
        )) by {
            if shown.len() < usize::MAX && self.sidewinders.0.spec_just_finished() {
                let pos = choose|spawn_pos: i32|
                    -UNIT <= spawn_pos < UNIT && winded == shown.push(
                        Some(#[trigger] sidewinder_body(spawn_pos)),
                    );
                assert(enemy_body(EnemyKind::Sidewinder, pos) == sidewinder_body(pos));
            }
        }
        if self.world.len() < usize::MAX {
            let spawned: Option<Entity> = spawn_mine(&mut self.world, &mut self.mines, delta);
        }
        assert(winded.len() < usize::MAX ==> entered(
            winded,
            self.world@,
            self.mines.0,
            EnemyKind::Mine,
        )) by {
            if winded.len() < usize::MAX && self.mines.0.spec_just_finished() {
                let pos = choose|spawn_pos: i32|
                    -UNIT <= spawn_pos < UNIT && self.world@ == winded.push(
                        Some(#[trigger] mine_body(spawn_pos)),
                    );
                assert(enemy_body(EnemyKind::Mine, pos) == mine_body(pos));
            }
        }
        proof {
            assert(self@ =~= (SimView {
                bodies: self@.bodies,
                sidewinders: self@.sidewinders,
                mines: self@.mines,
                effects: seq![],
                ..shipped
            }));
            assert(effects_shown(shipped.bodies, shown, shipped.effects, elapsed));
            assert(enemy_entered(
                shown,
                winded,
                shipped.sidewinders,
                self@.sidewinders,
                delta,
                EnemyKind::Sidewinder,
            ));
            assert(enemy_entered(
                winded,
                self@.bodies,
                shipped.mines,
                self@.mines,
                delta,
                EnemyKind::Mine,
            ));
        }
    }

    /// Takes the game through one frame: see [`frame_of`].
    pub fn frame(
        &mut self,
        triggers: &Vec<InputTriggerEvent>,
        movements: &Vec<InputMovementEvent>,
        delta: u64,
        elapsed: u64,
        gravity: Vec3,
    )
        requires
            old(self).wf(),
        ensures
            final(self).wf(),
            one_hook_per_owner(final(self)@.bodies),
            frame_of(old(self)@, final(self)@, triggers@, movements@, delta, elapsed, gravity),
    {
        self.health_adjust();
        self.pre_despawn();
        self.despawn(delta);
        self.user_input(triggers, movements, delta);
        self.entity_updates(delta, gravity);
        let ghost updated = self@;
        self.arrivals(delta, elapsed);
        let ghost come = self@;
        self.collision_detection();
        assert(arrived(updated, come, delta, elapsed));
    }

    /// The game as plain values.
    pub open spec fn view(&self) -> SimView {
        SimView {
            bodies: self.world@,
            game: self.game,
            play: self.play,
            sidewinders: self.sidewinders.0,
            mines: self.mines.0,
            health: self.health@,
            hits: self.hits@,
            collisions: self.collisions@,
            returned: self.returned@,
            shots: self.shots@,
            wrecks: self.wrecks@,
            blasts: self.blasts@,
            effects: self.effects@,
            points: self.points@,
        }
    }

    /// Whether the game is well-formed: its world is.
    pub open spec fn wf(&self) -> bool {
        self.world.wf()
    }

    /// Adjusts health: see [`health_adjusted`].
    pub fn health_adjust(&mut self)
        requires
            old(self).wf(),
        ensures
            final(self).wf(),
            final(self)@ == health_adjusted(old(self)@),
    {
        apply_health_changes(&mut self.world, &self.health);
        make_dead(&mut self.world);
    }

    /// Prepares removal: see [`pre_despawned`].
    pub fn pre_despawn(&mut self)
        requires
            old(self).wf(),
        ensures
            final(self).wf(),
            final(self)@ == pre_despawned(old(self)@),
    {
        remove_dead_captive(&mut self.world);
        point_update(&mut self.game, &self.points);
        self.points.clear();
    }

    /// Removes what has to go: see [`despawned`].
    pub fn despawn(&mut self, delta: u64)
        requires
            old(self).wf(),
        ensures
            final(self).wf(),
            final(self)@ == despawned(old(self)@, delta),
    {
        crate::hook::retrieve_hook(&mut self.world, &self.returned);
        self.returned.clear();
        bullet_hits(&mut self.world, &self.hits, &mut self.effects);
        self.hits.clear();
        bounds_check(&mut self.world);
        crate::sidewinder::check_dead(&mut self.world, &mut self.wrecks, &mut self.points);
        crate::mine::check_dead(&mut self.world, &mut self.effects, &mut self.points);
        update_wrecks(&mut self.world, delta, &mut self.blasts);
    }

    /// Reads the controls: see [`input_read`].
    pub fn user_input(
        &mut self,
        triggers: &Vec<InputTriggerEvent>,
        movements: &Vec<InputMovementEvent>,
        delta: u64,
    )
        requires
            old(self).wf(),
        ensures
            final(self).wf(),
            final(self)@ == input_read(old(self)@, triggers@, movements@, delta),
    {
        movement_controls(&mut self.world, movements);
        update_pitch(&mut self.world, delta);
        fire_controls(&mut self.world, triggers);
        update_hook(&mut self.world, &mut self.returned);
    }

    /// Detects collisions: see [`collisions_detected`].
    pub fn collision_detection(&mut self)
        requires
            old(self).wf(),
        ensures
            final(self).wf(),
            final(self)@ == collisions_detected(old(self)@),
    {
        self.health.clear();
        self.hits.clear();
        self.collisions.clear();
        player_bullet_collision_detection(&self.world, &mut self.health, &mut self.hits);
        enemy_bullet_collision_detection(&self.world, &mut self.health, &mut self.hits);
        player_collision_detection(&self.world, &mut self.health, &mut self.collisions);
        proof {
            assert(final(self).health@ =~= collisions_detected(old(self)@).health);
            assert(final(self).hits@ =~= collisions_detected(old(self)@).hits);
            assert(final(self).collisions@ =~= collisions_detected(old(self)@).collisions);
        }
    }
}

} // verus!
