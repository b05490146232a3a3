//! Game rules of a small arcade shooter, in fixed-point arithmetic.
//!
//! The centre piece is the grappling hook: a projectile that flies out, turns
//! back, may catch a target on the way and hands it to the ship that fired it.
//! Lengths, speeds and health are counted in thousandths of a world unit,
//! angles in thousandths of a radian, time in nanoseconds.
//!
//! Each module holds the parts of one concern and the rules that act on them.
//! A rule comes in two forms: a function on the parts themselves, for a host
//! that keeps the bodies in a store of its own, and a function on a [`world::World`]
//! that applies the rule to every body it concerns. [`scheduling::Simulation`]
//! holds a world with the score and the pending events, and takes the whole
//! game through a frame, stage by stage.
//!
//! Turning a body by an angle, and the sine of a phase, are left to the host.
pub mod actions;
pub mod ai;
pub mod asset_loader;
pub mod bounds_check;
pub mod bullet;
pub mod collision_detection;
pub mod dropship;
pub mod effect_sprite;
pub mod enemy;
pub mod fixed;
pub mod game_manager;
pub mod health;
pub mod health_bars;
pub mod hit_marker;
pub mod hook;
pub mod input;
pub mod mine;
pub mod movement;
pub mod ordering;
mod random;
pub mod scheduling;
pub mod ship;
pub mod sidewinder;
pub mod splosion;
pub mod state;
pub mod timer;
pub mod vector;
pub mod world;
pub mod wreck;
