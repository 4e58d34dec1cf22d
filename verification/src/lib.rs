//! Gameplay-simulation core of a real-time action game.
//!
//! The crate holds the rules of the game and nothing of its presentation: a
//! countdown timer, the per-entity statistics, an enemy that wanders or
//! pursues, a player that walks and casts, projectiles that are removed on
//! contact, and a health bar that loses segments as health drops. All
//! quantities are integers: time is counted in nanoseconds and lengths in
//! fixed-point steps, so that every rule can be stated exactly.

pub mod animation;
pub mod character_stats;
pub mod contact;
pub mod enemy;
pub mod frame;
pub mod geometry;
pub mod health;
pub mod player;
pub mod projectile;
mod random;
pub mod skills;
pub mod timer;
pub mod world;
