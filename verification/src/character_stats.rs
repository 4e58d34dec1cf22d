//! Per-entity statistics: health, damage and walking speed.
//!
//! All of them are fixed-point numbers with [`UNIT`] steps to one whole.

use vstd::prelude::*;

verus! {

/// Number of fixed-point steps that make up one whole unit.
pub const UNIT: i32 = 1000;

/// What one hit of a projectile takes from a character's health, in steps.
#[derive(Clone, Copy, Debug, PartialEq, Eq, Structural)]
pub struct Damage(pub u32);

/// A character's current health, in steps. Damage may drive it below zero.
#[derive(Clone, Copy, Debug, PartialEq, Eq, Structural)]
pub struct Health(pub i32);

/// The health that a character starts with, in steps.
#[derive(Clone, Copy, Debug, PartialEq, Eq, Structural)]
pub struct MaxHealth(pub u32);

/// Speed of a pursuing character, in steps per second along each axis.
#[derive(Clone, Copy, Debug, PartialEq, Eq, Structural)]
pub struct WalkSpeed(pub i32);

impl Health {
    /// The health that is left once `total` steps of damage are taken away.
    pub open spec fn less(self, total: int) -> int {
        self.0 - total
    }

    /// Whether a character with this health is to be destroyed.
    pub open spec fn spent(self) -> bool {
        self.0 <= 0
    }

    /// The health left after one hit of `damage`.
    pub fn after_hit(self, damage: Damage) -> (r: i64)
        ensures
            r == self.less(damage.0 as int),
    {
        self.0 as i64 - damage.0 as i64
    }

    /// Whether a character with this health is to be destroyed.
    pub fn is_spent(self) -> (r: bool)
        ensures
            r == self.spent(),
    {
        self.0 <= 0
    }
}

} // verus!
