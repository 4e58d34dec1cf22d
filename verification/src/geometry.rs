//! Positions, velocities and movement deltas on the plane.

use vstd::prelude::*;

verus! {

/// Where an entity stands, in steps.
#[derive(Clone, Copy, Debug, PartialEq, Eq, Structural)]
pub struct Position {
    pub x: i32,
    pub y: i32,
}

/// A constant velocity, in steps per second.
#[derive(Clone, Copy, Debug, PartialEq, Eq, Structural)]
pub struct Velocity {
    pub x: i64,
    pub y: i64,
}

/// A movement to hand to the kinematic mover: steps per second multiplied by
/// nanoseconds, so a billionth of a step is the unit.
#[derive(Clone, Copy, Debug, PartialEq, Eq, Structural)]
pub struct Delta {
    pub x: i128,
    pub y: i128,
}

/// A movement asked of the kinematic mover for one entity.
#[derive(Clone, Copy, Debug, PartialEq, Eq, Structural)]
pub struct Movement {
    pub entity: usize,
    pub delta: Delta,
}

/// The sign of `to - from`: the direction along one axis in which `to` lies.
pub open spec fn sign_toward(from: int, to: int) -> int {
    if from < to {
        1
    } else if from > to {
        -1
    } else {
        0
    }
}

/// The way travelled at `speed` steps per second during `elapsed` nanoseconds.
pub fn displacement(speed: i32, elapsed: u64) -> (r: i128)
    ensures
        r == speed * elapsed,
        -0x8000_0000 * 0x1_0000_0000_0000_0000 <= r <= 0x8000_0000 * 0x1_0000_0000_0000_0000,
{
    assert(-0x8000_0000 * 0x1_0000_0000_0000_0000 <= speed * elapsed <= 0x8000_0000
        * 0x1_0000_0000_0000_0000) by (nonlinear_arith)
        requires
            -0x8000_0000 <= speed <= 0x8000_0000,
            0 <= elapsed <= 0x1_0000_0000_0000_0000,
    ;
    (speed as i128) * (elapsed as i128)
}

/// The direction along one axis in which `to` lies from `from`: 1, -1 or 0.
pub fn direction_toward(from: i32, to: i32) -> (r: i32)
    ensures
        r == sign_toward(from as int, to as int),
{
    if from < to {
        1
    } else if from > to {
        -1
    } else {
        0
    }
}

} // verus!
