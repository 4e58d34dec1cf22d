//! Casting: the cooldown of the player and the launch of a projectile.

use crate::animation::{FacingDirection, FrameBand};
use crate::character_stats::UNIT;
use crate::geometry::{Position, Velocity};
use crate::player::Player;
use crate::timer::Timer;
use vstd::prelude::*;

verus! {

/// What one hit of a fireball takes from a character's health, in steps.
pub const FIREBALL_DAMAGE: u32 = 10000;

/// How far in front of a caster facing left or right a fireball starts.
pub const REACH_X: i32 = 18 * UNIT;

/// How far in front of a caster facing up or down a fireball starts.
pub const REACH_Y: i32 = 22 * UNIT;

/// The frame on which a fireball's animation wraps around.
pub const LAST_FIRE_FRAME: usize = 8;

/// The frame that a fireball's animation wraps around to.
pub const FIRST_FIRE_FRAME: usize = 5;

/// Nanoseconds between two frames of any animation.
pub const FRAME_TIME: u64 = 100_000_000;

/// Nanoseconds after which a used cast is available again, and length of the
/// grace timer that a fireball carries.
pub const COOLDOWN_TIME: u64 = 2_000_000_000;

/// The frames that a fireball cycles through once it has run in.
pub open spec fn fire_band() -> FrameBand {
    FrameBand { first: FIRST_FIRE_FRAME, last: LAST_FIRE_FRAME }
}

/// A timer that gates an action: the player's cast, or a fireball's grace.
#[derive(Clone, Copy, Debug, PartialEq, Eq, Structural)]
pub struct Cooldown(pub Timer);

/// Where and how a projectile sets out.
#[derive(Clone, Copy, Debug, PartialEq, Eq, Structural)]
pub struct Launch {
    /// Starting point, in steps.
    pub x: i64,
    pub y: i64,
    /// Turn of the picture about the z axis, in thousandths of a radian.
    pub rotation: i32,
    /// Signed speed along the axis of flight, in steps per second.
    pub speed: i64,
    /// The way the caster faced.
    pub facing: FacingDirection,
}

/// The turn of a fireball's picture for each facing.
pub open spec fn rotation_of(facing: FacingDirection) -> int {
    match facing {
        FacingDirection::Up => 0,
        FacingDirection::Down => 3140,
        FacingDirection::Left => 1570,
        FacingDirection::Right => -1570,
    }
}

/// The launch of a projectile by a caster at `origin` who faces `facing`: it
/// starts in front of the caster, further off along y than along x, and flies
/// at `spell_speed` away from the caster.
pub open spec fn launched(origin: Position, facing: FacingDirection, spell_speed: i32) -> Launch {
    Launch {
        x: (origin.x + facing.axis().0 * REACH_X) as i64,
        y: (origin.y + facing.axis().1 * REACH_Y) as i64,
        rotation: rotation_of(facing) as i32,
        speed: ((facing.axis().0 + facing.axis().1) * spell_speed) as i64,
        facing,
    }
}

/// The velocity of a projectile that flies at the signed `speed` along the
/// axis of `facing`.
pub open spec fn velocity_of(facing: FacingDirection, speed: i64) -> Velocity {
    match facing {
        FacingDirection::Up | FacingDirection::Down => Velocity { x: 0, y: speed },
        FacingDirection::Left | FacingDirection::Right => Velocity { x: speed, y: 0 },
    }
}

/// Computes where and how a projectile sets out from a caster at `origin`.
pub fn launch(origin: Position, facing: FacingDirection, spell_speed: i32) -> (r: Launch)
    ensures
        r == launched(origin, facing, spell_speed),
{
    let x = origin.x as i64;
    let y = origin.y as i64;
    let s = spell_speed as i64;
    proof {
        let (ax, ay) = facing.axis();
        assert((ax + ay) * spell_speed == if ax + ay == 1 {
            spell_speed as int
        } else {
            -spell_speed
        }) by (nonlinear_arith)
            requires
                ax + ay == 1 || ax + ay == -1,
        ;
    }
    match facing {
        FacingDirection::Up => Launch { x, y: y + REACH_Y as i64, rotation: 0, speed: s, facing },
        FacingDirection::Down => Launch {
            x,
            y: y - REACH_Y as i64,
            rotation: 3140,
            speed: -s,
            facing,
        },
        FacingDirection::Left => Launch {
            x: x - REACH_X as i64,
            y,
            rotation: 1570,
            speed: -s,
            facing,
        },
        FacingDirection::Right => Launch {
            x: x + REACH_X as i64,
            y,
            rotation: -1570,
            speed: s,
            facing,
        },
    }
}

/// The velocity of a projectile that flies at the signed `speed` along the
/// axis of `facing`.
pub fn velocity(facing: FacingDirection, speed: i64) -> (r: Velocity)
    ensures
        r == velocity_of(facing, speed),
{
    match facing {
        FacingDirection::Up | FacingDirection::Down => Velocity { x: 0, y: speed },
        FacingDirection::Left | FacingDirection::Right => Velocity { x: speed, y: 0 },
    }
}

/// Ticks the player's cooldown by `elapsed` nanoseconds; when it signals, the
/// cast is available again.
pub fn recharge(player: &mut Player, cooldown: &mut Cooldown, elapsed: u64)
    ensures
        *final(cooldown) == Cooldown(old(cooldown).0.ticked(elapsed)),
        final(cooldown).0@ == old(cooldown).0@.tick(elapsed as nat),
        *final(player) == old(player).recharged(final(cooldown).0@.just_finished),
{
    cooldown.0.tick(elapsed);
    if cooldown.0.just_finished() {
        player.can_recast = true;
    }
}

} // verus!
