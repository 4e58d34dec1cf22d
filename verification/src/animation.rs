//! Frame cycling for sprites, paced by a timer and keyed by facing.

use crate::timer::Timer;
use vstd::prelude::*;

verus! {

/// The four ways an entity can face.
#[derive(Clone, Copy, Debug, PartialEq, Eq, Structural)]
pub enum FacingDirection {
    Up,
    Down,
    Left,
    Right,
}

impl FacingDirection {
    /// The unit vector of this direction: x then y.
    pub open spec fn axis(self) -> (int, int) {
        match self {
            FacingDirection::Up => (0, 1),
            FacingDirection::Down => (0, -1),
            FacingDirection::Left => (-1, 0),
            FacingDirection::Right => (1, 0),
        }
    }

    /// The horizontal flip that this direction asks for, if it asks for one.
    pub open spec fn flip(self) -> Option<bool> {
        match self {
            FacingDirection::Left => Some(true),
            FacingDirection::Right => Some(false),
            _ => None,
        }
    }

    /// The unit vector of this direction: x then y.
    pub fn axis_sign(self) -> (r: (i32, i32))
        ensures
            (r.0 as int, r.1 as int) == self.axis(),
    {
        match self {
            FacingDirection::Up => (0, 1),
            FacingDirection::Down => (0, -1),
            FacingDirection::Left => (-1, 0),
            FacingDirection::Right => (1, 0),
        }
    }

    /// The horizontal flip that this direction asks for: set for left, clear
    /// for right, none for up and down.
    pub fn flip_flag(self) -> (r: Option<bool>)
        ensures
            r == self.flip(),
    {
        match self {
            FacingDirection::Left => Some(true),
            FacingDirection::Right => Some(false),
            _ => None,
        }
    }
}

/// What is drawn for an entity: a frame of its sheet, mirrored or not.
#[derive(Clone, Copy, Debug, PartialEq, Eq, Structural)]
pub struct Sprite {
    pub index: usize,
    pub flip_x: bool,
}

/// A range of frames that an animation runs through, both ends included.
#[derive(Clone, Copy, Debug, PartialEq, Eq, Structural)]
pub struct FrameBand {
    pub first: usize,
    pub last: usize,
}

impl FrameBand {
    /// The frame that follows `index`: the next one, or the band's first once
    /// the band's last is reached.
    pub open spec fn next(self, index: usize) -> usize {
        if index >= self.last {
            self.first
        } else {
            (index + 1) as usize
        }
    }

    /// The frame that follows `index`.
    pub fn advance(self, index: usize) -> (r: usize)
        ensures
            r == self.next(index),
    {
        if index >= self.last {
            self.first
        } else {
            index + 1
        }
    }
}

impl Sprite {
    /// This sprite turned to `facing`: mirrored for left, plain for right,
    /// as it was for up and down.
    pub open spec fn turned(self, facing: FacingDirection) -> Sprite {
        match facing.flip() {
            Some(flag) => Sprite { flip_x: flag, ..self },
            None => self,
        }
    }

    /// Turns the sprite to `facing`.
    pub fn turn(&mut self, facing: FacingDirection)
        ensures
            *final(self) == old(self).turned(facing),
    {
        match facing.flip_flag() {
            Some(flag) => {
                self.flip_x = flag;
            },
            None => {},
        }
    }
}

/// The timer that paces an entity's animation.
#[derive(Clone, Copy, Debug, PartialEq, Eq, Structural)]
pub struct AnimationTimer(pub Timer);

/// The sprite after an animation tick: one frame further in `band` if the
/// timer signalled, the same otherwise.
pub open spec fn cycled(sprite: Sprite, band: FrameBand, fired: bool) -> Sprite {
    if fired {
        Sprite { index: band.next(sprite.index), ..sprite }
    } else {
        sprite
    }
}

/// Ticks `timer` by `elapsed` nanoseconds and, when it signals, moves `sprite`
/// one frame on within `band`.
pub fn cycle(timer: &mut AnimationTimer, sprite: &mut Sprite, band: FrameBand, elapsed: u64)
    ensures
        *final(timer) == AnimationTimer(old(timer).0.ticked(elapsed)),
        final(timer).0@ == old(timer).0@.tick(elapsed as nat),
        *final(sprite) == cycled(*old(sprite), band, final(timer).0@.just_finished),
{
    timer.0.tick(elapsed);
    if timer.0.just_finished() {
        sprite.index = band.advance(sprite.index);
    }
}

} // verus!
