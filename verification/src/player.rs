//! The player: walking, facing, idling and casting.

pub use crate::animation::FacingDirection;
use crate::animation::{cycle, cycled, AnimationTimer, FrameBand, Sprite};
use crate::character_stats::UNIT;
use crate::geometry::{displacement, Delta, Movement, Position};
use crate::skills::{recharge, Cooldown, COOLDOWN_TIME, FRAME_TIME};
use crate::timer::{Timer, TimerMode};
use crate::world::{each, each_below, gathered, well_formed, Components, World};
use vstd::prelude::*;

verus! {

/// The frame that an idle player rests on.
pub const REST_FRAME: usize = 88;

/// The last frame of the player's walking animation.
pub const LAST_WALK_FRAME: usize = 95;

/// The speed at which the player walks, in steps per second.
pub const PLAYER_SPEED: i32 = 50 * UNIT;

/// The speed of the player's projectiles, in steps per second.
pub const SPELL_SPEED: i32 = 150 * UNIT;

/// The frames that a walking player runs through.
pub open spec fn walk_band() -> FrameBand {
    FrameBand { first: REST_FRAME, last: LAST_WALK_FRAME }
}

/// The state of the keys that the player is steered with, as of this tick.
#[derive(Clone, Copy, Debug, PartialEq, Eq, Structural)]
pub struct Keyboard {
    pub up_pressed: bool,
    pub down_pressed: bool,
    pub left_pressed: bool,
    pub right_pressed: bool,
    pub up_released: bool,
    pub down_released: bool,
    pub left_released: bool,
    pub right_released: bool,
    /// The action key went up during this tick: a cast is asked for.
    pub action_released: bool,
}

impl Keyboard {
    /// Some directional key is held down.
    pub open spec fn any_pressed(self) -> bool {
        self.up_pressed || self.down_pressed || self.left_pressed || self.right_pressed
    }

    /// Some directional key went up during this tick.
    pub open spec fn any_released(self) -> bool {
        self.up_released || self.down_released || self.left_released || self.right_released
    }

    /// The direction steered along the x axis: right wins over left.
    pub open spec fn steer_x(self) -> int {
        if self.right_pressed {
            1
        } else if self.left_pressed {
            -1
        } else {
            0
        }
    }

    /// The direction steered along the y axis: down wins over up.
    pub open spec fn steer_y(self) -> int {
        if self.down_pressed {
            -1
        } else if self.up_pressed {
            1
        } else {
            0
        }
    }

    /// The facing that the held keys ask for, if any is held: right, left,
    /// down, up, in this order of precedence.
    pub open spec fn steer_facing(self) -> Option<FacingDirection> {
        if self.right_pressed {
            Some(FacingDirection::Right)
        } else if self.left_pressed {
            Some(FacingDirection::Left)
        } else if self.down_pressed {
            Some(FacingDirection::Down)
        } else if self.up_pressed {
            Some(FacingDirection::Up)
        } else {
            None
        }
    }
}

/// The player's own state.
#[derive(Clone, Copy, Debug, PartialEq, Eq, Structural)]
pub struct Player {
    /// Walking speed, in steps per second.
    pub speed: i32,
    pub facing_direction: FacingDirection,
    pub idle: bool,
    /// Whether a cast is available.
    pub can_recast: bool,
    /// Speed of the projectiles that the player casts, in steps per second.
    pub spell_speed: i32,
}

impl Player {
    /// The player after the keys of one tick were read.
    ///
    /// A released directional key makes the player idle, a held one makes it
    /// busy again, and the facing follows the held keys.
    pub open spec fn steered(self, keys: Keyboard) -> Player {
        Player {
            idle: if keys.any_pressed() {
                false
            } else if keys.any_released() {
                true
            } else {
                self.idle
            },
            facing_direction: match keys.steer_facing() {
                Some(facing) => facing,
                None => self.facing_direction,
            },
            ..self
        }
    }

    /// The movement that the keys of one tick ask for: none while no key is
    /// held, else the speed times the elapsed time along each steered axis.
    pub open spec fn stride(self, keys: Keyboard, elapsed: u64) -> Option<Delta> {
        if keys.any_pressed() {
            Some(
                Delta {
                    x: (keys.steer_x() * (self.speed * elapsed)) as i128,
                    y: (keys.steer_y() * (self.speed * elapsed)) as i128,
                },
            )
        } else {
            None
        }
    }

    /// Reads the keys of one tick: updates idleness and facing and returns the
    /// movement to hand to the kinematic mover.
    pub fn steer(&mut self, keys: &Keyboard, elapsed: u64) -> (r: Option<Delta>)
        ensures
            *final(self) == old(self).steered(*keys),
            r == old(self).stride(*keys, elapsed),
    {
        if keys.up_released || keys.down_released || keys.left_released || keys.right_released {
            self.idle = true;
        }
        let pressed = keys.up_pressed || keys.down_pressed || keys.left_pressed
            || keys.right_pressed;
        if !pressed {
            return None;
        }
        self.idle = false;
        let way = displacement(self.speed, elapsed);
        let mut delta = Delta { x: 0, y: 0 };
        if keys.up_pressed {
            self.facing_direction = FacingDirection::Up;
            delta.y = way;
        }
        if keys.down_pressed {
            self.facing_direction = FacingDirection::Down;
            delta.y = -way;
        }
        if keys.left_pressed {
            self.facing_direction = FacingDirection::Left;
            delta.x = -way;
        }
        if keys.right_pressed {
            self.facing_direction = FacingDirection::Right;
            delta.x = way;
        }
        proof {
            let w = old(self).speed * elapsed;
            let sx = keys.steer_x();
            let sy = keys.steer_y();
            assert(sx * w == delta.x) by (nonlinear_arith)
                requires
                    (sx == 1 && delta.x == w) || (sx == -1 && delta.x == -w) || (sx == 0
                        && delta.x == 0),
            ;
            assert(sy * w == delta.y) by (nonlinear_arith)
                requires
                    (sy == 1 && delta.y == w) || (sy == -1 && delta.y == -w) || (sy == 0
                        && delta.y == 0),
            ;
        }
        Some(delta)
    }

    /// The player after a cast was asked for or not: a cast that goes through
    /// uses up the availability.
    pub open spec fn after_cast(self, asked: bool) -> Player {
        Player { can_recast: self.can_recast && !asked, ..self }
    }

    /// Whether a cast that is asked for goes through.
    pub open spec fn casts(self, asked: bool) -> bool {
        asked && self.can_recast
    }

    /// Handles the action key: returns whether a projectile is to be spawned,
    /// and uses up the availability if so.
    pub fn cast(&mut self, asked: bool) -> (r: bool)
        ensures
            r == old(self).casts(asked),
            *final(self) == old(self).after_cast(asked),
    {
        if asked && self.can_recast {
            self.can_recast = false;
            true
        } else {
            false
        }
    }

    /// The player after its cooldown timer ticked: a signal of the timer makes
    /// the cast available again.
    pub open spec fn recharged(self, fired: bool) -> Player {
        Player { can_recast: self.can_recast || fired, ..self }
    }

    /// The sprite of a player: pinned to the rest frame while idle.
    pub open spec fn rested(self, sprite: Sprite) -> Sprite {
        if self.idle {
            Sprite { index: REST_FRAME, ..sprite }
        } else {
            sprite
        }
    }
}

/// The player after the cooldown passes that `fired` stands for, one entry
/// for each pass: whether the timer signalled in it.
pub open spec fn after_cooldowns(player: Player, fired: Seq<bool>, k: nat) -> Player
    decreases k,
{
    if k == 0 || k > fired.len() {
        player
    } else {
        after_cooldowns(player, fired, (k - 1) as nat).recharged(fired[k - 1])
    }
}

/// A used cast comes back with the cooldown and not before.
///
/// A cast that goes through leaves no cast available. From then on the cast
/// is available again exactly once some cooldown pass has found the timer
/// signalling; until then a cast that is asked for does not go through and
/// changes nothing.
pub proof fn lemma_cast_returns_with_cooldown(player: Player, fired: Seq<bool>, k: nat)
    requires
        player.casts(true),
        k <= fired.len(),
    ensures
        !player.after_cast(true).can_recast,
        after_cooldowns(player.after_cast(true), fired, k).can_recast <==> exists|j: int|
            0 <= j < k && fired[j],
        !after_cooldowns(player.after_cast(true), fired, k).can_recast ==> {
            let waiting = after_cooldowns(player.after_cast(true), fired, k);
            !waiting.casts(true) && waiting.after_cast(true) == waiting
        },
    decreases k,
{
    if k > 0 {
        lemma_cast_returns_with_cooldown(player, fired, (k - 1) as nat);
    }
}

/// What the newly spawned player owns: it stands at the origin, faces right,
/// is idle and may cast.
pub open spec fn dungeon_player() -> Components {
    Components {
        position: Some(Position { x: 0, y: 0 }),
        sprite: Some(Sprite { index: 0, flip_x: false }),
        kinematic: true,
        player: Some(
            Player {
                speed: PLAYER_SPEED,
                facing_direction: FacingDirection::Right,
                idle: true,
                can_recast: true,
                spell_speed: SPELL_SPEED,
            },
        ),
        animation: Some(AnimationTimer(Timer::fresh(FRAME_TIME, TimerMode::Repeating))),
        cooldown: Some(Cooldown(Timer::fresh(COOLDOWN_TIME, TimerMode::Repeating))),
        ..Components::bare()
    }
}

/// What the camera owns that follows `owner`.
pub open spec fn camera_of(owner: usize) -> Components {
    Components { parent: Some(owner), camera: true, ..Components::bare() }
}

/// Spawns the player with the camera that follows it, and returns the
/// player's identity; the camera's is the next.
pub fn spawn_dungeon_player(world: &mut World) -> (id: usize)
    ensures
        id == old(world)@.len(),
        final(world)@ == old(world)@.push(Some(dungeon_player())).push(Some(camera_of(id))),
        well_formed(final(world)@),
{
    let mut body = Components::empty();
    body.position = Some(Position { x: 0, y: 0 });
    body.sprite = Some(Sprite { index: 0, flip_x: false });
    body.kinematic = true;
    body.player = Some(
        Player {
            speed: PLAYER_SPEED,
            facing_direction: FacingDirection::Right,
            idle: true,
            can_recast: true,
            spell_speed: SPELL_SPEED,
        },
    );
    body.animation = Some(AnimationTimer(Timer::started(FRAME_TIME, TimerMode::Repeating)));
    body.cooldown = Some(Cooldown(Timer::started(COOLDOWN_TIME, TimerMode::Repeating)));
    let id = world.len();
    world.spawn(body);
    let mut camera = Components::empty();
    camera.parent = Some(id);
    camera.camera = true;
    world.spawn(camera);
    id
}

/// What an entity owns after the idle pass: a player that idles shows the
/// rest frame.
pub open spec fn idled(c: Components) -> Components {
    match (c.player, c.sprite) {
        (Some(player), Some(sprite)) => Components { sprite: Some(player.rested(sprite)), ..c },
        _ => c,
    }
}

/// The idle pass: pins the picture of every idle player to the rest frame.
pub fn handle_idle(world: &mut World)
    ensures
        final(world)@ == each(old(world)@, |c: Components| idled(c)),
        well_formed(final(world)@),
{
    let n = world.len();
    let ghost s = world@;
    let ghost f = |c: Components| idled(c);
    let mut i: usize = 0;
    while i < n
        invariant
            i <= n,
            n == s.len(),
            f == |c: Components| idled(c),
            world@ == each_below(s, f, i as int),
            well_formed(world@),
        decreases n - i,
    {
        match world.get(i) {
            Some(c) => {
                match (c.player, c.sprite) {
                    (Some(player), Some(sprite)) => {
                        if player.idle {
                            let mut after = c;
                            after.sprite = Some(Sprite { index: REST_FRAME, ..sprite });
                            world.update(i, after);
                        }
                    },
                    _ => {},
                }
            },
            None => {},
        }
        i += 1;
    }
}

/// What an entity owns after the facing pass: a player's picture is turned
/// the way the player faces.
pub open spec fn faced(c: Components) -> Components {
    match (c.player, c.sprite) {
        (Some(player), Some(sprite)) => Components {
            sprite: Some(sprite.turned(player.facing_direction)),
            ..c
        },
        _ => c,
    }
}

/// The facing pass: mirrors the picture of every player that faces left and
/// clears the mirroring of every one that faces right.
pub fn handle_sprite_change(world: &mut World)
    ensures
        final(world)@ == each(old(world)@, |c: Components| faced(c)),
        well_formed(final(world)@),
{
    let n = world.len();
    let ghost s = world@;
    let ghost f = |c: Components| faced(c);
    let mut i: usize = 0;
    while i < n
        invariant
            i <= n,
            n == s.len(),
            f == |c: Components| faced(c),
            world@ == each_below(s, f, i as int),
            well_formed(world@),
        decreases n - i,
    {
        match world.get(i) {
            Some(c) => {
                match (c.player, c.sprite) {
                    (Some(player), Some(sprite)) => {
                        let mut turned = sprite;
                        turned.turn(player.facing_direction);
                        let mut after = c;
                        after.sprite = Some(turned);
                        world.update(i, after);
                    },
                    _ => {},
                }
            },
            None => {},
        }
        i += 1;
    }
}

/// What an entity owns after the player's animation pass: the timer of a
/// player that is not idle has ticked, and its picture is one frame further
/// in the walking band if the timer signalled.
pub open spec fn walked(c: Components, elapsed: u64) -> Components {
    match (c.player, c.animation, c.sprite) {
        (Some(player), Some(timer), Some(sprite)) => if player.idle {
            c
        } else {
            Components {
                animation: Some(AnimationTimer(timer.0.ticked(elapsed))),
                sprite: Some(cycled(sprite, walk_band(), timer.0.ticked(elapsed)@.just_finished)),
                ..c
            }
        },
        _ => c,
    }
}

/// The player's animation pass: advances the walking animation of every
/// player that is not idle by `elapsed` nanoseconds.
pub fn animate_sprite(world: &mut World, elapsed: u64)
    ensures
        final(world)@ == each(old(world)@, |c: Components| walked(c, elapsed)),
        well_formed(final(world)@),
{
    let n = world.len();
    let ghost s = world@;
    let ghost f = |c: Components| walked(c, elapsed);
    let mut i: usize = 0;
    while i < n
        invariant
            i <= n,
            n == s.len(),
            f == |c: Components| walked(c, elapsed),
            world@ == each_below(s, f, i as int),
            well_formed(world@),
        decreases n - i,
    {
        match world.get(i) {
            Some(c) => {
                match (c.player, c.animation, c.sprite) {
                    (Some(player), Some(timer), Some(sprite)) => {
                        if !player.idle {
                            let mut timer = timer;
                            let mut sprite = sprite;
                            cycle(
                                &mut timer,
                                &mut sprite,
                                FrameBand { first: REST_FRAME, last: LAST_WALK_FRAME },
                                elapsed,
                            );
                            let mut after = c;
                            after.animation = Some(timer);
                            after.sprite = Some(sprite);
                            world.update(i, after);
                        }
                    },
                    _ => {},
                }
            },
            None => {},
        }
        i += 1;
    }
}

/// What an entity owns after the cooldown pass: a player's cooldown has
/// ticked, and the cast is available again if the timer signalled.
pub open spec fn cooled(c: Components, elapsed: u64) -> Components {
    match (c.player, c.cooldown) {
        (Some(player), Some(cooldown)) => Components {
            cooldown: Some(Cooldown(cooldown.0.ticked(elapsed))),
            player: Some(player.recharged(cooldown.0.ticked(elapsed)@.just_finished)),
            ..c
        },
        _ => c,
    }
}

/// The cooldown pass: ticks the cooldown of every player by `elapsed`
/// nanoseconds and makes the cast available again where it signals.
pub fn handle_cooldown(world: &mut World, elapsed: u64)
    ensures
        final(world)@ == each(old(world)@, |c: Components| cooled(c, elapsed)),
        well_formed(final(world)@),
{
    let n = world.len();
    let ghost s = world@;
    let ghost f = |c: Components| cooled(c, elapsed);
    let mut i: usize = 0;
    while i < n
        invariant
            i <= n,
            n == s.len(),
            f == |c: Components| cooled(c, elapsed),
            world@ == each_below(s, f, i as int),
            well_formed(world@),
        decreases n - i,
    {
        match world.get(i) {
            Some(c) => {
                match (c.player, c.cooldown) {
                    (Some(player), Some(cooldown)) => {
                        let mut player = player;
                        let mut cooldown = cooldown;
                        recharge(&mut player, &mut cooldown, elapsed);
                        let mut after = c;
                        after.player = Some(player);
                        after.cooldown = Some(cooldown);
                        world.update(i, after);
                    },
                    _ => {},
                }
            },
            None => {},
        }
        i += 1;
    }
}

/// Whether an entity is a player that can be steered: it has a place and is
/// moved by deltas.
pub open spec fn steerable(c: Components) -> bool {
    c.player is Some && c.position is Some && c.kinematic
}

/// What an entity owns after the movement pass.
pub open spec fn steered(c: Components, keys: Keyboard) -> Components {
    if steerable(c) {
        Components { player: Some(c.player.unwrap().steered(keys)), ..c }
    } else {
        c
    }
}

/// The movement that the movement pass asks of an entity.
pub open spec fn stride(c: Components, keys: Keyboard, elapsed: u64) -> Option<Delta> {
    if steerable(c) {
        c.player.unwrap().stride(keys, elapsed)
    } else {
        None
    }
}

/// The movement pass: reads the keys for every player, updates its idleness
/// and facing, and returns the movements to hand to the kinematic mover.
pub fn player_movement(world: &mut World, keys: &Keyboard, elapsed: u64) -> (moves: Vec<Movement>)
    ensures
        final(world)@ == each(old(world)@, |c: Components| steered(c, *keys)),
        moves@ == gathered(
            old(world)@,
            |c: Components| stride(c, *keys, elapsed),
            old(world)@.len() as int,
        ),
        well_formed(final(world)@),
{
    let n = world.len();
    let ghost s = world@;
    let ghost f = |c: Components| steered(c, *keys);
    let ghost g = |c: Components| stride(c, *keys, elapsed);
    let mut moves: Vec<Movement> = Vec::new();
    let mut i: usize = 0;
    while i < n
        invariant
            i <= n,
            n == s.len(),
            f == |c: Components| steered(c, *keys),
            g == |c: Components| stride(c, *keys, elapsed),
            world@ == each_below(s, f, i as int),
            moves@ == gathered(s, g, i as int),
            well_formed(world@),
        decreases n - i,
    {
        match world.get(i) {
            Some(c) => {
                match (c.player, c.position) {
                    (Some(player), Some(_)) => {
                        if c.kinematic {
                            let mut player = player;
                            match player.steer(keys, elapsed) {
                                Some(delta) => {
                                    moves.push(Movement { entity: i, delta });
                                },
                                None => {},
                            }
                            let mut after = c;
                            after.player = Some(player);
                            world.update(i, after);
                        }
                    },
                    _ => {},
                }
            },
            None => {},
        }
        i += 1;
    }
    moves
}

} // verus!
