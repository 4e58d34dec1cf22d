//! The enemy: it wanders while neutral and pursues once alerted.

use crate::animation::{cycle, cycled, AnimationTimer, FacingDirection, FrameBand, Sprite};
use crate::character_stats::{Health, MaxHealth, WalkSpeed, UNIT};
use crate::geometry::{
    direction_toward, displacement, sign_toward, Delta, Movement, Position,
};
use crate::health::{create_bar_sprite, Bar, HealthBar, FIRST_BAR_FRAME, SEGMENTS};
use crate::random::draw_between;
use crate::skills::FRAME_TIME;
use crate::timer::{Timer, TimerMode};
use crate::world::{alive, each, each_below, gathered, well_formed, Components, Slots, World};
use vstd::prelude::*;

verus! {

/// The first frame of the enemy's animation.
pub const FIRST_ENEMY_FRAME: usize = 55;

/// The last frame of the enemy's animation.
pub const LAST_ENEMY_FRAME: usize = 61;

/// Each component of a redrawn walking direction lies from minus this bound
/// up to, not including, the bound itself, in steps per second.
pub const WANDER_BOUND: i32 = 10 * UNIT;

/// Each coordinate of a newly spawned enemy lies from minus this bound up to,
/// not including, the bound itself, in steps.
pub const SPAWN_BOUND: i32 = 100 * UNIT;

/// Nanoseconds between two changes of a wandering enemy's direction.
pub const WALK_TIME: u64 = 4_000_000_000;

/// The health that an enemy starts with, in steps.
pub const ENEMY_HEALTH: u32 = 50000;

/// The speed at which an enemy pursues, in steps per second.
pub const ENEMY_SPEED: i32 = 5 * UNIT;

/// Number of enemies that a new game starts with.
pub const ENEMIES: usize = 5;

/// The frames that an enemy runs through.
pub open spec fn enemy_band() -> FrameBand {
    FrameBand { first: FIRST_ENEMY_FRAME, last: LAST_ENEMY_FRAME }
}

/// The enemy's own state.
#[derive(Clone, Copy, Debug, PartialEq, Eq, Structural)]
pub struct Enemy {
    pub facing_direction: FacingDirection,
    pub finished_move: bool,
}

/// Whether an enemy minds its own business or is after someone.
#[derive(Clone, Copy, Debug, PartialEq, Eq, Structural)]
pub enum AggroStatus {
    /// The enemy pursues the entity of this identity.
    Alerted(usize),
    /// The enemy wanders.
    Neutral,
}

/// The timer at whose signal a wandering enemy picks a new direction.
#[derive(Clone, Copy, Debug, PartialEq, Eq, Structural)]
pub struct WalkTime(pub Timer);

/// The velocity of a wandering enemy, x then y, in steps per second.
#[derive(Clone, Copy, Debug, PartialEq, Eq, Structural)]
pub struct WalkDirection(pub i32, pub i32);

impl WalkDirection {
    /// Whether both components lie within the bound of a redraw.
    pub open spec fn within_bound(self) -> bool {
        &&& -WANDER_BOUND <= self.0 < WANDER_BOUND
        &&& -WANDER_BOUND <= self.1 < WANDER_BOUND
    }

    /// The way that an enemy wanders in this direction during `elapsed`
    /// nanoseconds.
    pub open spec fn stroll(self, elapsed: u64) -> Delta {
        Delta { x: (self.0 * elapsed) as i128, y: (self.1 * elapsed) as i128 }
    }
}

impl Enemy {
    /// The enemy after it wandered along `delta`: it faces right unless the
    /// movement goes left.
    pub open spec fn wandered(self, delta: Delta) -> Enemy {
        Enemy {
            facing_direction: if delta.x >= 0 {
                FacingDirection::Right
            } else {
                FacingDirection::Left
            },
            ..self
        }
    }

    /// Lets a neutral enemy wander for `elapsed` nanoseconds: turns it the way
    /// it goes and returns the movement to hand to the kinematic mover.
    pub fn wander(&mut self, direction: &WalkDirection, elapsed: u64) -> (r: Delta)
        ensures
            r == direction.stroll(elapsed),
            *final(self) == old(self).wandered(r),
    {
        let x = displacement(direction.0, elapsed);
        let y = displacement(direction.1, elapsed);
        self.facing_direction = if x >= 0 {
            FacingDirection::Right
        } else {
            FacingDirection::Left
        };
        Delta { x, y }
    }
}

/// The movement of a pursuer at `from` after a target at `to`: the walking
/// speed times the elapsed time along each axis on which the two differ,
/// toward the target, and nothing along an axis on which they agree.
pub open spec fn pursuit(from: Position, to: Position, speed: WalkSpeed, elapsed: u64) -> Delta {
    Delta {
        x: (sign_toward(from.x as int, to.x as int) * (speed.0 * elapsed)) as i128,
        y: (sign_toward(from.y as int, to.y as int) * (speed.0 * elapsed)) as i128,
    }
}

/// One axis of a pursuit: `way` toward the target, or nothing.
fn toward(from: i32, to: i32, way: i128) -> (r: i128)
    requires
        -0x8000_0000 * 0x1_0000_0000_0000_0000 <= way <= 0x8000_0000 * 0x1_0000_0000_0000_0000,
    ensures
        r == sign_toward(from as int, to as int) * way,
{
    let sign = direction_toward(from, to);
    if sign > 0 {
        way
    } else if sign < 0 {
        -way
    } else {
        0
    }
}

/// The movement of an alerted enemy at `from` whose target stands at `to`.
pub fn pursue(from: Position, to: Position, speed: WalkSpeed, elapsed: u64) -> (r: Delta)
    ensures
        r == pursuit(from, to, speed, elapsed),
{
    let way = displacement(speed.0, elapsed);
    Delta { x: toward(from.x, to.x, way), y: toward(from.y, to.y, way) }
}

/// What a newly spawned enemy at (`x`, `y`) owns: it is neutral, faces right,
/// walks to the right, has full health and a bar of [`SEGMENTS`] segments.
pub open spec fn enemy_at(x: i32, y: i32) -> Components {
    Components {
        position: Some(Position { x, y }),
        sprite: Some(Sprite { index: FIRST_ENEMY_FRAME, flip_x: false }),
        collider: true,
        kinematic: true,
        enemy: Some(Enemy { facing_direction: FacingDirection::Right, finished_move: false }),
        aggro: Some(AggroStatus::Neutral),
        animation: Some(AnimationTimer(Timer::fresh(FRAME_TIME, TimerMode::Repeating))),
        walk_time: Some(WalkTime(Timer::fresh(WALK_TIME, TimerMode::Repeating))),
        walk_direction: Some(WalkDirection(UNIT, 0)),
        walk_speed: Some(WalkSpeed(ENEMY_SPEED)),
        health: Some(Health(ENEMY_HEALTH as i32)),
        max_health: Some(MaxHealth(ENEMY_HEALTH)),
        health_bar: Some(HealthBar { segments: SEGMENTS }),
        ..Components::bare()
    }
}

/// What segment `k` of the bar of `owner` owns.
pub open spec fn bar_of(owner: usize, k: int) -> Components {
    Components {
        parent: Some(owner),
        bar: Some(Bar(k as usize)),
        sprite: Some(Sprite { index: (k + FIRST_BAR_FRAME) as usize, flip_x: false }),
        ..Components::bare()
    }
}

/// The first `n` segments of the bar of `owner`, in the order of their
/// indices.
pub open spec fn bars_of(owner: usize, n: nat) -> Slots {
    Seq::new(n, |k: int| Some(bar_of(owner, k)))
}

/// An enemy at (`x`, `y`) of identity `id`, followed by its bar.
pub open spec fn enemy_block(id: usize, x: i32, y: i32) -> Slots {
    seq![Some(enemy_at(x, y))] + bars_of(id, SEGMENTS as nat)
}

/// Whether both coordinates lie within the bound of a spawn.
pub open spec fn within_spawn_bound(x: i32, y: i32) -> bool {
    &&& -SPAWN_BOUND <= x < SPAWN_BOUND
    &&& -SPAWN_BOUND <= y < SPAWN_BOUND
}

/// Spawns an enemy at (`x`, `y`) together with the segments of its health
/// bar, and returns the enemy's identity; the segments' follow it.
pub fn spawn_enemy_at(world: &mut World, x: i32, y: i32) -> (id: usize)
    ensures
        id == old(world)@.len(),
        final(world)@ == old(world)@ + enemy_block(id, x, y),
        well_formed(final(world)@),
{
    let ghost before = world@;
    let mut body = Components::empty();
    body.position = Some(Position { x, y });
    body.sprite = Some(Sprite { index: FIRST_ENEMY_FRAME, flip_x: false });
    body.collider = true;
    body.kinematic = true;
    body.enemy = Some(Enemy { facing_direction: FacingDirection::Right, finished_move: false });
    body.aggro = Some(AggroStatus::Neutral);
    body.animation = Some(AnimationTimer(Timer::started(FRAME_TIME, TimerMode::Repeating)));
    body.walk_time = Some(WalkTime(Timer::started(WALK_TIME, TimerMode::Repeating)));
    body.walk_direction = Some(WalkDirection(UNIT, 0));
    body.walk_speed = Some(WalkSpeed(ENEMY_SPEED));
    body.health = Some(Health(ENEMY_HEALTH as i32));
    body.max_health = Some(MaxHealth(ENEMY_HEALTH));
    body.health_bar = Some(HealthBar { segments: SEGMENTS });
    let id = world.len();
    world.spawn(body);
    let mut k: usize = 0;
    while k < SEGMENTS
        invariant
            k <= SEGMENTS,
            id == before.len(),
            world@ == before.push(Some(enemy_at(x, y))) + bars_of(id, k as nat),
            well_formed(world@),
        decreases SEGMENTS - k,
    {
        let mut segment = Components::empty();
        segment.parent = Some(id);
        segment.bar = Some(Bar(k));
        let picture = create_bar_sprite(k + FIRST_BAR_FRAME);
        segment.sprite = Some(Sprite { index: picture.index, flip_x: false });
        world.spawn(segment);
        k += 1;
    }
    id
}

/// Spawns an enemy at a place drawn at random, each coordinate within
/// [`SPAWN_BOUND`] of the origin, and returns its identity.
pub fn spawn_enemy(world: &mut World) -> (id: usize)
    ensures
        id == old(world)@.len(),
        exists|x: i32, y: i32|
            within_spawn_bound(x, y) && final(world)@ == old(world)@ + #[trigger] enemy_block(
                id,
                x,
                y,
            ),
        well_formed(final(world)@),
{
    let x = draw_between(-SPAWN_BOUND, SPAWN_BOUND);
    let y = draw_between(-SPAWN_BOUND, SPAWN_BOUND);
    spawn_enemy_at(world, x, y)
}

/// Whether `after` is `before` followed by `count` newly spawned enemies,
/// each with its bar and each at a place within the bound of a spawn.
pub open spec fn horde(before: Slots, after: Slots, count: nat) -> bool
    decreases count,
{
    if count == 0 {
        after == before
    } else {
        let id = after.len() - 1 - SEGMENTS;
        &&& id >= 0
        &&& horde(before, after.subrange(0, id), (count - 1) as nat)
        &&& exists|x: i32, y: i32|
            within_spawn_bound(x, y) && after == after.subrange(0, id) + #[trigger] enemy_block(
                id as usize,
                x,
                y,
            )
    }
}

/// Spawns the enemies that a game starts with, each at a place drawn at
/// random, and returns their identities.
pub fn spawn_enemies(world: &mut World) -> (ids: Vec<usize>)
    ensures
        horde(old(world)@, final(world)@, ENEMIES as nat),
        ids.len() == ENEMIES,
        forall|k: int|
            0 <= k < ENEMIES ==> #[trigger] ids[k] == old(world)@.len() + k * (SEGMENTS + 1),
        final(world)@.len() == old(world)@.len() + ENEMIES * (SEGMENTS + 1),
        well_formed(final(world)@),
{
    let ghost before = world@;
    proof {
        use_type_invariant(&*world);
    }
    let mut ids: Vec<usize> = Vec::new();
    let mut k: usize = 0;
    while k < ENEMIES
        invariant
            k <= ENEMIES,
            horde(before, world@, k as nat),
            ids.len() == k,
            forall|j: int| 0 <= j < k ==> #[trigger] ids[j] == before.len() + j * (SEGMENTS + 1),
            world@.len() == before.len() + k * (SEGMENTS + 1),
            well_formed(world@),
        decreases ENEMIES - k,
    {
        let ghost earlier = world@;
        let id = spawn_enemy(world);
        proof {
            let (x, y) = choose|x: i32, y: i32|
                within_spawn_bound(x, y) && world@ == earlier + #[trigger] enemy_block(id, x, y);
            assert((k + 1) * (SEGMENTS + 1) == k * (SEGMENTS + 1) + SEGMENTS + 1)
                by (nonlinear_arith);
            let at = world@.len() - 1 - SEGMENTS;
            assert(world@.subrange(0, at) == earlier);
            assert(enemy_block(at as usize, x, y) == enemy_block(id, x, y));
        }
        ids.push(id);
        k += 1;
    }
    ids
}

/// Whether an entity is an enemy that can wander: it has a direction and a
/// timer to change it by, a state of alert, and is moved by deltas.
pub open spec fn wanderer(c: Components) -> bool {
    &&& c.enemy is Some
    &&& c.walk_direction is Some
    &&& c.walk_time is Some
    &&& c.aggro is Some
    &&& c.kinematic
}

/// Whether an entity wanders during this tick: it can, and it is neutral.
pub open spec fn wanders(c: Components) -> bool {
    wanderer(c) && c.aggro == Some(AggroStatus::Neutral)
}

/// Whether an entity draws a new direction at the end of this tick: it
/// wanders, and its timer signals.
pub open spec fn redraws(c: Components, elapsed: u64) -> bool {
    wanders(c) && c.walk_time.unwrap().0.ticked(elapsed)@.just_finished
}

/// The movement that the wandering pass asks of an entity.
pub open spec fn stroll(c: Components, elapsed: u64) -> Option<Delta> {
    if wanders(c) {
        Some(c.walk_direction.unwrap().stroll(elapsed))
    } else {
        None
    }
}

/// What an entity owns after the wandering pass, but for a newly drawn
/// direction: its timer has ticked, and if it wanders it faces the way it
/// goes.
pub open spec fn roamed(c: Components, elapsed: u64) -> Components {
    if wanderer(c) {
        Components {
            walk_time: Some(WalkTime(c.walk_time.unwrap().0.ticked(elapsed))),
            enemy: if wanders(c) {
                Some(c.enemy.unwrap().wandered(c.walk_direction.unwrap().stroll(elapsed)))
            } else {
                c.enemy
            },
            ..c
        }
    } else {
        c
    }
}

/// Whether `after` is what an entity may own after the wandering pass that
/// owned `before`: all is as [`roamed`] says, but for the direction of one
/// that redraws, which is any within the bound.
pub open spec fn roams_to(before: Components, elapsed: u64, after: Components) -> bool {
    if redraws(before, elapsed) {
        &&& after.walk_direction is Some
        &&& after.walk_direction.unwrap().within_bound()
        &&& after == Components {
            walk_direction: after.walk_direction,
            ..roamed(before, elapsed)
        }
    } else {
        after == roamed(before, elapsed)
    }
}

/// Whether `after` is what the store may hold after the wandering pass that
/// held `before`: the same entities, each as [`roams_to`] says.
pub open spec fn wandering(before: Slots, after: Slots, elapsed: u64) -> bool {
    &&& after.len() == before.len()
    &&& forall|i: int|
        0 <= i < before.len() ==> match (#[trigger] before[i]) {
            Some(c) => after[i] is Some && roams_to(c, elapsed, after[i].unwrap()),
            None => after[i] is None,
        }
}

/// Lets one enemy wander for `elapsed` nanoseconds, all but the draw of a new
/// direction: returns what it owns afterwards, the movement it asks for, and
/// whether a new direction is to be drawn.
pub fn roam(c: Components, elapsed: u64) -> (r: (Components, Option<Delta>, bool))
    ensures
        r.0 == roamed(c, elapsed),
        r.1 == stroll(c, elapsed),
        r.2 == redraws(c, elapsed),
{
    match (c.enemy, c.walk_direction, c.walk_time, c.aggro) {
        (Some(enemy), Some(direction), Some(walk_time), Some(status)) => {
            if c.kinematic {
                let mut after = c;
                let mut walk_time = walk_time;
                walk_time.0.tick(elapsed);
                after.walk_time = Some(walk_time);
                match status {
                    AggroStatus::Neutral => {
                        let mut enemy = enemy;
                        let delta = enemy.wander(&direction, elapsed);
                        after.enemy = Some(enemy);
                        (after, Some(delta), walk_time.0.just_finished())
                    },
                    AggroStatus::Alerted(_) => (after, None, false),
                }
            } else {
                (c, None, false)
            }
        },
        _ => (c, None, false),
    }
}

/// The wandering pass: ticks the timer of every enemy; a neutral enemy moves
/// along its direction and faces the way it goes, and when its timer signals
/// it draws a new direction at random, each component within
/// [`WANDER_BOUND`]. Returns the movements to hand to the kinematic mover.
pub fn random_walking(world: &mut World, elapsed: u64) -> (moves: Vec<Movement>)
    ensures
        wandering(old(world)@, final(world)@, elapsed),
        moves@ == gathered(
            old(world)@,
            |c: Components| stroll(c, elapsed),
            old(world)@.len() as int,
        ),
        well_formed(final(world)@),
{
    let n = world.len();
    let ghost s = world@;
    let ghost g = |c: Components| stroll(c, elapsed);
    let mut moves: Vec<Movement> = Vec::new();
    let mut i: usize = 0;
    while i < n
        invariant
            i <= n,
            n == s.len(),
            n == world@.len(),
            g == |c: Components| stroll(c, elapsed),
            forall|j: int|
                0 <= j < i ==> match (#[trigger] s[j]) {
                    Some(before) => world@[j] is Some && roams_to(
                        before,
                        elapsed,
                        world@[j].unwrap(),
                    ),
                    None => world@[j] is None,
                },
            forall|j: int| i <= j < n ==> world@[j] == #[trigger] s[j],
            moves@ == gathered(s, g, i as int),
            well_formed(world@),
        decreases n - i,
    {
        match world.get(i) {
            Some(c) => {
                let (after, delta, redraw) = roam(c, elapsed);
                let mut after = after;
                match delta {
                    Some(delta) => {
                        moves.push(Movement { entity: i, delta });
                    },
                    None => {},
                }
                if redraw {
                    let x = draw_between(-WANDER_BOUND, WANDER_BOUND);
                    let y = draw_between(-WANDER_BOUND, WANDER_BOUND);
                    after.walk_direction = Some(WalkDirection(x, y));
                }
                world.update(i, after);
            },
            None => {},
        }
        i += 1;
    }
    moves
}

/// What an entity owns after the enemy's animation pass: the timer of an
/// enemy has ticked, and if it signalled the picture is turned the way the
/// enemy faces and one frame further in the enemy's band.
pub open spec fn stirred(c: Components, elapsed: u64) -> Components {
    match (c.enemy, c.animation, c.sprite) {
        (Some(enemy), Some(timer), Some(sprite)) => Components {
            animation: Some(AnimationTimer(timer.0.ticked(elapsed))),
            sprite: Some(
                if timer.0.ticked(elapsed)@.just_finished {
                    cycled(sprite.turned(enemy.facing_direction), enemy_band(), true)
                } else {
                    sprite
                },
            ),
            ..c
        },
        _ => c,
    }
}

/// The enemy's animation pass: advances the animation of every enemy by
/// `elapsed` nanoseconds.
pub fn animate_sprite(world: &mut World, elapsed: u64)
    ensures
        final(world)@ == each(old(world)@, |c: Components| stirred(c, elapsed)),
        well_formed(final(world)@),
{
    let n = world.len();
    let ghost s = world@;
    let ghost f = |c: Components| stirred(c, elapsed);
    let mut i: usize = 0;
    while i < n
        invariant
            i <= n,
            n == s.len(),
            f == |c: Components| stirred(c, elapsed),
            world@ == each_below(s, f, i as int),
            well_formed(world@),
        decreases n - i,
    {
        match world.get(i) {
            Some(c) => {
                match (c.enemy, c.animation, c.sprite) {
                    (Some(enemy), Some(timer), Some(sprite)) => {
                        let mut timer = timer;
                        let mut sprite = sprite;
                        timer.0.tick(elapsed);
                        if timer.0.just_finished() {
                            sprite.turn(enemy.facing_direction);
                            sprite.index = FrameBand {
                                first: FIRST_ENEMY_FRAME,
                                last: LAST_ENEMY_FRAME,
                            }.advance(sprite.index);
                        }
                        let mut after = c;
                        after.animation = Some(timer);
                        after.sprite = Some(sprite);
                        world.update(i, after);
                    },
                    _ => {},
                }
            },
            None => {},
        }
        i += 1;
    }
}

/// The place of the player that entity `target` is, if it is a living player
/// with a place.
pub open spec fn quarry(s: Slots, target: int) -> Option<Position> {
    if alive(s, target) && s[target].unwrap().player is Some {
        s[target].unwrap().position
    } else {
        None
    }
}

/// The movement that the pursuit pass asks of an entity: an enemy that is
/// alerted to a living player moves toward the player's place at its walking
/// speed.
pub open spec fn chase(s: Slots, c: Components, elapsed: u64) -> Option<Delta> {
    match (c.enemy, c.aggro, c.position, c.walk_speed) {
        (Some(_), Some(AggroStatus::Alerted(target)), Some(from), Some(speed)) => if c.kinematic {
            match quarry(s, target as int) {
                Some(to) => Some(pursuit(from, to, speed, elapsed)),
                None => None,
            }
        } else {
            None
        },
        _ => None,
    }
}

/// The pursuit pass: returns, for every enemy that is alerted to a living
/// player, the movement toward that player to hand to the kinematic mover.
pub fn handle_alerted(world: &World, elapsed: u64) -> (moves: Vec<Movement>)
    ensures
        moves@ == gathered(world@, |c: Components| chase(world@, c, elapsed), world@.len() as int),
{
    let n = world.len();
    let ghost g = |c: Components| chase(world@, c, elapsed);
    let mut moves: Vec<Movement> = Vec::new();
    let mut i: usize = 0;
    while i < n
        invariant
            i <= n,
            n == world@.len(),
            g == |c: Components| chase(world@, c, elapsed),
            moves@ == gathered(world@, g, i as int),
        decreases n - i,
    {
        match world.get(i) {
            Some(c) => {
                match (c.enemy, c.aggro, c.position, c.walk_speed) {
                    (Some(_), Some(AggroStatus::Alerted(target)), Some(from), Some(speed)) => {
                        if c.kinematic {
                            match world.get(target) {
                                Some(t) => {
                                    match (t.player, t.position) {
                                        (Some(_), Some(to)) => {
                                            moves.push(
                                                Movement {
                                                    entity: i,
                                                    delta: pursue(from, to, speed, elapsed),
                                                },
                                            );
                                        },
                                        _ => {},
                                    }
                                },
                                None => {},
                            }
                        }
                    },
                    _ => {},
                }
            },
            None => {},
        }
        i += 1;
    }
    moves
}

/// What an entity owns once it was told of `target`: a neutral enemy is then
/// alerted to it. An enemy that is alerted already stays with its target, and
/// nothing makes it neutral again.
pub open spec fn alerted(c: Components, target: usize) -> Components {
    if c.enemy is Some && c.aggro == Some(AggroStatus::Neutral) {
        Components { aggro: Some(AggroStatus::Alerted(target)), ..c }
    } else {
        c
    }
}

/// Tells entity `id` that `target` was seen. Nothing happens if the entity is
/// no longer alive.
pub fn alert(world: &mut World, id: usize, target: usize)
    ensures
        final(world)@ == if alive(old(world)@, id as int) {
            old(world)@.update(id as int, Some(alerted(old(world)@[id as int].unwrap(), target)))
        } else {
            old(world)@
        },
        well_formed(final(world)@),
{
    proof {
        use_type_invariant(&*world);
    }
    match world.get(id) {
        Some(c) => {
            let mut after = c;
            match (c.enemy, c.aggro) {
                (Some(_), Some(AggroStatus::Neutral)) => {
                    after.aggro = Some(AggroStatus::Alerted(target));
                },
                _ => {},
            }
            world.update(id, after);
        },
        None => {},
    }
}

} // verus!
