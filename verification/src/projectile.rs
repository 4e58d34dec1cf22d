//! The life of a projectile: it is spawned by a cast, flies at a constant
//! velocity, and is destroyed when its collider touches a solid obstacle or a
//! character, to which it then does its damage.
//!
//! Each pass reads the store as it stands when the pass begins, decides what
//! is to go, and destroys all of it at the end, each entity once.

use crate::animation::{cycle, cycled, AnimationTimer, FacingDirection, FrameBand, Sprite};
use crate::character_stats::{Damage, Health};
use crate::contact::{joins, touching, Contacts};
use crate::skills::{
    fire_band, launch, launched, velocity, velocity_of, Cooldown, Launch, COOLDOWN_TIME,
    FIREBALL_DAMAGE, FIRST_FIRE_FRAME, FRAME_TIME, LAST_FIRE_FRAME,
};
use crate::timer::{Timer, TimerMode};
use crate::world::{
    alive, doomed, each, each_below, marked, no_marks, swept, well_formed, Components, Slots,
    World,
};
use vstd::prelude::*;

verus! {

/// What a newly cast fireball owns: its picture on the first frame, its
/// damage, a grace timer, an animation timer, its velocity and the record of
/// its launch.
pub open spec fn fireball(
    x: i64,
    y: i64,
    rotation: i32,
    facing: FacingDirection,
    speed: i64,
) -> Components {
    Components {
        sprite: Some(Sprite { index: 0, flip_x: false }),
        fireball: true,
        damage: Some(Damage(FIREBALL_DAMAGE)),
        cooldown: Some(Cooldown(Timer::fresh(COOLDOWN_TIME, TimerMode::Once))),
        animation: Some(AnimationTimer(Timer::fresh(FRAME_TIME, TimerMode::Repeating))),
        velocity: Some(velocity_of(facing, speed)),
        launch: Some(Launch { x, y, rotation, speed, facing }),
        ..Components::bare()
    }
}

/// What the collider of a projectile owns: it belongs to `owner` and reports
/// its contacts.
pub open spec fn fireball_collider(owner: usize) -> Components {
    Components { parent: Some(owner), collider: true, ..Components::bare() }
}

/// Spawns a fireball at (`x`, `y`) that flies at the signed `speed` along the
/// axis of `facing_direction`, together with the collider that stands for it
/// in contacts. Returns the fireball's identity; the collider's is the next.
pub fn create_fireball(
    world: &mut World,
    x: i64,
    y: i64,
    rotation: i32,
    facing_direction: FacingDirection,
    speed: i64,
) -> (id: usize)
    ensures
        id == old(world)@.len(),
        final(world)@ == old(world)@.push(
            Some(fireball(x, y, rotation, facing_direction, speed)),
        ).push(Some(fireball_collider(id))),
        well_formed(final(world)@),
{
    let mut body = Components::empty();
    body.sprite = Some(Sprite { index: 0, flip_x: false });
    body.fireball = true;
    body.damage = Some(Damage(FIREBALL_DAMAGE));
    body.cooldown = Some(Cooldown(Timer::started(COOLDOWN_TIME, TimerMode::Once)));
    body.animation = Some(AnimationTimer(Timer::started(FRAME_TIME, TimerMode::Repeating)));
    body.velocity = Some(velocity(facing_direction, speed));
    body.launch = Some(Launch { x, y, rotation, speed, facing: facing_direction });
    let id = world.len();
    world.spawn(body);
    let mut collider = Components::empty();
    collider.parent = Some(id);
    collider.collider = true;
    world.spawn(collider);
    id
}

/// Whether an entity is a player that can cast: it has a place to cast from.
pub open spec fn caster(c: Components) -> bool {
    c.player is Some && c.position is Some
}

/// Whether an entity casts during this tick.
pub open spec fn fires(c: Components, asked: bool) -> bool {
    caster(c) && c.player.unwrap().casts(asked)
}

/// What an entity owns after the casting pass.
pub open spec fn recast(c: Components, asked: bool) -> Components {
    if caster(c) {
        Components { player: Some(c.player.unwrap().after_cast(asked)), ..c }
    } else {
        c
    }
}

/// The fireball that the caster `c` casts.
pub open spec fn cast_of(c: Components) -> Components {
    let l = launched(
        c.position.unwrap(),
        c.player.unwrap().facing_direction,
        c.player.unwrap().spell_speed,
    );
    fireball(l.x, l.y, l.rotation, l.facing, l.speed)
}

/// What the casters below `k` spawn: for each that casts, in the order of
/// their identities, a fireball and then its collider.
pub open spec fn volley(s: Slots, asked: bool, k: int) -> Slots
    decreases k,
{
    if k <= 0 {
        Seq::empty()
    } else {
        let rest = volley(s, asked, k - 1);
        match s[k - 1] {
            Some(c) => if fires(c, asked) {
                rest.push(Some(cast_of(c))).push(
                    Some(fireball_collider((s.len() + rest.len()) as usize)),
                )
            } else {
                rest
            },
            None => rest,
        }
    }
}

/// The casting pass: when a cast is asked for, every player that has a cast
/// available uses it up and a fireball is spawned in front of the player; a
/// player without one spawns nothing. Returns the identities of the new
/// fireballs; the collider of each has the identity that follows.
pub fn spawn_fireball(world: &mut World, asked: bool) -> (ids: Vec<usize>)
    ensures
        final(world)@ == each(old(world)@, |c: Components| recast(c, asked)) + volley(
            old(world)@,
            asked,
            old(world)@.len() as int,
        ),
        2 * ids.len() == volley(old(world)@, asked, old(world)@.len() as int).len(),
        forall|k: int| 0 <= k < ids.len() ==> #[trigger] ids[k] == old(world)@.len() + 2 * k,
        well_formed(final(world)@),
{
    let n = world.len();
    let ghost s = world@;
    let ghost f = |c: Components| recast(c, asked);
    let mut ids: Vec<usize> = Vec::new();
    let mut i: usize = 0;
    while i < n
        invariant
            i <= n,
            n == s.len(),
            f == |c: Components| recast(c, asked),
            world@ == each_below(s, f, i as int) + volley(s, asked, i as int),
            2 * ids.len() == volley(s, asked, i as int).len(),
            forall|k: int| 0 <= k < ids.len() ==> #[trigger] ids[k] == n + 2 * k,
            well_formed(world@),
        decreases n - i,
    {
        match world.get(i) {
            Some(c) => {
                match (c.player, c.position) {
                    (Some(player), Some(origin)) => {
                        let mut player = player;
                        let goes = player.cast(asked);
                        let mut after = c;
                        after.player = Some(player);
                        world.update(i, after);
                        if goes {
                            let l = launch(origin, player.facing_direction, player.spell_speed);
                            let id = create_fireball(
                                world,
                                l.x,
                                l.y,
                                l.rotation,
                                l.facing,
                                l.speed,
                            );
                            ids.push(id);
                        }
                    },
                    _ => {},
                }
            },
            None => {},
        }
        i += 1;
    }
    ids
}

/// What an entity owns after the fireballs' animation pass: the timer of a
/// fireball has ticked, and its picture is one frame further if the timer
/// signalled, wrapping around within the fire band.
pub open spec fn flickered(c: Components, elapsed: u64) -> Components {
    match (c.fireball, c.animation, c.sprite) {
        (true, Some(timer), Some(sprite)) => Components {
            animation: Some(AnimationTimer(timer.0.ticked(elapsed))),
            sprite: Some(cycled(sprite, fire_band(), timer.0.ticked(elapsed)@.just_finished)),
            ..c
        },
        _ => c,
    }
}

/// The fireballs' animation pass: advances the animation of every fireball by
/// `elapsed` nanoseconds.
pub fn animate_fireball(world: &mut World, elapsed: u64)
    ensures
        final(world)@ == each(old(world)@, |c: Components| flickered(c, elapsed)),
        well_formed(final(world)@),
{
    let n = world.len();
    let ghost s = world@;
    let ghost f = |c: Components| flickered(c, elapsed);
    let mut i: usize = 0;
    while i < n
        invariant
            i <= n,
            n == s.len(),
            f == |c: Components| flickered(c, elapsed),
            world@ == each_below(s, f, i as int),
            well_formed(world@),
        decreases n - i,
    {
        match world.get(i) {
            Some(c) => {
                match (c.animation, c.sprite) {
                    (Some(timer), Some(sprite)) => {
                        if c.fireball {
                            let mut timer = timer;
                            let mut sprite = sprite;
                            cycle(
                                &mut timer,
                                &mut sprite,
                                FrameBand { first: FIRST_FIRE_FRAME, last: LAST_FIRE_FRAME },
                                elapsed,
                            );
                            let mut after = c;
                            after.animation = Some(timer);
                            after.sprite = Some(sprite);
                            world.update(i, after);
                        }
                    },
                    _ => {},
                }
            },
            None => {},
        }
        i += 1;
    }
}

/// Whether entity `c` is the collider of a projectile: a collider that belongs
/// to another entity.
pub open spec fn is_projectile_collider(s: Slots, c: int) -> bool {
    alive(s, c) && s[c].unwrap().collider && s[c].unwrap().parent is Some
}

/// The entity that collider `c` belongs to.
pub open spec fn owner(s: Slots, c: int) -> int {
    s[c].unwrap().parent.unwrap() as int
}

/// Whether entity `w` is a solid obstacle.
pub open spec fn is_wall(s: Slots, w: int) -> bool {
    alive(s, w) && s[w].unwrap().wall
}

/// Whether the projectile collider `c` touches the solid obstacle `w`.
pub open spec fn blocked_by(s: Slots, pairs: Seq<(usize, usize)>, c: int, w: int) -> bool {
    is_projectile_collider(s, c) && is_wall(s, w) && touching(pairs, w, c)
}

/// Whether the projectile collider `c` touches some solid obstacle.
pub open spec fn blocked(s: Slots, pairs: Seq<(usize, usize)>, c: int) -> bool {
    exists|w: int| blocked_by(s, pairs, c, w)
}

/// Whether entity `p` owns a collider that touches a solid obstacle.
pub open spec fn stopped(s: Slots, pairs: Seq<(usize, usize)>, p: int) -> bool {
    exists|c: int| #[trigger] blocked(s, pairs, c) && owner(s, c) == p
}

/// The projectiles that a solid obstacle stops.
pub open spec fn stopped_set(s: Slots, pairs: Seq<(usize, usize)>) -> Set<int> {
    Set::new(|p: int| stopped(s, pairs, p))
}

/// Whether collider `c` touches some solid obstacle.
fn touches_wall(world: &World, contacts: &Contacts, c: usize) -> (r: bool)
    requires
        is_projectile_collider(world@, c as int),
    ensures
        r == blocked(world@, contacts@, c as int),
{
    let n = world.len();
    let mut w: usize = 0;
    while w < n
        invariant
            w <= n,
            n == world@.len(),
            is_projectile_collider(world@, c as int),
            forall|v: int| 0 <= v < w ==> !blocked_by(world@, contacts@, c as int, v),
        decreases n - w,
    {
        let found = match world.get(w) {
            Some(e) => e.wall && contacts.active(w, c),
            None => false,
        };
        if found {
            assert(blocked_by(world@, contacts@, c as int, w as int));
            return true;
        }
        w += 1;
    }
    false
}

/// The wall pass: destroys every projectile whose collider touches a solid
/// obstacle, with its collider and all else that belongs to it, and returns
/// the identities of what went, in rising order.
///
/// After the pass no collider that is left touches an obstacle that is left,
/// and no collider is left without its owner.
pub fn destroy_on_solid_wall(world: &mut World, contacts: &Contacts) -> (removed: Vec<usize>)
    ensures
        final(world)@ == swept(old(world)@, stopped_set(old(world)@, contacts@)),
        well_formed(final(world)@),
        forall|c: int, w: int| !blocked_by(final(world)@, contacts@, c, w),
        forall|i: int|
            alive(old(world)@, i) && !alive(final(world)@, i) <==> 0 <= i < old(world)@.len()
                && removed@.contains(i as usize),
        forall|j: int, k: int| 0 <= j < k < removed.len() ==> removed[j] < removed[k],
{
    let n = world.len();
    let mut marks = no_marks(n);
    let mut c: usize = 0;
    while c < n
        invariant
            c <= n,
            n == world@.len(),
            world@ == old(world)@,
            well_formed(world@),
            marks.len() == n,
            forall|p: int|
                0 <= p < n ==> (#[trigger] marks[p] <==> exists|d: int|
                    0 <= d < c && #[trigger] blocked(world@, contacts@, d) && owner(world@, d)
                        == p),
        decreases n - c,
    {
        match world.get(c) {
            Some(e) => {
                if e.collider {
                    match e.parent {
                        Some(p) => {
                            if touches_wall(world, contacts, c) {
                                marks.set(p, true);
                            }
                        },
                        None => {},
                    }
                }
            },
            None => {},
        }
        c += 1;
    }
    proof {
        let s = world@;
        assert forall|p: int| marked(marks@).contains(p) <==> stopped_set(s, contacts@).contains(
            p,
        ) by {
            if stopped(s, contacts@, p) {
                let d = choose|d: int| #[trigger] blocked(s, contacts@, d) && owner(s, d) == p;
            }
        }
        assert(marked(marks@) =~= stopped_set(s, contacts@));
        lemma_wall_pass_clears(s, contacts@);
    }
    let removed = world.sweep(&marks);
    proof {
        let s = old(world)@;
        assert forall|i: int|
            alive(s, i) && !alive(world@, i) <==> 0 <= i < s.len() && removed@.contains(
                i as usize,
            ) by {
            if 0 <= i < s.len() && removed@.contains(i as usize) {
                let k = choose|k: int| 0 <= k < removed.len() && removed[k] == i as usize;
            }
        }
    }
    removed
}

/// Once the stopped projectiles are gone, no collider that is left touches an
/// obstacle that is left.
pub proof fn lemma_wall_pass_clears(s: Slots, pairs: Seq<(usize, usize)>)
    requires
        well_formed(s),
    ensures
        forall|c: int, w: int| !blocked_by(swept(s, stopped_set(s, pairs)), pairs, c, w),
{
    let roots = stopped_set(s, pairs);
    let t = swept(s, roots);
    assert forall|c: int, w: int| !blocked_by(t, pairs, c, w) by {
        if blocked_by(t, pairs, c, w) {
            assert(blocked_by(s, pairs, c, w));
            assert(blocked(s, pairs, c));
            let p = owner(s, c);
            assert(doomed(s, roots, p));
        }
    }
}

/// Whether entity `ch` is a character that can be hurt: it has health, is
/// moved by deltas and has a collider.
pub open spec fn is_character(s: Slots, ch: int) -> bool {
    alive(s, ch) && s[ch].unwrap().health is Some && s[ch].unwrap().kinematic
        && s[ch].unwrap().collider
}

/// Whether the projectile collider `c` touches the character `ch`.
pub open spec fn strikes(s: Slots, pairs: Seq<(usize, usize)>, ch: int, c: int) -> bool {
    is_character(s, ch) && is_projectile_collider(s, c) && touching(pairs, ch, c)
}

/// Whether the projectile collider `c` touches some character.
pub open spec fn lands(s: Slots, pairs: Seq<(usize, usize)>, c: int) -> bool {
    exists|ch: int| strikes(s, pairs, ch, c)
}

/// Whether entity `p` owns a collider that touches a character.
pub open spec fn spent(s: Slots, pairs: Seq<(usize, usize)>, p: int) -> bool {
    exists|c: int| #[trigger] lands(s, pairs, c) && owner(s, c) == p
}

/// The damage that the owner of collider `c` does, if it does any.
pub open spec fn damage_of(s: Slots, c: int) -> Option<Damage> {
    if alive(s, owner(s, c)) {
        s[owner(s, c)].unwrap().damage
    } else {
        None
    }
}

/// Whether the projectile collider `c` touches the character `ch` and its
/// owner does damage.
pub open spec fn harms(s: Slots, pairs: Seq<(usize, usize)>, ch: int, c: int) -> bool {
    strikes(s, pairs, ch, c) && damage_of(s, c) is Some
}

/// Whether some contact does damage to the character `ch`.
pub open spec fn harmed(s: Slots, pairs: Seq<(usize, usize)>, ch: int) -> bool {
    exists|c: int| harms(s, pairs, ch, c)
}

/// The damage that the colliders below `k` do to the character `ch`, summed.
pub open spec fn damage_taken(s: Slots, pairs: Seq<(usize, usize)>, ch: int, k: int) -> int
    decreases k,
{
    if k <= 0 {
        0
    } else {
        damage_taken(s, pairs, ch, k - 1) + if harms(s, pairs, ch, k - 1) {
            damage_of(s, k - 1).unwrap().0 as int
        } else {
            0
        }
    }
}

/// The health of the character `ch` less all the damage done to it.
pub open spec fn health_left(s: Slots, pairs: Seq<(usize, usize)>, ch: int) -> int {
    s[ch].unwrap().health.unwrap().less(damage_taken(s, pairs, ch, s.len() as int))
}

/// Whether the character `ch` is hurt so that no health is left.
pub open spec fn slain(s: Slots, pairs: Seq<(usize, usize)>, ch: int) -> bool {
    harmed(s, pairs, ch) && health_left(s, pairs, ch) <= 0
}

/// What the character pass destroys: the projectiles that hit and the
/// characters that are slain.
pub open spec fn struck_set(s: Slots, pairs: Seq<(usize, usize)>) -> Set<int> {
    Set::new(|i: int| spent(s, pairs, i) || slain(s, pairs, i))
}

/// The store with all damage taken off the health of those who survive it.
pub open spec fn hurt(s: Slots, pairs: Seq<(usize, usize)>) -> Slots {
    Seq::new(
        s.len(),
        |i: int|
            if harmed(s, pairs, i) && !slain(s, pairs, i) {
                Some(
                    Components {
                        health: Some(Health(health_left(s, pairs, i) as i32)),
                        ..s[i].unwrap()
                    },
                )
            } else {
                s[i]
            },
    )
}

/// Whether collider `c` touches some character.
fn touches_character(world: &World, contacts: &Contacts, c: usize) -> (r: bool)
    requires
        is_projectile_collider(world@, c as int),
    ensures
        r == lands(world@, contacts@, c as int),
{
    let n = world.len();
    let mut ch: usize = 0;
    while ch < n
        invariant
            ch <= n,
            n == world@.len(),
            is_projectile_collider(world@, c as int),
            forall|v: int| 0 <= v < ch ==> !strikes(world@, contacts@, v, c as int),
        decreases n - ch,
    {
        let found = match world.get(ch) {
            Some(e) => e.health.is_some() && e.kinematic && e.collider && contacts.active(ch, c),
            None => false,
        };
        if found {
            assert(strikes(world@, contacts@, ch as int, c as int));
            return true;
        }
        ch += 1;
    }
    false
}

/// Sums the damage that is done to the character `ch`, and tells whether any
/// contact did damage to it.
fn take_hits(world: &World, contacts: &Contacts, ch: usize) -> (r: (bool, u128))
    requires
        is_character(world@, ch as int),
    ensures
        r.0 == harmed(world@, contacts@, ch as int),
        r.1 == damage_taken(world@, contacts@, ch as int, world@.len() as int),
{
    let n = world.len();
    let mut any = false;
    let mut total: u128 = 0;
    let mut c: usize = 0;
    while c < n
        invariant
            c <= n,
            n == world@.len(),
            well_formed(world@),
            is_character(world@, ch as int),
            total == damage_taken(world@, contacts@, ch as int, c as int),
            total <= c * 0xFFFF_FFFF,
            any <==> exists|d: int| 0 <= d < c && harms(world@, contacts@, ch as int, d),
        decreases n - c,
    {
        let ghost had = any;
        match world.get(c) {
            Some(e) => {
                if e.collider {
                    match e.parent {
                        Some(p) => {
                            if contacts.active(ch, c) {
                                match world.get(p) {
                                    Some(projectile) => {
                                        match projectile.damage {
                                            Some(damage) => {
                                                any = true;
                                                total = total + damage.0 as u128;
                                            },
                                            None => {},
                                        }
                                    },
                                    None => {},
                                }
                            }
                        },
                        None => {},
                    }
                }
            },
            None => {},
        }
        proof {
            let s = world@;
            assert(any <==> exists|d: int| 0 <= d < c + 1 && harms(s, contacts@, ch as int, d)) by {
                if any && !had {
                    assert(harms(s, contacts@, ch as int, c as int));
                }
                if had {
                    let d = choose|d: int| 0 <= d < c && harms(s, contacts@, ch as int, d);
                    assert(0 <= d < c + 1 && harms(s, contacts@, ch as int, d));
                }
            }
        }
        c += 1;
    }
    (any, total)
}

/// The character pass: every contact between a character and the collider of
/// a projectile takes the projectile's damage off the character's health and
/// destroys the projectile; a character that is hurt so that no health is left
/// is destroyed too, with all that belongs to it. Returns the identities of
/// what went, in rising order.
pub fn destroy_on_characters(world: &mut World, contacts: &Contacts) -> (removed: Vec<usize>)
    ensures
        final(world)@ == swept(
            hurt(old(world)@, contacts@),
            struck_set(old(world)@, contacts@),
        ),
        well_formed(final(world)@),
        forall|i: int|
            alive(old(world)@, i) && !alive(final(world)@, i) <==> 0 <= i < old(world)@.len()
                && removed@.contains(i as usize),
        forall|j: int, k: int| 0 <= j < k < removed.len() ==> removed[j] < removed[k],
{
    let n = world.len();
    let ghost s = world@;
    let mut marks = no_marks(n);
    let mut c: usize = 0;
    while c < n
        invariant
            c <= n,
            n == s.len(),
            world@ == s,
            well_formed(s),
            marks.len() == n,
            forall|p: int|
                0 <= p < n ==> (#[trigger] marks[p] <==> exists|d: int|
                    0 <= d < c && #[trigger] lands(s, contacts@, d) && owner(s, d) == p),
        decreases n - c,
    {
        match world.get(c) {
            Some(e) => {
                if e.collider {
                    match e.parent {
                        Some(p) => {
                            if touches_character(world, contacts, c) {
                                marks.set(p, true);
                            }
                        },
                        None => {},
                    }
                }
            },
            None => {},
        }
        c += 1;
    }
    let mut verdicts: Vec<Option<Health>> = Vec::new();
    let mut ch: usize = 0;
    while ch < n
        invariant
            ch <= n,
            n == s.len(),
            world@ == s,
            well_formed(s),
            marks.len() == n,
            verdicts.len() == ch,
            forall|p: int|
                0 <= p < n ==> (#[trigger] marks[p] <==> spent(s, contacts@, p) || (p < ch
                    && slain(s, contacts@, p))),
            forall|j: int|
                0 <= j < ch ==> #[trigger] verdicts[j] == if harmed(s, contacts@, j) && !slain(
                    s,
                    contacts@,
                    j,
                ) {
                    Some(Health(health_left(s, contacts@, j) as i32))
                } else {
                    None
                },
        decreases n - ch,
    {
        let mut verdict: Option<Health> = None;
        match world.get(ch) {
            Some(e) => {
                match e.health {
                    Some(health) => {
                        if e.kinematic && e.collider {
                            let (any, total) = take_hits(world, contacts, ch);
                            proof {
                                lemma_damage_bounded(s, contacts@, ch as int, n as int);
                            }
                            if any {
                                let left: i128 = health.0 as i128 - total as i128;
                                if left <= 0 {
                                    marks.set(ch, true);
                                } else {
                                    verdict = Some(Health(left as i32));
                                }
                            }
                        }
                    },
                    None => {},
                }
            },
            None => {},
        }
        verdicts.push(verdict);
        ch += 1;
    }
    let mut i: usize = 0;
    while i < n
        invariant
            i <= n,
            n == s.len(),
            n == world@.len(),
            verdicts.len() == n,
            forall|j: int|
                0 <= j < n ==> #[trigger] verdicts[j] == if harmed(s, contacts@, j) && !slain(
                    s,
                    contacts@,
                    j,
                ) {
                    Some(Health(health_left(s, contacts@, j) as i32))
                } else {
                    None
                },
            forall|j: int| 0 <= j < i ==> world@[j] == #[trigger] hurt(s, contacts@)[j],
            forall|j: int| i <= j < n ==> #[trigger] world@[j] == s[j],
        decreases n - i,
    {
        match verdicts[i] {
            Some(health) => {
                match world.get(i) {
                    Some(e) => {
                        world.update(i, Components { health: Some(health), ..e });
                    },
                    None => {
                    },
                }
            },
            None => {},
        }
        i += 1;
    }
    proof {
        assert(world@ =~= hurt(s, contacts@));
        assert forall|p: int| marked(marks@).contains(p) <==> struck_set(s, contacts@).contains(
            p,
        ) by {
            if spent(s, contacts@, p) {
                let d = choose|d: int| #[trigger] lands(s, contacts@, d) && owner(s, d) == p;
            }
        }
        assert(marked(marks@) =~= struck_set(s, contacts@));
        lemma_hurt_keeps_shape(s, contacts@, struck_set(s, contacts@));
    }
    let removed = world.sweep(&marks);
    proof {
        assert forall|i: int|
            alive(s, i) && !alive(world@, i) <==> 0 <= i < s.len() && removed@.contains(
                i as usize,
            ) by {
            if 0 <= i < s.len() && removed@.contains(i as usize) {
                let k = choose|k: int| 0 <= k < removed.len() && removed[k] == i as usize;
            }
        }
    }
    removed
}

/// The damage that the colliders below `k` do is bounded by their number.
proof fn lemma_damage_bounded(s: Slots, pairs: Seq<(usize, usize)>, ch: int, k: int)
    ensures
        0 <= damage_taken(s, pairs, ch, k),
        k >= 0 ==> damage_taken(s, pairs, ch, k) <= k * 0xFFFF_FFFF,
    decreases k,
{
    if k > 0 {
        lemma_damage_bounded(s, pairs, ch, k - 1);
    }
}

/// Taking damage off the health changes neither who is alive nor who belongs
/// to whom, so the same entities go from the hurt store as from the one
/// before.
pub proof fn lemma_hurt_keeps_shape(s: Slots, pairs: Seq<(usize, usize)>, roots: Set<int>)
    ensures
        forall|i: int| alive(hurt(s, pairs), i) == alive(s, i),
        forall|i: int| doomed(hurt(s, pairs), roots, i) == doomed(s, roots, i),
        well_formed(s) ==> well_formed(hurt(s, pairs)),
{
    let h = hurt(s, pairs);
    assert forall|i: int| alive(h, i) == alive(s, i) by {
        if 0 <= i < s.len() && harmed(s, pairs, i) {
            let d = choose|d: int| harms(s, pairs, i, d);
        }
    }
    assert forall|i: int| doomed(h, roots, i) == doomed(s, roots, i) by {
        lemma_hurt_keeps_doom(s, pairs, roots, i);
    }
    if well_formed(s) {
        assert forall|i: int| alive(h, i) && (#[trigger] h[i]).unwrap().parent is Some implies {
            let p = h[i].unwrap().parent.unwrap();
            p < i && alive(h, p as int)
        } by {
            let p = s[i].unwrap().parent.unwrap();
        }
    }
}

/// One entity goes from the hurt store if and only if it goes from the one
/// before.
proof fn lemma_hurt_keeps_doom(s: Slots, pairs: Seq<(usize, usize)>, roots: Set<int>, i: int)
    ensures
        doomed(hurt(s, pairs), roots, i) == doomed(s, roots, i),
    decreases i,
{
    let h = hurt(s, pairs);
    if 0 <= i < s.len() {
        if harmed(s, pairs, i) {
            let d = choose|d: int| harms(s, pairs, i, d);
        }
        if alive(s, i) {
            match s[i].unwrap().parent {
                Some(p) => {
                    if p < i {
                        lemma_hurt_keeps_doom(s, pairs, roots, p as int);
                    }
                },
                None => {},
            }
        }
    }
}

/// A projectile that runs into a solid obstacle is gone after the wall pass,
/// and so is its collider.
pub proof fn lemma_stopped_projectile_gone(s: Slots, pairs: Seq<(usize, usize)>, c: int, w: int)
    requires
        well_formed(s),
        blocked_by(s, pairs, c, w),
    ensures
        !alive(swept(s, stopped_set(s, pairs)), owner(s, c)),
        !alive(swept(s, stopped_set(s, pairs)), c),
        well_formed(swept(s, stopped_set(s, pairs))),
{
    let roots = stopped_set(s, pairs);
    let p = owner(s, c);
    assert(blocked(s, pairs, c));
    assert(doomed(s, roots, p));
    crate::world::lemma_swept_well_formed(s, roots);
}

/// A damaging contact takes the damage off the character's health; if no
/// health is left, the character is gone after the character pass with all
/// that belongs to it, and the projectile is gone in any case.
pub proof fn lemma_damage_resolved(s: Slots, pairs: Seq<(usize, usize)>, ch: int, c: int)
    requires
        well_formed(s),
        harms(s, pairs, ch, c),
    ensures
        ({
            let after = swept(hurt(s, pairs), struck_set(s, pairs));
            let left = health_left(s, pairs, ch);
            &&& !alive(after, owner(s, c))
            &&& !alive(after, c)
            &&& left <= 0 ==> forall|i: int| doomed(s, set![ch], i) ==> !alive(after, i)
            &&& alive(after, ch) ==> left > 0 && after[ch] == Some(
                Components { health: Some(Health(left as i32)), ..s[ch].unwrap() },
            ) && after[ch].unwrap().health.unwrap().0 == left
        }),
{
    let roots = struck_set(s, pairs);
    let h = hurt(s, pairs);
    let after = swept(h, roots);
    let left = health_left(s, pairs, ch);
    let p = owner(s, c);
    lemma_hurt_keeps_shape(s, pairs, roots);
    lemma_damage_bounded(s, pairs, ch, s.len() as int);
    assert(lands(s, pairs, c));
    assert(doomed(s, roots, p));
    if left <= 0 {
        assert forall|i: int| doomed(s, set![ch], i) implies !alive(after, i) by {
            crate::world::lemma_doomed_monotone(s, set![ch], roots, i);
        }
    }
    if alive(after, ch) {
    }
}

/// Where a single contact does damage to a character, the damage taken is
/// that projectile's damage.
pub proof fn lemma_single_hit(s: Slots, pairs: Seq<(usize, usize)>, ch: int, c: int)
    requires
        harms(s, pairs, ch, c),
        forall|d: int| d != c ==> !harms(s, pairs, ch, d),
    ensures
        damage_taken(s, pairs, ch, s.len() as int) == damage_of(s, c).unwrap().0,
        health_left(s, pairs, ch) == s[ch].unwrap().health.unwrap().0 - damage_of(
            s,
            c,
        ).unwrap().0,
{
    lemma_damage_of_one(s, pairs, ch, c, s.len() as int);
}

/// With a single damaging contact, the sum is nothing below it and its damage
/// from there on.
proof fn lemma_damage_of_one(s: Slots, pairs: Seq<(usize, usize)>, ch: int, c: int, k: int)
    requires
        harms(s, pairs, ch, c),
        forall|d: int| d != c ==> !harms(s, pairs, ch, d),
    ensures
        damage_taken(s, pairs, ch, k) == if k > c {
            damage_of(s, c).unwrap().0 as int
        } else {
            0
        },
    decreases k,
{
    if k > 0 {
        lemma_damage_of_one(s, pairs, ch, c, k - 1);
    }
}

/// A contact that names an entity which is gone makes no difference to
/// whether two living entities touch.
proof fn lemma_stale_pair(s: Slots, pairs: Seq<(usize, usize)>, a: usize, b: usize, x: int, y: int)
    requires
        !alive(s, a as int) || !alive(s, b as int),
        alive(s, x),
        alive(s, y),
    ensures
        touching(pairs.push((a, b)), x, y) == touching(pairs, x, y),
{
    let more = pairs.push((a, b));
    if touching(pairs, x, y) {
        let k = choose|k: int| 0 <= k < pairs.len() && joins(#[trigger] pairs[k], x, y);
        assert(joins(more[k], x, y));
    }
    if touching(more, x, y) {
        let k = choose|k: int| 0 <= k < more.len() && joins(#[trigger] more[k], x, y);
        assert(joins(pairs[k], x, y));
    }
}

/// A contact that names an entity which is gone adds nothing to the damage.
proof fn lemma_stale_damage(
    s: Slots,
    pairs: Seq<(usize, usize)>,
    a: usize,
    b: usize,
    ch: int,
    k: int,
)
    requires
        !alive(s, a as int) || !alive(s, b as int),
    ensures
        damage_taken(s, pairs.push((a, b)), ch, k) == damage_taken(s, pairs, ch, k),
    decreases k,
{
    if k > 0 {
        lemma_stale_damage(s, pairs, a, b, ch, k - 1);
        if alive(s, ch) && alive(s, k - 1) {
            lemma_stale_pair(s, pairs, a, b, ch, k - 1);
        }
    }
}

/// A contact that names an entity which is gone is passed over: with it or
/// without it, the wall pass and the character pass destroy the same entities
/// and leave the same health.
pub proof fn lemma_stale_contact_ignored(s: Slots, pairs: Seq<(usize, usize)>, a: usize, b: usize)
    requires
        !alive(s, a as int) || !alive(s, b as int),
    ensures
        stopped_set(s, pairs.push((a, b))) == stopped_set(s, pairs),
        struck_set(s, pairs.push((a, b))) == struck_set(s, pairs),
        hurt(s, pairs.push((a, b))) == hurt(s, pairs),
{
    let more = pairs.push((a, b));
    assert forall|c: int, w: int| blocked_by(s, more, c, w) == blocked_by(s, pairs, c, w) by {
        if alive(s, c) && alive(s, w) {
            lemma_stale_pair(s, pairs, a, b, w, c);
        }
    }
    assert forall|c: int| blocked(s, more, c) == blocked(s, pairs, c) by {
        if blocked(s, more, c) {
            let w = choose|w: int| blocked_by(s, more, c, w);
            assert(blocked_by(s, pairs, c, w));
        }
        if blocked(s, pairs, c) {
            let w = choose|w: int| blocked_by(s, pairs, c, w);
            assert(blocked_by(s, more, c, w));
        }
    }
    assert forall|p: int| stopped(s, more, p) == stopped(s, pairs, p) by {
        if stopped(s, more, p) {
            let c = choose|c: int| #[trigger] blocked(s, more, c) && owner(s, c) == p;
            assert(blocked(s, pairs, c));
        }
        if stopped(s, pairs, p) {
            let c = choose|c: int| #[trigger] blocked(s, pairs, c) && owner(s, c) == p;
            assert(blocked(s, more, c));
        }
    }
    assert(stopped_set(s, more) =~= stopped_set(s, pairs));
    assert forall|ch: int, c: int| strikes(s, more, ch, c) == strikes(s, pairs, ch, c) by {
        if alive(s, ch) && alive(s, c) {
            lemma_stale_pair(s, pairs, a, b, ch, c);
        }
    }
    assert forall|c: int| lands(s, more, c) == lands(s, pairs, c) by {
        if lands(s, more, c) {
            let ch = choose|ch: int| strikes(s, more, ch, c);
            assert(strikes(s, pairs, ch, c));
        }
        if lands(s, pairs, c) {
            let ch = choose|ch: int| strikes(s, pairs, ch, c);
            assert(strikes(s, more, ch, c));
        }
    }
    assert forall|p: int| spent(s, more, p) == spent(s, pairs, p) by {
        if spent(s, more, p) {
            let c = choose|c: int| #[trigger] lands(s, more, c) && owner(s, c) == p;
            assert(lands(s, pairs, c));
        }
        if spent(s, pairs, p) {
            let c = choose|c: int| #[trigger] lands(s, pairs, c) && owner(s, c) == p;
            assert(lands(s, more, c));
        }
    }
    assert forall|ch: int| harmed(s, more, ch) == harmed(s, pairs, ch) by {
        if harmed(s, more, ch) {
            let c = choose|c: int| harms(s, more, ch, c);
            assert(harms(s, pairs, ch, c));
        }
        if harmed(s, pairs, ch) {
            let c = choose|c: int| harms(s, pairs, ch, c);
            assert(harms(s, more, ch, c));
        }
    }
    assert forall|ch: int| health_left(s, more, ch) == health_left(s, pairs, ch) by {
        lemma_stale_damage(s, pairs, a, b, ch, s.len() as int);
    }
    assert(struck_set(s, more) =~= struck_set(s, pairs));
    assert(hurt(s, more) =~= hurt(s, pairs));
}

} // verus!
