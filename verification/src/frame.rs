//! One tick of the simulation: every pass, in the order that keeps each of
//! them from reading what an earlier one has made stale.
//!
//! The player is steered and may cast; the enemies wander or pursue; the
//! contacts are resolved, walls first and characters second; only then are
//! the health bars brought in line with the health that is left; the
//! animations come last.

use crate::contact::Contacts;
use crate::enemy::{chase, handle_alerted, random_walking, roams_to, stirred, wandering};
use crate::geometry::Movement;
use crate::health::{
    bar_owner, depleted, handle_bars, lemma_bar_after_pass, measures, shed_set,
};
use crate::player::{
    cooled, faced, handle_cooldown, handle_idle, handle_sprite_change, idled, player_movement,
    steered, stride, walked, Keyboard,
};
use crate::projectile::{
    animate_fireball, destroy_on_characters, destroy_on_solid_wall, flickered, harms, health_left,
    hurt, lemma_damage_resolved, lemma_hurt_keeps_shape, recast, spawn_fireball, stopped_set,
    struck_set, volley,
};
use crate::world::{
    alive, doomed, each, gathered, lemma_swept_well_formed, swept, well_formed, Components, Slots,
    World,
};
use vstd::prelude::*;

verus! {

/// What one tick asks of the host.
pub struct Outcome {
    /// Movements of the players.
    pub steps: Vec<Movement>,
    /// Movements of the wandering enemies.
    pub strolls: Vec<Movement>,
    /// Movements of the pursuing enemies.
    pub chases: Vec<Movement>,
    /// Identities of the fireballs that were cast; the collider of each has
    /// the identity that follows.
    pub cast: Vec<usize>,
    /// Identities of what the wall pass destroyed.
    pub stopped: Vec<usize>,
    /// Identities of what the character pass destroyed.
    pub struck: Vec<usize>,
    /// Identities of the bar segments that went.
    pub shed: Vec<usize>,
}

/// The store after the keys were read, the cooldowns ticked and the casts
/// made.
pub open spec fn commanded(s: Slots, keys: Keyboard, elapsed: u64) -> Slots {
    let steered = each(s, |c: Components| steered(c, keys));
    let cooled = each(steered, |c: Components| cooled(c, elapsed));
    each(cooled, |c: Components| recast(c, keys.action_released)) + volley(
        cooled,
        keys.action_released,
        cooled.len() as int,
    )
}

/// The store after the wall pass.
pub open spec fn walled(s: Slots, pairs: Seq<(usize, usize)>) -> Slots {
    swept(s, stopped_set(s, pairs))
}

/// The store after the wall pass and the character pass.
pub open spec fn fought(s: Slots, pairs: Seq<(usize, usize)>) -> Slots {
    swept(hurt(walled(s, pairs), pairs), struck_set(walled(s, pairs), pairs))
}

/// The store after the contacts were resolved and the bars brought in line:
/// the bar pass reads the health that the character pass left.
pub open spec fn resolved(s: Slots, pairs: Seq<(usize, usize)>) -> Slots {
    swept(fought(s, pairs), shed_set(fought(s, pairs)))
}

/// The store after all animation passes.
pub open spec fn animated(s: Slots, elapsed: u64) -> Slots {
    let idled = each(s, |c: Components| idled(c));
    let faced = each(idled, |c: Components| faced(c));
    let walked = each(faced, |c: Components| walked(c, elapsed));
    let stirred = each(walked, |c: Components| stirred(c, elapsed));
    each(stirred, |c: Components| flickered(c, elapsed))
}

/// Runs one tick of `elapsed` nanoseconds with the keys and the contacts of
/// this tick, and returns what the host is to do: the movements to apply, the
/// fireballs to show and the entities to take away.
pub fn advance(world: &mut World, keys: &Keyboard, contacts: &Contacts, elapsed: u64) -> (out:
    Outcome)
    ensures
        well_formed(final(world)@),
        forall|i: int|
            0 <= i < old(world)@.len() && alive(final(world)@, i) ==> alive(old(world)@, i),
        forall|i: int|
            alive(final(world)@, i) && (#[trigger] final(world)@[i]).unwrap().bar is Some ==> alive(
                old(world)@,
                i,
            ) && old(world)@[i].unwrap().bar == final(world)@[i].unwrap().bar,
        out.steps@ == gathered(
            old(world)@,
            |c: Components| stride(c, *keys, elapsed),
            old(world)@.len() as int,
        ),
        2 * out.cast.len() + old(world)@.len() == commanded(old(world)@, *keys, elapsed).len(),
        forall|k: int|
            0 <= k < out.cast.len() ==> #[trigger] out.cast[k] == old(world)@.len() + 2 * k,
        out.strolls@ == gathered(
            commanded(old(world)@, *keys, elapsed),
            |c: Components| crate::enemy::stroll(c, elapsed),
            commanded(old(world)@, *keys, elapsed).len() as int,
        ),
        exists|roamed: Slots|
            {
                &&& wandering(commanded(old(world)@, *keys, elapsed), roamed, elapsed)
                &&& out.chases@ == gathered(
                    roamed,
                    |c: Components| chase(roamed, c, elapsed),
                    roamed.len() as int,
                )
                &&& final(world)@ == animated(resolved(roamed, contacts@), elapsed)
                &&& forall|i: int|
                    alive(roamed, i) && !alive(walled(roamed, contacts@), i)
                        <==> 0 <= i < roamed.len() && out.stopped@.contains(i as usize)
                &&& forall|i: int|
                    alive(walled(roamed, contacts@), i) && !alive(fought(roamed, contacts@), i)
                        <==> 0 <= i < roamed.len() && out.struck@.contains(i as usize)
                &&& forall|i: int|
                    alive(fought(roamed, contacts@), i) && !alive(resolved(roamed, contacts@), i)
                        <==> 0 <= i < roamed.len() && out.shed@.contains(i as usize)
            },
{
    let steps = player_movement(world, keys, elapsed);
    handle_cooldown(world, elapsed);
    let cast = spawn_fireball(world, keys.action_released);
    assert(world@ == commanded(old(world)@, *keys, elapsed));
    let strolls = random_walking(world, elapsed);
    let ghost roamed = world@;
    proof {
        lemma_nothing_comes_back(old(world)@, *keys, elapsed, roamed, contacts@);
    }
    let chases = handle_alerted(world, elapsed);
    let stopped = destroy_on_solid_wall(world, contacts);
    let struck = destroy_on_characters(world, contacts);
    let shed = handle_bars(world);
    handle_idle(world);
    handle_sprite_change(world);
    crate::player::animate_sprite(world, elapsed);
    crate::enemy::animate_sprite(world, elapsed);
    animate_fireball(world, elapsed);
    assert(world@ == animated(resolved(roamed, contacts@), elapsed));
    Outcome { steps, strolls, chases, cast, stopped, struck, shed }
}

/// The bar of a character that was hurt shows the health that is left after
/// the damage, not the health before it.
///
/// Take a character that a projectile hurts in this tick and that stays, and
/// whose health then differs from its maximum. A segment of its bar that is
/// there before the bar pass is there after it if and only if its index is not
/// depleted at the health less the damage.
pub proof fn lemma_bar_shows_health_after_damage(
    s: Slots,
    pairs: Seq<(usize, usize)>,
    c: int,
    b: int,
)
    requires
        well_formed(s),
        measures(fought(s, pairs), b),
        harms(walled(s, pairs), pairs, bar_owner(fought(s, pairs), b), c),
        !doomed(fought(s, pairs), shed_set(fought(s, pairs)), bar_owner(fought(s, pairs), b)),
        health_left(walled(s, pairs), pairs, bar_owner(fought(s, pairs), b)) != fought(
            s,
            pairs,
        )[bar_owner(fought(s, pairs), b)].unwrap().max_health.unwrap().0,
    ensures
        alive(resolved(s, pairs), b) <==> !depleted(
            health_left(walled(s, pairs), pairs, bar_owner(fought(s, pairs), b)),
            fought(s, pairs)[bar_owner(fought(s, pairs), b)].unwrap().max_health.unwrap().0 as nat,
            fought(s, pairs)[bar_owner(
                fought(s, pairs),
                b,
            )].unwrap().health_bar.unwrap().segments as nat,
            fought(s, pairs)[b].unwrap().bar.unwrap().0 as nat,
        ),
{
    let w = walled(s, pairs);
    let f = fought(s, pairs);
    let ch = bar_owner(f, b);
    lemma_swept_well_formed(s, stopped_set(s, pairs));
    lemma_damage_resolved(w, pairs, ch, c);
    lemma_hurt_keeps_shape(w, pairs, struck_set(w, pairs));
    lemma_swept_well_formed(hurt(w, pairs), struck_set(w, pairs));
    lemma_bar_after_pass(f, b);
}

/// What the casters spawn owns no bar segment.
proof fn lemma_volley_has_no_bar(s: Slots, asked: bool, k: int)
    ensures
        forall|j: int|
            0 <= j < volley(s, asked, k).len() ==> (#[trigger] volley(s, asked, k)[j]) is Some
                && volley(s, asked, k)[j].unwrap().bar is None,
    decreases k,
{
    if k > 0 {
        lemma_volley_has_no_bar(s, asked, k - 1);
    }
}

/// Nothing comes back within a tick: an entity that was there before the tick
/// and is alive after it was alive before it, and every bar segment that is
/// alive after the tick was alive before it, with the same index. What a tick
/// adds are fireballs and their colliders.
pub proof fn lemma_nothing_comes_back(
    s: Slots,
    keys: Keyboard,
    elapsed: u64,
    roamed: Slots,
    pairs: Seq<(usize, usize)>,
)
    requires
        wandering(commanded(s, keys, elapsed), roamed, elapsed),
    ensures
        forall|i: int|
            0 <= i < s.len() && alive(animated(resolved(roamed, pairs), elapsed), i) ==> alive(
                s,
                i,
            ),
        forall|i: int|
            alive(animated(resolved(roamed, pairs), elapsed), i) && (#[trigger] animated(
                resolved(roamed, pairs),
                elapsed,
            )[i]).unwrap().bar is Some ==> alive(s, i) && s[i].unwrap().bar == animated(
                resolved(roamed, pairs),
                elapsed,
            )[i].unwrap().bar,
{
    let c = commanded(s, keys, elapsed);
    let w = walled(roamed, pairs);
    let f = fought(roamed, pairs);
    let r = resolved(roamed, pairs);
    let a = animated(r, elapsed);
    let steered = each(s, |c: Components| steered(c, keys));
    let cooled = each(steered, |c: Components| cooled(c, elapsed));
    let shots = volley(cooled, keys.action_released, cooled.len() as int);
    lemma_volley_has_no_bar(cooled, keys.action_released, cooled.len() as int);
    lemma_hurt_keeps_shape(w, pairs, struck_set(w, pairs));
    assert forall|i: int| alive(a, i) implies alive(roamed, i) && a[i].unwrap().bar
        == roamed[i].unwrap().bar by {
        assert(alive(r, i));
        assert(r[i] == f[i]);
        assert(alive(hurt(w, pairs), i));
        assert(f[i] == hurt(w, pairs)[i]);
        assert(alive(w, i));
        assert(w[i] == roamed[i]);
        assert(hurt(w, pairs)[i].unwrap().bar == w[i].unwrap().bar);
    }
    assert forall|i: int| alive(roamed, i) implies alive(c, i) && roamed[i].unwrap().bar
        == c[i].unwrap().bar by {
        assert(roams_to(c[i].unwrap(), elapsed, roamed[i].unwrap()));
    }
    assert forall|i: int| alive(c, i) implies (if i < s.len() {
        alive(s, i) && c[i].unwrap().bar == s[i].unwrap().bar
    } else {
        c[i].unwrap().bar is None
    }) by {
        if i >= s.len() {
            assert(c[i] == shots[i - s.len()]);
        }
    }
}

} // verus!
