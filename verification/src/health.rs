//! The health bar: a row of segments that disappear as health drops.
//!
//! A character with `n` segments shows its health in `n - 1` equal chunks of
//! its maximum. Segment `i` goes once `i` is at or above the health divided by
//! the chunk and rounded to the nearest whole, halves rounded up. Segments
//! that went never come back.

use crate::character_stats::{Health, MaxHealth, UNIT};
use crate::world::{alive, doomed, marked, swept, well_formed, Slots, World};
use vstd::prelude::*;

verus! {

/// Number of segments in the health bar of a newly spawned character.
pub const SEGMENTS: usize = 24;

/// The frame of the bar's sheet that segment 0 shows.
pub const FIRST_BAR_FRAME: usize = 5;

/// One segment of a health bar, tagged with its position in the row.
#[derive(Clone, Copy, Debug, PartialEq, Eq, Structural)]
pub struct Bar(pub usize);

/// Carried by a character that owns a health bar.
#[derive(Clone, Copy, Debug, PartialEq, Eq, Structural)]
pub struct HealthBar {
    /// Number of segments that the bar was made with.
    pub segments: usize,
}

/// How a segment is drawn: its frame and its place relative to the owner.
#[derive(Clone, Copy, Debug, PartialEq, Eq, Structural)]
pub struct BarSprite {
    /// Frame of the bar's sheet.
    pub index: usize,
    /// Horizontal offset from the owner, in steps.
    pub x: i128,
    /// Vertical offset from the owner, in steps.
    pub y: i32,
    /// Horizontal scale, in thousandths.
    pub scale_x: i32,
}

/// Number of chunks that a bar of `segments` segments divides the health into.
pub open spec fn chunks(segments: nat) -> nat {
    if segments == 0 {
        0
    } else {
        (segments - 1) as nat
    }
}

/// Whether segment `index` is at or above `health` divided by the chunk
/// `max_health / chunks(segments)`, rounded half up.
///
/// Stated without division: `index + 1/2 > health * chunks / max_health`.
pub open spec fn depleted(health: int, max_health: nat, segments: nat, index: nat) -> bool {
    (2 * index + 1) * max_health > 2 * health * chunks(segments)
}

/// The first index that is depleted, if there is one: the health divided by
/// the chunk, rounded to the nearest whole with halves rounded up, and zero for
/// a health that is not positive. With a maximum of zero the chunk is zero:
/// a negative health then empties the bar and any other leaves it alone.
pub open spec fn threshold(health: int, max_health: nat, segments: nat) -> Option<nat> {
    if max_health == 0 {
        if health < 0 && chunks(segments) > 0 {
            Some(0nat)
        } else {
            None
        }
    } else if health <= 0 {
        Some(0nat)
    } else {
        Some(((2 * health * chunks(segments) + max_health) / (2 * max_health as int)) as nat)
    }
}

/// Number of segments among the first `k` that are not depleted.
pub open spec fn visible(health: int, max_health: nat, segments: nat, k: nat) -> nat
    decreases k,
{
    if k == 0 {
        0
    } else {
        visible(health, max_health, segments, (k - 1) as nat) + if depleted(
            health,
            max_health,
            segments,
            (k - 1) as nat,
        ) {
            0nat
        } else {
            1nat
        }
    }
}

/// The depleted segments are exactly those from the threshold upward.
pub proof fn lemma_depleted_from_threshold(
    health: int,
    max_health: nat,
    segments: nat,
    index: nat,
)
    ensures
        depleted(health, max_health, segments, index) <==> (threshold(
            health,
            max_health,
            segments,
        ) matches Some(t) && index >= t),
{
    let c = chunks(segments) as int;
    let m = max_health as int;
    let i = index as int;
    if m == 0 {
        assert((2 * i + 1) * m == 0) by (nonlinear_arith)
            requires
                m == 0,
        ;
        assert((2 * health * c < 0) <==> (health < 0 && c > 0)) by (nonlinear_arith)
            requires
                c >= 0,
        ;
    } else if health <= 0 {
        assert((2 * i + 1) * m > 0 && 2 * health * c <= 0) by (nonlinear_arith)
            requires
                i >= 0,
                m > 0,
                health <= 0,
                c >= 0,
        ;
    } else {
        let x = 2 * health * c + m;
        let d = 2 * m;
        let t = x / d;
        vstd::arithmetic::div_mod::lemma_fundamental_div_mod(x, d);
        vstd::arithmetic::div_mod::lemma_mod_bound(x, d);
        assert(x >= 0) by (nonlinear_arith)
            requires
                x == 2 * health * c + m,
                health > 0,
                c >= 0,
                m > 0,
        ;
        vstd::arithmetic::div_mod::lemma_div_pos_is_pos(x, d);
        assert(((2 * i + 1) * m > 2 * health * c) <==> i >= t) by (nonlinear_arith)
            requires
                x == 2 * health * c + m,
                d == 2 * m,
                m > 0,
                x == d * t + x % d,
                0 <= x % d < d,
        ;
    }
}

/// Of the first `k` segments, those below the threshold are visible and no
/// others.
pub proof fn lemma_visible_up_to_threshold(health: int, max_health: nat, segments: nat, k: nat)
    ensures
        visible(health, max_health, segments, k) == match threshold(health, max_health, segments) {
            Some(t) => if t < k {
                t
            } else {
                k
            },
            None => k,
        },
    decreases k,
{
    if k > 0 {
        lemma_visible_up_to_threshold(health, max_health, segments, (k - 1) as nat);
        lemma_depleted_from_threshold(health, max_health, segments, (k - 1) as nat);
    }
}

/// A bar never shows more after a depletion than before, and what it shows
/// and what it lost add up to the whole bar.
///
/// For a full bar of `segments` segments, the number of segments left after a
/// depletion is the threshold, capped at the bar's length; the number lost is
/// what is missing to the bar's length.
pub proof fn lemma_segments_left(health: int, max_health: nat, segments: nat)
    ensures
        visible(health, max_health, segments, segments) <= segments,
        threshold(health, max_health, segments) matches Some(t) ==> visible(
            health,
            max_health,
            segments,
            segments,
        ) == if t < segments {
            t
        } else {
            segments
        },
        threshold(health, max_health, segments) is None ==> visible(
            health,
            max_health,
            segments,
            segments,
        ) == segments,
{
    lemma_visible_up_to_threshold(health, max_health, segments, segments);
}

/// At a health whose threshold is half the bar's length, a full bar keeps as
/// many segments as it loses: the number left is the bar's length less the
/// threshold.
pub proof fn lemma_half_bar(health: int, max_health: nat, segments: nat)
    requires
        threshold(health, max_health, segments) matches Some(t) && 2 * t == segments,
    ensures
        visible(health, max_health, segments, segments) == segments - threshold(
            health,
            max_health,
            segments,
        ).unwrap(),
{
    lemma_segments_left(health, max_health, segments);
}

/// Whether segment `index` of a bar of `segments` segments is depleted at this
/// health.
pub fn is_depleted(health: Health, max_health: MaxHealth, segments: usize, index: usize) -> (r:
    bool)
    ensures
        r == depleted(health.0 as int, max_health.0 as nat, segments as nat, index as nat),
{
    let c: i128 = if segments == 0 {
        0
    } else {
        (segments - 1) as i128
    };
    let m: i128 = max_health.0 as i128;
    let h: i128 = health.0 as i128;
    let i: i128 = index as i128;
    assert(0 <= (2 * i + 1) * m <= 0x4_0000_0000_0000_0000 * 0x1_0000_0000) by (nonlinear_arith)
        requires
            0 <= i <= 0x1_0000_0000_0000_0000,
            0 <= m <= 0x1_0000_0000,
    ;
    assert(-0x1_0000_0000 * 0x1_0000_0000_0000_0000 <= 2 * h * c <= 0x1_0000_0000
        * 0x1_0000_0000_0000_0000) by (nonlinear_arith)
        requires
            0 <= c <= 0x1_0000_0000_0000_0000,
            -0x8000_0000 <= h <= 0x8000_0000,
    ;
    assert(2 * h * c == (2 * h) * c) by (nonlinear_arith);
    (2 * i + 1) * m > (2 * h) * c
}

/// The index from which a bar of `segments` segments is depleted at this
/// health, if there is one.
pub fn depletion_threshold(health: Health, max_health: MaxHealth, segments: usize) -> (r: Option<
    u128,
>)
    ensures
        match r {
            Some(t) => threshold(health.0 as int, max_health.0 as nat, segments as nat) == Some(
                t as nat,
            ),
            None => threshold(health.0 as int, max_health.0 as nat, segments as nat) is None,
        },
{
    if max_health.0 == 0 {
        if health.0 < 0 && segments > 1 {
            Some(0)
        } else {
            None
        }
    } else if health.0 <= 0 {
        Some(0)
    } else {
        let c: u128 = if segments == 0 {
            0
        } else {
            (segments - 1) as u128
        };
        let m: u128 = max_health.0 as u128;
        let h: u128 = health.0 as u128;
        assert(0 <= 2 * h * c <= 0x1_0000_0000 * 0x1_0000_0000_0000_0000) by (nonlinear_arith)
            requires
                0 <= c <= 0x1_0000_0000_0000_0000,
                0 <= h <= 0x8000_0000,
        ;
        assert(2 * h * c == (2 * h) * c) by (nonlinear_arith);
        let x: u128 = (2 * h) * c + m;
        let t = x / (2 * m);
        Some(t)
    }
}

/// How segment `index` of a bar is drawn: frame `index` of the sheet, three
/// quarters of a unit further right for each index, above the owner.
pub fn create_bar_sprite(index: usize) -> (r: BarSprite)
    ensures
        r.index == index,
        r.x == index * 750 - 12500,
        r.y == 16 * UNIT,
        r.scale_x == 250,
{
    BarSprite { index, x: (index as i128) * 750 - 12500, y: 16 * UNIT, scale_x: 250 }
}

/// The entity that segment `b` belongs to.
pub open spec fn bar_owner(s: Slots, b: int) -> int {
    s[b].unwrap().parent.unwrap() as int
}

/// Whether entity `b` is a segment of the bar of a living character that has
/// a health, a maximum and a bar.
pub open spec fn measures(s: Slots, b: int) -> bool {
    &&& alive(s, b)
    &&& s[b].unwrap().bar is Some
    &&& s[b].unwrap().parent is Some
    &&& alive(s, bar_owner(s, b))
    &&& s[bar_owner(s, b)].unwrap().health is Some
    &&& s[bar_owner(s, b)].unwrap().max_health is Some
    &&& s[bar_owner(s, b)].unwrap().health_bar is Some
}

/// Whether the owner of segment `b` is at its maximum health.
pub open spec fn owner_unhurt(s: Slots, b: int) -> bool {
    s[bar_owner(s, b)].unwrap().health.unwrap().0 == s[bar_owner(
        s,
        b,
    )].unwrap().max_health.unwrap().0
}

/// Whether the index of segment `b` is depleted at its owner's health.
pub open spec fn out_of_reach(s: Slots, b: int) -> bool {
    depleted(
        s[bar_owner(s, b)].unwrap().health.unwrap().0 as int,
        s[bar_owner(s, b)].unwrap().max_health.unwrap().0 as nat,
        s[bar_owner(s, b)].unwrap().health_bar.unwrap().segments as nat,
        s[b].unwrap().bar.unwrap().0 as nat,
    )
}

/// The threshold of the bar that segment `b` belongs to.
pub open spec fn owner_threshold(s: Slots, b: int) -> Option<nat> {
    threshold(
        s[bar_owner(s, b)].unwrap().health.unwrap().0 as int,
        s[bar_owner(s, b)].unwrap().max_health.unwrap().0 as nat,
        s[bar_owner(s, b)].unwrap().health_bar.unwrap().segments as nat,
    )
}

/// Whether entity `b` is a segment that its owner's health no longer
/// reaches: the owner's health differs from its maximum, and the segment's
/// index is depleted at that health.
pub open spec fn sheds(s: Slots, b: int) -> bool {
    measures(s, b) && !owner_unhurt(s, b) && out_of_reach(s, b)
}

/// The segments that the bar pass destroys.
pub open spec fn shed_set(s: Slots) -> Set<int> {
    Set::new(|b: int| sheds(s, b))
}

/// Whether the bar segment `b` is to go.
fn is_shed(world: &World, b: usize) -> (r: bool)
    ensures
        r == sheds(world@, b as int),
{
    match world.get(b) {
        Some(segment) => match (segment.bar, segment.parent) {
            (Some(bar), Some(p)) => match world.get(p) {
                Some(owner) => match (owner.health, owner.max_health, owner.health_bar) {
                    (Some(health), Some(max_health), Some(health_bar)) => {
                        health.0 as i64 != max_health.0 as i64 && is_depleted(
                            health,
                            max_health,
                            health_bar.segments,
                            bar.0,
                        )
                    },
                    _ => false,
                },
                None => false,
            },
            _ => false,
        },
        None => false,
    }
}

/// The bar pass: for every character whose health differs from its maximum,
/// destroys the segments of its bar from the threshold upward. Returns the
/// identities of what went, in rising order.
///
/// Nothing is created and nothing that stays is changed, so a segment that
/// went does not come back.
pub fn handle_bars(world: &mut World) -> (removed: Vec<usize>)
    ensures
        final(world)@ == swept(old(world)@, shed_set(old(world)@)),
        well_formed(final(world)@),
        forall|b: int| sheds(old(world)@, b) ==> !alive(final(world)@, b),
        forall|i: int|
            alive(final(world)@, i) ==> final(world)@[i] == old(world)@[i] && !sheds(
                old(world)@,
                i,
            ),
        forall|i: int|
            alive(old(world)@, i) && !alive(final(world)@, i) <==> 0 <= i < old(world)@.len()
                && removed@.contains(i as usize),
        forall|j: int, k: int| 0 <= j < k < removed.len() ==> removed[j] < removed[k],
{
    let n = world.len();
    let ghost s = world@;
    let mut marks: Vec<bool> = Vec::new();
    let mut b: usize = 0;
    while b < n
        invariant
            b <= n,
            n == s.len(),
            world@ == s,
            marks.len() == b,
            forall|j: int| 0 <= j < b ==> marks[j] == sheds(s, j),
        decreases n - b,
    {
        marks.push(is_shed(world, b));
        b += 1;
    }
    proof {
        assert(marked(marks@) =~= shed_set(s));
    }
    let removed = world.sweep(&marks);
    proof {
        assert forall|i: int|
            alive(s, i) && !alive(world@, i) <==> 0 <= i < s.len() && removed@.contains(
                i as usize,
            ) by {
            if 0 <= i < s.len() && removed@.contains(i as usize) {
                let k = choose|k: int| 0 <= k < removed.len() && removed[k] == i as usize;
            }
        }
    }
    removed
}

/// What the bar pass leaves of a character's bar.
///
/// Take a segment of a character that stays and whose health differs from
/// its maximum. The segment is there after the pass if and only if its index
/// lies below the threshold: the bar shows the indices below the threshold
/// and no others.
pub proof fn lemma_bar_after_pass(s: Slots, b: int)
    requires
        well_formed(s),
        measures(s, b),
        !owner_unhurt(s, b),
        !doomed(s, shed_set(s), bar_owner(s, b)),
    ensures
        alive(swept(s, shed_set(s)), b) <==> !out_of_reach(s, b),
        alive(swept(s, shed_set(s)), b) <==> (owner_threshold(s, b) matches Some(t)
            ==> s[b].unwrap().bar.unwrap().0 < t),
{
    lemma_depleted_from_threshold(
        s[bar_owner(s, b)].unwrap().health.unwrap().0 as int,
        s[bar_owner(s, b)].unwrap().max_health.unwrap().0 as nat,
        s[bar_owner(s, b)].unwrap().health_bar.unwrap().segments as nat,
        s[b].unwrap().bar.unwrap().0 as nat,
    );
}

/// The bar pass is idempotent: a second pass right after the first finds
/// nothing to destroy.
pub proof fn lemma_bar_pass_idempotent(s: Slots)
    requires
        well_formed(s),
    ensures
        forall|b: int| !sheds(swept(s, shed_set(s)), b),
        swept(swept(s, shed_set(s)), shed_set(swept(s, shed_set(s)))) == swept(s, shed_set(s)),
{
    let once = swept(s, shed_set(s));
    assert forall|b: int| !sheds(once, b) by {
        if sheds(once, b) {
            assert(once[b] == s[b]);
            assert(once[bar_owner(s, b)] == s[bar_owner(s, b)]);
            assert(sheds(s, b));
            assert(shed_set(s).contains(b));
            assert(doomed(s, shed_set(s), b));
        }
    }
    crate::world::lemma_doomed_needs_living_root(once, shed_set(once));
    assert(swept(once, shed_set(once)) =~= once);
}

} // verus!
