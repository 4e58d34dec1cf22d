//! The entity store: every entity of the simulation with what it owns.
//!
//! An entity is known by the index of its slot, which is never given out
//! twice. A child names its parent; the link serves only to find the children
//! and to take them along when the parent is destroyed.

use crate::animation::{AnimationTimer, Sprite};
use crate::character_stats::{Damage, Health, MaxHealth, WalkSpeed};
use crate::enemy::{AggroStatus, Enemy, WalkDirection, WalkTime};
use crate::geometry::{Delta, Movement, Position, Velocity};
use crate::health::{Bar, HealthBar};
use crate::player::Player;
use crate::skills::{Cooldown, Launch};
use vstd::prelude::*;

verus! {

/// What one entity owns: at most one of each component.
#[derive(Clone, Copy, Debug, PartialEq, Eq, Structural)]
pub struct Components {
    /// The entity that this one belongs to.
    pub parent: Option<usize>,
    /// A solid obstacle.
    pub wall: bool,
    /// A collider whose contacts are reported.
    pub collider: bool,
    /// Moved by explicit deltas.
    pub kinematic: bool,
    /// Where the entity stood when the host last said so.
    pub position: Option<Position>,
    pub sprite: Option<Sprite>,
    pub animation: Option<AnimationTimer>,
    pub health: Option<Health>,
    pub max_health: Option<MaxHealth>,
    pub health_bar: Option<HealthBar>,
    pub bar: Option<Bar>,
    pub damage: Option<Damage>,
    pub walk_speed: Option<WalkSpeed>,
    pub enemy: Option<Enemy>,
    pub aggro: Option<AggroStatus>,
    pub walk_time: Option<WalkTime>,
    pub walk_direction: Option<WalkDirection>,
    pub player: Option<Player>,
    pub cooldown: Option<Cooldown>,
    /// A projectile.
    pub fireball: bool,
    /// The camera that follows its parent.
    pub camera: bool,
    pub launch: Option<Launch>,
    pub velocity: Option<Velocity>,
}

impl Components {
    /// An entity that owns nothing.
    pub open spec fn bare() -> Components {
        Components {
            parent: None,
            wall: false,
            collider: false,
            kinematic: false,
            position: None,
            sprite: None,
            animation: None,
            health: None,
            max_health: None,
            health_bar: None,
            bar: None,
            damage: None,
            walk_speed: None,
            enemy: None,
            aggro: None,
            walk_time: None,
            walk_direction: None,
            player: None,
            cooldown: None,
            fireball: false,
            camera: false,
            launch: None,
            velocity: None,
        }
    }

    /// An entity that owns nothing.
    pub fn empty() -> (r: Components)
        ensures
            r == Components::bare(),
    {
        Components {
            parent: None,
            wall: false,
            collider: false,
            kinematic: false,
            position: None,
            sprite: None,
            animation: None,
            health: None,
            max_health: None,
            health_bar: None,
            bar: None,
            damage: None,
            walk_speed: None,
            enemy: None,
            aggro: None,
            walk_time: None,
            walk_direction: None,
            player: None,
            cooldown: None,
            fireball: false,
            camera: false,
            launch: None,
            velocity: None,
        }
    }
}

/// The slots of a store: an entity's components, or nothing once it is gone.
pub type Slots = Seq<Option<Components>>;

/// Whether slot `i` holds a living entity.
pub open spec fn alive(s: Slots, i: int) -> bool {
    0 <= i < s.len() && s[i] is Some
}

/// The invariant of the store: a living child has a living parent, which is
/// older than the child.
pub open spec fn well_formed(s: Slots) -> bool {
    forall|i: int|
        alive(s, i) && (#[trigger] s[i]).unwrap().parent is Some ==> {
            let p = s[i].unwrap().parent.unwrap();
            p < i && alive(s, p as int)
        }
}

/// Whether entity `i` goes when the entities in `roots` are destroyed: it is
/// alive, and it or one of its ancestors is in `roots`.
pub open spec fn doomed(s: Slots, roots: Set<int>, i: int) -> bool
    decreases i,
{
    if alive(s, i) {
        roots.contains(i) || match s[i].unwrap().parent {
            Some(p) => p < i && doomed(s, roots, p as int),
            None => false,
        }
    } else {
        false
    }
}

/// The store after the entities in `roots` were destroyed with all that
/// belongs to them.
pub open spec fn swept(s: Slots, roots: Set<int>) -> Slots {
    Seq::new(
        s.len(),
        |i: int|
            if doomed(s, roots, i) {
                None
            } else {
                s[i]
            },
    )
}

/// The store with `f` applied to what each living entity owns.
pub open spec fn each(s: Slots, f: spec_fn(Components) -> Components) -> Slots {
    Seq::new(
        s.len(),
        |i: int|
            match s[i] {
                Some(c) => Some(f(c)),
                None => None,
            },
    )
}

/// The store with `f` applied to what each living entity below `k` owns.
pub open spec fn each_below(s: Slots, f: spec_fn(Components) -> Components, k: int) -> Slots {
    Seq::new(
        s.len(),
        |i: int|
            if i < k {
                each(s, f)[i]
            } else {
                s[i]
            },
    )
}

/// The movements that `g` asks of the living entities below `k`, in the
/// order of their identities.
pub open spec fn gathered(s: Slots, g: spec_fn(Components) -> Option<Delta>, k: int) -> Seq<
    Movement,
>
    decreases k,
{
    if k <= 0 {
        Seq::empty()
    } else {
        let rest = gathered(s, g, k - 1);
        match s[k - 1] {
            Some(c) => match g(c) {
                Some(delta) => rest.push(Movement { entity: (k - 1) as usize, delta }),
                None => rest,
            },
            None => rest,
        }
    }
}

/// The identities that a list of marks names.
pub open spec fn marked(marks: Seq<bool>) -> Set<int> {
    Set::new(|i: int| 0 <= i < marks.len() && marks[i])
}

/// Destroying entities leaves no orphan behind.
pub proof fn lemma_swept_well_formed(s: Slots, roots: Set<int>)
    requires
        well_formed(s),
    ensures
        well_formed(swept(s, roots)),
{
    let t = swept(s, roots);
    assert forall|i: int| alive(t, i) && (#[trigger] t[i]).unwrap().parent is Some implies {
        let p = t[i].unwrap().parent.unwrap();
        p < i && alive(t, p as int)
    } by {
        let p = s[i].unwrap().parent.unwrap();
    }
}

/// A list of `n` marks, none of them set.
pub fn no_marks(n: usize) -> (marks: Vec<bool>)
    ensures
        marks.len() == n,
        forall|i: int| 0 <= i < n ==> !marks[i],
{
    let mut marks: Vec<bool> = Vec::new();
    let mut i: usize = 0;
    while i < n
        invariant
            i <= n,
            marks.len() == i,
            forall|j: int| 0 <= j < i ==> !marks[j],
        decreases n - i,
    {
        marks.push(false);
        i += 1;
    }
    marks
}

/// The entity store.
pub struct World {
    slots: Vec<Option<Components>>,
}

impl View for World {
    type V = Slots;

    closed spec fn view(&self) -> Slots {
        self.slots@
    }
}

impl World {
    #[verifier::type_invariant]
    pub open spec fn inv(self) -> bool {
        well_formed(self@)
    }

    /// A store without entities.
    pub fn new() -> (r: World)
        ensures
            r@ == Seq::<Option<Components>>::empty(),
    {
        World { slots: Vec::new() }
    }

    /// Number of slots given out so far.
    pub fn len(&self) -> (r: usize)
        ensures
            r == self@.len(),
            well_formed(self@),
    {
        proof {
            use_type_invariant(self);
        }
        self.slots.len()
    }

    /// What entity `id` owns, if it is alive.
    pub fn get(&self, id: usize) -> (r: Option<Components>)
        ensures
            r == if alive(self@, id as int) {
                self@[id as int]
            } else {
                None
            },
    {
        if id < self.slots.len() {
            self.slots[id]
        } else {
            None
        }
    }

    /// Whether entity `id` is alive.
    pub fn is_alive(&self, id: usize) -> (r: bool)
        ensures
            r == alive(self@, id as int),
    {
        id < self.slots.len() && self.slots[id].is_some()
    }

    /// Creates an entity that owns `components` and returns its identity.
    ///
    /// Nothing is created for a parent that is no longer alive.
    pub fn spawn(&mut self, components: Components) -> (r: Option<usize>)
        ensures
            well_formed(final(self)@),
            match components.parent {
                Some(p) if !alive(old(self)@, p as int) => r is None && final(self)@ == old(self)@,
                _ => r == Some(old(self)@.len() as usize) && final(self)@ == old(self)@.push(
                    Some(components),
                ),
            },
    {
        proof {
            use_type_invariant(&*self);
        }
        let parent_alive = match components.parent {
            Some(p) => self.is_alive(p),
            None => true,
        };
        if !parent_alive {
            return None;
        }
        let id = self.slots.len();
        let mut slots: Vec<Option<Components>> = Vec::new();
        std::mem::swap(&mut slots, &mut self.slots);
        slots.push(Some(components));
        self.slots = slots;
        Some(id)
    }

    /// Replaces what entity `id` owns by `components`, but for its parent,
    /// which it keeps. Nothing happens if the entity is no longer alive.
    pub fn update(&mut self, id: usize, components: Components)
        ensures
            well_formed(final(self)@),
            final(self)@ == if alive(old(self)@, id as int) {
                old(self)@.update(
                    id as int,
                    Some(
                        Components {
                            parent: old(self)@[id as int].unwrap().parent,
                            ..components
                        },
                    ),
                )
            } else {
                old(self)@
            },
    {
        proof {
            use_type_invariant(&*self);
        }
        if id < self.slots.len() {
            match self.slots[id] {
                Some(before) => {
                    let mut slots: Vec<Option<Components>> = Vec::new();
                    std::mem::swap(&mut slots, &mut self.slots);
                    slots.set(id, Some(Components { parent: before.parent, ..components }));
                    self.slots = slots;
                },
                None => {},
            }
        }
    }

    /// Records where entity `id` stands now. Nothing happens if the entity is
    /// no longer alive.
    pub fn set_position(&mut self, id: usize, position: Position)
        ensures
            well_formed(final(self)@),
            final(self)@ == if alive(old(self)@, id as int) {
                old(self)@.update(
                    id as int,
                    Some(
                        Components {
                            position: Some(position),
                            ..old(self)@[id as int].unwrap()
                        },
                    ),
                )
            } else {
                old(self)@
            },
    {
        match self.get(id) {
            Some(c) => {
                let mut after = c;
                after.position = Some(position);
                self.update(id, after);
            },
            None => {
                proof {
                    use_type_invariant(&*self);
                }
            },
        }
    }

    /// Destroys every marked entity together with all that belongs to it, and
    /// returns the identities of what went, in rising order.
    pub fn sweep(&mut self, marks: &Vec<bool>) -> (removed: Vec<usize>)
        ensures
            well_formed(final(self)@),
            final(self)@ == swept(old(self)@, marked(marks@)),
            forall|k: int|
                0 <= k < removed.len() ==> doomed(
                    old(self)@,
                    marked(marks@),
                    #[trigger] removed[k] as int,
                ),
            forall|i: int|
                doomed(old(self)@, marked(marks@), i) ==> removed@.contains(i as usize),
            forall|j: int, k: int| 0 <= j < k < removed.len() ==> removed[j] < removed[k],
    {
        proof {
            use_type_invariant(&*self);
        }
        let ghost before = self@;
        let ghost roots = marked(marks@);
        let mut slots: Vec<Option<Components>> = Vec::new();
        std::mem::swap(&mut slots, &mut self.slots);
        let n = slots.len();
        let mut removed: Vec<usize> = Vec::new();
        let mut i: usize = 0;
        while i < n
            invariant
                i <= n,
                n == slots.len(),
                n == before.len(),
                well_formed(before),
                roots == marked(marks@),
                forall|j: int| 0 <= j < i ==> slots@[j] == #[trigger] swept(before, roots)[j],
                forall|j: int| i <= j < n ==> #[trigger] slots@[j] == before[j],
                forall|k: int|
                    0 <= k < removed.len() ==> removed[k] < i && doomed(
                        before,
                        roots,
                        #[trigger] removed[k] as int,
                    ),
                forall|j: int|
                    0 <= j < i && doomed(before, roots, j) ==> removed@.contains(j as usize),
                forall|j: int, k: int| 0 <= j < k < removed.len() ==> removed[j] < removed[k],
            decreases n - i,
        {
            let gone = match slots[i] {
                None => false,
                Some(c) => (i < marks.len() && marks[i]) || match c.parent {
                    Some(p) => p < i && slots[p].is_none(),
                    None => false,
                },
            };
            proof {
                if alive(before, i as int) {
                    match before[i as int].unwrap().parent {
                        Some(p) => {
                            assert(slots@[p as int] == swept(before, roots)[p as int]);
                        },
                        None => {},
                    }
                }
            }
            if gone {
                slots.set(i, None);
                let ghost earlier = removed@;
                removed.push(i);
                proof {
                    assert forall|j: int|
                        0 <= j < i + 1 && doomed(before, roots, j) implies removed@.contains(
                        j as usize,
                    ) by {
                        if j < i {
                            let k = choose|k: int|
                                0 <= k < earlier.len() && earlier[k] == j as usize;
                            assert(removed@[k] == j as usize);
                        } else {
                            assert(removed@[earlier.len() as int] == i);
                        }
                    }
                }
            }
            i += 1;
        }
        proof {
            assert(slots@ =~= swept(before, roots));
            lemma_swept_well_formed(before, roots);
        }
        self.slots = slots;
        removed
    }

    /// Destroys entity `id` together with all that belongs to it, and returns
    /// the identities of what went, in rising order. Nothing happens if the
    /// entity is no longer alive.
    pub fn despawn_recursive(&mut self, id: usize) -> (removed: Vec<usize>)
        ensures
            well_formed(final(self)@),
            final(self)@ == swept(old(self)@, set![id as int]),
            forall|k: int|
                0 <= k < removed.len() ==> doomed(
                    old(self)@,
                    set![id as int],
                    #[trigger] removed[k] as int,
                ),
            forall|i: int|
                doomed(old(self)@, set![id as int], i) ==> removed@.contains(i as usize),
            forall|j: int, k: int| 0 <= j < k < removed.len() ==> removed[j] < removed[k],
    {
        proof {
            use_type_invariant(&*self);
        }
        if id >= self.slots.len() {
            proof {
                lemma_doomed_needs_living_root(self@, set![id as int]);
            }
            return Vec::new();
        }
        let mut marks: Vec<bool> = Vec::new();
        let mut i: usize = 0;
        while i <= id
            invariant
                i <= id + 1,
                id < usize::MAX,
                marks.len() == i,
                forall|j: int| 0 <= j < i ==> marks[j] == (j == id),
            decreases id + 1 - i,
        {
            marks.push(i == id);
            i += 1;
        }
        proof {
            assert(marked(marks@) =~= set![id as int]);
        }
        self.sweep(&marks)
    }
}

/// Nothing goes when no root is alive.
pub proof fn lemma_doomed_needs_living_root(s: Slots, roots: Set<int>)
    requires
        forall|r: int| roots.contains(r) ==> !alive(s, r),
    ensures
        forall|i: int| !doomed(s, roots, i),
{
    assert forall|i: int| !doomed(s, roots, i) by {
        lemma_doomed_has_root(s, roots, i);
    }
}

/// Whatever goes has a living root at or above it.
pub proof fn lemma_doomed_has_root(s: Slots, roots: Set<int>, i: int)
    ensures
        doomed(s, roots, i) ==> exists|r: int| roots.contains(r) && alive(s, r) && r <= i,
    decreases i,
{
    if doomed(s, roots, i) && !roots.contains(i) {
        let p = s[i].unwrap().parent.unwrap();
        lemma_doomed_has_root(s, roots, p as int);
    }
}

/// Whatever goes with fewer roots goes with more.
pub proof fn lemma_doomed_monotone(s: Slots, fewer: Set<int>, more: Set<int>, i: int)
    requires
        fewer.subset_of(more),
    ensures
        doomed(s, fewer, i) ==> doomed(s, more, i),
    decreases i,
{
    if doomed(s, fewer, i) && !fewer.contains(i) {
        let p = s[i].unwrap().parent.unwrap();
        lemma_doomed_monotone(s, fewer, more, p as int);
    }
}

} // verus!
