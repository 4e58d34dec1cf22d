//! The collision oracle: which pairs of colliders touch right now.
//!
//! The physics engine finds the contacts; the simulation only asks whether
//! two colliders share one. The answer does not depend on the order in which
//! the two are named.

use vstd::prelude::*;

verus! {

/// Whether `pairs` holds the pair of `a` and `b`, in either order.
pub open spec fn touching(pairs: Seq<(usize, usize)>, a: int, b: int) -> bool {
    exists|k: int|
        0 <= k < pairs.len() && joins(#[trigger] pairs[k], a, b)
}

/// Whether `pair` is the pair of `a` and `b`, in either order.
pub open spec fn joins(pair: (usize, usize), a: int, b: int) -> bool {
    (pair.0 == a && pair.1 == b) || (pair.0 == b && pair.1 == a)
}

/// The active contacts of one tick.
pub struct Contacts {
    pub pairs: Vec<(usize, usize)>,
}

impl View for Contacts {
    type V = Seq<(usize, usize)>;

    open spec fn view(&self) -> Seq<(usize, usize)> {
        self.pairs@
    }
}

impl Contacts {
    /// No contact at all.
    pub fn new() -> (r: Contacts)
        ensures
            r@ == Seq::<(usize, usize)>::empty(),
    {
        Contacts { pairs: Vec::new() }
    }

    /// Records that the colliders `a` and `b` touch.
    pub fn report(&mut self, a: usize, b: usize)
        ensures
            final(self)@ == old(self)@.push((a, b)),
    {
        self.pairs.push((a, b));
    }

    /// Whether the colliders `a` and `b` share an active contact.
    pub fn active(&self, a: usize, b: usize) -> (r: bool)
        ensures
            r == touching(self@, a as int, b as int),
    {
        let n = self.pairs.len();
        let mut k: usize = 0;
        while k < n
            invariant
                k <= n,
                n == self.pairs.len(),
                forall|j: int| 0 <= j < k ==> !joins(#[trigger] self@[j], a as int, b as int),
            decreases n - k,
        {
            let pair = self.pairs[k];
            if (pair.0 == a && pair.1 == b) || (pair.0 == b && pair.1 == a) {
                return true;
            }
            k += 1;
        }
        false
    }
}

} // verus!
