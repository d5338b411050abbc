//! Change tracker: an index-keyed dirty-set that accumulates which cells
//! changed since it was last drained, consumed by a renderer to know what to
//! rebuild.
//!
//! Marking a cell also marks its six face-adjacent in-bounds neighbours,
//! because a cell's rendered faces depend on neighbour occupancy. The tracker
//! starts fully dirty so that a first drain reports every cell.

use vstd::prelude::*;

use crate::model::{index_of, valid_coords, WORLD_SIZE, WORLD_VOLUME};

verus! {

/// The set of indices marked dirty when the cell at (x, y, z) is touched:
/// the cell itself and each in-bounds face-adjacent neighbour. Out-of-bounds
/// coordinates contribute nothing.
pub open spec fn touched_set(x: int, y: int, z: int) -> Set<int> {
    Set::<int>::empty()
        .union(if valid_coords(x, y, z) { Set::<int>::empty().insert(index_of(x, y, z)) } else { Set::<int>::empty() })
        .union(if x >= 1 && valid_coords(x - 1, y, z) { Set::<int>::empty().insert(index_of(x - 1, y, z)) } else { Set::<int>::empty() })
        .union(if x + 1 < 30 && valid_coords(x + 1, y, z) { Set::<int>::empty().insert(index_of(x + 1, y, z)) } else { Set::<int>::empty() })
        .union(if y >= 1 && valid_coords(x, y - 1, z) { Set::<int>::empty().insert(index_of(x, y - 1, z)) } else { Set::<int>::empty() })
        .union(if y + 1 < 30 && valid_coords(x, y + 1, z) { Set::<int>::empty().insert(index_of(x, y + 1, z)) } else { Set::<int>::empty() })
        .union(if z >= 1 && valid_coords(x, y, z - 1) { Set::<int>::empty().insert(index_of(x, y, z - 1)) } else { Set::<int>::empty() })
        .union(if z + 1 < 30 && valid_coords(x, y, z + 1) { Set::<int>::empty().insert(index_of(x, y, z + 1)) } else { Set::<int>::empty() })
}

/// The dirty-set of grid indices. Its view is the set of indices marked
/// since the last drain.
pub struct ChangeTracker {
    dirty: Vec<bool>,
}

impl View for ChangeTracker {
    type V = Set<int>;

    closed spec fn view(&self) -> Set<int> {
        Set::new(|i: int| 0 <= i < self.dirty@.len() && self.dirty@[i])
    }
}

impl ChangeTracker {
    /// One dirty flag per cell of the world.
    pub closed spec fn wf(&self) -> bool {
        self.dirty@.len() == WORLD_VOLUME
    }

    /// Create a tracker with every cell marked dirty, so that a first drain
    /// reports the whole grid.
    pub fn new() -> (t: ChangeTracker)
        ensures
            t.wf(),
            forall|i: int| t@.contains(i) <==> 0 <= i < WORLD_VOLUME,
    {
        let mut dirty: Vec<bool> = Vec::new();
        let mut i: usize = 0;
        while i < WORLD_VOLUME
            invariant
                i <= WORLD_VOLUME,
                dirty@.len() == i,
                forall|j: int| 0 <= j < i ==> dirty@[j],
            decreases WORLD_VOLUME - i,
        {
            dirty.push(true);
            i += 1;
        }
        ChangeTracker { dirty }
    }

    /// Mark the cell at (x, y, z) and its in-bounds face-adjacent neighbours
    /// dirty. Out-of-bounds coordinates are ignored.
    pub fn update(&mut self, x: usize, y: usize, z: usize)
        requires
            old(self).wf(),
        ensures
            final(self).wf(),
            final(self)@ == old(self)@.union(touched_set(x as int, y as int, z as int)),
    {
        if x < WORLD_SIZE && y < WORLD_SIZE && z < WORLD_SIZE {
            let i = crate::model::World::coordiantes_to_index(x, y, z);
            self.dirty.set(i, true);
        }
        if x >= 1 && x - 1 < WORLD_SIZE && y < WORLD_SIZE && z < WORLD_SIZE {
            let i = crate::model::World::coordiantes_to_index(x - 1, y, z);
            self.dirty.set(i, true);
        }
        if x < WORLD_SIZE - 1 && y < WORLD_SIZE && z < WORLD_SIZE {
            let i = crate::model::World::coordiantes_to_index(x + 1, y, z);
            self.dirty.set(i, true);
        }
        if x < WORLD_SIZE && y >= 1 && y - 1 < WORLD_SIZE && z < WORLD_SIZE {
            let i = crate::model::World::coordiantes_to_index(x, y - 1, z);
            self.dirty.set(i, true);
        }
        if x < WORLD_SIZE && y < WORLD_SIZE - 1 && z < WORLD_SIZE {
            let i = crate::model::World::coordiantes_to_index(x, y + 1, z);
            self.dirty.set(i, true);
        }
        if x < WORLD_SIZE && y < WORLD_SIZE && z >= 1 && z - 1 < WORLD_SIZE {
            let i = crate::model::World::coordiantes_to_index(x, y, z - 1);
            self.dirty.set(i, true);
        }
        if x < WORLD_SIZE && y < WORLD_SIZE && z < WORLD_SIZE - 1 {
            let i = crate::model::World::coordiantes_to_index(x, y, z + 1);
            self.dirty.set(i, true);
        }
        proof {
            assert(final(self)@ =~= old(self)@.union(
                touched_set(x as int, y as int, z as int),
            ));
        }
    }

    /// Return every dirty index, in ascending order without duplicates, and
    /// clear the set: a drain immediately after returns nothing.
    pub fn drain(&mut self) -> (r: Vec<usize>)
        requires
            old(self).wf(),
        ensures
            final(self).wf(),
            final(self)@ == Set::<int>::empty(),
            forall|u: usize| r@.contains(u) <==> old(self)@.contains(u as int),
            forall|k: int| 0 <= k < r@.len() ==> r@[k] < WORLD_VOLUME,
            forall|k1: int, k2: int| 0 <= k1 < k2 < r@.len() ==> r@[k1] < r@[k2],
    {
        let mut r: Vec<usize> = Vec::new();
        let mut i: usize = 0;
        while i < WORLD_VOLUME
            invariant
                old(self).wf(),
                self.dirty@.len() == WORLD_VOLUME,
                i <= WORLD_VOLUME,
                forall|j: int| 0 <= j < i ==> !self.dirty@[j],
                forall|j: int| i <= j < WORLD_VOLUME ==> self.dirty@[j] == old(self).dirty@[j],
                forall|u: usize| r@.contains(u) <==> (u < i && old(self)@.contains(u as int)),
                forall|k: int| 0 <= k < r@.len() ==> r@[k] < i,
                forall|k1: int, k2: int| 0 <= k1 < k2 < r@.len() ==> r@[k1] < r@[k2],
            decreases WORLD_VOLUME - i,
        {
            proof {
                broadcast use vstd::seq_lib::lemma_seq_contains_after_push;

            }
            if self.dirty[i] {
                r.push(i);
            }
            self.dirty.set(i, false);
            i += 1;
        }
        proof {
            assert(final(self)@ =~= Set::<int>::empty());
        }
        r
    }
}

/// Marking a cell and then draining reports that cell and all of its
/// in-bounds face-adjacent neighbours; and after a drain the tracker is
/// empty, so a second drain reports nothing. Stated over the tracker's view:
/// `update` adds exactly `touched_set` and `drain` returns exactly the view
/// while clearing it, so this pins down what that drained set contains.
pub proof fn lemma_update_then_drain(s: Set<int>, x: int, y: int, z: int)
    requires
        valid_coords(x, y, z),
    ensures
        s.union(touched_set(x, y, z)).contains(index_of(x, y, z)),
        x >= 1 ==> s.union(touched_set(x, y, z)).contains(index_of(x - 1, y, z)),
        x + 1 < 30 ==> s.union(touched_set(x, y, z)).contains(index_of(x + 1, y, z)),
        y >= 1 ==> s.union(touched_set(x, y, z)).contains(index_of(x, y - 1, z)),
        y + 1 < 30 ==> s.union(touched_set(x, y, z)).contains(index_of(x, y + 1, z)),
        z >= 1 ==> s.union(touched_set(x, y, z)).contains(index_of(x, y, z - 1)),
        z + 1 < 30 ==> s.union(touched_set(x, y, z)).contains(index_of(x, y, z + 1)),
{
}

} // verus!
