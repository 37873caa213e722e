//! The world: the entity registry and one dense, fixed-capacity store per
//! component kind, all indexed directly by the entity identifier.
//!
//! A query returns the matching identifiers in ascending order; access to
//! the components of a yielded entity then goes through the constant-time
//! `get_*` and `insert_*` operations, which is how a system reads and
//! writes component values. Execution is strictly single-threaded, so this
//! read-copy-then-overwrite discipline gives a system the same exclusive
//! access a mutable reference would, without aliasing.

use vstd::prelude::*;

use crate::components::{
    Counter, EcsError, Position, Velocity, opt_ctr_view, opt_pos_view, opt_vel_view,
};
use crate::model::WorldModel;

verus! {

/// The aggregate simulation state: grid dimensions, liveness per entity
/// slot, and the component value per slot and kind. An entity identifier is
/// the index of its slot, so every lookup is a direct indexing step.
pub struct World {
    pub width: i32,
    pub height: i32,
    pub alive: Vec<bool>,
    pub positions: Vec<Option<Position>>,
    pub velocities: Vec<Option<Velocity>>,
    pub counters: Vec<Option<Counter>>,
}

impl View for World {
    type V = WorldModel;

    open spec fn view(&self) -> WorldModel {
        WorldModel {
            width: self.width as int,
            height: self.height as int,
            alive: self.alive@,
            positions: Seq::new(self.positions@.len(), |i: int| opt_pos_view(self.positions@[i])),
            velocities: Seq::new(
                self.velocities@.len(),
                |i: int| opt_vel_view(self.velocities@[i]),
            ),
            counters: Seq::new(self.counters@.len(), |i: int| opt_ctr_view(self.counters@[i])),
        }
    }
}

/// A vector of `n` empty component slots.
fn vacant_column<T>(n: usize) -> (r: Vec<Option<T>>)
    ensures
        r@.len() == n,
        forall|i: int| 0 <= i < n ==> r@[i] is None,
{
    let mut r: Vec<Option<T>> = Vec::new();
    let mut i: usize = 0;
    while i < n
        invariant
            i <= n,
            r@.len() == i,
            forall|j: int| 0 <= j < i ==> r@[j] is None,
        decreases n - i,
    {
        r.push(None);
        i = i + 1;
    }
    r
}

impl World {
    /// Well-formedness of the live state; established by `new` and
    /// preserved by every operation.
    pub open spec fn wf(self) -> bool {
        self@.wf()
    }

    /// A fresh world: `capacity` entity slots, all dead and empty, on a
    /// `width` by `height` grid.
    pub fn new(capacity: usize, width: i32, height: i32) -> (w: World)
        requires
            1 <= width,
            1 <= height,
        ensures
            w.wf(),
            w@.cap() == capacity,
            w@.width == width as int,
            w@.height == height as int,
            forall|i: int| 0 <= i < capacity ==> !w@.alive[i],
    {
        let mut alive: Vec<bool> = Vec::new();
        let mut i: usize = 0;
        while i < capacity
            invariant
                i <= capacity,
                alive@.len() == i,
                forall|j: int| 0 <= j < i ==> !alive@[j],
            decreases capacity - i,
        {
            alive.push(false);
            i = i + 1;
        }
        World {
            width,
            height,
            alive,
            positions: vacant_column(capacity),
            velocities: vacant_column(capacity),
            counters: vacant_column(capacity),
        }
    }

    /// The fixed number of entity slots.
    pub fn capacity(&self) -> (n: usize)
        ensures
            n == self@.cap(),
    {
        self.alive.len()
    }

    /// The grid width in cells.
    pub fn width(&self) -> (w: i32)
        ensures
            w as int == self@.width,
    {
        self.width
    }

    /// The grid height in cells.
    pub fn height(&self) -> (h: i32)
        ensures
            h as int == self@.height,
    {
        self.height
    }

    /// Whether `id` names a currently alive entity.
    pub fn is_alive(&self, id: usize) -> (r: bool)
        ensures
            r == (id < self@.cap() && self@.alive[id as int]),
    {
        id < self.alive.len() && self.alive[id]
    }

    /// The lowest dead slot, if any slot is dead.
    fn first_free(&self) -> (r: Option<usize>)
        ensures
            match r {
                Some(i) => i < self@.cap() && !self@.alive[i as int] && forall|j: int|
                    0 <= j < i ==> self@.alive[j],
                None => forall|j: int| 0 <= j < self@.cap() ==> self@.alive[j],
            },
    {
        let n = self.alive.len();
        let mut i: usize = 0;
        while i < n
            invariant
                i <= n,
                n == self@.cap(),
                forall|j: int| 0 <= j < i ==> self@.alive[j],
            decreases n - i,
        {
            if !self.alive[i] {
                return Some(i);
            }
            i = i + 1;
        }
        None
    }

    /// Allocate the lowest currently-unused identifier and mark it alive.
    /// Succeeds exactly when some slot is dead; a freshly spawned entity
    /// carries no components. Refused with `CapacityExceeded`, and the
    /// world left unchanged, exactly when every slot is alive.
    pub fn spawn(&mut self) -> (r: Result<usize, EcsError>)
        requires
            old(self).wf(),
        ensures
            final(self).wf(),
            match r {
                Ok(id) => {
                    &&& id < old(self)@.cap()
                    &&& !old(self)@.alive[id as int]
                    &&& forall|j: int| 0 <= j < id ==> old(self)@.alive[j]
                    &&& final(self)@ == old(self)@.spawned(id as int)
                    &&& final(self)@.positions[id as int] is None
                    &&& final(self)@.velocities[id as int] is None
                    &&& final(self)@.counters[id as int] is None
                },
                Err(e) => {
                    &&& e == EcsError::CapacityExceeded
                    &&& forall|j: int| 0 <= j < old(self)@.cap() ==> old(self)@.alive[j]
                    &&& final(self)@ == old(self)@
                },
            },
    {
        match self.first_free() {
            Some(id) => {
                self.alive[id] = true;
                proof {
                    assert(self@.positions =~= old(self)@.positions);
                    assert(self@.velocities =~= old(self)@.velocities);
                    assert(self@.counters =~= old(self)@.counters);
                    assert(self@ =~= old(self)@.spawned(id as int));
                }
                Ok(id)
            },
            None => Err(EcsError::CapacityExceeded),
        }
    }

    /// Mark `id` dead and clear all its components, so a later reuse of the
    /// identifier inherits nothing. Reports `InvalidEntity`, and leaves the
    /// world unchanged, exactly when `id` is out of range or already dead.
    pub fn despawn(&mut self, id: usize) -> (r: Result<(), EcsError>)
        requires
            old(self).wf(),
        ensures
            final(self).wf(),
            match r {
                Ok(()) => {
                    &&& id < old(self)@.cap()
                    &&& old(self)@.alive[id as int]
                    &&& final(self)@ == old(self)@.killed(id as int)
                },
                Err(e) => {
                    &&& e == EcsError::InvalidEntity
                    &&& !(id < old(self)@.cap() && old(self)@.alive[id as int])
                    &&& final(self)@ == old(self)@
                },
            },
    {
        if id < self.alive.len() && self.alive[id] {
            self.alive[id] = false;
            self.positions[id] = None;
            self.velocities[id] = None;
            self.counters[id] = None;
            proof {
                assert(self@.positions =~= old(self)@.positions.update(id as int, None));
                assert(self@.velocities =~= old(self)@.velocities.update(id as int, None));
                assert(self@.counters =~= old(self)@.counters.update(id as int, None));
                assert(self@ =~= old(self)@.killed(id as int));
            }
            Ok(())
        } else {
            Err(EcsError::InvalidEntity)
        }
    }

    /// Associate a position with entity `id`, overwriting any prior one.
    /// Reports `InvalidEntity`, and leaves the world unchanged, exactly
    /// when `id` is out of range or dead.
    pub fn insert_position(&mut self, id: usize, p: Position) -> (r: Result<(), EcsError>)
        requires
            old(self).wf(),
        ensures
            final(self).wf(),
            match r {
                Ok(()) => {
                    &&& id < old(self)@.cap()
                    &&& old(self)@.alive[id as int]
                    &&& final(self)@ == old(self)@.with_position(id as int, Some(p@))
                },
                Err(e) => {
                    &&& e == EcsError::InvalidEntity
                    &&& !(id < old(self)@.cap() && old(self)@.alive[id as int])
                    &&& final(self)@ == old(self)@
                },
            },
    {
        if id < self.alive.len() && self.alive[id] {
            self.positions[id] = Some(p);
            proof {
                assert(self@.positions =~= old(self)@.positions.update(id as int, Some(p@)));
                assert(self@ =~= old(self)@.with_position(id as int, Some(p@)));
            }
            Ok(())
        } else {
            Err(EcsError::InvalidEntity)
        }
    }

    /// Associate a velocity with entity `id`, overwriting any prior one.
    /// Reports `InvalidEntity`, and leaves the world unchanged, exactly
    /// when `id` is out of range or dead.
    pub fn insert_velocity(&mut self, id: usize, v: Velocity) -> (r: Result<(), EcsError>)
        requires
            old(self).wf(),
        ensures
            final(self).wf(),
            match r {
                Ok(()) => {
                    &&& id < old(self)@.cap()
                    &&& old(self)@.alive[id as int]
                    &&& final(self)@ == old(self)@.with_velocity(id as int, Some(v@))
                },
                Err(e) => {
                    &&& e == EcsError::InvalidEntity
                    &&& !(id < old(self)@.cap() && old(self)@.alive[id as int])
                    &&& final(self)@ == old(self)@
                },
            },
    {
        if id < self.alive.len() && self.alive[id] {
            self.velocities[id] = Some(v);
            proof {
                assert(self@.velocities =~= old(self)@.velocities.update(id as int, Some(v@)));
                assert(self@ =~= old(self)@.with_velocity(id as int, Some(v@)));
            }
            Ok(())
        } else {
            Err(EcsError::InvalidEntity)
        }
    }

    /// Associate a counter with entity `id`, overwriting any prior one.
    /// Reports `InvalidEntity`, and leaves the world unchanged, exactly
    /// when `id` is out of range or dead.
    pub fn insert_counter(&mut self, id: usize, c: Counter) -> (r: Result<(), EcsError>)
        requires
            old(self).wf(),
        ensures
            final(self).wf(),
            match r {
                Ok(()) => {
                    &&& id < old(self)@.cap()
                    &&& old(self)@.alive[id as int]
                    &&& final(self)@ == old(self)@.with_counter(id as int, Some(c@))
                },
                Err(e) => {
                    &&& e == EcsError::InvalidEntity
                    &&& !(id < old(self)@.cap() && old(self)@.alive[id as int])
                    &&& final(self)@ == old(self)@
                },
            },
    {
        if id < self.alive.len() && self.alive[id] {
            self.counters[id] = Some(c);
            proof {
                assert(self@.counters =~= old(self)@.counters.update(id as int, Some(c@)));
                assert(self@ =~= old(self)@.with_counter(id as int, Some(c@)));
            }
            Ok(())
        } else {
            Err(EcsError::InvalidEntity)
        }
    }

    /// Clear entity `id`'s position, present or not. Reports
    /// `InvalidEntity`, and leaves the world unchanged, exactly when `id`
    /// is out of range or dead.
    pub fn remove_position(&mut self, id: usize) -> (r: Result<(), EcsError>)
        requires
            old(self).wf(),
        ensures
            final(self).wf(),
            match r {
                Ok(()) => {
                    &&& id < old(self)@.cap()
                    &&& old(self)@.alive[id as int]
                    &&& final(self)@ == old(self)@.with_position(id as int, None)
                },
                Err(e) => {
                    &&& e == EcsError::InvalidEntity
                    &&& !(id < old(self)@.cap() && old(self)@.alive[id as int])
                    &&& final(self)@ == old(self)@
                },
            },
    {
        if id < self.alive.len() && self.alive[id] {
            self.positions[id] = None;
            proof {
                assert(self@.positions =~= old(self)@.positions.update(id as int, None));
                assert(self@ =~= old(self)@.with_position(id as int, None));
            }
            Ok(())
        } else {
            Err(EcsError::InvalidEntity)
        }
    }

    /// Clear entity `id`'s velocity, present or not. Reports
    /// `InvalidEntity`, and leaves the world unchanged, exactly when `id`
    /// is out of range or dead.
    pub fn remove_velocity(&mut self, id: usize) -> (r: Result<(), EcsError>)
        requires
            old(self).wf(),
        ensures
            final(self).wf(),
            match r {
                Ok(()) => {
                    &&& id < old(self)@.cap()
                    &&& old(self)@.alive[id as int]
                    &&& final(self)@ == old(self)@.with_velocity(id as int, None)
                },
                Err(e) => {
                    &&& e == EcsError::InvalidEntity
                    &&& !(id < old(self)@.cap() && old(self)@.alive[id as int])
                    &&& final(self)@ == old(self)@
                },
            },
    {
        if id < self.alive.len() && self.alive[id] {
            self.velocities[id] = None;
            proof {
                assert(self@.velocities =~= old(self)@.velocities.update(id as int, None));
                assert(self@ =~= old(self)@.with_velocity(id as int, None));
            }
            Ok(())
        } else {
            Err(EcsError::InvalidEntity)
        }
    }

    /// Clear entity `id`'s counter, present or not. Reports
    /// `InvalidEntity`, and leaves the world unchanged, exactly when `id`
    /// is out of range or dead.
    pub fn remove_counter(&mut self, id: usize) -> (r: Result<(), EcsError>)
        requires
            old(self).wf(),
        ensures
            final(self).wf(),
            match r {
                Ok(()) => {
                    &&& id < old(self)@.cap()
                    &&& old(self)@.alive[id as int]
                    &&& final(self)@ == old(self)@.with_counter(id as int, None)
                },
                Err(e) => {
                    &&& e == EcsError::InvalidEntity
                    &&& !(id < old(self)@.cap() && old(self)@.alive[id as int])
                    &&& final(self)@ == old(self)@
                },
            },
    {
        if id < self.alive.len() && self.alive[id] {
            self.counters[id] = None;
            proof {
                assert(self@.counters =~= old(self)@.counters.update(id as int, None));
                assert(self@ =~= old(self)@.with_counter(id as int, None));
            }
            Ok(())
        } else {
            Err(EcsError::InvalidEntity)
        }
    }

    /// Entity `id`'s position, or the not-present signal for an absent
    /// component, a dead entity, or an out-of-range identifier.
    pub fn get_position(&self, id: usize) -> (r: Option<Position>)
        requires
            self.wf(),
        ensures
            id < self@.cap() ==> opt_pos_view(r) == self@.positions[id as int],
            id >= self@.cap() ==> r is None,
    {
        if id < self.positions.len() {
            self.positions[id]
        } else {
            None
        }
    }

    /// Entity `id`'s velocity, or the not-present signal for an absent
    /// component, a dead entity, or an out-of-range identifier.
    pub fn get_velocity(&self, id: usize) -> (r: Option<Velocity>)
        requires
            self.wf(),
        ensures
            id < self@.cap() ==> opt_vel_view(r) == self@.velocities[id as int],
            id >= self@.cap() ==> r is None,
    {
        if id < self.velocities.len() {
            self.velocities[id]
        } else {
            None
        }
    }

    /// Entity `id`'s counter, or the not-present signal for an absent
    /// component, a dead entity, or an out-of-range identifier.
    pub fn get_counter(&self, id: usize) -> (r: Option<Counter>)
        requires
            self.wf(),
        ensures
            id < self@.cap() ==> opt_ctr_view(r) == self@.counters[id as int],
            id >= self@.cap() ==> r is None,
    {
        if id < self.counters.len() {
            self.counters[id]
        } else {
            None
        }
    }

    /// The entities holding both a position and a velocity, in ascending
    /// identifier order: exactly those slots, no others.
    pub fn query_pos_vel(&self) -> (r: Vec<usize>)
        requires
            self.wf(),
        ensures
            forall|k: int| 0 <= k < r@.len() ==> self@.has_pos_vel(#[trigger] r@[k] as int),
            forall|k1: int, k2: int| 0 <= k1 < k2 < r@.len() ==> r@[k1] < r@[k2],
            forall|i: int|
                0 <= i < self@.cap() && self@.has_pos_vel(i) ==> r@.contains(i as usize),
    {
        let n = self.alive.len();
        let mut r: Vec<usize> = Vec::new();
        let mut i: usize = 0;
        while i < n
            invariant
                i <= n,
                n == self@.cap(),
                self.wf(),
                forall|k: int| 0 <= k < r@.len() ==> self@.has_pos_vel(#[trigger] r@[k] as int),
                forall|k: int| 0 <= k < r@.len() ==> #[trigger] r@[k] < i,
                forall|k1: int, k2: int| 0 <= k1 < k2 < r@.len() ==> r@[k1] < r@[k2],
                forall|j: int| 0 <= j < i && self@.has_pos_vel(j) ==> r@.contains(j as usize),
            decreases n - i,
        {
            if self.alive[i] && self.positions[i].is_some() && self.velocities[i].is_some() {
                let ghost prev = r@;
                r.push(i);
                proof {
                    assert forall|j: int| 0 <= j < i + 1 && self@.has_pos_vel(j) implies r@.contains(
                        j as usize,
                    ) by {
                        if j == i {
                            assert(r@[r@.len() - 1] == i as usize);
                        } else {
                            let k = choose|k: int| 0 <= k < prev.len() && prev[k] == j as usize;
                            assert(r@[k] == j as usize);
                        }
                    }
                }
            }
            i = i + 1;
        }
        r
    }

    /// The entities holding a position, in ascending identifier order:
    /// exactly those slots, no others.
    pub fn query_pos(&self) -> (r: Vec<usize>)
        requires
            self.wf(),
        ensures
            forall|k: int| 0 <= k < r@.len() ==> self@.has_pos(#[trigger] r@[k] as int),
            forall|k1: int, k2: int| 0 <= k1 < k2 < r@.len() ==> r@[k1] < r@[k2],
            forall|i: int| 0 <= i < self@.cap() && self@.has_pos(i) ==> r@.contains(i as usize),
    {
        let n = self.alive.len();
        let mut r: Vec<usize> = Vec::new();
        let mut i: usize = 0;
        while i < n
            invariant
                i <= n,
                n == self@.cap(),
                self.wf(),
                forall|k: int| 0 <= k < r@.len() ==> self@.has_pos(#[trigger] r@[k] as int),
                forall|k: int| 0 <= k < r@.len() ==> #[trigger] r@[k] < i,
                forall|k1: int, k2: int| 0 <= k1 < k2 < r@.len() ==> r@[k1] < r@[k2],
                forall|j: int| 0 <= j < i && self@.has_pos(j) ==> r@.contains(j as usize),
            decreases n - i,
        {
            if self.alive[i] && self.positions[i].is_some() {
                let ghost prev = r@;
                r.push(i);
                proof {
                    assert forall|j: int| 0 <= j < i + 1 && self@.has_pos(j) implies r@.contains(
                        j as usize,
                    ) by {
                        if j == i {
                            assert(r@[r@.len() - 1] == i as usize);
                        } else {
                            let k = choose|k: int| 0 <= k < prev.len() && prev[k] == j as usize;
                            assert(r@[k] == j as usize);
                        }
                    }
                }
            }
            i = i + 1;
        }
        r
    }

    /// The entities holding a counter, in ascending identifier order:
    /// exactly those slots, no others.
    pub fn query_counter(&self) -> (r: Vec<usize>)
        requires
            self.wf(),
        ensures
            forall|k: int| 0 <= k < r@.len() ==> self@.has_counter(#[trigger] r@[k] as int),
            forall|k1: int, k2: int| 0 <= k1 < k2 < r@.len() ==> r@[k1] < r@[k2],
            forall|i: int|
                0 <= i < self@.cap() && self@.has_counter(i) ==> r@.contains(i as usize),
    {
        let n = self.alive.len();
        let mut r: Vec<usize> = Vec::new();
        let mut i: usize = 0;
        while i < n
            invariant
                i <= n,
                n == self@.cap(),
                self.wf(),
                forall|k: int| 0 <= k < r@.len() ==> self@.has_counter(#[trigger] r@[k] as int),
                forall|k: int| 0 <= k < r@.len() ==> #[trigger] r@[k] < i,
                forall|k1: int, k2: int| 0 <= k1 < k2 < r@.len() ==> r@[k1] < r@[k2],
                forall|j: int| 0 <= j < i && self@.has_counter(j) ==> r@.contains(j as usize),
            decreases n - i,
        {
            if self.alive[i] && self.counters[i].is_some() {
                let ghost prev = r@;
                r.push(i);
                proof {
                    assert forall|j: int| 0 <= j < i + 1 && self@.has_counter(j) implies r@.contains(
                        j as usize,
                    ) by {
                        if j == i {
                            assert(r@[r@.len() - 1] == i as usize);
                        } else {
                            let k = choose|k: int| 0 <= k < prev.len() && prev[k] == j as usize;
                            assert(r@[k] == j as usize);
                        }
                    }
                }
            }
            i = i + 1;
        }
        r
    }
}

} // verus!
