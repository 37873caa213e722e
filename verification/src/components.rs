//! The component value types, the entity error type, and their spec-level
//! views as plain mathematical values.

use vstd::prelude::*;

verus! {

/// A position on the grid, in cells. The grid is closed: the movement system
/// keeps positions of moving entities within `[0, width) x [0, height)`.
#[derive(Clone, Copy, PartialEq, Eq, Structural, Debug)]
pub struct Position {
    pub x: i32,
    pub y: i32,
}

/// A velocity in cells per tick.
#[derive(Clone, Copy, PartialEq, Eq, Structural, Debug)]
pub struct Velocity {
    pub vx: i32,
    pub vy: i32,
}

/// A per-entity counter. Incrementing past `u64::MAX` wraps to zero; this
/// wrap-around policy is part of the component's contract, not left open.
#[derive(Clone, Copy, PartialEq, Eq, Structural, Debug)]
pub struct Counter {
    pub value: u64,
}

/// The errors a world operation can report.
#[derive(Clone, Copy, PartialEq, Eq, Structural, Debug)]
pub enum EcsError {
    /// A spawn was refused because every entity slot is alive.
    CapacityExceeded,
    /// An operation named an identifier that is out of range or not alive.
    InvalidEntity,
}

impl View for Position {
    type V = (int, int);

    open spec fn view(&self) -> (int, int) {
        (self.x as int, self.y as int)
    }
}

impl View for Velocity {
    type V = (int, int);

    open spec fn view(&self) -> (int, int) {
        (self.vx as int, self.vy as int)
    }
}

impl View for Counter {
    type V = u64;

    open spec fn view(&self) -> u64 {
        self.value
    }
}

/// The view of an optional position as an optional pair of integers.
pub open spec fn opt_pos_view(p: Option<Position>) -> Option<(int, int)> {
    match p {
        Some(q) => Some(q@),
        None => None,
    }
}

/// The view of an optional velocity as an optional pair of integers.
pub open spec fn opt_vel_view(v: Option<Velocity>) -> Option<(int, int)> {
    match v {
        Some(q) => Some(q@),
        None => None,
    }
}

/// The view of an optional counter as an optional machine integer.
pub open spec fn opt_ctr_view(c: Option<Counter>) -> Option<u64> {
    match c {
        Some(q) => Some(q@),
        None => None,
    }
}

} // verus!
