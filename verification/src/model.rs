//! The mathematical model of the world and of one tick's worth of work.
//!
//! Every executable operation of the library is specified against this
//! model: a ghost record of the grid dimensions, the liveness of each entity
//! slot, and the optional component value of each slot per kind.

use vstd::prelude::*;

verus! {

/// The ghost model of the world. Slot `i` of each sequence describes entity
/// identifier `i`; all four sequences have the same length, the capacity.
#[verifier::ext_equal]
pub ghost struct WorldModel {
    /// Grid width in cells; at least 1.
    pub width: int,
    /// Grid height in cells; at least 1.
    pub height: int,
    /// Which entity slots are currently alive.
    pub alive: Seq<bool>,
    /// The position component of each slot, if present.
    pub positions: Seq<Option<(int, int)>>,
    /// The velocity component of each slot, if present.
    pub velocities: Seq<Option<(int, int)>>,
    /// The counter component of each slot, if present.
    pub counters: Seq<Option<u64>>,
}

impl WorldModel {
    /// The fixed number of entity slots.
    pub open spec fn cap(self) -> nat {
        self.alive.len()
    }

    /// Well-formedness: positive grid dimensions that fit the machine
    /// representation, equal sequence lengths, and no component data
    /// lingering on a dead slot.
    pub open spec fn wf(self) -> bool {
        &&& 1 <= self.width <= i32::MAX
        &&& 1 <= self.height <= i32::MAX
        &&& self.positions.len() == self.alive.len()
        &&& self.velocities.len() == self.alive.len()
        &&& self.counters.len() == self.alive.len()
        &&& forall|i: int|
            #![trigger self.alive[i]]
            0 <= i < self.alive.len() && !self.alive[i] ==> self.positions[i] is None
                && self.velocities[i] is None && self.counters[i] is None
    }

    /// Slot `i` is alive and holds both a position and a velocity.
    pub open spec fn has_pos_vel(self, i: int) -> bool {
        &&& 0 <= i < self.cap()
        &&& self.alive[i]
        &&& self.positions[i] is Some
        &&& self.velocities[i] is Some
    }

    /// Slot `i` is alive and holds a position.
    pub open spec fn has_pos(self, i: int) -> bool {
        &&& 0 <= i < self.cap()
        &&& self.alive[i]
        &&& self.positions[i] is Some
    }

    /// Slot `i` is alive and holds a counter.
    pub open spec fn has_counter(self, i: int) -> bool {
        &&& 0 <= i < self.cap()
        &&& self.alive[i]
        &&& self.counters[i] is Some
    }

    /// The model with slot `i`'s position component replaced.
    pub open spec fn with_position(self, i: int, p: Option<(int, int)>) -> WorldModel {
        WorldModel { positions: self.positions.update(i, p), ..self }
    }

    /// The model with slot `i`'s velocity component replaced.
    pub open spec fn with_velocity(self, i: int, v: Option<(int, int)>) -> WorldModel {
        WorldModel { velocities: self.velocities.update(i, v), ..self }
    }

    /// The model with slot `i`'s counter component replaced.
    pub open spec fn with_counter(self, i: int, c: Option<u64>) -> WorldModel {
        WorldModel { counters: self.counters.update(i, c), ..self }
    }

    /// The model with slot `i` freshly marked alive.
    pub open spec fn spawned(self, i: int) -> WorldModel {
        WorldModel { alive: self.alive.update(i, true), ..self }
    }

    /// The model with slot `i` dead and all its components cleared.
    pub open spec fn killed(self, i: int) -> WorldModel {
        WorldModel {
            alive: self.alive.update(i, false),
            positions: self.positions.update(i, None),
            velocities: self.velocities.update(i, None),
            counters: self.counters.update(i, None),
            ..self
        }
    }
}

/// The reflected velocity component: negation, saturating at `i32::MAX` for
/// the one value whose negation does not fit (`i32::MIN`).
pub open spec fn reflect_vel(v: int) -> int {
    if v == i32::MIN as int {
        i32::MAX as int
    } else {
        -v
    }
}

/// One axis of the movement step: advance by the velocity, then clamp once
/// into `[0, limit)`. The result is always within `[0, limit)` when
/// `limit >= 1`, whatever the starting coordinate and velocity.
pub open spec fn reflect_coord(c: int, v: int, limit: int) -> int {
    if c + v < 0 {
        0
    } else if c + v >= limit {
        limit - 1
    } else {
        c + v
    }
}

/// One axis of the velocity after the movement step: negated exactly when
/// the advanced coordinate left `[0, limit)` and was clamped.
pub open spec fn reflect_flip(c: int, v: int, limit: int) -> int {
    if c + v < 0 || c + v >= limit {
        reflect_vel(v)
    } else {
        v
    }
}

/// The position of a moving entity after one movement step.
pub open spec fn moved_pos(p: (int, int), v: (int, int), w: int, h: int) -> (int, int) {
    (reflect_coord(p.0, v.0, w), reflect_coord(p.1, v.1, h))
}

/// The velocity of a moving entity after one movement step.
pub open spec fn moved_vel(p: (int, int), v: (int, int), w: int, h: int) -> (int, int) {
    (reflect_flip(p.0, v.0, w), reflect_flip(p.1, v.1, h))
}

/// The whole-world effect of the movement system: every alive entity with
/// both a position and a velocity takes one reflected step; everything else
/// is untouched.
pub open spec fn movement_model(m: WorldModel) -> WorldModel {
    WorldModel {
        positions: Seq::new(
            m.positions.len(),
            |i: int|
                if m.has_pos_vel(i) {
                    Some(
                        moved_pos(
                            m.positions[i].unwrap(),
                            m.velocities[i].unwrap(),
                            m.width,
                            m.height,
                        ),
                    )
                } else {
                    m.positions[i]
                },
        ),
        velocities: Seq::new(
            m.velocities.len(),
            |i: int|
                if m.has_pos_vel(i) {
                    Some(
                        moved_vel(
                            m.positions[i].unwrap(),
                            m.velocities[i].unwrap(),
                            m.width,
                            m.height,
                        ),
                    )
                } else {
                    m.velocities[i]
                },
        ),
        ..m
    }
}

/// A counter value after one increment: plus one, wrapping to zero at the
/// top of the `u64` range.
pub open spec fn wrap_inc(c: u64) -> u64 {
    if c == u64::MAX {
        0u64
    } else {
        (c + 1) as u64
    }
}

/// The whole-world effect of the counter system: every alive entity with a
/// counter has it incremented; everything else is untouched.
pub open spec fn counter_model(m: WorldModel) -> WorldModel {
    WorldModel {
        counters: Seq::new(
            m.counters.len(),
            |i: int|
                if m.has_counter(i) {
                    Some(wrap_inc(m.counters[i].unwrap()))
                } else {
                    m.counters[i]
                },
        ),
        ..m
    }
}

/// The byte that marks an occupied cell: `'O'`.
pub const FG_MARK: u8 = 79;

/// The byte that marks an empty cell: `'.'`.
pub const BG_MARK: u8 = 46;

/// The byte the separator line is made of: `'-'`.
pub const SEP_MARK: u8 = 45;

/// The byte for the decimal digit zero: `'0'`.
pub const DIGIT_ZERO: u8 = 48;

/// Cell `(x, y)` is occupied: some alive entity holds exactly that position.
pub open spec fn occupied(m: WorldModel, x: int, y: int) -> bool {
    exists|i: int| #![trigger m.positions[i]] m.has_pos(i) && m.positions[i] == Some((x, y))
}

/// One rendered grid row: the foreground marker on each occupied cell of row
/// `y`, the background marker elsewhere.
pub open spec fn grid_row(m: WorldModel, y: int) -> Seq<u8> {
    Seq::new(
        m.width as nat,
        |x: int|
            if occupied(m, x, y) {
                FG_MARK
            } else {
                BG_MARK
            },
    )
}

/// The separator line emitted after the grid: one dash per column.
pub open spec fn separator_row(m: WorldModel) -> Seq<u8> {
    Seq::new(m.width as nat, |x: int| SEP_MARK)
}

/// The full rendering output: the grid rows top to bottom, then the
/// separator line.
pub open spec fn render_lines(m: WorldModel) -> Seq<Seq<u8>> {
    Seq::new(m.height as nat, |y: int| grid_row(m, y)).push(separator_row(m))
}

/// The decimal digits of a non-negative integer, most significant first.
pub open spec fn dec_digits(v: int) -> Seq<u8>
    recommends
        0 <= v,
    decreases v,
{
    if v < 10 {
        seq![(DIGIT_ZERO + v % 10) as u8]
    } else {
        dec_digits(v / 10).push((DIGIT_ZERO + v % 10) as u8)
    }
}

/// The lines the counter system emits for slots below `n`, in ascending
/// slot order: the decimal digits of each incremented counter value.
pub open spec fn counter_lines_up_to(m: WorldModel, n: int) -> Seq<Seq<u8>>
    decreases n,
{
    if n <= 0 {
        Seq::empty()
    } else if m.has_counter(n - 1) {
        counter_lines_up_to(m, n - 1).push(
            dec_digits(wrap_inc(m.counters[n - 1].unwrap()) as int),
        )
    } else {
        counter_lines_up_to(m, n - 1)
    }
}

/// The full output of the counter system on model `m`.
pub open spec fn counter_lines(m: WorldModel) -> Seq<Seq<u8>> {
    counter_lines_up_to(m, m.cap() as int)
}

/// The view of a sequence of byte vectors as a sequence of byte sequences;
/// the shape in which all emitted output is specified.
pub open spec fn lines_view(v: Seq<Vec<u8>>) -> Seq<Seq<u8>> {
    Seq::new(v.len(), |i: int| v[i]@)
}

} // verus!
