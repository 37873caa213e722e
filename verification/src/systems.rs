//! The simulation systems: movement with boundary reflection, grid
//! rendering, and counter increment. Each is a function over the world,
//! specified exactly against the model in `model`.

use vstd::prelude::*;

use crate::components::{Counter, Position, Velocity};
use crate::model::{
    BG_MARK, DIGIT_ZERO, FG_MARK, SEP_MARK, counter_lines, counter_lines_up_to, counter_model,
    dec_digits, grid_row, lines_view, movement_model, occupied, reflect_vel, render_lines,
    separator_row, wrap_inc,
};
use crate::world::World;

verus! {

/// The reflected (negated) velocity component, saturating at `i32::MAX` for
/// the one value whose negation does not fit.
fn negate_velocity(v: i32) -> (r: i32)
    ensures
        r as int == reflect_vel(v as int),
{
    if v == i32::MIN {
        i32::MAX
    } else {
        -v
    }
}

/// One axis of the movement step: advance the coordinate by the velocity,
/// clamp once into `[0, limit)`, and negate the velocity exactly when the
/// clamp fired.
fn step_axis(c: i32, v: i32, limit: i32) -> (r: (i32, i32))
    requires
        1 <= limit,
    ensures
        r.0 as int == crate::model::reflect_coord(c as int, v as int, limit as int),
        r.1 as int == crate::model::reflect_flip(c as int, v as int, limit as int),
{
    let advanced: i64 = c as i64 + v as i64;
    if advanced < 0 {
        (0, negate_velocity(v))
    } else if advanced >= limit as i64 {
        (limit - 1, negate_velocity(v))
    } else {
        (advanced as i32, v)
    }
}

/// The movement system: every alive entity with both a position and a
/// velocity advances by its velocity and reflects off the closed grid, in
/// one clamp-and-negate pass per axis. Nothing else changes.
pub fn movement_system(w: &mut World)
    requires
        old(w).wf(),
    ensures
        final(w).wf(),
        final(w)@ == movement_model(old(w)@),
{
    let ghost m0 = w@;
    let n = w.alive.len();
    let mut i: usize = 0;
    while i < n
        invariant
            i <= n,
            n == w@.cap(),
            w@.width == m0.width,
            w@.height == m0.height,
            w@.alive == m0.alive,
            w@.counters == m0.counters,
            w@.positions.len() == n,
            w@.velocities.len() == n,
            m0.wf(),
            forall|j: int|
                0 <= j < i ==> w@.positions[j] == movement_model(m0).positions[j]
                    && w@.velocities[j] == movement_model(m0).velocities[j],
            forall|j: int|
                i <= j < n ==> w@.positions[j] == m0.positions[j] && w@.velocities[j]
                    == m0.velocities[j],
        decreases n - i,
    {
        if w.alive[i] && w.positions[i].is_some() && w.velocities[i].is_some() {
            let p = w.positions[i].unwrap();
            let v = w.velocities[i].unwrap();
            let (nx, nvx) = step_axis(p.x, v.vx, w.width);
            let (ny, nvy) = step_axis(p.y, v.vy, w.height);
            let ghost before = w@;
            w.positions[i] = Some(Position { x: nx, y: ny });
            w.velocities[i] = Some(Velocity { vx: nvx, vy: nvy });
            proof {
                assert(m0.has_pos_vel(i as int));
                assert(w@.positions =~= before.positions.update(
                    i as int,
                    Some((nx as int, ny as int)),
                ));
                assert(w@.velocities =~= before.velocities.update(
                    i as int,
                    Some((nvx as int, nvy as int)),
                ));
                assert(w@.positions[i as int] == movement_model(m0).positions[i as int]);
                assert(w@.velocities[i as int] == movement_model(m0).velocities[i as int]);
            }
        } else {
            proof {
                assert(!m0.has_pos_vel(i as int));
            }
        }
        i = i + 1;
    }
    proof {
        assert(w@.positions =~= movement_model(m0).positions);
        assert(w@.velocities =~= movement_model(m0).velocities);
        assert(w@ =~= movement_model(m0));
        crate::laws::lemma_movement_model_wf(m0);
    }
}

/// Whether some alive entity holds exactly the position `(x, y)`.
fn cell_occupied(w: &World, x: i32, y: i32) -> (r: bool)
    requires
        w.wf(),
    ensures
        r == occupied(w@, x as int, y as int),
{
    let n = w.alive.len();
    let mut i: usize = 0;
    while i < n
        invariant
            i <= n,
            n == w@.cap(),
            w.wf(),
            forall|j: int|
                0 <= j < i ==> !(w@.has_pos(j) && #[trigger] w@.positions[j] == Some(
                    (x as int, y as int),
                )),
        decreases n - i,
    {
        if w.alive[i] && w.positions[i].is_some() {
            let p = w.positions[i].unwrap();
            if p.x == x && p.y == y {
                proof {
                    assert(w@.has_pos(i as int) && w@.positions[i as int] == Some(
                        (x as int, y as int),
                    ));
                }
                return true;
            }
        }
        i = i + 1;
    }
    false
}

/// The rendering system: one text line per grid row, top to bottom, with
/// the foreground marker on every cell an alive entity occupies and the
/// background marker elsewhere, followed by a separator line of dashes.
/// The world is read, never changed, so the output is a function of the
/// world alone: rendering twice yields byte-identical lines.
pub fn render_system(w: &World) -> (out: Vec<Vec<u8>>)
    requires
        w.wf(),
    ensures
        lines_view(out@) == render_lines(w@),
{
    let height = w.height;
    let width = w.width;
    let mut out: Vec<Vec<u8>> = Vec::new();
    let mut y: i32 = 0;
    while y < height
        invariant
            0 <= y <= height,
            w.wf(),
            width == w@.width,
            height == w@.height,
            out@.len() == y as int,
            forall|r: int| 0 <= r < y as int ==> #[trigger] out@[r]@ == grid_row(w@, r),
        decreases height - y,
    {
        let mut row: Vec<u8> = Vec::new();
        let mut x: i32 = 0;
        while x < width
            invariant
                0 <= x <= width,
                w.wf(),
                width == w@.width,
                row@.len() == x as int,
                forall|c: int| 0 <= c < x as int ==> row@[c] == grid_row(w@, y as int)[c],
            decreases width - x,
        {
            if cell_occupied(w, x, y) {
                row.push(FG_MARK);
            } else {
                row.push(BG_MARK);
            }
            x = x + 1;
        }
        proof {
            assert(row@ =~= grid_row(w@, y as int));
        }
        out.push(row);
        y = y + 1;
    }
    let mut sep: Vec<u8> = Vec::new();
    let mut x: i32 = 0;
    while x < width
        invariant
            0 <= x <= width,
            width == w@.width,
            sep@.len() == x as int,
            forall|c: int| 0 <= c < x as int ==> sep@[c] == SEP_MARK,
        decreases width - x,
    {
        sep.push(SEP_MARK);
        x = x + 1;
    }
    proof {
        assert(sep@ =~= separator_row(w@));
    }
    out.push(sep);
    proof {
        assert(lines_view(out@) =~~= render_lines(w@));
    }
    out
}

/// Append the decimal digits of `v`, most significant first.
fn push_decimal(v: u64, out: &mut Vec<u8>)
    ensures
        final(out)@ == old(out)@ + dec_digits(v as int),
    decreases v,
{
    if v < 10 {
        out.push(DIGIT_ZERO + (v as u8));
        proof {
            assert(out@ =~= old(out)@ + dec_digits(v as int));
        }
    } else {
        push_decimal(v / 10, out);
        out.push(DIGIT_ZERO + ((v % 10) as u8));
        proof {
            assert(out@ =~= old(out)@ + dec_digits(v as int));
        }
    }
}

/// The decimal rendering of `v` as one text line.
fn decimal_line(v: u64) -> (r: Vec<u8>)
    ensures
        r@ == dec_digits(v as int),
{
    let mut r: Vec<u8> = Vec::new();
    push_decimal(v, &mut r);
    proof {
        assert(r@ =~= dec_digits(v as int));
    }
    r
}

/// The counter system: every alive entity with a counter has it
/// incremented by one (wrapping to zero past `u64::MAX`), and one line with
/// the new value's decimal digits is emitted per such entity, in ascending
/// identifier order. Nothing else changes.
pub fn counter_system(w: &mut World) -> (out: Vec<Vec<u8>>)
    requires
        old(w).wf(),
    ensures
        final(w).wf(),
        final(w)@ == counter_model(old(w)@),
        lines_view(out@) == counter_lines(old(w)@),
{
    let ghost m0 = w@;
    let n = w.alive.len();
    let mut out: Vec<Vec<u8>> = Vec::new();
    let mut i: usize = 0;
    while i < n
        invariant
            i <= n,
            n == w@.cap(),
            w@.width == m0.width,
            w@.height == m0.height,
            w@.alive == m0.alive,
            w@.positions == m0.positions,
            w@.velocities == m0.velocities,
            w@.counters.len() == n,
            m0.wf(),
            forall|j: int| 0 <= j < i ==> w@.counters[j] == counter_model(m0).counters[j],
            forall|j: int| i <= j < n ==> w@.counters[j] == m0.counters[j],
            lines_view(out@) == counter_lines_up_to(m0, i as int),
        decreases n - i,
    {
        let ghost lines_before = lines_view(out@);
        if w.alive[i] && w.counters[i].is_some() {
            let c = w.counters[i].unwrap();
            let incremented: u64 = if c.value == u64::MAX {
                0
            } else {
                c.value + 1
            };
            let ghost before = w@;
            w.counters[i] = Some(Counter { value: incremented });
            out.push(decimal_line(incremented));
            proof {
                assert(m0.has_counter(i as int));
                assert(incremented == wrap_inc(m0.counters[i as int].unwrap()));
                assert(w@.counters =~= before.counters.update(i as int, Some(incremented)));
                assert(w@.counters[i as int] == counter_model(m0).counters[i as int]);
                assert(lines_view(out@) =~= lines_before.push(dec_digits(incremented as int)));
                assert(lines_view(out@) =~= counter_lines_up_to(m0, i as int + 1));
            }
        } else {
            proof {
                assert(!m0.has_counter(i as int));
                assert(counter_lines_up_to(m0, i as int + 1) == counter_lines_up_to(
                    m0,
                    i as int,
                ));
            }
        }
        i = i + 1;
    }
    proof {
        assert(w@.counters =~= counter_model(m0).counters);
        assert(w@ =~= counter_model(m0));
        crate::laws::lemma_counter_model_wf(m0);
    }
    out
}

} // verus!
