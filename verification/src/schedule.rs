//! The scheduler: an ordered, insertion-order-preserving list of systems,
//! each invoked exactly once per tick, synchronously and in order, so that
//! a system's mutations are visible to every system scheduled after it
//! within the same tick.

use vstd::prelude::*;

use crate::model::{WorldModel, counter_lines, counter_model, lines_view, movement_model,
    render_lines};
use crate::systems::{counter_system, movement_system, render_system};
use crate::world::World;

verus! {

/// The systems a schedule can hold, in the build's fixed set.
#[derive(Clone, Copy, PartialEq, Eq, Structural, Debug)]
pub enum SystemKind {
    /// Movement with boundary reflection.
    Movement,
    /// Grid rendering to text lines.
    Render,
    /// Counter increment with one emitted line per counter.
    CounterIncrement,
}

/// The world after one system has run.
pub open spec fn system_model(m: WorldModel, s: SystemKind) -> WorldModel {
    match s {
        SystemKind::Movement => movement_model(m),
        SystemKind::Render => m,
        SystemKind::CounterIncrement => counter_model(m),
    }
}

/// The lines one system emits when it runs on world `m`.
pub open spec fn system_lines(m: WorldModel, s: SystemKind) -> Seq<Seq<u8>> {
    match s {
        SystemKind::Movement => Seq::empty(),
        SystemKind::Render => render_lines(m),
        SystemKind::CounterIncrement => counter_lines(m),
    }
}

/// The world after the systems of `ss` have run in order, each seeing the
/// mutations of those before it.
pub open spec fn run_model(m: WorldModel, ss: Seq<SystemKind>) -> WorldModel
    decreases ss.len(),
{
    if ss.len() == 0 {
        m
    } else {
        run_model(system_model(m, ss[0]), ss.drop_first())
    }
}

/// Everything the systems of `ss` emit, in schedule order, when run in
/// order on world `m`.
pub open spec fn run_lines(m: WorldModel, ss: Seq<SystemKind>) -> Seq<Seq<u8>>
    decreases ss.len(),
{
    if ss.len() == 0 {
        Seq::empty()
    } else {
        system_lines(m, ss[0]) + run_lines(system_model(m, ss[0]), ss.drop_first())
    }
}

/// An ordered schedule of systems.
pub struct Schedule {
    pub systems: Vec<SystemKind>,
}

impl View for Schedule {
    type V = Seq<SystemKind>;

    open spec fn view(&self) -> Seq<SystemKind> {
        self.systems@
    }
}

impl Schedule {
    /// An empty schedule.
    pub fn new() -> (s: Schedule)
        ensures
            s@ == Seq::<SystemKind>::empty(),
    {
        Schedule { systems: Vec::new() }
    }

    /// Append a system; order of insertion is order of execution.
    pub fn add_system(&mut self, s: SystemKind)
        ensures
            final(self)@ == old(self)@.push(s),
    {
        self.systems.push(s);
    }

    /// Run each scheduled system exactly once, in order, on the live
    /// world, and return every line they emitted, in emission order.
    pub fn run(&self, w: &mut World) -> (out: Vec<Vec<u8>>)
        requires
            old(w).wf(),
        ensures
            final(w).wf(),
            final(w)@ == run_model(old(w)@, self@),
            lines_view(out@) == run_lines(old(w)@, self@),
    {
        let ghost m0 = w@;
        let n = self.systems.len();
        let mut out: Vec<Vec<u8>> = Vec::new();
        let mut i: usize = 0;
        proof {
            assert(self@.skip(0) =~= self@);
        }
        while i < n
            invariant
                i <= n,
                n == self@.len(),
                w.wf(),
                run_model(m0, self@) == run_model(w@, self@.skip(i as int)),
                run_lines(m0, self@) == lines_view(out@) + run_lines(w@, self@.skip(i as int)),
            decreases n - i,
        {
            let ghost rest = self@.skip(i as int);
            let ghost w_before = w@;
            let ghost lines_before = lines_view(out@);
            proof {
                assert(rest[0] == self@[i as int]);
                assert(rest.drop_first() =~= self@.skip(i as int + 1));
            }
            match self.systems[i] {
                SystemKind::Movement => {
                    movement_system(w);
                },
                SystemKind::Render => {
                    let mut lines = render_system(w);
                    out.append(&mut lines);
                },
                SystemKind::CounterIncrement => {
                    let mut lines = counter_system(w);
                    out.append(&mut lines);
                },
            }
            proof {
                assert(w@ == system_model(w_before, self@[i as int]));
                assert(lines_view(out@) =~= lines_before + system_lines(
                    w_before,
                    self@[i as int],
                ));
                assert(run_lines(m0, self@) == lines_view(out@) + run_lines(
                    w@,
                    self@.skip(i as int + 1),
                ));
            }
            i = i + 1;
        }
        proof {
            assert(self@.skip(n as int) =~= Seq::<SystemKind>::empty());
        }
        out
    }
}

} // verus!
