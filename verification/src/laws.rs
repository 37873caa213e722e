//! The general laws of the simulation core, stated and proved over the
//! model: well-formedness preservation, in-bounds movement, deterministic
//! rendering, freshness of reused identifiers, and counter monotonicity
//! across whole ticks.

use vstd::prelude::*;

use crate::model::{WorldModel, counter_model, movement_model, render_lines};
use crate::schedule::{SystemKind, run_model, system_model};

verus! {

/// The movement system preserves well-formedness: it writes components
/// only on slots that are alive and already carry them.
pub proof fn lemma_movement_model_wf(m: WorldModel)
    requires
        m.wf(),
    ensures
        movement_model(m).wf(),
{
    let after = movement_model(m);
    assert forall|i: int| 0 <= i < after.alive.len() && !(#[trigger] after.alive[i]) implies
        after.positions[i] is None && after.velocities[i] is None
            && after.counters[i] is None by {
        assert(!m.has_pos_vel(i));
    }
}

/// The counter system preserves well-formedness: it writes counters only
/// on slots that are alive and already carry one.
pub proof fn lemma_counter_model_wf(m: WorldModel)
    requires
        m.wf(),
    ensures
        counter_model(m).wf(),
{
    let after = counter_model(m);
    assert forall|i: int| 0 <= i < after.alive.len() && !(#[trigger] after.alive[i]) implies
        after.positions[i] is None && after.velocities[i] is None
            && after.counters[i] is None by {
        assert(!m.has_counter(i));
    }
}

/// Every scheduled system preserves well-formedness.
pub proof fn lemma_system_model_wf(m: WorldModel, s: SystemKind)
    requires
        m.wf(),
    ensures
        system_model(m, s).wf(),
{
    match s {
        SystemKind::Movement => lemma_movement_model_wf(m),
        SystemKind::Render => {},
        SystemKind::CounterIncrement => lemma_counter_model_wf(m),
    }
}

/// Running any schedule preserves well-formedness.
pub proof fn lemma_run_model_wf(m: WorldModel, systems: Seq<SystemKind>)
    requires
        m.wf(),
    ensures
        run_model(m, systems).wf(),
    decreases systems.len(),
{
    if systems.len() > 0 {
        lemma_system_model_wf(m, systems[0]);
        lemma_run_model_wf(system_model(m, systems[0]), systems.drop_first());
    }
}

/// After one movement step, every moving entity's position lies within the
/// closed grid: `x` in `[0, width)` and `y` in `[0, height)` — whatever its
/// starting position and velocity.
pub proof fn lemma_movement_in_bounds(m: WorldModel, i: int)
    requires
        m.wf(),
        m.has_pos_vel(i),
    ensures
        movement_model(m).positions[i] is Some,
        0 <= movement_model(m).positions[i].unwrap().0 < m.width,
        0 <= movement_model(m).positions[i].unwrap().1 < m.height,
{
}

/// Rendering is a function of the world alone: two renderings of the same
/// world are byte-identical, line for line.
pub proof fn lemma_render_deterministic(
    m: WorldModel,
    first: Seq<Seq<u8>>,
    second: Seq<Seq<u8>>,
)
    requires
        first == render_lines(m),
        second == render_lines(m),
    ensures
        first == second,
{
}

/// Sequential consistency within a tick: a system's mutations are exactly
/// what the next scheduled system sees; there is no interleaving.
pub proof fn lemma_mutations_visible_in_same_tick(m: WorldModel, a: SystemKind, b: SystemKind)
    ensures
        run_model(m, seq![a, b]) == system_model(system_model(m, a), b),
{
    let ss = seq![a, b];
    let t1 = ss.drop_first();
    assert(t1[0] == b);
    assert(t1.drop_first() =~= Seq::<SystemKind>::empty());
    assert(run_model(m, ss) == run_model(system_model(m, a), t1));
    assert(run_model(system_model(m, a), t1) == run_model(
        system_model(system_model(m, a), b),
        t1.drop_first(),
    ));
}

/// The canonical per-tick schedule: movement, then rendering, then the
/// counter increment.
pub open spec fn standard_systems() -> Seq<SystemKind> {
    seq![SystemKind::Movement, SystemKind::Render, SystemKind::CounterIncrement]
}

/// The world after `n` whole ticks, each tick one run of schedule `ss`.
pub open spec fn run_n_model(m: WorldModel, ss: Seq<SystemKind>, n: nat) -> WorldModel
    decreases n,
{
    if n == 0 {
        m
    } else {
        run_model(run_n_model(m, ss, (n - 1) as nat), ss)
    }
}

/// One standard tick increments an alive entity's counter by exactly one
/// (below the wrap-around point) and keeps the world well formed.
pub proof fn lemma_standard_tick_counter(m: WorldModel, i: int)
    requires
        m.wf(),
        m.has_counter(i),
        m.counters[i].unwrap() < u64::MAX,
    ensures
        run_model(m, standard_systems()).wf(),
        run_model(m, standard_systems()).has_counter(i),
        run_model(m, standard_systems()).counters[i].unwrap() == m.counters[i].unwrap() + 1,
{
    let ss = standard_systems();
    let m1 = movement_model(m);
    let m2 = counter_model(m1);
    let t1 = ss.drop_first();
    let t2 = t1.drop_first();
    let t3 = t2.drop_first();
    assert(ss[0] == SystemKind::Movement);
    assert(t1[0] == SystemKind::Render);
    assert(t2[0] == SystemKind::CounterIncrement);
    assert(t3 =~= Seq::<SystemKind>::empty());
    assert(run_model(m, ss) == run_model(m1, t1));
    assert(run_model(m1, t1) == run_model(m1, t2));
    assert(run_model(m1, t2) == run_model(m2, t3));
    assert(run_model(m2, t3) == m2);
    lemma_movement_model_wf(m);
    lemma_counter_model_wf(m1);
    assert(m1.counters == m.counters);
    assert(m1.alive == m.alive);
    assert(m1.has_counter(i));
    assert(m2.counters[i].unwrap() == m.counters[i].unwrap() + 1);
}

/// Counter monotonicity: over `n` consecutive standard ticks with no
/// external reset, an alive entity's counter grows by exactly `n`, as long
/// as the sum stays within the `u64` range.
pub proof fn lemma_counter_monotonic(m: WorldModel, n: nat, i: int)
    requires
        m.wf(),
        m.has_counter(i),
        m.counters[i].unwrap() + n <= u64::MAX,
    ensures
        run_n_model(m, standard_systems(), n).wf(),
        run_n_model(m, standard_systems(), n).has_counter(i),
        run_n_model(m, standard_systems(), n).counters[i].unwrap() == m.counters[i].unwrap()
            + n,
    decreases n,
{
    if n > 0 {
        lemma_counter_monotonic(m, (n - 1) as nat, i);
        lemma_standard_tick_counter(run_n_model(m, standard_systems(), (n - 1) as nat), i);
    }
}

/// A dead slot carries no component data, so a freshly spawned entity that
/// reuses an identifier inherits nothing from its previous owner.
pub proof fn lemma_dead_slot_is_blank(m: WorldModel, i: int)
    requires
        m.wf(),
        0 <= i < m.cap(),
        !m.alive[i],
    ensures
        m.positions[i] is None,
        m.velocities[i] is None,
        m.counters[i] is None,
{
}

} // verus!
