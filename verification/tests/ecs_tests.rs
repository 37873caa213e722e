use grid_ecs::components::{Counter, EcsError, Position, Velocity};
use grid_ecs::schedule::{Schedule, SystemKind};
use grid_ecs::systems::{counter_system, movement_system, render_system};
use grid_ecs::world::World;

fn ten_by_ten(capacity: usize) -> World {
    World::new(capacity, 10, 10)
}

fn spawn_mover(w: &mut World, x: i32, y: i32, vx: i32, vy: i32) -> usize {
    let id = w.spawn().unwrap();
    w.insert_position(id, Position { x, y }).unwrap();
    w.insert_velocity(id, Velocity { vx, vy }).unwrap();
    id
}

#[test]
fn spawn_allocates_ascending_ids() {
    let mut w = ten_by_ten(3);
    assert_eq!(w.spawn(), Ok(0));
    assert_eq!(w.spawn(), Ok(1));
    assert_eq!(w.spawn(), Ok(2));
}

#[test]
fn spawn_capacity_exceeded() {
    let mut w = ten_by_ten(2);
    w.spawn().unwrap();
    w.spawn().unwrap();
    assert_eq!(w.spawn(), Err(EcsError::CapacityExceeded));
    // The refused spawn changed nothing: both slots are still alive.
    assert!(w.is_alive(0));
    assert!(w.is_alive(1));
}

#[test]
fn despawn_invalid_ids_rejected() {
    let mut w = ten_by_ten(2);
    assert_eq!(w.despawn(0), Err(EcsError::InvalidEntity));
    assert_eq!(w.despawn(7), Err(EcsError::InvalidEntity));
    let id = w.spawn().unwrap();
    assert_eq!(w.despawn(id), Ok(()));
    assert_eq!(w.despawn(id), Err(EcsError::InvalidEntity));
}

#[test]
fn respawn_reuses_lowest_id_without_lingering_components() {
    let mut w = ten_by_ten(3);
    let a = spawn_mover(&mut w, 1, 2, 3, 4);
    w.insert_counter(a, Counter { value: 9 }).unwrap();
    let _b = w.spawn().unwrap();
    w.despawn(a).unwrap();
    assert!(!w.is_alive(a));
    let reused = w.spawn().unwrap();
    assert_eq!(reused, a);
    assert_eq!(w.get_position(reused), None);
    assert_eq!(w.get_velocity(reused), None);
    assert_eq!(w.get_counter(reused), None);
}

#[test]
fn insert_on_dead_entity_rejected() {
    let mut w = ten_by_ten(2);
    assert_eq!(
        w.insert_position(0, Position { x: 1, y: 1 }),
        Err(EcsError::InvalidEntity)
    );
    assert_eq!(
        w.insert_velocity(5, Velocity { vx: 1, vy: 1 }),
        Err(EcsError::InvalidEntity)
    );
    assert_eq!(
        w.insert_counter(0, Counter { value: 0 }),
        Err(EcsError::InvalidEntity)
    );
}

#[test]
fn insert_overwrites_prior_value() {
    let mut w = ten_by_ten(1);
    let id = w.spawn().unwrap();
    w.insert_position(id, Position { x: 1, y: 2 }).unwrap();
    w.insert_position(id, Position { x: 7, y: 8 }).unwrap();
    assert_eq!(w.get_position(id), Some(Position { x: 7, y: 8 }));
}

#[test]
fn remove_clears_component() {
    let mut w = ten_by_ten(1);
    let id = spawn_mover(&mut w, 1, 1, 1, 1);
    assert_eq!(w.remove_position(id), Ok(()));
    assert_eq!(w.get_position(id), None);
    assert_eq!(w.get_velocity(id), Some(Velocity { vx: 1, vy: 1 }));
    // Removing an absent component from an alive entity succeeds as well.
    assert_eq!(w.remove_position(id), Ok(()));
    // Removing from a dead or unknown identifier is reported.
    assert_eq!(w.remove_counter(7), Err(EcsError::InvalidEntity));
}

#[test]
fn get_out_of_range_is_none() {
    let w = ten_by_ten(1);
    assert_eq!(w.get_position(5), None);
    assert_eq!(w.get_velocity(5), None);
    assert_eq!(w.get_counter(5), None);
}

#[test]
fn query_excludes_entities_lacking_a_component() {
    // For every population size from 0 to capacity, an entity missing one
    // of the demanded components is never yielded.
    let cap: usize = 6;
    for population in 0..=cap {
        let mut w = ten_by_ten(cap);
        let mut expect_pv: Vec<usize> = Vec::new();
        let mut expect_c: Vec<usize> = Vec::new();
        for k in 0..population {
            let id = w.spawn().unwrap();
            if k % 3 != 0 {
                w.insert_position(id, Position { x: 0, y: 0 }).unwrap();
            }
            if k % 2 != 0 {
                w.insert_velocity(id, Velocity { vx: 0, vy: 0 }).unwrap();
            }
            if k % 3 != 0 && k % 2 != 0 {
                expect_pv.push(id);
            }
            if k % 4 == 0 {
                w.insert_counter(id, Counter { value: 0 }).unwrap();
                expect_c.push(id);
            }
        }
        assert_eq!(w.query_pos_vel(), expect_pv);
        assert_eq!(w.query_counter(), expect_c);
    }
}

#[test]
fn query_yields_ascending_identifiers() {
    let mut w = ten_by_ten(5);
    for _ in 0..5 {
        w.spawn().unwrap();
    }
    for id in [4, 1, 3, 0] {
        w.insert_position(id, Position { x: 0, y: 0 }).unwrap();
    }
    assert_eq!(w.query_pos(), vec![0, 1, 3, 4]);
}

#[test]
fn empty_query_is_no_error() {
    let mut w = ten_by_ten(4);
    assert_eq!(w.query_pos_vel(), Vec::<usize>::new());
    // A schedule over an empty world runs normally.
    let mut s = Schedule::new();
    s.add_system(SystemKind::Movement);
    s.add_system(SystemKind::CounterIncrement);
    let out = s.run(&mut w);
    assert!(out.is_empty());
}

#[test]
fn reflection_at_low_edge() {
    // Starting at x = 0 with vx = -1: after one tick x = 0 and vx = +1.
    let mut w = ten_by_ten(1);
    let id = spawn_mover(&mut w, 0, 5, -1, 0);
    movement_system(&mut w);
    assert_eq!(w.get_position(id), Some(Position { x: 0, y: 5 }));
    assert_eq!(w.get_velocity(id), Some(Velocity { vx: 1, vy: 0 }));
}

#[test]
fn reflection_at_high_edge() {
    // Starting at x = 9 on a width-10 grid with vx = +1: after one tick
    // x = 9 and vx = -1.
    let mut w = ten_by_ten(1);
    let id = spawn_mover(&mut w, 9, 5, 1, 0);
    movement_system(&mut w);
    assert_eq!(w.get_position(id), Some(Position { x: 9, y: 5 }));
    assert_eq!(w.get_velocity(id), Some(Velocity { vx: -1, vy: 0 }));
}

#[test]
fn reflection_on_vertical_axis() {
    let mut w = ten_by_ten(2);
    let top = spawn_mover(&mut w, 5, 0, 0, -1);
    let bottom = spawn_mover(&mut w, 5, 9, 0, 1);
    movement_system(&mut w);
    assert_eq!(w.get_position(top), Some(Position { x: 5, y: 0 }));
    assert_eq!(w.get_velocity(top), Some(Velocity { vx: 0, vy: 1 }));
    assert_eq!(w.get_position(bottom), Some(Position { x: 5, y: 9 }));
    assert_eq!(w.get_velocity(bottom), Some(Velocity { vx: 0, vy: -1 }));
}

#[test]
fn plain_step_moves_by_velocity() {
    let mut w = ten_by_ten(1);
    let id = spawn_mover(&mut w, 3, 4, 2, -3);
    movement_system(&mut w);
    assert_eq!(w.get_position(id), Some(Position { x: 5, y: 1 }));
    assert_eq!(w.get_velocity(id), Some(Velocity { vx: 2, vy: -3 }));
}

#[test]
fn movement_keeps_unit_velocities_in_bounds() {
    // Every start in the grid with |vx|, |vy| <= 1 lands inside the grid.
    for x in 0..10 {
        for y in 0..10 {
            for vx in -1..=1 {
                for vy in -1..=1 {
                    let mut w = ten_by_ten(1);
                    let id = spawn_mover(&mut w, x, y, vx, vy);
                    movement_system(&mut w);
                    let p = w.get_position(id).unwrap();
                    assert!(0 <= p.x && p.x < 10, "x left the grid: {}", p.x);
                    assert!(0 <= p.y && p.y < 10, "y left the grid: {}", p.y);
                }
            }
        }
    }
}

#[test]
fn movement_clamps_large_overshoot_once() {
    // A single clamp-and-negate pass, not an iterated bounce.
    let mut w = ten_by_ten(1);
    let id = spawn_mover(&mut w, 5, 5, 100, -100);
    movement_system(&mut w);
    assert_eq!(w.get_position(id), Some(Position { x: 9, y: 0 }));
    assert_eq!(w.get_velocity(id), Some(Velocity { vx: -100, vy: 100 }));
}

#[test]
fn velocity_negation_saturates_at_extreme() {
    // Negating i32::MIN does not fit in i32; the policy saturates it.
    let mut w = ten_by_ten(1);
    let id = spawn_mover(&mut w, 0, 0, i32::MIN, 0);
    movement_system(&mut w);
    assert_eq!(w.get_position(id), Some(Position { x: 0, y: 0 }));
    assert_eq!(w.get_velocity(id), Some(Velocity { vx: i32::MAX, vy: 0 }));
}

#[test]
fn render_marks_occupied_cell() {
    let mut w = ten_by_ten(2);
    let id = w.spawn().unwrap();
    w.insert_position(id, Position { x: 2, y: 3 }).unwrap();
    let lines = render_system(&w);
    assert_eq!(lines.len(), 11);
    for (row, line) in lines.iter().enumerate().take(10) {
        if row == 3 {
            assert_eq!(line, &b"..O.......".to_vec());
        } else {
            assert_eq!(line, &b"..........".to_vec());
        }
    }
    assert_eq!(lines[10], b"----------".to_vec());
}

#[test]
fn render_twice_is_byte_identical() {
    let mut w = ten_by_ten(3);
    spawn_mover(&mut w, 4, 4, 1, 1);
    spawn_mover(&mut w, 0, 9, -1, 0);
    let first = render_system(&w);
    let second = render_system(&w);
    assert_eq!(first, second);
}

#[test]
fn render_skips_out_of_bounds_positions() {
    let mut w = ten_by_ten(1);
    let id = w.spawn().unwrap();
    w.insert_position(id, Position { x: 50, y: -3 }).unwrap();
    let lines = render_system(&w);
    for line in lines.iter().take(10) {
        assert_eq!(line, &b"..........".to_vec());
    }
}

#[test]
fn counter_increments_and_emits_new_value() {
    let mut w = ten_by_ten(2);
    let a = w.spawn().unwrap();
    let b = w.spawn().unwrap();
    w.insert_counter(a, Counter { value: 0 }).unwrap();
    w.insert_counter(b, Counter { value: 122 }).unwrap();
    let out = counter_system(&mut w);
    assert_eq!(w.get_counter(a), Some(Counter { value: 1 }));
    assert_eq!(w.get_counter(b), Some(Counter { value: 123 }));
    assert_eq!(out, vec![b"1".to_vec(), b"123".to_vec()]);
}

#[test]
fn counter_wraps_at_maximum() {
    let mut w = ten_by_ten(1);
    let id = w.spawn().unwrap();
    w.insert_counter(id, Counter { value: u64::MAX }).unwrap();
    let out = counter_system(&mut w);
    assert_eq!(w.get_counter(id), Some(Counter { value: 0 }));
    assert_eq!(out, vec![b"0".to_vec()]);
}

#[test]
fn counter_grows_by_exactly_n_over_n_ticks() {
    let mut w = ten_by_ten(2);
    let id = w.spawn().unwrap();
    w.insert_counter(id, Counter { value: 7 }).unwrap();
    let mut s = Schedule::new();
    s.add_system(SystemKind::Movement);
    s.add_system(SystemKind::Render);
    s.add_system(SystemKind::CounterIncrement);
    let ticks: u64 = 25;
    for _ in 0..ticks {
        s.run(&mut w);
    }
    assert_eq!(w.get_counter(id), Some(Counter { value: 7 + ticks }));
}

#[test]
fn schedule_runs_systems_in_insertion_order() {
    // Movement runs before rendering, so the render of the same tick
    // already shows the moved position.
    let mut w = ten_by_ten(1);
    spawn_mover(&mut w, 0, 0, 1, 1);
    let mut s = Schedule::new();
    s.add_system(SystemKind::Movement);
    s.add_system(SystemKind::Render);
    let out = s.run(&mut w);
    assert_eq!(out.len(), 11);
    assert_eq!(out[1], b".O........".to_vec());
    assert_eq!(out[0], b"..........".to_vec());
}

#[test]
fn schedule_output_follows_emission_order() {
    let mut w = ten_by_ten(1);
    let id = spawn_mover(&mut w, 1, 1, 0, 0);
    w.insert_counter(id, Counter { value: 0 }).unwrap();
    let mut s = Schedule::new();
    s.add_system(SystemKind::Render);
    s.add_system(SystemKind::CounterIncrement);
    let out = s.run(&mut w);
    // Eleven render lines, then the one counter line.
    assert_eq!(out.len(), 12);
    assert_eq!(out[11], b"1".to_vec());
}

#[test]
fn end_to_end_diagonal_bounce() {
    // One entity at (0, 0) with velocity (1, 1) on a 10x10 grid: after
    // tick 1 it is at (1, 1); after tick 9 at (9, 9) still moving (+1, +1);
    // tick 10 reflects to (9, 9) with velocity (-1, -1); tick 11 yields
    // (8, 8).
    let mut w = ten_by_ten(1);
    let id = spawn_mover(&mut w, 0, 0, 1, 1);
    let mut s = Schedule::new();
    s.add_system(SystemKind::Movement);
    s.add_system(SystemKind::Render);

    s.run(&mut w);
    assert_eq!(w.get_position(id), Some(Position { x: 1, y: 1 }));

    for _ in 2..=9 {
        s.run(&mut w);
    }
    assert_eq!(w.get_position(id), Some(Position { x: 9, y: 9 }));
    assert_eq!(w.get_velocity(id), Some(Velocity { vx: 1, vy: 1 }));

    s.run(&mut w);
    assert_eq!(w.get_position(id), Some(Position { x: 9, y: 9 }));
    assert_eq!(w.get_velocity(id), Some(Velocity { vx: -1, vy: -1 }));

    s.run(&mut w);
    assert_eq!(w.get_position(id), Some(Position { x: 8, y: 8 }));
}

#[test]
fn world_reports_its_configuration() {
    let w = World::new(7, 12, 34);
    assert_eq!(w.capacity(), 7);
    assert_eq!(w.width(), 12);
    assert_eq!(w.height(), 34);
    assert!(!w.is_alive(0));
}
