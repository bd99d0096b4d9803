use nanobots::geom::Vec2;
use nanobots::swarm::{
    apply_separation, integrate, separation, swarm_step, try_swarm_step, Nanobot, POSITION_LIMIT,
};

fn bot(x: i64, y: i64, vx: i64, vy: i64) -> Nanobot {
    Nanobot { position: Vec2::new(x, y), velocity: Vec2::new(vx, vy), selected: false }
}

#[test]
fn integrate_adds_velocity_times_dt() {
    let mut bots = vec![bot(1, 2, 3, -4), bot(-5, 0, 0, 7)];
    integrate(&mut bots, 2);
    assert_eq!(bots[0].position, Vec2 { x: 7, y: -6 });
    assert_eq!(bots[1].position, Vec2 { x: -5, y: 14 });
    assert_eq!(bots[0].velocity, Vec2 { x: 3, y: -4 });
}

#[test]
fn integrate_with_zero_velocity_keeps_position() {
    let mut bots = vec![Nanobot::new(Vec2::new(12, -34)), bot(i64::MAX, i64::MIN, 0, 0)];
    for dt in [0u64, 1, 16, 1000, u64::MAX] {
        integrate(&mut bots, dt);
    }
    assert_eq!(bots[0].position, Vec2 { x: 12, y: -34 });
    assert_eq!(bots[1].position, Vec2 { x: i64::MAX, y: i64::MIN });
}

#[test]
fn separation_of_a_pair_is_opposite() {
    let bots = vec![bot(0, 0, 0, 0), bot(3, 4, 0, 0)];
    assert_eq!(separation(&bots, 0, 5), Vec2 { x: -3, y: -4 });
    assert_eq!(separation(&bots, 1, 5), Vec2 { x: 3, y: 4 });
}

#[test]
fn separation_ignores_bots_out_of_range() {
    let bots = vec![bot(0, 0, 0, 0), bot(3, 4, 0, 0)];
    assert_eq!(separation(&bots, 0, 4), Vec2::zero());
    assert_eq!(separation(&bots, 1, 4), Vec2::zero());
}

#[test]
fn separation_sums_neighbours() {
    let bots = vec![bot(0, 0, 0, 0), bot(2, 0, 0, 0), bot(0, -1, 0, 0), bot(100, 100, 0, 0)];
    assert_eq!(separation(&bots, 0, 3), Vec2 { x: -2, y: 1 });
    assert_eq!(separation(&bots, 3, 3), Vec2::zero());
}

#[test]
fn apply_separation_adds_to_velocity() {
    let mut bots = vec![bot(0, 0, 1, 1), bot(1, 0, 0, 0), bot(50, 50, 2, 3)];
    apply_separation(&mut bots, 2);
    assert_eq!(bots[0].velocity, Vec2 { x: 0, y: 1 });
    assert_eq!(bots[1].velocity, Vec2 { x: 1, y: 0 });
    assert_eq!(bots[2].velocity, Vec2 { x: 2, y: 3 });
    assert_eq!(bots[0].position, Vec2 { x: 0, y: 0 });
}

#[test]
fn swarm_step_separates_then_moves() {
    let mut bots = vec![bot(0, 0, 0, 0), bot(1, 0, 0, 2), bot(40, 40, 1, 0)];
    swarm_step(&mut bots, 2, 3);
    assert_eq!(bots[0].velocity, Vec2 { x: -1, y: 0 });
    assert_eq!(bots[0].position, Vec2 { x: -3, y: 0 });
    assert_eq!(bots[1].velocity, Vec2 { x: 1, y: 2 });
    assert_eq!(bots[1].position, Vec2 { x: 4, y: 6 });
    assert_eq!(bots[2].position, Vec2 { x: 43, y: 40 });
}

#[test]
fn try_swarm_step_moves_when_in_range() {
    let mut bots = vec![bot(0, 0, 0, 0), bot(1, 0, 0, 2)];
    assert!(try_swarm_step(&mut bots, 2, 3));
    assert_eq!(bots[0].position, Vec2 { x: -3, y: 0 });
    assert_eq!(bots[1].position, Vec2 { x: 4, y: 6 });
}

#[test]
fn try_swarm_step_refuses_velocity_overflow() {
    let start = vec![bot(1, 0, i64::MAX, 0), bot(0, 0, 0, 0)];
    let mut bots = start.clone();
    assert!(!try_swarm_step(&mut bots, 2, 1));
    assert_eq!(bots, start);
}

#[test]
fn try_swarm_step_refuses_position_overflow() {
    let start = vec![bot(0, 0, i64::MAX / 2, 0)];
    let mut bots = start.clone();
    assert!(!try_swarm_step(&mut bots, 2, 3));
    assert_eq!(bots, start);
}

#[test]
fn try_swarm_step_refuses_far_positions() {
    let start = vec![bot(POSITION_LIMIT + 1, 0, 0, 0)];
    let mut bots = start.clone();
    assert!(!try_swarm_step(&mut bots, 2, 3));
    assert_eq!(bots, start);
}
