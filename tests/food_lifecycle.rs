use nanobots::food::{
    expire_food, food_tick, spawn_food, spawn_position, Countdown, Food, GameSettings,
};
use nanobots::geom::Vec2;

fn settings(width: u32, height: u32, food_cap: usize, food_timeout: u64) -> GameSettings {
    GameSettings { width, height, food_cap, food_timeout }
}

#[test]
fn countdown_stops_at_duration() {
    let mut c = Countdown::new(3);
    assert!(!c.finished());
    c.tick(1);
    assert_eq!(c.elapsed, 1);
    assert!(!c.finished());
    c.tick(5);
    assert_eq!(c.elapsed, 3);
    assert!(c.finished());
}

#[test]
fn zero_duration_countdown_finishes_on_first_tick() {
    let mut c = Countdown::new(0);
    c.tick(0);
    assert!(c.finished());
}

#[test]
fn spawn_position_maps_draws_into_bounds() {
    let s = settings(10, 5, 1, 3);
    assert_eq!(spawn_position(&s, 25, 3), Vec2 { x: -6, y: -2 });
    assert_eq!(spawn_position(&s, 0, 0), Vec2 { x: -10, y: -5 });
    assert_eq!(spawn_position(&s, 20, 10), Vec2 { x: 10, y: 5 });
    assert_eq!(spawn_position(&s, 21, 11), Vec2 { x: -10, y: -5 });
}

#[test]
fn spawn_position_in_bounds_for_extreme_draws() {
    let s = settings(u32::MAX, 0, 1, 3);
    for draw in [0u64, 1, 7, u64::MAX / 2, u64::MAX] {
        let p = spawn_position(&s, draw, draw);
        assert!(p.x >= -(u32::MAX as i64) && p.x <= u32::MAX as i64);
        assert_eq!(p.y, 0);
    }
}

#[test]
fn spawn_adds_one_item_under_cap() {
    let s = settings(10, 10, 2, 4);
    let mut foods: Vec<Food> = Vec::new();
    assert!(spawn_food(&mut foods, &s, 3, 4));
    assert_eq!(foods.len(), 1);
    assert_eq!(foods[0].position, Vec2 { x: -7, y: -6 });
    assert_eq!(foods[0].countdown, Countdown { elapsed: 0, duration: 4 });
    assert!(spawn_food(&mut foods, &s, 0, 0));
    assert!(!spawn_food(&mut foods, &s, 0, 0));
    assert_eq!(foods.len(), 2);
}

#[test]
fn zero_cap_spawns_nothing() {
    let s = settings(10, 10, 0, 4);
    let mut foods: Vec<Food> = Vec::new();
    assert!(!spawn_food(&mut foods, &s, 1, 1));
    assert!(foods.is_empty());
}

#[test]
fn food_count_never_exceeds_cap() {
    let s = settings(50, 30, 3, 1000);
    let mut foods: Vec<Food> = Vec::new();
    for t in 0..100u64 {
        food_tick(&mut foods, &s, 1, t * 7919, t * 104729);
        assert!(foods.len() <= 3);
    }
    assert_eq!(foods.len(), 3);
}

#[test]
fn spawned_food_lies_within_bounds() {
    let s = settings(4, 2, 1000, 1000);
    let mut foods: Vec<Food> = Vec::new();
    for t in 0..200u64 {
        food_tick(&mut foods, &s, 1, t.wrapping_mul(0x9e37_79b9_7f4a_7c15), t * 31 + 5);
    }
    assert_eq!(foods.len(), 200);
    for f in &foods {
        assert!(f.position.x >= -4 && f.position.x <= 4);
        assert!(f.position.y >= -2 && f.position.y <= 2);
    }
}

#[test]
fn food_removed_exactly_at_timeout() {
    let s = settings(10, 10, 1, 3);
    let mut foods: Vec<Food> = Vec::new();
    spawn_food(&mut foods, &s, 0, 0);
    assert_eq!(expire_food(&mut foods, 1), 0);
    assert_eq!(foods[0].countdown.elapsed, 1);
    assert_eq!(expire_food(&mut foods, 1), 0);
    assert_eq!(foods.len(), 1);
    assert_eq!(expire_food(&mut foods, 1), 1);
    assert!(foods.is_empty());
}

#[test]
fn expire_keeps_order_of_survivors() {
    let mut foods = vec![
        Food { position: Vec2 { x: 1, y: 0 }, countdown: Countdown { elapsed: 0, duration: 5 } },
        Food { position: Vec2 { x: 2, y: 0 }, countdown: Countdown { elapsed: 0, duration: 2 } },
        Food { position: Vec2 { x: 3, y: 0 }, countdown: Countdown { elapsed: 1, duration: 9 } },
    ];
    assert_eq!(expire_food(&mut foods, 2), 1);
    assert_eq!(foods.len(), 2);
    assert_eq!(foods[0].position.x, 1);
    assert_eq!(foods[0].countdown.elapsed, 2);
    assert_eq!(foods[1].position.x, 3);
    assert_eq!(foods[1].countdown.elapsed, 3);
}

#[test]
fn food_tick_spawns_then_expires() {
    let s = settings(10, 10, 5, 2);
    let mut foods: Vec<Food> = Vec::new();
    food_tick(&mut foods, &s, 1, 0, 0);
    assert_eq!(foods.len(), 1);
    food_tick(&mut foods, &s, 1, 0, 0);
    assert_eq!(foods.len(), 1);
    assert_eq!(foods[0].countdown.elapsed, 1);
    food_tick(&mut foods, &s, 5, 0, 0);
    assert!(foods.is_empty());
}
