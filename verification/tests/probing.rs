use aim_probe::aim::resolve;
use aim_probe::math::Vec2;
use aim_probe::probe::{probe, probe_obstacle, Obstacle};

fn obstacle(x: i64, y: i64, hx: i64, hy: i64) -> Obstacle {
    Obstacle { pos: Vec2 { x, y }, half_extents: Some(Vec2 { x: hx, y: hy }) }
}

#[test]
fn probe_hits_obstacle_on_the_ray() {
    let actor = Vec2 { x: 0, y: 0 };
    let aim = resolve(actor, Vec2 { x: 200, y: 0 });
    let obstacles = vec![obstacle(100, 0, 25, 10)];
    // Probe point (100, 0) lies inside the box 75..125 x -10..10.
    assert!(probe(actor, aim.direction, &obstacles));
}

#[test]
fn probe_misses_offset_obstacle() {
    let actor = Vec2 { x: 0, y: 0 };
    let aim = resolve(actor, Vec2 { x: 200, y: 0 });
    let obstacles = vec![obstacle(100, 100, 25, 10)];
    // The probe point stays on the x axis, far outside the box around
    // (100, 100).
    assert!(!probe(actor, aim.direction, &obstacles));
}

#[test]
fn probe_clear_with_zero_obstacles() {
    let actor = Vec2 { x: 0, y: 0 };
    let aim = resolve(actor, Vec2 { x: 200, y: 0 });
    let obstacles: Vec<Obstacle> = vec![];
    assert!(!probe(actor, aim.direction, &obstacles));
}

#[test]
fn probe_ors_across_obstacles() {
    let actor = Vec2 { x: 0, y: 0 };
    let aim = resolve(actor, Vec2 { x: 200, y: 0 });
    let only_miss = vec![obstacle(100, 100, 25, 10), obstacle(-50, 3, 20, 20)];
    assert!(!probe(actor, aim.direction, &only_miss));
    let one_hit = vec![obstacle(100, 100, 25, 10), obstacle(100, 0, 25, 10)];
    assert!(probe(actor, aim.direction, &one_hit));
}

#[test]
fn probe_skips_obstacle_without_bounds() {
    let actor = Vec2 { x: 0, y: 0 };
    let aim = resolve(actor, Vec2 { x: 200, y: 0 });
    let unbounded = Obstacle { pos: Vec2 { x: 100, y: 0 }, half_extents: None };
    assert!(!probe(actor, aim.direction, &vec![unbounded]));
    // The same position with bounds hits, so only the missing box made the
    // difference.
    assert!(probe(actor, aim.direction, &vec![unbounded, obstacle(100, 0, 25, 10)]));
}

#[test]
fn probe_boundary_is_strict() {
    let actor = Vec2 { x: 0, y: 0 };
    let aim = resolve(actor, Vec2 { x: 200, y: 0 });
    // distance(actor, (100, 25)) = floor(sqrt(10625)) = 103, so the probe
    // point is (103, 0), 25 below the obstacle's centre.
    let on_edge = obstacle(100, 25, 25, 25);
    assert!(!probe_obstacle(actor, aim.direction, &on_edge));
    let just_inside = obstacle(100, 25, 25, 26);
    assert!(probe_obstacle(actor, aim.direction, &just_inside));
}

#[test]
fn probe_zero_extent_never_hits() {
    let actor = Vec2 { x: 0, y: 0 };
    let aim = resolve(actor, Vec2 { x: 200, y: 0 });
    assert!(!probe_obstacle(actor, aim.direction, &obstacle(100, 0, 0, 0)));
}

#[test]
fn probe_with_zero_direction_tests_actor_position() {
    let actor = Vec2 { x: 0, y: 0 };
    let aim = resolve(actor, actor);
    assert_eq!(aim.direction, Vec2 { x: 0, y: 0 });
    // The probe point collapses onto the actor: a box around the actor
    // hits, a distant one does not.
    assert!(probe_obstacle(actor, aim.direction, &obstacle(1, 1, 5, 5)));
    assert!(!probe_obstacle(actor, aim.direction, &obstacle(100, 0, 25, 10)));
}

#[test]
fn probe_twice_is_bit_identical() {
    let actor = Vec2 { x: -3, y: 11 };
    let aim = resolve(actor, Vec2 { x: 418, y: -77 });
    let obstacles = vec![obstacle(200, -30, 40, 40), obstacle(-90, -90, 10, 10)];
    let h1 = probe(actor, aim.direction, &obstacles);
    let h2 = probe(actor, aim.direction, &obstacles);
    assert_eq!(h1, h2);
}
