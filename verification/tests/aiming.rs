use aim_probe::aim::{aim_at_mouse, draw_ray, resolve, Actor, RaySegment};
use aim_probe::math::{distance, Vec2, DIR_SCALE, MAX_WORLD};

#[test]
fn resolve_along_axis() {
    let a = Vec2 { x: 0, y: 0 };
    let p = Vec2 { x: 200, y: 0 };
    let r = resolve(a, p);
    assert_eq!(r.direction, Vec2 { x: DIR_SCALE, y: 0 });
    assert_eq!(r.midpoint, Vec2 { x: 100, y: 0 });
    assert_eq!(r.length, 200);
    assert_eq!(r.rotation, r.direction);
}

#[test]
fn resolve_pythagorean_triple() {
    let a = Vec2 { x: 0, y: 0 };
    let p = Vec2 { x: 300, y: 400 };
    let r = resolve(a, p);
    assert_eq!(r.length, 500);
    // 300 * 65536 / 500 and 400 * 65536 / 500, rounded toward zero.
    assert_eq!(r.direction, Vec2 { x: 39321, y: 52428 });
    assert_eq!(r.midpoint, Vec2 { x: 150, y: 200 });
}

#[test]
fn resolve_negative_delta() {
    let a = Vec2 { x: 100, y: 100 };
    let p = Vec2 { x: -100, y: 100 };
    let r = resolve(a, p);
    assert_eq!(r.direction, Vec2 { x: -DIR_SCALE, y: 0 });
    assert_eq!(r.midpoint, Vec2 { x: 0, y: 100 });
    assert_eq!(r.length, 200);
}

#[test]
fn resolve_degenerate_is_zero_vector() {
    let a = Vec2 { x: 42, y: -17 };
    let r = resolve(a, a);
    assert_eq!(r.direction, Vec2 { x: 0, y: 0 });
    assert_eq!(r.rotation, Vec2 { x: 0, y: 0 });
    assert_eq!(r.length, 0);
    assert_eq!(r.midpoint, a);
}

#[test]
fn resolve_length_equals_distance() {
    let a = Vec2 { x: -250, y: 60 };
    let p = Vec2 { x: 1350, y: -900 };
    let r = resolve(a, p);
    assert_eq!(r.length, distance(a, p));
}

#[test]
fn resolve_direction_near_unit_length() {
    let lower = DIR_SCALE * DIR_SCALE - 4 * DIR_SCALE - 2;
    let cases = [
        (Vec2 { x: 0, y: 0 }, Vec2 { x: 200, y: 0 }),
        (Vec2 { x: 0, y: 0 }, Vec2 { x: 300, y: 400 }),
        (Vec2 { x: 10, y: 20 }, Vec2 { x: -931, y: 4087 }),
        (Vec2 { x: -5, y: 7 }, Vec2 { x: -4, y: 7 }),
        (Vec2 { x: 0, y: 0 }, Vec2 { x: 1, y: 1 }),
    ];
    for (a, p) in cases {
        let r = resolve(a, p);
        let norm_sq = r.direction.x * r.direction.x + r.direction.y * r.direction.y;
        assert!(norm_sq >= lower);
        let len = r.length;
        assert!(norm_sq * len * len <= DIR_SCALE * DIR_SCALE * (len * len + 2 * len));
        assert!(r.direction != Vec2 { x: 0, y: 0 });
    }
}

#[test]
fn resolve_twice_is_bit_identical() {
    let a = Vec2 { x: 13, y: -8 };
    let p = Vec2 { x: -501, y: 777 };
    let r1 = resolve(a, p);
    let r2 = resolve(a, p);
    assert_eq!(r1, r2);
}

#[test]
fn aim_at_mouse_turns_the_actor() {
    let mut actor = Actor { pos: Vec2 { x: 0, y: 0 }, heading: Vec2 { x: 0, y: 0 } };
    aim_at_mouse(&mut actor, Vec2 { x: 0, y: -50 });
    assert_eq!(actor.heading, Vec2 { x: 0, y: -DIR_SCALE });
    assert_eq!(actor.pos, Vec2 { x: 0, y: 0 });
}

#[test]
fn aim_at_mouse_degenerate_keeps_heading() {
    let heading = Vec2 { x: 1234, y: -4321 };
    let mut actor = Actor { pos: Vec2 { x: 9, y: 9 }, heading };
    aim_at_mouse(&mut actor, Vec2 { x: 9, y: 9 });
    assert_eq!(actor.heading, heading);
}

#[test]
fn draw_ray_spans_actor_to_pointer() {
    let mut ray = RaySegment {
        midpoint: Vec2 { x: 0, y: 0 },
        length: 0,
        rotation: Vec2 { x: 0, y: 0 },
    };
    let a = Vec2 { x: 0, y: 0 };
    let p = Vec2 { x: 200, y: 0 };
    draw_ray(&mut ray, a, p);
    assert_eq!(ray.midpoint, Vec2 { x: 100, y: 0 });
    assert_eq!(ray.length, 200);
    assert_eq!(ray.rotation, Vec2 { x: DIR_SCALE, y: 0 });
}

#[test]
fn draw_ray_degenerate_keeps_rotation() {
    let rotation = Vec2 { x: -65536, y: 0 };
    let mut ray = RaySegment { midpoint: Vec2 { x: 5, y: 5 }, length: 77, rotation };
    let a = Vec2 { x: 30, y: 40 };
    draw_ray(&mut ray, a, a);
    assert_eq!(ray.rotation, rotation);
    assert_eq!(ray.length, 0);
    assert_eq!(ray.midpoint, a);
}

#[test]
fn resolve_across_the_whole_world() {
    let a = Vec2 { x: -MAX_WORLD, y: -MAX_WORLD };
    let p = Vec2 { x: MAX_WORLD, y: MAX_WORLD };
    let r = resolve(a, p);
    assert_eq!(r.length, 5931641);
    // 4194304 * 65536 / 5931641, rounded toward zero, on both axes.
    assert_eq!(r.direction, Vec2 { x: 46340, y: 46340 });
    assert_eq!(r.midpoint, Vec2 { x: 0, y: 0 });
}

#[test]
fn midpoint_rounds_toward_the_actor() {
    let a = Vec2 { x: 0, y: 0 };
    let p = Vec2 { x: 3, y: -3 };
    let r = resolve(a, p);
    assert_eq!(r.midpoint, Vec2 { x: 1, y: -1 });
}
