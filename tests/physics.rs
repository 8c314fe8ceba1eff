use gravity_sim::body::{check_collision_circles, Object, Vec2};
use gravity_sim::fixed::{clamp_i32, isqrt};
use gravity_sim::simulation::step;

const PX: i32 = 65536;

fn px(x: i32, y: i32) -> Vec2 {
    Vec2::new(x * PX, y * PX)
}

fn planet(x: i32, y: i32, mass: u32) -> Object {
    Object::new(px(x, y), Vec2::new(0, 0), 5 * PX as u32, mass, false)
}

#[test]
fn new_body_is_alive() {
    let o = Object::new(px(1, 2), Vec2::new(3, -4), 7, 9, true);
    assert_eq!(o.pos, px(1, 2));
    assert_eq!(o.vel, Vec2::new(3, -4));
    assert_eq!(o.radius, 7);
    assert_eq!(o.mass, 9);
    assert!(o.alive);
    assert!(o.fixed);
}

#[test]
fn integer_square_root() {
    assert_eq!(isqrt(0), 0);
    assert_eq!(isqrt(1), 1);
    assert_eq!(isqrt(15), 3);
    assert_eq!(isqrt(16), 4);
    assert_eq!(isqrt(17), 4);
    assert_eq!(isqrt(1u128 << 64), 1u64 << 32);
    assert_eq!(isqrt((1u128 << 64) - 1), (1u64 << 32) - 1);
}

#[test]
fn clamping_to_i32() {
    assert_eq!(clamp_i32(5), 5);
    assert_eq!(clamp_i32(1i128 << 40), i32::MAX);
    assert_eq!(clamp_i32(-(1i128 << 40)), i32::MIN);
}

#[test]
fn circles_touching_collide() {
    assert!(check_collision_circles(px(0, 0), 5, px(0, 0), 5));
    assert!(check_collision_circles(Vec2::new(0, 0), 3, Vec2::new(6, 8), 7));
    assert!(!check_collision_circles(Vec2::new(0, 0), 3, Vec2::new(6, 8), 6));
    assert!(check_collision_circles(Vec2::new(i32::MIN, i32::MIN), u32::MAX, Vec2::new(i32::MAX, i32::MAX), u32::MAX));
}

#[test]
fn offscreen_bounds() {
    let inside = [px(0, 0), px(2780, 2400), px(-1500, -1500), px(640, 450)];
    for p in inside {
        assert!(!Object::new(p, Vec2::new(0, 0), 1, 1, false).is_offscreen());
    }
    let outside = [
        Vec2::new(2780 * PX + 1, 0),
        Vec2::new(-1500 * PX - 1, 0),
        Vec2::new(0, 2400 * PX + 1),
        Vec2::new(0, -1500 * PX - 1),
    ];
    for p in outside {
        assert!(Object::new(p, Vec2::new(0, 0), 1, 1, false).is_offscreen());
    }
}

#[test]
fn position_moves_by_velocity() {
    let mut o = Object::new(Vec2::new(10, -20), Vec2::new(3, -4), 1, 1, false);
    o.update_pos();
    assert_eq!(o.pos, Vec2::new(13, -24));
    assert_eq!(o.vel, Vec2::new(3, -4));
    let mut far = Object::new(Vec2::new(i32::MAX - 1, i32::MIN + 1), Vec2::new(5, -5), 1, 1, false);
    far.update_pos();
    assert_eq!(far.pos, Vec2::new(i32::MAX, i32::MIN));
}

#[test]
fn gravity_along_an_axis() {
    // Mass 4 at two pixels: 4 / 2² = one pixel per frame², toward the mass.
    let mut o = planet(0, 0, 1);
    o.update_vel(px(2, 0), 4);
    assert_eq!(o.vel, Vec2::new(PX, 0));
    let mut o = planet(0, 0, 1);
    o.update_vel(px(0, -2), 4);
    assert_eq!(o.vel, Vec2::new(0, -PX));
    assert_eq!(o.pos, px(0, 0));
}

#[test]
fn gravity_magnitude_at_an_angle() {
    // Mass 1 at (3, 4) pixels, distance 5: 1/25 along (3/5, 4/5).
    let mut o = planet(0, 0, 1);
    o.update_vel(px(3, 4), 1);
    assert_eq!(o.vel, Vec2::new(1572, 2097));
    let mut o = planet(0, 0, 1);
    o.update_vel(px(-3, -4), 1);
    assert_eq!(o.vel, Vec2::new(-1572, -2097));
}

#[test]
fn gravity_at_zero_distance_does_nothing() {
    let mut o = Object::new(px(5, 5), Vec2::new(7, 8), 1, 1, false);
    o.update_vel(px(5, 5), 1000);
    assert_eq!(o.vel, Vec2::new(7, 8));
}

#[test]
fn inelastic_merge_conserves_momentum() {
    let mut o = Object::new(px(0, 0), Vec2::new(10, 0), 1, 2, false);
    o.inelastic_collision(Vec2::new(0, 5), 3);
    assert_eq!(o.vel, Vec2::new(4, 3));
    assert_eq!(o.mass, 2);
}

#[test]
fn inelastic_merge_rounds_toward_zero() {
    let mut o = Object::new(px(0, 0), Vec2::new(1, -1), 1, 1, false);
    o.inelastic_collision(Vec2::new(0, 0), 2);
    assert_eq!(o.vel, Vec2::new(0, 0));
    let mut o = Object::new(px(0, 0), Vec2::new(i32::MIN, i32::MAX), 1, 7, false);
    o.inelastic_collision(Vec2::new(i32::MIN, i32::MAX), u32::MAX);
    assert_eq!(o.vel, Vec2::new(i32::MIN, i32::MAX));
}

#[test]
fn inelastic_merge_of_massless_bodies_keeps_velocity() {
    let mut o = Object::new(px(0, 0), Vec2::new(3, 4), 1, 0, false);
    o.inelastic_collision(Vec2::new(100, 100), 0);
    assert_eq!(o.vel, Vec2::new(3, 4));
}

#[test]
fn fixed_body_ignores_merge() {
    let mut o = Object::new(px(0, 0), Vec2::new(0, 0), 1, 2, true);
    o.inelastic_collision(Vec2::new(100, 100), 50);
    assert_eq!(o.vel, Vec2::new(0, 0));
}

#[test]
fn star_pulls_planet_down_until_collision() {
    let star = Object::new(px(640, 450), Vec2::new(0, 0), 50 * PX as u32, 10000, true);
    let mut objects = vec![star, planet(640, 250, 1)];
    let mut last_vy = 0;
    let mut frames = 0;
    while objects[1].alive && frames < 1000 {
        step(&mut objects);
        frames += 1;
        if objects[1].alive {
            assert!(objects[1].vel.y > 0);
            assert!(objects[1].vel.y > last_vy);
            assert_eq!(objects[1].vel.x, 0);
            last_vy = objects[1].vel.y;
        }
        assert_eq!(objects[0].pos, px(640, 450));
        assert_eq!(objects[0].vel, Vec2::new(0, 0));
    }
    assert!(frames > 1);
    assert!(!objects[1].alive);
    assert_eq!(objects[0].mass, 10001);
}

#[test]
fn overlapping_equal_planets_merge() {
    let mut objects = vec![planet(300, 300, 5), planet(300, 300, 5)];
    step(&mut objects);
    assert!(!objects[0].alive);
    assert!(objects[1].alive);
    assert_eq!(objects[1].mass, 10);
    assert_eq!(objects[1].vel, Vec2::new(0, 0));
    assert_eq!(objects.iter().filter(|o| o.alive).count(), 1);
}

#[test]
fn equal_masses_later_body_survives() {
    let mut objects = vec![planet(300, 300, 5), planet(303, 300, 5)];
    step(&mut objects);
    assert!(!objects[0].alive);
    assert!(objects[1].alive);
    assert_eq!(objects[1].mass, 10);
}

#[test]
fn heavier_body_absorbs_lighter() {
    let mut objects = vec![planet(100, 100, 7), planet(104, 100, 3)];
    step(&mut objects);
    assert!(objects[0].alive);
    assert!(!objects[1].alive);
    assert_eq!(objects[0].mass, 10);
    for _ in 0..5 {
        step(&mut objects);
        assert!(!objects[1].alive);
    }
}

#[test]
fn fixed_body_absorbs_and_stays() {
    let star = Object::new(px(400, 400), Vec2::new(0, 0), 50 * PX as u32, 100, true);
    let mut objects = vec![star, planet(410, 400, 1), planet(800, 400, 1)];
    for _ in 0..10 {
        step(&mut objects);
        assert_eq!(objects[0].pos, px(400, 400));
        assert_eq!(objects[0].vel, Vec2::new(0, 0));
        assert!(objects[0].fixed);
    }
    assert!(!objects[1].alive);
    assert_eq!(objects[0].mass, 101);
}

#[test]
fn offscreen_body_is_culled() {
    let mut objects = vec![
        planet(3000, 100, 1),
        planet(100, -1600, 1),
        planet(100, 2500, 1),
        planet(200, 200, 1),
    ];
    step(&mut objects);
    assert!(!objects[0].alive);
    assert!(!objects[1].alive);
    assert!(!objects[2].alive);
    assert!(objects[3].alive);
}

#[test]
fn dead_body_exerts_no_pull() {
    let mut heavy = Object::new(px(500, 500), Vec2::new(0, 0), 5, 100000, true);
    heavy.alive = false;
    let mut objects = vec![heavy, planet(600, 500, 1)];
    step(&mut objects);
    assert_eq!(objects[1].vel, Vec2::new(0, 0));
    assert_eq!(objects[0], heavy);
}

#[test]
fn dead_body_does_not_move() {
    let mut o = Object::new(Vec2::new(0, 0), Vec2::new(1, 0), 1, 1, false);
    o.alive = false;
    o.update_pos();
    assert_eq!(o.pos, Vec2::new(0, 0));
    assert_eq!(o.vel, Vec2::new(1, 0));
}

#[test]
fn integer_square_root_of_largest_value() {
    assert_eq!(isqrt(u128::MAX), u64::MAX);
    assert_eq!(isqrt(1u128 << 100), 1u64 << 50);
}
