use gravity_sim::background::{shade, starfield};
use gravity_sim::body::{Object, Vec2};
use gravity_sim::input::{drag_velocity, place_planet, place_star, remove_at, star_mass};

const PX: i32 = 65536;

fn px(x: i32, y: i32) -> Vec2 {
    Vec2::new(x * PX, y * PX)
}

#[test]
fn drag_gives_velocity() {
    assert_eq!(drag_velocity(px(0, 0), px(640, 450)), Vec2::new(2 * PX, 2 * PX));
    assert_eq!(drag_velocity(px(100, 100), px(-540, -350)), Vec2::new(-2 * PX, -2 * PX));
    assert_eq!(drag_velocity(Vec2::new(0, 0), Vec2::new(-1, 224)), Vec2::new(0, 0));
    assert_eq!(drag_velocity(Vec2::new(0, 0), Vec2::new(640, 450)), Vec2::new(2, 2));
}

#[test]
fn drag_gives_star_mass() {
    assert_eq!(star_mass(px(0, 0), px(1024, 0)), 10000);
    assert_eq!(star_mass(px(0, 0), px(60, 80)), 976);
    assert_eq!(star_mass(px(5, 5), px(5, 5)), 0);
}

#[test]
fn placing_a_planet() {
    let mut objects: Vec<Object> = Vec::new();
    place_planet(&mut objects, px(10, 20), px(330, 245));
    assert_eq!(objects.len(), 1);
    assert_eq!(objects[0], Object::new(px(10, 20), Vec2::new(PX, PX), 5 * PX as u32, 1, false));
}

#[test]
fn placing_a_star() {
    let mut objects: Vec<Object> = Vec::new();
    place_star(&mut objects, px(640, 450), px(640, 450 + 1024));
    assert_eq!(objects.len(), 1);
    assert_eq!(objects[0], Object::new(px(640, 450), Vec2::new(0, 0), 50 * PX as u32, 10000, true));
}

#[test]
fn deletion_removes_every_body_under_cursor() {
    let r = 5 * PX as u32;
    let mut objects = vec![
        Object::new(px(100, 100), Vec2::new(0, 0), r, 1, false),
        Object::new(px(120, 100), Vec2::new(0, 0), r, 1, false),
        Object::new(px(100, 115), Vec2::new(0, 0), r, 1, false),
        Object::new(px(121, 100), Vec2::new(0, 0), r, 1, false),
        Object::new(px(300, 300), Vec2::new(0, 0), r, 1, false),
    ];
    remove_at(&mut objects, px(100, 100));
    assert!(!objects[0].alive);
    assert!(!objects[1].alive);
    assert!(!objects[2].alive);
    assert!(objects[3].alive);
    assert!(objects[4].alive);
    assert_eq!(objects[0].pos, px(100, 100));
}

#[test]
fn shades_of_the_starfield() {
    assert_eq!(shade(0), 80);
    assert_eq!(shade(1), 130);
    assert_eq!(shade(2), 0);
    assert_eq!(shade(64), 0);
}

#[test]
fn starfield_has_some_stars() {
    let pixels = starfield(200, 200);
    assert_eq!(pixels.len(), 40000);
    assert!(pixels.iter().all(|&g| g == 0 || g == 80 || g == 130));
    assert!(pixels.iter().any(|&g| g == 80));
    assert!(pixels.iter().any(|&g| g == 130));
    assert!(pixels.iter().filter(|&&g| g == 0).count() > 30000);
}
