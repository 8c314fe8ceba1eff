//! Translation of pointer gestures into changes of the body collection:
//! placing planets and stars, and deleting the bodies under the cursor.
use vstd::prelude::*;
use crate::body::{check_collision_circles, circles_meet, div_trunc, dist2, Object, Vec2, HEIGHT, WIDTH};
use crate::fixed::{isqrt, root, UNIT};
use crate::simulation::killed;

verus! {

/// Radius of a planet: five pixels.
pub const PLANET_RADIUS: u32 = 327680;

/// Mass of a newly placed planet.
pub const PLANET_MASS: u32 = 1;

/// Radius of a star: fifty pixels.
pub const STAR_RADIUS: u32 = 3276800;

/// Mass a star gains per pixel of drag, before the division by 512.
pub const STARTMASS: u64 = 5000;

/// Radius of the deletion cursor: fifteen pixels.
pub const PICK_RADIUS: u32 = 983040;

/// The velocity that a drag from `start` to `end` gives a planet: the drag
/// over a quarter of the visible width and height, rounded toward zero.
pub open spec fn drag_velocity_of(start: Vec2, end: Vec2) -> Vec2 {
    Vec2 {
        x: div_trunc(end.x - start.x, WIDTH / 4) as i32,
        y: div_trunc(end.y - start.y, HEIGHT / 4) as i32,
    }
}

/// The mass of a star placed by a drag from `start` to `end`: `STARTMASS`
/// per pixel of drag distance, over 512, rounded down.
pub open spec fn star_mass_of(start: Vec2, end: Vec2) -> u32 {
    ((STARTMASS as int * root(dist2(start, end) as nat)) / (UNIT * 512) as int) as u32
}

/// A drag component over a positive divisor, rounded toward zero.
fn drag_component(a: i32, b: i32, q: i64) -> (r: i32)
    requires
        q >= 4,
    ensures
        r == div_trunc(b - a, q as int),
{
    let d: i64 = b as i64 - a as i64;
    proof {
        if d >= 0 {
            vstd::arithmetic::div_mod::lemma_div_is_ordered_by_denominator(d as int, 4, q as int);
            vstd::arithmetic::div_mod::lemma_div_is_ordered(d as int, 0x1_0000_0000, 4);
            vstd::arithmetic::div_mod::lemma_div_pos_is_pos(d as int, q as int);
        } else {
            vstd::arithmetic::div_mod::lemma_div_is_ordered_by_denominator(-d, 4, q as int);
            vstd::arithmetic::div_mod::lemma_div_is_ordered(-d, 0x1_0000_0000, 4);
            vstd::arithmetic::div_mod::lemma_div_pos_is_pos(-d, q as int);
        }
    }
    if d >= 0 {
        (d / q) as i32
    } else {
        -(((-d) / q) as i32)
    }
}

/// The velocity of a planet placed by a drag from `start` to `end`.
pub fn drag_velocity(start: Vec2, end: Vec2) -> (r: Vec2)
    ensures
        r == drag_velocity_of(start, end),
{
    Vec2 { x: drag_component(start.x, end.x, WIDTH / 4), y: drag_component(start.y, end.y, HEIGHT / 4) }
}

/// The mass of a star placed by a drag from `start` to `end`.
pub fn star_mass(start: Vec2, end: Vec2) -> (r: u32)
    ensures
        r == star_mass_of(start, end),
{
    let dx: i128 = end.x as i128 - start.x as i128;
    let dy: i128 = end.y as i128 - start.y as i128;
    assert(0 <= dx * dx <= 0x1_0000_0000_0000_0000 && 0 <= dy * dy <= 0x1_0000_0000_0000_0000)
        by (nonlinear_arith)
        requires -0x1_0000_0000 <= dx <= 0x1_0000_0000, -0x1_0000_0000 <= dy <= 0x1_0000_0000;
    let d: u64 = isqrt((dx * dx + dy * dy) as u128);
    assert(d <= 0x2_0000_0000) by (nonlinear_arith)
        requires (d as int) * (d as int) <= dx * dx + dy * dy, dx * dx + dy * dy <= 0x2_0000_0000_0000_0000;
    let m: u64 = STARTMASS * d / (UNIT as u64 * 512);
    proof {
        vstd::arithmetic::div_mod::lemma_div_is_ordered(STARTMASS * d as int, 5000 * 0x2_0000_0000int, 0x200_0000int);
    }
    m as u32
}

/// Adds a planet at `start`, with the velocity of the drag to `end`.
pub fn place_planet(objects: &mut Vec<Object>, start: Vec2, end: Vec2)
    ensures
        final(objects)@ == old(objects)@.push(
            Object::new_spec(start, drag_velocity_of(start, end), PLANET_RADIUS, PLANET_MASS, false),
        ),
{
    let v: Vec2 = drag_velocity(start, end);
    objects.push(Object::new(start, v, PLANET_RADIUS, PLANET_MASS, false));
}

/// Adds a fixed star at `start`, at rest, with the mass of the drag to `end`.
pub fn place_star(objects: &mut Vec<Object>, start: Vec2, end: Vec2)
    ensures
        final(objects)@ == old(objects)@.push(
            Object::new_spec(start, Vec2 { x: 0, y: 0 }, STAR_RADIUS, star_mass_of(start, end), true),
        ),
{
    let m: u32 = star_mass(start, end);
    objects.push(Object::new(start, Vec2::new(0, 0), STAR_RADIUS, m, true));
}

/// The body under a deletion cursor at `p`: its circle meets the cursor's.
pub open spec fn picked(p: Vec2, o: Object) -> bool {
    circles_meet(p, PICK_RADIUS as int, o.pos, o.radius as int)
}

/// Marks dead every body whose circle meets the deletion cursor at `p`.
pub fn remove_at(objects: &mut Vec<Object>, p: Vec2)
    ensures
        final(objects)@.len() == old(objects)@.len(),
        forall|k: int|
            0 <= k < old(objects)@.len() ==> #[trigger] final(objects)@[k] == if picked(
                p,
                old(objects)@[k],
            ) {
                killed(old(objects)@[k])
            } else {
                old(objects)@[k]
            },
{
    let n: usize = objects.len();
    let mut i: usize = 0;
    while i < n
        invariant
            i <= n,
            n == old(objects)@.len(),
            objects@.len() == n,
            forall|k: int|
                0 <= k < i ==> #[trigger] objects@[k] == if picked(p, old(objects)@[k]) {
                    killed(old(objects)@[k])
                } else {
                    old(objects)@[k]
                },
            forall|k: int| i <= k < n ==> #[trigger] objects@[k] == old(objects)@[k],
        decreases n - i,
    {
        let o: Object = objects[i];
        if check_collision_circles(p, PICK_RADIUS, o.pos, o.radius) {
            let mut dead: Object = o;
            dead.alive = false;
            objects[i] = dead;
        }
        i += 1;
    }
}

} // verus!
