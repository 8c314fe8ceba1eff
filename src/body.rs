//! A simulated point mass and the physics of a single body: integration,
//! gravitational pull, inelastic merging and off-screen culling.
use vstd::prelude::*;
use vstd::arithmetic::div_mod::{
    lemma_div_is_ordered, lemma_div_is_ordered_by_denominator, lemma_div_multiples_vanish,
    lemma_div_pos_is_pos,
};
use crate::fixed::{clamp32, clamp_i32, is_root, isqrt, root, UNIT, UNIT_CUBED};

verus! {

/// Width of the visible area, in pixels.
pub const WIDTH: i64 = 1280;

/// Height of the visible area, in pixels.
pub const HEIGHT: i64 = 900;

/// How far beyond the visible area a body may travel before it is culled,
/// in pixels.
pub const OFFSET: i64 = 1500;

/// A point or a vector in the plane, in sub-pixel units.
#[derive(Clone, Copy, Debug, PartialEq, Eq, Structural)]
pub struct Vec2 {
    pub x: i32,
    pub y: i32,
}

impl Vec2 {
    pub fn new(x: i32, y: i32) -> (r: Vec2)
        ensures
            r.x == x,
            r.y == y,
    {
        Vec2 { x, y }
    }
}

/// A simulated body. Position, velocity and radius are in sub-pixel units;
/// the mass is a whole number.
#[derive(Clone, Copy, Debug, PartialEq, Eq, Structural)]
pub struct Object {
    pub pos: Vec2,
    pub vel: Vec2,
    pub radius: u32,
    pub mass: u32,
    pub alive: bool,
    pub fixed: bool,
}

/// Squared distance between two points.
pub open spec fn dist2(a: Vec2, b: Vec2) -> int {
    (b.x - a.x) * (b.x - a.x) + (b.y - a.y) * (b.y - a.y)
}

/// Two circles touch or overlap.
pub open spec fn circles_meet(c1: Vec2, r1: int, c2: Vec2, r2: int) -> bool {
    dist2(c1, c2) <= (r1 + r2) * (r1 + r2)
}

/// Division rounding toward zero, for a positive divisor.
pub open spec fn div_trunc(a: int, b: int) -> int {
    if a >= 0 {
        a / b
    } else {
        -((-a) / b)
    }
}

/// One component of the velocity change that a mass `m` causes on a body,
/// where `dc` is that component of the offset toward the mass and `d2` the
/// squared distance: `m / d²` along the unit vector `dc / d`, that is
/// `m * dc / d³`, scaled to sub-pixel units. No pull at zero distance.
pub open spec fn pull(m: int, dc: int, d2: nat) -> int {
    if d2 == 0 {
        0
    } else {
        div_trunc(m * UNIT_CUBED * dc, (d2 * root(d2)) as int)
    }
}

/// One component of the velocity after a perfectly inelastic merge of a body
/// of mass `m1` and velocity `v1` with one of mass `m2` and velocity `v2`:
/// the total momentum over the total mass. Two massless bodies keep `v1`.
pub open spec fn merged(m1: int, v1: int, m2: int, v2: int) -> int {
    if m1 + m2 == 0 {
        v1
    } else {
        div_trunc(m1 * v1 + m2 * v2, m1 + m2)
    }
}

/// The point lies beyond the visible area widened by `OFFSET` on each side.
pub open spec fn offscreen(p: Vec2) -> bool {
    p.x > (WIDTH + OFFSET) * UNIT || p.x < -OFFSET * UNIT || p.y > (HEIGHT + OFFSET) * UNIT
        || p.y < -OFFSET * UNIT
}

/// Whether two circles touch or overlap.
pub fn check_collision_circles(c1: Vec2, r1: u32, c2: Vec2, r2: u32) -> (r: bool)
    ensures
        r == circles_meet(c1, r1 as int, c2, r2 as int),
{
    let dx: i128 = c2.x as i128 - c1.x as i128;
    let dy: i128 = c2.y as i128 - c1.y as i128;
    let rs: i128 = r1 as i128 + r2 as i128;
    assert(0 <= dx * dx <= 0x1_0000_0000_0000_0000 && 0 <= dy * dy <= 0x1_0000_0000_0000_0000)
        by (nonlinear_arith)
        requires -0x1_0000_0000 <= dx <= 0x1_0000_0000, -0x1_0000_0000 <= dy <= 0x1_0000_0000;
    assert(rs * rs <= 0x4_0000_0000_0000_0000) by (nonlinear_arith)
        requires 0 <= rs <= 0x2_0000_0000;
    dx * dx + dy * dy <= rs * rs
}

/// Division rounding toward zero of a signed value by a positive one.
fn div_toward_zero(a: i128, b: u128) -> (r: i128)
    requires
        b > 0,
        a > i128::MIN,
    ensures
        r == div_trunc(a as int, b as int),
        a >= 0 ==> 0 <= r <= a,
        a < 0 ==> a <= r <= 0,
{
    proof {
        if a >= 0 {
            lemma_div_is_ordered_by_denominator(a as int, 1, b as int);
            lemma_div_pos_is_pos(a as int, b as int);
        } else {
            lemma_div_is_ordered_by_denominator(-a, 1, b as int);
            lemma_div_pos_is_pos(-a, b as int);
        }
    }
    if a >= 0 {
        ((a as u128) / b) as i128
    } else {
        let q: u128 = ((0 - a) as u128) / b;
        -(q as i128)
    }
}

impl Object {
    /// A live body with the given state.
    pub open spec fn new_spec(pos: Vec2, vel: Vec2, radius: u32, mass: u32, fixed: bool) -> Object {
        Object { pos, vel, radius, mass, alive: true, fixed }
    }

    /// A live body with the given state; no value is refused.
    pub fn new(pos: Vec2, vel: Vec2, radius: u32, mass: u32, fixed: bool) -> (r: Object)
        ensures
            r == Object::new_spec(pos, vel, radius, mass, fixed),
    {
        Object { pos, vel, radius, mass, alive: true, fixed }
    }

    /// Whether the body lies beyond the visible area widened by `OFFSET`.
    pub fn is_offscreen(&self) -> (r: bool)
        ensures
            r == offscreen(self.pos),
    {
        let x: i64 = self.pos.x as i64;
        let y: i64 = self.pos.y as i64;
        x > (WIDTH + OFFSET) * UNIT || x < -OFFSET * UNIT || y > (HEIGHT + OFFSET) * UNIT || y
            < -OFFSET * UNIT
    }

    /// The body after one frame of motion: moved by its velocity, each
    /// coordinate held to the range of an `i32`.
    pub open spec fn moved(self) -> Object {
        Object {
            pos: Vec2 {
                x: clamp32(self.pos.x + self.vel.x) as i32,
                y: clamp32(self.pos.y + self.vel.y) as i32,
            },
            ..self
        }
    }

    /// The body after the merge of the momentum of a body of velocity `v` and
    /// mass `m` into it; a fixed body stays as it is.
    pub open spec fn absorbed(self, v: Vec2, m: u32) -> Object {
        if self.fixed {
            self
        } else {
            Object {
                vel: Vec2 {
                    x: merged(self.mass as int, self.vel.x as int, m as int, v.x as int) as i32,
                    y: merged(self.mass as int, self.vel.y as int, m as int, v.y as int) as i32,
                },
                ..self
            }
        }
    }

    /// The body after the pull of a mass `m` at `p`, each velocity component
    /// held to the range of an `i32`.
    pub open spec fn pulled(self, p: Vec2, m: u32) -> Object {
        let d2 = dist2(self.pos, p) as nat;
        Object {
            vel: Vec2 {
                x: clamp32(self.vel.x + pull(m as int, p.x - self.pos.x, d2)) as i32,
                y: clamp32(self.vel.y + pull(m as int, p.y - self.pos.y, d2)) as i32,
            },
            ..self
        }
    }

    /// Moves a live body by its velocity, for one frame; a dead body stays
    /// where it is.
    pub fn update_pos(&mut self)
        ensures
            *final(self) == if old(self).alive {
                old(self).moved()
            } else {
                *old(self)
            },
    {
        if !self.alive {
            return;
        }
        self.pos.x = clamp_i32(self.pos.x as i128 + self.vel.x as i128);
        self.pos.y = clamp_i32(self.pos.y as i128 + self.vel.y as i128);
    }

    /// Merges the momentum of a body of velocity `v` and mass `m` into this
    /// one, which keeps its own mass: the caller adds `m` to it. A fixed body
    /// is left as it is.
    pub fn inelastic_collision(&mut self, v: Vec2, m: u32)
        ensures
            *final(self) == old(self).absorbed(v, m),
    {
        if self.fixed {
            return;
        }
        self.vel.x = merge_component(self.mass, self.vel.x, m, v.x);
        self.vel.y = merge_component(self.mass, self.vel.y, m, v.y);
    }

    /// Adds the gravitational pull of a mass `m` at `p`: a velocity change of
    /// magnitude `m / d²` toward `p`, where `d` is the distance to `p`.
    pub fn update_vel(&mut self, p: Vec2, m: u32)
        ensures
            *final(self) == old(self).pulled(p, m),
    {
        let dx: i128 = p.x as i128 - self.pos.x as i128;
        let dy: i128 = p.y as i128 - self.pos.y as i128;
        assert(0 <= dx * dx <= 0x1_0000_0000_0000_0000 && 0 <= dy * dy <= 0x1_0000_0000_0000_0000)
            by (nonlinear_arith)
            requires -0x1_0000_0000 <= dx <= 0x1_0000_0000, -0x1_0000_0000 <= dy <= 0x1_0000_0000;
        assert(dx * dx >= 0 && dy * dy >= 0) by (nonlinear_arith);
        let d2: u128 = (dx * dx + dy * dy) as u128;
        if d2 == 0 {
            assert(pull(m as int, p.x - self.pos.x, 0) == 0);
            return;
        }
        let d: u64 = isqrt(d2);
        self.vel.x = clamp_i32(self.vel.x as i128 + pull_component(m, dx, d2, d));
        self.vel.y = clamp_i32(self.vel.y as i128 + pull_component(m, dy, d2, d));
    }
}

/// A merged velocity component lies between the smallest and the largest
/// value of an `i32`, as the two velocities it is merged from do.
pub proof fn lemma_merged_in_range(m1: int, v1: int, m2: int, v2: int)
    requires
        0 <= m1,
        0 <= m2,
        i32::MIN <= v1 <= i32::MAX,
        i32::MIN <= v2 <= i32::MAX,
    ensures
        i32::MIN <= merged(m1, v1, m2, v2) <= i32::MAX,
{
    let t = m1 + m2;
    if t > 0 {
        let p = m1 * v1 + m2 * v2;
        assert(-0x8000_0000 * t <= p <= 0x7fff_ffff * t) by (nonlinear_arith)
            requires
                p == m1 * v1 + m2 * v2, t == m1 + m2, 0 <= m1, 0 <= m2,
                -0x8000_0000 <= v1 <= 0x7fff_ffff, -0x8000_0000 <= v2 <= 0x7fff_ffff;
        if p >= 0 {
            lemma_div_is_ordered(p, 0x7fff_ffff * t, t);
            lemma_div_multiples_vanish(0x7fff_ffff, t);
            assert(0x7fff_ffff * t == t * 0x7fff_ffff);
            lemma_div_is_ordered(0, p, t);
        } else {
            lemma_div_is_ordered(-p, 0x8000_0000 * t, t);
            lemma_div_multiples_vanish(0x8000_0000, t);
            assert(0x8000_0000 * t == t * 0x8000_0000);
            lemma_div_is_ordered(0, -p, t);
        }
    }
}

/// One component of a merged velocity.
fn merge_component(m1: u32, v1: i32, m2: u32, v2: i32) -> (r: i32)
    ensures
        r == merged(m1 as int, v1 as int, m2 as int, v2 as int),
{
    let total: u128 = m1 as u128 + m2 as u128;
    if total == 0 {
        return v1;
    }
    assert(-0x8000_0000_0000_0000 <= m1 * v1 <= 0x8000_0000_0000_0000) by (nonlinear_arith)
        requires 0 <= m1 <= 0xffff_ffff, -0x8000_0000 <= v1 <= 0x7fff_ffff;
    assert(-0x8000_0000_0000_0000 <= m2 * v2 <= 0x8000_0000_0000_0000) by (nonlinear_arith)
        requires 0 <= m2 <= 0xffff_ffff, -0x8000_0000 <= v2 <= 0x7fff_ffff;
    let a1: i128 = m1 as i128 * v1 as i128;
    let a2: i128 = m2 as i128 * v2 as i128;
    let p: i128 = a1 + a2;
    proof {
        lemma_merged_in_range(m1 as int, v1 as int, m2 as int, v2 as int);
    }
    div_toward_zero(p, total) as i32
}

/// One component of a gravitational pull, given the squared distance `d2`
/// and its integer square root `d`.
fn pull_component(m: u32, dc: i128, d2: u128, d: u64) -> (r: i128)
    requires
        -0x1_0000_0000 <= dc <= 0x1_0000_0000,
        0 < d2 <= 0x2_0000_0000_0000_0000,
        d as nat == root(d2 as nat),
        is_root(d2 as nat, d as nat),
    ensures
        r == pull(m as int, dc as int, d2 as nat),
        -0x1_0000_0000_0000_0000_0000_0000_0000 <= r <= 0x1_0000_0000_0000_0000_0000_0000_0000,
{
    assert(d <= 0x2_0000_0000) by (nonlinear_arith)
        requires (d as int) * (d as int) <= d2, d2 <= 0x2_0000_0000_0000_0000;
    assert(d > 0) by (nonlinear_arith)
        requires d2 > 0, (d as int + 1) * (d as int + 1) > d2;
    assert(d2 * d <= 0x4_0000_0000_0000_0000_0000_0000) by (nonlinear_arith)
        requires d <= 0x2_0000_0000, d2 <= 0x2_0000_0000_0000_0000;
    assert(-0x1_0000_0000_0000_0000_0000_0000_0000 <= m * UNIT_CUBED * dc <= 0x1_0000_0000_0000_0000_0000_0000_0000) by (nonlinear_arith)
        requires -0x1_0000_0000 <= dc <= 0x1_0000_0000, 0 <= m <= 0xffff_ffff, UNIT_CUBED == 0x1_0000_0000_0000;
    assert(d2 * d > 0) by (nonlinear_arith)
        requires d > 0, d2 > 0;
    let den: u128 = d2 * d as u128;
    let num: i128 = m as i128 * UNIT_CUBED as i128 * dc;
    div_toward_zero(num, den)
}


} // verus!
