//! Properties of the physics that hold for all inputs, proved from the
//! specifications of the body operations and of a frame.
use vstd::prelude::*;
use vstd::arithmetic::div_mod::{
    lemma_div_is_ordered, lemma_div_multiples_vanish_quotient, lemma_fundamental_div_mod,
    lemma_mod_pos_bound,
};
use crate::body::{div_trunc, lemma_merged_in_range, merged, offscreen, pull, Object};
use crate::fixed::{is_root, lemma_root, lemma_root_exists, root, UNIT_CUBED};
use crate::simulation::{
    collide, frame, interact, interact_upto, killed, merge_into, turn, turns_upto,
};

verus! {

/// Rounding toward zero leaves `t * div_trunc(a, t)` less than `t` away
/// from `a`.
proof fn lemma_div_trunc_close(a: int, t: int)
    requires
        t > 0,
    ensures
        -t < a - t * div_trunc(a, t) < t,
{
    if a >= 0 {
        lemma_fundamental_div_mod(a, t);
        lemma_mod_pos_bound(a, t);
        assert(a - t * div_trunc(a, t) == a % t);
    } else {
        let q = (-a) / t;
        lemma_fundamental_div_mod(-a, t);
        lemma_mod_pos_bound(-a, t);
        assert(t * (-q) == -(t * q)) by (nonlinear_arith);
        assert(a - t * div_trunc(a, t) == -((-a) % t));
    }
}

/// Momentum is conserved by a merge: the survivor's velocity times the total
/// mass differs from the total momentum by less than the total mass (the
/// rounding of the division), on each axis; and the mass is the sum of the
/// two masses where that sum fits.
pub proof fn lemma_merge_conserves_momentum(a: Object, b: Object)
    requires
        !a.fixed,
        a.mass + b.mass > 0,
    ensures
        ({
            let w = merge_into(a, b);
            let t = a.mass + b.mass;
            &&& -t < (a.mass * a.vel.x + b.mass * b.vel.x) - t * w.vel.x < t
            &&& -t < (a.mass * a.vel.y + b.mass * b.vel.y) - t * w.vel.y < t
            &&& a.mass + b.mass <= u32::MAX ==> w.mass == a.mass + b.mass
        }),
{
    let t = a.mass + b.mass;
    lemma_merged_in_range(a.mass as int, a.vel.x as int, b.mass as int, b.vel.x as int);
    lemma_merged_in_range(a.mass as int, a.vel.y as int, b.mass as int, b.vel.y as int);
    lemma_div_trunc_close(a.mass * a.vel.x + b.mass * b.vel.x, t);
    lemma_div_trunc_close(a.mass * a.vel.y + b.mass * b.vel.y, t);
}

/// What body `j` acting on the free body `i` leaves of body `k`.
proof fn lemma_interact_keeps(s: Seq<Object>, i: int, j: int, k: int)
    requires
        0 <= i < s.len(),
        0 <= j < s.len(),
        0 <= k < s.len(),
        !s[i].fixed,
    ensures
        interact(s, i, j).len() == s.len(),
        interact(s, i, j)[k].fixed == s[k].fixed,
        k != i ==> interact(s, i, j)[k].pos == s[k].pos,
        s[k].fixed ==> interact(s, i, j)[k].pos == s[k].pos && interact(s, i, j)[k].vel == s[k].vel,
        !s[k].alive ==> interact(s, i, j)[k] == s[k],
{
}

/// What bodies `0 .. m` acting on the free body `i` leave of body `k`.
proof fn lemma_interact_upto_keeps(s: Seq<Object>, i: int, m: int, k: int)
    requires
        0 <= i < s.len(),
        0 <= k < s.len(),
        m <= s.len(),
        !s[i].fixed,
    ensures
        interact_upto(s, i, m).len() == s.len(),
        interact_upto(s, i, m)[k].fixed == s[k].fixed,
        k != i ==> interact_upto(s, i, m)[k].pos == s[k].pos,
        s[k].fixed ==> interact_upto(s, i, m)[k].pos == s[k].pos && interact_upto(s, i, m)[k].vel
            == s[k].vel,
        !s[k].alive ==> interact_upto(s, i, m)[k] == s[k],
    decreases m,
{
    if m > 0 {
        lemma_interact_upto_keeps(s, i, m - 1, k);
        lemma_interact_upto_keeps(s, i, m - 1, i);
        lemma_interact_keeps(interact_upto(s, i, m - 1), i, m - 1, k);
    }
}

/// What the turn of body `i` leaves of body `k`.
proof fn lemma_turn_keeps(s: Seq<Object>, i: int, k: int)
    requires
        0 <= i < s.len(),
        0 <= k < s.len(),
    ensures
        turn(s, i).len() == s.len(),
        turn(s, i)[k].fixed == s[k].fixed,
        k != i ==> turn(s, i)[k].pos == s[k].pos,
        s[k].fixed ==> turn(s, i)[k].pos == s[k].pos && turn(s, i)[k].vel == s[k].vel,
        !s[k].alive ==> turn(s, i)[k] == s[k],
{
    if s[i].alive && !offscreen(s[i].pos) && !s[i].fixed {
        lemma_interact_upto_keeps(s, i, s.len() as int, k);
        lemma_interact_upto_keeps(s, i, s.len() as int, i);
    }
}

/// What the turns of bodies `0 .. m` leave of body `k`.
proof fn lemma_turns_upto_keeps(s: Seq<Object>, m: int, k: int)
    requires
        0 <= k < s.len(),
        m <= s.len(),
    ensures
        turns_upto(s, m).len() == s.len(),
        turns_upto(s, m)[k].fixed == s[k].fixed,
        k >= m ==> turns_upto(s, m)[k].pos == s[k].pos,
        s[k].fixed ==> turns_upto(s, m)[k].pos == s[k].pos && turns_upto(s, m)[k].vel == s[k].vel,
        !s[k].alive ==> turns_upto(s, m)[k] == s[k],
    decreases m,
{
    if m > 0 {
        lemma_turns_upto_keeps(s, m - 1, k);
        lemma_turn_keeps(turns_upto(s, m - 1), m - 1, k);
    }
}

/// A fixed body neither moves nor changes its velocity in a frame, whatever
/// the other bodies are, and stays fixed.
pub proof fn lemma_frame_keeps_fixed(s: Seq<Object>, k: int)
    requires
        0 <= k < s.len(),
        s[k].fixed,
    ensures
        frame(s).len() == s.len(),
        frame(s)[k].pos == s[k].pos,
        frame(s)[k].vel == s[k].vel,
        frame(s)[k].fixed,
{
    lemma_turns_upto_keeps(s, s.len() as int, k);
}

/// A dead body stays exactly as it is through a frame: it is never revived
/// or updated.
pub proof fn lemma_frame_keeps_dead(s: Seq<Object>, k: int)
    requires
        0 <= k < s.len(),
        !s[k].alive,
    ensures
        frame(s).len() == s.len(),
        frame(s)[k] == s[k],
{
    lemma_turns_upto_keeps(s, s.len() as int, k);
}

/// A body that is dead after the turns of bodies `0 .. m` is dead after those
/// of `0 .. n`, for `m <= n`.
proof fn lemma_turns_upto_dead_stays(s: Seq<Object>, m: int, n: int, k: int)
    requires
        0 <= k < s.len(),
        0 <= m <= n <= s.len(),
        !turns_upto(s, m)[k].alive,
    ensures
        !turns_upto(s, n)[k].alive,
    decreases n - m,
{
    if n > m {
        lemma_turns_upto_dead_stays(s, m, n - 1, k);
        lemma_turns_upto_keeps(s, n - 1, k);
        lemma_turn_keeps(turns_upto(s, n - 1), n - 1, k);
    }
}

/// A body beyond the culling bounds at the start of a frame is dead at its
/// end.
pub proof fn lemma_frame_culls(s: Seq<Object>, k: int)
    requires
        0 <= k < s.len(),
        offscreen(s[k].pos),
    ensures
        frame(s).len() == s.len(),
        !frame(s)[k].alive,
{
    lemma_turns_upto_keeps(s, k, k);
    lemma_turns_upto_keeps(s, s.len() as int, k);
    assert(!turns_upto(s, k + 1)[k].alive);
    lemma_turns_upto_dead_stays(s, k + 1, s.len() as int, k);
}

/// In a collision the strictly heavier body survives with the sum of the
/// two masses, where that sum fits, and the other is marked dead.
pub proof fn lemma_collision_sums_mass(s: Seq<Object>, i: int, j: int)
    requires
        0 <= i < s.len(),
        0 <= j < s.len(),
        i != j,
        s[i].mass + s[j].mass <= u32::MAX,
    ensures
        ({
            let r = collide(s, i, j);
            let (w, l) = if s[i].mass > s[j].mass { (i, j) } else { (j, i) };
            &&& r.len() == s.len()
            &&& r[w].mass == s[i].mass + s[j].mass
            &&& r[w].alive == s[w].alive
            &&& !r[l].alive
        }),
{
}

/// Of two bodies of equal mass in a collision, the second operand, the body
/// met later while the first takes its turn, survives.
pub proof fn lemma_equal_mass_second_survives(s: Seq<Object>, i: int, j: int)
    requires
        0 <= i < s.len(),
        0 <= j < s.len(),
        i != j,
        s[i].mass == s[j].mass,
    ensures
        collide(s, i, j)[j] == merge_into(s[j], s[i]),
        !collide(s, i, j)[i].alive,
{
}

/// Two live free bodies of equal mass whose circles meet, inside the culling
/// bounds: after one frame the first is dead and the second holds both
/// masses, where their sum fits.
pub proof fn lemma_equal_pair_merges(a: Object, b: Object)
    requires
        a.alive,
        b.alive,
        !a.fixed,
        !b.fixed,
        !offscreen(a.pos),
        !offscreen(b.pos),
        a.mass == b.mass,
        a.mass + b.mass <= u32::MAX,
        crate::body::circles_meet(a.pos, a.radius as int, b.pos, b.radius as int),
    ensures
        ({
            let r = frame(seq![a, b]);
            &&& r.len() == 2
            &&& !r[0].alive
            &&& r[1].alive
            &&& r[1].mass == a.mass + b.mass
        }),
{
    let s = seq![a, b];
    assert(interact_upto(s, 0, 0) == s);
    assert(interact(s, 0, 0) == s);
    assert(interact_upto(s, 0, 1) == s);
    let t = s.update(0, a.pulled(b.pos, b.mass));
    assert(interact(s, 0, 1) == collide(t, 0, 1));
    let u = interact_upto(s, 0, 2);
    assert(u == collide(t, 0, 1));
    assert(!u[0].alive);
    assert(turn(s, 0) == u);
    assert(turns_upto(s, 0) == s);
    assert(turns_upto(s, 1) == u);
    assert(interact_upto(u, 1, 0) == u);
    assert(interact(u, 1, 0) == u);
    assert(interact_upto(u, 1, 1) == u);
    assert(interact(u, 1, 1) == u);
    assert(interact_upto(u, 1, 2) == u);
    assert(turn(u, 1) == u.update(1, u[1].moved()));
    assert(frame(s) == turns_upto(s, 2));
}

/// The pull of a mass `m` points toward it on each axis, and its size on an
/// axis is at most `m / d²` (in sub-pixel units, `m * UNIT_CUBED / d2`),
/// where `dc` is that axis's offset toward the mass and `d2` the squared
/// distance; exactly `m / d²` along the line to the mass, less the rounding.
pub proof fn lemma_pull_toward_and_bounded(m: int, dc: int, d2: nat)
    requires
        m >= 0,
        d2 > 0,
        dc * dc <= d2,
    ensures
        dc > 0 ==> 0 <= pull(m, dc, d2) <= (m * UNIT_CUBED) / (d2 as int),
        dc < 0 ==> -((m * UNIT_CUBED) / (d2 as int)) <= pull(m, dc, d2) <= 0,
        dc == 0 ==> pull(m, dc, d2) == 0,
{
    let r = root(d2);
    lemma_root_exists(d2);
    assert(r > 0) by (nonlinear_arith)
        requires d2 > 0, d2 < (r + 1) * (r + 1), r >= 0;
    let a = if dc >= 0 { dc } else { -dc };
    assert(a * a == dc * dc) by (nonlinear_arith)
        requires a == dc || a == -dc;
    assert(a <= r) by (nonlinear_arith)
        requires a * a <= d2, d2 < (r + 1) * (r + 1), a >= 0, r >= 0;
    let k = m * UNIT_CUBED;
    assert(k * a <= k * r && 0 <= k * a) by (nonlinear_arith)
        requires a <= r, 0 <= a, k >= 0;
    assert(m * UNIT_CUBED * dc == if dc >= 0 { k * a } else { -(k * a) }) by (nonlinear_arith)
        requires k == m * UNIT_CUBED, dc >= 0 ==> a == dc, dc < 0 ==> a == -dc;
    assert(d2 * r > 0) by (nonlinear_arith)
        requires d2 > 0, r > 0;
    lemma_div_is_ordered(k * a, k * r, (d2 * r) as int);
    lemma_div_is_ordered(0, k * a, (d2 * r) as int);
    lemma_div_multiples_vanish_quotient(r as int, k, d2 as int);
    assert(r * k == k * r && r * d2 == d2 * r) by (nonlinear_arith);
    if dc == 0 {
        assert(k * a == 0);
    }
}

/// A dead body exerts nothing: neither pull nor collision on the body whose
/// turn it is.
pub proof fn lemma_dead_body_exerts_nothing(s: Seq<Object>, i: int, j: int)
    requires
        0 <= i < s.len(),
        0 <= j < s.len(),
        !s[j].alive,
    ensures
        interact(s, i, j) == s,
{
}

/// The velocity change on each axis is `m * dc / d³` (in sub-pixel units,
/// `m * UNIT_CUBED * dc / (d2 * d)`), where `d` is the distance rounded down
/// to a whole unit: `d2 * d` times the change is less than `d2 * d` away
/// from `m * UNIT_CUBED * dc`.
pub proof fn lemma_pull_inverse_square(m: int, dc: int, d2: nat)
    requires
        d2 > 0,
    ensures
        ({
            let den = d2 * root(d2);
            &&& is_root(d2, root(d2))
            &&& root(d2) > 0
            &&& -den < m * UNIT_CUBED * dc - den * pull(m, dc, d2) < den
        }),
{
    let r = root(d2);
    lemma_root_exists(d2);
    assert(r > 0) by (nonlinear_arith)
        requires d2 > 0, d2 < (r + 1) * (r + 1), r >= 0;
    assert(d2 * r > 0) by (nonlinear_arith)
        requires d2 > 0, r > 0;
    lemma_div_trunc_close(m * UNIT_CUBED * dc, (d2 * r) as int);
}

/// A body straight above a mass (the mass below it on the screen, at the
/// same `x`) gains downward speed from its pull and none sideways, as long as
/// the pull is at least one sub-pixel unit per frame (`d2 <= m * UNIT_CUBED`)
/// and the velocity stays in range.
pub proof fn lemma_pull_from_below(o: Object, p: crate::body::Vec2, m: u32)
    requires
        p.x == o.pos.x,
        p.y > o.pos.y,
        crate::body::dist2(o.pos, p) <= m * UNIT_CUBED,
        o.vel.y + (m * UNIT_CUBED) / crate::body::dist2(o.pos, p) <= i32::MAX,
    ensures
        o.pulled(p, m).vel.x == o.vel.x,
        o.pulled(p, m).vel.y > o.vel.y,
        o.pulled(p, m).pos == o.pos,
{
    let dy = p.y - o.pos.y;
    let d2 = crate::body::dist2(o.pos, p) as nat;
    assert(d2 == dy * dy) by (nonlinear_arith)
        requires d2 == (p.x - o.pos.x) * (p.x - o.pos.x) + dy * dy, p.x == o.pos.x;
    assert(dy * dy > 0) by (nonlinear_arith)
        requires dy > 0;
    let r = root(d2);
    lemma_root_exists(d2);
    assert(r == dy) by {
        assert(dy * dy <= d2 && d2 < (dy + 1) * (dy + 1)) by (nonlinear_arith)
            requires d2 == dy * dy, dy > 0;
        lemma_root(d2, dy as nat);
    }
    let k = m * UNIT_CUBED;
    assert(d2 * r > 0 && k * dy == (k * dy) && d2 * r == dy * d2) by (nonlinear_arith)
        requires d2 > 0, r == dy, dy > 0;
    // k * dy / (d2 * dy) == k / d2 >= 1
    lemma_div_multiples_vanish_quotient(dy, k, d2 as int);
    assert(dy * k == k * dy) by (nonlinear_arith);
    lemma_div_is_ordered(d2 as int, k, d2 as int);
    vstd::arithmetic::div_mod::lemma_div_multiples_vanish(1, d2 as int);
    lemma_pull_toward_and_bounded(m as int, dy, d2);
    assert(pull(m as int, 0, d2) == 0);
}

/// Two live bodies of equal mass in any collection: when body `j` acts on
/// body `i` during `i`'s turn and their circles meet, `i` dies and `j`
/// survives with both masses (where their sum fits), its velocity merged
/// with that of `i` after the pull.
pub proof fn lemma_equal_mass_pair_in_turn(s: Seq<Object>, i: int, j: int)
    requires
        0 <= i < s.len(),
        0 <= j < s.len(),
        i != j,
        s[i].alive,
        s[j].alive,
        s[i].mass == s[j].mass,
        s[i].mass + s[j].mass <= u32::MAX,
        crate::body::circles_meet(s[i].pos, s[i].radius as int, s[j].pos, s[j].radius as int),
    ensures
        ({
            let r = interact(s, i, j);
            let a = s[i].pulled(s[j].pos, s[j].mass);
            &&& r.len() == s.len()
            &&& !r[i].alive
            &&& r[j] == merge_into(s[j], a)
            &&& r[j].alive
            &&& r[j].mass == s[i].mass + s[j].mass
            &&& forall|k: int| 0 <= k < s.len() && k != i && k != j ==> #[trigger] r[k] == s[k]
        }),
{
}

} // verus!
