//! One frame of the simulation over the whole collection of bodies:
//! culling, pairwise gravity, collision merging and integration.
use vstd::prelude::*;
use crate::body::{circles_meet, offscreen, check_collision_circles, Object};

verus! {

/// `a + b`, held to the range of a `u32`.
pub open spec fn sat_sum(a: u32, b: u32) -> u32 {
    if a + b > u32::MAX {
        u32::MAX
    } else {
        (a + b) as u32
    }
}

/// `o` marked dead.
pub open spec fn killed(o: Object) -> Object {
    Object { alive: false, ..o }
}

/// The survivor of a collision: `winner` with the momentum of `loser`
/// merged into it, using the masses both had before, and their summed mass.
pub open spec fn merge_into(winner: Object, loser: Object) -> Object {
    Object { mass: sat_sum(winner.mass, loser.mass), ..winner.absorbed(loser.vel, loser.mass) }
}

/// Collision of bodies `i` and `j`: the strictly heavier one absorbs the
/// other; on equal masses `j` absorbs `i`.
pub open spec fn collide(s: Seq<Object>, i: int, j: int) -> Seq<Object> {
    if s[i].mass > s[j].mass {
        s.update(i, merge_into(s[i], s[j])).update(j, killed(s[j]))
    } else {
        s.update(j, merge_into(s[j], s[i])).update(i, killed(s[i]))
    }
}

/// What body `j` does to the free body `i` during `i`'s turn: it pulls `i`,
/// and then the two merge if their circles meet. Nothing happens where
/// either body is dead or `j` is `i`.
pub open spec fn interact(s: Seq<Object>, i: int, j: int) -> Seq<Object> {
    if j == i || !s[i].alive || !s[j].alive {
        s
    } else {
        let t = s.update(i, s[i].pulled(s[j].pos, s[j].mass));
        if circles_meet(t[i].pos, t[i].radius as int, t[j].pos, t[j].radius as int) {
            collide(t, i, j)
        } else {
            t
        }
    }
}

/// The collection after bodies `0 .. k` have acted on body `i`, in order.
pub open spec fn interact_upto(s: Seq<Object>, i: int, k: int) -> Seq<Object>
    decreases k,
{
    if k <= 0 {
        s
    } else {
        interact(interact_upto(s, i, k - 1), i, k - 1)
    }
}

/// Body `i`'s turn in a frame. A dead body is skipped; a live body beyond
/// the culling bounds is marked dead and does nothing more; a fixed body
/// does nothing; a free body is acted on by every other body in order and,
/// if it is still alive, then moves once by its velocity: motion is
/// integrated once per frame, not once per other body.
pub open spec fn turn(s: Seq<Object>, i: int) -> Seq<Object> {
    if !s[i].alive {
        s
    } else if offscreen(s[i].pos) {
        s.update(i, killed(s[i]))
    } else if s[i].fixed {
        s
    } else {
        let t = interact_upto(s, i, s.len() as int);
        if t[i].alive {
            t.update(i, t[i].moved())
        } else {
            t
        }
    }
}

/// The collection after the turns of bodies `0 .. k`, in order.
pub open spec fn turns_upto(s: Seq<Object>, k: int) -> Seq<Object>
    decreases k,
{
    if k <= 0 {
        s
    } else {
        turn(turns_upto(s, k - 1), k - 1)
    }
}

/// The collection after one whole frame.
pub open spec fn frame(s: Seq<Object>) -> Seq<Object> {
    turns_upto(s, s.len() as int)
}

proof fn lemma_interact_upto_len(s: Seq<Object>, i: int, k: int)
    requires
        0 <= i < s.len(),
        k <= s.len(),
    ensures
        interact_upto(s, i, k).len() == s.len(),
    decreases k,
{
    if k > 0 {
        lemma_interact_upto_len(s, i, k - 1);
    }
}

proof fn lemma_turns_upto_len(s: Seq<Object>, k: int)
    requires
        k <= s.len(),
    ensures
        turns_upto(s, k).len() == s.len(),
    decreases k,
{
    if k > 0 {
        lemma_turns_upto_len(s, k - 1);
        let t = turns_upto(s, k - 1);
        if t[k - 1].alive && !offscreen(t[k - 1].pos) && !t[k - 1].fixed {
            lemma_interact_upto_len(t, k - 1, t.len() as int);
        }
    }
}

/// Body `j` acting on body `i`.
fn interact_pair(objects: &mut Vec<Object>, i: usize, j: usize)
    requires
        i < old(objects).len(),
        j < old(objects).len(),
    ensures
        final(objects)@ == interact(old(objects)@, i as int, j as int),
{
    if j == i || !objects[i].alive || !objects[j].alive {
        return;
    }
    let other: Object = objects[j];
    let mut this: Object = objects[i];
    this.update_vel(other.pos, other.mass);
    objects[i] = this;
    if check_collision_circles(this.pos, this.radius, other.pos, other.radius) {
        if this.mass > other.mass {
            let mut winner: Object = this;
            winner.inelastic_collision(other.vel, other.mass);
            winner.mass = this.mass.saturating_add(other.mass);
            let mut loser: Object = other;
            loser.alive = false;
            objects[i] = winner;
            objects[j] = loser;
        } else {
            let mut winner: Object = other;
            winner.inelastic_collision(this.vel, this.mass);
            winner.mass = other.mass.saturating_add(this.mass);
            let mut loser: Object = this;
            loser.alive = false;
            objects[j] = winner;
            objects[i] = loser;
        }
    }
}

/// Body `i`'s turn.
fn take_turn(objects: &mut Vec<Object>, i: usize)
    requires
        i < old(objects).len(),
    ensures
        final(objects)@ == turn(old(objects)@, i as int),
{
    if !objects[i].alive {
        return;
    }
    if objects[i].is_offscreen() {
        let mut dead: Object = objects[i];
        dead.alive = false;
        objects[i] = dead;
        return;
    }
    if objects[i].fixed {
        return;
    }
    let n: usize = objects.len();
    let mut j: usize = 0;
    while j < n
        invariant
            0 <= i < n,
            j <= n,
            n == old(objects)@.len(),
            objects@ == interact_upto(old(objects)@, i as int, j as int),
        decreases n - j,
    {
        proof {
            lemma_interact_upto_len(old(objects)@, i as int, j as int);
        }
        interact_pair(objects, i, j);
        j += 1;
    }
    proof {
        lemma_interact_upto_len(old(objects)@, i as int, n as int);
    }
    if objects[i].alive {
        let mut this: Object = objects[i];
        this.update_pos();
        objects[i] = this;
    }
}

/// Advances the simulation by one frame: each body, in order, takes its
/// turn as `turn` describes.
pub fn step(objects: &mut Vec<Object>)
    ensures
        final(objects)@ == frame(old(objects)@),
{
    let n: usize = objects.len();
    let mut i: usize = 0;
    while i < n
        invariant
            i <= n,
            n == old(objects)@.len(),
            objects@ == turns_upto(old(objects)@, i as int),
        decreases n - i,
    {
        proof {
            lemma_turns_upto_len(old(objects)@, i as int);
        }
        take_turn(objects, i);
        i += 1;
    }
}

} // verus!
