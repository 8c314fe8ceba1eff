//! The starfield behind the simulation: each pixel is dark, or with a small
//! chance one of two grey star shades.
use vstd::prelude::*;

verus! {

/// A pixel is drawn by a roll in `0 .. STAR_ODDS`.
pub const STAR_ODDS: u32 = 65;

/// Grey level of a dim star.
pub const DIM_STAR: u8 = 80;

/// Grey level of a bright star.
pub const BRIGHT_STAR: u8 = 130;

/// Grey level of empty sky.
pub const SKY: u8 = 0;

/// The grey level that a roll gives a pixel: the two lowest rolls are stars.
pub open spec fn shade_of(roll: u32) -> u8 {
    if roll == 0 {
        DIM_STAR
    } else if roll == 1 {
        BRIGHT_STAR
    } else {
        SKY
    }
}

/// One of the three grey levels of the starfield.
pub open spec fn is_shade(g: u8) -> bool {
    g == SKY || g == DIM_STAR || g == BRIGHT_STAR
}

/// The grey level that a roll gives a pixel.
pub fn shade(roll: u32) -> (r: u8)
    ensures
        r == shade_of(roll),
{
    if roll == 0 {
        DIM_STAR
    } else if roll == 1 {
        BRIGHT_STAR
    } else {
        SKY
    }
}

/// Relies on rand::Rng::gen_range over rand::thread_rng: a value drawn from
/// `0 .. bound`, which must not be empty.
#[verifier::external_body]
fn roll_below(bound: u32) -> (r: u32)
    requires
        bound > 0,
    ensures
        r < bound,
{
    rand::Rng::gen_range(&mut rand::thread_rng(), 0..bound)
}

/// A random starfield of `width * height` grey levels, row by row; each is
/// empty sky or one of the two star shades.
pub fn starfield(width: u32, height: u32) -> (r: Vec<u8>)
    requires
        width as int * height as int <= usize::MAX,
    ensures
        r@.len() == width as int * height as int,
        forall|k: int| 0 <= k < r@.len() ==> is_shade(#[trigger] r@[k]),
{
    let n: usize = width as usize * height as usize;
    let mut pixels: Vec<u8> = Vec::with_capacity(n);
    let mut i: usize = 0;
    while i < n
        invariant
            i <= n,
            pixels@.len() == i,
            forall|k: int| 0 <= k < i ==> is_shade(#[trigger] pixels@[k]),
        decreases n - i,
    {
        let roll: u32 = roll_below(STAR_ODDS);
        pixels.push(shade(roll));
        i += 1;
    }
    pixels
}

} // verus!
