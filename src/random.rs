//! Random draws for spawning and for picking a bounce sound.
use crate::events::Cue;
use crate::geometry::{
    is_unit, lemma_normalized_is_unit, lemma_unit_is_bounded, normalize, normalized, direction_ok,
    position_ok, Arena, Direction, Position, DIRECTION_SCALE, UNITS_PER_PIXEL,
};
use vstd::prelude::*;

verus! {

/// Relies on rand's `Rng::gen_range(0..bound)` on the thread-local generator:
/// the value lies in `[0, bound)`. It panics on an empty range, which
/// `bound > 0` rules out.
#[verifier::external_body]
fn random_below(bound: u64) -> (r: u64)
    requires
        bound > 0,
    ensures
        r < bound,
{
    rand::Rng::gen_range(&mut rand::thread_rng(), 0..bound)
}

/// `c` lies on a segment of `extent_px` pixels starting at zero.
pub open spec fn within_extent(c: int, extent_px: int) -> bool {
    0 <= c && (c < extent_px * UNITS_PER_PIXEL || c == 0)
}

/// `p` lies inside the arena (on its origin if the arena is empty).
pub open spec fn within_arena(p: Position, arena: Arena) -> bool {
    within_extent(p.x as int, arena.width as int) && within_extent(p.y as int, arena.height as int)
}

/// A uniformly random coordinate on a segment of `extent_px` pixels.
pub fn random_coordinate(extent_px: u32) -> (c: i64)
    ensures
        within_extent(c as int, extent_px as int),
{
    if extent_px == 0 {
        0
    } else {
        random_below(extent_px as u64 * 1_000_000_000) as i64
    }
}

/// A uniformly random point of the arena.
pub fn random_position(arena: Arena) -> (p: Position)
    ensures
        within_arena(p, arena),
        position_ok(p),
{
    Position { x: random_coordinate(arena.width), y: random_coordinate(arena.height) }
}

/// Draws on each axis are taken from `[0, 2 * DIRECTION_DRAW_RADIUS]`.
pub const DIRECTION_DRAW_RADIUS: u64 = 1000;

/// Draw pairs tried before `random_direction` settles on pointing right.
pub const DIRECTION_DRAW_ATTEMPTS: u32 = 64;

/// The point that a pair of draws stands for, centred on the origin.
pub open spec fn centred(draw: int) -> int {
    draw - DIRECTION_DRAW_RADIUS
}

/// A pair of draws is accepted when its point lies in the closed disc of
/// radius `DIRECTION_DRAW_RADIUS` and is not the origin.
pub open spec fn draws_accepted(x: int, y: int) -> bool {
    let cx = centred(x);
    let cy = centred(y);
    &&& cx * cx + cy * cy <= DIRECTION_DRAW_RADIUS * DIRECTION_DRAW_RADIUS
    &&& !(cx == 0 && cy == 0)
}

/// The direction for a pair of draws: the centred point, normalised, when it
/// lies in the disc and is not the origin. Accepting only points of the
/// disc makes the direction's angle uniform.
pub fn direction_from_draws(x: u64, y: u64) -> (d: Option<Direction>)
    requires
        x <= 2 * DIRECTION_DRAW_RADIUS,
        y <= 2 * DIRECTION_DRAW_RADIUS,
    ensures
        d == (if draws_accepted(x as int, y as int) {
            Some(normalized(centred(x as int), centred(y as int)))
        } else {
            None
        }),
        d.is_some() ==> is_unit(d.unwrap()) && direction_ok(d.unwrap()),
{
    let cx = x as i64 - DIRECTION_DRAW_RADIUS as i64;
    let cy = y as i64 - DIRECTION_DRAW_RADIUS as i64;
    assert(x <= 2000 && y <= 2000);
    assert(-1000 <= cx <= 1000 && -1000 <= cy <= 1000);
    assert(0 <= cx * cx <= 1_000_000) by (nonlinear_arith)
        requires
            -1000 <= cx <= 1000,
    ;
    assert(0 <= cy * cy <= 1_000_000) by (nonlinear_arith)
        requires
            -1000 <= cy <= 1000,
    ;
    let sx: i64 = cx * cx;
    let sy: i64 = cy * cy;
    if sx + sy > 1_000_000 || (cx == 0 && cy == 0) {
        None
    } else {
        proof {
            lemma_normalized_is_unit(cx as int, cy as int);
            lemma_unit_is_bounded(normalized(cx as int, cy as int));
        }
        Some(normalize(cx, cy))
    }
}

/// A random unit direction with a uniform angle: pairs of draws are tried
/// until one is accepted; should every attempt fail, it points right.
pub fn random_direction() -> (d: Direction)
    ensures
        is_unit(d),
        direction_ok(d),
{
    let mut attempt: u32 = 0;
    while attempt < DIRECTION_DRAW_ATTEMPTS
        decreases DIRECTION_DRAW_ATTEMPTS - attempt,
    {
        let x = random_below(2 * DIRECTION_DRAW_RADIUS + 1);
        let y = random_below(2 * DIRECTION_DRAW_RADIUS + 1);
        if let Some(d) = direction_from_draws(x, y) {
            return d;
        }
        attempt = attempt + 1;
    }
    let right = Direction { x: DIRECTION_SCALE, y: 0 };
    assert(is_unit(right)) by {
        assert(1_000_000 * 1_000_000 + 0 * 0 < 1_000_001 * 1_000_001);
        assert(1_000_000 * 1_000_000 < 1_000_001 * 1_000_001 + 1 * 1);
    }
    right
}

/// The bounce sound for a draw of `{0, 1}`.
pub fn bounce_cue_for(draw: u64) -> (c: Cue)
    ensures
        c == (if draw == 0 {
            Cue::BounceLow
        } else {
            Cue::BounceHigh
        }),
        c.is_bounce(),
{
    if draw == 0 {
        Cue::BounceLow
    } else {
        Cue::BounceHigh
    }
}

/// One of the two bounce sounds, each with probability one half.
pub fn random_bounce_cue() -> (c: Cue)
    ensures
        c.is_bounce(),
{
    bounce_cue_for(random_below(2))
}

} // verus!
