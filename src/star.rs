//! Stars: placed in bulk when a game starts and one at a time over time.
use crate::components::{Star, STARS_NUM};
use crate::geometry::{position_ok, Arena};
use crate::random::{random_position, within_arena};
use crate::timer::StarTimer;
use vstd::prelude::*;

verus! {

/// A freshly placed star lies somewhere in the arena.
pub open spec fn fresh_star(s: Star, arena: Arena) -> bool {
    position_ok(s.position) && within_arena(s.position, arena)
}

/// Adds `STARS_NUM` stars at random points after the existing ones.
pub fn spawn_star(stars: &mut Vec<Star>, arena: Arena)
    ensures
        final(stars)@.len() == old(stars)@.len() + STARS_NUM,
        final(stars)@.subrange(0, old(stars)@.len() as int) == old(stars)@,
        forall|i: int|
            old(stars)@.len() <= i < final(stars)@.len() ==> fresh_star(
                #[trigger] final(stars)@[i],
                arena,
            ),
{
    let ghost start = stars@;
    let mut k: usize = 0;
    while k < STARS_NUM
        invariant
            0 <= k <= STARS_NUM,
            stars@.len() == start.len() + k,
            stars@.subrange(0, start.len() as int) == start,
            forall|i: int| start.len() <= i < stars@.len() ==> fresh_star(#[trigger] stars@[i], arena),
        decreases STARS_NUM - k,
    {
        let s = Star { position: random_position(arena) };
        let ghost before = stars@;
        stars.push(s);
        assert(stars@.subrange(0, start.len() as int) =~= before.subrange(0, start.len() as int));
        k = k + 1;
    }
}

/// Adds one star at a random point on a frame where the star timer fired.
pub fn spawn_stars_over_time(stars: &mut Vec<Star>, arena: Arena, star_timer: &StarTimer)
    ensures
        star_timer.timer.just_finished ==> final(stars)@.len() == old(stars)@.len() + 1
            && final(stars)@.drop_last() == old(stars)@ && fresh_star(final(stars)@.last(), arena),
        !star_timer.timer.just_finished ==> final(stars)@ == old(stars)@,
{
    if star_timer.timer.just_finished {
        stars.push(Star { position: random_position(arena) });
        assert(stars@.drop_last() =~= old(stars)@);
    }
}

/// Removes every star.
pub fn despawn_stars(stars: &mut Vec<Star>)
    ensures
        final(stars)@.len() == 0,
{
    stars.clear();
}

} // verus!
