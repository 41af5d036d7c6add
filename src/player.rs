//! The avatar: keyboard-driven movement, containment, spawning, and its
//! collisions with enemies and stars.
use crate::components::{Enemy, Player, Star, ENEMY_SIZE, PLAYER_SIZE, PLAYER_SPEED, STAR_SIZE};
use crate::events::{Cue, GameOver};
use crate::geometry::{
    advance, arena_bounds, bounds_of, circles_overlap, clamp_position, clamped,
    lemma_normalized_is_unit, lemma_unit_is_bounded, moved, normalize, normalized, overlaps,
    position_ok, Arena, Direction, Position, UNITS_PER_PIXEL,
};
use crate::score::{add_points, Score};
use vstd::prelude::*;

verus! {

/// The movement keys held this frame.
#[derive(Clone, Copy, Debug, PartialEq, Eq, Structural)]
pub struct MoveKeys {
    pub up: bool,
    pub down: bool,
    pub left: bool,
    pub right: bool,
}

/// `1` for the positive key alone, `-1` for the negative key alone, else `0`.
pub open spec fn axis(positive: bool, negative: bool) -> int {
    (if positive {
        1int
    } else {
        0int
    }) - (if negative {
        1int
    } else {
        0int
    })
}

/// The avatar's direction for the held keys: the combined key axes,
/// normalised (up is positive y).
pub open spec fn keys_direction(keys: MoveKeys) -> Direction {
    normalized(axis(keys.right, keys.left), axis(keys.up, keys.down))
}

/// Half the size, in position units.
pub open spec fn radius_of(size_px: int) -> int {
    size_px * UNITS_PER_PIXEL / 2
}

pub fn radius_units(size_px: u16) -> (r: i64)
    ensures
        r == radius_of(size_px as int),
        0 <= r <= 65535 * 1_000_000_000,
{
    size_px as i64 * UNITS_PER_PIXEL / 2
}

/// The direction for the held keys.
pub fn direction_from_keys(keys: MoveKeys) -> (d: Direction)
    ensures
        d == keys_direction(keys),
        crate::geometry::direction_ok(d),
{
    let mut x: i64 = 0;
    let mut y: i64 = 0;
    if keys.up {
        y = y + 1;
    }
    if keys.down {
        y = y - 1;
    }
    if keys.left {
        x = x - 1;
    }
    if keys.right {
        x = x + 1;
    }
    proof {
        lemma_normalized_is_unit(x as int, y as int);
        if x != 0 || y != 0 {
            lemma_unit_is_bounded(normalized(x as int, y as int));
        }
    }
    normalize(x, y)
}

/// Moves the avatar, if there is one, by the held keys for `delta_micros`.
pub fn move_player(player: &mut Option<Player>, keys: MoveKeys, delta_micros: u32)
    requires
        old(player).is_some() ==> position_ok(old(player).unwrap().position),
    ensures
        *final(player) == (match *old(player) {
            Some(p) => Some(
                Player {
                    position: moved(
                        p.position,
                        keys_direction(keys),
                        PLAYER_SPEED as int,
                        delta_micros as int,
                    ),
                },
            ),
            None => None,
        }),
{
    if let Some(p) = player {
        let d = direction_from_keys(keys);
        p.position = advance(p.position, d, PLAYER_SPEED, delta_micros);
    }
}

/// Keeps the avatar, if there is one, inside the arena.
pub fn limit_player_movement(player: &mut Option<Player>, arena: Arena)
    ensures
        *final(player) == (match *old(player) {
            Some(p) => Some(
                Player { position: clamped(p.position, bounds_of(arena, (PLAYER_SIZE / 2) as int)) },
            ),
            None => None,
        }),
        final(player).is_some() ==> position_ok(final(player).unwrap().position),
{
    if let Some(p) = player {
        let b = arena_bounds(arena, PLAYER_SIZE / 2);
        p.position = clamp_position(p.position, b);
    }
}

/// The avatar at the centre of the arena.
pub fn spawn_player(arena: Arena) -> (p: Player)
    ensures
        p.position.x == arena.width * UNITS_PER_PIXEL / 2,
        p.position.y == arena.height * UNITS_PER_PIXEL / 2,
        position_ok(p.position),
{
    Player {
        position: Position {
            x: arena.width as i64 * UNITS_PER_PIXEL / 2,
            y: arena.height as i64 * UNITS_PER_PIXEL / 2,
        },
    }
}

/// Removes the avatar.
pub fn despawn_player(player: &mut Option<Player>)
    ensures
        final(player).is_none(),
{
    *player = None;
}

/// The avatar at `p` touches `enemy`.
pub open spec fn hits(p: Position, enemy: Enemy) -> bool {
    circles_overlap(p, radius_of(PLAYER_SIZE as int), enemy.position, radius_of(ENEMY_SIZE as int))
}

/// Some enemy touches the avatar at `p`.
pub open spec fn hit_by_any(p: Position, enemies: Seq<Enemy>) -> bool {
    exists|i: int| 0 <= i < enemies.len() && hits(p, #[trigger] enemies[i])
}

pub open spec fn all_positions_ok(enemies: Seq<Enemy>) -> bool {
    forall|i: int| 0 <= i < enemies.len() ==> position_ok(#[trigger] enemies[i].position)
}

/// Ends the game once if any enemy touches the avatar: one notification with
/// the current score, one explosion cue, and the avatar is removed. Without
/// an avatar nothing happens.
pub fn check_enemy_collision(
    player: &mut Option<Player>,
    enemies: &Vec<Enemy>,
    score: &Score,
    game_over_events: &mut Vec<GameOver>,
    cues: &mut Vec<Cue>,
)
    requires
        old(player).is_some() ==> position_ok(old(player).unwrap().position),
        all_positions_ok(enemies@),
    ensures
        ({
            let hit = old(player).is_some() && hit_by_any(old(player).unwrap().position, enemies@);
            &&& hit ==> final(player).is_none()
                && final(game_over_events)@ == old(game_over_events)@.push(
                (GameOver { score_value: score.value }),
            ) && final(cues)@ == old(cues)@.push(Cue::Explosion)
            &&& !hit ==> *final(player) == *old(player)
                && final(game_over_events)@ == old(game_over_events)@
                && final(cues)@ == old(cues)@
        }),
{
    let p = match player {
        Some(p) => p.position,
        None => {
            return ;
        },
    };
    let pr = radius_units(PLAYER_SIZE);
    let er = radius_units(ENEMY_SIZE);
    let mut i: usize = 0;
    while i < enemies.len()
        invariant
            0 <= i <= enemies@.len(),
            old(player).is_some(),
            p == old(player).unwrap().position,
            position_ok(p),
            all_positions_ok(enemies@),
            pr == radius_of(PLAYER_SIZE as int),
            er == radius_of(ENEMY_SIZE as int),
            forall|j: int| 0 <= j < i ==> !hits(p, #[trigger] enemies@[j]),
            *player == *old(player),
            *game_over_events == *old(game_over_events),
            *cues == *old(cues),
        decreases enemies@.len() - i,
    {
        if overlaps(p, pr, enemies[i].position, er) {
            game_over_events.push(GameOver { score_value: score.value });
            cues.push(Cue::Explosion);
            *player = None;
            return ;
        }
        i = i + 1;
    }
}

/// The avatar at `p` touches `star`.
pub open spec fn collects(p: Position, star: Star) -> bool {
    circles_overlap(p, radius_of(PLAYER_SIZE as int), star.position, radius_of(STAR_SIZE as int))
}

/// The stars that the avatar at `p` does not touch, in their order.
pub open spec fn remaining_stars(p: Position, stars: Seq<Star>) -> Seq<Star>
    decreases stars.len(),
{
    if stars.len() == 0 {
        stars
    } else {
        let rest = remaining_stars(p, stars.drop_last());
        if collects(p, stars.last()) {
            rest
        } else {
            rest.push(stars.last())
        }
    }
}

pub open spec fn stars_ok(stars: Seq<Star>) -> bool {
    forall|i: int| 0 <= i < stars.len() ==> position_ok(#[trigger] stars[i].position)
}

proof fn lemma_remaining_len(p: Position, stars: Seq<Star>)
    ensures
        remaining_stars(p, stars).len() <= stars.len(),
        stars_ok(stars) ==> stars_ok(remaining_stars(p, stars)),
    decreases stars.len(),
{
    if stars.len() > 0 {
        lemma_remaining_len(p, stars.drop_last());
        let rest = remaining_stars(p, stars.drop_last());
        if stars_ok(stars) {
            assert(stars_ok(stars.drop_last())) by {
                assert forall|i: int| 0 <= i < stars.drop_last().len() implies position_ok(
                    #[trigger] stars.drop_last()[i].position,
                ) by {
                    assert(stars.drop_last()[i] == stars[i]);
                }
            }
            assert(position_ok(stars[stars.len() - 1].position));
        }
    }
}

/// Collects every star the avatar touches this frame: each one is removed,
/// adds one point and one pickup cue. Without an avatar nothing happens.
pub fn check_star_collision(
    player: &Option<Player>,
    stars: &mut Vec<Star>,
    score: &mut Score,
    cues: &mut Vec<Cue>,
)
    requires
        player.is_some() ==> position_ok(player.unwrap().position),
        stars_ok(old(stars)@),
    ensures
        player.is_none() ==> final(stars)@ == old(stars)@ && *final(score) == *old(score)
            && final(cues)@ == old(cues)@,
        player.is_some() ==> ({
            let kept = remaining_stars(player.unwrap().position, old(stars)@);
            let taken = old(stars)@.len() - kept.len();
            &&& final(stars)@ == kept
            &&& final(score).value == add_points(old(score).value as int, taken)
            &&& final(cues)@ == old(cues)@ + Seq::new(taken as nat, |j: int| Cue::Pickup)
        }),
        stars_ok(final(stars)@),
{
    let p = match player {
        Some(pl) => pl.position,
        None => {
            return ;
        },
    };
    let pr = radius_units(PLAYER_SIZE);
    let sr = radius_units(STAR_SIZE);
    let ghost all = stars@;
    let ghost score0 = score.value as int;
    let ghost cues0 = cues@;
    let mut kept: Vec<Star> = Vec::new();
    let mut i: usize = 0;
    while i < stars.len()
        invariant
            0 <= i <= all.len(),
            stars@ == all,
            stars_ok(all),
            position_ok(p),
            pr == radius_of(PLAYER_SIZE as int),
            sr == radius_of(STAR_SIZE as int),
            kept@ == remaining_stars(p, all.subrange(0, i as int)),
            kept@.len() <= i,
            score.value == add_points(score0, i - kept@.len()),
            cues@ == cues0 + Seq::new((i - kept@.len()) as nat, |j: int| Cue::Pickup),
        decreases all.len() - i,
    {
        let s = stars[i];
        proof {
            assert(all.subrange(0, i + 1).drop_last() =~= all.subrange(0, i as int));
            assert(all.subrange(0, i + 1).last() == all[i as int]);
        }
        if overlaps(p, pr, s.position, sr) {
            score.add_point();
            cues.push(Cue::Pickup);
            proof {
                assert(cues@ =~= cues0 + Seq::new((i + 1 - kept@.len()) as nat, |j: int| Cue::Pickup));
            }
        } else {
            kept.push(s);
        }
        i = i + 1;
    }
    proof {
        assert(all.subrange(0, i as int) =~= all);
        lemma_remaining_len(p, all);
    }
    *stars = kept;
}

} // verus!
