//! Enemies: straight-line motion, reflection off the arena edges,
//! containment, and spawning in bulk and over time.
use crate::components::{Enemy, ENEMIES_NUM, ENEMY_SIZE, ENEMY_SPEED};
use crate::events::Cue;
use crate::geometry::{
    advance, arena_bounds, bounds_of, clamp_position, clamped, direction_ok, is_unit, lemma_reflected_unit, moved,
    outside_x, outside_y, position_ok, reflect, reflected, Arena, Bounds,
};
use crate::random::{random_bounce_cue, random_direction, random_position, within_arena};
use crate::timer::EnemyTimer;
use vstd::prelude::*;

verus! {

/// Every enemy is well formed.
pub open spec fn enemies_wf(enemies: Seq<Enemy>) -> bool {
    forall|i: int| 0 <= i < enemies.len() ==> (#[trigger] enemies[i]).wf()
}

/// Every enemy heads in a unit direction (its position may be anywhere).
pub open spec fn headings_ok(enemies: Seq<Enemy>) -> bool {
    forall|i: int|
        0 <= i < enemies.len() ==> direction_ok((#[trigger] enemies[i]).direction) && is_unit(
            enemies[i].direction,
        )
}

/// The window that keeps an enemy inside the arena.
pub open spec fn enemy_bounds(arena: Arena) -> Bounds {
    bounds_of(arena, (ENEMY_SIZE / 2) as int)
}

/// Moves every enemy along its direction for `delta_micros`.
pub fn move_enemy(enemies: &mut Vec<Enemy>, delta_micros: u32)
    requires
        enemies_wf(old(enemies)@),
    ensures
        final(enemies)@.len() == old(enemies)@.len(),
        forall|i: int|
            0 <= i < old(enemies)@.len() ==> #[trigger] final(enemies)@[i] == (Enemy {
                position: moved(
                    old(enemies)@[i].position,
                    old(enemies)@[i].direction,
                    ENEMY_SPEED as int,
                    delta_micros as int,
                ),
                direction: old(enemies)@[i].direction,
            }),
        headings_ok(final(enemies)@),
{
    let ghost start = enemies@;
    let mut i: usize = 0;
    while i < enemies.len()
        invariant
            0 <= i <= start.len(),
            enemies@.len() == start.len(),
            enemies_wf(start),
            forall|j: int|
                0 <= j < i ==> #[trigger] enemies@[j] == (Enemy {
                    position: moved(
                        start[j].position,
                        start[j].direction,
                        ENEMY_SPEED as int,
                        delta_micros as int,
                    ),
                    direction: start[j].direction,
                }),
            forall|j: int| i <= j < start.len() ==> #[trigger] enemies@[j] == start[j],
        decreases start.len() - i,
    {
        let e = enemies[i];
        assert(start[i as int].wf());
        let moved_enemy = Enemy {
            position: advance(e.position, e.direction, ENEMY_SPEED, delta_micros),
            direction: e.direction,
        };
        enemies.set(i, moved_enemy);
        i = i + 1;
    }
    assert forall|j: int| 0 <= j < enemies@.len() implies direction_ok(
        (#[trigger] enemies@[j]).direction,
    ) && is_unit(enemies@[j].direction) by {
        assert(start[j].wf());
    }
}

/// Whether `e` left the window on some axis.
pub open spec fn bounces(e: Enemy, b: Bounds) -> bool {
    outside_x(e.position, b) || outside_y(e.position, b)
}

/// How many of `enemies` left the window.
pub open spec fn bounce_count(enemies: Seq<Enemy>, b: Bounds) -> nat
    decreases enemies.len(),
{
    if enemies.len() == 0 {
        0
    } else {
        bounce_count(enemies.drop_last(), b) + if bounces(enemies.last(), b) {
            1nat
        } else {
            0nat
        }
    }
}

/// Reflects the direction of each enemy that left the arena window, on the
/// axes it left by, and requests one bounce cue per reflected enemy.
pub fn update_enemy_direction(enemies: &mut Vec<Enemy>, arena: Arena, cues: &mut Vec<Cue>)
    requires
        headings_ok(old(enemies)@),
    ensures
        final(enemies)@.len() == old(enemies)@.len(),
        forall|i: int|
            0 <= i < old(enemies)@.len() ==> #[trigger] final(enemies)@[i] == (Enemy {
                position: old(enemies)@[i].position,
                direction: reflected(
                    old(enemies)@[i].position,
                    old(enemies)@[i].direction,
                    enemy_bounds(arena),
                ),
            }),
        headings_ok(final(enemies)@),
        final(cues)@.len() == old(cues)@.len() + bounce_count(old(enemies)@, enemy_bounds(arena)),
        final(cues)@.subrange(0, old(cues)@.len() as int) == old(cues)@,
        forall|j: int|
            old(cues)@.len() <= j < final(cues)@.len() ==> (#[trigger] final(cues)@[j]).is_bounce(),
{
    let b = arena_bounds(arena, ENEMY_SIZE / 2);
    let ghost start = enemies@;
    let ghost cues0 = cues@;
    let mut i: usize = 0;
    while i < enemies.len()
        invariant
            0 <= i <= start.len(),
            enemies@.len() == start.len(),
            b == enemy_bounds(arena),
            headings_ok(start),
            forall|j: int|
                0 <= j < i ==> #[trigger] enemies@[j] == (Enemy {
                    position: start[j].position,
                    direction: reflected(start[j].position, start[j].direction, b),
                }),
            forall|j: int| i <= j < start.len() ==> #[trigger] enemies@[j] == start[j],
            cues@.len() == cues0.len() + bounce_count(start.subrange(0, i as int), b),
            cues@.subrange(0, cues0.len() as int) == cues0,
            forall|j: int| cues0.len() <= j < cues@.len() ==> (#[trigger] cues@[j]).is_bounce(),
        decreases start.len() - i,
    {
        let e = enemies[i];
        assert(direction_ok(start[i as int].direction));
        let (d, changed) = reflect(e.position, e.direction, b);
        enemies.set(i, Enemy { position: e.position, direction: d });
        proof {
            assert(start.subrange(0, i + 1).drop_last() =~= start.subrange(0, i as int));
            assert(start.subrange(0, i + 1).last() == start[i as int]);
        }
        if changed {
            let ghost before = cues@;
            let c = random_bounce_cue();
            cues.push(c);
            assert(cues@.subrange(0, cues0.len() as int) =~= before.subrange(0, cues0.len() as int));
        }
        i = i + 1;
    }
    assert(start.subrange(0, i as int) =~= start);
    assert forall|j: int| 0 <= j < enemies@.len() implies direction_ok(
        (#[trigger] enemies@[j]).direction,
    ) && is_unit(enemies@[j].direction) by {
        assert(direction_ok(start[j].direction) && is_unit(start[j].direction));
        lemma_reflected_unit(start[j].position, start[j].direction, b);
    }
}


/// Clamps every enemy into the arena window; directions are kept.
pub fn limit_enemy_movement(enemies: &mut Vec<Enemy>, arena: Arena)
    requires
        headings_ok(old(enemies)@),
    ensures
        final(enemies)@.len() == old(enemies)@.len(),
        forall|i: int|
            0 <= i < old(enemies)@.len() ==> #[trigger] final(enemies)@[i] == (Enemy {
                position: clamped(old(enemies)@[i].position, enemy_bounds(arena)),
                direction: old(enemies)@[i].direction,
            }),
        enemies_wf(final(enemies)@),
{
    let b = arena_bounds(arena, ENEMY_SIZE / 2);
    let ghost start = enemies@;
    let mut i: usize = 0;
    while i < enemies.len()
        invariant
            0 <= i <= start.len(),
            enemies@.len() == start.len(),
            b == enemy_bounds(arena),
            crate::geometry::bounds_ok(b),
            headings_ok(start),
            forall|j: int|
                0 <= j < i ==> #[trigger] enemies@[j] == (Enemy {
                    position: clamped(start[j].position, b),
                    direction: start[j].direction,
                }),
            forall|j: int| 0 <= j < i ==> position_ok((#[trigger] enemies@[j]).position),
            forall|j: int| i <= j < start.len() ==> #[trigger] enemies@[j] == start[j],
        decreases start.len() - i,
    {
        let e = enemies[i];
        let p = clamp_position(e.position, b);
        enemies.set(i, Enemy { position: p, direction: e.direction });
        i = i + 1;
    }
    assert forall|j: int| 0 <= j < enemies@.len() implies (#[trigger] enemies@[j]).wf() by {
        assert(direction_ok(start[j].direction) && is_unit(start[j].direction));
        assert(position_ok(enemies@[j].position));
    }
}

/// A freshly placed enemy: somewhere in the arena, heading in a unit direction.
pub open spec fn fresh_enemy(e: Enemy, arena: Arena) -> bool {
    e.wf() && within_arena(e.position, arena)
}

/// One enemy at a random point of the arena with a random direction.
pub fn random_enemy(arena: Arena) -> (e: Enemy)
    ensures
        fresh_enemy(e, arena),
{
    Enemy { position: random_position(arena), direction: random_direction() }
}

/// Adds `ENEMIES_NUM` fresh enemies after the existing ones.
pub fn spawn_enemies(enemies: &mut Vec<Enemy>, arena: Arena)
    ensures
        final(enemies)@.len() == old(enemies)@.len() + ENEMIES_NUM,
        final(enemies)@.subrange(0, old(enemies)@.len() as int) == old(enemies)@,
        forall|i: int|
            old(enemies)@.len() <= i < final(enemies)@.len() ==> fresh_enemy(
                #[trigger] final(enemies)@[i],
                arena,
            ),
{
    let ghost start = enemies@;
    let mut k: usize = 0;
    while k < ENEMIES_NUM
        invariant
            0 <= k <= ENEMIES_NUM,
            enemies@.len() == start.len() + k,
            enemies@.subrange(0, start.len() as int) == start,
            forall|i: int|
                start.len() <= i < enemies@.len() ==> fresh_enemy(#[trigger] enemies@[i], arena),
        decreases ENEMIES_NUM - k,
    {
        let e = random_enemy(arena);
        let ghost before = enemies@;
        enemies.push(e);
        assert(enemies@.subrange(0, start.len() as int) =~= before.subrange(0, start.len() as int));
        k = k + 1;
    }
}

/// Adds one fresh enemy on a frame where the enemy timer fired.
pub fn spawn_enemies_over_time(enemies: &mut Vec<Enemy>, arena: Arena, enemy_timer: &EnemyTimer)
    ensures
        enemy_timer.timer.just_finished ==> final(enemies)@.len() == old(enemies)@.len() + 1
            && final(enemies)@.drop_last() == old(enemies)@ && fresh_enemy(
            final(enemies)@.last(),
            arena,
        ),
        !enemy_timer.timer.just_finished ==> final(enemies)@ == old(enemies)@,
{
    if enemy_timer.timer.just_finished {
        let e = random_enemy(arena);
        enemies.push(e);
        assert(enemies@.drop_last() =~= old(enemies)@);
    }
}

/// Removes every enemy.
pub fn despawn_enemies(enemies: &mut Vec<Enemy>)
    ensures
        final(enemies)@.len() == 0,
{
    enemies.clear();
}

} // verus!
