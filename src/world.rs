//! The world of one process: every entity, timer and ledger, and the frame
//! step that runs the systems in their fixed order.
use crate::components::{Enemy, Player, Star, ENEMIES_NUM, STARS_NUM};
use crate::enemy::{
    bounce_count, despawn_enemies, enemies_wf, fresh_enemy, limit_enemy_movement, move_enemy, spawn_enemies,
    spawn_enemies_over_time, update_enemy_direction,
};
use crate::events::{Cue, GameOver};
use crate::components::{ENEMY_SPEED, PLAYER_SIZE, PLAYER_SPEED};
use crate::enemy::enemy_bounds;
use crate::geometry::{bounds_of, clamped, moved, position_ok, reflected, Arena, UNITS_PER_PIXEL};
use crate::phase::{pressed_edge, toggle_game, toggled, AppState, GameState, Phase, PhaseEvent};
use crate::player::{
    check_enemy_collision, check_star_collision, despawn_player, limit_player_movement,
    move_player, spawn_player, stars_ok, MoveKeys, hit_by_any, keys_direction, remaining_stars,
};
use crate::score::{add_points, entries, recorded, update_high_scores, HighScores, Score};
use crate::star::{despawn_stars, fresh_star, spawn_star, spawn_stars_over_time};
use crate::timer::{enemy_timer_tick, star_timer_tick, EnemyTimer, StarTimer};
use vstd::prelude::*;

verus! {

/// What the input and presentation collaborators hand over for one frame.
#[derive(Clone, Copy, Debug, PartialEq, Eq, Structural)]
pub struct FrameInput {
    /// Time since the previous frame, in microseconds.
    pub delta_micros: u32,
    /// Movement keys held this frame.
    pub keys: MoveKeys,
    /// Whether the pause key is held this frame.
    pub pause_held: bool,
    /// The start signal went down this frame.
    pub start_pressed: bool,
    /// The continue signal went down this frame.
    pub continue_pressed: bool,
    /// The arena's size this frame.
    pub arena: Arena,
}

pub struct World {
    pub phase: Phase,
    pub pause_was_held: bool,
    pub player: Option<Player>,
    pub enemies: Vec<Enemy>,
    pub stars: Vec<Star>,
    pub enemy_timer: EnemyTimer,
    pub star_timer: StarTimer,
    pub score: Score,
    pub high_scores: HighScores,
    /// Game-over notifications raised in the current frame.
    pub game_over_events: Vec<GameOver>,
    /// Audio cues requested in the current frame.
    pub cues: Vec<Cue>,
}

/// One for a timer that fired (one timed spawn), else zero.
pub open spec fn one_if(fired: bool) -> int {
    if fired {
        1
    } else {
        0
    }
}

/// An enemy after one active frame: moved, reflected where the moved
/// position left the window, then clamped into it.
pub open spec fn enemy_after_frame(e: Enemy, dt: int, arena: Arena) -> Enemy {
    let p = moved(e.position, e.direction, ENEMY_SPEED as int, dt);
    Enemy {
        position: clamped(p, enemy_bounds(arena)),
        direction: reflected(p, e.direction, enemy_bounds(arena)),
    }
}

/// Every enemy after one active frame, before any timed spawn.
pub open spec fn enemies_after_frame(enemies: Seq<Enemy>, dt: int, arena: Arena) -> Seq<Enemy> {
    Seq::new(enemies.len(), |i: int| enemy_after_frame(enemies[i], dt, arena))
}

/// The avatar after one active frame's movement and clamping.
pub open spec fn player_after_frame(p: Player, keys: MoveKeys, dt: int, arena: Arena) -> Player {
    Player {
        position: clamped(
            moved(p.position, keys_direction(keys), PLAYER_SPEED as int, dt),
            bounds_of(arena, (PLAYER_SIZE / 2) as int),
        ),
    }
}

impl World {
    /// The world is well formed, and a game in progress has its avatar.
    pub open spec fn wf(&self) -> bool {
        &&& self.entities_wf()
        &&& self.phase.app == AppState::Game ==> self.player.is_some()
    }

    /// Timers and entities are well formed, and entities exist only in a game.
    pub open spec fn entities_wf(&self) -> bool {
        &&& self.enemy_timer.timer.wf()
        &&& self.star_timer.timer.wf()
        &&& enemies_wf(self.enemies@)
        &&& stars_ok(self.stars@)
        &&& self.player.is_some() ==> position_ok(self.player.unwrap().position)
        &&& self.phase.app != AppState::Game ==> self.player.is_none() && self.enemies@.len() == 0
            && self.stars@.len() == 0
    }

    /// The entities, score and timers: what a paused game keeps still.
    pub open spec fn same_play(&self, other: &World) -> bool {
        &&& self.player == other.player
        &&& self.enemies@ == other.enemies@
        &&& self.stars@ == other.stars@
        &&& self.score == other.score
        &&& self.enemy_timer == other.enemy_timer
        &&& self.star_timer == other.star_timer
    }

    /// A world in the menu, with nothing spawned and an empty history.
    pub fn new() -> (w: World)
        ensures
            w.wf(),
            w.phase.app == AppState::Menu,
            w.phase.game == GameState::Running,
            !w.pause_was_held,
            w.score.value == 0,
            w.high_scores.scores@.len() == 0,
            w.game_over_events@.len() == 0,
            w.cues@.len() == 0,
    {
        World {
            phase: Phase::default(),
            pause_was_held: false,
            player: None,
            enemies: Vec::new(),
            stars: Vec::new(),
            enemy_timer: EnemyTimer::default(),
            star_timer: StarTimer::default(),
            score: Score::default(),
            high_scores: HighScores::default(),
            game_over_events: Vec::new(),
            cues: Vec::new(),
        }
    }

    /// Menu to game: the avatar at the centre, the initial enemies and stars,
    /// and a score of zero.
    pub fn enter_game(&mut self, arena: Arena)
        requires
            old(self).wf(),
            old(self).phase.app == AppState::Menu,
        ensures
            final(self).wf(),
            final(self).phase == (Phase { app: AppState::Game, game: old(self).phase.game }),
            final(self).player == Some(
                Player {
                    position: crate::geometry::Position {
                        x: (arena.width * UNITS_PER_PIXEL / 2) as i64,
                        y: (arena.height * UNITS_PER_PIXEL / 2) as i64,
                    },
                },
            ),
            final(self).enemies@.len() == ENEMIES_NUM,
            forall|i: int|
                0 <= i < ENEMIES_NUM ==> fresh_enemy(#[trigger] final(self).enemies@[i], arena),
            final(self).stars@.len() == STARS_NUM,
            forall|i: int| 0 <= i < STARS_NUM ==> fresh_star(#[trigger] final(self).stars@[i], arena),
            final(self).score.value == 0,
            final(self).pause_was_held == old(self).pause_was_held,
            final(self).enemy_timer == old(self).enemy_timer,
            final(self).star_timer == old(self).star_timer,
            final(self).high_scores.scores@ == old(self).high_scores.scores@,
            final(self).game_over_events@ == old(self).game_over_events@,
            final(self).cues@ == old(self).cues@,
    {
        self.phase.apply(PhaseEvent::Start);
        self.player = Some(spawn_player(arena));
        spawn_enemies(&mut self.enemies, arena);
        spawn_star(&mut self.stars, arena);
        self.score = Score::default();
        assert(self.enemies@.subrange(0, 0) =~= Seq::<Enemy>::empty());
        assert forall|i: int| 0 <= i < self.stars@.len() implies position_ok(
            (#[trigger] self.stars@[i]).position,
        ) by {
            assert(fresh_star(self.stars@[i], arena));
        }
    }

    /// Game to game over: every entity is removed and the score is reset.
    pub fn exit_game(&mut self)
        requires
            old(self).entities_wf(),
            old(self).phase.app == AppState::Game,
        ensures
            final(self).wf(),
            final(self).phase == (Phase { app: AppState::GameOver, game: old(self).phase.game }),
            final(self).player.is_none(),
            final(self).enemies@.len() == 0,
            final(self).stars@.len() == 0,
            final(self).score.value == 0,
            final(self).pause_was_held == old(self).pause_was_held,
            final(self).enemy_timer == old(self).enemy_timer,
            final(self).star_timer == old(self).star_timer,
            final(self).high_scores.scores@ == old(self).high_scores.scores@,
            final(self).game_over_events@ == old(self).game_over_events@,
            final(self).cues@ == old(self).cues@,
    {
        self.phase.apply(PhaseEvent::GameOverRaised);
        despawn_player(&mut self.player);
        despawn_enemies(&mut self.enemies);
        despawn_stars(&mut self.stars);
        self.score = Score::default();
    }
}



/// Every enemy moved along its direction, before reflection and clamping.
pub open spec fn enemies_moved(enemies: Seq<Enemy>, dt: int) -> Seq<Enemy> {
    Seq::new(
        enemies.len(),
        |i: int|
            Enemy {
                position: moved(enemies[i].position, enemies[i].direction, ENEMY_SPEED as int, dt),
                direction: enemies[i].direction,
            },
    )
}

impl World {
    /// The avatar after a frame of play's movement and clamping, if any.
    pub open spec fn frame_player(&self, input: FrameInput) -> Option<Player> {
        match self.player {
            Some(p) => Some(
                player_after_frame(p, input.keys, input.delta_micros as int, input.arena),
            ),
            None => None,
        }
    }

    /// Whether a frame of play ends with the avatar hit by an enemy.
    pub open spec fn frame_hit(&self, input: FrameInput) -> bool {
        &&& self.frame_player(input).is_some()
        &&& hit_by_any(
            self.frame_player(input).unwrap().position,
            enemies_after_frame(self.enemies@, input.delta_micros as int, input.arena),
        )
    }

    /// The stars left after a frame of play's collection (none is collected
    /// once the avatar is hit or absent).
    pub open spec fn frame_kept_stars(&self, input: FrameInput) -> Seq<Star> {
        if self.frame_player(input).is_some() && !self.frame_hit(input) {
            remaining_stars(self.frame_player(input).unwrap().position, self.stars@)
        } else {
            self.stars@
        }
    }

    /// How many enemies bounce in a frame of play (one cue each).
    pub open spec fn frame_bounces(&self, input: FrameInput) -> nat {
        bounce_count(
            enemies_moved(self.enemies@, input.delta_micros as int),
            enemy_bounds(input.arena),
        )
    }

    /// The cues a frame of play requests after the bounce cues: an explosion
    /// on a hit, else one pickup per collected star.
    pub open spec fn frame_tail_cues(&self, input: FrameInput) -> Seq<Cue> {
        if self.frame_hit(input) {
            seq![Cue::Explosion]
        } else {
            Seq::new(
                (self.stars@.len() - self.frame_kept_stars(input).len()) as nat,
                |j: int| Cue::Pickup,
            )
        }
    }

    /// Whether a frame with `input` plays: in a game that is running once
    /// the pause key has been taken into account.
    pub open spec fn plays(&self, input: FrameInput) -> bool {
        &&& self.phase.app == AppState::Game
        &&& toggled(self.phase, self.pause_was_held, input.pause_held).0.game == GameState::Running
    }

    /// What one frame of play does, starting from `self` and ending in `after`.
    pub open spec fn played(&self, input: FrameInput, after: &World) -> bool {
        let dt = input.delta_micros as int;
        let moved_enemies = enemies_after_frame(self.enemies@, dt, input.arena);
        let kept = self.frame_kept_stars(input);
        let bounced = self.cues@.len() + self.frame_bounces(input) as int;
        &&& after.enemy_timer.timer == self.enemy_timer.timer.ticked(dt)
        &&& after.star_timer.timer == self.star_timer.timer.ticked(dt)
        &&& after.enemies@.len() == moved_enemies.len() + one_if(
            after.enemy_timer.timer.just_finished,
        )
        &&& after.enemies@.subrange(0, moved_enemies.len() as int) == moved_enemies
        &&& after.enemy_timer.timer.just_finished ==> fresh_enemy(after.enemies@.last(), input.arena)
        &&& after.stars@.len() == kept.len() + one_if(after.star_timer.timer.just_finished)
        &&& after.stars@.subrange(0, kept.len() as int) == kept
        &&& after.star_timer.timer.just_finished ==> fresh_star(after.stars@.last(), input.arena)
        &&& after.cues@.len() == bounced + self.frame_tail_cues(input).len()
        &&& after.cues@.subrange(0, self.cues@.len() as int) == self.cues@
        &&& forall|j: int| self.cues@.len() <= j < bounced ==> (#[trigger] after.cues@[j]).is_bounce()
        &&& after.cues@.subrange(bounced, after.cues@.len() as int) == self.frame_tail_cues(input)
        &&& if self.frame_hit(input) {
            &&& after.player.is_none()
            &&& after.game_over_events@ == self.game_over_events@.push(
                (GameOver { score_value: self.score.value }),
            )
            &&& after.score == self.score
        } else {
            &&& after.player == self.frame_player(input)
            &&& after.game_over_events@ == self.game_over_events@
            &&& after.score.value == add_points(
                self.score.value as int,
                self.stars@.len() - kept.len(),
            )
        }
    }
}

impl World {
    /// One frame of play, in order: avatar movement and containment, enemy
    /// movement, reflection and containment, the enemy and then the star
    /// collision checks, the timer ticks, and the timed spawns.
    pub fn play_frame(&mut self, input: &FrameInput)
        requires
            old(self).wf(),
            old(self).phase.is_active(),
        ensures
            final(self).entities_wf(),
            final(self).phase == old(self).phase,
            final(self).pause_was_held == old(self).pause_was_held,
            final(self).high_scores.scores@ == old(self).high_scores.scores@,
            old(self).played(*input, final(self)),
    {
        let dt = input.delta_micros;
        let arena = input.arena;
        let ghost old_enemies = self.enemies@;
        let ghost start = *self;
        let ghost cues0 = self.cues@;
        move_player(&mut self.player, input.keys, dt);
        limit_player_movement(&mut self.player, arena);
        move_enemy(&mut self.enemies, dt);
        assert(self.enemies@ =~= enemies_moved(old_enemies, dt as int));
        update_enemy_direction(&mut self.enemies, arena, &mut self.cues);
        let ghost cues_bounced = self.cues@;
        limit_enemy_movement(&mut self.enemies, arena);
        assert(self.enemies@ =~= enemies_after_frame(old_enemies, dt as int, arena));
        let ghost after_move = self.player;
        check_enemy_collision(
            &mut self.player,
            &self.enemies,
            &self.score,
            &mut self.game_over_events,
            &mut self.cues,
        );
        let ghost stars_before = self.stars@;
        let ghost cues_hit = self.cues@;
        check_star_collision(&self.player, &mut self.stars, &mut self.score, &mut self.cues);
        let ghost kept_stars = self.stars@;
        enemy_timer_tick(&mut self.enemy_timer, dt);
        star_timer_tick(&mut self.star_timer, dt);
        let ghost before_spawn = self.enemies@;
        spawn_enemies_over_time(&mut self.enemies, arena, &self.enemy_timer);
        spawn_stars_over_time(&mut self.stars, arena, &self.star_timer);
        proof {
            if self.enemy_timer.timer.just_finished {
                assert(self.enemies@.subrange(0, before_spawn.len() as int) =~= before_spawn);
                assert(self.enemies@.last().wf());
            } else {
                assert(self.enemies@.subrange(0, before_spawn.len() as int) =~= before_spawn);
            }
            assert(enemies_wf(self.enemies@)) by {
                assert forall|i: int| 0 <= i < self.enemies@.len() implies (
                #[trigger] self.enemies@[i]).wf() by {
                    if i < before_spawn.len() {
                        assert(self.enemies@[i] == before_spawn[i]);
                    }
                }
            }
            assert(stars_ok(self.stars@)) by {
                assert forall|i: int| 0 <= i < self.stars@.len() implies position_ok(
                    (#[trigger] self.stars@[i]).position,
                ) by {
                    if i < kept_stars.len() {
                        assert(self.stars@[i] == kept_stars[i]);
                    } else {
                        assert(fresh_star(self.stars@.last(), arena));
                    }
                }
            }
            assert(self.stars@.subrange(0, kept_stars.len() as int) =~= kept_stars);
            let bounced = cues_bounced.len() as int;
            let tail = start.frame_tail_cues(*input);
            assert(self.cues@.subrange(0, cues0.len() as int) =~= cues_bounced.subrange(
                0,
                cues0.len() as int,
            ));
            assert forall|j: int| cues0.len() <= j < bounced implies (
            #[trigger] self.cues@[j]).is_bounce() by {
                assert(self.cues@[j] == cues_bounced[j]);
            }
            assert(self.cues@.subrange(bounced, self.cues@.len() as int) =~= tail);
        }
    }
}


impl World {
    /// Advances the world by one frame. In order: the frame's notification
    /// and cue lists are emptied; the pause key toggles a game between running
    /// and paused once per press; the start signal moves the menu into a new
    /// game (whose first frame of play is the next one) and the continue
    /// signal moves the game-over screen to the menu; a running game plays
    /// one frame; each game-over notification of the
    /// frame is appended to the history; and a game that raised one ends.
    pub fn step(&mut self, input: &FrameInput)
        requires
            old(self).wf(),
        ensures
            final(self).wf(),
            final(self).pause_was_held == input.pause_held,
            entries(final(self).high_scores.scores@) == entries(old(self).high_scores.scores@)
                + recorded(final(self).game_over_events@),
            final(self).game_over_events@.len() <= 1,
            final(self).game_over_events@.len() == 1 ==> {
                &&& final(self).phase.app == AppState::GameOver
                &&& final(self).player.is_none()
                &&& final(self).enemies@.len() == 0
                &&& final(self).stars@.len() == 0
                &&& final(self).score.value == 0
            },
            // in a game the pause key toggles once per press; the frame that
            // pauses a running game plays nothing
            old(self).phase.app == AppState::Game && final(self).game_over_events@.len() == 0
                ==> final(self).phase == toggled(
                old(self).phase,
                old(self).pause_was_held,
                input.pause_held,
            ).0,
            old(self).phase.is_active() && pressed_edge(input.pause_held, old(self).pause_was_held)
                ==> {
                &&& final(self).same_play(old(self))
                &&& final(self).game_over_events@.len() == 0
            },
            // a paused game stays still until the pause key goes down again
            frame_keeps_pause(*old(self), *input, *final(self)),
            // a game that runs after the pause key plays one frame; timers advance
            // only then
            old(self).plays(*input) ==> {
                let dt = input.delta_micros as int;
                let moved_player = player_after_frame(
                    old(self).player.unwrap(),
                    input.keys,
                    dt,
                    input.arena,
                );
                let hit = hit_by_any(
                    moved_player.position,
                    enemies_after_frame(old(self).enemies@, dt, input.arena),
                );
                let kept = remaining_stars(moved_player.position, old(self).stars@);
                &&& final(self).enemy_timer.timer == old(self).enemy_timer.timer.ticked(dt)
                &&& final(self).star_timer.timer == old(self).star_timer.timer.ticked(dt)
                &&& hit ==> final(self).game_over_events@ == seq![
                    GameOver { score_value: old(self).score.value },
                ]
                &&& !hit ==> {
                    &&& final(self).game_over_events@.len() == 0
                    &&& final(self).phase.app == AppState::Game
                    &&& final(self).player == Some(moved_player)
                    &&& final(self).score.value == add_points(
                        old(self).score.value as int,
                        old(self).stars@.len() - kept.len(),
                    )
                    &&& final(self).enemies@.subrange(0, old(self).enemies@.len() as int)
                        == enemies_after_frame(old(self).enemies@, dt, input.arena)
                    &&& final(self).enemies@.len() == old(self).enemies@.len() + one_if(
                        final(self).enemy_timer.timer.just_finished,
                    )
                    &&& final(self).stars@.subrange(0, kept.len() as int) == kept
                    &&& final(self).stars@.len() == kept.len() + one_if(
                        final(self).star_timer.timer.just_finished,
                    )
                }
            },
            // notifications and cues come only from a frame of play
            !old(self).plays(*input) ==> final(self).game_over_events@.len() == 0 && final(self).cues@.len() == 0,
            // a frame of play requests one bounce cue per bouncing enemy, then an
            // explosion on a hit or one pickup per collected star, and places
            // timed spawns in the arena
            old(self).plays(*input) ==> {
                let bounced = old(self).frame_bounces(*input) as int;
                let tail = old(self).frame_tail_cues(*input);
                &&& final(self).cues@.len() == bounced + tail.len()
                &&& forall|j: int| 0 <= j < bounced ==> (#[trigger] final(self).cues@[j]).is_bounce()
                &&& final(self).cues@.subrange(bounced, final(self).cues@.len() as int) == tail
                &&& !old(self).frame_hit(*input) && final(self).enemy_timer.timer.just_finished
                    ==> fresh_enemy(final(self).enemies@.last(), input.arena)
                &&& !old(self).frame_hit(*input) && final(self).star_timer.timer.just_finished
                    ==> fresh_star(final(self).stars@.last(), input.arena)
            },
            old(self).phase.app == AppState::Menu && !input.start_pressed ==> {
                &&& final(self).phase == old(self).phase
                &&& final(self).same_play(old(self))
            },
            // a new game starts with exactly the initial populations
            old(self).phase.app == AppState::Menu && input.start_pressed ==> {
                &&& final(self).phase.app == AppState::Game
                &&& final(self).player.is_some()
                &&& final(self).enemies@.len() == ENEMIES_NUM
                &&& final(self).stars@.len() == STARS_NUM
                &&& final(self).score.value == 0
                &&& final(self).enemy_timer == old(self).enemy_timer
                &&& final(self).star_timer == old(self).star_timer
            },
            old(self).phase.app == AppState::GameOver ==> {
                &&& final(self).phase.app == (if input.continue_pressed {
                    AppState::Menu
                } else {
                    AppState::GameOver
                })
                &&& final(self).same_play(old(self))
            },
    {
        self.game_over_events.clear();
        self.cues.clear();
        toggle_game(&mut self.phase, &mut self.pause_was_held, input.pause_held);
        let entering = self.phase.app == AppState::Menu && input.start_pressed;
        if entering {
            self.enter_game(input.arena);
        } else if self.phase.app == AppState::GameOver && input.continue_pressed {
            self.phase.apply(PhaseEvent::Continue);
        }
        if !entering && self.phase.is_running_game() {
            self.play_frame(input);
        }
        update_high_scores(&self.game_over_events, &mut self.high_scores);
        if self.game_over_events.len() > 0 && self.phase.app == AppState::Game {
            self.exit_game();
        }
    }
}


/// A frame that finds the game paused and does not press the pause key
/// leaves the phase, the entities, the score and the timers as they were and
/// raises no notification.
pub open spec fn frame_keeps_pause(before: World, input: FrameInput, after: World) -> bool {
    before.phase == (Phase { app: AppState::Game, game: GameState::Paused }) && !pressed_edge(
        input.pause_held,
        before.pause_was_held,
    ) ==> {
        &&& after.phase == before.phase
        &&& after.same_play(&before)
        &&& after.game_over_events@.len() == 0
    }
}

proof fn lemma_paused_prefix(worlds: Seq<World>, inputs: Seq<FrameInput>, k: int)
    requires
        worlds.len() == inputs.len() + 1,
        0 <= k < worlds.len(),
        worlds[0].phase == (Phase { app: AppState::Game, game: GameState::Paused }),
        forall|j: int|
            0 <= j < inputs.len() ==> !pressed_edge(
                (#[trigger] inputs[j]).pause_held,
                worlds[j].pause_was_held,
            ),
        forall|j: int|
            0 <= j < inputs.len() ==> frame_keeps_pause(worlds[j], #[trigger] inputs[j], worlds[j + 1]),
    ensures
        worlds[k].phase == worlds[0].phase,
        worlds[k].same_play(&worlds[0]),
    decreases k,
{
    if k > 0 {
        lemma_paused_prefix(worlds, inputs, k - 1);
        assert(frame_keeps_pause(worlds[k - 1], inputs[k - 1], worlds[k]));
        assert(!pressed_edge(inputs[k - 1].pause_held, worlds[k - 1].pause_was_held));
    }
}

/// A paused game stays still over any number of frames: when each frame `k`
/// takes `worlds[k]` to `worlds[k + 1]` as `step` does, and no frame presses
/// the pause key, every later world has the first one's phase, entities,
/// score and timers. Play resumes from them as if no time had passed.
pub proof fn lemma_paused_frames_keep_play(worlds: Seq<World>, inputs: Seq<FrameInput>)
    requires
        worlds.len() == inputs.len() + 1,
        worlds[0].phase == (Phase { app: AppState::Game, game: GameState::Paused }),
        forall|j: int|
            0 <= j < inputs.len() ==> !pressed_edge(
                (#[trigger] inputs[j]).pause_held,
                worlds[j].pause_was_held,
            ),
        forall|j: int|
            0 <= j < inputs.len() ==> frame_keeps_pause(worlds[j], #[trigger] inputs[j], worlds[j + 1]),
    ensures
        forall|k: int|
            0 <= k < worlds.len() ==> (#[trigger] worlds[k]).phase == worlds[0].phase
                && worlds[k].same_play(&worlds[0]),
{
    assert forall|k: int| 0 <= k < worlds.len() implies (#[trigger] worlds[k]).phase
        == worlds[0].phase && worlds[k].same_play(&worlds[0]) by {
        lemma_paused_prefix(worlds, inputs, k);
    }
}

} // verus!
