use ball_game::components::{Enemy, Player, Star, ENEMIES_NUM, STARS_NUM};
use ball_game::events::GameOver;
use ball_game::geometry::{Arena, Direction, Position, UNITS_PER_PIXEL};
use ball_game::phase::{toggle_game, AppState, GameState, Phase, PhaseEvent};
use ball_game::player::MoveKeys;
use ball_game::score::{print_high_scores, update_high_scores, update_score, HighScores, Score, ScoreWatch};
use ball_game::world::{FrameInput, World};

const ARENA: Arena = Arena { width: 800, height: 600 };

fn px(v: i64) -> i64 {
    v * UNITS_PER_PIXEL
}

fn frame(delta_micros: u32) -> FrameInput {
    FrameInput {
        delta_micros,
        keys: MoveKeys { up: false, down: false, left: false, right: false },
        pause_held: false,
        start_pressed: false,
        continue_pressed: false,
        arena: ARENA,
    }
}

fn started_world() -> World {
    let mut w = World::new();
    let mut input = frame(16_000);
    input.start_pressed = true;
    w.step(&input);
    w
}

#[test]
fn new_world_waits_in_menu() {
    let mut w = World::new();
    assert_eq!(w.phase, Phase { app: AppState::Menu, game: GameState::Running });
    w.step(&frame(16_000));
    assert_eq!(w.phase.app, AppState::Menu);
    assert!(w.player.is_none() && w.enemies.is_empty() && w.stars.is_empty());
}

#[test]
fn start_spawns_initial_populations() {
    let w = started_world();
    assert_eq!(w.phase.app, AppState::Game);
    assert_eq!(w.enemies.len(), ENEMIES_NUM);
    assert_eq!(w.stars.len(), STARS_NUM);
    assert_eq!(w.score.value, 0);
    assert_eq!(w.player.unwrap().position, Position { x: px(400), y: px(300) });
}

#[test]
fn start_spawns_initial_populations_even_on_a_long_frame() {
    let mut w = World::new();
    w.enemy_timer.timer.elapsed_micros = 4_999_999;
    w.star_timer.timer.elapsed_micros = 999_999;
    let mut input = frame(30_000_000);
    input.start_pressed = true;
    w.step(&input);
    assert_eq!(w.enemies.len(), ENEMIES_NUM);
    assert_eq!(w.stars.len(), STARS_NUM);
}

#[test]
fn pause_freezes_play() {
    let mut w = started_world();
    let mut input = frame(16_000);
    input.pause_held = true;
    w.step(&input);
    assert_eq!(w.phase.game, GameState::Paused);
    input.pause_held = false;
    let enemies: Vec<Enemy> = w.enemies.clone();
    let stars: Vec<Star> = w.stars.clone();
    let player = w.player;
    let timers = (w.enemy_timer, w.star_timer);
    for _ in 0..50 {
        input.keys.left = true;
        input.delta_micros = 1_000_000;
        w.step(&input);
    }
    assert_eq!(w.enemies, enemies);
    assert_eq!(w.stars, stars);
    assert_eq!(w.player, player);
    assert_eq!(w.score.value, 0);
    assert_eq!((w.enemy_timer, w.star_timer), timers);
    input.pause_held = true;
    w.step(&input);
    assert_eq!(w.phase.game, GameState::Running);
}

#[test]
fn held_pause_key_toggles_once() {
    let mut w = started_world();
    let mut input = frame(0);
    input.pause_held = true;
    w.step(&input);
    assert_eq!(w.phase.game, GameState::Paused);
    for _ in 0..5 {
        w.step(&input);
        assert_eq!(w.phase.game, GameState::Paused);
    }
    input.pause_held = false;
    w.step(&input);
    assert_eq!(w.phase.game, GameState::Paused);
    input.pause_held = true;
    w.step(&input);
    assert_eq!(w.phase.game, GameState::Running);
}

#[test]
fn toggle_only_on_press_edges() {
    let mut phase = Phase { app: AppState::Game, game: GameState::Running };
    let mut was_held = false;
    toggle_game(&mut phase, &mut was_held, true);
    assert_eq!(phase.game, GameState::Paused);
    toggle_game(&mut phase, &mut was_held, true);
    assert_eq!(phase.game, GameState::Paused);
    toggle_game(&mut phase, &mut was_held, false);
    toggle_game(&mut phase, &mut was_held, true);
    assert_eq!(phase.game, GameState::Running);
}

#[test]
fn pause_is_ignored_outside_a_game() {
    let mut phase = Phase::default();
    let mut was_held = false;
    toggle_game(&mut phase, &mut was_held, true);
    assert_eq!(phase, Phase { app: AppState::Menu, game: GameState::Running });
    assert!(!phase.apply(PhaseEvent::TogglePause));
    assert!(!phase.apply(PhaseEvent::Continue));
    assert!(!phase.apply(PhaseEvent::GameOverRaised));
    assert!(phase.apply(PhaseEvent::Start));
    assert_eq!(phase.app, AppState::Game);
    assert!(!phase.apply(PhaseEvent::Start));
    assert!(phase.apply(PhaseEvent::GameOverRaised));
    assert!(phase.apply(PhaseEvent::Continue));
    assert_eq!(phase.app, AppState::Menu);
}

#[test]
fn game_over_records_score_once_and_resets() {
    let mut w = started_world();
    w.score.value = 5;
    let p = w.player.unwrap().position;
    w.enemies.clear();
    w.stars.clear();
    w.enemies.push(Enemy { position: p, direction: Direction { x: 1_000_000, y: 0 } });
    w.enemy_timer.timer.elapsed_micros = 0;
    w.star_timer.timer.elapsed_micros = 0;
    w.step(&frame(1_000));
    assert_eq!(w.game_over_events, vec![GameOver { score_value: 5 }]);
    assert_eq!(w.phase.app, AppState::GameOver);
    assert_eq!(w.score.value, 0);
    assert!(w.player.is_none() && w.enemies.is_empty() && w.stars.is_empty());
    w.step(&frame(1_000));
    let mut input = frame(1_000);
    input.continue_pressed = true;
    w.step(&input);
    assert_eq!(w.phase.app, AppState::Menu);
    let mut input = frame(1_000);
    input.start_pressed = true;
    w.step(&input);
    assert_eq!(w.phase.app, AppState::Game);
    assert_eq!(w.score.value, 0);
    let fives = w.high_scores.scores.iter().filter(|e| e.1 == 5).count();
    assert_eq!(fives, 1);
    assert_eq!(w.high_scores.scores, vec![("Player".to_string(), 5)]);
}

#[test]
fn collected_star_scores_in_play() {
    let mut w = started_world();
    let p = w.player.unwrap().position;
    w.enemies.clear();
    w.stars.clear();
    w.stars.push(Star { position: p });
    w.stars.push(Star { position: Position { x: p.x + px(46), y: p.y } });
    w.enemy_timer.timer.elapsed_micros = 0;
    w.star_timer.timer.elapsed_micros = 0;
    w.step(&frame(1_000));
    assert_eq!(w.score.value, 2);
    assert!(w.stars.is_empty());
    assert_eq!(w.phase.app, AppState::Game);
}

#[test]
fn running_game_moves_player_and_ticks_timers() {
    let mut w = started_world();
    w.enemies.clear();
    w.stars.clear();
    w.enemy_timer.timer.elapsed_micros = 0;
    w.star_timer.timer.elapsed_micros = 0;
    let mut input = frame(200_000);
    input.keys.up = true;
    w.step(&input);
    assert_eq!(w.player, Some(Player { position: Position { x: px(400), y: px(400) } }));
    assert_eq!(w.enemy_timer.timer.elapsed_micros, 200_000);
    assert_eq!(w.star_timer.timer.elapsed_micros, 200_000);
    input.delta_micros = 800_000;
    w.step(&input);
    assert_eq!(w.stars.len(), 1);
    assert_eq!(w.player.unwrap().position.y, px(568));
}

#[test]
fn high_scores_append_in_order() {
    let mut h = HighScores::default();
    update_high_scores(&vec![GameOver { score_value: 3 }, GameOver { score_value: 9 }], &mut h);
    update_high_scores(&vec![GameOver { score_value: 3 }], &mut h);
    assert_eq!(
        h.scores,
        vec![("Player".to_string(), 3), ("Player".to_string(), 9), ("Player".to_string(), 3)]
    );
}

#[test]
fn observers_hear_only_of_changes() {
    let mut watch = ScoreWatch::default();
    let mut score = Score::default();
    assert_eq!(update_score(&score, &mut watch), Some(0));
    assert_eq!(update_score(&score, &mut watch), None);
    score.add_point();
    assert_eq!(update_score(&score, &mut watch), Some(1));
    let mut h = HighScores::default();
    assert!(print_high_scores(&h, &mut watch));
    assert!(!print_high_scores(&h, &mut watch));
    update_high_scores(&vec![GameOver { score_value: 1 }], &mut h);
    assert!(print_high_scores(&h, &mut watch));
    assert!(!print_high_scores(&h, &mut watch));
}
