use ball_game::components::{Enemy, Player, Star, ENEMIES_NUM, STARS_NUM};
use ball_game::enemy::{
    despawn_enemies, limit_enemy_movement, move_enemy, spawn_enemies, spawn_enemies_over_time,
    update_enemy_direction,
};
use ball_game::events::{Cue, GameOver};
use ball_game::geometry::{arena_bounds, Arena, Direction, Position, UNITS_PER_PIXEL};
use ball_game::player::{
    check_enemy_collision, check_star_collision, despawn_player, direction_from_keys,
    limit_player_movement, move_player, spawn_player, MoveKeys,
};
use ball_game::random::{
    bounce_cue_for, direction_from_draws, random_coordinate, random_direction, random_position,
};
use ball_game::score::Score;
use ball_game::star::{despawn_stars, spawn_star, spawn_stars_over_time};
use ball_game::timer::{EnemyTimer, RepeatingTimer, StarTimer};

const ARENA: Arena = Arena { width: 800, height: 600 };

fn px(v: i64) -> i64 {
    v * UNITS_PER_PIXEL
}

fn no_keys() -> MoveKeys {
    MoveKeys { up: false, down: false, left: false, right: false }
}

#[test]
fn hazard_left_of_window_bounces_back_and_is_clamped() {
    let b = arena_bounds(ARENA, 32);
    let mut enemies = vec![Enemy {
        position: Position { x: b.x_min - 1, y: px(300) },
        direction: Direction { x: -1_000_000, y: 0 },
    }];
    let mut cues = Vec::new();
    update_enemy_direction(&mut enemies, ARENA, &mut cues);
    limit_enemy_movement(&mut enemies, ARENA);
    assert_eq!(enemies[0].direction, Direction { x: 1_000_000, y: 0 });
    assert_eq!(enemies[0].position.x, b.x_min);
    assert_eq!(enemies[0].position.y, px(300));
    assert_eq!(cues.len(), 1);
    assert!(cues[0] == Cue::BounceLow || cues[0] == Cue::BounceHigh);
}

#[test]
fn hazard_in_corner_bounces_once() {
    let mut enemies = vec![Enemy {
        position: Position { x: px(900), y: px(-10) },
        direction: Direction { x: 600_000, y: -800_000 },
    }];
    let mut cues = Vec::new();
    update_enemy_direction(&mut enemies, ARENA, &mut cues);
    assert_eq!(enemies[0].direction, Direction { x: -600_000, y: 800_000 });
    assert_eq!(cues.len(), 1);
}

#[test]
fn hazard_inside_keeps_direction() {
    let mut enemies = vec![Enemy {
        position: Position { x: px(400), y: px(300) },
        direction: Direction { x: 600_000, y: 800_000 },
    }];
    let mut cues = Vec::new();
    update_enemy_direction(&mut enemies, ARENA, &mut cues);
    limit_enemy_movement(&mut enemies, ARENA);
    assert_eq!(enemies[0].direction, Direction { x: 600_000, y: 800_000 });
    assert_eq!(enemies[0].position, Position { x: px(400), y: px(300) });
    assert!(cues.is_empty());
}

#[test]
fn enemies_move_along_their_direction() {
    let mut enemies = vec![Enemy {
        position: Position { x: px(100), y: px(100) },
        direction: Direction { x: 600_000, y: -800_000 },
    }];
    move_enemy(&mut enemies, 250_000);
    assert_eq!(enemies[0].position, Position { x: px(160), y: px(20) });
    assert_eq!(enemies[0].direction, Direction { x: 600_000, y: -800_000 });
}

#[test]
fn keys_give_normalised_directions() {
    let mut keys = no_keys();
    assert_eq!(direction_from_keys(keys), Direction { x: 0, y: 0 });
    keys.up = true;
    assert_eq!(direction_from_keys(keys), Direction { x: 0, y: 1_000_000 });
    keys.right = true;
    assert_eq!(direction_from_keys(keys), Direction { x: 707_107, y: 707_107 });
    keys.down = true;
    assert_eq!(direction_from_keys(keys), Direction { x: 1_000_000, y: 0 });
    keys.left = true;
    assert_eq!(direction_from_keys(keys), Direction { x: 0, y: 0 });
}

#[test]
fn diagonal_movement_matches_unit_speed() {
    let mut player = Some(Player { position: Position { x: px(100), y: px(100) } });
    let keys = MoveKeys { up: true, down: false, left: false, right: true };
    move_player(&mut player, keys, 100_000);
    let p = player.unwrap().position;
    let expected = 100.0 + 50.0 / 2f64.sqrt();
    assert_eq!(p, Position { x: 135_355_350_000, y: 135_355_350_000 });
    assert!((p.x as f64 / 1e9 - expected).abs() < 1e-3);
    assert!((p.y as f64 / 1e9 - expected).abs() < 1e-3);
}

#[test]
fn player_moves_and_is_contained() {
    let mut player = Some(spawn_player(ARENA));
    assert_eq!(player.unwrap().position, Position { x: px(400), y: px(300) });
    let keys = MoveKeys { up: false, down: false, left: true, right: false };
    move_player(&mut player, keys, 100_000);
    assert_eq!(player.unwrap().position, Position { x: px(350), y: px(300) });
    move_player(&mut player, keys, 2_000_000);
    assert_eq!(player.unwrap().position.x, px(-650));
    limit_player_movement(&mut player, ARENA);
    assert_eq!(player.unwrap().position, Position { x: px(32), y: px(300) });
}

#[test]
fn missing_player_is_left_alone() {
    let mut player: Option<Player> = None;
    move_player(&mut player, MoveKeys { up: true, down: false, left: false, right: false }, 1000);
    limit_player_movement(&mut player, ARENA);
    assert!(player.is_none());
    let enemies = vec![Enemy { position: Position { x: 0, y: 0 }, direction: Direction { x: 1_000_000, y: 0 } }];
    let mut events = Vec::new();
    let mut cues = Vec::new();
    check_enemy_collision(&mut player, &enemies, &Score { value: 3 }, &mut events, &mut cues);
    let mut stars = vec![Star { position: Position { x: 0, y: 0 } }];
    let mut score = Score { value: 3 };
    check_star_collision(&player, &mut stars, &mut score, &mut cues);
    assert!(events.is_empty() && cues.is_empty());
    assert_eq!(stars.len(), 1);
    assert_eq!(score.value, 3);
}

#[test]
fn enemy_hit_ends_game_once() {
    let mut player = Some(Player { position: Position { x: px(100), y: px(100) } });
    let dir = Direction { x: 1_000_000, y: 0 };
    let enemies = vec![
        Enemy { position: Position { x: px(110), y: px(100) }, direction: dir },
        Enemy { position: Position { x: px(500), y: px(500) }, direction: dir },
        Enemy { position: Position { x: px(100), y: px(120) }, direction: dir },
    ];
    let mut events = Vec::new();
    let mut cues = Vec::new();
    check_enemy_collision(&mut player, &enemies, &Score { value: 7 }, &mut events, &mut cues);
    assert!(player.is_none());
    assert_eq!(events, vec![GameOver { score_value: 7 }]);
    assert_eq!(cues, vec![Cue::Explosion]);
}

#[test]
fn enemy_exactly_touching_is_no_hit() {
    let mut player = Some(Player { position: Position { x: px(100), y: px(100) } });
    let enemies = vec![Enemy {
        position: Position { x: px(164), y: px(100) },
        direction: Direction { x: 1_000_000, y: 0 },
    }];
    let mut events = Vec::new();
    let mut cues = Vec::new();
    check_enemy_collision(&mut player, &enemies, &Score { value: 0 }, &mut events, &mut cues);
    assert!(player.is_some());
    assert!(events.is_empty());
}

#[test]
fn every_touched_star_is_collected() {
    let player = Some(Player { position: Position { x: px(100), y: px(100) } });
    let mut stars = vec![
        Star { position: Position { x: px(110), y: px(100) } },
        Star { position: Position { x: px(400), y: px(400) } },
        Star { position: Position { x: px(100), y: px(146) } },
        Star { position: Position { x: px(100), y: px(147) } },
    ];
    let mut score = Score { value: 5 };
    let mut cues = Vec::new();
    check_star_collision(&player, &mut stars, &mut score, &mut cues);
    assert_eq!(score.value, 7);
    assert_eq!(
        stars,
        vec![
            Star { position: Position { x: px(400), y: px(400) } },
            Star { position: Position { x: px(100), y: px(147) } },
        ]
    );
    assert_eq!(cues, vec![Cue::Pickup, Cue::Pickup]);
}

#[test]
fn score_is_held_at_its_maximum() {
    let mut score = Score { value: usize::MAX };
    score.add_point();
    assert_eq!(score.value, usize::MAX);
    let mut score = Score::default();
    score.add_point();
    assert_eq!(score.value, 1);
}

#[test]
fn bulk_spawns_place_initial_populations_in_the_arena() {
    let mut enemies = Vec::new();
    spawn_enemies(&mut enemies, ARENA);
    assert_eq!(enemies.len(), ENEMIES_NUM);
    for e in &enemies {
        assert!(e.position.x >= 0 && e.position.x < px(800));
        assert!(e.position.y >= 0 && e.position.y < px(600));
        let d = e.direction;
        let sq = d.x * d.x + d.y * d.y;
        assert!(sq < 1_000_001 * 1_000_001 && sq > 999_997 * 999_997);
    }
    let mut stars = Vec::new();
    spawn_star(&mut stars, ARENA);
    assert_eq!(stars.len(), STARS_NUM);
    for s in &stars {
        assert!(s.position.x >= 0 && s.position.x < px(800));
        assert!(s.position.y >= 0 && s.position.y < px(600));
    }
    despawn_enemies(&mut enemies);
    despawn_stars(&mut stars);
    assert!(enemies.is_empty() && stars.is_empty());
    let mut player = Some(spawn_player(ARENA));
    despawn_player(&mut player);
    assert!(player.is_none());
}

#[test]
fn timed_spawns_follow_the_timers() {
    let mut enemy_timer = EnemyTimer::default();
    let mut star_timer = StarTimer::default();
    let mut enemies = Vec::new();
    let mut stars = Vec::new();
    ball_game::timer::enemy_timer_tick(&mut enemy_timer, 4_999_999);
    ball_game::timer::star_timer_tick(&mut star_timer, 1_000_000);
    spawn_enemies_over_time(&mut enemies, ARENA, &enemy_timer);
    spawn_stars_over_time(&mut stars, ARENA, &star_timer);
    assert_eq!(enemies.len(), 0);
    assert_eq!(stars.len(), 1);
    ball_game::timer::enemy_timer_tick(&mut enemy_timer, 1);
    ball_game::timer::star_timer_tick(&mut star_timer, 10);
    spawn_enemies_over_time(&mut enemies, ARENA, &enemy_timer);
    spawn_stars_over_time(&mut stars, ARENA, &star_timer);
    assert_eq!(enemies.len(), 1);
    assert_eq!(stars.len(), 1);
}

#[test]
fn repeating_timer_fires_once_per_period() {
    let mut t = RepeatingTimer::new(1_000_000);
    t.tick(400_000);
    assert_eq!((t.elapsed_micros, t.just_finished), (400_000, false));
    t.tick(700_000);
    assert_eq!((t.elapsed_micros, t.just_finished), (100_000, true));
    t.tick(0);
    assert_eq!((t.elapsed_micros, t.just_finished), (100_000, false));
    t.tick(2_950_000);
    assert_eq!((t.elapsed_micros, t.just_finished), (50_000, true));
}

#[test]
fn random_draws_stay_in_range() {
    assert_eq!(random_coordinate(0), 0);
    for _ in 0..200 {
        let c = random_coordinate(3);
        assert!((0..px(3)).contains(&c));
        let p = random_position(Arena { width: 2, height: 0 });
        assert!((0..px(2)).contains(&p.x) && p.y == 0);
        let d = random_direction();
        assert!(d.x.abs() <= 1_000_000 && d.y.abs() <= 1_000_000);
        let sq = d.x * d.x + d.y * d.y;
        assert!(sq < 1_000_001 * 1_000_001 && sq > 999_997 * 999_997);
    }
}

#[test]
fn draws_map_to_directions() {
    assert_eq!(direction_from_draws(1000, 1000), None);
    assert_eq!(direction_from_draws(0, 0), None);
    assert_eq!(direction_from_draws(2000, 1000), Some(Direction { x: 1_000_000, y: 0 }));
    assert_eq!(direction_from_draws(1003, 1004), Some(Direction { x: 600_000, y: 800_000 }));
    assert_eq!(direction_from_draws(400, 1800), Some(Direction { x: -600_000, y: 800_000 }));
    assert_eq!(direction_from_draws(1000, 1), Some(Direction { x: 0, y: -1_000_000 }));
}

#[test]
fn draws_map_to_bounce_cues() {
    assert_eq!(bounce_cue_for(0), Cue::BounceLow);
    assert_eq!(bounce_cue_for(1), Cue::BounceHigh);
}

#[test]
fn random_directions_vary() {
    let first = random_direction();
    let differs = (0..200).any(|_| random_direction() != first);
    assert!(differs);
}
