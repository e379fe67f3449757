use chain_reaxian::alien::default_mask;
use chain_reaxian::alien_projectile::PlayerKilledEvent;
use chain_reaxian::capsule::CapsuleCollisionEvent;
use chain_reaxian::game::{tick, GameState};
use chain_reaxian::geom::{Resolution, Vec2i};
use chain_reaxian::level_indicator::{update_level_complete, LevelCompletedEvent, ScoreManager};
use chain_reaxian::player::{
    capsule_collision, reset_when_killed, spawn_one_missile, spawn_two_missiles, update_player,
    Player, PlayerInput, PlayerShootEvent,
};
use chain_reaxian::projectile::Projectile;

fn test_res() -> Resolution {
    Resolution { screen_width: 612_000, screen_height: 612_000, pixel_ratio: 2 }
}

fn idle_player() -> Player {
    Player {
        position: Vec2i { x: 0, y: -256_000 },
        shoot_timer: 0,
        dead: false,
        main_gun_projectiles: 1,
        side_gun_projectiles: 0,
    }
}

const NO_INPUT: PlayerInput = PlayerInput { left: false, right: false, fire: false };

#[test]
fn player_starts_above_bottom_edge() {
    let res = test_res();
    let p = Player::new(&res);
    assert_eq!(p.position, Vec2i { x: 0, y: -256_000 });
    assert_eq!(p.main_gun_projectiles, 1);
    assert_eq!(p.side_gun_projectiles, 0);
    assert!(!p.dead);
}

#[test]
fn player_moves_and_is_clamped_to_screen() {
    let res = test_res();
    let mut player = idle_player();
    player.position.x = 305_000;
    player.shoot_timer = 500;
    let mut projectiles: Vec<Projectile> = Vec::new();
    let mut events: Vec<PlayerShootEvent> = Vec::new();
    let input = PlayerInput { left: false, right: true, fire: false };
    update_player(&mut player, &mut projectiles, &input, &res, 16, &mut events);
    // 305_000 plus 200 * 16 would pass the right edge of 306_000
    assert_eq!(player.position.x, 306_000);
    assert_eq!(player.shoot_timer, 500 - 16);
    let input = PlayerInput { left: true, right: false, fire: false };
    update_player(&mut player, &mut projectiles, &input, &res, 100, &mut events);
    assert_eq!(player.position.x, 306_000 - 20_000);
    assert!(projectiles.is_empty() && events.is_empty());
}

#[test]
fn opposite_directions_cancel() {
    let res = test_res();
    let mut player = idle_player();
    player.shoot_timer = 500;
    let mut projectiles: Vec<Projectile> = Vec::new();
    let mut events: Vec<PlayerShootEvent> = Vec::new();
    let input = PlayerInput { left: true, right: true, fire: false };
    update_player(&mut player, &mut projectiles, &input, &res, 16, &mut events);
    assert_eq!(player.position.x, 0);
}

#[test]
fn fire_trigger_spawns_volleys_and_rearms_cooldown() {
    let res = test_res();
    let mut player = idle_player();
    player.main_gun_projectiles = 2;
    player.side_gun_projectiles = 1;
    let mut projectiles: Vec<Projectile> = Vec::new();
    let mut events: Vec<PlayerShootEvent> = Vec::new();
    let input = PlayerInput { left: false, right: false, fire: true };
    update_player(&mut player, &mut projectiles, &input, &res, 16, &mut events);
    assert_eq!(events.len(), 1);
    assert_eq!(player.shoot_timer, 900);
    // two main missiles then one side pair, staggered by 12_000 under the
    // muzzle height of 25_000
    assert_eq!(projectiles.len(), 4);
    assert_eq!(projectiles[0].position, Vec2i { x: 0, y: -256_000 + 25_000 });
    assert_eq!(projectiles[1].position, Vec2i { x: 0, y: -256_000 + 13_000 });
    assert_eq!(projectiles[2].position, Vec2i { x: -20_000, y: -256_000 + 25_000 });
    assert_eq!(projectiles[3].position, Vec2i { x: 20_000, y: -256_000 + 25_000 });
    for p in &projectiles {
        assert_eq!(p.speed, 400);
    }
    // the cooldown holds the next volley back
    update_player(&mut player, &mut projectiles, &input, &res, 16, &mut events);
    assert_eq!(projectiles.len(), 4);
    assert_eq!(events.len(), 1);
    assert_eq!(player.shoot_timer, 900 - 16);
}

#[test]
fn volley_spawners_lay_out_lanes_exactly() {
    let origin = Vec2i { x: 1000, y: 2000 };
    let mut projectiles: Vec<Projectile> = Vec::new();
    spawn_one_missile(&mut projectiles, origin, 3);
    assert_eq!(projectiles.len(), 3);
    assert_eq!(projectiles[2].position, Vec2i { x: 1000, y: 2000 + 25_000 - 2 * 12_000 });
    let mut pairs: Vec<Projectile> = Vec::new();
    spawn_two_missiles(&mut pairs, origin, 2);
    assert_eq!(pairs.len(), 4);
    assert_eq!(pairs[0].position, Vec2i { x: 1000 - 20_000, y: 2000 + 25_000 });
    assert_eq!(pairs[1].position, Vec2i { x: 1000 + 20_000, y: 2000 + 25_000 });
    assert_eq!(pairs[2].position, Vec2i { x: 1000 - 20_000, y: 2000 + 13_000 });
    assert_eq!(pairs[3].position, Vec2i { x: 1000 + 20_000, y: 2000 + 13_000 });
}

#[test]
fn pickups_alternate_gun_upgrades_until_side_cap() {
    let mut player = idle_player();
    let mut level: Vec<LevelCompletedEvent> = Vec::new();
    let one = vec![CapsuleCollisionEvent {}];
    // starting from one main lane and no side lanes the side gun trails
    capsule_collision(&mut player, &one, &mut level);
    assert_eq!((player.main_gun_projectiles, player.side_gun_projectiles), (1, 1));
    capsule_collision(&mut player, &one, &mut level);
    assert_eq!((player.main_gun_projectiles, player.side_gun_projectiles), (2, 1));
    capsule_collision(&mut player, &one, &mut level);
    assert_eq!((player.main_gun_projectiles, player.side_gun_projectiles), (2, 2));
    assert_eq!(level.len(), 3);
    // many more pickups: both lanes stop once the side gun reaches its cap
    // of six
    let many: Vec<CapsuleCollisionEvent> = (0..20).map(|_| CapsuleCollisionEvent {}).collect();
    capsule_collision(&mut player, &many, &mut level);
    assert_eq!((player.main_gun_projectiles, player.side_gun_projectiles), (6, 6));
    assert_eq!(level.len(), 23);
}

#[test]
fn death_resets_guns_and_level() {
    let mut player = idle_player();
    player.main_gun_projectiles = 5;
    player.side_gun_projectiles = 4;
    let mut score = ScoreManager { curr_level: 9, max_level: 12 };
    let mut level: Vec<LevelCompletedEvent> = Vec::new();
    reset_when_killed(&mut player, &mut score, &vec![PlayerKilledEvent {}], &mut level);
    assert_eq!(player.main_gun_projectiles, 1);
    assert_eq!(player.side_gun_projectiles, 0);
    assert_eq!(score.curr_level, 0);
    assert_eq!(score.max_level, 12);
    assert_eq!(level.len(), 1);
}

#[test]
fn level_counter_keeps_high_water_mark() {
    let mut score = ScoreManager { curr_level: 5, max_level: 7 };
    let events: Vec<LevelCompletedEvent> = (0..3).map(|_| LevelCompletedEvent {}).collect();
    update_level_complete(&mut score, &events);
    assert_eq!(score.curr_level, 8);
    assert_eq!(score.max_level, 8);
    let none: Vec<LevelCompletedEvent> = Vec::new();
    update_level_complete(&mut score, &none);
    assert_eq!(score.curr_level, 8);
    assert_eq!(score.max_level, 8);
}

#[test]
fn quiet_tick_advances_formation_and_keeps_direction() {
    let res = test_res();
    let mask = default_mask();
    let mut state = GameState::new(&res, &mask);
    let events = tick(&mut state, &NO_INPUT, 16);
    // the whole formation advanced right by 35 * 16
    assert_eq!(state.aliens.len(), 44);
    assert_eq!(state.aliens[0].position.x, -121_000 + 560);
    assert_eq!(state.alien_manager.direction, 1);
    assert!(events.alien_killed.is_empty());
    assert!(events.player_killed.is_empty());
    assert!(events.level_completed.is_empty());
    assert!(events.speed_changed.is_empty());
    // counters stay in step with their stores
    assert_eq!(state.fire_manager.num_fires, state.fires.len() as i64);
    assert_eq!(state.capsule_counter.num_capsules, state.capsules.len() as i64);
}

#[test]
fn ticks_eventually_bounce_off_the_boundary() {
    let res = test_res();
    let mask = default_mask();
    let mut state = GameState::new(&res, &mask);
    let mut flipped = false;
    for _ in 0..2000 {
        tick(&mut state, &NO_INPUT, 16);
        if state.alien_manager.direction == -1 {
            flipped = true;
            break;
        }
    }
    assert!(flipped);
    // the rightmost alien was corrected back inside the margin
    let max_x = state.aliens.iter().map(|a| a.position.x).max().unwrap();
    assert!(max_x <= 256_000);
}
