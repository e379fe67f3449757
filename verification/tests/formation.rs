use chain_reaxian::alien::{
    default_mask, manage_alien_logic, player_killed, setup_wave, update_aliens, Alien,
    AlienManager, AlienType, SpeedChangedEvent, ALIEN_SHIFT_AMOUNT, INITIAL_ALIEN_SPEED,
};
use chain_reaxian::alien_projectile::PlayerKilledEvent;
use chain_reaxian::geom::{Resolution, Vec2i};
use chain_reaxian::level_indicator::LevelCompletedEvent;

fn test_res() -> Resolution {
    // a 612 by 612 pixel window at scale two: margin 256_000, lower bound
    // -236_000, top edge 306_000
    Resolution { screen_width: 612_000, screen_height: 612_000, pixel_ratio: 2 }
}

fn alien_at(x: i64, y: i64) -> Alien {
    Alien {
        dead: false,
        position: Vec2i { x, y },
        original_position: Vec2i { x, y },
        alien_type: AlienType::Worker,
    }
}

#[test]
fn default_wave_has_four_rows_of_eleven() {
    let mask = default_mask();
    let aliens = setup_wave(&mask);
    assert_eq!(aliens.len(), 44);
    for a in &aliens {
        assert!(!a.dead);
        assert_eq!(a.position, a.original_position);
    }
    // first alien: row zero, column zero, a worker
    assert_eq!(aliens[0].position, Vec2i { x: -121_000, y: 70_000 });
    assert!(matches!(aliens[0].alien_type, AlienType::Worker));
    // row two holds soldiers
    assert!(matches!(aliens[22].alien_type, AlienType::Soldier));
    // last alien: row three, column ten, a queen
    assert_eq!(aliens[43].position, Vec2i { x: 99_000, y: 220_000 });
    assert!(matches!(aliens[43].alien_type, AlienType::Queen));
}

#[test]
fn empty_mask_spawns_no_aliens() {
    let mask: Vec<Vec<u8>> = Vec::new();
    assert!(setup_wave(&mask).is_empty());
}

#[test]
fn mask_holes_leave_gaps_in_the_wave() {
    let mask = vec![vec![1u8, 0, 2, 9, 3]];
    let aliens = setup_wave(&mask);
    assert_eq!(aliens.len(), 3);
    assert!(matches!(aliens[0].alien_type, AlienType::Worker));
    assert!(matches!(aliens[1].alien_type, AlienType::Soldier));
    assert!(matches!(aliens[2].alien_type, AlienType::Queen));
    // columns zero, two and four of a five-column row centred on the screen
    assert_eq!(aliens[0].position.x, -55_000);
    assert_eq!(aliens[1].position.x, -11_000);
    assert_eq!(aliens[2].position.x, 33_000);
}

#[test]
fn no_player_death_leaves_manager_untouched() {
    let mut manager = AlienManager::new();
    manager.speed = 59;
    let mut sc: Vec<SpeedChangedEvent> = Vec::new();
    let none: Vec<PlayerKilledEvent> = Vec::new();
    player_killed(&mut manager, &none, &mut sc);
    assert_eq!(manager.speed, 59);
    assert!(!manager.reset);
    assert!(sc.is_empty());
}

#[test]
fn formation_advances_living_aliens_only() {
    let res = test_res();
    let mut aliens = vec![alien_at(0, 100_000), alien_at(22_000, 100_000)];
    aliens[1].dead = true;
    let mut manager = AlienManager::new();
    manager.prev_alien_count = 1;
    let mut pk: Vec<PlayerKilledEvent> = Vec::new();
    let mut lc: Vec<LevelCompletedEvent> = Vec::new();
    let mut sc: Vec<SpeedChangedEvent> = Vec::new();
    update_aliens(&mut aliens, &mut manager, &res, 16, &mut pk, &mut lc, &mut sc);
    // the living alien advanced by direction * speed * dt = 35 * 16
    assert_eq!(aliens[0].position.x, 560);
    // the dead alien did not move
    assert_eq!(aliens[1].position.x, 22_000);
    assert_eq!(manager.direction, 1);
    assert!(!manager.shift_aliens_down);
    assert!(!manager.reset);
    assert_eq!(manager.prev_alien_count, 1);
    assert!(pk.is_empty() && lc.is_empty() && sc.is_empty());
}

#[test]
fn boundary_overshoot_lands_exactly_on_margin() {
    let res = test_res();
    // at the margin already; one tick pushes it 3_500 past
    let mut aliens = vec![alien_at(256_000, 100_000)];
    let mut manager = AlienManager::new();
    manager.prev_alien_count = 1;
    let mut pk: Vec<PlayerKilledEvent> = Vec::new();
    let mut lc: Vec<LevelCompletedEvent> = Vec::new();
    let mut sc: Vec<SpeedChangedEvent> = Vec::new();
    update_aliens(&mut aliens, &mut manager, &res, 100, &mut pk, &mut lc, &mut sc);
    assert_eq!(aliens[0].position.x, 259_500);
    assert!(manager.shift_aliens_down);
    assert_eq!(manager.dist_from_boundary, -3_500);
    manage_alien_logic(&mut aliens, &mut manager);
    // the overshooting alien stands exactly on the margin, one step down
    assert_eq!(aliens[0].position.x, 256_000);
    assert_eq!(aliens[0].position.y, 100_000 - ALIEN_SHIFT_AMOUNT);
    assert_eq!(manager.direction, -1);
    assert!(!manager.shift_aliens_down);
}

#[test]
fn correction_follows_the_furthest_overshooter() {
    let res = test_res();
    // two living aliens past the margin of 256_000; the further one, not the
    // later one in store order, decides the correction
    let mut aliens = vec![alien_at(266_000, 100_000), alien_at(257_000, 100_000)];
    let mut manager = AlienManager::new();
    manager.prev_alien_count = 2;
    let mut pk: Vec<PlayerKilledEvent> = Vec::new();
    let mut lc: Vec<LevelCompletedEvent> = Vec::new();
    let mut sc: Vec<SpeedChangedEvent> = Vec::new();
    update_aliens(&mut aliens, &mut manager, &res, 0, &mut pk, &mut lc, &mut sc);
    assert!(manager.shift_aliens_down);
    assert_eq!(manager.dist_from_boundary, -10_000);
    manage_alien_logic(&mut aliens, &mut manager);
    // the furthest lands exactly on the margin, the nearer strictly inside:
    // no residual overshoot
    assert_eq!(aliens[0].position.x, 256_000);
    assert_eq!(aliens[1].position.x, 247_000);
    assert_eq!(manager.direction, -1);
}

#[test]
fn no_overshoot_keeps_direction() {
    let res = test_res();
    let mut aliens = vec![alien_at(0, 100_000)];
    let mut manager = AlienManager::new();
    manager.prev_alien_count = 1;
    let mut pk: Vec<PlayerKilledEvent> = Vec::new();
    let mut lc: Vec<LevelCompletedEvent> = Vec::new();
    let mut sc: Vec<SpeedChangedEvent> = Vec::new();
    update_aliens(&mut aliens, &mut manager, &res, 16, &mut pk, &mut lc, &mut sc);
    manage_alien_logic(&mut aliens, &mut manager);
    assert_eq!(manager.direction, 1);
}

#[test]
fn wave_reset_revives_all_at_spawn_positions() {
    let res = test_res();
    // twenty aliens in a four-by-five grid
    let mask = vec![vec![1u8; 5], vec![1u8; 5], vec![2u8; 5], vec![3u8; 5]];
    let mut aliens = setup_wave(&mask);
    assert_eq!(aliens.len(), 20);
    let spawn: Vec<Vec2i> = aliens.iter().map(|a| a.original_position).collect();
    // kill five of twenty
    for k in 0..5 {
        aliens[k * 3].dead = true;
    }
    // move the formation a little so positions drift off spawn
    let mut manager = AlienManager::new();
    manager.prev_alien_count = 15;
    let mut pk: Vec<PlayerKilledEvent> = Vec::new();
    let mut lc: Vec<LevelCompletedEvent> = Vec::new();
    let mut sc: Vec<SpeedChangedEvent> = Vec::new();
    update_aliens(&mut aliens, &mut manager, &res, 100, &mut pk, &mut lc, &mut sc);
    // a player death arms the reset and restores the initial speed
    manager.speed = 71;
    player_killed(&mut manager, &vec![PlayerKilledEvent {}], &mut sc);
    assert!(manager.reset);
    assert_eq!(manager.speed, INITIAL_ALIEN_SPEED);
    assert_eq!(sc.last().unwrap().speed, INITIAL_ALIEN_SPEED);
    manage_alien_logic(&mut aliens, &mut manager);
    assert!(!manager.reset);
    assert_eq!(manager.direction, 1);
    for (k, a) in aliens.iter().enumerate() {
        assert!(!a.dead);
        assert_eq!(a.position, spawn[k]);
    }
}

#[test]
fn speed_rises_once_per_threshold_crossing() {
    let res = test_res();
    // thirty-one aliens; kill down to twenty-nine
    let mut aliens: Vec<Alien> = (0..31).map(|k| alien_at(k * 1000, 100_000)).collect();
    aliens[0].dead = true;
    aliens[1].dead = true;
    let mut manager = AlienManager::new();
    manager.prev_alien_count = 31;
    let mut pk: Vec<PlayerKilledEvent> = Vec::new();
    let mut lc: Vec<LevelCompletedEvent> = Vec::new();
    let mut sc: Vec<SpeedChangedEvent> = Vec::new();
    update_aliens(&mut aliens, &mut manager, &res, 16, &mut pk, &mut lc, &mut sc);
    assert_eq!(sc.len(), 1);
    assert_eq!(sc[0].speed, 47);
    assert_eq!(manager.speed, 47);
    assert_eq!(manager.prev_alien_count, 29);
    // kill further down to nineteen: exactly one more event
    for k in 2..12 {
        aliens[k].dead = true;
    }
    update_aliens(&mut aliens, &mut manager, &res, 16, &mut pk, &mut lc, &mut sc);
    assert_eq!(sc.len(), 2);
    assert_eq!(sc[1].speed, 59);
    assert_eq!(manager.prev_alien_count, 19);
}

#[test]
fn frame_skip_crosses_several_thresholds_at_once() {
    let res = test_res();
    let mut aliens = vec![alien_at(0, 100_000), alien_at(22_000, 100_000)];
    let mut manager = AlienManager::new();
    manager.prev_alien_count = 31;
    let mut pk: Vec<PlayerKilledEvent> = Vec::new();
    let mut lc: Vec<LevelCompletedEvent> = Vec::new();
    let mut sc: Vec<SpeedChangedEvent> = Vec::new();
    update_aliens(&mut aliens, &mut manager, &res, 16, &mut pk, &mut lc, &mut sc);
    // thirty-one down to two crosses thirty, twenty, ten and three
    assert_eq!(sc.len(), 4);
    let speeds: Vec<i64> = sc.iter().map(|e| e.speed).collect();
    assert_eq!(speeds, vec![47, 59, 71, 83]);
    assert_eq!(manager.speed, 83);
}

#[test]
fn formation_reaching_player_zone_signals_loss() {
    let res = test_res();
    // below the lower bound of -236_000
    let mut aliens = vec![alien_at(0, -240_000), alien_at(22_000, 100_000)];
    let mut manager = AlienManager::new();
    manager.prev_alien_count = 2;
    let mut pk: Vec<PlayerKilledEvent> = Vec::new();
    let mut lc: Vec<LevelCompletedEvent> = Vec::new();
    let mut sc: Vec<SpeedChangedEvent> = Vec::new();
    update_aliens(&mut aliens, &mut manager, &res, 16, &mut pk, &mut lc, &mut sc);
    assert!(manager.reset);
    assert_eq!(pk.len(), 1);
    assert!(lc.is_empty());
}

#[test]
fn wipe_emits_level_completed_once_per_cooldown() {
    let res = test_res();
    let mut aliens = vec![alien_at(0, 100_000)];
    aliens[0].dead = true;
    let mut manager = AlienManager::new();
    manager.prev_alien_count = 1;
    let mut pk: Vec<PlayerKilledEvent> = Vec::new();
    let mut lc: Vec<LevelCompletedEvent> = Vec::new();
    let mut sc: Vec<SpeedChangedEvent> = Vec::new();
    update_aliens(&mut aliens, &mut manager, &res, 16, &mut pk, &mut lc, &mut sc);
    assert!(manager.reset);
    assert_eq!(lc.len(), 1);
    assert_eq!(manager.reset_cooldown, 1000);
    // the rearmed cooldown holds the second emission back
    manager.reset = false;
    update_aliens(&mut aliens, &mut manager, &res, 16, &mut pk, &mut lc, &mut sc);
    assert!(manager.reset);
    assert_eq!(lc.len(), 1);
}
