use chain_reaxian::alien::{Alien, AlienType};
use chain_reaxian::alien_projectile::{
    fire_projectile, update_alien_projectiles, update_player_interactions, AlienProjectile,
    AlienProjectileCooldown, AlienShootEvent, PlayerKilledEvent,
};
use chain_reaxian::capsule::{
    spawn_capsules, spawn_capsules_from, update_capsule_interactions, update_capsules, Capsule,
    CapsuleCollisionEvent, CapsuleCounter, CapsuleReleasedEvent,
};
use chain_reaxian::fire::{
    spawn_fire, update_fire, update_fire_interactions, Fire, FireManager, FIRE_LIFESPAN_MS,
};
use chain_reaxian::geom::{within_radius, Resolution, Vec2i};
use chain_reaxian::player::Player;
use chain_reaxian::projectile::{
    update_alien_interactions, update_projectiles, AlienKilledEvent, Projectile,
};

fn test_res() -> Resolution {
    Resolution { screen_width: 612_000, screen_height: 612_000, pixel_ratio: 2 }
}

fn alien_at(x: i64, y: i64) -> Alien {
    Alien {
        dead: false,
        position: Vec2i { x, y },
        original_position: Vec2i { x, y },
        alien_type: AlienType::Worker,
    }
}

fn player_at(x: i64, y: i64) -> Player {
    Player {
        position: Vec2i { x, y },
        shoot_timer: 0,
        dead: false,
        main_gun_projectiles: 1,
        side_gun_projectiles: 0,
    }
}

#[test]
fn within_radius_is_strict_circular_distance() {
    let a = Vec2i { x: 0, y: 0 };
    let b = Vec2i { x: 3, y: 4 };
    assert!(!within_radius(a, b, 5));
    assert!(within_radius(a, b, 6));
    assert!(within_radius(a, a, 1));
    assert!(!within_radius(a, b, 0));
}

#[test]
fn projectile_kills_alien_and_is_destroyed() {
    let mut aliens = vec![alien_at(0, 0), alien_at(100_000, 0)];
    let mut projectiles = vec![Projectile { position: Vec2i { x: 1000, y: 1000 }, speed: 400 }];
    let mut events: Vec<AlienKilledEvent> = Vec::new();
    update_alien_interactions(&mut aliens, &mut projectiles, &mut events);
    assert!(aliens[0].dead);
    assert!(!aliens[1].dead);
    assert!(projectiles.is_empty());
    assert_eq!(events.len(), 1);
    assert_eq!(events[0].location, Vec2i { x: 0, y: 0 });
    assert!(matches!(events[0].alien_type, AlienType::Worker));
}

#[test]
fn double_hit_in_one_tick_emits_one_kill_event() {
    let mut aliens = vec![alien_at(0, 0)];
    let mut projectiles = vec![
        Projectile { position: Vec2i { x: 1000, y: 0 }, speed: 400 },
        Projectile { position: Vec2i { x: -1000, y: 0 }, speed: 400 },
    ];
    let mut events: Vec<AlienKilledEvent> = Vec::new();
    update_alien_interactions(&mut aliens, &mut projectiles, &mut events);
    assert!(aliens[0].dead);
    assert!(projectiles.is_empty());
    assert_eq!(events.len(), 1);
}

#[test]
fn dead_alien_attracts_no_projectile_and_no_event() {
    let mut aliens = vec![alien_at(0, 0)];
    aliens[0].dead = true;
    let mut projectiles = vec![Projectile { position: Vec2i { x: 0, y: 0 }, speed: 400 }];
    let mut events: Vec<AlienKilledEvent> = Vec::new();
    update_alien_interactions(&mut aliens, &mut projectiles, &mut events);
    assert!(events.is_empty());
    assert_eq!(projectiles.len(), 1);
}

#[test]
fn projectile_leaves_screen_at_top() {
    let res = test_res();
    let mut projectiles = vec![
        Projectile { position: Vec2i { x: 0, y: 305_000 }, speed: 400 },
        Projectile { position: Vec2i { x: 0, y: 0 }, speed: 400 },
    ];
    update_projectiles(&mut projectiles, &res, 16);
    // the first moved past the top edge of 306_000 and was destroyed
    assert_eq!(projectiles.len(), 1);
    assert_eq!(projectiles[0].position.y, 6_400);
}

#[test]
fn fire_spawns_at_kill_location_up_to_cap() {
    let mut fires: Vec<Fire> = Vec::new();
    let mut manager = FireManager::new();
    let kills = vec![
        AlienKilledEvent { alien_type: AlienType::Worker, location: Vec2i { x: 5, y: 6 } },
    ];
    spawn_fire(&mut fires, &mut manager, &kills);
    assert_eq!(fires.len(), 1);
    assert_eq!(fires[0].position, Vec2i { x: 5, y: 6 });
    assert_eq!(fires[0].time_remaining, FIRE_LIFESPAN_MS);
    assert_eq!(manager.num_fires, 1);
    // twenty-five more kills: only nineteen fit under the cap of twenty
    let many: Vec<AlienKilledEvent> = (0..25)
        .map(|k| AlienKilledEvent {
            alien_type: AlienType::Soldier,
            location: Vec2i { x: k, y: 0 },
        })
        .collect();
    spawn_fire(&mut fires, &mut manager, &many);
    assert_eq!(fires.len(), 20);
    assert_eq!(manager.num_fires, 20);
}

#[test]
fn fire_burns_down_and_expires() {
    let mut fires = vec![
        Fire { position: Vec2i { x: 0, y: 0 }, time_remaining: 100 },
        Fire { position: Vec2i { x: 1, y: 1 }, time_remaining: 2000 },
    ];
    let mut manager = FireManager { num_fires: 2 };
    update_fire(&mut fires, &mut manager, 200);
    assert_eq!(fires.len(), 1);
    assert_eq!(fires[0].time_remaining, 1800);
    assert_eq!(manager.num_fires, 1);
}

#[test]
fn chain_reaction_kills_adjacent_alien_through_fire() {
    // a worker-type kill event at the origin ignites fire there; the fire
    // kills a neighbour that no projectile ever touched, and the neighbour's
    // death starts more fire
    let mut aliens = vec![alien_at(6_000, 0), alien_at(100_000, 0)];
    let kills = vec![
        AlienKilledEvent { alien_type: AlienType::Worker, location: Vec2i { x: 0, y: 0 } },
    ];
    let mut fires: Vec<Fire> = Vec::new();
    let mut fire_manager = FireManager::new();
    spawn_fire(&mut fires, &mut fire_manager, &kills);
    assert_eq!(fires.len(), 1);
    assert_eq!(fires[0].position, Vec2i { x: 0, y: 0 });
    // next tick: the fire radius of 10_000 reaches the alien at 6_000
    let mut second_kills: Vec<AlienKilledEvent> = Vec::new();
    update_fire_interactions(&mut aliens, &fires, &mut second_kills);
    assert!(aliens[0].dead);
    assert!(!aliens[1].dead);
    assert_eq!(second_kills.len(), 1);
    assert_eq!(second_kills[0].location, Vec2i { x: 6_000, y: 0 });
    spawn_fire(&mut fires, &mut fire_manager, &second_kills);
    assert_eq!(fires.len(), 2);
    assert_eq!(fires[1].position, Vec2i { x: 6_000, y: 0 });
}

#[test]
fn capsule_cap_holds_under_two_triggering_kills() {
    let mut capsules: Vec<Capsule> = Vec::new();
    let mut counter = CapsuleCounter::new();
    let mut released: Vec<CapsuleReleasedEvent> = Vec::new();
    let kills = vec![
        AlienKilledEvent { alien_type: AlienType::Worker, location: Vec2i { x: 1, y: 2 } },
        AlienKilledEvent { alien_type: AlienType::Worker, location: Vec2i { x: 3, y: 4 } },
    ];
    // both draws land under the spawn chance, yet the cap of one holds
    let draws = vec![0u32, 0u32];
    spawn_capsules_from(&mut capsules, &mut counter, &kills, &draws, &mut released);
    assert_eq!(capsules.len(), 1);
    assert_eq!(capsules[0].position, Vec2i { x: 1, y: 2 });
    assert_eq!(counter.num_capsules, 1);
    assert_eq!(released.len(), 1);
    // despawn cycle: the capsule leaves the screen and the counter returns
    // to zero, never negative
    let res = test_res();
    capsules[0].position.y = -305_000;
    update_capsules(&mut capsules, &mut counter, &res, 100);
    assert!(capsules.is_empty());
    assert_eq!(counter.num_capsules, 0);
}

#[test]
fn missed_draw_spawns_no_capsule() {
    let mut capsules: Vec<Capsule> = Vec::new();
    let mut counter = CapsuleCounter::new();
    let mut released: Vec<CapsuleReleasedEvent> = Vec::new();
    let kills = vec![
        AlienKilledEvent { alien_type: AlienType::Worker, location: Vec2i { x: 1, y: 2 } },
    ];
    // a draw of forty or more misses the four-percent chance
    let draws = vec![40u32];
    spawn_capsules_from(&mut capsules, &mut counter, &kills, &draws, &mut released);
    assert!(capsules.is_empty());
    assert_eq!(counter.num_capsules, 0);
    assert!(released.is_empty());
}

#[test]
fn capsules_at_cap_ignore_the_draw() {
    let mut capsules = vec![Capsule { position: Vec2i { x: 0, y: 0 }, speed: 120 }];
    let mut counter = CapsuleCounter { num_capsules: 1 };
    let mut released: Vec<CapsuleReleasedEvent> = Vec::new();
    let kills: Vec<AlienKilledEvent> = (0..50)
        .map(|k| AlienKilledEvent {
            alien_type: AlienType::Worker,
            location: Vec2i { x: k, y: 0 },
        })
        .collect();
    // whatever the thread-local draws come out as, the cap of one holds
    spawn_capsules(&mut capsules, &mut counter, &kills, &mut released);
    assert_eq!(capsules.len(), 1);
    assert_eq!(counter.num_capsules, 1);
    assert!(released.is_empty());
}

#[test]
fn capsule_falls_and_player_picks_it_up() {
    let res = test_res();
    let mut capsules = vec![Capsule { position: Vec2i { x: 0, y: 10_000 }, speed: 120 }];
    let mut counter = CapsuleCounter { num_capsules: 1 };
    update_capsules(&mut capsules, &mut counter, &res, 16);
    // fallen by speed times elapsed: 120 * 16
    assert_eq!(capsules[0].position.y, 10_000 - 1_920);
    let mut events: Vec<CapsuleCollisionEvent> = Vec::new();
    update_capsule_interactions(
        Vec2i { x: 0, y: 0 },
        &mut capsules,
        &mut counter,
        &mut events,
    );
    assert!(capsules.is_empty());
    assert_eq!(counter.num_capsules, 0);
    assert_eq!(events.len(), 1);
}

#[test]
fn alien_projectile_kills_player() {
    let mut player = player_at(0, -236_000);
    let mut shots = vec![
        AlienProjectile { position: Vec2i { x: 2_000, y: -236_000 }, speed: 240 },
        AlienProjectile { position: Vec2i { x: 100_000, y: 0 }, speed: 240 },
    ];
    let mut events: Vec<PlayerKilledEvent> = Vec::new();
    update_player_interactions(&mut player, &mut shots, &mut events);
    assert!(player.dead);
    assert_eq!(shots.len(), 1);
    assert_eq!(events.len(), 1);
}

#[test]
fn alien_projectile_falls_and_leaves_screen() {
    let res = test_res();
    let mut shots = vec![
        AlienProjectile { position: Vec2i { x: 0, y: -305_000 }, speed: 240 },
        AlienProjectile { position: Vec2i { x: 0, y: 0 }, speed: 240 },
    ];
    update_alien_projectiles(&mut shots, &res, 16);
    assert_eq!(shots.len(), 1);
    assert_eq!(shots[0].position.y, -3_840);
}

#[test]
fn lapsed_cooldown_makes_a_living_alien_shoot() {
    let mut cooldown = AlienProjectileCooldown::new();
    let mut aliens = vec![alien_at(40_000, 150_000), alien_at(60_000, 150_000)];
    aliens[1].dead = true;
    let mut shots: Vec<AlienProjectile> = Vec::new();
    let mut events: Vec<AlienShootEvent> = Vec::new();
    fire_projectile(&mut cooldown, &aliens, &mut shots, &mut events, 16);
    // the only living alien fired: the shot falls from its position
    assert_eq!(shots.len(), 1);
    assert_eq!(shots[0].position, Vec2i { x: 40_000, y: 150_000 });
    assert_eq!(shots[0].speed, 240);
    assert_eq!(events.len(), 1);
    assert_eq!(cooldown.shoot_timer, 1200);
    // the rearmed cooldown holds the next shot back
    fire_projectile(&mut cooldown, &aliens, &mut shots, &mut events, 16);
    assert_eq!(shots.len(), 1);
    assert_eq!(cooldown.shoot_timer, 1200 - 16);
}

#[test]
fn no_living_alien_means_no_shot() {
    let mut cooldown = AlienProjectileCooldown::new();
    let mut aliens = vec![alien_at(40_000, 150_000)];
    aliens[0].dead = true;
    let mut shots: Vec<AlienProjectile> = Vec::new();
    let mut events: Vec<AlienShootEvent> = Vec::new();
    fire_projectile(&mut cooldown, &aliens, &mut shots, &mut events, 16);
    assert!(shots.is_empty());
    assert!(events.is_empty());
    assert_eq!(cooldown.shoot_timer, -16);
}
