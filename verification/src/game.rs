//! The game as one explicit entity store plus an event queue, driven by an
//! ordered phase pipeline: movement and hazard detection, deferred shift and
//! reset application, collision detection, then event-driven spawning and
//! progression, with the events of the tick handed to external observers.

use vstd::prelude::*;

use crate::alien::{
    Alien, AlienManager, SpeedChangedEvent, alive_count, aliens_bounded, below_count,
    crossings, furthest_overshoot_index, lemma_alive_count_bounds, lemma_below_count_bounds,
    lemma_furthest_overshoot_index_props, lemma_moved_seq_bounded, manage_alien_logic,
    overshooting, speed_change_events, INITIAL_ALIEN_SPEED, RESET_COOLDOWN_MS,
    managed_alien, moved_seq, originals_bounded, player_killed, setup_wave, some_overshoot,
    update_aliens, ALIEN_LIMIT, ALIEN_SPEED_INCREMENT,
};
use crate::alien_projectile::{
    AlienProjectile, AlienProjectileCooldown, AlienShootEvent, PlayerKilledEvent,
    lemma_player_hit_count_nonneg, lemma_surviving_shots_ok, shots_ok, update_alien_projectiles,
    update_player_interactions, fire_projectile,
};
use crate::capsule::{
    Capsule, CapsuleCollisionEvent, CapsuleCounter, CapsuleReleasedEvent, capsules_ok,
    lemma_surviving_capsules_ok, spawn_capsules, update_capsule_interactions, update_capsules,
    MAX_CAPSULES,
};
use crate::fire::{
    Fire, FireManager, fires_ok, lemma_surviving_fires_ok, spawn_fire, update_fire,
    update_fire_interactions, MAX_FIRES,
};
use crate::geom::{
    Resolution, Vec2i, COORD_LIMIT, DT_LIMIT, PLAY_LIMIT, POS_LIMIT, SPEED_LIMIT, TIMER_LIMIT,
};
use crate::level_indicator::{LevelCompletedEvent, ScoreManager, update_level_complete,
    SCORE_LIMIT};
use crate::player::{
    Player, PlayerInput, PlayerShootEvent, capsule_collision, lemma_upgraded_guns_wf,
    reset_when_killed, update_player, LANE_LIMIT,
};
use crate::projectile::{
    AlienKilledEvent, Projectile, lemma_strike_events_len, lemma_surviving_projectiles_ok,
    projectiles_ok, update_alien_interactions, update_projectiles,
};

verus! {

/// The events one tick emits for external observers, cleared before the next
/// tick.
pub struct EventQueue {
    pub alien_killed: Vec<AlienKilledEvent>,
    pub player_killed: Vec<PlayerKilledEvent>,
    pub alien_shoot: Vec<AlienShootEvent>,
    pub player_shoot: Vec<PlayerShootEvent>,
    pub capsule_released: Vec<CapsuleReleasedEvent>,
    pub capsule_collision: Vec<CapsuleCollisionEvent>,
    pub level_completed: Vec<LevelCompletedEvent>,
    pub speed_changed: Vec<SpeedChangedEvent>,
}

/// The whole entity store and every manager singleton, passed explicitly
/// into each phase.
pub struct GameState {
    pub resolution: Resolution,
    pub aliens: Vec<Alien>,
    pub alien_manager: AlienManager,
    pub projectiles: Vec<Projectile>,
    pub alien_projectiles: Vec<AlienProjectile>,
    pub alien_cooldown: AlienProjectileCooldown,
    pub fires: Vec<Fire>,
    pub fire_manager: FireManager,
    pub capsules: Vec<Capsule>,
    pub capsule_counter: CapsuleCounter,
    pub player: Player,
    pub score: ScoreManager,
}

impl GameState {
    /// The structural invariants every tick preserves: a sane travel
    /// direction, the fire and capsule counters in step with their stores
    /// and under their caps, balanced guns, and a level counter under its
    /// high-water mark.
    pub open spec fn wf(self) -> bool {
        &&& self.resolution.wf()
        &&& self.alien_manager.wf()
        &&& self.fire_manager.num_fires == self.fires@.len()
        &&& self.fire_manager.num_fires <= MAX_FIRES
        &&& self.capsule_counter.num_capsules == self.capsules@.len()
        &&& self.capsule_counter.num_capsules <= MAX_CAPSULES
        &&& self.player.guns_wf()
        &&& self.score.wf()
    }

    /// The numeric headroom one tick needs: positions, speeds, timers,
    /// counters and store sizes within their bounds.
    pub open spec fn bounded(self) -> bool {
        &&& aliens_bounded(self.aliens@, POS_LIMIT as int)
        &&& originals_bounded(self.aliens@, POS_LIMIT as int)
        &&& self.aliens@.len() <= ALIEN_LIMIT
        &&& 0 <= self.alien_manager.speed <= SPEED_LIMIT
        &&& -PLAY_LIMIT <= self.alien_manager.dist_from_boundary <= PLAY_LIMIT
        &&& -TIMER_LIMIT <= self.alien_manager.reset_cooldown <= TIMER_LIMIT
        &&& projectiles_ok(self.projectiles@, POS_LIMIT as int)
        &&& shots_ok(self.alien_projectiles@, POS_LIMIT as int)
        &&& self.alien_projectiles@.len() <= ALIEN_LIMIT
        &&& -TIMER_LIMIT <= self.alien_cooldown.shoot_timer <= TIMER_LIMIT
        &&& fires_ok(self.fires@, POS_LIMIT as int)
        &&& capsules_ok(self.capsules@, POS_LIMIT as int)
        &&& -PLAY_LIMIT <= self.player.position.x <= PLAY_LIMIT
        &&& -PLAY_LIMIT <= self.player.position.y <= PLAY_LIMIT
        &&& -TIMER_LIMIT <= self.player.shoot_timer <= TIMER_LIMIT
        &&& self.score.curr_level <= SCORE_LIMIT
        &&& self.score.max_level <= SCORE_LIMIT
    }

    /// A fresh game on the given screen: the stock wave, the swarm state at
    /// its initial speed, an idle player, and empty hazard stores.
    pub fn new(res: &Resolution, mask: &Vec<Vec<u8>>) -> (s: GameState)
        requires
            res.wf(),
            mask@.len() <= crate::alien::MASK_LIMIT,
            forall|r: int| 0 <= r < mask@.len() ==> (#[trigger] mask@[r])@.len() == mask@[0]@.len(),
            mask@.len() > 0 ==> mask@[0]@.len() <= crate::alien::MASK_LIMIT,
        ensures
            s.wf(),
            s.resolution == *res,
            s.aliens@ == crate::alien::wave_aliens(
                crate::alien::mask_view(mask@),
                if mask@.len() == 0 {
                    0int
                } else {
                    mask@[0]@.len() as int
                },
            ),
            s.alien_manager == (AlienManager {
                direction: 1,
                shift_aliens_down: false,
                dist_from_boundary: 0,
                reset: false,
                speed: crate::alien::INITIAL_ALIEN_SPEED,
                prev_alien_count: 99,
                reset_cooldown: 0,
            }),
            s.projectiles@.len() == 0,
            s.alien_projectiles@.len() == 0,
            s.fires@.len() == 0,
            s.capsules@.len() == 0,
            s.alien_cooldown.shoot_timer == 0,
            s.player == (Player {
                position: Vec2i {
                    x: 0,
                    y: (-res.top_edge() + res.pixel_ratio * crate::geom::BOUNDARY_INSET) as i64,
                },
                shoot_timer: 0,
                dead: false,
                main_gun_projectiles: 1,
                side_gun_projectiles: 0,
            }),
            s.score == (ScoreManager { curr_level: 1, max_level: 1 }),
    {
        GameState {
            resolution: *res,
            aliens: setup_wave(mask),
            alien_manager: AlienManager::new(),
            projectiles: Vec::new(),
            alien_projectiles: Vec::new(),
            alien_cooldown: AlienProjectileCooldown::new(),
            fires: Vec::new(),
            fire_manager: FireManager::new(),
            capsules: Vec::new(),
            capsule_counter: CapsuleCounter::new(),
            player: Player::new(res),
            score: ScoreManager::new(),
        }
    }
}

/// The formation as it stands after the movement phase of one tick.
pub open spec fn moved_formation(s: GameState, dt: int) -> Seq<Alien> {
    moved_seq(s.aliens@, s.alien_manager.direction as int, s.alien_manager.speed as int, dt)
}

/// Whether this tick applies a boundary shift: one was already pending, or
/// the movement phase detects an overshoot.
pub open spec fn tick_shift(s: GameState, dt: int) -> bool {
    s.alien_manager.shift_aliens_down || some_overshoot(moved_formation(s, dt), s.resolution.margin())
}

/// Whether this tick applies a wave reset: one was already pending, the
/// formation reaches the player's zone, or it stands wiped out.
pub open spec fn tick_reset(s: GameState, dt: int) -> bool {
    s.alien_manager.reset || below_count(moved_formation(s, dt), s.resolution.lower_bound()) > 0
        || alive_count(moved_formation(s, dt)) == 0
}

/// The boundary correction this tick applies: freshly recorded from the
/// alien furthest past the boundary in the travel direction, or left over
/// from before.
pub open spec fn tick_dist(s: GameState, dt: int) -> int {
    if some_overshoot(moved_formation(s, dt), s.resolution.margin()) {
        s.resolution.margin() * s.alien_manager.direction - moved_formation(
            s,
            dt,
        )[furthest_overshoot_index(
            moved_formation(s, dt),
            s.resolution.margin(),
            s.alien_manager.direction as int,
        )].position.x
    } else {
        s.alien_manager.dist_from_boundary as int
    }
}

/// Where the player stands after the movement phase.
pub open spec fn tick_player_position(s: GameState, input: PlayerInput, dt: int) -> Vec2i {
    Vec2i {
        x: crate::player::player_moved_x(s.player, input, s.resolution, dt) as i64,
        y: s.player.position.y,
    }
}

/// Whether the player fires this tick: the trigger is held and the cooldown
/// has lapsed.
pub open spec fn tick_shooting(s: GameState, input: PlayerInput, dt: int) -> bool {
    input.fire && s.player.shoot_timer - dt <= 0
}

/// The player projectiles after the movement phase: the survivors of the
/// upward move, then the tick's main and side volleys.
pub open spec fn tick_projectiles_moved(s: GameState, input: PlayerInput, dt: int) -> Seq<
    Projectile,
> {
    let moved = crate::projectile::surviving_projectiles(
        s.projectiles@,
        dt,
        s.resolution.top_edge(),
    );
    if tick_shooting(s, input, dt) {
        moved + crate::player::one_missile_seq(
            tick_player_position(s, input, dt),
            s.player.main_gun_projectiles as int,
        ) + crate::player::two_missile_seq(
            tick_player_position(s, input, dt),
            s.player.side_gun_projectiles as int,
        )
    } else {
        moved
    }
}

/// The formation after movement and the deferred shift or reset.
pub open spec fn tick_managed(s: GameState, dt: int) -> Seq<Alien> {
    moved_formation(s, dt).map_values(
        |a: Alien| managed_alien(a, tick_reset(s, dt), tick_shift(s, dt), tick_dist(s, dt)),
    )
}

/// The fires still burning after the movement phase.
pub open spec fn tick_fires_burning(s: GameState, dt: int) -> Seq<Fire> {
    crate::fire::surviving_fires(s.fires@, dt)
}

/// The formation after the projectile strike.
pub open spec fn tick_struck_once(s: GameState, input: PlayerInput, dt: int) -> Seq<Alien> {
    tick_managed(s, dt).map_values(
        |a: Alien|
            crate::projectile::struck_alien(
                a,
                crate::projectile::proj_positions(tick_projectiles_moved(s, input, dt)),
                crate::projectile::BULLET_RADIUS as int,
            ),
    )
}

/// The formation at the end of the tick: the fire strike applied after the
/// projectile strike.
pub open spec fn tick_aliens_after(s: GameState, input: PlayerInput, dt: int) -> Seq<Alien> {
    tick_struck_once(s, input, dt).map_values(
        |a: Alien|
            crate::projectile::struck_alien(
                a,
                crate::fire::fire_positions(tick_fires_burning(s, dt)),
                crate::fire::FIRE_RADIUS as int,
            ),
    )
}

/// The alien-killed events of the tick: the projectile strike's, then the
/// fire strike's.
pub open spec fn tick_kill_events(s: GameState, input: PlayerInput, dt: int) -> Seq<
    AlienKilledEvent,
> {
    crate::projectile::strike_events(
        tick_managed(s, dt),
        crate::projectile::proj_positions(tick_projectiles_moved(s, input, dt)),
        crate::projectile::BULLET_RADIUS as int,
    ) + crate::projectile::strike_events(
        tick_struck_once(s, input, dt),
        crate::fire::fire_positions(tick_fires_burning(s, dt)),
        crate::fire::FIRE_RADIUS as int,
    )
}

/// The capsules after falling and despawning.
pub open spec fn tick_capsules_fallen(s: GameState, dt: int) -> Seq<Capsule> {
    crate::capsule::surviving_capsules(s.capsules@, dt, s.resolution.top_edge())
}

/// The capsules that survive the pickup pass.
pub open spec fn tick_capsules_kept(s: GameState, input: PlayerInput, dt: int) -> Seq<Capsule> {
    crate::capsule::remaining_capsules(
        tick_capsules_fallen(s, dt),
        tick_player_position(s, input, dt),
        crate::capsule::CAPSULE_RADIUS as int,
    )
}

/// How many capsules the player picks up this tick.
pub open spec fn tick_pickups(s: GameState, input: PlayerInput, dt: int) -> int {
    tick_capsules_fallen(s, dt).len() - tick_capsules_kept(s, input, dt).len()
}

/// The enemy projectiles after falling and despawning.
pub open spec fn tick_shots_moved(s: GameState, dt: int) -> Seq<AlienProjectile> {
    crate::alien_projectile::surviving_shots(s.alien_projectiles@, dt, s.resolution.top_edge())
}

/// How many enemy projectiles reach the player this tick.
pub open spec fn tick_player_hits(s: GameState, input: PlayerInput, dt: int) -> int {
    crate::alien_projectile::player_hit_count(
        tick_shots_moved(s, dt),
        tick_player_position(s, input, dt),
        crate::alien_projectile::BULLET_RADIUS as int,
    )
}

/// How many player-killed events the tick emits: one per living alien in the
/// player's zone and one per projectile that reaches the player.
pub open spec fn tick_player_deaths(s: GameState, input: PlayerInput, dt: int) -> int {
    below_count(moved_formation(s, dt), s.resolution.lower_bound()) + tick_player_hits(
        s,
        input,
        dt,
    )
}

/// Whether a wipe of the formation announces a completed level this tick:
/// no alien is left alive and the wipe cooldown has lapsed.
pub open spec fn tick_wipe_completion(s: GameState, dt: int) -> int {
    if alive_count(moved_formation(s, dt)) == 0 && s.alien_manager.reset_cooldown - dt < 0 {
        1int
    } else {
        0int
    }
}

/// Whether an alien fires this tick: the enemy cooldown has lapsed and a
/// living alien remains after the strikes.
pub open spec fn tick_alien_shoots(s: GameState, input: PlayerInput, dt: int) -> bool {
    s.alien_cooldown.shoot_timer - dt <= 0 && alive_count(tick_aliens_after(s, input, dt)) > 0
}

/// How many level-completed events the tick emits: the wipe announcement,
/// one per pickup, one per player death.
pub open spec fn tick_level_completions(s: GameState, input: PlayerInput, dt: int) -> int {
    tick_wipe_completion(s, dt) + tick_pickups(s, input, dt) + tick_player_deaths(s, input, dt)
}

/// What the alien pipeline of one tick does, stated over the spec-level
/// stages: lengths and bounds are kept, the kill passes leave positions,
/// kinds and spawn positions alone, deaths persist within a wave, and a
/// fresh boundary correction lands the furthest overshooter exactly on the
/// margin with every other overshooter at or inside it.
#[verifier::rlimit(100)]
pub proof fn lemma_tick_formation(s: GameState, input: PlayerInput, dt: int)
    requires
        s.wf(),
        s.bounded(),
        0 <= dt <= DT_LIMIT,
    ensures
        tick_managed(s, dt).len() == s.aliens@.len(),
        tick_struck_once(s, input, dt).len() == s.aliens@.len(),
        tick_aliens_after(s, input, dt).len() == s.aliens@.len(),
        -PLAY_LIMIT <= tick_dist(s, dt) <= PLAY_LIMIT,
        aliens_bounded(tick_managed(s, dt), 2 * PLAY_LIMIT as int),
        aliens_bounded(tick_managed(s, dt), COORD_LIMIT as int),
        aliens_bounded(tick_struck_once(s, input, dt), COORD_LIMIT as int),
        aliens_bounded(tick_aliens_after(s, input, dt), 2 * PLAY_LIMIT as int),
        originals_bounded(tick_aliens_after(s, input, dt), POS_LIMIT as int),
        forall|k: int|
            0 <= k < s.aliens@.len() ==> {
                let after = managed_alien(
                    moved_formation(s, dt)[k],
                    tick_reset(s, dt),
                    tick_shift(s, dt),
                    tick_dist(s, dt),
                );
                &&& (#[trigger] tick_aliens_after(s, input, dt)[k]).position == after.position
                &&& tick_aliens_after(s, input, dt)[k].original_position
                    == s.aliens@[k].original_position
                &&& tick_aliens_after(s, input, dt)[k].alien_type == s.aliens@[k].alien_type
            },
        !tick_reset(s, dt) ==> forall|k: int|
            0 <= k < s.aliens@.len() && s.aliens@[k].dead ==> (#[trigger] tick_aliens_after(
                s,
                input,
                dt,
            )[k]).dead,
        !tick_reset(s, dt) && some_overshoot(moved_formation(s, dt), s.resolution.margin()) ==> {
            let f = furthest_overshoot_index(
                moved_formation(s, dt),
                s.resolution.margin(),
                s.alien_manager.direction as int,
            );
            &&& 0 <= f < s.aliens@.len()
            &&& tick_aliens_after(s, input, dt)[f].position.x == s.resolution.margin()
                * s.alien_manager.direction
        },
        !tick_reset(s, dt) && some_overshoot(moved_formation(s, dt), s.resolution.margin())
            ==> forall|k: int|
            0 <= k < s.aliens@.len() && overshooting(
                moved_formation(s, dt)[k],
                s.resolution.margin(),
            ) ==> s.alien_manager.direction * (#[trigger] tick_aliens_after(
                s,
                input,
                dt,
            )[k]).position.x <= s.resolution.margin(),
{
    let margin = s.resolution.margin();
    let d = s.alien_manager.direction as int;
    let m = moved_formation(s, dt);
    let shift = tick_shift(s, dt);
    let reset = tick_reset(s, dt);
    let dist = tick_dist(s, dt);
    lemma_moved_seq_bounded(
        s.aliens@,
        d,
        s.alien_manager.speed as int,
        dt,
        POS_LIMIT as int,
    );
    lemma_furthest_overshoot_index_props(m, margin, d);
    assert(margin * d == (if d == 1 {
        margin
    } else {
        -margin
    })) by (nonlinear_arith)
        requires
            d == 1 || d == -1,
    ;
    let f = furthest_overshoot_index(m, margin, d);
    assert forall|k: int| 0 <= k < s.aliens@.len() implies {
        let after = managed_alien(m[k], reset, shift, dist);
        let end = #[trigger] tick_aliens_after(s, input, dt)[k];
        &&& end.position == after.position
        &&& end.original_position == s.aliens@[k].original_position
        &&& end.alien_type == s.aliens@[k].alien_type
        &&& -2 * PLAY_LIMIT <= end.position.x <= 2 * PLAY_LIMIT
        &&& -2 * PLAY_LIMIT <= end.position.y <= 2 * PLAY_LIMIT
        &&& (!reset && s.aliens@[k].dead ==> end.dead)
        &&& (!reset && some_overshoot(m, margin) && overshooting(m[k], margin) ==> d
            * end.position.x <= margin)
        &&& (!reset && some_overshoot(m, margin) && k == f ==> end.position.x == margin * d)
    } by {
        assert(tick_managed(s, dt)[k] == managed_alien(m[k], reset, shift, dist));
        assert(tick_struck_once(s, input, dt)[k] == crate::projectile::struck_alien(
            tick_managed(s, dt)[k],
            crate::projectile::proj_positions(tick_projectiles_moved(s, input, dt)),
            crate::projectile::BULLET_RADIUS as int,
        ));
        assert(tick_aliens_after(s, input, dt)[k] == crate::projectile::struck_alien(
            tick_struck_once(s, input, dt)[k],
            crate::fire::fire_positions(tick_fires_burning(s, dt)),
            crate::fire::FIRE_RADIUS as int,
        ));
        assert(m[k].original_position == s.aliens@[k].original_position);
        if !reset && some_overshoot(m, margin) {
            assert(shift);
            if overshooting(m[k], margin) {
                assert(d * m[k].position.x <= d * m[f].position.x);
                assert(d * (m[k].position.x + dist) <= margin && (k == f ==> m[k].position.x
                    + dist == margin * d)) by (nonlinear_arith)
                    requires
                        d == 1 || d == -1,
                        dist == margin * d - m[f].position.x,
                        d * m[k].position.x <= d * m[f].position.x,
                        k == f ==> m[k].position.x == m[f].position.x,
                ;
            }
            if k == f {
                assert(m[k].position.x + dist == margin * d) by (nonlinear_arith)
                    requires
                        d == 1 || d == -1,
                        dist == margin * d - m[f].position.x,
                        m[k].position.x == m[f].position.x,
                ;
            }
        }
    }
    assert(aliens_bounded(tick_managed(s, dt), 2 * PLAY_LIMIT as int)) by {
        assert forall|k: int| 0 <= k < tick_managed(s, dt).len() implies {
            let p = (#[trigger] tick_managed(s, dt)[k]).position;
            -2 * PLAY_LIMIT <= p.x <= 2 * PLAY_LIMIT && -2 * PLAY_LIMIT <= p.y <= 2 * PLAY_LIMIT
        } by {
            assert(tick_managed(s, dt)[k] == managed_alien(m[k], reset, shift, dist));
        }
    }
    assert(aliens_bounded(tick_struck_once(s, input, dt), COORD_LIMIT as int)) by {
        assert forall|k: int| 0 <= k < tick_struck_once(s, input, dt).len() implies {
            let p = (#[trigger] tick_struck_once(s, input, dt)[k]).position;
            -COORD_LIMIT <= p.x <= COORD_LIMIT && -COORD_LIMIT <= p.y <= COORD_LIMIT
        } by {
            assert(tick_managed(s, dt)[k] == managed_alien(m[k], reset, shift, dist));
            assert(tick_struck_once(s, input, dt)[k] == crate::projectile::struck_alien(
                tick_managed(s, dt)[k],
                crate::projectile::proj_positions(tick_projectiles_moved(s, input, dt)),
                crate::projectile::BULLET_RADIUS as int,
            ));
        }
    }
}

/// Bounds on what one tick leaves in the entity stores, stated over the
/// spec-level stages: survivors stay within one tick of travel of the old
/// bound, every kill event is located at an alien's position, and everything
/// spawned stands at such a location.
pub proof fn lemma_tick_stores(s: GameState, input: PlayerInput, dt: int)
    requires
        s.wf(),
        s.bounded(),
        0 <= dt <= DT_LIMIT,
    ensures
        projectiles_ok(tick_projectiles_moved(s, input, dt), 2 * PLAY_LIMIT as int),
        projectiles_ok(
            crate::projectile::retained_projectiles(
                tick_projectiles_moved(s, input, dt),
                tick_managed(s, dt),
                crate::projectile::BULLET_RADIUS as int,
            ),
            2 * PLAY_LIMIT as int,
        ),
        forall|j: int|
            0 <= j < tick_kill_events(s, input, dt).len() ==> {
                let p = (#[trigger] tick_kill_events(s, input, dt)[j]).location;
                -2 * PLAY_LIMIT <= p.x <= 2 * PLAY_LIMIT && -2 * PLAY_LIMIT <= p.y <= 2
                    * PLAY_LIMIT
            },
        fires_ok(
            crate::fire::spawned_fires(
                tick_fires_burning(s, dt),
                tick_fires_burning(s, dt).len() as int,
                tick_kill_events(s, input, dt),
            ),
            2 * PLAY_LIMIT as int,
        ),
        capsules_ok(tick_capsules_kept(s, input, dt), 2 * PLAY_LIMIT as int),
        shots_ok(
            crate::alien_projectile::missing_shots(
                tick_shots_moved(s, dt),
                tick_player_position(s, input, dt),
                crate::alien_projectile::BULLET_RADIUS as int,
            ),
            2 * PLAY_LIMIT as int,
        ),
{
    lemma_tick_formation(s, input, dt);
    let top = s.resolution.top_edge();
    let kills = tick_kill_events(s, input, dt);
    crate::projectile::lemma_surviving_projectiles_ok(s.projectiles@, dt, top, POS_LIMIT as int);
    crate::player::lemma_missile_seq_ok(
        tick_player_position(s, input, dt),
        s.player.main_gun_projectiles as int,
        PLAY_LIMIT as int,
    );
    crate::player::lemma_missile_seq_ok(
        tick_player_position(s, input, dt),
        s.player.side_gun_projectiles as int,
        PLAY_LIMIT as int,
    );
    assert(projectiles_ok(tick_projectiles_moved(s, input, dt), 2 * PLAY_LIMIT as int));
    crate::projectile::lemma_retained_projectiles_ok(
        tick_projectiles_moved(s, input, dt),
        tick_managed(s, dt),
        crate::projectile::BULLET_RADIUS as int,
        2 * PLAY_LIMIT as int,
    );
    crate::projectile::lemma_strike_events_located(
        tick_managed(s, dt),
        crate::projectile::proj_positions(tick_projectiles_moved(s, input, dt)),
        crate::projectile::BULLET_RADIUS as int,
        2 * PLAY_LIMIT as int,
    );
    crate::projectile::lemma_strike_events_located(
        tick_struck_once(s, input, dt),
        crate::fire::fire_positions(tick_fires_burning(s, dt)),
        crate::fire::FIRE_RADIUS as int,
        2 * PLAY_LIMIT as int,
    );
    assert(aliens_bounded(tick_struck_once(s, input, dt), 2 * PLAY_LIMIT as int)) by {
        assert forall|k: int| 0 <= k < tick_struck_once(s, input, dt).len() implies {
            let p = (#[trigger] tick_struck_once(s, input, dt)[k]).position;
            -2 * PLAY_LIMIT <= p.x <= 2 * PLAY_LIMIT && -2 * PLAY_LIMIT <= p.y <= 2 * PLAY_LIMIT
        } by {
            assert(tick_struck_once(s, input, dt)[k] == crate::projectile::struck_alien(
                tick_managed(s, dt)[k],
                crate::projectile::proj_positions(tick_projectiles_moved(s, input, dt)),
                crate::projectile::BULLET_RADIUS as int,
            ));
        }
    }
    crate::fire::lemma_surviving_fires_ok(s.fires@, dt, POS_LIMIT as int);
    crate::fire::lemma_spawned_fires_shape(
        tick_fires_burning(s, dt),
        tick_fires_burning(s, dt).len() as int,
        kills,
    );
    let spawned = crate::fire::spawned_fires(
        tick_fires_burning(s, dt),
        tick_fires_burning(s, dt).len() as int,
        kills,
    );
    assert forall|k: int| 0 <= k < spawned.len() implies {
        let f = #[trigger] spawned[k];
        -2 * PLAY_LIMIT <= f.position.x <= 2 * PLAY_LIMIT && -2 * PLAY_LIMIT <= f.position.y <= 2
            * PLAY_LIMIT && -TIMER_LIMIT <= f.time_remaining <= TIMER_LIMIT
    } by {
        if k < tick_fires_burning(s, dt).len() {
            assert(spawned[k] == tick_fires_burning(s, dt)[k]);
        } else {
            assert(crate::fire::fresh_fire_at(spawned[k], kills));
            let j = choose|j: int|
                0 <= j < kills.len() && spawned[k] == (Fire {
                    position: (#[trigger] kills[j]).location,
                    time_remaining: crate::fire::FIRE_LIFESPAN_MS,
                });
            let first = crate::projectile::strike_events(
                tick_managed(s, dt),
                crate::projectile::proj_positions(tick_projectiles_moved(s, input, dt)),
                crate::projectile::BULLET_RADIUS as int,
            );
            let second = crate::projectile::strike_events(
                tick_struck_once(s, input, dt),
                crate::fire::fire_positions(tick_fires_burning(s, dt)),
                crate::fire::FIRE_RADIUS as int,
            );
            if j < first.len() {
                assert(kills[j] == first[j]);
            } else {
                assert(kills[j] == second[j - first.len()]);
            }
            assert(spawned[k].position == kills[j].location);
        }
    }
    crate::capsule::lemma_surviving_capsules_ok(s.capsules@, dt, top, POS_LIMIT as int);
    crate::capsule::lemma_remaining_capsules_ok(
        tick_capsules_fallen(s, dt),
        tick_player_position(s, input, dt),
        crate::capsule::CAPSULE_RADIUS as int,
        POS_LIMIT as int + SPEED_LIMIT as int * DT_LIMIT as int,
    );
    crate::alien_projectile::lemma_surviving_shots_ok(
        s.alien_projectiles@,
        dt,
        top,
        POS_LIMIT as int,
    );
    crate::alien_projectile::lemma_missing_shots_ok(
        tick_shots_moved(s, dt),
        tick_player_position(s, input, dt),
        crate::alien_projectile::BULLET_RADIUS as int,
        POS_LIMIT as int + SPEED_LIMIT as int * DT_LIMIT as int,
    );
}

/// One tick of the pipeline, in the required order: (one) movement and
/// hazard detection, (two) deferred shift or reset application, (three)
/// collision detection, (four) event-driven spawning and progression, and
/// the collected events of the tick handed back for external observers.
///
/// The contract states the composition over the spec-level stages
/// (`tick_managed`, `tick_aliens_after`, `tick_kill_events`, ...): the
/// structural invariants hold again; every store and manager ends exactly
/// where the stages put it, up to the two draws of chance (which capsules
/// spawned, which alien fired), of which everything stable is stated; each
/// event channel carries exactly the tick's occurrences; the travel
/// direction flips exactly on a shift, stays on a quiet tick, and points
/// right again on a reset; a fresh boundary correction lands the furthest
/// overshooter exactly on the margin and every other overshooter at or
/// inside it; and the post-state stays within one tick of drift of the
/// entry bounds.
#[verifier::rlimit(100)]
pub fn tick(state: &mut GameState, input: &PlayerInput, dt: i64) -> (events: EventQueue)
    requires
        old(state).wf(),
        old(state).bounded(),
        0 <= dt <= DT_LIMIT,
    ensures
        final(state).wf(),
        final(state).resolution == old(state).resolution,
        final(state).aliens@.len() == old(state).aliens@.len(),
        forall|k: int|
            0 <= k < old(state).aliens@.len() ==> {
                let after = managed_alien(
                    moved_formation(*old(state), dt as int)[k],
                    tick_reset(*old(state), dt as int),
                    tick_shift(*old(state), dt as int),
                    tick_dist(*old(state), dt as int),
                );
                &&& (#[trigger] final(state).aliens@[k]).position == after.position
                &&& final(state).aliens@[k].original_position == old(
                    state,
                ).aliens@[k].original_position
                &&& final(state).aliens@[k].alien_type == old(state).aliens@[k].alien_type
            },
        final(state).alien_manager.direction as int == (if tick_reset(*old(state), dt as int) {
            1int
        } else if tick_shift(*old(state), dt as int) {
            -(old(state).alien_manager.direction as int)
        } else {
            old(state).alien_manager.direction as int
        }),
        !tick_shift(*old(state), dt as int) && !tick_reset(*old(state), dt as int)
            ==> final(state).alien_manager.direction == old(state).alien_manager.direction,
        !tick_reset(*old(state), dt as int) ==> forall|k: int|
            0 <= k < old(state).aliens@.len() && old(state).aliens@[k].dead
                ==> (#[trigger] final(state).aliens@[k]).dead,
        !tick_reset(*old(state), dt as int) && some_overshoot(
            moved_formation(*old(state), dt as int),
            old(state).resolution.margin(),
        ) ==> {
            let k = furthest_overshoot_index(
                moved_formation(*old(state), dt as int),
                old(state).resolution.margin(),
                old(state).alien_manager.direction as int,
            );
            &&& 0 <= k < final(state).aliens@.len()
            &&& final(state).aliens@[k].position.x == old(state).resolution.margin() * old(
                state,
            ).alien_manager.direction
        },
        !tick_reset(*old(state), dt as int) && some_overshoot(
            moved_formation(*old(state), dt as int),
            old(state).resolution.margin(),
        ) ==> forall|k: int|
            0 <= k < old(state).aliens@.len() && overshooting(
                moved_formation(*old(state), dt as int)[k],
                old(state).resolution.margin(),
            ) ==> old(state).alien_manager.direction
                * (#[trigger] final(state).aliens@[k]).position.x <= old(
                state,
            ).resolution.margin(),
        final(state).aliens@ == tick_aliens_after(*old(state), *input, dt as int),
        final(state).alien_manager.shift_aliens_down == false,
        final(state).alien_manager.reset == (tick_player_deaths(*old(state), *input, dt as int)
            > 0),
        final(state).alien_manager.speed == (if tick_player_deaths(*old(state), *input, dt as int)
            > 0 {
            INITIAL_ALIEN_SPEED as int
        } else {
            old(state).alien_manager.speed + ALIEN_SPEED_INCREMENT * crossings(
                old(state).alien_manager.prev_alien_count as int,
                alive_count(moved_formation(*old(state), dt as int)),
            )
        }),
        final(state).alien_manager.prev_alien_count == alive_count(
            moved_formation(*old(state), dt as int),
        ),
        final(state).alien_manager.dist_from_boundary == tick_dist(*old(state), dt as int),
        final(state).alien_manager.reset_cooldown == (if alive_count(
            moved_formation(*old(state), dt as int),
        ) == 0 && old(state).alien_manager.reset_cooldown - dt < 0 {
            RESET_COOLDOWN_MS as int
        } else {
            old(state).alien_manager.reset_cooldown - dt
        }),
        final(state).player.position == tick_player_position(*old(state), *input, dt as int),
        final(state).player.dead == (old(state).player.dead || tick_player_hits(
            *old(state),
            *input,
            dt as int,
        ) > 0),
        final(state).player.shoot_timer == (if tick_shooting(*old(state), *input, dt as int) {
            crate::player::SHOOT_COOLDOWN as int
        } else {
            old(state).player.shoot_timer - dt
        }),
        tick_player_deaths(*old(state), *input, dt as int) > 0 ==> final(state).player.main_gun_projectiles == 1 && final(state).player.side_gun_projectiles == 0,
        tick_player_deaths(*old(state), *input, dt as int) == 0 ==> final(state).player.main_gun_projectiles == crate::player::upgraded_guns_n(
            old(state).player.main_gun_projectiles as int,
            old(state).player.side_gun_projectiles as int,
            tick_pickups(*old(state), *input, dt as int),
        ).0 && final(state).player.side_gun_projectiles == crate::player::upgraded_guns_n(
            old(state).player.main_gun_projectiles as int,
            old(state).player.side_gun_projectiles as int,
            tick_pickups(*old(state), *input, dt as int),
        ).1,
        final(state).score.curr_level == (if tick_player_deaths(*old(state), *input, dt as int)
            > 0 {
            0int
        } else {
            old(state).score.curr_level as int
        }) + tick_level_completions(*old(state), *input, dt as int),
        final(state).score.max_level == ({
            let base = if tick_player_deaths(*old(state), *input, dt as int) > 0 {
                0int
            } else {
                old(state).score.curr_level as int
            };
            let n = tick_level_completions(*old(state), *input, dt as int);
            if n > 0 && base + n > old(state).score.max_level {
                base + n
            } else {
                old(state).score.max_level as int
            }
        }),
        final(state).alien_cooldown.shoot_timer == (if tick_alien_shoots(
            *old(state),
            *input,
            dt as int,
        ) {
            crate::alien_projectile::SHOOT_COOLDOWN as int
        } else {
            old(state).alien_cooldown.shoot_timer - dt
        }),
        events.alien_killed@ == tick_kill_events(*old(state), *input, dt as int),
        events.player_killed@.len() == tick_player_deaths(*old(state), *input, dt as int),
        events.alien_shoot@.len() == (if tick_alien_shoots(*old(state), *input, dt as int) {
            1int
        } else {
            0int
        }),
        events.player_shoot@.len() == (if tick_shooting(*old(state), *input, dt as int) {
            1int
        } else {
            0int
        }),
        events.capsule_collision@.len() == tick_pickups(*old(state), *input, dt as int),
        events.capsule_released@.len() == final(state).capsules@.len() - tick_capsules_kept(
            *old(state),
            *input,
            dt as int,
        ).len(),
        events.level_completed@.len() == tick_level_completions(*old(state), *input, dt as int),
        events.speed_changed@ == speed_change_events(
            old(state).alien_manager.speed as int,
            old(state).alien_manager.prev_alien_count as int,
            alive_count(moved_formation(*old(state), dt as int)),
        ) + Seq::new(
            tick_player_deaths(*old(state), *input, dt as int) as nat,
            |k: int| SpeedChangedEvent { speed: INITIAL_ALIEN_SPEED },
        ),
        final(state).projectiles@ == crate::projectile::retained_projectiles(
            tick_projectiles_moved(*old(state), *input, dt as int),
            tick_managed(*old(state), dt as int),
            crate::projectile::BULLET_RADIUS as int,
        ),
        final(state).fires@ == crate::fire::spawned_fires(
            tick_fires_burning(*old(state), dt as int),
            tick_fires_burning(*old(state), dt as int).len() as int,
            tick_kill_events(*old(state), *input, dt as int),
        ),
        forall|k: int|
            0 <= k < tick_capsules_kept(*old(state), *input, dt as int).len()
                ==> (#[trigger] final(state).capsules@[k]) == tick_capsules_kept(
                *old(state),
                *input,
                dt as int,
            )[k],
        forall|k: int|
            tick_capsules_kept(*old(state), *input, dt as int).len() <= k
                < final(state).capsules@.len() ==> crate::capsule::fresh_capsule_at(
                #[trigger] final(state).capsules@[k],
                tick_kill_events(*old(state), *input, dt as int),
            ),
        !tick_alien_shoots(*old(state), *input, dt as int) ==> final(state).alien_projectiles@
            == crate::alien_projectile::missing_shots(
            tick_shots_moved(*old(state), dt as int),
            tick_player_position(*old(state), *input, dt as int),
            crate::alien_projectile::BULLET_RADIUS as int,
        ),
        tick_alien_shoots(*old(state), *input, dt as int) ==> exists|i: int|
            0 <= i < tick_aliens_after(*old(state), *input, dt as int).len() && !(#[trigger] tick_aliens_after(
                *old(state),
                *input,
                dt as int,
            )[i]).dead && final(state).alien_projectiles@
                == crate::alien_projectile::missing_shots(
                tick_shots_moved(*old(state), dt as int),
                tick_player_position(*old(state), *input, dt as int),
                crate::alien_projectile::BULLET_RADIUS as int,
            ).push(
                AlienProjectile {
                    position: tick_aliens_after(*old(state), *input, dt as int)[i].position,
                    speed: crate::alien_projectile::BULLET_SPEED,
                },
            ),
        aliens_bounded(final(state).aliens@, 2 * PLAY_LIMIT as int),
        originals_bounded(final(state).aliens@, POS_LIMIT as int),
        projectiles_ok(final(state).projectiles@, 2 * PLAY_LIMIT as int),
        shots_ok(final(state).alien_projectiles@, 2 * PLAY_LIMIT as int),
        fires_ok(final(state).fires@, 2 * PLAY_LIMIT as int),
        capsules_ok(final(state).capsules@, 2 * PLAY_LIMIT as int),
        -PLAY_LIMIT <= final(state).player.position.x <= PLAY_LIMIT,
        -PLAY_LIMIT <= final(state).player.position.y <= PLAY_LIMIT,
        -PLAY_LIMIT <= final(state).alien_manager.dist_from_boundary <= PLAY_LIMIT,
        -TIMER_LIMIT - DT_LIMIT <= final(state).alien_manager.reset_cooldown <= TIMER_LIMIT,
        -TIMER_LIMIT - DT_LIMIT <= final(state).player.shoot_timer <= TIMER_LIMIT,
        -TIMER_LIMIT - DT_LIMIT <= final(state).alien_cooldown.shoot_timer <= TIMER_LIMIT,
{
    let ghost s0 = *old(state);
    let ghost m = moved_formation(s0, dt as int);
    let res = state.resolution;

    let mut alien_killed: Vec<AlienKilledEvent> = Vec::new();
    let mut player_killed_ev: Vec<PlayerKilledEvent> = Vec::new();
    let mut alien_shoot: Vec<AlienShootEvent> = Vec::new();
    let mut player_shoot: Vec<PlayerShootEvent> = Vec::new();
    let mut capsule_released: Vec<CapsuleReleasedEvent> = Vec::new();
    let mut capsule_collision_ev: Vec<CapsuleCollisionEvent> = Vec::new();
    let mut level_completed: Vec<LevelCompletedEvent> = Vec::new();
    let mut speed_changed: Vec<SpeedChangedEvent> = Vec::new();

    // phase one: movement and hazard detection
    update_projectiles(&mut state.projectiles, &res, dt);
    update_alien_projectiles(&mut state.alien_projectiles, &res, dt);
    update_capsules(&mut state.capsules, &mut state.capsule_counter, &res, dt);
    update_fire(&mut state.fires, &mut state.fire_manager, dt);
    update_aliens(
        &mut state.aliens,
        &mut state.alien_manager,
        &res,
        dt,
        &mut player_killed_ev,
        &mut level_completed,
        &mut speed_changed,
    );
    update_player(&mut state.player, &mut state.projectiles, input, &res, dt, &mut player_shoot);
    proof {
        lemma_surviving_projectiles_ok(
            s0.projectiles@,
            dt as int,
            res.top_edge(),
            POS_LIMIT as int,
        );
        lemma_surviving_shots_ok(
            s0.alien_projectiles@,
            dt as int,
            res.top_edge(),
            POS_LIMIT as int,
        );
        lemma_surviving_capsules_ok(s0.capsules@, dt as int, res.top_edge(), POS_LIMIT as int);
        lemma_surviving_fires_ok(s0.fires@, dt as int, POS_LIMIT as int);
        lemma_moved_seq_bounded(
            s0.aliens@,
            s0.alien_manager.direction as int,
            s0.alien_manager.speed as int,
            dt as int,
            POS_LIMIT as int,
        );
        lemma_alive_count_bounds(m);
        lemma_below_count_bounds(m, res.lower_bound());
        lemma_furthest_overshoot_index_props(m, res.margin(), s0.alien_manager.direction as int);
        assert(-crate::geom::SCREEN_LIMIT <= res.margin() * s0.alien_manager.direction
            <= crate::geom::SCREEN_LIMIT) by (nonlinear_arith)
            requires
                s0.alien_manager.direction == 1 || s0.alien_manager.direction == -1,
                -crate::geom::SCREEN_LIMIT <= res.margin() <= crate::geom::SCREEN_LIMIT,
        ;
        assert(-PLAY_LIMIT <= state.alien_manager.dist_from_boundary <= PLAY_LIMIT);
        crate::player::lemma_missile_seq_ok(
            state.player.position,
            s0.player.main_gun_projectiles as int,
            PLAY_LIMIT as int,
        );
        crate::player::lemma_missile_seq_ok(
            state.player.position,
            s0.player.side_gun_projectiles as int,
            PLAY_LIMIT as int,
        );
        assert(projectiles_ok(state.projectiles@, COORD_LIMIT as int));
        assert(state.player.position == tick_player_position(s0, *input, dt as int));
        assert(state.projectiles@ =~= tick_projectiles_moved(s0, *input, dt as int));
        assert(state.alien_projectiles@ =~= tick_shots_moved(s0, dt as int));
        assert(state.capsules@ =~= tick_capsules_fallen(s0, dt as int));
        assert(state.fires@ =~= tick_fires_burning(s0, dt as int));
        assert(state.fire_manager.num_fires == tick_fires_burning(s0, dt as int).len());
        lemma_tick_formation(s0, *input, dt as int);
        lemma_tick_stores(s0, *input, dt as int);
        assert(-PLAY_LIMIT <= state.player.position.x <= PLAY_LIMIT);
    }

    // phase two: deferred state application
    let ghost shift2 = state.alien_manager.shift_aliens_down;
    let ghost reset2 = state.alien_manager.reset;
    let ghost dist2 = state.alien_manager.dist_from_boundary as int;
    manage_alien_logic(&mut state.aliens, &mut state.alien_manager);
    proof {
        assert(shift2 == tick_shift(s0, dt as int));
        assert(reset2 == tick_reset(s0, dt as int));
        assert(dist2 == tick_dist(s0, dt as int));
        assert(state.aliens@ =~= tick_managed(s0, dt as int));
    }
    let ghost managed = state.aliens@;

    // phase three: collision detection
    let ghost projs3 = state.projectiles@;
    update_alien_interactions(&mut state.aliens, &mut state.projectiles, &mut alien_killed);
    let ghost aliens3 = state.aliens@;
    let ghost fires3 = state.fires@;
    proof {
        assert(state.aliens@ =~= tick_struck_once(s0, *input, dt as int));
    }
    update_fire_interactions(&mut state.aliens, &state.fires, &mut alien_killed);
    proof {
        assert(state.aliens@ =~= tick_aliens_after(s0, *input, dt as int));
        assert(alien_killed@ =~= tick_kill_events(s0, *input, dt as int));
    }
    update_capsule_interactions(
        state.player.position,
        &mut state.capsules,
        &mut state.capsule_counter,
        &mut capsule_collision_ev,
    );
    let ghost shots3 = state.alien_projectiles@;
    let ghost ppos3 = state.player.position;
    update_player_interactions(
        &mut state.player,
        &mut state.alien_projectiles,
        &mut player_killed_ev,
    );
    proof {
        lemma_strike_events_len(
            managed,
            crate::projectile::proj_positions(projs3),
            crate::projectile::BULLET_RADIUS as int,
        );
        lemma_strike_events_len(
            aliens3,
            crate::fire::fire_positions(fires3),
            crate::fire::FIRE_RADIUS as int,
        );
        lemma_player_hit_count_nonneg(
            shots3,
            ppos3,
            crate::alien_projectile::BULLET_RADIUS as int,
        );
        assert(state.capsules@ =~= tick_capsules_kept(s0, *input, dt as int));
        assert(capsule_collision_ev@.len() == tick_pickups(s0, *input, dt as int));
        assert(player_killed_ev@.len() == tick_player_deaths(s0, *input, dt as int));
    }

    // phase four: event-driven spawning and progression
    spawn_fire(&mut state.fires, &mut state.fire_manager, &alien_killed);
    spawn_capsules(
        &mut state.capsules,
        &mut state.capsule_counter,
        &alien_killed,
        &mut capsule_released,
    );
    proof {
        let kills = tick_kill_events(s0, *input, dt as int);
        assert forall|k: int| 0 <= k < state.capsules@.len() implies {
            let c = #[trigger] state.capsules@[k];
            -2 * PLAY_LIMIT <= c.position.x <= 2 * PLAY_LIMIT && -2 * PLAY_LIMIT <= c.position.y
                <= 2 * PLAY_LIMIT && 0 <= c.speed <= SPEED_LIMIT
        } by {
            if k < tick_capsules_kept(s0, *input, dt as int).len() {
                assert(state.capsules@[k] == tick_capsules_kept(s0, *input, dt as int)[k]);
            } else {
                assert(crate::capsule::fresh_capsule_at(state.capsules@[k], kills));
                let j = choose|j: int|
                    0 <= j < kills.len() && state.capsules@[k] == crate::capsule::capsule_at(
                        (#[trigger] kills[j]).location,
                    );
                assert(state.capsules@[k].position == kills[j].location);
            }
        }
        assert(capsules_ok(state.capsules@, 2 * PLAY_LIMIT as int));
    }
    fire_projectile(
        &mut state.alien_cooldown,
        &state.aliens,
        &mut state.alien_projectiles,
        &mut alien_shoot,
        dt,
    );
    proof {
        let missing = crate::alien_projectile::missing_shots(
            tick_shots_moved(s0, dt as int),
            tick_player_position(s0, *input, dt as int),
            crate::alien_projectile::BULLET_RADIUS as int,
        );
        if tick_alien_shoots(s0, *input, dt as int) {
            let after = tick_aliens_after(s0, *input, dt as int);
            let i = choose|i: int|
                0 <= i < after.len() && !(#[trigger] after[i]).dead && state.alien_projectiles@
                    == missing.push(
                    AlienProjectile {
                        position: after[i].position,
                        speed: crate::alien_projectile::BULLET_SPEED,
                    },
                );
            assert forall|k: int| 0 <= k < state.alien_projectiles@.len() implies {
                let p = (#[trigger] state.alien_projectiles@[k]).position;
                -2 * PLAY_LIMIT <= p.x <= 2 * PLAY_LIMIT && -2 * PLAY_LIMIT <= p.y <= 2
                    * PLAY_LIMIT && 0 <= state.alien_projectiles@[k].speed <= SPEED_LIMIT
            } by {
                if k < missing.len() {
                    assert(state.alien_projectiles@[k] == missing[k]);
                } else {
                    assert(state.alien_projectiles@[k].position == after[i].position);
                }
            }
        }
        assert(shots_ok(state.alien_projectiles@, 2 * PLAY_LIMIT as int));
    }
    capsule_collision(&mut state.player, &capsule_collision_ev, &mut level_completed);
    proof {
        lemma_upgraded_guns_wf(
            s0.player.main_gun_projectiles as int,
            s0.player.side_gun_projectiles as int,
            capsule_collision_ev@.len() as int,
        );
    }
    reset_when_killed(&mut state.player, &mut state.score, &player_killed_ev, &mut level_completed);
    player_killed(&mut state.alien_manager, &player_killed_ev, &mut speed_changed);
    update_level_complete(&mut state.score, &level_completed);

    EventQueue {
        alien_killed,
        player_killed: player_killed_ev,
        alien_shoot,
        player_shoot,
        capsule_released,
        capsule_collision: capsule_collision_ev,
        level_completed,
        speed_changed,
    }
}

} // verus!
