//! The player controller: horizontal movement clamped to the screen, a
//! shoot cooldown, missile spawning in main and side lanes, weapon upgrades
//! on capsule pickup, and the reset on death.

use vstd::prelude::*;

use crate::alien_projectile::PlayerKilledEvent;
use crate::capsule::CapsuleCollisionEvent;
use crate::geom::{Vec2i, Resolution, BOUNDARY_INSET, DT_LIMIT, PLAY_LIMIT, TIMER_LIMIT};
use crate::level_indicator::{LevelCompletedEvent, ScoreManager};
use crate::projectile::{Projectile, projectiles_ok};

verus! {

/// Emitted when the player fires.
#[derive(Clone, Copy, PartialEq, Eq, Structural, Debug)]
pub struct PlayerShootEvent {}

/// The player ship: position, shoot cooldown, death flag, and the two lane
/// counts of the upgradeable guns.
#[derive(Clone, Copy, PartialEq, Eq, Structural, Debug)]
pub struct Player {
    pub position: Vec2i,
    pub shoot_timer: i64,
    pub dead: bool,
    pub main_gun_projectiles: i64,
    pub side_gun_projectiles: i64,
}

/// The control input of one tick: two direction booleans and the fire
/// trigger.
#[derive(Clone, Copy, PartialEq, Eq, Structural, Debug)]
pub struct PlayerInput {
    pub left: bool,
    pub right: bool,
    pub fire: bool,
}

/// Horizontal speed of the player, in units per millisecond.
pub const PLAYER_SPEED: i64 = 200;

/// Upward speed of a player missile, in units per millisecond.
pub const BULLET_SPEED: i64 = 400;

/// Milliseconds between player shots.
pub const SHOOT_COOLDOWN: i64 = 900;

/// Most lanes the side gun can grow to.
pub const MAX_SIDE_BULLETS: i64 = 6;

/// Height of the main muzzle above the ship.
pub const PRIMARY_GUN_HEIGHT: i64 = 25_000;

/// Vertical stagger between missiles of one volley.
pub const BULLET_HEIGHT: i64 = 12_000;

/// Horizontal offset of the side-gun muzzles.
pub const GUN_WIDTH: i64 = 20_000;

/// Largest lane count a volley spawner accepts.
pub const LANE_LIMIT: i64 = 1000;

/// Largest batch of pickup events accepted in one tick.
pub const PICKUP_EVENT_LIMIT: usize = 1_000_000;

impl Player {
    /// The gun invariant: lanes stay balanced, the main gun at most one
    /// ahead, the side gun within its cap.
    pub open spec fn guns_wf(self) -> bool {
        1 <= self.main_gun_projectiles <= self.side_gun_projectiles + 1 && 0
            <= self.side_gun_projectiles <= MAX_SIDE_BULLETS
    }

    /// The player at startup: centred just above the bottom edge, one main
    /// lane and no side lanes.
    pub fn new(res: &Resolution) -> (p: Player)
        requires
            res.wf(),
        ensures
            p == (Player {
                position: Vec2i {
                    x: 0,
                    y: (-res.top_edge() + res.pixel_ratio * BOUNDARY_INSET) as i64,
                },
                shoot_timer: 0,
                dead: false,
                main_gun_projectiles: 1,
                side_gun_projectiles: 0,
            }),
    {
        let y = -(res.top_edge_value()) + res.pixel_ratio * BOUNDARY_INSET;
        Player {
            position: Vec2i { x: 0, y },
            shoot_timer: 0,
            dead: false,
            main_gun_projectiles: 1,
            side_gun_projectiles: 0,
        }
    }
}

/// The signed horizontal input: right minus left.
pub open spec fn horizontal_of(input: PlayerInput) -> int {
    (if input.right {
        1int
    } else {
        0int
    }) - (if input.left {
        1int
    } else {
        0int
    })
}

/// A value pushed back inside the bounds, upper bound first as the movement
/// code applies it.
pub open spec fn clamped(v: int, lo: int, hi: int) -> int {
    let v1 = if v > hi {
        hi
    } else {
        v
    };
    if v1 < lo {
        lo
    } else {
        v1
    }
}

/// Where the player stands after one tick of movement: advanced by the input
/// direction times speed, confined to the screen.
pub open spec fn player_moved_x(p: Player, input: PlayerInput, res: Resolution, dt: int) -> int {
    clamped(
        p.position.x + horizontal_of(input) * PLAYER_SPEED * dt,
        -(res.screen_width as int / 2),
        res.screen_width as int / 2,
    )
}

/// Missile `k` of a main-gun volley: straight above the origin, staggered
/// downward lane by lane.
pub open spec fn one_missile(origin: Vec2i, k: int) -> Projectile {
    Projectile {
        position: Vec2i {
            x: origin.x,
            y: (origin.y + PRIMARY_GUN_HEIGHT - k * BULLET_HEIGHT) as i64,
        },
        speed: BULLET_SPEED,
    }
}

/// A main-gun volley of `n` missiles, in spawn order.
pub open spec fn one_missile_seq(origin: Vec2i, n: int) -> Seq<Projectile>
    decreases n,
{
    if n <= 0 {
        Seq::empty()
    } else {
        one_missile_seq(origin, n - 1).push(one_missile(origin, n - 1))
    }
}

/// The missile pair `k` of a side-gun volley: left muzzle then right muzzle.
pub open spec fn two_missiles(origin: Vec2i, k: int) -> Seq<Projectile> {
    seq![
        Projectile {
            position: Vec2i {
                x: (origin.x - GUN_WIDTH) as i64,
                y: (origin.y + PRIMARY_GUN_HEIGHT - k * BULLET_HEIGHT) as i64,
            },
            speed: BULLET_SPEED,
        },
        Projectile {
            position: Vec2i {
                x: (origin.x + GUN_WIDTH) as i64,
                y: (origin.y + PRIMARY_GUN_HEIGHT - k * BULLET_HEIGHT) as i64,
            },
            speed: BULLET_SPEED,
        },
    ]
}

/// A side-gun volley of `n` missile pairs, in spawn order.
pub open spec fn two_missile_seq(origin: Vec2i, n: int) -> Seq<Projectile>
    decreases n,
{
    if n <= 0 {
        Seq::empty()
    } else {
        two_missile_seq(origin, n - 1) + two_missiles(origin, n - 1)
    }
}

/// A volley stays near its origin: every missile lies within the origin
/// bound plus the muzzle offsets, at the fixed missile speed.
pub proof fn lemma_missile_seq_ok(origin: Vec2i, n: int, b: int)
    requires
        -b <= origin.x <= b,
        -b <= origin.y <= b,
        0 <= n <= LANE_LIMIT,
        0 <= b,
    ensures
        projectiles_ok(
            one_missile_seq(origin, n),
            b + PRIMARY_GUN_HEIGHT + LANE_LIMIT * BULLET_HEIGHT + GUN_WIDTH,
        ),
        projectiles_ok(
            two_missile_seq(origin, n),
            b + PRIMARY_GUN_HEIGHT + LANE_LIMIT * BULLET_HEIGHT + GUN_WIDTH,
        ),
        one_missile_seq(origin, n).len() == (if n <= 0 {
            0int
        } else {
            n
        }),
        two_missile_seq(origin, n).len() == (if n <= 0 {
            0int
        } else {
            2 * n
        }),
    decreases n,
{
    if n > 0 {
        lemma_missile_seq_ok(origin, n - 1, b);
    }
}

/// Spawns a main-gun volley: `num_missiles` missiles straight above the
/// origin, staggered downward.
#[verifier::loop_isolation(false)]
pub fn spawn_one_missile(projectiles: &mut Vec<Projectile>, origin: Vec2i, num_missiles: i64)
    requires
        -PLAY_LIMIT <= origin.x <= PLAY_LIMIT,
        -PLAY_LIMIT <= origin.y <= PLAY_LIMIT,
        0 <= num_missiles <= LANE_LIMIT,
    ensures
        final(projectiles)@ == old(projectiles)@ + one_missile_seq(origin, num_missiles as int),
{
    let mut k: i64 = 0;
    while k < num_missiles
        invariant
            0 <= k <= num_missiles,
            projectiles@ == old(projectiles)@ + one_missile_seq(origin, k as int),
        decreases num_missiles - k,
    {
        let y = origin.y + PRIMARY_GUN_HEIGHT - k * BULLET_HEIGHT;
        projectiles.push(Projectile { position: Vec2i { x: origin.x, y }, speed: BULLET_SPEED });
        k = k + 1;
        proof {
            assert(projectiles@ =~= old(projectiles)@ + one_missile_seq(origin, k as int));
        }
    }
}

/// Spawns a side-gun volley: `num_missiles` pairs of missiles from the two
/// side muzzles, staggered downward.
#[verifier::loop_isolation(false)]
pub fn spawn_two_missiles(projectiles: &mut Vec<Projectile>, origin: Vec2i, num_missiles: i64)
    requires
        -PLAY_LIMIT <= origin.x <= PLAY_LIMIT,
        -PLAY_LIMIT <= origin.y <= PLAY_LIMIT,
        0 <= num_missiles <= LANE_LIMIT,
    ensures
        final(projectiles)@ == old(projectiles)@ + two_missile_seq(origin, num_missiles as int),
{
    let mut k: i64 = 0;
    while k < num_missiles
        invariant
            0 <= k <= num_missiles,
            projectiles@ == old(projectiles)@ + two_missile_seq(origin, k as int),
        decreases num_missiles - k,
    {
        let y = origin.y + PRIMARY_GUN_HEIGHT - k * BULLET_HEIGHT;
        projectiles.push(
            Projectile { position: Vec2i { x: origin.x - GUN_WIDTH, y }, speed: BULLET_SPEED },
        );
        projectiles.push(
            Projectile { position: Vec2i { x: origin.x + GUN_WIDTH, y }, speed: BULLET_SPEED },
        );
        k = k + 1;
        proof {
            assert(projectiles@ =~= old(projectiles)@ + two_missile_seq(origin, k as int));
        }
    }
}

/// Player movement and fire, run once per tick: advance along the input
/// direction, confine to the screen, count the cooldown down, and on a fire
/// trigger with a lapsed cooldown announce the shot, rearm the cooldown, and
/// spawn the main and side volleys from the post-movement position.
pub fn update_player(
    player: &mut Player,
    projectiles: &mut Vec<Projectile>,
    input: &PlayerInput,
    res: &Resolution,
    dt: i64,
    shoot_events: &mut Vec<PlayerShootEvent>,
)
    requires
        res.wf(),
        0 <= dt <= DT_LIMIT,
        -PLAY_LIMIT <= old(player).position.x <= PLAY_LIMIT,
        -PLAY_LIMIT <= old(player).position.y <= PLAY_LIMIT,
        -TIMER_LIMIT <= old(player).shoot_timer <= TIMER_LIMIT,
        0 <= old(player).main_gun_projectiles <= LANE_LIMIT,
        0 <= old(player).side_gun_projectiles <= LANE_LIMIT,
    ensures
        final(player).position.x == player_moved_x(*old(player), *input, *res, dt as int),
        final(player).position.y == old(player).position.y,
        final(player).dead == old(player).dead,
        final(player).main_gun_projectiles == old(player).main_gun_projectiles,
        final(player).side_gun_projectiles == old(player).side_gun_projectiles,
        input.fire && old(player).shoot_timer - dt <= 0 ==> {
            &&& final(player).shoot_timer == SHOOT_COOLDOWN
            &&& final(shoot_events)@.len() == old(shoot_events)@.len() + 1
            &&& final(projectiles)@ == old(projectiles)@ + one_missile_seq(
                final(player).position,
                old(player).main_gun_projectiles as int,
            ) + two_missile_seq(final(player).position, old(player).side_gun_projectiles as int)
        },
        !(input.fire && old(player).shoot_timer - dt <= 0) ==> {
            &&& final(player).shoot_timer == old(player).shoot_timer - dt
            &&& final(shoot_events)@ == old(shoot_events)@
            &&& final(projectiles)@ == old(projectiles)@
        },
{
    let mut horizontal: i64 = 0;
    if input.left {
        horizontal = horizontal - 1;
    }
    if input.right {
        horizontal = horizontal + 1;
    }
    let step = PLAYER_SPEED * dt;
    let delta = if horizontal == 1 {
        step
    } else if horizontal == -1 {
        -step
    } else {
        0
    };
    proof {
        assert(delta == horizontal_of(*input) * PLAYER_SPEED * dt) by (nonlinear_arith)
            requires
                step == PLAYER_SPEED * dt,
                horizontal_of(*input) == 1 && delta == step || horizontal_of(*input) == -1 && delta
                    == -step || horizontal_of(*input) == 0 && delta == 0,
        ;
    }
    let mut x = player.position.x + delta;
    let right_bound = res.screen_width / 2;
    let left_bound = -(res.screen_width / 2);
    if x > right_bound {
        x = right_bound;
    }
    if x < left_bound {
        x = left_bound;
    }
    player.position = Vec2i { x, y: player.position.y };
    player.shoot_timer = player.shoot_timer - dt;
    if input.fire && player.shoot_timer <= 0 {
        shoot_events.push(PlayerShootEvent {});
        player.shoot_timer = SHOOT_COOLDOWN;
        spawn_one_missile(projectiles, player.position, player.main_gun_projectiles);
        spawn_two_missiles(projectiles, player.position, player.side_gun_projectiles);
        proof {
            assert(projectiles@ =~= old(projectiles)@ + one_missile_seq(
                player.position,
                old(player).main_gun_projectiles as int,
            ) + two_missile_seq(player.position, old(player).side_gun_projectiles as int));
        }
    }
}

/// One weapon upgrade: while the side gun sits under its cap, whichever lane
/// count trails grows by one, the side gun on ties broken toward it only
/// when the main gun leads.
pub open spec fn upgraded_guns(main: int, side: int) -> (int, int) {
    if side < MAX_SIDE_BULLETS {
        if main > side {
            (main, side + 1)
        } else {
            (main + 1, side)
        }
    } else {
        (main, side)
    }
}

/// The lane counts after `n` upgrades in a row.
pub open spec fn upgraded_guns_n(main: int, side: int, n: int) -> (int, int)
    decreases n,
{
    if n <= 0 {
        (main, side)
    } else {
        let prev = upgraded_guns_n(main, side, n - 1);
        upgraded_guns(prev.0, prev.1)
    }
}

/// Upgrades preserve the gun invariant: the lanes stay balanced and the side
/// gun stays under its cap.
pub proof fn lemma_upgraded_guns_wf(main: int, side: int, n: int)
    requires
        1 <= main <= side + 1,
        0 <= side <= MAX_SIDE_BULLETS,
    ensures
        1 <= upgraded_guns_n(main, side, n).0 <= upgraded_guns_n(main, side, n).1 + 1,
        0 <= upgraded_guns_n(main, side, n).1 <= MAX_SIDE_BULLETS,
    decreases n,
{
    if n > 0 {
        lemma_upgraded_guns_wf(main, side, n - 1);
    }
}

/// Weapon upgrades on capsule pickups: every pickup grants one upgrade and
/// announces a completed level.
#[verifier::loop_isolation(false)]
pub fn capsule_collision(
    player: &mut Player,
    collisions: &Vec<CapsuleCollisionEvent>,
    level_completed: &mut Vec<LevelCompletedEvent>,
)
    requires
        0 <= old(player).main_gun_projectiles <= LANE_LIMIT,
        0 <= old(player).side_gun_projectiles <= LANE_LIMIT,
        collisions@.len() <= PICKUP_EVENT_LIMIT,
    ensures
        final(player).main_gun_projectiles == upgraded_guns_n(
            old(player).main_gun_projectiles as int,
            old(player).side_gun_projectiles as int,
            collisions@.len() as int,
        ).0,
        final(player).side_gun_projectiles == upgraded_guns_n(
            old(player).main_gun_projectiles as int,
            old(player).side_gun_projectiles as int,
            collisions@.len() as int,
        ).1,
        final(player).position == old(player).position,
        final(player).shoot_timer == old(player).shoot_timer,
        final(player).dead == old(player).dead,
        final(level_completed)@.len() == old(level_completed)@.len() + collisions@.len(),
{
    let ghost m0 = old(player).main_gun_projectiles as int;
    let ghost s0 = old(player).side_gun_projectiles as int;
    let mut i: usize = 0;
    while i < collisions.len()
        invariant
            i <= collisions@.len(),
            player.main_gun_projectiles == upgraded_guns_n(m0, s0, i as int).0,
            player.side_gun_projectiles == upgraded_guns_n(m0, s0, i as int).1,
            m0 <= player.main_gun_projectiles <= m0 + i,
            s0 <= player.side_gun_projectiles <= s0 + i,
            player.position == old(player).position,
            player.shoot_timer == old(player).shoot_timer,
            player.dead == old(player).dead,
            level_completed@.len() == old(level_completed)@.len() + i,
        decreases collisions@.len() - i,
    {
        if player.side_gun_projectiles < MAX_SIDE_BULLETS {
            if player.main_gun_projectiles > player.side_gun_projectiles {
                player.side_gun_projectiles = player.side_gun_projectiles + 1;
            } else {
                player.main_gun_projectiles = player.main_gun_projectiles + 1;
            }
        }
        level_completed.push(LevelCompletedEvent {});
        i = i + 1;
    }
}

/// The reset on player death: progress falls back to level zero and the guns
/// to their starting lanes, and the fallback is announced as a completed
/// level once per death event.
#[verifier::loop_isolation(false)]
pub fn reset_when_killed(
    player: &mut Player,
    score: &mut ScoreManager,
    kills: &Vec<PlayerKilledEvent>,
    level_completed: &mut Vec<LevelCompletedEvent>,
)
    ensures
        kills@.len() == 0 ==> *final(player) == *old(player) && *final(score) == *old(score),
        kills@.len() > 0 ==> *final(player) == (Player {
            main_gun_projectiles: 1,
            side_gun_projectiles: 0,
            ..*old(player)
        }) && *final(score) == (ScoreManager { curr_level: 0, ..*old(score) }),
        final(level_completed)@.len() == old(level_completed)@.len() + kills@.len(),
{
    let mut i: usize = 0;
    while i < kills.len()
        invariant
            i <= kills@.len(),
            i == 0 ==> *player == *old(player) && *score == *old(score),
            i > 0 ==> *player == (Player {
                main_gun_projectiles: 1,
                side_gun_projectiles: 0,
                ..*old(player)
            }) && *score == (ScoreManager { curr_level: 0, ..*old(score) }),
            level_completed@.len() == old(level_completed)@.len() + i,
        decreases kills@.len() - i,
    {
        score.curr_level = 0;
        player.main_gun_projectiles = 1;
        player.side_gun_projectiles = 0;
        level_completed.push(LevelCompletedEvent {});
        i = i + 1;
    }
}

} // verus!
