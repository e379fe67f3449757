//! Enemy fire: projectiles dropped by a randomly chosen living alien on a
//! fixed cooldown, travelling downward until they leave the screen or hit
//! the player.

use vstd::prelude::*;

use crate::alien::{Alien, ALIEN_LIMIT, alive_count, lemma_alive_count_bounds};
use crate::capsule::rand_below;
use crate::geom::{
    Vec2i, Resolution, in_radius, within_radius, COORD_LIMIT, DT_LIMIT, SPEED_LIMIT, TIMER_LIMIT,
};
use crate::player::Player;

verus! {

/// Emitted when the player is hit by an alien projectile or the formation
/// reaches the player's zone.
#[derive(Clone, Copy, PartialEq, Eq, Structural, Debug)]
pub struct PlayerKilledEvent {}

/// Emitted when an alien fires a projectile.
#[derive(Clone, Copy, PartialEq, Eq, Structural, Debug)]
pub struct AlienShootEvent {}

/// An enemy projectile; `speed` is its downward travel in units per
/// millisecond.
#[derive(Clone, Copy, PartialEq, Eq, Structural, Debug)]
pub struct AlienProjectile {
    pub position: Vec2i,
    pub speed: i64,
}

/// Countdown between enemy shots, in milliseconds; it may run negative while
/// no alien is able to fire.
#[derive(Clone, Copy, PartialEq, Eq, Structural, Debug)]
pub struct AlienProjectileCooldown {
    pub shoot_timer: i64,
}

/// Milliseconds between enemy shots.
pub const SHOOT_COOLDOWN: i64 = 1200;

/// Downward speed of an enemy projectile, in units per millisecond.
pub const BULLET_SPEED: i64 = 240;

/// Collision radius between an enemy projectile and the player.
pub const BULLET_RADIUS: i64 = 10_000;

impl AlienProjectileCooldown {
    pub fn new() -> (c: AlienProjectileCooldown)
        ensures
            c.shoot_timer == 0,
    {
        AlienProjectileCooldown { shoot_timer: 0 }
    }
}

/// Positions within `b` of the origin and speeds within the speed bound.
pub open spec fn shots_ok(ss: Seq<AlienProjectile>, b: int) -> bool {
    forall|k: int|
        0 <= k < ss.len() ==> {
            let s = #[trigger] ss[k];
            -b <= s.position.x <= b && -b <= s.position.y <= b && 0 <= s.speed <= SPEED_LIMIT
        }
}

/// One movement step of an enemy projectile: straight down by its speed.
pub open spec fn moved_shot(s: AlienProjectile, dt: int) -> AlienProjectile {
    AlienProjectile {
        position: Vec2i { x: s.position.x, y: (s.position.y - s.speed * dt) as i64 },
        speed: s.speed,
    }
}

/// Enemy projectiles after one tick: each moved down, and those beyond
/// either vertical screen edge destroyed.
pub open spec fn surviving_shots(ss: Seq<AlienProjectile>, dt: int, top: int) -> Seq<
    AlienProjectile,
>
    decreases ss.len(),
{
    if ss.len() == 0 {
        Seq::empty()
    } else {
        let m = moved_shot(ss.last(), dt);
        surviving_shots(ss.drop_last(), dt, top) + (if m.position.y > top || m.position.y < -top {
            Seq::empty()
        } else {
            seq![m]
        })
    }
}

/// Moves every enemy projectile down by its speed and destroys those that
/// left the screen.
#[verifier::loop_isolation(false)]
pub fn update_alien_projectiles(shots: &mut Vec<AlienProjectile>, res: &Resolution, dt: i64)
    requires
        res.wf(),
        0 <= dt <= DT_LIMIT,
        shots_ok(old(shots)@, COORD_LIMIT as int - SPEED_LIMIT as int * DT_LIMIT as int),
    ensures
        final(shots)@ == surviving_shots(old(shots)@, dt as int, res.top_edge()),
{
    let top = res.top_edge_value();
    let mut kept: Vec<AlienProjectile> = Vec::new();
    let mut i: usize = 0;
    while i < shots.len()
        invariant
            i <= shots@.len(),
            shots@ == old(shots)@,
            kept@ == surviving_shots(shots@.take(i as int), dt as int, top as int),
        decreases shots@.len() - i,
    {
        let s = shots[i];
        proof {
            crate::geom::lemma_speed_step_bound(s.speed as int, dt as int);
        }
        let ny = s.position.y - s.speed * dt;
        if !(ny > top || ny < -top) {
            kept.push(AlienProjectile { position: Vec2i { x: s.position.x, y: ny }, speed: s.speed });
        }
        proof {
            let cur = shots@.take(i as int + 1);
            assert(cur.drop_last() =~= shots@.take(i as int));
            assert(cur.last() == shots@[i as int]);
        }
        i = i + 1;
    }
    proof {
        assert(shots@.take(shots@.len() as int) =~= shots@);
    }
    *shots = kept;
}

/// Enemy-projectile movement keeps every survivor within the old bound plus
/// one tick of travel, and never grows the store.
pub proof fn lemma_surviving_shots_ok(ss: Seq<AlienProjectile>, dt: int, top: int, b: int)
    requires
        shots_ok(ss, b),
        0 <= dt <= DT_LIMIT,
        0 <= b,
    ensures
        shots_ok(surviving_shots(ss, dt, top), b + SPEED_LIMIT * DT_LIMIT),
        surviving_shots(ss, dt, top).len() <= ss.len(),
    decreases ss.len(),
{
    if ss.len() > 0 {
        assert(forall|k: int|
            0 <= k < ss.drop_last().len() ==> ss.drop_last()[k] == #[trigger] ss[k]);
        lemma_surviving_shots_ok(ss.drop_last(), dt, top, b);
        crate::geom::lemma_speed_step_bound(ss.last().speed as int, dt);
    }
}

/// The enemy projectile reaches the player.
pub open spec fn shot_hits_player(s: AlienProjectile, player_position: Vec2i, r: int) -> bool {
    in_radius(player_position, s.position, r)
}

/// The enemy projectiles that missed the player and fly on.
pub open spec fn missing_shots(ss: Seq<AlienProjectile>, player_position: Vec2i, r: int) -> Seq<
    AlienProjectile,
>
    decreases ss.len(),
{
    if ss.len() == 0 {
        Seq::empty()
    } else {
        missing_shots(ss.drop_last(), player_position, r) + (if shot_hits_player(
            ss.last(),
            player_position,
            r,
        ) {
            Seq::empty()
        } else {
            seq![ss.last()]
        })
    }
}

/// How many enemy projectiles reach the player.
pub open spec fn player_hit_count(ss: Seq<AlienProjectile>, player_position: Vec2i, r: int) -> int
    decreases ss.len(),
{
    if ss.len() == 0 {
        0
    } else {
        player_hit_count(ss.drop_last(), player_position, r) + (if shot_hits_player(
            ss.last(),
            player_position,
            r,
        ) {
            1int
        } else {
            0int
        })
    }
}

/// Enemy-projectile-versus-player collision: every projectile that reaches
/// the player is destroyed, marks the player dead, and is announced.
#[verifier::loop_isolation(false)]
pub fn update_player_interactions(
    player: &mut Player,
    shots: &mut Vec<AlienProjectile>,
    events: &mut Vec<PlayerKilledEvent>,
)
    requires
        old(player).position.coord_ok(),
        shots_ok(old(shots)@, COORD_LIMIT as int),
    ensures
        final(player).dead == (old(player).dead || player_hit_count(
            old(shots)@,
            old(player).position,
            BULLET_RADIUS as int,
        ) > 0),
        final(player).position == old(player).position,
        final(player).shoot_timer == old(player).shoot_timer,
        final(player).main_gun_projectiles == old(player).main_gun_projectiles,
        final(player).side_gun_projectiles == old(player).side_gun_projectiles,
        final(shots)@ == missing_shots(old(shots)@, old(player).position, BULLET_RADIUS as int),
        final(events)@.len() == old(events)@.len() + player_hit_count(
            old(shots)@,
            old(player).position,
            BULLET_RADIUS as int,
        ),
{
    let ppos = player.position;
    let mut kept: Vec<AlienProjectile> = Vec::new();
    let mut i: usize = 0;
    while i < shots.len()
        invariant
            i <= shots@.len(),
            shots@ == old(shots)@,
            ppos == old(player).position,
            kept@ == missing_shots(shots@.take(i as int), ppos, BULLET_RADIUS as int),
            player.position == old(player).position,
            player.shoot_timer == old(player).shoot_timer,
            player.main_gun_projectiles == old(player).main_gun_projectiles,
            player.side_gun_projectiles == old(player).side_gun_projectiles,
            player.dead == (old(player).dead || player_hit_count(
                shots@.take(i as int),
                ppos,
                BULLET_RADIUS as int,
            ) > 0),
            events@.len() == old(events)@.len() + player_hit_count(
                shots@.take(i as int),
                ppos,
                BULLET_RADIUS as int,
            ),
        decreases shots@.len() - i,
    {
        proof {
            lemma_player_hit_count_nonneg(shots@.take(i as int), ppos, BULLET_RADIUS as int);
        }
        let s = shots[i];
        if within_radius(ppos, s.position, BULLET_RADIUS) {
            player.dead = true;
            events.push(PlayerKilledEvent {});
        } else {
            kept.push(s);
        }
        proof {
            let cur = shots@.take(i as int + 1);
            assert(cur.drop_last() =~= shots@.take(i as int));
            assert(cur.last() == shots@[i as int]);
        }
        i = i + 1;
    }
    proof {
        assert(shots@.take(shots@.len() as int) =~= shots@);
    }
    *shots = kept;
}

/// The shots that miss the player are shots the pass was given: everything
/// stays within the old bound and the store never grows.
pub proof fn lemma_missing_shots_ok(ss: Seq<AlienProjectile>, p: Vec2i, r: int, b: int)
    requires
        shots_ok(ss, b),
    ensures
        shots_ok(missing_shots(ss, p, r), b),
        missing_shots(ss, p, r).len() <= ss.len(),
    decreases ss.len(),
{
    if ss.len() > 0 {
        assert(forall|k: int|
            0 <= k < ss.drop_last().len() ==> ss.drop_last()[k] == #[trigger] ss[k]);
        lemma_missing_shots_ok(ss.drop_last(), p, r, b);
    }
}

pub proof fn lemma_player_hit_count_nonneg(ss: Seq<AlienProjectile>, p: Vec2i, r: int)
    ensures
        0 <= player_hit_count(ss, p, r) <= ss.len(),
    decreases ss.len(),
{
    if ss.len() > 0 {
        lemma_player_hit_count_nonneg(ss.drop_last(), p, r);
    }
}

/// Enemy fire, run once per tick: the cooldown counts down, and once it has
/// lapsed while some alien is alive, a uniformly chosen living alien drops a
/// projectile from its position, the shot is announced, and the cooldown is
/// rearmed. Which alien fires is up to the generator; every outcome is a
/// living alien.
#[verifier::loop_isolation(false)]
pub fn fire_projectile(
    cooldown: &mut AlienProjectileCooldown,
    aliens: &Vec<Alien>,
    shots: &mut Vec<AlienProjectile>,
    events: &mut Vec<AlienShootEvent>,
    dt: i64,
)
    requires
        -TIMER_LIMIT <= old(cooldown).shoot_timer <= TIMER_LIMIT,
        0 <= dt <= DT_LIMIT,
        aliens@.len() <= ALIEN_LIMIT,
    ensures
        !(old(cooldown).shoot_timer - dt <= 0 && alive_count(aliens@) > 0) ==> {
            &&& final(cooldown).shoot_timer == old(cooldown).shoot_timer - dt
            &&& final(shots)@ == old(shots)@
            &&& final(events)@ == old(events)@
        },
        old(cooldown).shoot_timer - dt <= 0 && alive_count(aliens@) > 0 ==> {
            &&& final(cooldown).shoot_timer == SHOOT_COOLDOWN
            &&& final(events)@.len() == old(events)@.len() + 1
            &&& exists|i: int|
                0 <= i < aliens@.len() && !(#[trigger] aliens@[i]).dead && final(shots)@ == old(
                    shots,
                )@.push(AlienProjectile { position: aliens@[i].position, speed: BULLET_SPEED })
        },
{
    cooldown.shoot_timer = cooldown.shoot_timer - dt;
    if cooldown.shoot_timer <= 0 {
        let mut living: Vec<usize> = Vec::new();
        let mut i: usize = 0;
        while i < aliens.len()
            invariant
                i <= aliens@.len(),
                living@.len() == alive_count(aliens@.take(i as int)),
                forall|j: int|
                    0 <= j < living@.len() ==> (#[trigger] living@[j]) < aliens@.len()
                        && !aliens@[living@[j] as int].dead,
            decreases aliens@.len() - i,
        {
            proof {
                lemma_alive_count_bounds(aliens@.take(i as int));
            }
            if !aliens[i].dead {
                living.push(i);
            }
            proof {
                let cur = aliens@.take(i as int + 1);
                assert(cur.drop_last() =~= aliens@.take(i as int));
                assert(cur.last() == aliens@[i as int]);
            }
            i = i + 1;
        }
        proof {
            assert(aliens@.take(aliens@.len() as int) =~= aliens@);
            lemma_alive_count_bounds(aliens@);
        }
        if living.len() > 0 {
            events.push(AlienShootEvent {});
            cooldown.shoot_timer = SHOOT_COOLDOWN;
            let idx = rand_below(living.len() as u32) as usize;
            let target = living[idx];
            let a = aliens[target];
            shots.push(AlienProjectile { position: a.position, speed: BULLET_SPEED });
        }
    }
}

} // verus!
