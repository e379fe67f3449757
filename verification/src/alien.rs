//! The formation controller: swarm-wide state (direction, speed, deferred
//! shift and reset flags) and the two-phase movement logic — detect boundary
//! crossings and losses while moving, apply the deferred shift or reset
//! afterwards so corrections are computed from uniform pre-shift positions.

use vstd::prelude::*;

use crate::alien_projectile::PlayerKilledEvent;
use crate::geom::{Vec2i, Resolution, DT_LIMIT, PLAY_LIMIT, SPEED_LIMIT, TIMER_LIMIT};
use crate::level_indicator::LevelCompletedEvent;

verus! {

/// Emitted when a speed threshold is crossed or the speed is reset; carries
/// the new formation speed.
#[derive(Clone, Copy, PartialEq, Eq, Structural, Debug)]
pub struct SpeedChangedEvent {
    pub speed: i64,
}

/// The kind of an alien; `Empty` marks an unoccupied cell of a layout mask
/// and never spawns.
#[derive(Clone, Copy, PartialEq, Eq, Structural, Debug)]
pub enum AlienType {
    Worker,
    Soldier,
    Queen,
    Empty,
}

/// One alien of the formation. Dead aliens keep their slot and position so a
/// wave reset can revive them in place.
#[derive(Clone, Copy, PartialEq, Eq, Structural, Debug)]
pub struct Alien {
    pub dead: bool,
    pub position: Vec2i,
    pub original_position: Vec2i,
    pub alien_type: AlienType,
}

/// Swarm-wide state: travel direction, speed, the deferred shift and reset
/// flags, and the bookkeeping for threshold speed scaling.
#[derive(Clone, Copy, PartialEq, Eq, Structural, Debug)]
pub struct AlienManager {
    pub direction: i64,
    pub shift_aliens_down: bool,
    pub dist_from_boundary: i64,
    pub reset: bool,
    pub speed: i64,
    pub prev_alien_count: i64,
    pub reset_cooldown: i64,
}

/// Horizontal spacing between formation columns.
pub const HORIZ_SPACING: i64 = 22_000;

/// Vertical spacing between formation rows.
pub const VERT_SPACING: i64 = 50_000;

/// Formation speed at the start of a game, in units per millisecond.
pub const INITIAL_ALIEN_SPEED: i64 = 35;

/// Added to the formation speed at each threshold crossing.
pub const ALIEN_SPEED_INCREMENT: i64 = 12;

/// How far the formation descends at each boundary shift.
pub const ALIEN_SHIFT_AMOUNT: i64 = 16_000;

/// Vertical offset of the lowest formation row at spawn.
pub const VERT_OFFSET: i64 = 70_000;

/// Milliseconds armed on the wipe cooldown after a level-completed emission,
/// so one wipe does not emit the event on every following tick.
pub const RESET_COOLDOWN_MS: i64 = 1000;

/// Largest accepted formation size.
pub const ALIEN_LIMIT: usize = 100_000;

impl AlienManager {
    pub open spec fn wf(self) -> bool {
        self.direction == 1 || self.direction == -1
    }

    /// The swarm state at startup.
    pub fn new() -> (m: AlienManager)
        ensures
            m == (AlienManager {
                direction: 1,
                shift_aliens_down: false,
                dist_from_boundary: 0,
                reset: false,
                speed: INITIAL_ALIEN_SPEED,
                prev_alien_count: 99,
                reset_cooldown: 0,
            }),
    {
        AlienManager {
            direction: 1,
            shift_aliens_down: false,
            dist_from_boundary: 0,
            reset: false,
            speed: INITIAL_ALIEN_SPEED,
            prev_alien_count: 99,
            reset_cooldown: 0,
        }
    }
}

/// All positions of the aliens lie within `b` of the origin on both axes.
pub open spec fn aliens_bounded(s: Seq<Alien>, b: int) -> bool {
    forall|k: int|
        0 <= k < s.len() ==> {
            let p = (#[trigger] s[k]).position;
            -b <= p.x <= b && -b <= p.y <= b
        }
}

/// All spawn positions of the aliens lie within `b` of the origin.
pub open spec fn originals_bounded(s: Seq<Alien>, b: int) -> bool {
    forall|k: int|
        0 <= k < s.len() ==> {
            let p = (#[trigger] s[k]).original_position;
            -b <= p.x <= b && -b <= p.y <= b
        }
}

/// One movement step: a living alien advances horizontally by
/// `direction * speed * dt`; a dead alien does not move.
pub open spec fn moved_alien(a: Alien, direction: int, speed: int, dt: int) -> Alien {
    if a.dead {
        a
    } else {
        Alien {
            dead: a.dead,
            position: Vec2i { x: (a.position.x + direction * speed * dt) as i64, y: a.position.y },
            original_position: a.original_position,
            alien_type: a.alien_type,
        }
    }
}

/// The whole formation after one movement step.
pub open spec fn moved_seq(s: Seq<Alien>, direction: int, speed: int, dt: int) -> Seq<Alien> {
    s.map_values(|a: Alien| moved_alien(a, direction, speed, dt))
}

/// One movement step keeps every alien within the old bound plus one tick of
/// travel, and changes nothing but the x coordinates of living aliens.
pub proof fn lemma_moved_seq_bounded(s: Seq<Alien>, d: int, sp: int, t: int, b: int)
    requires
        aliens_bounded(s, b),
        d == 1 || d == -1,
        0 <= sp <= SPEED_LIMIT,
        0 <= t <= DT_LIMIT,
        0 <= b,
    ensures
        moved_seq(s, d, sp, t).len() == s.len(),
        aliens_bounded(moved_seq(s, d, sp, t), b + SPEED_LIMIT * DT_LIMIT),
        forall|k: int|
            0 <= k < s.len() ==> {
                let a = #[trigger] moved_seq(s, d, sp, t)[k];
                a.original_position == s[k].original_position && a.alien_type == s[k].alien_type
                    && a.dead == s[k].dead && a.position.y == s[k].position.y
            },
{
    assert(-(SPEED_LIMIT * DT_LIMIT) <= d * sp * t <= SPEED_LIMIT * DT_LIMIT) by (nonlinear_arith)
        requires
            (d == 1 || d == -1) && 0 <= sp <= SPEED_LIMIT && 0 <= t <= DT_LIMIT,
    ;
}

/// How many aliens are alive.
pub open spec fn alive_count(s: Seq<Alien>) -> int
    decreases s.len(),
{
    if s.len() == 0 {
        0
    } else {
        alive_count(s.drop_last()) + if s.last().dead {
            0int
        } else {
            1int
        }
    }
}

pub proof fn lemma_alive_count_bounds(s: Seq<Alien>)
    ensures
        0 <= alive_count(s) <= s.len(),
    decreases s.len(),
{
    if s.len() > 0 {
        lemma_alive_count_bounds(s.drop_last());
    }
}

/// A living alien stands past the formation boundary.
pub open spec fn overshooting(a: Alien, margin: int) -> bool {
    !a.dead && (a.position.x > margin || a.position.x < -margin)
}

/// Some living alien stands past the boundary.
pub open spec fn some_overshoot(s: Seq<Alien>, margin: int) -> bool {
    exists|k: int| 0 <= k < s.len() && overshooting(#[trigger] s[k], margin)
}

/// The index of the overshooting alien whose correction is recorded: the one
/// furthest past the boundary in the travel direction (for direction one the
/// greatest x, for direction minus one the least), so that the correction is
/// the minimal one that lands every overshooter back at or inside the
/// boundary. On ties the earliest index is kept. Minus one when no living
/// alien overshoots.
pub open spec fn furthest_overshoot_index(s: Seq<Alien>, margin: int, dir: int) -> int
    decreases s.len(),
{
    if s.len() == 0 {
        -1
    } else {
        let rest = furthest_overshoot_index(s.drop_last(), margin, dir);
        if !overshooting(s.last(), margin) {
            rest
        } else if rest >= 0 && dir * s[rest].position.x >= dir * s.last().position.x {
            rest
        } else {
            s.len() - 1
        }
    }
}

/// The recorded index is a real overshooter and no overshooter stands
/// further in the travel direction; without an overshooter it is minus one.
pub proof fn lemma_furthest_overshoot_index_props(s: Seq<Alien>, margin: int, dir: int)
    ensures
        some_overshoot(s, margin) ==> {
            let f = furthest_overshoot_index(s, margin, dir);
            &&& 0 <= f < s.len()
            &&& overshooting(s[f], margin)
            &&& forall|k: int|
                0 <= k < s.len() && overshooting(#[trigger] s[k], margin) ==> dir * s[k].position.x
                    <= dir * s[f].position.x
        },
        !some_overshoot(s, margin) ==> furthest_overshoot_index(s, margin, dir) == -1,
    decreases s.len(),
{
    if s.len() > 0 {
        lemma_furthest_overshoot_index_props(s.drop_last(), margin, dir);
        assert(forall|k: int| 0 <= k < s.len() - 1 ==> s.drop_last()[k] == #[trigger] s[k]);
        if some_overshoot(s, margin) && !overshooting(s.last(), margin) {
            assert(some_overshoot(s.drop_last(), margin)) by {
                let k = choose|k: int| 0 <= k < s.len() && overshooting(#[trigger] s[k], margin);
                assert(overshooting(s.drop_last()[k], margin));
            }
        }
        if some_overshoot(s.drop_last(), margin) {
            let kk = choose|k: int|
                0 <= k < s.drop_last().len() && overshooting(#[trigger] s.drop_last()[k], margin);
            assert(overshooting(s[kk], margin));
        }
    }
}

/// How many living aliens have descended below `bound`.
pub open spec fn below_count(s: Seq<Alien>, bound: int) -> int
    decreases s.len(),
{
    if s.len() == 0 {
        0
    } else {
        below_count(s.drop_last(), bound) + if !s.last().dead && s.last().position.y < bound {
            1int
        } else {
            0int
        }
    }
}

pub proof fn lemma_below_count_bounds(s: Seq<Alien>, bound: int)
    ensures
        0 <= below_count(s, bound) <= s.len(),
    decreases s.len(),
{
    if s.len() > 0 {
        lemma_below_count_bounds(s.drop_last(), bound);
    }
}

/// The alive count fell strictly below the threshold during this tick.
pub open spec fn crossed(before: int, after: int, threshold: int) -> bool {
    after < threshold && before >= threshold
}

/// How many speed thresholds the alive count crossed downward this tick.
pub open spec fn crossings(before: int, after: int) -> int {
    (if crossed(before, after, 30) {
        1int
    } else {
        0int
    }) + (if crossed(before, after, 20) {
        1int
    } else {
        0int
    }) + (if crossed(before, after, 10) {
        1int
    } else {
        0int
    }) + (if crossed(before, after, 3) {
        1int
    } else {
        0int
    })
}

/// The speed-changed events of one tick: one per crossed threshold, each
/// carrying the speed after its increment.
pub open spec fn speed_change_events(speed0: int, before: int, after: int) -> Seq<
    SpeedChangedEvent,
> {
    Seq::new(
        crossings(before, after) as nat,
        |k: int| SpeedChangedEvent { speed: (speed0 + (k + 1) * ALIEN_SPEED_INCREMENT) as i64 },
    )
}

/// Movement and hazard detection, run first in every tick: advance each
/// living alien, record a pending boundary shift with the minimal correction
/// that brings every overshooter back — the distance of the alien furthest
/// past the boundary in the travel direction — flag a reset when the
/// formation reaches
/// the player's zone (a loss, signalled as a player-killed event per
/// offending alien) or is wiped out, emit level-completed on a wipe once per
/// cooldown window, and raise the speed once per crossed alive-count
/// threshold.
#[verifier::loop_isolation(false)]
#[verifier::rlimit(100)]
pub fn update_aliens(
    aliens: &mut Vec<Alien>,
    manager: &mut AlienManager,
    res: &Resolution,
    dt: i64,
    player_killed: &mut Vec<PlayerKilledEvent>,
    level_completed: &mut Vec<LevelCompletedEvent>,
    speed_changed: &mut Vec<SpeedChangedEvent>,
)
    requires
        old(manager).wf(),
        0 <= old(manager).speed <= SPEED_LIMIT,
        -TIMER_LIMIT <= old(manager).reset_cooldown <= TIMER_LIMIT,
        0 <= dt <= DT_LIMIT,
        res.wf(),
        aliens_bounded(old(aliens)@, PLAY_LIMIT as int),
        old(aliens)@.len() <= ALIEN_LIMIT,
    ensures
        final(aliens)@ == moved_seq(
            old(aliens)@,
            old(manager).direction as int,
            old(manager).speed as int,
            dt as int,
        ),
        final(manager).wf(),
        final(manager).direction == old(manager).direction,
        final(manager).speed == old(manager).speed + ALIEN_SPEED_INCREMENT * crossings(
            old(manager).prev_alien_count as int,
            alive_count(final(aliens)@),
        ),
        final(manager).prev_alien_count == alive_count(final(aliens)@),
        final(manager).shift_aliens_down == (old(manager).shift_aliens_down || some_overshoot(
            final(aliens)@,
            res.margin(),
        )),
        some_overshoot(final(aliens)@, res.margin()) ==> final(manager).dist_from_boundary
            == res.margin() * old(manager).direction - final(aliens)@[furthest_overshoot_index(
            final(aliens)@,
            res.margin(),
            old(manager).direction as int,
        )].position.x,
        !some_overshoot(final(aliens)@, res.margin()) ==> final(manager).dist_from_boundary == old(
            manager,
        ).dist_from_boundary,
        final(manager).reset == (old(manager).reset || below_count(
            final(aliens)@,
            res.lower_bound(),
        ) > 0 || alive_count(final(aliens)@) == 0),
        final(manager).reset_cooldown == (if alive_count(final(aliens)@) == 0 && old(
            manager,
        ).reset_cooldown - dt < 0 {
            RESET_COOLDOWN_MS as int
        } else {
            old(manager).reset_cooldown - dt
        }),
        final(player_killed)@.len() == old(player_killed)@.len() + below_count(
            final(aliens)@,
            res.lower_bound(),
        ),
        final(level_completed)@.len() == old(level_completed)@.len() + (if alive_count(
            final(aliens)@,
        ) == 0 && old(manager).reset_cooldown - dt < 0 {
            1int
        } else {
            0int
        }),
        final(speed_changed)@ == old(speed_changed)@ + speed_change_events(
            old(manager).speed as int,
            old(manager).prev_alien_count as int,
            alive_count(final(aliens)@),
        ),
{
    let ghost d = old(manager).direction as int;
    let ghost sp = old(manager).speed as int;
    let margin = res.margin_value();
    let lower = res.lower_bound_value();
    manager.reset_cooldown = manager.reset_cooldown - dt;
    let step = manager.direction * manager.speed;
    proof {
        assert(step == d * sp && -SPEED_LIMIT <= step <= SPEED_LIMIT) by (nonlinear_arith)
            requires
                (d == 1 || d == -1) && step == d * sp && 0 <= sp <= SPEED_LIMIT,
        ;
    }
    proof {
        assert(step * dt == d * sp * dt && -SPEED_LIMIT * DT_LIMIT <= step * dt <= SPEED_LIMIT
            * DT_LIMIT) by (nonlinear_arith)
            requires
                step == d * sp && -SPEED_LIMIT <= step <= SPEED_LIMIT && 0 <= dt <= DT_LIMIT,
        ;
    }
    let step = step * dt;
    proof {
        assert(margin as int * d == (if d == 1 {
            margin as int
        } else {
            -(margin as int)
        })) by (nonlinear_arith)
            requires
                d == 1 || d == -1,
        ;
    }
    let margin_dir = margin * manager.direction;
    let mut count: i64 = 0;
    let mut has_over = false;
    let mut best_x: i64 = 0;
    let mut best_metric: i64 = 0;
    let mut i: usize = 0;
    while i < aliens.len()
        invariant
            i <= aliens@.len() == old(aliens)@.len(),
            step == d * sp * dt,
            -SPEED_LIMIT * DT_LIMIT <= step <= SPEED_LIMIT * DT_LIMIT,
            margin_dir == margin as int * d,
            forall|k: int| i <= k < aliens@.len() ==> aliens@[k] == old(aliens)@[k],
            forall|k: int|
                0 <= k < i ==> aliens@[k] == moved_alien(
                    #[trigger] old(aliens)@[k],
                    d,
                    sp,
                    dt as int,
                ),
            count == alive_count(aliens@.take(i as int)),
            manager.direction == old(manager).direction,
            manager.speed == old(manager).speed,
            manager.prev_alien_count == old(manager).prev_alien_count,
            manager.reset_cooldown == old(manager).reset_cooldown - dt,
            manager.shift_aliens_down == old(manager).shift_aliens_down,
            manager.dist_from_boundary == old(manager).dist_from_boundary,
            has_over == some_overshoot(aliens@.take(i as int), margin as int),
            has_over ==> {
                let f = furthest_overshoot_index(aliens@.take(i as int), margin as int, d);
                &&& 0 <= f < i
                &&& best_x == aliens@.take(i as int)[f].position.x
                &&& best_metric == d * best_x
            },
            manager.reset == (old(manager).reset || below_count(
                aliens@.take(i as int),
                lower as int,
            ) > 0),
            player_killed@.len() == old(player_killed)@.len() + below_count(
                aliens@.take(i as int),
                lower as int,
            ),
            level_completed@ == old(level_completed)@,
            speed_changed@ == old(speed_changed)@,
        decreases aliens@.len() - i,
    {
        let ghost prev_take = aliens@.take(i as int);
        proof {
            lemma_alive_count_bounds(prev_take);
            lemma_below_count_bounds(prev_take, lower as int);
            lemma_furthest_overshoot_index_props(prev_take, margin as int, d);
        }
        let a = aliens[i];
        let ghost mut metric_new: int = 0;
        if !a.dead {
            let nx = a.position.x + step;
            aliens.set(
                i,
                Alien {
                    dead: a.dead,
                    position: Vec2i { x: nx, y: a.position.y },
                    original_position: a.original_position,
                    alien_type: a.alien_type,
                },
            );
            if nx > margin || nx < -margin {
                let metric = if manager.direction == 1 {
                    nx
                } else {
                    -nx
                };
                proof {
                    assert(metric == d * nx) by (nonlinear_arith)
                        requires
                            (d == 1 && metric == nx) || (d == -1 && metric == -nx),
                    ;
                    metric_new = metric as int;
                }
                if !has_over || metric > best_metric {
                    has_over = true;
                    best_x = nx;
                    best_metric = metric;
                }
            }
            if a.position.y < lower {
                manager.reset = true;
                player_killed.push(PlayerKilledEvent {});
            }
            count = count + 1;
        }
        proof {
            let cur_take = aliens@.take(i as int + 1);
            assert(cur_take.drop_last() =~= prev_take);
            assert(cur_take.last() == aliens@[i as int]);
            assert(forall|k: int| 0 <= k < prev_take.len() ==> prev_take[k] == #[trigger] cur_take[k]);
            if !some_overshoot(cur_take, margin as int) {
                assert(!some_overshoot(prev_take, margin as int));
            }
            if some_overshoot(cur_take, margin as int) && !overshooting(
                cur_take.last(),
                margin as int,
            ) {
                assert(some_overshoot(prev_take, margin as int)) by {
                    let k = choose|k: int|
                        0 <= k < cur_take.len() && overshooting(#[trigger] cur_take[k], margin as int);
                    assert(prev_take[k] == cur_take[k]);
                }
            }
            if overshooting(cur_take.last(), margin as int) {
                assert(some_overshoot(cur_take, margin as int));
                assert(d * cur_take.last().position.x == metric_new);
                let rest = furthest_overshoot_index(prev_take, margin as int, d);
                if rest >= 0 {
                    assert(cur_take[rest] == prev_take[rest]);
                }
            }
        }
        i = i + 1;
    }
    proof {
        assert(aliens@.take(aliens@.len() as int) =~= aliens@);
        assert(aliens@ =~= moved_seq(old(aliens)@, d, sp, dt as int));
    }
    if has_over {
        proof {
            lemma_furthest_overshoot_index_props(aliens@, margin as int, d);
            let f = furthest_overshoot_index(aliens@, margin as int, d);
            assert(aliens@[f] == moved_alien(old(aliens)@[f], d, sp, dt as int));
        }
        manager.shift_aliens_down = true;
        manager.dist_from_boundary = margin_dir - best_x;
    }
    if count == 0 {
        manager.reset = true;
        if manager.reset_cooldown < 0 {
            manager.reset_cooldown = RESET_COOLDOWN_MS;
            level_completed.push(LevelCompletedEvent {});
        }
    }
    let prev = manager.prev_alien_count;
    let ghost speed0 = manager.speed as int;
    let mut num_crossed: i64 = 0;
    if count < 30 && prev >= 30 {
        num_crossed = num_crossed + 1;
    }
    if count < 20 && prev >= 20 {
        num_crossed = num_crossed + 1;
    }
    if count < 10 && prev >= 10 {
        num_crossed = num_crossed + 1;
    }
    if count < 3 && prev >= 3 {
        num_crossed = num_crossed + 1;
    }
    assert(num_crossed == crossings(prev as int, count as int));
    let ghost m_mid = *manager;
    let mut k: i64 = 0;
    while k < num_crossed
        invariant
            0 <= k <= num_crossed,
            num_crossed == crossings(prev as int, count as int),
            0 <= speed0 <= SPEED_LIMIT,
            *manager == (AlienManager {
                speed: (speed0 + k * ALIEN_SPEED_INCREMENT) as i64,
                ..m_mid
            }),
            speed_changed@ == old(speed_changed)@ + speed_change_events(
                speed0,
                prev as int,
                count as int,
            ).take(k as int),
        decreases num_crossed - k,
    {
        manager.speed = manager.speed + ALIEN_SPEED_INCREMENT;
        speed_changed.push(SpeedChangedEvent { speed: manager.speed });
        k = k + 1;
        proof {
            let evs = speed_change_events(speed0, prev as int, count as int);
            assert(evs.take(k as int) =~= evs.take(k as int - 1).push(evs[k as int - 1]));
        }
    }
    proof {
        let evs = speed_change_events(speed0, prev as int, count as int);
        assert(evs.take(num_crossed as int) =~= evs);
    }
    manager.prev_alien_count = count;
}

/// The alien kind a layout-mask cell spawns; any other value leaves the cell
/// empty.
pub open spec fn mask_alien_type(v: u8) -> AlienType {
    if v == 1 {
        AlienType::Worker
    } else if v == 2 {
        AlienType::Soldier
    } else if v == 3 {
        AlienType::Queen
    } else {
        AlienType::Empty
    }
}

/// Where the alien of a mask cell spawns: columns centred on the screen,
/// rows stacked upward from a fixed offset.
pub open spec fn spawn_position(row: int, col: int, cols: int) -> Vec2i {
    Vec2i {
        x: (col * HORIZ_SPACING - cols * (HORIZ_SPACING / 2)) as i64,
        y: (row * VERT_SPACING + VERT_OFFSET) as i64,
    }
}

pub open spec fn spawned_alien(row: int, col: int, cols: int, v: u8) -> Alien {
    Alien {
        dead: false,
        position: spawn_position(row, col, cols),
        original_position: spawn_position(row, col, cols),
        alien_type: mask_alien_type(v),
    }
}

/// The aliens one mask row spawns, in column order, skipping empty cells.
pub open spec fn wave_row(vals: Seq<u8>, row: int, cols: int) -> Seq<Alien>
    decreases vals.len(),
{
    if vals.len() == 0 {
        Seq::empty()
    } else {
        wave_row(vals.drop_last(), row, cols) + (if mask_alien_type(vals.last())
            == AlienType::Empty {
            Seq::empty()
        } else {
            seq![spawned_alien(row, vals.len() - 1, cols, vals.last())]
        })
    }
}

/// The aliens a whole mask spawns, in row-major order.
pub open spec fn wave_aliens(mask: Seq<Seq<u8>>, cols: int) -> Seq<Alien>
    decreases mask.len(),
{
    if mask.len() == 0 {
        Seq::empty()
    } else {
        wave_aliens(mask.drop_last(), cols) + wave_row(mask.last(), mask.len() - 1, cols)
    }
}

pub open spec fn mask_view(mask: Seq<Vec<u8>>) -> Seq<Seq<u8>> {
    mask.map_values(|row: Vec<u8>| row@)
}

/// Largest accepted mask dimension, rows and columns alike.
pub const MASK_LIMIT: usize = 1000;

/// Spawns one wave of aliens from a rectangular layout mask: cell values of
/// one, two and three place a worker, soldier and queen; anything else leaves
/// the cell empty.
#[verifier::loop_isolation(false)]
pub fn setup_wave(mask: &Vec<Vec<u8>>) -> (aliens: Vec<Alien>)
    requires
        mask@.len() <= MASK_LIMIT,
        forall|r: int| 0 <= r < mask@.len() ==> (#[trigger] mask@[r])@.len() == mask@[0]@.len(),
        mask@.len() > 0 ==> mask@[0]@.len() <= MASK_LIMIT,
    ensures
        aliens@ == wave_aliens(
            mask_view(mask@),
            if mask@.len() == 0 {
                0int
            } else {
                mask@[0]@.len() as int
            },
        ),
{
    let mut aliens: Vec<Alien> = Vec::new();
    let rows = mask.len();
    if rows == 0 {
        proof {
            assert(aliens@ =~= wave_aliens(mask_view(mask@), 0));
        }
        return aliens;
    }
    let cols = mask[0].len();
    let mut r: usize = 0;
    while r < rows
        invariant
            r <= rows,
            aliens@ == wave_aliens(mask_view(mask@).take(r as int), cols as int),
        decreases rows - r,
    {
        let row_vec = &mask[r];
        let mut c: usize = 0;
        while c < row_vec.len()
            invariant
                c <= row_vec@.len() == cols,
                aliens@ == wave_aliens(mask_view(mask@).take(r as int), cols as int) + wave_row(
                    row_vec@.take(c as int),
                    r as int,
                    cols as int,
                ),
            decreases row_vec@.len() - c,
        {
            let v = row_vec[c];
            if v == 1 || v == 2 || v == 3 {
                let x = (c as i64) * HORIZ_SPACING - (cols as i64) * (HORIZ_SPACING / 2);
                let y = (r as i64) * VERT_SPACING + VERT_OFFSET;
                let at = if v == 1 {
                    AlienType::Worker
                } else if v == 2 {
                    AlienType::Soldier
                } else {
                    AlienType::Queen
                };
                aliens.push(
                    Alien {
                        dead: false,
                        position: Vec2i { x, y },
                        original_position: Vec2i { x, y },
                        alien_type: at,
                    },
                );
            }
            proof {
                assert(row_vec@.take(c as int + 1).drop_last() =~= row_vec@.take(c as int));
            }
            c = c + 1;
        }
        proof {
            assert(row_vec@.take(cols as int) =~= row_vec@);
            let mv = mask_view(mask@);
            assert(mv.take(r as int + 1).drop_last() =~= mv.take(r as int));
            assert(mv.take(r as int + 1).last() == row_vec@);
        }
        r = r + 1;
    }
    proof {
        assert(mask_view(mask@).take(rows as int) =~= mask_view(mask@));
    }
    aliens
}

pub open spec fn default_mask_spec() -> Seq<Seq<u8>> {
    seq![
        Seq::new(11, |c: int| 1u8),
        Seq::new(11, |c: int| 1u8),
        Seq::new(11, |c: int| 2u8),
        Seq::new(11, |c: int| 3u8),
    ]
}

fn mask_row(v: u8, n: usize) -> (row: Vec<u8>)
    ensures
        row@ == Seq::new(n as nat, |c: int| v),
{
    let mut row: Vec<u8> = Vec::new();
    let mut c: usize = 0;
    while c < n
        invariant
            c <= n,
            row@ == Seq::new(n as nat, |k: int| v).take(c as int),
        decreases n - c,
    {
        row.push(v);
        c = c + 1;
        proof {
            let all = Seq::new(n as nat, |k: int| v);
            assert(all.take(c as int) =~= all.take(c as int - 1).push(v));
        }
    }
    proof {
        assert(Seq::new(n as nat, |k: int| v).take(n as int) =~= Seq::new(n as nat, |k: int| v));
    }
    row
}

/// The stock wave layout: two rows of workers under a row of soldiers and a
/// row of queens, eleven columns wide.
pub fn default_mask() -> (mask: Vec<Vec<u8>>)
    ensures
        mask_view(mask@) == default_mask_spec(),
{
    let mut mask: Vec<Vec<u8>> = Vec::new();
    mask.push(mask_row(1, 11));
    mask.push(mask_row(1, 11));
    mask.push(mask_row(2, 11));
    mask.push(mask_row(3, 11));
    proof {
        assert(mask_view(mask@) =~= default_mask_spec());
    }
    mask
}

/// An alien after the deferred boundary shift: moved back inside by the
/// recorded correction and down by the fixed shift amount.
pub open spec fn shifted_alien(a: Alien, dist: int) -> Alien {
    Alien {
        dead: a.dead,
        position: Vec2i {
            x: (a.position.x + dist) as i64,
            y: (a.position.y - ALIEN_SHIFT_AMOUNT) as i64,
        },
        original_position: a.original_position,
        alien_type: a.alien_type,
    }
}

/// An alien after a wave reset: back at its spawn position and revived.
pub open spec fn revived_alien(a: Alien) -> Alien {
    Alien {
        dead: false,
        position: a.original_position,
        original_position: a.original_position,
        alien_type: a.alien_type,
    }
}

/// An alien after the deferred-state phase of one tick: a pending reset wins
/// over a pending shift, as the reset loop runs second and overwrites.
pub open spec fn managed_alien(a: Alien, reset: bool, shift: bool, dist: int) -> Alien {
    if reset {
        revived_alien(a)
    } else if shift {
        shifted_alien(a, dist)
    } else {
        a
    }
}

/// Deferred-state application, run after movement: a pending shift flips the
/// travel direction and moves every alien by the recorded correction and one
/// step down; a pending reset restores every alien to its spawn position,
/// revives it, and points the formation right again.
#[verifier::loop_isolation(false)]
pub fn manage_alien_logic(aliens: &mut Vec<Alien>, manager: &mut AlienManager)
    requires
        old(manager).wf(),
        -PLAY_LIMIT <= old(manager).dist_from_boundary <= PLAY_LIMIT,
        aliens_bounded(old(aliens)@, 2 * PLAY_LIMIT as int),
        originals_bounded(old(aliens)@, PLAY_LIMIT as int),
    ensures
        final(aliens)@.len() == old(aliens)@.len(),
        forall|k: int|
            0 <= k < old(aliens)@.len() ==> final(aliens)@[k] == managed_alien(
                #[trigger] old(aliens)@[k],
                old(manager).reset,
                old(manager).shift_aliens_down,
                old(manager).dist_from_boundary as int,
            ),
        final(manager).wf(),
        final(manager).shift_aliens_down == false,
        final(manager).reset == false,
        final(manager).direction as int == (if old(manager).reset {
            1int
        } else if old(manager).shift_aliens_down {
            -(old(manager).direction as int)
        } else {
            old(manager).direction as int
        }),
        final(manager).dist_from_boundary == old(manager).dist_from_boundary,
        final(manager).speed == old(manager).speed,
        final(manager).prev_alien_count == old(manager).prev_alien_count,
        final(manager).reset_cooldown == old(manager).reset_cooldown,
{
    if manager.shift_aliens_down {
        manager.shift_aliens_down = false;
        manager.direction = -manager.direction;
        let mut i: usize = 0;
        while i < aliens.len()
            invariant
                i <= aliens@.len() == old(aliens)@.len(),
                forall|k: int| i <= k < aliens@.len() ==> aliens@[k] == old(aliens)@[k],
                forall|k: int|
                    0 <= k < i ==> aliens@[k] == shifted_alien(
                        #[trigger] old(aliens)@[k],
                        old(manager).dist_from_boundary as int,
                    ),
            decreases aliens@.len() - i,
        {
            let a = aliens[i];
            aliens.set(
                i,
                Alien {
                    dead: a.dead,
                    position: Vec2i {
                        x: a.position.x + manager.dist_from_boundary,
                        y: a.position.y - ALIEN_SHIFT_AMOUNT,
                    },
                    original_position: a.original_position,
                    alien_type: a.alien_type,
                },
            );
            i = i + 1;
        }
    }
    if manager.reset {
        manager.reset = false;
        manager.direction = 1;
        let mut i: usize = 0;
        while i < aliens.len()
            invariant
                i <= aliens@.len() == old(aliens)@.len(),
                forall|k: int|
                    i <= k < aliens@.len() ==> (#[trigger] aliens@[k]).original_position == old(
                        aliens,
                    )@[k].original_position && aliens@[k].alien_type == old(aliens)@[k].alien_type,
                forall|k: int|
                    0 <= k < i ==> aliens@[k] == revived_alien(#[trigger] old(aliens)@[k]),
            decreases aliens@.len() - i,
        {
            let a = aliens[i];
            aliens.set(
                i,
                Alien {
                    dead: false,
                    position: a.original_position,
                    original_position: a.original_position,
                    alien_type: a.alien_type,
                },
            );
            i = i + 1;
        }
    }
}

/// Speed reset on player death: every player-killed event arms a formation
/// reset, restores the initial speed, and announces it.
#[verifier::loop_isolation(false)]
pub fn player_killed(
    manager: &mut AlienManager,
    events: &Vec<PlayerKilledEvent>,
    speed_changed: &mut Vec<SpeedChangedEvent>,
)
    ensures
        events@.len() == 0 ==> *final(manager) == *old(manager),
        events@.len() > 0 ==> *final(manager) == (AlienManager {
            reset: true,
            speed: INITIAL_ALIEN_SPEED,
            ..*old(manager)
        }),
        final(speed_changed)@ == old(speed_changed)@ + Seq::new(
            events@.len(),
            |k: int| SpeedChangedEvent { speed: INITIAL_ALIEN_SPEED },
        ),
{
    let ghost all = Seq::new(
        events@.len(),
        |k: int| SpeedChangedEvent { speed: INITIAL_ALIEN_SPEED },
    );
    let mut i: usize = 0;
    while i < events.len()
        invariant
            i <= events@.len(),
            i == 0 ==> *manager == *old(manager),
            i > 0 ==> *manager == (AlienManager {
                reset: true,
                speed: INITIAL_ALIEN_SPEED,
                ..*old(manager)
            }),
            speed_changed@ == old(speed_changed)@ + all.take(i as int),
        decreases events@.len() - i,
    {
        manager.reset = true;
        manager.speed = INITIAL_ALIEN_SPEED;
        speed_changed.push(SpeedChangedEvent { speed: INITIAL_ALIEN_SPEED });
        i = i + 1;
        proof {
            assert(all.take(i as int) =~= all.take(i as int - 1).push(all[i as int - 1]));
        }
    }
    proof {
        assert(all.take(events@.len() as int) =~= all);
    }
}

} // verus!
