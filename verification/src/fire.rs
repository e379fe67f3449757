//! Area fire: spawned at kill locations up to a global cap, burning for a
//! fixed lifetime, and killing every living alien within its radius — the
//! hazard that makes kills chain.

use vstd::prelude::*;

use crate::alien::{Alien, aliens_bounded};
use crate::geom::{Vec2i, COORD_LIMIT, DT_LIMIT, TIMER_LIMIT};
use crate::projectile::{
    AlienKilledEvent, points_bounded, strike_aliens, strike_events, struck_alien,
};

verus! {

/// Collision radius between a fire and an alien.
pub const FIRE_RADIUS: i64 = 10_000;

/// How long a fire burns, in milliseconds.
pub const FIRE_LIFESPAN_MS: i64 = 2000;

/// Most fires alight at once; kill events past the cap spawn nothing.
pub const MAX_FIRES: i64 = 20;

/// Largest batch of kill events accepted in one tick.
pub const KILL_EVENT_LIMIT: usize = 1_000_000;

/// One patch of burning ground; `time_remaining` counts down to its end.
#[derive(Clone, Copy, PartialEq, Eq, Structural, Debug)]
pub struct Fire {
    pub position: Vec2i,
    pub time_remaining: i64,
}

/// The authoritative count of burning fires, enforcing the cap.
#[derive(Clone, Copy, PartialEq, Eq, Structural, Debug)]
pub struct FireManager {
    pub num_fires: i64,
}

impl FireManager {
    pub fn new() -> (m: FireManager)
        ensures
            m.num_fires == 0,
    {
        FireManager { num_fires: 0 }
    }
}

/// Positions within `b` of the origin and lifetimes within the timer bound.
pub open spec fn fires_ok(fs: Seq<Fire>, b: int) -> bool {
    forall|k: int|
        0 <= k < fs.len() ==> {
            let f = #[trigger] fs[k];
            -b <= f.position.x <= b && -b <= f.position.y <= b && -TIMER_LIMIT
                <= f.time_remaining <= TIMER_LIMIT
        }
}

/// The fire store after reacting to a batch of kill events in order: one
/// fresh fire at each kill location while the count stays under the cap.
pub open spec fn spawned_fires(fires0: Seq<Fire>, n0: int, kills: Seq<AlienKilledEvent>) -> Seq<
    Fire,
>
    decreases kills.len(),
{
    if kills.len() == 0 {
        fires0
    } else {
        let prev = spawned_fires(fires0, n0, kills.drop_last());
        if n0 + prev.len() - fires0.len() < MAX_FIRES {
            prev.push(Fire { position: kills.last().location, time_remaining: FIRE_LIFESPAN_MS })
        } else {
            prev
        }
    }
}

/// The fire is freshly lit at the location of one of the kills.
pub open spec fn fresh_fire_at(f: Fire, kills: Seq<AlienKilledEvent>) -> bool {
    exists|j: int|
        0 <= j < kills.len() && f == (Fire {
            position: (#[trigger] kills[j]).location,
            time_remaining: FIRE_LIFESPAN_MS,
        })
}

/// What a spawn pass can do: it appends only, every appended fire is fresh
/// and stands at a kill location, and it never pushes the count past the cap.
pub proof fn lemma_spawned_fires_shape(fires0: Seq<Fire>, n0: int, kills: Seq<AlienKilledEvent>)
    ensures
        spawned_fires(fires0, n0, kills).len() >= fires0.len(),
        spawned_fires(fires0, n0, kills).len() <= fires0.len() + kills.len(),
        forall|k: int|
            0 <= k < fires0.len() ==> spawned_fires(fires0, n0, kills)[k] == fires0[k],
        forall|k: int|
            fires0.len() <= k < spawned_fires(fires0, n0, kills).len() ==> fresh_fire_at(
                #[trigger] spawned_fires(fires0, n0, kills)[k],
                kills,
            ),
        n0 <= MAX_FIRES ==> n0 + spawned_fires(fires0, n0, kills).len() - fires0.len()
            <= MAX_FIRES,
        n0 >= MAX_FIRES ==> spawned_fires(fires0, n0, kills) == fires0,
    decreases kills.len(),
{
    if kills.len() > 0 {
        lemma_spawned_fires_shape(fires0, n0, kills.drop_last());
        assert(forall|j: int|
            0 <= j < kills.drop_last().len() ==> kills.drop_last()[j] == #[trigger] kills[j]);
    }
}

/// Fire spawning, run on the kill events of the tick: each kill ignites a
/// fire at its location unless the cap is already reached.
#[verifier::loop_isolation(false)]
pub fn spawn_fire(fires: &mut Vec<Fire>, manager: &mut FireManager, kills: &Vec<AlienKilledEvent>)
    requires
        -MAX_FIRES <= old(manager).num_fires <= MAX_FIRES,
        kills@.len() <= KILL_EVENT_LIMIT,
    ensures
        final(fires)@ == spawned_fires(old(fires)@, old(manager).num_fires as int, kills@),
        final(manager).num_fires == old(manager).num_fires + (final(fires)@.len() - old(
            fires,
        )@.len()),
        final(manager).num_fires <= MAX_FIRES,
        final(manager).num_fires >= old(manager).num_fires,
{
    let ghost n0 = old(manager).num_fires as int;
    let mut k: usize = 0;
    while k < kills.len()
        invariant
            k <= kills@.len(),
            fires@ == spawned_fires(old(fires)@, n0, kills@.take(k as int)),
            manager.num_fires == n0 + (fires@.len() - old(fires)@.len()),
            fires@.len() >= old(fires)@.len(),
            manager.num_fires <= MAX_FIRES || manager.num_fires == n0,
        decreases kills@.len() - k,
    {
        if manager.num_fires < MAX_FIRES {
            fires.push(Fire { position: kills[k].location, time_remaining: FIRE_LIFESPAN_MS });
            manager.num_fires = manager.num_fires + 1;
        }
        proof {
            let cur = kills@.take(k as int + 1);
            assert(cur.drop_last() =~= kills@.take(k as int));
            assert(cur.last() == kills@[k as int]);
        }
        k = k + 1;
    }
    proof {
        assert(kills@.take(kills@.len() as int) =~= kills@);
    }
}

/// A fire after one tick: its remaining lifetime shortened by the elapsed
/// time.
pub open spec fn aged_fire(f: Fire, dt: int) -> Fire {
    Fire { position: f.position, time_remaining: (f.time_remaining - dt) as i64 }
}

/// The fires that keep burning after one tick, each aged by the elapsed
/// time.
pub open spec fn surviving_fires(fs: Seq<Fire>, dt: int) -> Seq<Fire>
    decreases fs.len(),
{
    if fs.len() == 0 {
        Seq::empty()
    } else {
        let m = aged_fire(fs.last(), dt);
        surviving_fires(fs.drop_last(), dt) + (if m.time_remaining < 0 {
            Seq::empty()
        } else {
            seq![m]
        })
    }
}

/// Burns every fire down by the elapsed time and puts out those whose
/// lifetime ran out, keeping the count in step.
#[verifier::loop_isolation(false)]
pub fn update_fire(fires: &mut Vec<Fire>, manager: &mut FireManager, dt: i64)
    requires
        0 <= dt <= DT_LIMIT,
        fires_ok(old(fires)@, COORD_LIMIT as int),
        old(fires)@.len() <= KILL_EVENT_LIMIT,
        -TIMER_LIMIT <= old(manager).num_fires <= TIMER_LIMIT,
    ensures
        final(fires)@ == surviving_fires(old(fires)@, dt as int),
        final(manager).num_fires == old(manager).num_fires - (old(fires)@.len()
            - final(fires)@.len()),
{
    let mut kept: Vec<Fire> = Vec::new();
    let mut i: usize = 0;
    while i < fires.len()
        invariant
            i <= fires@.len(),
            fires@ == old(fires)@,
            kept@ == surviving_fires(fires@.take(i as int), dt as int),
            kept@.len() <= i,
            manager.num_fires == old(manager).num_fires - (i - kept@.len()),
        decreases fires@.len() - i,
    {
        let f = fires[i];
        let nt = f.time_remaining - dt;
        if nt < 0 {
            manager.num_fires = manager.num_fires - 1;
        } else {
            kept.push(Fire { position: f.position, time_remaining: nt });
        }
        proof {
            let cur = fires@.take(i as int + 1);
            assert(cur.drop_last() =~= fires@.take(i as int));
            assert(cur.last() == fires@[i as int]);
        }
        i = i + 1;
    }
    proof {
        assert(fires@.take(fires@.len() as int) =~= fires@);
    }
    *fires = kept;
}

/// Burning fires down moves nothing: every survivor keeps its position, its
/// lifetime stays within the timer bound, and the store never grows.
pub proof fn lemma_surviving_fires_ok(fs: Seq<Fire>, dt: int, b: int)
    requires
        fires_ok(fs, b),
        0 <= dt <= DT_LIMIT,
    ensures
        fires_ok(surviving_fires(fs, dt), b),
        surviving_fires(fs, dt).len() <= fs.len(),
    decreases fs.len(),
{
    if fs.len() > 0 {
        assert(forall|k: int|
            0 <= k < fs.drop_last().len() ==> fs.drop_last()[k] == #[trigger] fs[k]);
        lemma_surviving_fires_ok(fs.drop_last(), dt, b);
    }
}

pub open spec fn fire_positions(fs: Seq<Fire>) -> Seq<Vec2i> {
    fs.map_values(|f: Fire| f.position)
}

/// Fire-versus-alien collision: every living alien standing in a fire dies
/// and is announced once; the fire itself keeps burning, so one fire can
/// kill again next tick.
#[verifier::loop_isolation(false)]
pub fn update_fire_interactions(
    aliens: &mut Vec<Alien>,
    fires: &Vec<Fire>,
    events: &mut Vec<AlienKilledEvent>,
)
    requires
        aliens_bounded(old(aliens)@, COORD_LIMIT as int),
        fires_ok(fires@, COORD_LIMIT as int),
    ensures
        final(aliens)@.len() == old(aliens)@.len(),
        forall|k: int|
            0 <= k < old(aliens)@.len() ==> final(aliens)@[k] == struck_alien(
                #[trigger] old(aliens)@[k],
                fire_positions(fires@),
                FIRE_RADIUS as int,
            ),
        final(events)@ == old(events)@ + strike_events(
            old(aliens)@,
            fire_positions(fires@),
            FIRE_RADIUS as int,
        ),
{
    let mut pts: Vec<Vec2i> = Vec::new();
    let mut j: usize = 0;
    while j < fires.len()
        invariant
            j <= fires@.len(),
            pts@ == fire_positions(fires@.take(j as int)),
        decreases fires@.len() - j,
    {
        pts.push(fires[j].position);
        j = j + 1;
        proof {
            assert(pts@ =~= fire_positions(fires@.take(j as int)));
        }
    }
    proof {
        assert(fires@.take(fires@.len() as int) =~= fires@);
        assert(points_bounded(pts@, COORD_LIMIT as int));
    }
    strike_aliens(aliens, &pts, FIRE_RADIUS, events);
}

} // verus!
