//! Pickup capsules: released with a fixed chance at kill locations, capped
//! at a global count, falling until they leave the screen or reach the
//! player. The count is the authoritative cap enforcement and stays in step
//! with the live capsules across spawn and despawn.

use vstd::prelude::*;

use rand::Rng;

use crate::geom::{Vec2i, Resolution, in_radius, within_radius, COORD_LIMIT, DT_LIMIT, RADIUS_LIMIT, SPEED_LIMIT};
use crate::projectile::AlienKilledEvent;

verus! {

/// Emitted when a capsule is released at a kill location.
#[derive(Clone, Copy, PartialEq, Eq, Structural, Debug)]
pub struct CapsuleReleasedEvent {}

/// Emitted when the player picks a capsule up.
#[derive(Clone, Copy, PartialEq, Eq, Structural, Debug)]
pub struct CapsuleCollisionEvent {}

/// A falling pickup; `speed` is its downward travel in units per
/// millisecond.
#[derive(Clone, Copy, PartialEq, Eq, Structural, Debug)]
pub struct Capsule {
    pub position: Vec2i,
    pub speed: i64,
}

/// The authoritative count of live capsules, enforcing the cap.
#[derive(Clone, Copy, PartialEq, Eq, Structural, Debug)]
pub struct CapsuleCounter {
    pub num_capsules: i64,
}

/// Collision radius between a capsule and the player.
pub const CAPSULE_RADIUS: i64 = 24_000;

/// Most capsules on screen at one time.
pub const MAX_CAPSULES: i64 = 1;

/// Downward speed of a falling capsule, in units per millisecond.
pub const CAPSULE_FALL_SPEED: i64 = 120;

/// The spawn draw is uniform below this bound.
pub const CAPSULE_DRAW_BOUND: u32 = 1000;

/// A capsule spawns when the draw lands under this value: a four-percent
/// chance out of `CAPSULE_DRAW_BOUND`.
pub const CAPSULE_PCT_OF_DRAW: u32 = 40;

/// Largest batch of kill events accepted in one tick.
pub const CAPSULE_EVENT_LIMIT: usize = 1_000_000;

impl CapsuleCounter {
    pub fn new() -> (c: CapsuleCounter)
        ensures
            c.num_capsules == 0,
    {
        CapsuleCounter { num_capsules: 0 }
    }
}

/// Relies on rand::Rng::gen_range over the thread-local generator
/// rand::thread_rng: on the half-open range from zero to `n` it returns a
/// value below `n`. Its only input-dependent panic is the empty range, which
/// `n > 0` rules out; like any use of the thread-local generator it can
/// still abort if the operating system's entropy source fails, an
/// environment failure no precondition can express.
#[verifier::external_body]
pub(crate) fn rand_below(n: u32) -> (r: u32)
    requires
        n > 0,
    ensures
        r < n,
{
    rand::thread_rng().gen_range(0..n)
}

/// Positions within `b` of the origin and speeds within the speed bound.
pub open spec fn capsules_ok(cs: Seq<Capsule>, b: int) -> bool {
    forall|k: int|
        0 <= k < cs.len() ==> {
            let c = #[trigger] cs[k];
            -b <= c.position.x <= b && -b <= c.position.y <= b && 0 <= c.speed <= SPEED_LIMIT
        }
}

pub open spec fn capsule_at(location: Vec2i) -> Capsule {
    Capsule { position: location, speed: CAPSULE_FALL_SPEED }
}

/// The capsule store after reacting to a batch of kill events in order: the
/// kill at index `j` releases a capsule at its location exactly when its
/// draw landed under the spawn chance and the count still sat under the cap.
pub open spec fn spawned_capsules(
    caps0: Seq<Capsule>,
    n0: int,
    kills: Seq<AlienKilledEvent>,
    draws: Seq<u32>,
) -> Seq<Capsule>
    decreases kills.len(),
{
    if kills.len() == 0 {
        caps0
    } else {
        let prev = spawned_capsules(caps0, n0, kills.drop_last(), draws);
        if n0 + prev.len() - caps0.len() < MAX_CAPSULES && draws[kills.len() - 1]
            < CAPSULE_PCT_OF_DRAW {
            prev.push(capsule_at(kills.last().location))
        } else {
            prev
        }
    }
}

/// The capsule is freshly released at the location of one of the kills.
pub open spec fn fresh_capsule_at(c: Capsule, kills: Seq<AlienKilledEvent>) -> bool {
    exists|j: int| 0 <= j < kills.len() && c == capsule_at((#[trigger] kills[j]).location)
}

/// What a spawn pass can do: it appends only, every appended capsule is
/// fresh at a kill location, and it never pushes the count past the cap.
pub proof fn lemma_spawned_capsules_shape(
    caps0: Seq<Capsule>,
    n0: int,
    kills: Seq<AlienKilledEvent>,
    draws: Seq<u32>,
)
    ensures
        spawned_capsules(caps0, n0, kills, draws).len() >= caps0.len(),
        spawned_capsules(caps0, n0, kills, draws).len() <= caps0.len() + kills.len(),
        forall|k: int|
            0 <= k < caps0.len() ==> spawned_capsules(caps0, n0, kills, draws)[k] == caps0[k],
        forall|k: int|
            caps0.len() <= k < spawned_capsules(caps0, n0, kills, draws).len()
                ==> fresh_capsule_at(#[trigger] spawned_capsules(caps0, n0, kills, draws)[k], kills),
        n0 <= MAX_CAPSULES ==> n0 + spawned_capsules(caps0, n0, kills, draws).len() - caps0.len()
            <= MAX_CAPSULES,
        n0 >= MAX_CAPSULES ==> spawned_capsules(caps0, n0, kills, draws) == caps0,
    decreases kills.len(),
{
    if kills.len() > 0 {
        lemma_spawned_capsules_shape(caps0, n0, kills.drop_last(), draws);
        assert(forall|j: int|
            0 <= j < kills.drop_last().len() ==> kills.drop_last()[j] == #[trigger] kills[j]);
    }
}

/// Capsule spawning on given draws: the kill at index `j` releases a capsule
/// at its location exactly when draw `j` lands under the spawn chance and
/// the count still sits under the cap; each release is announced.
#[verifier::loop_isolation(false)]
pub fn spawn_capsules_from(
    capsules: &mut Vec<Capsule>,
    counter: &mut CapsuleCounter,
    kills: &Vec<AlienKilledEvent>,
    draws: &Vec<u32>,
    released: &mut Vec<CapsuleReleasedEvent>,
)
    requires
        draws@.len() == kills@.len(),
        -MAX_CAPSULES <= old(counter).num_capsules <= MAX_CAPSULES,
        kills@.len() <= CAPSULE_EVENT_LIMIT,
    ensures
        final(capsules)@ == spawned_capsules(
            old(capsules)@,
            old(counter).num_capsules as int,
            kills@,
            draws@,
        ),
        final(counter).num_capsules == old(counter).num_capsules + (final(capsules)@.len() - old(
            capsules,
        )@.len()),
        final(counter).num_capsules <= MAX_CAPSULES,
        final(counter).num_capsules >= old(counter).num_capsules,
        final(released)@.len() == old(released)@.len() + (final(capsules)@.len() - old(
            capsules,
        )@.len()),
{
    let ghost n0 = old(counter).num_capsules as int;
    let mut k: usize = 0;
    while k < kills.len()
        invariant
            k <= kills@.len(),
            capsules@ == spawned_capsules(old(capsules)@, n0, kills@.take(k as int), draws@),
            counter.num_capsules == n0 + (capsules@.len() - old(capsules)@.len()),
            capsules@.len() >= old(capsules)@.len(),
            counter.num_capsules <= MAX_CAPSULES || counter.num_capsules == n0,
            released@.len() == old(released)@.len() + (capsules@.len() - old(capsules)@.len()),
        decreases kills@.len() - k,
    {
        if counter.num_capsules < MAX_CAPSULES && draws[k] < CAPSULE_PCT_OF_DRAW {
            capsules.push(Capsule { position: kills[k].location, speed: CAPSULE_FALL_SPEED });
            counter.num_capsules = counter.num_capsules + 1;
            released.push(CapsuleReleasedEvent {});
        }
        proof {
            let cur = kills@.take(k as int + 1);
            assert(cur.drop_last() =~= kills@.take(k as int));
            assert(cur.last() == kills@[k as int]);
        }
        k = k + 1;
    }
    proof {
        assert(kills@.take(kills@.len() as int) =~= kills@);
    }
}

/// Capsule spawning, run on the kill events of the tick: each kill releases
/// a capsule with the fixed chance, under the cap. The draws come from the
/// thread-local generator, so only their range is known; everything else is
/// the deterministic pass on those draws.
pub fn spawn_capsules(
    capsules: &mut Vec<Capsule>,
    counter: &mut CapsuleCounter,
    kills: &Vec<AlienKilledEvent>,
    released: &mut Vec<CapsuleReleasedEvent>,
)
    requires
        -MAX_CAPSULES <= old(counter).num_capsules <= MAX_CAPSULES,
        kills@.len() <= CAPSULE_EVENT_LIMIT,
    ensures
        exists|draws: Seq<u32>|
            {
                &&& draws.len() == kills@.len()
                &&& (forall|k: int| 0 <= k < draws.len() ==> draws[k] < CAPSULE_DRAW_BOUND)
                &&& final(capsules)@ == spawned_capsules(
                    old(capsules)@,
                    old(counter).num_capsules as int,
                    kills@,
                    draws,
                )
            },
        final(counter).num_capsules == old(counter).num_capsules + (final(capsules)@.len() - old(
            capsules,
        )@.len()),
        final(counter).num_capsules <= MAX_CAPSULES,
        final(counter).num_capsules >= old(counter).num_capsules,
        final(released)@.len() == old(released)@.len() + (final(capsules)@.len() - old(
            capsules,
        )@.len()),
        forall|k: int|
            0 <= k < old(capsules)@.len() ==> final(capsules)@[k] == old(capsules)@[k],
        forall|k: int|
            old(capsules)@.len() <= k < final(capsules)@.len() ==> fresh_capsule_at(
                #[trigger] final(capsules)@[k],
                kills@,
            ),
{
    let mut draws: Vec<u32> = Vec::new();
    let mut k: usize = 0;
    while k < kills.len()
        invariant
            k <= kills@.len(),
            draws@.len() == k,
            forall|j: int| 0 <= j < k ==> draws@[j] < CAPSULE_DRAW_BOUND,
        decreases kills@.len() - k,
    {
        draws.push(rand_below(CAPSULE_DRAW_BOUND));
        k = k + 1;
    }
    spawn_capsules_from(capsules, counter, kills, &draws, released);
    proof {
        lemma_spawned_capsules_shape(
            old(capsules)@,
            old(counter).num_capsules as int,
            kills@,
            draws@,
        );
    }
}

/// A capsule after one tick: fallen by its speed.
pub open spec fn fallen_capsule(c: Capsule, dt: int) -> Capsule {
    Capsule { position: Vec2i { x: c.position.x, y: (c.position.y - c.speed * dt) as i64 }, speed: c.speed }
}

/// The capsules still on screen after one tick, each fallen by its speed;
/// those beyond either vertical edge are destroyed.
pub open spec fn surviving_capsules(cs: Seq<Capsule>, dt: int, top: int) -> Seq<Capsule>
    decreases cs.len(),
{
    if cs.len() == 0 {
        Seq::empty()
    } else {
        let m = fallen_capsule(cs.last(), dt);
        surviving_capsules(cs.drop_last(), dt, top) + (if m.position.y > top || m.position.y
            < -top {
            Seq::empty()
        } else {
            seq![m]
        })
    }
}

/// Moves every capsule down by its speed and destroys those that left the
/// screen, keeping the count in step.
#[verifier::loop_isolation(false)]
pub fn update_capsules(
    capsules: &mut Vec<Capsule>,
    counter: &mut CapsuleCounter,
    res: &Resolution,
    dt: i64,
)
    requires
        res.wf(),
        0 <= dt <= DT_LIMIT,
        capsules_ok(old(capsules)@, COORD_LIMIT as int - SPEED_LIMIT as int * DT_LIMIT as int),
        old(capsules)@.len() <= CAPSULE_EVENT_LIMIT,
        -COORD_LIMIT <= old(counter).num_capsules <= COORD_LIMIT,
    ensures
        final(capsules)@ == surviving_capsules(old(capsules)@, dt as int, res.top_edge()),
        final(counter).num_capsules == old(counter).num_capsules - (old(capsules)@.len()
            - final(capsules)@.len()),
{
    let top = res.top_edge_value();
    let mut kept: Vec<Capsule> = Vec::new();
    let mut i: usize = 0;
    while i < capsules.len()
        invariant
            i <= capsules@.len(),
            capsules@ == old(capsules)@,
            kept@ == surviving_capsules(capsules@.take(i as int), dt as int, top as int),
            kept@.len() <= i,
            counter.num_capsules == old(counter).num_capsules - (i - kept@.len()),
        decreases capsules@.len() - i,
    {
        let c = capsules[i];
        proof {
            crate::geom::lemma_speed_step_bound(c.speed as int, dt as int);
        }
        let ny = c.position.y - c.speed * dt;
        if ny > top || ny < -top {
            counter.num_capsules = counter.num_capsules - 1;
        } else {
            kept.push(Capsule { position: Vec2i { x: c.position.x, y: ny }, speed: c.speed });
        }
        proof {
            let cur = capsules@.take(i as int + 1);
            assert(cur.drop_last() =~= capsules@.take(i as int));
            assert(cur.last() == capsules@[i as int]);
        }
        i = i + 1;
    }
    proof {
        assert(capsules@.take(capsules@.len() as int) =~= capsules@);
    }
    *capsules = kept;
}

/// Capsule movement keeps every survivor within the old bound plus one tick
/// of travel, and never grows the store.
pub proof fn lemma_surviving_capsules_ok(cs: Seq<Capsule>, dt: int, top: int, b: int)
    requires
        capsules_ok(cs, b),
        0 <= dt <= DT_LIMIT,
        0 <= b,
    ensures
        capsules_ok(surviving_capsules(cs, dt, top), b + SPEED_LIMIT * DT_LIMIT),
        surviving_capsules(cs, dt, top).len() <= cs.len(),
    decreases cs.len(),
{
    if cs.len() > 0 {
        assert(forall|k: int|
            0 <= k < cs.drop_last().len() ==> cs.drop_last()[k] == #[trigger] cs[k]);
        lemma_surviving_capsules_ok(cs.drop_last(), dt, top, b);
        crate::geom::lemma_speed_step_bound(cs.last().speed as int, dt);
    }
}

/// The player stands close enough to pick the capsule up.
pub open spec fn picked_up(c: Capsule, player_position: Vec2i, r: int) -> bool {
    in_radius(player_position, c.position, r)
}

/// The capsules left after the pickup pass: those out of the player's reach.
pub open spec fn remaining_capsules(cs: Seq<Capsule>, player_position: Vec2i, r: int) -> Seq<
    Capsule,
>
    decreases cs.len(),
{
    if cs.len() == 0 {
        Seq::empty()
    } else {
        remaining_capsules(cs.drop_last(), player_position, r) + (if picked_up(
            cs.last(),
            player_position,
            r,
        ) {
            Seq::empty()
        } else {
            seq![cs.last()]
        })
    }
}

/// A pickup pass keeps only capsules it was given: everything stays within
/// the old bound and the store never grows.
pub proof fn lemma_remaining_capsules_ok(cs: Seq<Capsule>, player_position: Vec2i, r: int, b: int)
    requires
        capsules_ok(cs, b),
    ensures
        capsules_ok(remaining_capsules(cs, player_position, r), b),
        remaining_capsules(cs, player_position, r).len() <= cs.len(),
    decreases cs.len(),
{
    if cs.len() > 0 {
        assert(forall|k: int|
            0 <= k < cs.drop_last().len() ==> cs.drop_last()[k] == #[trigger] cs[k]);
        lemma_remaining_capsules_ok(cs.drop_last(), player_position, r, b);
    }
}

/// Capsule-versus-player collision: every capsule within reach of the player
/// is consumed, announced, and taken off the count.
#[verifier::loop_isolation(false)]
pub fn update_capsule_interactions(
    player_position: Vec2i,
    capsules: &mut Vec<Capsule>,
    counter: &mut CapsuleCounter,
    events: &mut Vec<CapsuleCollisionEvent>,
)
    requires
        player_position.coord_ok(),
        capsules_ok(old(capsules)@, COORD_LIMIT as int),
        old(capsules)@.len() <= CAPSULE_EVENT_LIMIT,
        -COORD_LIMIT <= old(counter).num_capsules <= COORD_LIMIT,
    ensures
        final(capsules)@ == remaining_capsules(
            old(capsules)@,
            player_position,
            CAPSULE_RADIUS as int,
        ),
        final(counter).num_capsules == old(counter).num_capsules - (old(capsules)@.len()
            - final(capsules)@.len()),
        final(events)@.len() == old(events)@.len() + (old(capsules)@.len()
            - final(capsules)@.len()),
{
    let mut kept: Vec<Capsule> = Vec::new();
    let mut i: usize = 0;
    while i < capsules.len()
        invariant
            i <= capsules@.len(),
            capsules@ == old(capsules)@,
            kept@ == remaining_capsules(
                capsules@.take(i as int),
                player_position,
                CAPSULE_RADIUS as int,
            ),
            kept@.len() <= i,
            counter.num_capsules == old(counter).num_capsules - (i - kept@.len()),
            events@.len() == old(events)@.len() + (i - kept@.len()),
        decreases capsules@.len() - i,
    {
        let c = capsules[i];
        if within_radius(player_position, c.position, CAPSULE_RADIUS) {
            counter.num_capsules = counter.num_capsules - 1;
            events.push(CapsuleCollisionEvent {});
        } else {
            kept.push(c);
        }
        proof {
            let cur = capsules@.take(i as int + 1);
            assert(cur.drop_last() =~= capsules@.take(i as int));
            assert(cur.last() == capsules@[i as int]);
        }
        i = i + 1;
    }
    proof {
        assert(capsules@.take(capsules@.len() as int) =~= capsules@);
    }
    *capsules = kept;
}

} // verus!
