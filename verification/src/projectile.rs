//! Player projectiles and the shared collision core: upward travel with
//! destruction past the top edge, and the strike pass that kills every
//! living alien within a radius of a set of points, emitting one
//! alien-killed event per kill.

use vstd::prelude::*;

use crate::alien::{Alien, AlienType, aliens_bounded};
use crate::geom::{
    Vec2i, Resolution, in_radius, within_radius, COORD_LIMIT, DT_LIMIT, RADIUS_LIMIT, SPEED_LIMIT,
};

verus! {

/// Emitted when an alien dies, carrying its kind and where it died; the fire
/// and capsule spawners react to it.
#[derive(Clone, Copy, PartialEq, Eq, Structural, Debug)]
pub struct AlienKilledEvent {
    pub alien_type: AlienType,
    pub location: Vec2i,
}

/// A player projectile; `speed` is its upward travel in units per
/// millisecond.
#[derive(Clone, Copy, PartialEq, Eq, Structural, Debug)]
pub struct Projectile {
    pub position: Vec2i,
    pub speed: i64,
}

/// Collision radius between a player projectile and an alien.
pub const BULLET_RADIUS: i64 = 24_000;

/// Positions within `b` of the origin and speeds within the speed bound.
pub open spec fn projectiles_ok(ps: Seq<Projectile>, b: int) -> bool {
    forall|k: int|
        0 <= k < ps.len() ==> {
            let p = #[trigger] ps[k];
            -b <= p.position.x <= b && -b <= p.position.y <= b && 0 <= p.speed <= SPEED_LIMIT
        }
}

/// One movement step of a player projectile: straight up by its speed.
pub open spec fn moved_projectile(p: Projectile, dt: int) -> Projectile {
    Projectile {
        position: Vec2i { x: p.position.x, y: (p.position.y + p.speed * dt) as i64 },
        speed: p.speed,
    }
}

/// Player projectiles after one tick: each moved up, and those past the top
/// edge destroyed.
pub open spec fn surviving_projectiles(ps: Seq<Projectile>, dt: int, top: int) -> Seq<Projectile>
    decreases ps.len(),
{
    if ps.len() == 0 {
        Seq::empty()
    } else {
        let m = moved_projectile(ps.last(), dt);
        surviving_projectiles(ps.drop_last(), dt, top) + (if m.position.y > top {
            Seq::empty()
        } else {
            seq![m]
        })
    }
}

/// Moves every player projectile up by its speed and destroys those that
/// left the screen.
#[verifier::loop_isolation(false)]
pub fn update_projectiles(projectiles: &mut Vec<Projectile>, res: &Resolution, dt: i64)
    requires
        res.wf(),
        0 <= dt <= DT_LIMIT,
        projectiles_ok(old(projectiles)@, COORD_LIMIT as int - SPEED_LIMIT as int * DT_LIMIT as int),
    ensures
        final(projectiles)@ == surviving_projectiles(old(projectiles)@, dt as int, res.top_edge()),
{
    let top = res.top_edge_value();
    let mut kept: Vec<Projectile> = Vec::new();
    let mut i: usize = 0;
    while i < projectiles.len()
        invariant
            i <= projectiles@.len(),
            projectiles@ == old(projectiles)@,
            kept@ == surviving_projectiles(projectiles@.take(i as int), dt as int, top as int),
        decreases projectiles@.len() - i,
    {
        let p = projectiles[i];
        proof {
            crate::geom::lemma_speed_step_bound(p.speed as int, dt as int);
        }
        let ny = p.position.y + p.speed * dt;
        if !(ny > top) {
            kept.push(Projectile { position: Vec2i { x: p.position.x, y: ny }, speed: p.speed });
        }
        proof {
            assert(projectiles@.take(i as int + 1).drop_last() =~= projectiles@.take(i as int));
        }
        i = i + 1;
    }
    proof {
        assert(projectiles@.take(projectiles@.len() as int) =~= projectiles@);
    }
    *projectiles = kept;
}

/// Positions within `b` of the origin on both axes.
pub open spec fn points_bounded(pts: Seq<Vec2i>, b: int) -> bool {
    forall|k: int|
        0 <= k < pts.len() ==> {
            let p = #[trigger] pts[k];
            -b <= p.x <= b && -b <= p.y <= b
        }
}

/// The alien lies within `r` of some point of the strike.
pub open spec fn hit_by_any(a: Alien, pts: Seq<Vec2i>, r: int) -> bool {
    exists|j: int| 0 <= j < pts.len() && in_radius(a.position, #[trigger] pts[j], r)
}

/// An alien after a strike pass: killed exactly when it was living and lay
/// within reach; already-dead aliens are left alone, which makes a double
/// hit in one tick indistinguishable from a single one.
pub open spec fn struck_alien(a: Alien, pts: Seq<Vec2i>, r: int) -> Alien {
    if !a.dead && hit_by_any(a, pts, r) {
        Alien {
            dead: true,
            position: a.position,
            original_position: a.original_position,
            alien_type: a.alien_type,
        }
    } else {
        a
    }
}

pub open spec fn kill_event(a: Alien) -> AlienKilledEvent {
    AlienKilledEvent { alien_type: a.alien_type, location: a.position }
}

/// The alien-killed events of one strike pass: one per newly killed alien,
/// in store order.
pub open spec fn strike_events(aliens: Seq<Alien>, pts: Seq<Vec2i>, r: int) -> Seq<
    AlienKilledEvent,
>
    decreases aliens.len(),
{
    if aliens.len() == 0 {
        Seq::empty()
    } else {
        strike_events(aliens.drop_last(), pts, r) + (if !aliens.last().dead && hit_by_any(
            aliens.last(),
            pts,
            r,
        ) {
            seq![kill_event(aliens.last())]
        } else {
            Seq::empty()
        })
    }
}

/// Kills every living alien within `radius` of one of `points` and emits one
/// alien-killed event per kill: the core shared by projectile-versus-alien
/// and fire-versus-alien collision.
#[verifier::loop_isolation(false)]
pub fn strike_aliens(
    aliens: &mut Vec<Alien>,
    points: &Vec<Vec2i>,
    radius: i64,
    events: &mut Vec<AlienKilledEvent>,
)
    requires
        aliens_bounded(old(aliens)@, COORD_LIMIT as int),
        points_bounded(points@, COORD_LIMIT as int),
        0 <= radius <= RADIUS_LIMIT,
    ensures
        final(aliens)@.len() == old(aliens)@.len(),
        forall|k: int|
            0 <= k < old(aliens)@.len() ==> final(aliens)@[k] == struck_alien(
                #[trigger] old(aliens)@[k],
                points@,
                radius as int,
            ),
        final(events)@ == old(events)@ + strike_events(old(aliens)@, points@, radius as int),
{
    let mut i: usize = 0;
    while i < aliens.len()
        invariant
            i <= aliens@.len() == old(aliens)@.len(),
            forall|k: int| i <= k < aliens@.len() ==> aliens@[k] == old(aliens)@[k],
            forall|k: int|
                0 <= k < i ==> aliens@[k] == struck_alien(
                    #[trigger] old(aliens)@[k],
                    points@,
                    radius as int,
                ),
            events@ == old(events)@ + strike_events(
                old(aliens)@.take(i as int),
                points@,
                radius as int,
            ),
        decreases aliens@.len() - i,
    {
        let a = aliens[i];
        if !a.dead {
            let mut hit = false;
            let mut j: usize = 0;
            while j < points.len()
                invariant
                    j <= points@.len(),
                    hit == hit_by_any(a, points@.take(j as int), radius as int),
                decreases points@.len() - j,
            {
                let ghost pre = points@.take(j as int);
                if within_radius(a.position, points[j], radius) {
                    hit = true;
                }
                proof {
                    let cur = points@.take(j as int + 1);
                    assert(cur.drop_last() =~= pre);
                    assert(cur.last() == points@[j as int]);
                    if in_radius(a.position, points@[j as int], radius as int) {
                        assert(hit_by_any(a, cur, radius as int));
                    } else {
                        if hit_by_any(a, cur, radius as int) && !hit_by_any(
                            a,
                            pre,
                            radius as int,
                        ) {
                            let jj = choose|jj: int|
                                0 <= jj < cur.len() && in_radius(
                                    a.position,
                                    #[trigger] cur[jj],
                                    radius as int,
                                );
                            assert(jj < pre.len() && pre[jj] == cur[jj]);
                        }
                    }
                }
                j = j + 1;
            }
            proof {
                assert(points@.take(points@.len() as int) =~= points@);
            }
            if hit {
                aliens.set(
                    i,
                    Alien {
                        dead: true,
                        position: a.position,
                        original_position: a.original_position,
                        alien_type: a.alien_type,
                    },
                );
                events.push(AlienKilledEvent { alien_type: a.alien_type, location: a.position });
            }
        }
        proof {
            let cur = old(aliens)@.take(i as int + 1);
            assert(cur.drop_last() =~= old(aliens)@.take(i as int));
            assert(cur.last() == old(aliens)@[i as int]);
        }
        i = i + 1;
    }
    proof {
        assert(old(aliens)@.take(old(aliens)@.len() as int) =~= old(aliens)@);
    }
}

pub open spec fn proj_positions(ps: Seq<Projectile>) -> Seq<Vec2i> {
    ps.map_values(|p: Projectile| p.position)
}

/// A projectile that reached some living alien is spent and destroyed.
pub open spec fn proj_spent(p: Projectile, aliens: Seq<Alien>, r: int) -> bool {
    exists|i: int|
        0 <= i < aliens.len() && !(#[trigger] aliens[i]).dead && in_radius(
            aliens[i].position,
            p.position,
            r,
        )
}

/// The projectiles that survive a strike pass: those that reached no living
/// alien, judged against the store as it stood when the tick's positions
/// were read.
pub open spec fn retained_projectiles(ps: Seq<Projectile>, aliens: Seq<Alien>, r: int) -> Seq<
    Projectile,
>
    decreases ps.len(),
{
    if ps.len() == 0 {
        Seq::empty()
    } else {
        retained_projectiles(ps.drop_last(), aliens, r) + (if proj_spent(ps.last(), aliens, r) {
            Seq::empty()
        } else {
            seq![ps.last()]
        })
    }
}

/// Projectile-versus-alien collision: every living alien reached by a
/// projectile dies and is announced once; every projectile that reached a
/// living alien is destroyed. All effects are judged against positions read
/// at the start of the pass.
#[verifier::loop_isolation(false)]
pub fn update_alien_interactions(
    aliens: &mut Vec<Alien>,
    projectiles: &mut Vec<Projectile>,
    events: &mut Vec<AlienKilledEvent>,
)
    requires
        aliens_bounded(old(aliens)@, COORD_LIMIT as int),
        projectiles_ok(old(projectiles)@, COORD_LIMIT as int),
    ensures
        final(aliens)@.len() == old(aliens)@.len(),
        forall|k: int|
            0 <= k < old(aliens)@.len() ==> final(aliens)@[k] == struck_alien(
                #[trigger] old(aliens)@[k],
                proj_positions(old(projectiles)@),
                BULLET_RADIUS as int,
            ),
        final(projectiles)@ == retained_projectiles(
            old(projectiles)@,
            old(aliens)@,
            BULLET_RADIUS as int,
        ),
        final(events)@ == old(events)@ + strike_events(
            old(aliens)@,
            proj_positions(old(projectiles)@),
            BULLET_RADIUS as int,
        ),
{
    let mut kept: Vec<Projectile> = Vec::new();
    let mut j: usize = 0;
    while j < projectiles.len()
        invariant
            j <= projectiles@.len(),
            projectiles@ == old(projectiles)@,
            aliens@ == old(aliens)@,
            kept@ == retained_projectiles(
                projectiles@.take(j as int),
                aliens@,
                BULLET_RADIUS as int,
            ),
        decreases projectiles@.len() - j,
    {
        let p = projectiles[j];
        let mut spent = false;
        let mut i: usize = 0;
        while i < aliens.len()
            invariant
                i <= aliens@.len(),
                aliens@ == old(aliens)@,
                spent == proj_spent(
                    (Projectile { position: p.position, speed: p.speed }),
                    aliens@.take(i as int),
                    BULLET_RADIUS as int,
                ),
            decreases aliens@.len() - i,
        {
            let ghost pre = aliens@.take(i as int);
            let a = aliens[i];
            if !a.dead && within_radius(a.position, p.position, BULLET_RADIUS) {
                spent = true;
            }
            proof {
                let cur = aliens@.take(i as int + 1);
                assert(cur.drop_last() =~= pre);
                assert(cur.last() == aliens@[i as int]);
                if !(!aliens@[i as int].dead && in_radius(
                    aliens@[i as int].position,
                    p.position,
                    BULLET_RADIUS as int,
                )) {
                    if proj_spent(p, cur, BULLET_RADIUS as int) && !proj_spent(
                        p,
                        pre,
                        BULLET_RADIUS as int,
                    ) {
                        let ii = choose|ii: int|
                            0 <= ii < cur.len() && !(#[trigger] cur[ii]).dead && in_radius(
                                cur[ii].position,
                                p.position,
                                BULLET_RADIUS as int,
                            );
                        assert(ii < pre.len() && pre[ii] == cur[ii]);
                    }
                }
            }
            i = i + 1;
        }
        proof {
            assert(aliens@.take(aliens@.len() as int) =~= aliens@);
        }
        if !spent {
            kept.push(p);
        }
        proof {
            let cur = projectiles@.take(j as int + 1);
            assert(cur.drop_last() =~= projectiles@.take(j as int));
            assert(cur.last() == projectiles@[j as int]);
        }
        j = j + 1;
    }
    proof {
        assert(projectiles@.take(projectiles@.len() as int) =~= projectiles@);
    }
    let mut pts: Vec<Vec2i> = Vec::new();
    let mut j: usize = 0;
    while j < projectiles.len()
        invariant
            j <= projectiles@.len(),
            projectiles@ == old(projectiles)@,
            aliens@ == old(aliens)@,
            pts@ == proj_positions(projectiles@.take(j as int)),
        decreases projectiles@.len() - j,
    {
        pts.push(projectiles[j].position);
        j = j + 1;
        proof {
            assert(pts@ =~= proj_positions(projectiles@.take(j as int)));
        }
    }
    proof {
        assert(projectiles@.take(projectiles@.len() as int) =~= projectiles@);
        assert(points_bounded(pts@, COORD_LIMIT as int));
    }
    strike_aliens(aliens, &pts, BULLET_RADIUS, events);
    *projectiles = kept;
}

/// A strike pass emits at most one event per alien.
pub proof fn lemma_strike_events_len(aliens: Seq<Alien>, pts: Seq<Vec2i>, r: int)
    ensures
        0 <= strike_events(aliens, pts, r).len() <= aliens.len(),
    decreases aliens.len(),
{
    if aliens.len() > 0 {
        lemma_strike_events_len(aliens.drop_last(), pts, r);
    }
}

/// Projectile movement keeps every survivor within the old bound plus one
/// tick of travel, and destroys rather than grows: the survivors are no more
/// than the starting store.
pub proof fn lemma_surviving_projectiles_ok(ps: Seq<Projectile>, dt: int, top: int, b: int)
    requires
        projectiles_ok(ps, b),
        0 <= dt <= DT_LIMIT,
        0 <= b,
    ensures
        projectiles_ok(surviving_projectiles(ps, dt, top), b + SPEED_LIMIT * DT_LIMIT),
        surviving_projectiles(ps, dt, top).len() <= ps.len(),
    decreases ps.len(),
{
    if ps.len() > 0 {
        assert(forall|k: int|
            0 <= k < ps.drop_last().len() ==> ps.drop_last()[k] == #[trigger] ps[k]);
        lemma_surviving_projectiles_ok(ps.drop_last(), dt, top, b);
        crate::geom::lemma_speed_step_bound(ps.last().speed as int, dt);
    }
}

/// Every event of a strike pass is located at an alien's position, so the
/// kill locations stay within the aliens' bound.
pub proof fn lemma_strike_events_located(aliens: Seq<Alien>, pts: Seq<Vec2i>, r: int, b: int)
    requires
        aliens_bounded(aliens, b),
    ensures
        forall|j: int|
            0 <= j < strike_events(aliens, pts, r).len() ==> {
                let p = (#[trigger] strike_events(aliens, pts, r)[j]).location;
                -b <= p.x <= b && -b <= p.y <= b
            },
    decreases aliens.len(),
{
    if aliens.len() > 0 {
        assert(forall|k: int|
            0 <= k < aliens.drop_last().len() ==> aliens.drop_last()[k] == #[trigger] aliens[k]);
        lemma_strike_events_located(aliens.drop_last(), pts, r, b);
        assert(aliens.last() == aliens[aliens.len() - 1]);
    }
}

/// A retention pass keeps only projectiles it was given: everything stays
/// within the old bound and the store never grows.
pub proof fn lemma_retained_projectiles_ok(ps: Seq<Projectile>, aliens: Seq<Alien>, r: int, b: int)
    requires
        projectiles_ok(ps, b),
    ensures
        projectiles_ok(retained_projectiles(ps, aliens, r), b),
        retained_projectiles(ps, aliens, r).len() <= ps.len(),
    decreases ps.len(),
{
    if ps.len() > 0 {
        assert(forall|k: int|
            0 <= k < ps.drop_last().len() ==> ps.drop_last()[k] == #[trigger] ps[k]);
        lemma_retained_projectiles_ok(ps.drop_last(), aliens, r, b);
    }
}

/// The events of a strike pass depend only on which aliens are reached,
/// never on how many strike points reach one alien.
pub proof fn lemma_strike_events_hit_sets(
    aliens: Seq<Alien>,
    pts1: Seq<Vec2i>,
    pts2: Seq<Vec2i>,
    r: int,
)
    requires
        forall|k: int|
            0 <= k < aliens.len() ==> (hit_by_any(#[trigger] aliens[k], pts1, r) == hit_by_any(
                aliens[k],
                pts2,
                r,
            )),
    ensures
        strike_events(aliens, pts1, r) == strike_events(aliens, pts2, r),
    decreases aliens.len(),
{
    if aliens.len() > 0 {
        assert(forall|k: int|
            0 <= k < aliens.drop_last().len() ==> aliens.drop_last()[k] == #[trigger] aliens[k]);
        lemma_strike_events_hit_sets(aliens.drop_last(), pts1, pts2, r);
        assert(aliens.last() == aliens[aliens.len() - 1]);
    }
}

/// Killing is idempotent within one tick: one living alien within reach of
/// two projectiles produces exactly one alien-killed event, the same as a
/// single hit.
pub proof fn lemma_double_kill_single_event(a: Alien, p: Vec2i, q: Vec2i, r: int)
    requires
        !a.dead,
        in_radius(a.position, p, r),
        in_radius(a.position, q, r),
    ensures
        strike_events(seq![a], seq![p, q], r).len() == 1,
        strike_events(seq![a], seq![p, q], r) == strike_events(seq![a], seq![p], r),
{
    let one: Seq<Alien> = seq![a];
    assert(one.last() == a);
    assert(one.drop_last() =~= Seq::<Alien>::empty());
    assert(seq![p, q][0] == p);
    assert(seq![p][0] == p);
    assert(hit_by_any(a, seq![p, q], r));
    assert(hit_by_any(a, seq![p], r));
    assert(strike_events(Seq::<Alien>::empty(), seq![p, q], r) == Seq::<AlienKilledEvent>::empty());
    assert(strike_events(Seq::<Alien>::empty(), seq![p], r) == Seq::<AlienKilledEvent>::empty());
    assert(strike_events(one, seq![p, q], r) =~= seq![kill_event(a)]);
    assert(strike_events(one, seq![p], r) =~= seq![kill_event(a)]);
}

} // verus!
