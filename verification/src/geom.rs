//! Screen-space geometry: fixed-point points, the circular collision test
//! shared by every interaction kind, and the screen description supplied by
//! the windowing collaborator.

use vstd::prelude::*;

verus! {

/// Coordinate units per pixel. Speeds are stored in units per millisecond,
/// so a speed of `n` means `n` pixels per second exactly.
pub const UNITS_PER_PIXEL: i64 = 1000;

/// Coordinates at most this far from the origin are accepted by the
/// squared-distance computation in `within_radius` without overflow.
pub const COORD_LIMIT: i64 = 100_000_000_000_000_000;

/// Largest collision radius accepted by `within_radius`.
pub const RADIUS_LIMIT: i64 = 1_000_000_000;

/// Bound on the positions a game state may hold when a tick begins.
pub const POS_LIMIT: i64 = 1_000_000_000_000_000;

/// Bound on the positions the phase functions accept; one tick starting from
/// positions within `POS_LIMIT` stays well inside it.
pub const PLAY_LIMIT: i64 = 10_000_000_000_000_000;

/// Bound on every speed, in units per millisecond.
pub const SPEED_LIMIT: i64 = 1_000_000_000;

/// Bound on the elapsed time of one tick, in milliseconds.
pub const DT_LIMIT: i64 = 1_000_000;

/// Bound on the countdown timers, in milliseconds.
pub const TIMER_LIMIT: i64 = 1_000_000_000_000_000;

/// A point of the playing field, in fixed-point units (`UNITS_PER_PIXEL`
/// per pixel). The origin is the screen centre; y grows upward.
#[derive(Clone, Copy, PartialEq, Eq, Structural, Debug)]
pub struct Vec2i {
    pub x: i64,
    pub y: i64,
}

impl Vec2i {
    pub open spec fn coord_ok(self) -> bool {
        -COORD_LIMIT <= self.x <= COORD_LIMIT && -COORD_LIMIT <= self.y <= COORD_LIMIT
    }
}

/// Two points lie strictly closer together than `r`: the circular collision
/// relation every interaction kind is tested by.
pub open spec fn in_radius(a: Vec2i, b: Vec2i, r: int) -> bool {
    (a.x - b.x) * (a.x - b.x) + (a.y - b.y) * (a.y - b.y) < r * r
}

/// Decides `in_radius` exactly, in 128-bit arithmetic.
pub fn within_radius(a: Vec2i, b: Vec2i, r: i64) -> (res: bool)
    requires
        a.coord_ok(),
        b.coord_ok(),
        0 <= r <= RADIUS_LIMIT,
    ensures
        res == in_radius(a, b, r as int),
{
    let dx: i128 = a.x as i128 - b.x as i128;
    let dy: i128 = a.y as i128 - b.y as i128;
    let rr: i128 = r as i128;
    proof {
        assert(dx * dx <= 4 * (COORD_LIMIT as int) * (COORD_LIMIT as int) && dx * dx >= 0)
            by (nonlinear_arith)
            requires
                -2 * (COORD_LIMIT as int) <= dx <= 2 * (COORD_LIMIT as int),
        ;
        assert(dy * dy <= 4 * (COORD_LIMIT as int) * (COORD_LIMIT as int) && dy * dy >= 0)
            by (nonlinear_arith)
            requires
                -2 * (COORD_LIMIT as int) <= dy <= 2 * (COORD_LIMIT as int),
        ;
        assert(rr * rr <= (RADIUS_LIMIT as int) * (RADIUS_LIMIT as int) && rr * rr >= 0)
            by (nonlinear_arith)
            requires
                0 <= rr <= RADIUS_LIMIT as int,
        ;
    }
    dx * dx + dy * dy < rr * rr
}

/// A speed within the speed bound, applied for one bounded tick, moves a
/// coordinate by at most the product of the two bounds.
pub proof fn lemma_speed_step_bound(s: int, t: int)
    requires
        0 <= s <= SPEED_LIMIT,
        0 <= t <= DT_LIMIT,
    ensures
        0 <= s * t <= SPEED_LIMIT * DT_LIMIT,
{
    assert(0 <= s * t <= SPEED_LIMIT * DT_LIMIT) by (nonlinear_arith)
        requires
            0 <= s <= SPEED_LIMIT && 0 <= t <= DT_LIMIT,
    ;
}

/// The screen geometry handed in by the windowing collaborator: dimensions
/// in fixed-point units and a whole-pixel scale factor.
#[derive(Clone, Copy, PartialEq, Eq, Structural, Debug)]
pub struct Resolution {
    pub screen_width: i64,
    pub screen_height: i64,
    pub pixel_ratio: i64,
}

/// Largest accepted screen dimension.
pub const SCREEN_LIMIT: i64 = 1_000_000_000_000;

/// Largest accepted pixel scale factor.
pub const PIXEL_RATIO_LIMIT: i64 = 1_000_000;

/// How far, in pixels times the scale factor, the formation boundary is
/// drawn in from the screen edge.
pub const BOUNDARY_INSET: i64 = 25_000;

/// Height of the zone at the bottom of the screen that the formation must
/// not enter.
pub const PLAYER_ZONE_HEIGHT: i64 = 70_000;

impl Resolution {
    pub open spec fn wf(self) -> bool {
        0 <= self.screen_width <= SCREEN_LIMIT && 0 <= self.screen_height <= SCREEN_LIMIT
            && 0 <= self.pixel_ratio <= PIXEL_RATIO_LIMIT
    }

    /// The formation boundary: a living alien whose |x| exceeds this margin
    /// has crossed the screen edge allowance.
    pub open spec fn margin(self) -> int {
        self.screen_width as int / 2 - self.pixel_ratio as int * BOUNDARY_INSET as int
    }

    /// The y coordinate below which the formation has reached the player's
    /// zone, which loses the game.
    pub open spec fn lower_bound(self) -> int {
        -(self.screen_height as int / 2) + PLAYER_ZONE_HEIGHT as int
    }

    /// The y coordinate of the top screen edge; projectiles above it leave
    /// the screen.
    pub open spec fn top_edge(self) -> int {
        self.screen_height as int / 2
    }

    pub fn margin_value(&self) -> (m: i64)
        requires
            self.wf(),
        ensures
            m as int == self.margin(),
    {
        self.screen_width / 2 - self.pixel_ratio * BOUNDARY_INSET
    }

    pub fn lower_bound_value(&self) -> (b: i64)
        requires
            self.wf(),
        ensures
            b as int == self.lower_bound(),
    {
        -(self.screen_height / 2) + PLAYER_ZONE_HEIGHT
    }

    pub fn top_edge_value(&self) -> (t: i64)
        requires
            self.wf(),
        ensures
            t as int == self.top_edge(),
    {
        self.screen_height / 2
    }
}

} // verus!
