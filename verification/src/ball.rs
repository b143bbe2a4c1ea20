use vstd::prelude::*;
use vstd::arithmetic::div_mod::{
    lemma_div_pos_is_pos, lemma_fundamental_div_mod, lemma_mod_bound,
};
use crate::geom::{GRect, GVec2, Rect, Vec2, iabs, norm_sq, EXTENT_LIMIT};
use crate::intmath::{
    isqrt, isqrt_spec, lemma_isqrt_bounds, lemma_scale_trunc_le, lemma_sq_le_implies_le, mul_div,
    scale_trunc,
};
use crate::units::{
    AREA_HEIGHT, AREA_WIDTH, BALL_SPEED_LIMIT, BALL_START_SPEED, SERVE_X, SERVE_Y,
};

verus! {

/// Smallest squared speed a serve can produce: the fixed-point aim rounds the
/// start speed of 40000 down by less than 3 milliunits per second.
pub const SERVE_NORM_SQ_MIN: i64 = 1_599_839_999;

/// Largest squared speed a serve can produce: the aim overshoots the start
/// speed of 40000 by less than 81 milliunits per second.
pub const SERVE_NORM_SQ_MAX: i64 = 1_606_400_000;

/// The ball: a square body, a velocity, and the scalar speed the next bounce
/// will rescale the velocity to.
pub struct Ball {
    pub rect: Rect,
    pub v: Vec2,
    pub speed: i64,
}

/// Mathematical model of the ball.
pub ghost struct GBall {
    pub rect: GRect,
    pub v: GVec2,
    pub speed: int,
}

impl View for Ball {
    type V = GBall;

    open spec fn view(&self) -> GBall {
        GBall { rect: self.rect@, v: self.v@, speed: self.speed as int }
    }
}

/// The divisor a direction is scaled by: the floor length of the vector.
pub open spec fn aim_div(d: GVec2) -> int {
    isqrt_spec(norm_sq(d) as nat) as int
}

/// Horizontal component of the velocity produced by aiming along `d` at
/// scalar speed `s`.
pub open spec fn aim_x(d: GVec2, s: int) -> int {
    scale_trunc(d.x, s, aim_div(d))
}

/// Vertical component of the velocity produced by aiming along `d` at scalar
/// speed `s`.
pub open spec fn aim_y(d: GVec2, s: int) -> int {
    scale_trunc(d.y, s, aim_div(d))
}

/// The direction a serve aims along: half a unit to one side, `dy` milliunits
/// vertically.
pub open spec fn serve_dir(dy: i64, to_left: bool) -> GVec2 {
    GVec2 { x: if to_left { -500int } else { 500int }, y: dy as int }
}

impl GBall {
    /// What serving needs of the ball: a body small enough for the playfield.
    pub open spec fn serve_ready(self) -> bool {
        &&& 0 <= self.rect.extent.x <= EXTENT_LIMIT
        &&& 0 <= self.rect.extent.y <= EXTENT_LIMIT
        &&& 2 * self.rect.extent.x <= AREA_WIDTH
        &&& 2 * self.rect.extent.y <= AREA_HEIGHT
    }

    /// A well-formed ball at rest between ticks.
    pub open spec fn wf(self) -> bool {
        &&& self.rect.wf()
        &&& self.serve_ready()
        &&& -BALL_SPEED_LIMIT <= self.v.x <= BALL_SPEED_LIMIT
        &&& -BALL_SPEED_LIMIT <= self.v.y <= BALL_SPEED_LIMIT
        &&& 0 <= self.speed <= BALL_SPEED_LIMIT
    }

    /// The state right after a serve: centered, at start speed, with the
    /// velocity's magnitude matching that speed up to fixed-point rounding
    /// and a definite horizontal direction.
    pub open spec fn served(self) -> bool {
        &&& self.rect.center == GVec2 { x: SERVE_X as int, y: SERVE_Y as int }
        &&& self.speed == BALL_START_SPEED
        &&& SERVE_NORM_SQ_MIN <= norm_sq(self.v) <= SERVE_NORM_SQ_MAX
        &&& self.v.x != 0
    }
}

/// A serve's aim lands within rounding of the start speed: the squared length
/// of the aimed velocity lies in `[SERVE_NORM_SQ_MIN, SERVE_NORM_SQ_MAX]`
/// around the squared start speed, and the horizontal component keeps the
/// direction's sign.
pub proof fn lemma_serve_aim_norm(d: GVec2)
    requires
        d.x == 500 || d.x == -500,
        -500 <= d.y <= 500,
    ensures
        SERVE_NORM_SQ_MIN <= aim_x(d, BALL_START_SPEED as int) * aim_x(d, BALL_START_SPEED as int)
            + aim_y(d, BALL_START_SPEED as int) * aim_y(d, BALL_START_SPEED as int)
            <= SERVE_NORM_SQ_MAX,
        d.x > 0 ==> aim_x(d, BALL_START_SPEED as int) >= 1,
        d.x < 0 ==> aim_x(d, BALL_START_SPEED as int) <= -1,
        -BALL_START_SPEED <= aim_x(d, BALL_START_SPEED as int) <= BALL_START_SPEED,
        -BALL_START_SPEED <= aim_y(d, BALL_START_SPEED as int) <= BALL_START_SPEED,
{
    let s: int = BALL_START_SPEED as int;
    let n = norm_sq(d);
    let ax = iabs(d.x);
    let ay = iabs(d.y);
    assert(ax == 500);
    assert(0 <= ay <= 500);
    assert(n == ax * ax + ay * ay && 250_000 <= n <= 500_000) by (nonlinear_arith)
        requires
            n == d.x * d.x + d.y * d.y,
            ax == iabs(d.x),
            ay == iabs(d.y),
            d.x == 500 || d.x == -500,
            -500 <= d.y <= 500,
    ;
    lemma_isqrt_bounds(n as nat);
    let m = aim_div(d);
    assert(m * m <= n);
    assert(n < (m + 1) * (m + 1));
    assert(500 <= m) by (nonlinear_arith)
        requires
            n < (m + 1) * (m + 1),
            250_000 <= n,
            0 <= m,
    ;
    assert(m <= 707) by (nonlinear_arith)
        requires
            m * m <= n,
            n <= 500_000,
            0 <= m,
    ;
    let ux = (ax * s) / m;
    let uy = (ay * s) / m;
    lemma_fundamental_div_mod(ax * s, m);
    lemma_mod_bound(ax * s, m);
    lemma_fundamental_div_mod(ay * s, m);
    lemma_mod_bound(ay * s, m);
    assert(0 <= ay * s) by (nonlinear_arith)
        requires
            0 <= ay,
            0 <= s,
    ;
    lemma_div_pos_is_pos(ax * s, m);
    lemma_div_pos_is_pos(ay * s, m);
    assert(m * ux <= ax * s && ax * s < m * (ux + 1)) by (nonlinear_arith)
        requires
            ax * s == m * ux + (ax * s) % m,
            0 <= (ax * s) % m < m,
    ;
    assert(m * uy <= ay * s && ay * s < m * (uy + 1)) by (nonlinear_arith)
        requires
            ay * s == m * uy + (ay * s) % m,
            0 <= (ay * s) % m < m,
    ;
    lemma_scale_trunc_le(ax, s, m);
    lemma_scale_trunc_le(ay, s, m);
    assert(0 <= ux <= s);
    assert(0 <= uy <= s);
    let q = ux * ux + uy * uy;
    assert(m * m * q <= n * (s * s)) by (nonlinear_arith)
        requires
            q == ux * ux + uy * uy,
            n == ax * ax + ay * ay,
            0 <= m,
            0 <= ux,
            0 <= uy,
            m * ux <= ax * s,
            m * uy <= ay * s,
            0 <= ax,
            0 <= ay,
            0 <= s,
    ;
    assert(q <= 1_606_400_000) by (nonlinear_arith)
        requires
            m * m * q <= n * (s * s),
            n <= (m + 1) * (m + 1) - 1,
            500 <= m,
            s == 40_000,
            0 <= q,
    ;
    assert(n * (s * s) < m * m * ((ux + 1) * (ux + 1) + (uy + 1) * (uy + 1))) by (nonlinear_arith)
        requires
            n == ax * ax + ay * ay,
            0 <= m,
            0 <= ax * s,
            0 <= ay * s,
            ax * s < m * (ux + 1),
            ay * s < m * (uy + 1),
            0 <= ux,
            0 <= uy,
            0 <= s,
    ;
    assert(m * m * (s * s) <= n * (s * s)) by (nonlinear_arith)
        requires
            m * m <= n,
            0 <= s,
    ;
    assert(s * s < (ux + 1) * (ux + 1) + (uy + 1) * (uy + 1)) by (nonlinear_arith)
        requires
            m * m * (s * s) < m * m * ((ux + 1) * (ux + 1) + (uy + 1) * (uy + 1)),
            1 <= m,
    ;
    assert(q >= 1_599_839_999) by (nonlinear_arith)
        requires
            s * s < (ux + 1) * (ux + 1) + (uy + 1) * (uy + 1),
            0 <= ux <= s,
            0 <= uy <= s,
            s == 40_000,
            q == ux * ux + uy * uy,
    ;
    assert(ux >= 1) by (nonlinear_arith)
        requires
            ax * s < m * (ux + 1),
            ax * s == 20_000_000,
            m <= 707,
            0 <= ux,
    ;
    let vx = aim_x(d, s);
    let vy = aim_y(d, s);
    assert(vx == if d.x >= 0 { ux } else { -ux });
    assert(vy == if d.y >= 0 { uy } else { -uy });
    assert(vx * vx + vy * vy == q) by (nonlinear_arith)
        requires
            q == ux * ux + uy * uy,
            vx == ux || vx == -ux,
            vy == uy || vy == -uy,
    ;
}

impl Ball {
    /// A stationary ball of the given half-extent, parked at the origin.
    pub fn new(size: i64) -> (b: Ball)
        requires
            0 <= size <= EXTENT_LIMIT,
            2 * size <= AREA_HEIGHT,
            2 * size <= AREA_WIDTH,
        ensures
            b@ == (GBall {
                rect: GRect {
                    center: GVec2 { x: 0, y: 0 },
                    extent: GVec2 { x: size as int, y: size as int },
                },
                v: GVec2 { x: 0, y: 0 },
                speed: 0,
            }),
            b@.wf(),
    {
        Ball {
            rect: Rect {
                center: Vec2 { x: 0, y: 0 },
                extent: Vec2 { x: size, y: size },
            },
            v: Vec2 { x: 0, y: 0 },
            speed: 0,
        }
    }

    /// Point the velocity along `d`, rescaled to the current scalar speed
    /// (up to fixed-point rounding). A zero `d` would give the ball no
    /// direction at all, so callers rule it out.
    pub fn set_direction(&mut self, d: Vec2)
        requires
            0 <= old(self).speed <= BALL_SPEED_LIMIT,
            !(d.x == 0 && d.y == 0),
            -250_000_000 <= d.x <= 250_000_000,
            -250_000_000 <= d.y <= 250_000_000,
        ensures
            final(self)@.v.x == aim_x(d@, old(self)@.speed),
            final(self)@.v.y == aim_y(d@, old(self)@.speed),
            -old(self).speed <= final(self).v.x <= old(self).speed,
            -old(self).speed <= final(self).v.y <= old(self).speed,
            final(self).rect == old(self).rect,
            final(self).speed == old(self).speed,
    {
        let ax: i64 = if d.x >= 0 {
            d.x
        } else {
            -d.x
        };
        let ay: i64 = if d.y >= 0 {
            d.y
        } else {
            -d.y
        };
        assert(ax * ax == d.x * d.x && ay * ay == d.y * d.y
            && ax * ax + ay * ay < 0x4000_0000_0000_0000
            && 1 <= ax * ax + ay * ay) by (nonlinear_arith)
            requires
                (ax == d.x || ax == -d.x),
                (ay == d.y || ay == -d.y),
                0 <= ax <= 250_000_000,
                0 <= ay <= 250_000_000,
                !(d.x == 0 && d.y == 0),
                (d.x != 0 ==> ax >= 1) && (d.y != 0 ==> ay >= 1),
        ;
        let n: u64 = (ax as u64) * (ax as u64) + (ay as u64) * (ay as u64);
        assert(n == norm_sq(d@));
        let m: u64 = isqrt(n);
        assert(m >= 1) by (nonlinear_arith)
            requires
                n < (m + 1) * (m + 1),
                n >= 1,
        ;
        assert(m == aim_div(d@));
        proof {
            lemma_sq_le_implies_le(d.x as int, n as int, m as int);
            lemma_sq_le_implies_le(d.y as int, n as int, m as int);
            lemma_scale_trunc_le(d.x as int, self.speed as int, m as int);
            lemma_scale_trunc_le(d.y as int, self.speed as int, m as int);
        }
        let vx: i64 = mul_div(d.x, self.speed as u64, m);
        let vy: i64 = mul_div(d.y, self.speed as u64, m);
        self.v = Vec2 { x: vx, y: vy };
    }

    /// Place the ball for a serve aimed along `serve_dir(dy, to_left)`:
    /// centered in the playfield, back at the start speed, velocity rescaled
    /// to that speed along the serve direction.
    pub fn reset_with(&mut self, dy: i64, to_left: bool)
        requires
            old(self)@.serve_ready(),
            -500 <= dy <= 499,
        ensures
            final(self)@.rect.center == (GVec2 { x: SERVE_X as int, y: SERVE_Y as int }),
            final(self)@.rect.extent == old(self)@.rect.extent,
            final(self)@.speed == BALL_START_SPEED,
            final(self)@.v.x == aim_x(serve_dir(dy, to_left), BALL_START_SPEED as int),
            final(self)@.v.y == aim_y(serve_dir(dy, to_left), BALL_START_SPEED as int),
            final(self)@.served(),
            final(self)@.wf(),
    {
        self.rect.center = Vec2 { x: SERVE_X, y: SERVE_Y };
        self.speed = BALL_START_SPEED;
        let d = Vec2 { x: if to_left { -500 } else { 500 }, y: dy };
        proof {
            lemma_serve_aim_norm(d@);
        }
        self.set_direction(d);
    }

    /// Serve with a random aim: the vertical component is drawn uniformly
    /// from half a unit down to half a unit up, the horizontal side is a coin
    /// flip. Either way the ball leaves the center at the start speed.
    pub fn reset(&mut self)
        requires
            old(self)@.serve_ready(),
        ensures
            final(self)@.served(),
            final(self)@.wf(),
            final(self)@.rect.extent == old(self)@.rect.extent,
    {
        let dy: i64 = rand_in_range(-500, 500);
        let to_left: bool = rand_coin();
        self.reset_with(dy, to_left);
    }
}

/// Relies on rand::random_range on an `i64` range: the sample lies in
/// `[lo, hi)`. An empty range would make rand panic, so it is ruled out.
#[verifier::external_body]
fn rand_in_range(lo: i64, hi: i64) -> (r: i64)
    requires
        lo < hi,
    ensures
        lo <= r < hi,
{
    rand::random_range(lo..hi)
}

/// Relies on rand::random for bool: a coin flip, of which nothing is promised.
#[verifier::external_body]
fn rand_coin() -> bool {
    rand::random()
}

} // verus!
