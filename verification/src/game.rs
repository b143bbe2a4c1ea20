use vstd::prelude::*;
use crate::ball::{aim_x, aim_y, Ball, GBall};
use crate::geom::{GRect, GVec2, Rect, Vec2, rects_overlap};
use crate::intmath::{lemma_scale_trunc_bounded, mul_div, scale_trunc};
use crate::units::{
    AREA_HEIGHT, AREA_WIDTH, BALL_SPEED_INCREASE, BALL_SPEED_LIMIT, BALL_START_SPEED, DT_MAX_MS,
    MILLI, PADDLE_SPEED,
};

verus! {

/// A paddle: a body and the vertical velocity its keys currently command.
pub struct Paddle {
    pub rect: Rect,
    pub vy: i64,
}

/// Mathematical model of a paddle.
pub ghost struct GPaddle {
    pub rect: GRect,
    pub vy: int,
}

impl View for Paddle {
    type V = GPaddle;

    open spec fn view(&self) -> GPaddle {
        GPaddle { rect: self.rect@, vy: self.vy as int }
    }
}

impl GPaddle {
    /// A well-formed paddle: inside the flight range, short enough for the
    /// playfield, never faster than the key-commanded speed.
    pub open spec fn wf(self) -> bool {
        &&& self.rect.wf()
        &&& 0 <= 2 * self.rect.extent.y <= AREA_HEIGHT
        &&& -PADDLE_SPEED <= self.vy <= PADDLE_SPEED
    }
}

/// The four logical inputs: up and down for each paddle.
#[derive(Clone, Copy, PartialEq, Eq, Structural, Debug)]
pub enum GameKey {
    LeftUp,
    LeftDown,
    RightUp,
    RightDown,
}

/// The whole game state: one ball, two paddles, two counters.
pub struct App {
    pub ball: Ball,
    pub left: Paddle,
    pub right: Paddle,
    pub left_score: u64,
    pub right_score: u64,
}

/// Mathematical model of the game state.
pub ghost struct GApp {
    pub ball: GBall,
    pub left: GPaddle,
    pub right: GPaddle,
    pub left_score: int,
    pub right_score: int,
}

impl View for App {
    type V = GApp;

    open spec fn view(&self) -> GApp {
        GApp {
            ball: self.ball@,
            left: self.left@,
            right: self.right@,
            left_score: self.left_score as int,
            right_score: self.right_score as int,
        }
    }
}

impl GApp {
    /// Every body of the game is well formed.
    pub open spec fn wf(self) -> bool {
        &&& self.ball.wf()
        &&& self.left.wf()
        &&& self.right.wf()
    }
}

/// How far a body moving at `v` milliunits per second travels in `dt`
/// milliseconds, rounded toward zero.
pub open spec fn travel(v: int, dt: int) -> int {
    scale_trunc(v, dt, MILLI as int)
}

/// Clamp a body's center so a half-extent of `ey` stays inside the field.
pub open spec fn clamp_center_y(y: int, ey: int) -> int {
    if y < ey {
        ey
    } else if y > AREA_HEIGHT - ey {
        AREA_HEIGHT - ey
    } else {
        y
    }
}

/// One tick of a paddle: integrate the vertical velocity, then clamp so the
/// paddle stays fully inside the playfield.
pub open spec fn paddle_step(p: GPaddle, dt: int) -> GPaddle {
    GPaddle {
        rect: GRect {
            center: GVec2 {
                x: p.rect.center.x,
                y: clamp_center_y(p.rect.center.y + travel(p.vy, dt), p.rect.extent.y),
            },
            extent: p.rect.extent,
        },
        vy: p.vy,
    }
}

/// One tick of free ball motion.
pub open spec fn ball_moved(b: GBall, dt: int) -> GBall {
    GBall {
        rect: GRect {
            center: GVec2 {
                x: b.rect.center.x + travel(b.v.x, dt),
                y: b.rect.center.y + travel(b.v.y, dt),
            },
            extent: b.rect.extent,
        },
        v: b.v,
        speed: b.speed,
    }
}

/// The scalar speed after a bounce: one increment more, saturated at the
/// ceiling.
pub open spec fn bumped_speed(s: int) -> int {
    if s + BALL_SPEED_INCREASE <= BALL_SPEED_LIMIT {
        s + BALL_SPEED_INCREASE
    } else {
        BALL_SPEED_LIMIT as int
    }
}

/// The direction of a rebound: from the paddle's center to the ball's.
pub open spec fn rebound_dir(b: GBall, p: GPaddle) -> GVec2 {
    GVec2 { x: b.rect.center.x - p.rect.center.x, y: b.rect.center.y - p.rect.center.y }
}

/// A paddle bounce: on overlap the ball gains speed and leaves along the line
/// from the paddle's center through its own. A ball sitting exactly on the
/// paddle's center has no such line and passes through unchanged.
pub open spec fn ball_bounced(b: GBall, p: GPaddle) -> GBall {
    let d = rebound_dir(b, p);
    if rects_overlap(b.rect, p.rect) && !(d.x == 0 && d.y == 0) {
        GBall {
            rect: b.rect,
            v: GVec2 {
                x: aim_x(d, bumped_speed(b.speed)),
                y: aim_y(d, bumped_speed(b.speed)),
            },
            speed: bumped_speed(b.speed),
        }
    } else {
        b
    }
}

/// The ball's vertical extent reaches the ceiling or the floor.
pub open spec fn hits_wall(b: GBall) -> bool {
    b.rect.center.y - b.rect.extent.y <= 0 || b.rect.center.y + b.rect.extent.y >= AREA_HEIGHT
}

/// A wall bounce: the vertical velocity flips and the ball is pushed back
/// inside the field, so a long tick cannot carry it outward.
pub open spec fn ball_walled(b: GBall) -> GBall {
    if hits_wall(b) {
        GBall {
            rect: GRect {
                center: GVec2 {
                    x: b.rect.center.x,
                    y: clamp_center_y(b.rect.center.y, b.rect.extent.y),
                },
                extent: b.rect.extent,
            },
            v: GVec2 { x: b.v.x, y: -b.v.y },
            speed: b.speed,
        }
    } else {
        b
    }
}

/// The ball has fully crossed the left edge: a goal for the right player.
pub open spec fn left_goal(b: GBall) -> bool {
    b.rect.center.x + b.rect.extent.x < 0
}

/// The ball has fully crossed the right edge: a goal for the left player.
pub open spec fn right_goal(b: GBall) -> bool {
    b.rect.center.x - b.rect.extent.x > AREA_WIDTH
}

/// The ball as it stands when goals are judged: moved, bounced off both
/// paddles (already moved this tick), and reflected off the walls.
pub open spec fn ball_before_goals(a: GApp, dt: int) -> GBall {
    ball_walled(
        ball_bounced(
            ball_bounced(ball_moved(a.ball, dt), paddle_step(a.left, dt)),
            paddle_step(a.right, dt),
        ),
    )
}

/// Everything one update tick promises: paddles step and clamp; the ball
/// moves, bounces and reflects; the goal checks run left first, score one
/// point for the other player, and re-serve the ball.
pub open spec fn update_rel(pre: GApp, post: GApp, dt: int) -> bool {
    let b3 = ball_before_goals(pre, dt);
    &&& post.left == paddle_step(pre.left, dt)
    &&& post.right == paddle_step(pre.right, dt)
    &&& (left_goal(b3) ==> {
        &&& post.right_score == pre.right_score + 1
        &&& post.left_score == pre.left_score
        &&& post.ball.served()
        &&& post.ball.rect.extent == pre.ball.rect.extent
    })
    &&& (!left_goal(b3) && right_goal(b3) ==> {
        &&& post.left_score == pre.left_score + 1
        &&& post.right_score == pre.right_score
        &&& post.ball.served()
        &&& post.ball.rect.extent == pre.ball.rect.extent
    })
    &&& (!left_goal(b3) && !right_goal(b3) ==> {
        &&& post.ball == b3
        &&& post.left_score == pre.left_score
        &&& post.right_score == pre.right_score
    })
}

/// The key commands the left paddle.
pub open spec fn key_is_left(key: GameKey) -> bool {
    key == GameKey::LeftUp || key == GameKey::LeftDown
}

/// The vertical velocity a pressed key commands: up is negative.
pub open spec fn key_velocity(key: GameKey) -> int {
    if key == GameKey::LeftUp || key == GameKey::RightUp {
        -PADDLE_SPEED as int
    } else {
        PADDLE_SPEED as int
    }
}

/// The initial state: paddles at the sides, a stationary ball at the origin
/// waiting to be served, no score.
pub open spec fn initial_app() -> GApp {
    GApp {
        ball: GBall {
            rect: GRect {
                center: GVec2 { x: 0, y: 0 },
                extent: GVec2 { x: 8_000, y: 8_000 },
            },
            v: GVec2 { x: 0, y: 0 },
            speed: 0,
        },
        left: GPaddle {
            rect: GRect {
                center: GVec2 { x: 16_000, y: 100_000 },
                extent: GVec2 { x: 8_000, y: 24_000 },
            },
            vy: 0,
        },
        right: GPaddle {
            rect: GRect {
                center: GVec2 { x: 184_000, y: 100_000 },
                extent: GVec2 { x: 8_000, y: 24_000 },
            },
            vy: 0,
        },
        left_score: 0,
        right_score: 0,
    }
}

/// A travel over one tick stays within a tenth of the flight range.
proof fn lemma_travel_le(v: int, dt: int)
    requires
        -BALL_SPEED_LIMIT <= v <= BALL_SPEED_LIMIT,
        0 <= dt <= DT_MAX_MS,
    ensures
        -100_000_000 <= travel(v, dt) <= 100_000_000,
{
    lemma_scale_trunc_bounded(v, dt, MILLI as int, BALL_SPEED_LIMIT as int, DT_MAX_MS as int);
}

/// After the clamp step a paddle sits fully inside the playfield.
pub proof fn lemma_paddle_step_in_field(p: GPaddle, dt: int)
    requires
        p.wf(),
    ensures
        p.rect.extent.y <= paddle_step(p, dt).rect.center.y <= AREA_HEIGHT - p.rect.extent.y,
{
}

/// A paddle bounce never slows the ball.
pub proof fn lemma_bounce_speed_monotone(b: GBall, p: GPaddle)
    requires
        0 <= b.speed <= BALL_SPEED_LIMIT,
    ensures
        ball_bounced(b, p).speed >= b.speed,
        ball_bounced(b, p).speed <= BALL_SPEED_LIMIT,
{
}

/// The ball after bouncing off each paddle of `ps` in turn.
pub open spec fn ball_after_bounces(b: GBall, ps: Seq<GPaddle>) -> GBall
    decreases ps.len(),
{
    if ps.len() == 0 {
        b
    } else {
        ball_after_bounces(ball_bounced(b, ps[0]), ps.skip(1))
    }
}

/// Across any sequence of paddle bounces the ball's scalar speed never
/// decreases, and it never passes the ceiling.
pub proof fn lemma_bounce_seq_speed_monotone(b: GBall, ps: Seq<GPaddle>)
    requires
        0 <= b.speed <= BALL_SPEED_LIMIT,
    ensures
        ball_after_bounces(b, ps).speed >= b.speed,
        ball_after_bounces(b, ps).speed <= BALL_SPEED_LIMIT,
    decreases ps.len(),
{
    if ps.len() > 0 {
        lemma_bounce_speed_monotone(b, ps[0]);
        lemma_bounce_seq_speed_monotone(ball_bounced(b, ps[0]), ps.skip(1));
    }
}

/// Clamp a center coordinate so a half-extent of `ey` stays inside the field.
fn clamp_exec(y: i64, ey: i64) -> (r: i64)
    requires
        0 <= ey,
        2 * ey <= AREA_HEIGHT,
        -10_000_000_000 <= y <= 10_000_000_000,
    ensures
        r == clamp_center_y(y as int, ey as int),
{
    if y < ey {
        ey
    } else if y > AREA_HEIGHT - ey {
        AREA_HEIGHT - ey
    } else {
        y
    }
}

/// Step one paddle by `dt_ms` milliseconds: integrate, then clamp.
fn paddle_step_exec(p: &mut Paddle, dt_ms: u64)
    requires
        old(p)@.wf(),
        dt_ms <= DT_MAX_MS,
    ensures
        final(p)@ == paddle_step(old(p)@, dt_ms as int),
        final(p)@.wf(),
{
    proof {
        lemma_travel_le(p.vy as int, dt_ms as int);
    }
    let t: i64 = mul_div(p.vy, dt_ms, 1000);
    let yi: i64 = p.rect.center.y + t;
    p.rect.center.y = clamp_exec(yi, p.rect.extent.y);
}

/// Bounce the ball off one paddle if the two overlap.
fn paddle_bounce(ball: &mut Ball, paddle: &Paddle)
    requires
        -200_000_000 <= old(ball)@.rect.center.x <= 200_000_000,
        -200_000_000 <= old(ball)@.rect.center.y <= 200_000_000,
        0 <= old(ball)@.rect.extent.x <= 1_000_000,
        0 <= old(ball)@.rect.extent.y <= 1_000_000,
        0 <= old(ball)@.speed <= BALL_SPEED_LIMIT,
        paddle@.wf(),
    ensures
        final(ball)@ == ball_bounced(old(ball)@, paddle@),
        final(ball)@.speed >= old(ball)@.speed,
        final(ball)@.speed <= BALL_SPEED_LIMIT,
        (-BALL_SPEED_LIMIT <= final(ball)@.v.x <= BALL_SPEED_LIMIT && -BALL_SPEED_LIMIT
            <= final(ball)@.v.y <= BALL_SPEED_LIMIT) || final(ball)@.v == old(ball)@.v,
        final(ball)@.rect == old(ball)@.rect,
{
    proof {
        lemma_bounce_speed_monotone(old(ball)@, paddle@);
    }
    if ball.rect.intersects(&paddle.rect) {
        let dx: i64 = ball.rect.center.x - paddle.rect.center.x;
        let dy: i64 = ball.rect.center.y - paddle.rect.center.y;
        if !(dx == 0 && dy == 0) {
            let ns: i64 = if ball.speed + BALL_SPEED_INCREASE <= BALL_SPEED_LIMIT {
                ball.speed + BALL_SPEED_INCREASE
            } else {
                BALL_SPEED_LIMIT
            };
            ball.speed = ns;
            ball.set_direction(Vec2 { x: dx, y: dy });
        }
    }
}

impl App {
    /// A fresh game; the ball is parked until the first serve.
    pub fn new() -> (a: App)
        ensures
            a@ == initial_app(),
            a@.wf(),
    {
        App {
            ball: Ball::new(8_000),
            left: Paddle {
                rect: Rect {
                    center: Vec2 { x: 16_000, y: 100_000 },
                    extent: Vec2 { x: 8_000, y: 24_000 },
                },
                vy: 0,
            },
            right: Paddle {
                rect: Rect {
                    center: Vec2 { x: 184_000, y: 100_000 },
                    extent: Vec2 { x: 8_000, y: 24_000 },
                },
                vy: 0,
            },
            left_score: 0,
            right_score: 0,
        }
    }

    /// One simulation tick of `dt_ms` milliseconds.
    pub fn update(&mut self, dt_ms: u64)
        requires
            old(self)@.wf(),
            dt_ms <= DT_MAX_MS,
            old(self).left_score < u64::MAX,
            old(self).right_score < u64::MAX,
        ensures
            update_rel(old(self)@, final(self)@, dt_ms as int),
            final(self)@.wf(),
            !(final(self)@.left_score > old(self)@.left_score && final(self)@.right_score
                > old(self)@.right_score),
            final(self)@.ball.speed >= old(self)@.ball.speed || final(self)@.ball.speed
                == BALL_START_SPEED,
    {
        let ghost pre: GApp = self@;
        let dt: u64 = dt_ms;

        paddle_step_exec(&mut self.left, dt);
        paddle_step_exec(&mut self.right, dt);

        proof {
            lemma_travel_le(self.ball.v.x as int, dt as int);
            lemma_travel_le(self.ball.v.y as int, dt as int);
        }
        let tx: i64 = mul_div(self.ball.v.x, dt, 1000);
        let ty: i64 = mul_div(self.ball.v.y, dt, 1000);
        self.ball.rect.center.x = self.ball.rect.center.x + tx;
        self.ball.rect.center.y = self.ball.rect.center.y + ty;
        assert(self.ball@ == ball_moved(pre.ball, dt as int));

        paddle_bounce(&mut self.ball, &self.left);
        paddle_bounce(&mut self.ball, &self.right);
        assert(self.ball@ == ball_bounced(
            ball_bounced(ball_moved(pre.ball, dt as int), paddle_step(pre.left, dt as int)),
            paddle_step(pre.right, dt as int),
        ));

        let hit_lo: bool = self.ball.rect.center.y - self.ball.rect.extent.y <= 0;
        let hit_hi: bool = self.ball.rect.center.y + self.ball.rect.extent.y >= AREA_HEIGHT;
        if hit_lo || hit_hi {
            self.ball.v.y = -self.ball.v.y;
            self.ball.rect.center.y = clamp_exec(self.ball.rect.center.y, self.ball.rect.extent.y);
        }
        assert(self.ball@ == ball_before_goals(pre, dt as int));

        let lg: bool = self.ball.rect.center.x + self.ball.rect.extent.x < 0;
        if lg {
            self.ball.reset();
            self.right_score = self.right_score + 1;
        } else {
            let rg: bool = self.ball.rect.center.x - self.ball.rect.extent.x > AREA_WIDTH;
            if rg {
                self.ball.reset();
                self.left_score = self.left_score + 1;
            }
        }
    }

    /// Apply one key press or release: pressing sets that paddle's vertical
    /// velocity, releasing zeroes it; the last event wins.
    pub fn control(&mut self, key: GameKey, pressed: bool)
        ensures
            final(self).ball == old(self).ball,
            final(self).left_score == old(self).left_score,
            final(self).right_score == old(self).right_score,
            (key_is_left(key) ==> {
                &&& final(self).right == old(self).right
                &&& final(self).left.rect == old(self).left.rect
                &&& final(self)@.left.vy == (if pressed {
                    key_velocity(key)
                } else {
                    0
                })
            }),
            (!key_is_left(key) ==> {
                &&& final(self).left == old(self).left
                &&& final(self).right.rect == old(self).right.rect
                &&& final(self)@.right.vy == (if pressed {
                    key_velocity(key)
                } else {
                    0
                })
            }),
            old(self)@.wf() ==> final(self)@.wf(),
    {
        let vy: i64 = if !pressed {
            0
        } else {
            match key {
                GameKey::LeftUp => -PADDLE_SPEED,
                GameKey::RightUp => -PADDLE_SPEED,
                GameKey::LeftDown => PADDLE_SPEED,
                GameKey::RightDown => PADDLE_SPEED,
            }
        };
        match key {
            GameKey::LeftUp => self.left.vy = vy,
            GameKey::LeftDown => self.left.vy = vy,
            GameKey::RightUp => self.right.vy = vy,
            GameKey::RightDown => self.right.vy = vy,
        }
    }
}

} // verus!
