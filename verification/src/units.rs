use vstd::prelude::*;

verus! {

/// One playfield unit, in milliunits. Times are milliseconds, speeds are
/// milliunits per second, so a body moves `v * dt / MILLI` milliunits in
/// `dt` milliseconds.
pub const MILLI: i64 = 1000;

/// Playfield width, in milliunits (200 units).
pub const AREA_WIDTH: i64 = 200_000;

/// Playfield height, in milliunits (200 units).
pub const AREA_HEIGHT: i64 = 200_000;

/// Horizontal center of the playfield, where the ball is served.
pub const SERVE_X: i64 = 100_000;

/// Vertical center of the playfield, where the ball is served.
pub const SERVE_Y: i64 = 100_000;

/// Vertical speed of a paddle while one of its keys is held (50 units/s).
pub const PADDLE_SPEED: i64 = 50_000;

/// Scalar speed of the ball right after a serve (40 units/s).
pub const BALL_START_SPEED: i64 = 40_000;

/// Scalar speed gained at each paddle bounce (5 units/s).
pub const BALL_SPEED_INCREASE: i64 = 5_000;

/// Hard ceiling on the ball's scalar speed. The bounce increment saturates
/// here so that position and velocity arithmetic stays well inside `i64`;
/// the ceiling sits at 10000 units/s, far beyond anything reachable in play.
pub const BALL_SPEED_LIMIT: i64 = 10_000_000;

/// Longest tick the update step accepts, in milliseconds.
pub const DT_MAX_MS: u64 = 10_000;

} // verus!
