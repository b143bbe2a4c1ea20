use pong::ball::{SERVE_NORM_SQ_MAX, SERVE_NORM_SQ_MIN};
use pong::game::{App, GameKey};
use pong::geom::{Rect, Vec2};

#[test]
fn initial_layout() {
    let a = App::new();
    assert_eq!(a.left.rect.center.x, 16_000);
    assert_eq!(a.left.rect.center.y, 100_000);
    assert_eq!(a.right.rect.center.x, 184_000);
    assert_eq!(a.left.rect.extent.x, 8_000);
    assert_eq!(a.left.rect.extent.y, 24_000);
    assert_eq!(a.ball.rect.extent.x, 8_000);
    assert_eq!(a.ball.speed, 0);
    assert_eq!(a.left_score, 0);
    assert_eq!(a.right_score, 0);
}

#[test]
fn goal_left_scores_right() {
    let mut a = App::new();
    a.ball.rect.center = Vec2 { x: 100_000, y: 100_000 };
    a.ball.v = Vec2 { x: -40_000, y: 0 };
    a.ball.speed = 40_000;
    a.update(5_000);
    assert_eq!(a.right_score, 1);
    assert_eq!(a.left_score, 0);
    assert_eq!(a.ball.rect.center.x, 100_000);
    assert_eq!(a.ball.rect.center.y, 100_000);
    assert_eq!(a.ball.speed, 40_000);
}

#[test]
fn goal_right_scores_left() {
    let mut a = App::new();
    a.ball.rect.center = Vec2 { x: 100_000, y: 100_000 };
    a.ball.v = Vec2 { x: 40_000, y: 0 };
    a.ball.speed = 40_000;
    a.update(5_000);
    assert_eq!(a.left_score, 1);
    assert_eq!(a.right_score, 0);
    assert_eq!(a.ball.rect.center.x, 100_000);
    assert_eq!(a.ball.speed, 40_000);
}

#[test]
fn paddle_bounce_speeds_up_rightward() {
    let mut a = App::new();
    a.ball.rect.center = Vec2 { x: 30_000, y: 100_000 };
    a.ball.v = Vec2 { x: -40_000, y: 0 };
    a.ball.speed = 40_000;
    a.update(250);
    assert_eq!(a.ball.rect.center.x, 20_000);
    assert_eq!(a.ball.rect.center.y, 100_000);
    assert_eq!(a.ball.speed, 45_000);
    assert_eq!(a.ball.v.x, 45_000);
    assert_eq!(a.ball.v.y, 0);
}

#[test]
fn speed_increases_each_bounce() {
    let mut a = App::new();
    a.ball.rect.center = Vec2 { x: 30_000, y: 100_000 };
    a.ball.v = Vec2 { x: -40_000, y: 0 };
    a.ball.speed = 40_000;
    a.update(250);
    let after_first: i64 = a.ball.speed;
    assert_eq!(after_first, 45_000);
    // Walk the ball into the right paddle and bounce again.
    a.ball.rect.center = Vec2 { x: 170_000, y: 100_000 };
    a.ball.v = Vec2 { x: 45_000, y: 0 };
    a.update(200);
    assert!(a.ball.speed >= after_first);
    assert_eq!(a.ball.speed, 50_000);
}

#[test]
fn bounce_aims_along_contact_offset() {
    let mut a = App::new();
    // Contact offset (3000, 4000) from the left paddle's center: a 3-4-5
    // triangle, so the rescaled velocity is exact.
    a.ball.rect.center = Vec2 { x: 19_000, y: 104_000 };
    a.ball.v = Vec2 { x: -40_000, y: 0 };
    a.ball.speed = 40_000;
    a.update(0);
    assert_eq!(a.ball.speed, 45_000);
    assert_eq!(a.ball.v.x, 27_000);
    assert_eq!(a.ball.v.y, 36_000);
}

#[test]
fn ceiling_reflects_vertical() {
    let mut a = App::new();
    a.ball.rect.center = Vec2 { x: 100_000, y: 8_000 };
    a.ball.v = Vec2 { x: -30_000, y: -20_000 };
    a.ball.speed = 40_000;
    a.update(0);
    assert_eq!(a.ball.v.x, -30_000);
    assert_eq!(a.ball.v.y, 20_000);
    assert_eq!(a.ball.rect.center.y, 8_000);
}

#[test]
fn floor_reflects_vertical() {
    let mut a = App::new();
    a.ball.rect.center = Vec2 { x: 100_000, y: 192_000 };
    a.ball.v = Vec2 { x: 10_000, y: 20_000 };
    a.ball.speed = 40_000;
    a.update(0);
    assert_eq!(a.ball.v.x, 10_000);
    assert_eq!(a.ball.v.y, -20_000);
}

#[test]
fn paddle_clamped_at_bottom_and_top() {
    let mut a = App::new();
    a.control(GameKey::RightDown, true);
    assert_eq!(a.right.vy, 50_000);
    a.update(10_000);
    // 100_000 + 500_000 clamps to the floor limit.
    assert_eq!(a.right.rect.center.y, 176_000);
    a.control(GameKey::RightUp, true);
    a.update(10_000);
    a.update(10_000);
    assert_eq!(a.right.rect.center.y, 24_000);
}

#[test]
fn key_press_and_release() {
    let mut a = App::new();
    a.control(GameKey::LeftUp, true);
    assert_eq!(a.left.vy, -50_000);
    a.control(GameKey::LeftDown, true);
    assert_eq!(a.left.vy, 50_000);
    // Releasing up zeroes the paddle no matter what else is held.
    a.control(GameKey::LeftUp, false);
    assert_eq!(a.left.vy, 0);
    a.control(GameKey::RightUp, true);
    assert_eq!(a.right.vy, -50_000);
    a.control(GameKey::RightUp, false);
    assert_eq!(a.right.vy, 0);
    // The other paddle was never touched by right-hand keys.
    assert_eq!(a.left.vy, 0);
}

#[test]
fn serve_is_centered_at_start_speed() {
    let mut a = App::new();
    a.ball.reset();
    assert_eq!(a.ball.rect.center.x, 100_000);
    assert_eq!(a.ball.rect.center.y, 100_000);
    assert_eq!(a.ball.speed, 40_000);
    assert_ne!(a.ball.v.x, 0);
    let norm_sq: i64 = a.ball.v.x * a.ball.v.x + a.ball.v.y * a.ball.v.y;
    assert!(norm_sq >= SERVE_NORM_SQ_MIN);
    assert!(norm_sq <= SERVE_NORM_SQ_MAX);
}

#[test]
fn serve_aim_exact_values() {
    let mut a = App::new();
    a.ball.reset_with(0, false);
    assert_eq!(a.ball.v.x, 40_000);
    assert_eq!(a.ball.v.y, 0);
    a.ball.reset_with(-500, true);
    assert_eq!(a.ball.v.x, -28_288);
    assert_eq!(a.ball.v.y, -28_288);
    let norm_sq: i64 = a.ball.v.x * a.ball.v.x + a.ball.v.y * a.ball.v.y;
    assert!(norm_sq >= SERVE_NORM_SQ_MIN && norm_sq <= SERVE_NORM_SQ_MAX);
}

#[test]
fn intersects_is_symmetric() {
    let a = Rect { center: Vec2 { x: 0, y: 0 }, extent: Vec2 { x: 10, y: 10 } };
    let b = Rect { center: Vec2 { x: 15, y: 5 }, extent: Vec2 { x: 6, y: 6 } };
    let c = Rect { center: Vec2 { x: 100, y: 100 }, extent: Vec2 { x: 1, y: 1 } };
    assert_eq!(a.intersects(&b), b.intersects(&a));
    assert!(a.intersects(&b));
    assert_eq!(a.intersects(&c), c.intersects(&a));
    assert!(!a.intersects(&c));
    // Touching edges count as overlap.
    let d = Rect { center: Vec2 { x: 16, y: 0 }, extent: Vec2 { x: 6, y: 6 } };
    assert!(a.intersects(&d) && d.intersects(&a));
}

#[test]
fn rect_as_array_roundtrip() {
    let r = Rect::new(1, 2, 3, 4);
    let arr = r.as_array();
    assert_eq!(arr, [1, 2, 3, 4]);
}
