//! Whole steps of the world on small, hand-built states.
//!
//! Lengths are written in pixels and converted: two units make a pixel.

use ferris_out::ball::{Ball, Phase, BALL_SPEED};
use ferris_out::enemy::Enemy;
use ferris_out::field::Field;
use ferris_out::input::{Horizontal, InputIntent};
use ferris_out::metrics::{FrameMetrics, FrameSample};
use ferris_out::paddle::Paddle;
use ferris_out::world::World;

fn units(pixels: f64) -> i64 {
    (pixels * 2.0) as i64
}

fn clock(ticks: u64) -> FrameSample {
    FrameSample { ticks, fps: 60 }
}

fn held(horizontal: Horizontal) -> InputIntent {
    InputIntent { horizontal, launch: false }
}

fn space() -> InputIntent {
    InputIntent::from_keys(false, false, true)
}

fn moving_ball(x: f64, y: f64, dx: i8, dy: i8) -> Ball {
    Ball {
        x: units(x),
        y: units(y),
        w: units(16.0),
        h: units(16.0),
        speed: BALL_SPEED,
        dx,
        dy,
        phase: Phase::InPlay,
    }
}

fn world_with(paddle_x: f64, enemies: Vec<Enemy>, balls: Vec<Ball>) -> World {
    let world = World {
        field: Field::new(units(800.0), units(800.0)),
        paddle: Paddle::new(units(paddle_x), units(750.0)),
        balls,
        enemies,
        metrics: FrameMetrics::new(),
    };
    assert!(world.is_valid());
    world
}

#[test]
fn paddle_is_blocked_by_the_left_wall() {
    let mut world = world_with(2.0, vec![], vec![]);
    for tick in 1..=3 {
        world.tick(held(Horizontal::Left), clock(tick));
        assert_eq!(world.paddle.x, units(2.0));
        assert!(world.is_valid());
    }
}

#[test]
fn paddle_moves_left_while_there_is_room() {
    let mut world = world_with(12.0, vec![], vec![]);
    world.tick(held(Horizontal::Left), clock(1));
    assert_eq!(world.paddle.x, units(7.0));
    world.tick(held(Horizontal::Left), clock(2));
    assert_eq!(world.paddle.x, units(2.0));
    world.tick(held(Horizontal::Left), clock(3));
    assert_eq!(world.paddle.x, units(2.0));
}

#[test]
fn paddle_reaches_the_right_wall_and_stops() {
    let mut world = world_with(745.0, vec![], vec![]);
    world.tick(held(Horizontal::Right), clock(1));
    assert_eq!(world.paddle.x, units(750.0));
    world.tick(held(Horizontal::Right), clock(2));
    assert_eq!(world.paddle.x, units(750.0));
    assert_eq!(world.paddle.x + world.paddle.width, world.field.width);
}

#[test]
fn paddle_one_unit_short_of_a_step_stays() {
    let mut world = world_with(745.5, vec![], vec![]);
    world.tick(held(Horizontal::Right), clock(1));
    assert_eq!(world.paddle.x, units(745.5));
}

#[test]
fn left_wins_over_right_and_over_launch() {
    let mut world = World::standard(units(16.0), units(16.0));
    let start = world.paddle.x;
    world.tick(InputIntent::from_keys(true, true, true), clock(1));
    assert_eq!(world.paddle.x, start - units(5.0));
    assert!(world.balls[0].is_attached());
    world.tick(InputIntent::from_keys(false, true, true), clock(2));
    assert_eq!(world.paddle.x, start);
    assert!(world.balls[0].is_attached());
}

#[test]
fn launch_sets_the_waiting_ball_in_play() {
    let mut world = World::standard(units(16.0), units(16.0));
    assert_eq!(world.paddle.x, units(375.0));
    assert_eq!(world.balls.len(), 1);
    assert_eq!(world.balls[0].x, units(375.0 + 25.0 - 8.0));
    assert_eq!(world.balls[0].y, units(720.0));

    world.tick(space(), clock(1));
    let ball = world.balls[0];
    assert!(!ball.is_attached());
    assert!(ball.in_play());
    assert_eq!((ball.dx, ball.dy), (0, -1));
    // The balls take their step before the launch, so the ball starts to
    // move with the step after it.
    assert_eq!(ball.y, units(720.0));

    world.tick(InputIntent::idle(), clock(2));
    assert_eq!(world.balls[0].y, units(717.5));
    assert_eq!(world.balls[0].x, units(392.0));
    assert_eq!((world.balls[0].dx, world.balls[0].dy), (0, -1));
}

#[test]
fn ball_turns_back_at_the_ceiling() {
    let mut world = world_with(375.0, vec![], vec![moving_ball(300.0, 0.0, 0, -1)]);
    world.tick(InputIntent::idle(), clock(1));
    assert_eq!(world.balls[0].dy, 1);
    assert_eq!(world.balls[0].x, units(300.0));
    assert_eq!(world.balls[0].y, units(2.5));
}

#[test]
fn ball_just_below_the_ceiling_crosses_it_first() {
    let mut world = world_with(375.0, vec![], vec![moving_ball(300.0, 1.0, 0, -1)]);
    world.tick(InputIntent::idle(), clock(1));
    assert_eq!(world.balls[0].dy, -1);
    assert_eq!(world.balls[0].y, units(-1.5));
    assert!(world.is_valid());
    world.tick(InputIntent::idle(), clock(2));
    assert_eq!(world.balls[0].dy, 1);
    assert_eq!(world.balls[0].y, units(1.0));
    world.tick(InputIntent::idle(), clock(3));
    assert_eq!(world.balls[0].y, units(3.5));
    assert_eq!(world.balls[0].x, units(300.0));
}

#[test]
fn brick_is_destroyed_from_below() {
    let brick = Enemy::new(1, units(100.0), units(100.0));
    let mut world = world_with(375.0, vec![brick], vec![moving_ball(108.0, 101.0, 0, -1)]);

    world.tick(InputIntent::idle(), clock(1));
    assert_eq!(world.enemies.len(), 1);
    assert_eq!(world.enemies[0].health, 0);
    assert_eq!((world.balls[0].dx, world.balls[0].dy), (0, 1));
    assert_eq!((world.balls[0].x, world.balls[0].y), (units(108.0), units(103.5)));

    world.tick(InputIntent::idle(), clock(2));
    assert!(world.enemies.is_empty());
    assert_eq!((world.balls[0].dx, world.balls[0].dy), (0, 1));
    assert_eq!((world.balls[0].x, world.balls[0].y), (units(108.0), units(106.0)));
}

#[test]
fn brick_loses_health_on_every_step_of_a_contact() {
    let brick = Enemy::new(5, units(100.0), units(100.0));
    let mut world = world_with(375.0, vec![brick], vec![moving_ball(108.0, 101.0, 0, -1)]);
    // The ball turns down at once, and its top edge stays within the brick's
    // rows for three more steps.
    for (tick, health) in [(1, 4), (2, 3), (3, 2), (4, 1)] {
        world.tick(InputIntent::idle(), clock(tick));
        assert_eq!(world.enemies[0].health, health);
        assert_eq!(world.balls[0].dy, 1);
    }
    assert_eq!(world.balls[0].y, units(111.0));
    world.tick(InputIntent::idle(), clock(5));
    assert_eq!(world.enemies, vec![Enemy { health: 1, x: units(100.0), y: units(100.0) }]);
    assert_eq!(world.balls[0].y, units(113.5));
}

#[test]
fn ball_dies_below_the_floor() {
    let mut world = world_with(375.0, vec![], vec![moving_ball(300.0, 785.0, 0, 1)]);
    world.tick(InputIntent::idle(), clock(1));
    assert_eq!(world.balls.len(), 1);
    assert!(world.balls[0].is_dead());
    assert_eq!(world.balls[0].y, units(787.5));
    assert!(world.is_valid());

    world.tick(InputIntent::idle(), clock(2));
    assert!(world.balls.is_empty());
}

#[test]
fn ball_that_touches_the_floor_line_lives() {
    let mut world = world_with(375.0, vec![], vec![moving_ball(300.0, 784.0, 0, 1)]);
    world.tick(InputIntent::idle(), clock(1));
    assert!(world.balls[0].in_play());
    assert_eq!(world.balls[0].y, units(786.5));
    world.tick(InputIntent::idle(), clock(2));
    assert!(world.balls[0].is_dead());
}

#[test]
fn idle_step_with_a_waiting_ball_settles() {
    let mut world = World::standard(units(16.0), units(16.0));
    world.enemies[3].health = 0;
    world.tick(InputIntent::idle(), clock(1));
    let paddle = world.paddle;
    let enemies = world.enemies.clone();
    let balls = world.balls.clone();
    assert_eq!(enemies.len(), 55);
    assert_eq!(paddle.x, units(375.0));

    world.tick(InputIntent::idle(), clock(2));
    assert_eq!(world.paddle, paddle);
    assert_eq!(world.enemies, enemies);
    assert_eq!(world.balls, balls);
}

#[test]
fn waiting_ball_follows_the_paddle_one_step_behind() {
    let mut world = World::standard(units(16.0), units(16.0));
    world.tick(held(Horizontal::Right), clock(1));
    assert_eq!(world.paddle.x, units(380.0));
    assert_eq!(world.balls[0].x, units(392.0));
    world.tick(InputIntent::idle(), clock(2));
    assert_eq!(world.balls[0].x, units(397.0));
    assert_eq!(world.balls[0].x, world.paddle.x + world.paddle.width / 2 - world.balls[0].w / 2);
    assert_eq!(world.balls[0].y, world.paddle.y - units(30.0));
}

#[test]
fn ball_bounces_off_the_paddle_to_the_side_it_hit() {
    // Bottom edge 5 pixels into the paddle, midpoint left of the paddle's.
    let left = moving_ball(370.0, 739.0, 0, 1);
    let right = moving_ball(400.0, 739.0, 0, 1);
    let mut world = world_with(375.0, vec![], vec![left, right]);
    world.tick(InputIntent::idle(), clock(1));
    assert_eq!((world.balls[0].dx, world.balls[0].dy), (-1, -1));
    assert_eq!((world.balls[0].x, world.balls[0].y), (units(367.5), units(736.5)));
    assert_eq!((world.balls[1].dx, world.balls[1].dy), (1, -1));
    assert_eq!((world.balls[1].x, world.balls[1].y), (units(402.5), units(736.5)));
}

#[test]
fn side_walls_turn_the_ball_inward() {
    let at_left = moving_ball(0.0, 400.0, -1, 0);
    let at_right = moving_ball(784.0, 400.0, 1, 0);
    let mut world = world_with(375.0, vec![], vec![at_left, at_right]);
    world.tick(InputIntent::idle(), clock(1));
    assert_eq!(world.balls[0].dx, 1);
    assert_eq!(world.balls[0].x, units(2.5));
    assert_eq!(world.balls[1].dx, -1);
    assert_eq!(world.balls[1].x, units(781.5));
}

#[test]
fn ball_in_the_corner_goes_two_steps_past_the_wall() {
    let mut world = world_with(375.0, vec![], vec![moving_ball(1.0, 1.0, -1, -1)]);
    world.tick(InputIntent::idle(), clock(1));
    assert_eq!((world.balls[0].x, world.balls[0].y), (units(-1.5), units(-1.5)));
    world.tick(InputIntent::idle(), clock(2));
    // The ceiling is tested before the wall, so the ball keeps going left once more.
    assert_eq!((world.balls[0].dx, world.balls[0].dy), (-1, 1));
    assert_eq!((world.balls[0].x, world.balls[0].y), (units(-4.0), units(1.0)));
    assert!(world.is_valid());
    world.tick(InputIntent::idle(), clock(3));
    assert_eq!((world.balls[0].dx, world.balls[0].dy), (1, 1));
    assert_eq!((world.balls[0].x, world.balls[0].y), (units(-1.5), units(3.5)));
}

#[test]
fn two_balls_wear_one_brick_down_to_zero_and_no_further() {
    let brick = Enemy::new(1, units(100.0), units(100.0));
    let first = moving_ball(108.0, 101.0, 0, -1);
    let second = moving_ball(110.0, 102.0, 0, -1);
    let mut world = world_with(375.0, vec![brick], vec![first, second]);
    world.tick(InputIntent::idle(), clock(1));
    assert_eq!(world.enemies[0].health, 0);
    // The brick was gone when the second ball came: it flies on.
    assert_eq!(world.balls[0].dy, 1);
    assert_eq!(world.balls[1].dy, -1);
    assert_eq!(world.balls[1].y, units(99.5));
}

#[test]
fn one_ball_damages_every_brick_it_touches() {
    // Two bricks side by side; the ball's midpoint is on their common edge.
    let a = Enemy::new(2, units(100.0), units(100.0));
    let b = Enemy::new(2, units(140.0), units(100.0));
    let ball = moving_ball(132.0, 105.0, 0, -1);
    let mut world = world_with(375.0, vec![a, b], vec![ball]);
    world.tick(InputIntent::idle(), clock(1));
    assert_eq!(world.enemies[0].health, 1);
    assert_eq!(world.enemies[1].health, 1);
    assert_eq!(world.balls[0].dy, 1);
}

#[test]
fn frame_rate_is_refreshed_every_tenth_step() {
    let mut world = World::standard(units(16.0), units(16.0));
    assert_eq!(world.snapshot().fps_text, "0");
    world.tick(InputIntent::idle(), FrameSample { ticks: 9, fps: 58 });
    assert_eq!(world.metrics.shown_fps, 0);
    world.tick(InputIntent::idle(), FrameSample { ticks: 10, fps: 59 });
    assert_eq!(world.metrics.shown_fps, 59);
    world.tick(InputIntent::idle(), FrameSample { ticks: 11, fps: 12 });
    assert_eq!(world.metrics.shown_fps, 59);
    assert_eq!(world.snapshot().fps_text, "59");
    world.tick(InputIntent::idle(), FrameSample { ticks: 20, fps: 1024 });
    assert_eq!(world.snapshot().fps_text, "1024");
}
