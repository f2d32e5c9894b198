//! The integer simulation against the same rules carried out in floating
//! point, in pixels. Every quantity of the standard layout is a multiple of
//! half a pixel, so the two must agree exactly.

use ferris_out::ball::{Ball, Phase, BALL_SPEED};
use ferris_out::input::InputIntent;
use ferris_out::metrics::FrameSample;
use ferris_out::world::World;

const SIZE: f32 = 800.0;
const BRICK_W: f32 = 40.0;
const BRICK_H: f32 = 10.0;

#[derive(Clone, Copy)]
struct FloatBall {
    x: f32,
    y: f32,
    w: f32,
    h: f32,
    speed: f32,
    dx: i8,
    dy: i8,
    in_game: bool,
    reached_bottom: bool,
}

#[derive(Clone, Copy)]
struct FloatBrick {
    x: f32,
    y: f32,
    health: u32,
}

struct FloatPaddle {
    x: f32,
    y: f32,
    length: f32,
    height: f32,
    speed: f32,
}

struct FloatGame {
    paddle: FloatPaddle,
    balls: Vec<FloatBall>,
    bricks: Vec<FloatBrick>,
}

impl FloatBall {
    fn hit_brick_bottom(&self, e: &FloatBrick) -> bool {
        let mid = self.x + self.w / 2.0;
        e.x <= mid && e.x + BRICK_W >= mid && e.y + BRICK_H >= self.y && e.y <= self.y
    }

    fn hit_brick_top(&self, e: &FloatBrick) -> bool {
        let mid = self.x + self.w / 2.0;
        e.x <= mid && e.x + BRICK_W >= mid && e.y >= self.y + self.h && e.y <= self.y + self.h
    }

    fn rows_meet(&self, e: &FloatBrick) -> bool {
        (self.y >= e.y && self.y <= e.y + BRICK_H)
            || (self.y + self.h >= e.y && self.y + self.h <= e.y + BRICK_H)
            || (self.y <= e.y && self.y + self.h > e.y + BRICK_H)
    }

    fn hit_brick_left(&self, e: &FloatBrick) -> bool {
        self.x < e.x && self.x + self.w >= e.x && self.rows_meet(e)
    }

    fn hit_brick_right(&self, e: &FloatBrick) -> bool {
        self.x + self.w > e.x + BRICK_W && self.x <= e.x + BRICK_W && self.rows_meet(e)
    }

    fn hit_paddle(&self, p: &FloatPaddle) -> bool {
        self.y + self.h > p.y
            && self.y + self.h < p.y + p.height
            && (self.x + self.w > p.x && self.x + self.w < p.x + p.length
                || self.x > p.x && self.x < p.x + p.length)
    }
}

impl FloatGame {
    fn update(&mut self, left: bool, right: bool, space: bool) {
        self.balls.retain(|ball| !ball.reached_bottom);
        self.bricks.retain(|brick| brick.health != 0);

        for ball in &mut self.balls {
            if ball.in_game {
                for brick in &mut self.bricks {
                    if brick.health == 0 {
                        continue;
                    }
                    if ball.hit_brick_bottom(brick) {
                        brick.health -= 1;
                        ball.dy = 1;
                    } else if ball.hit_brick_top(brick) {
                        brick.health -= 1;
                        ball.dy = -1;
                    } else if ball.hit_brick_left(brick) {
                        brick.health -= 1;
                        ball.dx = -1;
                    } else if ball.hit_brick_right(brick) {
                        brick.health -= 1;
                        ball.dx = 1;
                    }
                }

                if ball.y + ball.h > SIZE {
                    ball.reached_bottom = true;
                } else if ball.y <= 0.0 {
                    ball.dy = 1;
                } else if ball.x <= 0.0 {
                    ball.dx = 1;
                } else if ball.x + ball.w >= SIZE {
                    ball.dx = -1;
                } else if ball.hit_paddle(&self.paddle) {
                    let ball_mid = ball.x + ball.w / 2.0;
                    let paddle_mid = self.paddle.x + self.paddle.length / 2.0;
                    ball.dx = if ball_mid < paddle_mid { -1 } else { 1 };
                    ball.dy = -1;
                }

                ball.x += ball.speed * f32::from(ball.dx);
                ball.y += ball.speed * f32::from(ball.dy);
            } else {
                ball.x = self.paddle.x + self.paddle.length / 2.0 - ball.w / 2.0;
            }
        }

        if left {
            if self.paddle.x - self.paddle.speed >= 0.0 {
                self.paddle.x -= self.paddle.speed;
            }
        } else if right {
            if self.paddle.x + self.paddle.length + self.paddle.speed <= SIZE {
                self.paddle.x += self.paddle.speed;
            }
        } else if space {
            for ball in &mut self.balls {
                if !ball.in_game {
                    ball.dx = 0;
                    ball.dy = -1;
                    ball.in_game = true;
                }
            }
        }
    }
}

fn float_game(world: &World) -> FloatGame {
    let half = |units: i64| units as f32 / 2.0;
    FloatGame {
        paddle: FloatPaddle {
            x: half(world.paddle.x),
            y: half(world.paddle.y),
            length: half(world.paddle.width),
            height: half(world.paddle.height),
            speed: half(world.paddle.speed),
        },
        balls: world
            .balls
            .iter()
            .map(|b| FloatBall {
                x: half(b.x),
                y: half(b.y),
                w: half(b.w),
                h: half(b.h),
                speed: half(b.speed),
                dx: b.dx,
                dy: b.dy,
                in_game: b.in_play(),
                reached_bottom: b.is_dead(),
            })
            .collect(),
        bricks: world
            .enemies
            .iter()
            .map(|e| FloatBrick { x: half(e.x), y: half(e.y), health: e.health })
            .collect(),
    }
}

fn assert_same(world: &World, game: &FloatGame, tick: u64) {
    let half = |units: i64| units as f32 / 2.0;
    assert_eq!(half(world.paddle.x), game.paddle.x, "paddle at step {}", tick);
    assert_eq!(world.balls.len(), game.balls.len(), "balls at step {}", tick);
    for (b, f) in world.balls.iter().zip(game.balls.iter()) {
        assert_eq!((half(b.x), half(b.y)), (f.x, f.y), "ball at step {}", tick);
        assert_eq!((b.dx, b.dy), (f.dx, f.dy), "direction at step {}", tick);
        assert_eq!(b.is_dead(), f.reached_bottom, "death at step {}", tick);
        assert_eq!(b.is_attached(), !f.in_game, "launch at step {}", tick);
    }
    assert_eq!(world.enemies.len(), game.bricks.len(), "bricks at step {}", tick);
    for (e, f) in world.enemies.iter().zip(game.bricks.iter()) {
        let brick = (half(e.x), half(e.y), e.health);
        assert_eq!(brick, (f.x, f.y, f.health), "brick at step {}", tick);
    }
}

fn run(mut world: World, mut seed: u64, steps: u64) -> World {
    assert!(world.is_valid());
    let mut game = float_game(&world);
    for tick in 1..=steps {
        seed = seed.wrapping_mul(6364136223846793005).wrapping_add(1442695040888963407);
        let bits = seed >> 33;
        let (left, right, space) = (bits % 3 == 0, bits % 5 < 2, bits % 7 == 0);
        let input = InputIntent::from_keys(left, right, space);
        world.tick(input, FrameSample { ticks: tick, fps: 60 });
        game.update(left, right, space);
        assert_same(&world, &game, tick);
    }
    world
}

fn moving(x: i64, y: i64, dx: i8, dy: i8) -> Ball {
    Ball { x, y, w: 32, h: 32, speed: BALL_SPEED, dx, dy, phase: Phase::InPlay }
}

#[test]
fn standard_game_agrees_with_floating_point() {
    for seed in 1..=20 {
        run(World::standard(32, 32), seed, 3000);
    }
}

#[test]
fn crowded_game_agrees_with_floating_point() {
    for seed in 1..=10u64 {
        let mut world = World::standard(32, 32);
        for brick in world.enemies.iter_mut() {
            brick.health = 1 + (brick.x as u32 / 100 + seed as u32) % 4;
        }
        for n in 0..12i64 {
            let dx = (n % 3 - 1) as i8;
            let dy = if n % 2 == 0 { -1 } else { 1 };
            world.balls.push(moving(3 + 131 * n, 7 + 97 * n + seed as i64, dx, dy));
        }
        world.balls.push(Ball::new(700, 1440, 32, 32));
        let end = run(world, seed, 4000);
        assert!(end.enemies.len() < 56);
    }
}

#[test]
fn odd_sized_balls_agree_with_floating_point() {
    // The waiting ball is 15 by 9 pixels; the balls in play have sides of odd
    // numbers of half pixels.
    let mut world = World::standard(30, 18);
    world.balls.push(Ball { w: 31, h: 17, ..moving(401, 803, 1, -1) });
    world.balls.push(Ball { w: 7, h: 45, ..moving(1203, 301, -1, -1) });
    world.balls.push(Ball { w: 150, h: 9, ..moving(77, 1001, -1, 1) });
    run(world, 99, 4000);
}
