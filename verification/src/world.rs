//! The world: one paddle, the balls and the bricks, and the step that advances them.

use vstd::prelude::*;
use crate::ball::Ball;
use crate::enemy::Enemy;
use crate::field::Field;
use crate::geometry::{Rect, MAX_EXTENT};
use crate::input::InputIntent;
use crate::metrics::{decimal, FrameMetrics, FrameSample};
use crate::paddle::{Paddle, ATTACH_GAP, PADDLE_HEIGHT, PADDLE_RISE, PADDLE_SPEED, PADDLE_WIDTH};
use crate::state::{
    grid_brick,
    launch_all,
    standard_grid,
    standard_paddle,
    standard_state,
    surviving_balls,
    surviving_bricks,
    sweep,
    WorldState,
    FIELD_SIZE,
    GRID_COLS,
    GRID_ROWS,
    GRID_STEP_X,
    GRID_STEP_Y,
};

verus! {

/// The whole state of a game.
#[derive(Debug)]
pub struct World {
    pub field: Field,
    pub paddle: Paddle,
    pub balls: Vec<Ball>,
    pub enemies: Vec<Enemy>,
    pub metrics: FrameMetrics,
}

/// What the host draws: the outline of every entity and the frame-rate text.
#[derive(Debug)]
pub struct Snapshot {
    pub paddle: Rect,
    pub balls: Vec<Rect>,
    pub enemies: Vec<Rect>,
    pub fps_text: String,
}

impl View for World {
    type V = WorldState;

    open spec fn view(&self) -> WorldState {
        WorldState {
            field: self.field,
            paddle: self.paddle,
            balls: self.balls@,
            enemies: self.enemies@,
            metrics: self.metrics,
        }
    }
}

impl World {
    /// Whether every ball and every brick is one that the simulation accepts in
    /// `field` with `paddle`.
    fn entities_valid(field: Field, paddle: Paddle, balls: &Vec<Ball>, enemies: &Vec<Enemy>) -> (ok:
        bool)
        requires
            field.wf(),
            paddle.wf(),
        ensures
            ok == ({
                &&& forall|i: int|
                    0 <= i < balls@.len() ==> (#[trigger] balls@[i]).wf() && balls@[i].within(
                        field,
                        paddle,
                    )
                &&& forall|i: int| 0 <= i < enemies@.len() ==> (#[trigger] enemies@[i]).wf()
            }),
    {
        let n: usize = balls.len();
        let mut i: usize = 0;
        while i < n
            invariant
                i <= n,
                n == balls@.len(),
                field.wf(),
                paddle.wf(),
                forall|j: int|
                    0 <= j < i ==> (#[trigger] balls@[j]).wf() && balls@[j].within(field, paddle),
            decreases n - i,
        {
            if !balls[i].is_valid(field, paddle) {
                return false;
            }
            i += 1;
        }
        let m: usize = enemies.len();
        let mut k: usize = 0;
        while k < m
            invariant
                k <= m,
                m == enemies@.len(),
                forall|j: int| 0 <= j < k ==> (#[trigger] enemies@[j]).wf(),
            decreases m - k,
        {
            if !enemies[k].is_valid() {
                return false;
            }
            k += 1;
        }
        true
    }

    /// Whether the world is in a state that the simulation can hold, as
    /// [`World::tick`] requires.
    pub fn is_valid(&self) -> (ok: bool)
        ensures
            ok == self@.wf(),
    {
        if !Field::accepts(self.field.width, self.field.height) {
            return false;
        }
        if !self.paddle.is_valid(self.field) {
            return false;
        }
        let ok = Self::entities_valid(self.field, self.paddle, &self.balls, &self.enemies);
        proof {
            assert(self@.balls == self.balls@);
            assert(self@.enemies == self.enemies@);
        }
        ok
    }

    /// Whether [`World::new`] accepts these parts.
    pub fn accepts(field: Field, enemies: &Vec<Enemy>, balls: &Vec<Ball>) -> (ok: bool)
        ensures
            ok == (WorldState {
                field,
                paddle: standard_paddle(field),
                balls: balls@,
                enemies: enemies@,
                metrics: FrameMetrics { shown_fps: 0 },
            }).wf(),
    {
        if !Field::accepts(field.width, field.height) {
            return false;
        }
        let paddle = Paddle {
            x: field.width / 2 - PADDLE_WIDTH / 2,
            y: field.height - PADDLE_RISE,
            width: PADDLE_WIDTH,
            height: PADDLE_HEIGHT,
            speed: PADDLE_SPEED,
        };
        if !paddle.is_valid(field) {
            return false;
        }
        let ok = Self::entities_valid(field, paddle, balls, enemies);
        proof {
            let state = WorldState {
                field,
                paddle: standard_paddle(field),
                balls: balls@,
                enemies: enemies@,
                metrics: FrameMetrics { shown_fps: 0 },
            };
            assert(state.balls == balls@);
            assert(state.enemies == enemies@);
        }
        ok
    }

    /// A world in `field` with the standard paddle (see [`standard_paddle`]), the
    /// given bricks and the given balls. The field must have room for the paddle,
    /// and every ball must be placed as [`Ball::within`] says: [`World::accepts`]
    /// tells whether that is so.
    pub fn new(field: Field, enemies: Vec<Enemy>, balls: Vec<Ball>) -> (world: World)
        requires
            (WorldState {
                field,
                paddle: standard_paddle(field),
                balls: balls@,
                enemies: enemies@,
                metrics: FrameMetrics { shown_fps: 0 },
            }).wf(),
        ensures
            world@ == (WorldState {
                field,
                paddle: standard_paddle(field),
                balls: balls@,
                enemies: enemies@,
                metrics: FrameMetrics { shown_fps: 0 },
            }),
            world@.wf(),
    {
        let paddle = Paddle::new(
            field.width / 2 - PADDLE_WIDTH / 2,
            field.height - PADDLE_RISE,
        );
        World { field, paddle, balls, enemies, metrics: FrameMetrics::new() }
    }

    /// The bricks of the standard layout: [`GRID_ROWS`] rows of [`GRID_COLS`]
    /// bricks with one health each.
    pub fn standard_bricks() -> (bricks: Vec<Enemy>)
        ensures
            bricks@ == standard_grid(),
    {
        let mut bricks: Vec<Enemy> = Vec::new();
        let mut row: usize = 0;
        while row < GRID_ROWS
            invariant
                row <= GRID_ROWS,
                bricks@.len() == row * GRID_COLS,
                forall|k: int|
                    0 <= k < bricks@.len() ==> bricks@[k] == grid_brick(
                        k / (GRID_COLS as int),
                        k % (GRID_COLS as int),
                    ),
            decreases GRID_ROWS - row,
        {
            let y: i64 = GRID_STEP_Y * (row as i64 + 1);
            let mut col: usize = 0;
            while col < GRID_COLS
                invariant
                    row < GRID_ROWS,
                    col <= GRID_COLS,
                    y == GRID_STEP_Y * (row + 1),
                    bricks@.len() == row * GRID_COLS + col,
                    forall|k: int|
                        0 <= k < bricks@.len() ==> bricks@[k] == grid_brick(
                            k / (GRID_COLS as int),
                            k % (GRID_COLS as int),
                        ),
                decreases GRID_COLS - col,
            {
                let x: i64 = GRID_STEP_X * (col as i64 + 1);
                bricks.push(Enemy::new(1, x, y));
                col += 1;
            }
            row += 1;
        }
        proof {
            assert(bricks@ =~= standard_grid());
        }
        bricks
    }

    /// The standard layout: a square field of [`FIELD_SIZE`], the standard
    /// paddle, the standard bricks, and one waiting ball `ball_w` wide and
    /// `ball_h` high centred over the paddle.
    pub fn standard(ball_w: i64, ball_h: i64) -> (world: World)
        requires
            1 <= ball_w <= MAX_EXTENT,
            1 <= ball_h <= MAX_EXTENT,
        ensures
            world@ == standard_state(ball_w, ball_h),
            world@.wf(),
            world@.all_alive(),
    {
        let field = Field::new(FIELD_SIZE, FIELD_SIZE);
        let paddle = Paddle::new(FIELD_SIZE / 2 - PADDLE_WIDTH / 2, FIELD_SIZE - PADDLE_RISE);
        let mut ball = Ball::new(paddle.x, paddle.y - ATTACH_GAP, ball_w, ball_h);
        ball.seat(paddle);
        let mut balls: Vec<Ball> = Vec::new();
        balls.push(ball);
        let enemies = Self::standard_bricks();
        proof {
            assert(balls@ =~= standard_state(ball_w, ball_h).balls);
        }
        World::new(field, enemies, balls)
    }

    /// The outlines of everything in the world, for drawing, and the frame rate
    /// as text. Dead balls and bricks without health are part of the world, and
    /// so of the snapshot, until the next step removes them.
    pub fn snapshot(&self) -> (shot: Snapshot)
        ensures
            shot.paddle == self.paddle.spec_rect(),
            shot.balls@ == self.balls@.map_values(|b: Ball| b.spec_rect()),
            shot.enemies@ == self.enemies@.map_values(|e: Enemy| e.spec_rect()),
            shot.fps_text@ == decimal(self.metrics.shown_fps as nat),
    {
        let mut balls: Vec<Rect> = Vec::new();
        let n: usize = self.balls.len();
        let mut i: usize = 0;
        while i < n
            invariant
                i <= n,
                n == self.balls@.len(),
                balls@.len() == i,
                forall|j: int| 0 <= j < i ==> balls@[j] == self.balls@[j].spec_rect(),
            decreases n - i,
        {
            balls.push(self.balls[i].rect());
            i += 1;
        }
        let mut enemies: Vec<Rect> = Vec::new();
        let m: usize = self.enemies.len();
        let mut k: usize = 0;
        while k < m
            invariant
                k <= m,
                m == self.enemies@.len(),
                enemies@.len() == k,
                forall|j: int| 0 <= j < k ==> enemies@[j] == self.enemies@[j].spec_rect(),
            decreases m - k,
        {
            enemies.push(self.enemies[k].rect());
            k += 1;
        }
        proof {
            assert(balls@ =~= self.balls@.map_values(|b: Ball| b.spec_rect()));
            assert(enemies@ =~= self.enemies@.map_values(|e: Enemy| e.spec_rect()));
        }
        Snapshot { paddle: self.paddle.rect(), balls, enemies, fps_text: self.metrics.text() }
    }

    /// Removes the dead balls and the bricks without health.
    pub fn prune(&mut self)
        ensures
            final(self)@ == old(self)@.pruned(),
    {
        let mut balls: Vec<Ball> = Vec::new();
        let n: usize = self.balls.len();
        let mut i: usize = 0;
        proof {
            reveal(Seq::filter);
            assert(self.balls@.take(0) =~= Seq::<Ball>::empty());
        }
        while i < n
            invariant
                i <= n,
                n == self.balls@.len(),
                *self == *old(self),
                balls@ == surviving_balls(self.balls@.take(i as int)),
            decreases n - i,
        {
            let ball = self.balls[i];
            proof {
                reveal(Seq::filter);
                let upto = self.balls@.take(i + 1);
                assert(upto.drop_last() =~= self.balls@.take(i as int));
                assert(upto.last() == ball);
            }
            if !ball.is_dead() {
                balls.push(ball);
            }
            i += 1;
        }
        let mut enemies: Vec<Enemy> = Vec::new();
        let m: usize = self.enemies.len();
        let mut k: usize = 0;
        proof {
            assert(self.balls@.take(n as int) =~= self.balls@);
            assert(self.enemies@.take(0) =~= Seq::<Enemy>::empty());
        }
        while k < m
            invariant
                k <= m,
                m == self.enemies@.len(),
                *self == *old(self),
                balls@ == surviving_balls(self.balls@),
                enemies@ == surviving_bricks(self.enemies@.take(k as int)),
            decreases m - k,
        {
            let enemy = self.enemies[k];
            proof {
                reveal(Seq::filter);
                let upto = self.enemies@.take(k + 1);
                assert(upto.drop_last() =~= self.enemies@.take(k as int));
                assert(upto.last() == enemy);
            }
            if enemy.is_alive() {
                enemies.push(enemy);
            }
            k += 1;
        }
        proof {
            assert(self.enemies@.take(m as int) =~= self.enemies@);
        }
        self.balls = balls;
        self.enemies = enemies;
    }

    /// Lets every ball take its step, in order: see [`Ball::step`].
    pub fn step_balls(&mut self)
        requires
            old(self)@.wf(),
        ensures
            final(self)@ == old(self)@.swept(),
            final(self)@.wf(),
    {
        let ghost start = self@;
        proof {
            start.lemma_swept_wf();
        }
        let n: usize = self.balls.len();
        let mut j: usize = 0;
        proof {
            assert(start.balls.take(0) =~= Seq::<Ball>::empty());
            assert(self.balls@.take(0) =~= Seq::<Ball>::empty());
        }
        while j < n
            invariant
                j <= n,
                n == self.balls@.len(),
                n == start.balls.len(),
                start.wf(),
                self.field == start.field,
                self.paddle == start.paddle,
                self.metrics == start.metrics,
                (self.balls@.take(j as int), self.enemies@) == sweep(
                    start.balls.take(j as int),
                    start.enemies,
                    start.field,
                    start.paddle,
                ),
                forall|i: int| j <= i < n ==> self.balls@[i] == start.balls[i],
                forall|i: int| 0 <= i < self.enemies@.len() ==> (#[trigger] self.enemies@[i]).wf(),
            decreases n - j,
        {
            let mut ball = self.balls[j];
            let ghost done = self.balls@.take(j as int);
            proof {
                assert(ball == start.balls[j as int]);
            }
            ball.step(&mut self.enemies, self.field, self.paddle);
            self.balls.set(j, ball);
            proof {
                let upto = start.balls.take(j + 1);
                assert(upto.drop_last() =~= start.balls.take(j as int));
                assert(upto.last() == start.balls[j as int]);
                assert(self.balls@.take(j + 1) =~= done.push(ball));
            }
            j += 1;
        }
        proof {
            assert(start.balls.take(n as int) =~= start.balls);
            assert(self.balls@.take(n as int) =~= self.balls@);
        }
    }

    /// Sets every waiting ball in play: see [`Ball::launch`].
    pub fn launch_balls(&mut self)
        ensures
            final(self)@ == old(self)@.launched(),
    {
        let n: usize = self.balls.len();
        let mut k: usize = 0;
        while k < n
            invariant
                k <= n,
                n == self.balls@.len(),
                n == old(self).balls@.len(),
                self.field == old(self).field,
                self.paddle == old(self).paddle,
                self.metrics == old(self).metrics,
                self.enemies == old(self).enemies,
                forall|i: int| 0 <= i < k ==> self.balls@[i] == old(self).balls@[i].launched(),
                forall|i: int| k <= i < n ==> self.balls@[i] == old(self).balls@[i],
            decreases n - k,
        {
            let mut ball = self.balls[k];
            ball.launch();
            self.balls.set(k, ball);
            k += 1;
        }
        proof {
            assert(self.balls@ =~= launch_all(old(self).balls@));
        }
    }

    /// Advances the world by one step: see [`WorldState::tick`].
    pub fn tick(&mut self, input: InputIntent, sample: FrameSample)
        requires
            old(self)@.wf(),
        ensures
            final(self)@ == old(self)@.tick(input, sample),
            final(self)@.wf(),
    {
        proof {
            old(self)@.lemma_pruned_wf();
            old(self)@.lemma_tick_wf(input, sample);
        }
        self.prune();
        self.step_balls();
        self.paddle.steer(input.horizontal, self.field);
        if input.launch {
            self.launch_balls();
        }
        self.metrics.observe(sample);
    }
}

} // verus!
