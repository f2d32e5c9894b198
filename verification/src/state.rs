//! The state of the world as a mathematical value, and the step as a function on it.

use vstd::prelude::*;
use crate::ball::{Ball, Phase, BALL_SPEED};
use crate::enemy::Enemy;
use crate::field::Field;
use crate::input::InputIntent;
use crate::metrics::{FrameMetrics, FrameSample};
use crate::paddle::{Paddle, ATTACH_GAP, PADDLE_HEIGHT, PADDLE_RISE, PADDLE_SPEED, PADDLE_WIDTH};

verus! {

/// Width and height of the standard field (800 pixels).
pub const FIELD_SIZE: i64 = 1600;

/// Number of rows of bricks in the standard layout.
pub const GRID_ROWS: usize = 4;

/// Number of bricks in each row of the standard layout.
pub const GRID_COLS: usize = 14;

/// Horizontal distance between the left edges of two neighbouring bricks of the
/// standard layout, and between the left wall and the first brick (50 pixels).
pub const GRID_STEP_X: i64 = 100;

/// Vertical distance between the top edges of two rows of the standard layout,
/// and between the ceiling and the first row (20 pixels).
pub const GRID_STEP_Y: i64 = 40;

/// The mathematical value of a [`World`](crate::world::World): its balls and bricks as sequences.
pub struct WorldState {
    pub field: Field,
    pub paddle: Paddle,
    pub balls: Seq<Ball>,
    pub enemies: Seq<Enemy>,
    pub metrics: FrameMetrics,
}

/// The paddle of the standard size, centred in `field` with its top edge
/// [`PADDLE_RISE`] above the floor.
pub open spec fn standard_paddle(field: Field) -> Paddle {
    Paddle {
        x: (field.width / 2 - PADDLE_WIDTH / 2) as i64,
        y: (field.height - PADDLE_RISE) as i64,
        width: PADDLE_WIDTH,
        height: PADDLE_HEIGHT,
        speed: PADDLE_SPEED,
    }
}

/// The brick in row `row` and column `col` of the standard layout, both counted
/// from 0: it has one health.
pub open spec fn grid_brick(row: int, col: int) -> Enemy {
    Enemy { health: 1, x: (GRID_STEP_X * (col + 1)) as i64, y: (GRID_STEP_Y * (row + 1)) as i64 }
}

/// The bricks of the standard layout, row by row.
pub open spec fn standard_grid() -> Seq<Enemy> {
    Seq::new(
        (GRID_ROWS * GRID_COLS) as nat,
        |k: int| grid_brick(k / (GRID_COLS as int), k % (GRID_COLS as int)),
    )
}

/// The state in which the standard layout starts, with one waiting ball `w`
/// wide and `h` high centred over the paddle.
pub open spec fn standard_state(w: i64, h: i64) -> WorldState {
    let field = Field { width: FIELD_SIZE, height: FIELD_SIZE };
    let paddle = standard_paddle(field);
    WorldState {
        field,
        paddle,
        balls: seq![
            Ball {
                x: (paddle.x + paddle.width / 2 - w / 2) as i64,
                y: (paddle.y - ATTACH_GAP) as i64,
                w,
                h,
                speed: BALL_SPEED,
                dx: 0,
                dy: 1,
                phase: Phase::Attached,
            },
        ],
        enemies: standard_grid(),
        metrics: FrameMetrics { shown_fps: 0 },
    }
}

/// The balls that are not dead, in their order.
pub open spec fn surviving_balls(balls: Seq<Ball>) -> Seq<Ball> {
    balls.filter(|b: Ball| !b.spec_is_dead())
}

/// The bricks that have health left, in their order.
pub open spec fn surviving_bricks(bricks: Seq<Enemy>) -> Seq<Enemy> {
    bricks.filter(|e: Enemy| e.spec_is_alive())
}

/// The balls and the bricks after each of `balls` has taken its step, one after
/// the other in their order: a ball meets the bricks as the balls before it
/// have left them.
pub open spec fn sweep(balls: Seq<Ball>, bricks: Seq<Enemy>, field: Field, paddle: Paddle) -> (
    Seq<Ball>,
    Seq<Enemy>,
)
    decreases balls.len(),
{
    if balls.len() == 0 {
        (balls, bricks)
    } else {
        let before = sweep(balls.drop_last(), bricks, field, paddle);
        let ball = balls.last();
        (before.0.push(ball.stepped(before.1, field, paddle)), ball.strikes(before.1))
    }
}

/// Every waiting ball among `balls` set in play.
pub open spec fn launch_all(balls: Seq<Ball>) -> Seq<Ball> {
    balls.map_values(|b: Ball| b.launched())
}

impl WorldState {
    /// The state is one that the simulation can hold: the field is representable,
    /// the paddle lies inside it, and every ball and brick is representable and
    /// placed as [`Ball::within`] says.
    pub open spec fn wf(self) -> bool {
        &&& self.field.wf()
        &&& self.paddle.fits(self.field)
        &&& forall|i: int|
            0 <= i < self.balls.len() ==> (#[trigger] self.balls[i]).wf() && self.balls[i].within(
                self.field,
                self.paddle,
            )
        &&& forall|i: int| 0 <= i < self.enemies.len() ==> (#[trigger] self.enemies[i]).wf()
    }

    /// No ball is dead and every brick has health left.
    pub open spec fn all_alive(self) -> bool {
        &&& forall|i: int| 0 <= i < self.balls.len() ==> !(#[trigger] self.balls[i]).spec_is_dead()
        &&& forall|i: int|
            0 <= i < self.enemies.len() ==> (#[trigger] self.enemies[i]).spec_is_alive()
    }

    /// The state without its dead balls and its bricks without health.
    pub open spec fn pruned(self) -> WorldState {
        WorldState {
            balls: surviving_balls(self.balls),
            enemies: surviving_bricks(self.enemies),
            ..self
        }
    }

    /// The state after every ball has taken its step, in order: see [`sweep`].
    pub open spec fn swept(self) -> WorldState {
        let after = sweep(self.balls, self.enemies, self.field, self.paddle);
        WorldState { balls: after.0, enemies: after.1, ..self }
    }

    /// The state with its paddle moved as `input` asks.
    pub open spec fn steered(self, input: InputIntent) -> WorldState {
        WorldState { paddle: self.paddle.steered(input.horizontal, self.field), ..self }
    }

    /// The state with every waiting ball set in play.
    pub open spec fn launched(self) -> WorldState {
        WorldState { balls: launch_all(self.balls), ..self }
    }

    /// The state after one step. Dead balls and bricks without health are
    /// removed first. Then every ball takes its step, in order. Then the paddle
    /// moves as `input` asks, and if `input` asks for a launch every waiting ball
    /// is set in play. Last, the frame-rate indicator takes note of `sample`.
    pub open spec fn tick(self, input: InputIntent, sample: FrameSample) -> WorldState {
        let moved = self.pruned().swept().steered(input);
        let played = if input.launch {
            moved.launched()
        } else {
            moved
        };
        WorldState { metrics: self.metrics.observed(sample), ..played }
    }

    /// Pruning keeps a state that the simulation can hold, and leaves no dead
    /// ball and no brick without health.
    pub proof fn lemma_pruned_wf(self)
        requires
            self.wf(),
        ensures
            self.pruned().wf(),
            self.pruned().all_alive(),
    {
        lemma_kept_items_are_items(self.balls, |b: Ball| !b.spec_is_dead());
        lemma_kept_items_are_items(self.enemies, |e: Enemy| e.spec_is_alive());
    }
}

/// Every item that a filter keeps is an item of the sequence it was given.
pub proof fn lemma_kept_items_are_items<A>(items: Seq<A>, keep: spec_fn(A) -> bool)
    ensures
        forall|i: int|
            0 <= i < items.filter(keep).len() ==> items.contains(#[trigger] items.filter(keep)[i])
                && keep(items.filter(keep)[i]),
    decreases items.len(),
{
    reveal(Seq::filter);
    if items.len() > 0 {
        let init = items.drop_last();
        lemma_kept_items_are_items(init, keep);
        assert forall|i: int| 0 <= i < items.filter(keep).len() implies items.contains(
            #[trigger] items.filter(keep)[i],
        ) && keep(items.filter(keep)[i]) by {
            if i < init.filter(keep).len() {
                let x = init.filter(keep)[i];
                assert(init.contains(x));
                let j = choose|j: int| 0 <= j < init.len() && init[j] == x;
                assert(items[j] == x);
            } else {
                assert(items.filter(keep)[i] == items.last());
                assert(items[items.len() - 1] == items.last());
            }
        }
    }
}

/// The steps of the balls keep the number of balls and of bricks, and leave
/// every ball and brick where the simulation can hold it.
pub proof fn lemma_sweep_wf(balls: Seq<Ball>, bricks: Seq<Enemy>, field: Field, paddle: Paddle)
    requires
        field.wf(),
        paddle.fits(field),
        forall|i: int|
            0 <= i < balls.len() ==> (#[trigger] balls[i]).wf() && balls[i].within(field, paddle),
        forall|i: int| 0 <= i < bricks.len() ==> (#[trigger] bricks[i]).wf(),
    ensures
        ({
            let after = sweep(balls, bricks, field, paddle);
            &&& after.0.len() == balls.len()
            &&& after.1.len() == bricks.len()
            &&& forall|i: int|
                0 <= i < balls.len() ==> (#[trigger] after.0[i]).wf() && after.0[i].within(
                    field,
                    paddle,
                )
            &&& forall|i: int| 0 <= i < bricks.len() ==> (#[trigger] after.1[i]).wf()
        }),
    decreases balls.len(),
{
    if balls.len() > 0 {
        let init = balls.drop_last();
        lemma_sweep_wf(init, bricks, field, paddle);
        let before = sweep(init, bricks, field, paddle);
        balls.last().lemma_step_stays_within(before.1, field, paddle);
    }
}

impl WorldState {
    /// The steps of the balls leave the world in a state that the simulation can hold.
    pub proof fn lemma_swept_wf(self)
        requires
            self.wf(),
        ensures
            self.swept().wf(),
    {
        lemma_sweep_wf(self.balls, self.enemies, self.field, self.paddle);
    }

    /// A move of the paddle leaves the world in a state that the simulation can hold.
    pub proof fn lemma_steered_wf(self, input: InputIntent)
        requires
            self.wf(),
        ensures
            self.steered(input).wf(),
    {
        let after = self.steered(input);
        assert forall|i: int| 0 <= i < after.balls.len() implies (#[trigger] after.balls[i]).wf()
            && after.balls[i].within(after.field, after.paddle) by {
            assert(self.balls[i].wf() && self.balls[i].within(self.field, self.paddle));
        }
    }

    /// A launch leaves the world in a state that the simulation can hold.
    pub proof fn lemma_launched_wf(self)
        requires
            self.wf(),
        ensures
            self.launched().wf(),
    {
        let after = self.launched();
        assert forall|i: int| 0 <= i < after.balls.len() implies (#[trigger] after.balls[i]).wf()
            && after.balls[i].within(after.field, after.paddle) by {
            assert(self.balls[i].wf() && self.balls[i].within(self.field, self.paddle));
        }
    }

    /// One step leaves the world in a state that the simulation can hold.
    pub proof fn lemma_tick_wf(self, input: InputIntent, sample: FrameSample)
        requires
            self.wf(),
        ensures
            self.tick(input, sample).wf(),
    {
        self.lemma_pruned_wf();
        self.pruned().lemma_swept_wf();
        self.pruned().swept().lemma_steered_wf(input);
        let moved = self.pruned().swept().steered(input);
        moved.lemma_launched_wf();
        let played = if input.launch {
            moved.launched()
        } else {
            moved
        };
        let after = self.tick(input, sample);
        assert forall|i: int| 0 <= i < after.balls.len() implies (#[trigger] after.balls[i]).wf()
            && after.balls[i].within(after.field, after.paddle) by {
            assert(played.balls[i].wf() && played.balls[i].within(played.field, played.paddle));
        }
    }
}

} // verus!
