//! What holds of every step of the world.
//!
//! The laws are stated over [`WorldState`], the value that [`World::tick`]
//! computes: `w.tick(input, sample)` is the state after one step from `w`, and
//! `w.pruned()` is `w` as the step finds it once dead balls and bricks without
//! health are gone. The balls of both have the same number and order.
//!
//! [`World::tick`]: crate::world::World::tick

use vstd::prelude::*;
use crate::ball::{lemma_signed_step, Ball};
use crate::enemy::Enemy;
use crate::field::Field;
use crate::geometry::Rect;
use crate::input::InputIntent;
use crate::metrics::FrameSample;
use crate::paddle::Paddle;
use crate::state::{
    lemma_kept_items_are_items,
    surviving_bricks,
    sweep,
    WorldState,
};

verus! {

/// The number of balls in play among `balls` whose outline touches `brick`.
pub open spec fn touches(balls: Seq<Ball>, brick: Rect) -> nat
    decreases balls.len(),
{
    if balls.len() == 0 {
        0
    } else {
        let last: nat = if balls.last().spec_in_play() && balls.last().spec_rect().spec_contact(
            brick,
        ).is_some() {
            1
        } else {
            0
        };
        touches(balls.drop_last(), brick) + last
    }
}

/// The brick after `hits` hits: it loses one health for each, down to zero.
pub open spec fn worn(brick: Enemy, hits: nat) -> Enemy {
    Enemy {
        health: if brick.health >= hits {
            (brick.health - hits) as u32
        } else {
            0
        },
        ..brick
    }
}

/// The steps of the balls keep the number of balls and of bricks.
pub proof fn lemma_sweep_len(balls: Seq<Ball>, bricks: Seq<Enemy>, field: Field, paddle: Paddle)
    ensures
        sweep(balls, bricks, field, paddle).0.len() == balls.len(),
        sweep(balls, bricks, field, paddle).1.len() == bricks.len(),
    decreases balls.len(),
{
    if balls.len() > 0 {
        lemma_sweep_len(balls.drop_last(), bricks, field, paddle);
    }
}

/// Each ball takes its own step, among the bricks as the balls before it have
/// left them.
pub proof fn lemma_sweep_ball(
    balls: Seq<Ball>,
    bricks: Seq<Enemy>,
    field: Field,
    paddle: Paddle,
    j: int,
)
    requires
        0 <= j < balls.len(),
    ensures
        sweep(balls, bricks, field, paddle).0.len() == balls.len(),
        sweep(balls, bricks, field, paddle).0[j] == balls[j].stepped(
            sweep(balls.take(j), bricks, field, paddle).1,
            field,
            paddle,
        ),
    decreases balls.len(),
{
    let init = balls.drop_last();
    lemma_sweep_len(init, bricks, field, paddle);
    if j == balls.len() - 1 {
        assert(balls.take(j) =~= init);
    } else {
        lemma_sweep_ball(init, bricks, field, paddle, j);
        assert(init.take(j) =~= balls.take(j));
    }
}

/// After the balls' steps each brick has lost one health for every ball in play
/// that touched it, down to zero, and is otherwise as it was.
pub proof fn lemma_sweep_bricks(
    balls: Seq<Ball>,
    bricks: Seq<Enemy>,
    field: Field,
    paddle: Paddle,
)
    ensures
        sweep(balls, bricks, field, paddle).1.len() == bricks.len(),
        forall|k: int|
            0 <= k < bricks.len() ==> (#[trigger] sweep(balls, bricks, field, paddle).1[k])
                == worn(bricks[k], touches(balls, bricks[k].spec_rect())),
    decreases balls.len(),
{
    if balls.len() > 0 {
        let init = balls.drop_last();
        lemma_sweep_bricks(init, bricks, field, paddle);
        let before = sweep(init, bricks, field, paddle).1;
        let after = sweep(balls, bricks, field, paddle).1;
        assert forall|k: int| 0 <= k < bricks.len() implies (#[trigger] after[k]) == worn(
            bricks[k],
            touches(balls, bricks[k].spec_rect()),
        ) by {
            assert(before[k] == worn(bricks[k], touches(init, bricks[k].spec_rect())));
        }
    }
}

/// No brick is left without health by a step in which every brick has more
/// health than there are balls in play touching it. (A brick that the balls of
/// one step bring to zero stays in the world, with health 0, until the next
/// step removes it.)
pub proof fn lemma_bricks_keep_health(w: WorldState, input: InputIntent, sample: FrameSample)
    requires
        forall|k: int|
            0 <= k < w.pruned().enemies.len() ==> touches(
                w.pruned().balls,
                (#[trigger] w.pruned().enemies[k]).spec_rect(),
            ) < w.pruned().enemies[k].health,
    ensures
        w.tick(input, sample).enemies.len() == w.pruned().enemies.len(),
        forall|k: int|
            0 <= k < w.tick(input, sample).enemies.len() ==> (#[trigger] w.tick(
                input,
                sample,
            ).enemies[k]).health >= 1,
{
    let start = w.pruned();
    lemma_sweep_bricks(start.balls, start.enemies, w.field, w.paddle);
    let after = w.tick(input, sample);
    assert forall|k: int| 0 <= k < after.enemies.len() implies (#[trigger] after.enemies[k]).health
        >= 1 by {
        assert(touches(start.balls, start.enemies[k].spec_rect()) < start.enemies[k].health);
    }
}

/// The health of every brick after a step: what it had, less one for every ball
/// in play that touched it at the start of the step, down to zero. Its place
/// does not change.
pub proof fn lemma_brick_health(w: WorldState, input: InputIntent, sample: FrameSample, k: int)
    requires
        0 <= k < w.pruned().enemies.len(),
    ensures
        w.tick(input, sample).enemies.len() == w.pruned().enemies.len(),
        w.tick(input, sample).enemies[k] == worn(
            w.pruned().enemies[k],
            touches(w.pruned().balls, w.pruned().enemies[k].spec_rect()),
        ),
        w.pruned().enemies[k].health >= 1,
{
    let start = w.pruned();
    lemma_sweep_bricks(start.balls, start.enemies, w.field, w.paddle);
    lemma_kept_items_are_items(w.enemies, |e: Enemy| e.spec_is_alive());
}

/// The ball with index `j` after a step is the ball with index `j` of the pruned
/// state, stepped among the bricks as the balls before it have left them, and
/// launched if the player asked for it.
pub proof fn lemma_ball_after_tick(w: WorldState, input: InputIntent, sample: FrameSample, j: int)
    requires
        0 <= j < w.pruned().balls.len(),
    ensures
        w.tick(input, sample).balls.len() == w.pruned().balls.len(),
        !w.pruned().balls[j].spec_is_dead(),
        ({
            let start = w.pruned();
            let bricks = sweep(start.balls.take(j), start.enemies, w.field, w.paddle).1;
            let stepped = start.balls[j].stepped(bricks, w.field, w.paddle);
            w.tick(input, sample).balls[j] == if input.launch {
                stepped.launched()
            } else {
                stepped
            }
        }),
{
    let start = w.pruned();
    lemma_sweep_ball(start.balls, start.enemies, w.field, w.paddle, j);
    lemma_kept_items_are_items(w.balls, |b: Ball| !b.spec_is_dead());
}

/// No ball is dead after a step in which no ball in play has its bottom edge
/// below the floor. (A ball that passes the floor stays in the world, dead, until
/// the next step removes it.)
pub proof fn lemma_balls_stay_alive(w: WorldState, input: InputIntent, sample: FrameSample)
    requires
        forall|j: int|
            0 <= j < w.pruned().balls.len() && (#[trigger] w.pruned().balls[j]).spec_in_play()
                ==> !w.pruned().balls[j].spec_reached_bottom(w.field),
    ensures
        forall|j: int|
            0 <= j < w.tick(input, sample).balls.len() ==> !(#[trigger] w.tick(
                input,
                sample,
            ).balls[j]).spec_is_dead(),
{
    let start = w.pruned();
    let after = w.tick(input, sample);
    assert forall|j: int| 0 <= j < after.balls.len() implies !(#[trigger] after.balls[j])
        .spec_is_dead() by {
        lemma_sweep_len(start.balls, start.enemies, w.field, w.paddle);
        lemma_ball_after_tick(w, input, sample, j);
        let ball = start.balls[j];
        let bricks = sweep(start.balls.take(j), start.enemies, w.field, w.paddle).1;
        ball.lemma_bricks_only_turn(bricks);
    }
}

/// A ball is dead after a step exactly if it was in play with its bottom edge
/// below the floor when the step began.
pub proof fn lemma_ball_dies_below_floor(
    w: WorldState,
    input: InputIntent,
    sample: FrameSample,
    j: int,
)
    requires
        0 <= j < w.pruned().balls.len(),
    ensures
        w.tick(input, sample).balls[j].spec_is_dead() <==> w.pruned().balls[j].spec_in_play()
            && w.pruned().balls[j].spec_reached_bottom(w.field),
{
    let start = w.pruned();
    lemma_ball_after_tick(w, input, sample, j);
    let bricks = sweep(start.balls.take(j), start.enemies, w.field, w.paddle).1;
    start.balls[j].lemma_bricks_only_turn(bricks);
}

/// After every step the paddle lies between the side walls.
pub proof fn lemma_paddle_stays_inside(w: WorldState, input: InputIntent, sample: FrameSample)
    requires
        w.wf(),
    ensures
        0 <= w.tick(input, sample).paddle.x <= w.field.width - w.tick(input, sample).paddle.width,
        w.tick(input, sample).paddle == w.paddle.steered(input.horizontal, w.field),
        w.tick(input, sample).paddle.y == w.paddle.y,
        w.tick(input, sample).field == w.field,
{
    w.lemma_tick_wf(input, sample);
}

/// After every step each waiting ball is in the row above the paddle, centred
/// over the place that the paddle had when the step began.
pub proof fn lemma_waiting_balls_follow_paddle(
    w: WorldState,
    input: InputIntent,
    sample: FrameSample,
    j: int,
)
    requires
        w.wf(),
        0 <= j < w.tick(input, sample).balls.len(),
        w.tick(input, sample).balls[j].spec_is_attached(),
    ensures
        w.tick(input, sample).balls[j].rests_on(w.paddle),
{
    w.lemma_pruned_wf();
    let start = w.pruned();
    lemma_sweep_len(start.balls, start.enemies, w.field, w.paddle);
    lemma_ball_after_tick(w, input, sample, j);
    let bricks = sweep(start.balls.take(j), start.enemies, w.field, w.paddle).1;
    let ball = start.balls[j];
    assert(ball.wf() && ball.within(w.field, w.paddle));
    ball.lemma_bricks_only_turn(bricks);
}

/// After a step each waiting ball rests on the paddle: centred over it, in the
/// row above it. Left out are the steps in which the paddle moves while a ball
/// keeps waiting: the balls take their steps before the paddle moves, so such a
/// ball is centred over the place that the paddle left.
pub proof fn lemma_waiting_balls_rest_on_paddle(
    w: WorldState,
    input: InputIntent,
    sample: FrameSample,
)
    requires
        w.wf(),
        w.paddle.steered(input.horizontal, w.field) == w.paddle || input.launch || forall|j: int|
            0 <= j < w.pruned().balls.len() ==> !(#[trigger] w.pruned().balls[j])
                .spec_is_attached(),
    ensures
        forall|j: int|
            0 <= j < w.tick(input, sample).balls.len() && (#[trigger] w.tick(
                input,
                sample,
            ).balls[j]).spec_is_attached() ==> w.tick(input, sample).balls[j].rests_on(
                w.tick(input, sample).paddle,
            ),
{
    let start = w.pruned();
    let after = w.tick(input, sample);
    lemma_sweep_len(start.balls, start.enemies, w.field, w.paddle);
    assert forall|j: int|
        0 <= j < after.balls.len() && (#[trigger] after.balls[j]).spec_is_attached()
        implies after.balls[j].rests_on(after.paddle) by {
        lemma_waiting_balls_follow_paddle(w, input, sample, j);
        lemma_ball_after_tick(w, input, sample, j);
        let bricks = sweep(start.balls.take(j), start.enemies, w.field, w.paddle).1;
        start.balls[j].lemma_bricks_only_turn(bricks);
        assert(start.balls[j].spec_is_attached());
    }
}

/// Over one step a ball in play moves by exactly its speed times the direction
/// that it has after the step, and each component of that direction is -1, 0 or
/// +1. Its size and speed do not change.
pub proof fn lemma_ball_moves_one_step(
    w: WorldState,
    input: InputIntent,
    sample: FrameSample,
    j: int,
)
    requires
        w.wf(),
        0 <= j < w.pruned().balls.len(),
        w.pruned().balls[j].spec_in_play(),
    ensures
        ({
            let before = w.pruned().balls[j];
            let after = w.tick(input, sample).balls[j];
            &&& after.x == before.x + before.speed * after.dx
            &&& after.y == before.y + before.speed * after.dy
            &&& -1 <= after.dx <= 1
            &&& -1 <= after.dy <= 1
            &&& after.speed == before.speed
            &&& after.w == before.w
            &&& after.h == before.h
        }),
{
    w.lemma_pruned_wf();
    let start = w.pruned();
    lemma_ball_after_tick(w, input, sample, j);
    let bricks = sweep(start.balls.take(j), start.enemies, w.field, w.paddle).1;
    let ball = start.balls[j];
    assert(ball.wf() && ball.within(w.field, w.paddle));
    ball.lemma_bricks_only_turn(bricks);
    ball.lemma_step_stays_within(bricks, w.field, w.paddle);
    let turned = ball.after_bricks(bricks).after_bounce(w.field, w.paddle);
    lemma_signed_step(turned.speed as int, turned.dx as int);
    lemma_signed_step(turned.speed as int, turned.dy as int);
}

/// After every step each ball in play is near the field: at most one step above
/// the ceiling, its top edge at most one step below the floor, and its outline
/// within two steps of the field's horizontal span.
pub proof fn lemma_balls_stay_near(w: WorldState, input: InputIntent, sample: FrameSample, j: int)
    requires
        w.wf(),
        0 <= j < w.tick(input, sample).balls.len(),
        w.tick(input, sample).balls[j].spec_in_play(),
    ensures
        ({
            let ball = w.tick(input, sample).balls[j];
            &&& -ball.speed <= ball.y <= w.field.height + ball.speed
            &&& -2 * ball.speed <= ball.x + ball.w
            &&& ball.x <= w.field.width + 2 * ball.speed
        }),
{
    w.lemma_tick_wf(input, sample);
    let after = w.tick(input, sample);
    assert(after.balls[j].wf() && after.balls[j].within(after.field, after.paddle));
}

/// A step creates nothing: it keeps the balls that were not dead and the bricks
/// that had health when it began, in their order, and adds none.
pub proof fn lemma_step_creates_nothing(w: WorldState, input: InputIntent, sample: FrameSample)
    ensures
        w.tick(input, sample).balls.len() == w.pruned().balls.len() <= w.balls.len(),
        w.tick(input, sample).enemies.len() == w.pruned().enemies.len() <= w.enemies.len(),
{
    let start = w.pruned();
    lemma_sweep_len(start.balls, start.enemies, w.field, w.paddle);
    w.balls.lemma_filter_len(|b: Ball| !b.spec_is_dead());
    w.enemies.lemma_filter_len(|e: Enemy| e.spec_is_alive());
}

/// Keeping the living of what was already kept changes nothing.
pub proof fn lemma_filter_twice<A>(items: Seq<A>, keep: spec_fn(A) -> bool)
    ensures
        items.filter(keep).filter(keep) == items.filter(keep),
    decreases items.len(),
{
    reveal(Seq::filter);
    if items.len() > 0 {
        let init = items.drop_last();
        lemma_filter_twice(init, keep);
        if keep(items.last()) {
            let kept = init.filter(keep).push(items.last());
            assert(kept.drop_last() =~= init.filter(keep));
            assert(kept.last() == items.last());
        }
    }
}

/// A filter keeps a sequence whose items all pass.
pub proof fn lemma_filter_all<A>(items: Seq<A>, keep: spec_fn(A) -> bool)
    requires
        forall|i: int| 0 <= i < items.len() ==> keep(#[trigger] items[i]),
    ensures
        items.filter(keep) == items,
    decreases items.len(),
{
    reveal(Seq::filter);
    if items.len() > 0 {
        let init = items.drop_last();
        lemma_filter_all(init, keep);
        assert(init.push(items.last()) =~= items);
    }
}

/// Where no ball is in play, the balls' steps leave the bricks as they are, and
/// centre each waiting ball over the paddle.
pub proof fn lemma_sweep_without_play(
    balls: Seq<Ball>,
    bricks: Seq<Enemy>,
    field: Field,
    paddle: Paddle,
)
    requires
        forall|j: int| 0 <= j < balls.len() ==> (#[trigger] balls[j]).spec_is_attached(),
    ensures
        sweep(balls, bricks, field, paddle).1 == bricks,
        sweep(balls, bricks, field, paddle).0 == balls.map_values(|b: Ball| b.seated(paddle)),
    decreases balls.len(),
{
    if balls.len() > 0 {
        let init = balls.drop_last();
        lemma_sweep_without_play(init, bricks, field, paddle);
        assert(balls.last() == balls[balls.len() - 1]);
        assert(sweep(balls, bricks, field, paddle).0 =~= balls.map_values(
            |b: Ball| b.seated(paddle),
        ));
    } else {
        assert(sweep(balls, bricks, field, paddle).0 =~= balls.map_values(
            |b: Ball| b.seated(paddle),
        ));
    }
}

/// A step without input, in a world where every ball waits on the paddle,
/// leaves the paddle where it is and removes the bricks without health; a
/// second such step changes nothing more of the paddle, the bricks and the
/// balls.
pub proof fn lemma_idle_step_settles(w: WorldState, first: FrameSample, second: FrameSample)
    requires
        forall|j: int| 0 <= j < w.balls.len() ==> (#[trigger] w.balls[j]).spec_is_attached(),
    ensures
        w.tick(InputIntent::spec_idle(), first).paddle == w.paddle,
        w.tick(InputIntent::spec_idle(), first).enemies == surviving_bricks(w.enemies),
        w.tick(InputIntent::spec_idle(), first).tick(InputIntent::spec_idle(), second).paddle
            == w.tick(InputIntent::spec_idle(), first).paddle,
        w.tick(InputIntent::spec_idle(), first).tick(InputIntent::spec_idle(), second).enemies
            == w.tick(InputIntent::spec_idle(), first).enemies,
        w.tick(InputIntent::spec_idle(), first).tick(InputIntent::spec_idle(), second).balls
            == w.tick(InputIntent::spec_idle(), first).balls,
{
    let idle = InputIntent::spec_idle();
    let alive = |b: Ball| !b.spec_is_dead();
    let healthy = |e: Enemy| e.spec_is_alive();
    lemma_filter_all(w.balls, alive);
    lemma_sweep_without_play(w.balls, surviving_bricks(w.enemies), w.field, w.paddle);
    let once = w.tick(idle, first);
    let seat = |b: Ball| b.seated(w.paddle);
    assert(once.balls == w.balls.map_values(seat));
    assert forall|j: int| 0 <= j < once.balls.len() implies (#[trigger] once.balls[j])
        .spec_is_attached() && alive(once.balls[j]) by {
        assert(w.balls[j].spec_is_attached());
    }
    lemma_filter_all(once.balls, alive);
    lemma_filter_twice(w.enemies, healthy);
    lemma_sweep_without_play(once.balls, once.enemies, w.field, w.paddle);
    let twice = once.tick(idle, second);
    assert(twice.balls =~= once.balls);
}

} // verus!
