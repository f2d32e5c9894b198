//! Balls: their life cycle, what they meet, and how one step moves them.

use vstd::prelude::*;
use crate::enemy::Enemy;
use crate::field::Field;
use crate::geometry::{Rect, Side, MAX_COORD, MAX_EXTENT};
use crate::paddle::{Paddle, ATTACH_GAP};

verus! {

/// Distance that a standard ball moves along each axis in one step (2.5 pixels).
pub const BALL_SPEED: i64 = 5;

/// Where a ball is in its life.
#[derive(Clone, Copy, Debug, PartialEq, Eq, Structural)]
pub enum Phase {
    /// The ball waits on the paddle and follows it.
    Attached,
    /// The ball moves and collides.
    InPlay,
    /// The ball has passed the floor and is removed at the start of the next step.
    Dead,
}

/// What a ball in play meets at the edge of the field.
#[derive(Clone, Copy, Debug, PartialEq, Eq, Structural)]
pub enum Bounce {
    Floor,
    Ceiling,
    LeftWall,
    RightWall,
    Paddle,
}

/// A ball: top-left corner, size, the distance it moves along each axis in one
/// step, and the direction of that movement, one of -1, 0 and +1 per axis.
#[derive(Clone, Copy, Debug, PartialEq, Eq, Structural)]
pub struct Ball {
    pub x: i64,
    pub y: i64,
    pub w: i64,
    pub h: i64,
    pub speed: i64,
    pub dx: i8,
    pub dy: i8,
    pub phase: Phase,
}

/// The bricks after a ball with outline `ball` has passed over all of them.
pub open spec fn struck_all(bricks: Seq<Enemy>, ball: Rect) -> Seq<Enemy> {
    bricks.map_values(|e: Enemy| e.struck_by(ball))
}

impl Ball {
    /// The ball is representable: its corner is within [`MAX_COORD`] of the
    /// origin, its sides are between 1 and [`MAX_EXTENT`], its speed between 0 and
    /// [`MAX_EXTENT`], and each component of its direction is -1, 0 or +1. A
    /// waiting ball points down, `(0, 1)`.
    pub open spec fn wf(self) -> bool {
        &&& -MAX_COORD <= self.x <= MAX_COORD
        &&& -MAX_COORD <= self.y <= MAX_COORD
        &&& 1 <= self.w <= MAX_EXTENT
        &&& 1 <= self.h <= MAX_EXTENT
        &&& 0 <= self.speed <= MAX_EXTENT
        &&& -1 <= self.dx <= 1
        &&& -1 <= self.dy <= 1
        &&& self.phase == Phase::Attached ==> self.dx == 0 && self.dy == 1
    }

    pub open spec fn spec_rect(self) -> Rect {
        Rect { x: self.x, y: self.y, w: self.w, h: self.h }
    }

    pub open spec fn spec_is_attached(self) -> bool {
        self.phase == Phase::Attached
    }

    pub open spec fn spec_in_play(self) -> bool {
        self.phase == Phase::InPlay
    }

    pub open spec fn spec_is_dead(self) -> bool {
        self.phase == Phase::Dead
    }

    /// The ball's bottom edge is below the floor.
    pub open spec fn spec_reached_bottom(self, field: Field) -> bool {
        self.y + self.h > field.height
    }

    /// The ball's top edge is at or above the ceiling.
    pub open spec fn spec_reached_top(self) -> bool {
        self.y <= 0
    }

    /// The ball's left edge is at or beyond the wall at `x = 0`.
    pub open spec fn spec_hit_left_wall(self) -> bool {
        self.x <= 0
    }

    /// The ball's right edge is at or beyond the wall at `x = field.width`.
    pub open spec fn spec_hit_right_wall(self, field: Field) -> bool {
        self.x + self.w >= field.width
    }

    /// The ball's bottom edge is strictly between the paddle's top and bottom
    /// edges, and its left or its right edge is strictly inside the paddle's
    /// horizontal span.
    pub open spec fn spec_hit_paddle(self, paddle: Paddle) -> bool {
        &&& paddle.y < self.y + self.h < paddle.y + paddle.height
        &&& (paddle.x < self.x + self.w < paddle.x + paddle.width || paddle.x < self.x < paddle.x
            + paddle.width)
    }

    /// -1 where the ball's horizontal midpoint is left of the paddle's, else +1.
    pub open spec fn spec_paddle_side(self, paddle: Paddle) -> i8 {
        self.spec_rect().spec_side_of_center(paddle.spec_rect())
    }

    /// What the ball meets at the edge of the field. Where several tests hold,
    /// the first in the order floor, ceiling, left wall, right wall, paddle counts.
    pub open spec fn spec_bounce(self, field: Field, paddle: Paddle) -> Option<Bounce> {
        if self.spec_reached_bottom(field) {
            Some(Bounce::Floor)
        } else if self.spec_reached_top() {
            Some(Bounce::Ceiling)
        } else if self.spec_hit_left_wall() {
            Some(Bounce::LeftWall)
        } else if self.spec_hit_right_wall(field) {
            Some(Bounce::RightWall)
        } else if self.spec_hit_paddle(paddle) {
            Some(Bounce::Paddle)
        } else {
            None
        }
    }

    /// The ball with the direction it has after touching a brick on `side`: away
    /// from the brick along the axis of the contact.
    pub open spec fn turned(self, side: Option<Side>) -> Ball {
        match side {
            Some(Side::Below) => Ball { dy: 1, ..self },
            Some(Side::Above) => Ball { dy: -1i8, ..self },
            Some(Side::Left) => Ball { dx: -1i8, ..self },
            Some(Side::Right) => Ball { dx: 1, ..self },
            None => self,
        }
    }

    /// The ball after it has been tested against each of `bricks` in order. Every
    /// brick that it touches turns it; the ball does not move meanwhile.
    pub open spec fn after_bricks(self, bricks: Seq<Enemy>) -> Ball
        decreases bricks.len(),
    {
        if bricks.len() == 0 {
            self
        } else {
            self.after_bricks(bricks.drop_last()).turned(
                bricks.last().spec_touched_by(self.spec_rect()),
            )
        }
    }

    /// The ball after it has answered to what it meets at the edge of the field:
    /// past the floor it dies, otherwise it turns back towards the inside; off the
    /// paddle it goes up and to the side of the paddle that it hit.
    pub open spec fn after_bounce(self, field: Field, paddle: Paddle) -> Ball {
        match self.spec_bounce(field, paddle) {
            Some(Bounce::Floor) => Ball { phase: Phase::Dead, ..self },
            Some(Bounce::Ceiling) => Ball { dy: 1, ..self },
            Some(Bounce::LeftWall) => Ball { dx: 1, ..self },
            Some(Bounce::RightWall) => Ball { dx: -1i8, ..self },
            Some(Bounce::Paddle) => Ball { dx: self.spec_paddle_side(paddle), dy: -1i8, ..self },
            None => self,
        }
    }

    /// The ball moved by its speed along its direction.
    pub open spec fn advanced(self) -> Ball {
        Ball {
            x: (self.x + self.speed * self.dx) as i64,
            y: (self.y + self.speed * self.dy) as i64,
            ..self
        }
    }

    /// The ball centred over the paddle, in its own row. Each half width is
    /// rounded down to a whole unit, so the ball is centred exactly where both
    /// widths are whole pixels.
    pub open spec fn seated(self, paddle: Paddle) -> Ball {
        Ball { x: (paddle.x + paddle.width / 2 - self.w / 2) as i64, ..self }
    }

    /// The ball rests on the paddle: centred over it, [`ATTACH_GAP`] above its top edge.
    pub open spec fn rests_on(self, paddle: Paddle) -> bool {
        &&& self.x == paddle.x + paddle.width / 2 - self.w / 2
        &&& self.y == paddle.y - ATTACH_GAP
    }

    /// A waiting ball set in play, straight up; any other ball unchanged.
    pub open spec fn launched(self) -> Ball {
        if self.phase == Phase::Attached {
            Ball { dx: 0, dy: -1i8, phase: Phase::InPlay, ..self }
        } else {
            self
        }
    }

    /// The ball after one step among `bricks`. A waiting ball is centred over the
    /// paddle. A ball in play is turned by the bricks it touches, then by what it
    /// meets at the edge of the field, and then moves.
    pub open spec fn stepped(self, bricks: Seq<Enemy>, field: Field, paddle: Paddle) -> Ball {
        match self.phase {
            Phase::Attached => self.seated(paddle),
            Phase::InPlay => self.after_bricks(bricks).after_bounce(field, paddle).advanced(),
            Phase::Dead => self,
        }
    }

    /// The bricks after this ball's step: a ball in play takes one health from
    /// each living brick that it touches.
    pub open spec fn strikes(self, bricks: Seq<Enemy>) -> Seq<Enemy> {
        if self.phase == Phase::InPlay {
            struck_all(bricks, self.spec_rect())
        } else {
            bricks
        }
    }

    /// How far beyond a side wall a ball in play may be. Walls turn a ball
    /// without moving it back, so it may be one step outside; it is two steps
    /// outside after it has met the ceiling and a side wall in the same step.
    pub open spec fn side_slack(self) -> int {
        if self.y > 0 {
            2 * self.speed
        } else if self.y > -self.speed {
            self.speed as int
        } else {
            0
        }
    }

    /// The ball is where the simulation can hold it. A waiting ball is in the
    /// row [`ATTACH_GAP`] above the paddle and touches the field's horizontal
    /// span. A ball in play is at most one step above the ceiling, its top edge
    /// at most one step below the floor, and it touches the field's horizontal
    /// span widened by [`Ball::side_slack`]. A dead ball has made one step more.
    pub open spec fn within(self, field: Field, paddle: Paddle) -> bool {
        match self.phase {
            Phase::Attached => {
                &&& self.y == paddle.y - ATTACH_GAP
                &&& -self.w <= self.x <= field.width
            },
            Phase::InPlay => {
                &&& -self.speed <= self.y <= field.height + self.speed
                &&& -self.w - self.side_slack() <= self.x <= field.width + self.side_slack()
            },
            Phase::Dead => {
                &&& -2 * self.speed <= self.y <= field.height + 2 * self.speed
                &&& -self.w - 3 * self.speed <= self.x <= field.width + 3 * self.speed
            },
        }
    }

    /// A waiting ball of the standard speed, `w` wide and `h` high, with its
    /// top-left corner at `(x, y)`.
    pub fn new(x: i64, y: i64, w: i64, h: i64) -> (ball: Ball)
        requires
            -MAX_COORD <= x <= MAX_COORD,
            -MAX_COORD <= y <= MAX_COORD,
            1 <= w <= MAX_EXTENT,
            1 <= h <= MAX_EXTENT,
        ensures
            ball == (Ball { x, y, w, h, speed: BALL_SPEED, dx: 0, dy: 1, phase: Phase::Attached }),
            ball.wf(),
    {
        Ball { x, y, w, h, speed: BALL_SPEED, dx: 0, dy: 1, phase: Phase::Attached }
    }

    /// Whether the ball is one that the simulation accepts in `field` with `paddle`.
    pub fn is_valid(self, field: Field, paddle: Paddle) -> (ok: bool)
        requires
            field.wf(),
            paddle.wf(),
        ensures
            ok == (self.wf() && self.within(field, paddle)),
    {
        if !(-MAX_COORD <= self.x && self.x <= MAX_COORD && -MAX_COORD <= self.y && self.y
            <= MAX_COORD && 1 <= self.w && self.w <= MAX_EXTENT && 1 <= self.h && self.h
            <= MAX_EXTENT && 0 <= self.speed && self.speed <= MAX_EXTENT && -1 <= self.dx
            && self.dx <= 1 && -1 <= self.dy && self.dy <= 1) {
            return false;
        }
        match self.phase {
            Phase::Attached => {
                self.dx == 0 && self.dy == 1 && self.y == paddle.y - ATTACH_GAP && -self.w
                    <= self.x && self.x <= field.width
            },
            Phase::InPlay => {
                let slack: i64 = if self.y > 0 {
                    2 * self.speed
                } else if self.y > -self.speed {
                    self.speed
                } else {
                    0
                };
                -self.speed <= self.y && self.y <= field.height + self.speed && -self.w - slack
                    <= self.x && self.x <= field.width + slack
            },
            Phase::Dead => {
                let two: i64 = 2 * self.speed;
                let three: i64 = 3 * self.speed;
                -two <= self.y && self.y <= field.height + two && -self.w - three <= self.x
                    && self.x <= field.width + three
            },
        }
    }

    #[verifier::when_used_as_spec(spec_rect)]
    pub fn rect(self) -> (r: Rect)
        ensures
            r == self.spec_rect(),
            self.wf() ==> r.wf(),
    {
        Rect { x: self.x, y: self.y, w: self.w, h: self.h }
    }

    #[verifier::when_used_as_spec(spec_is_attached)]
    pub fn is_attached(self) -> (attached: bool)
        ensures
            attached == self.spec_is_attached(),
    {
        match self.phase {
            Phase::Attached => true,
            _ => false,
        }
    }

    #[verifier::when_used_as_spec(spec_in_play)]
    pub fn in_play(self) -> (moving: bool)
        ensures
            moving == self.spec_in_play(),
    {
        match self.phase {
            Phase::InPlay => true,
            _ => false,
        }
    }

    #[verifier::when_used_as_spec(spec_is_dead)]
    pub fn is_dead(self) -> (dead: bool)
        ensures
            dead == self.spec_is_dead(),
    {
        match self.phase {
            Phase::Dead => true,
            _ => false,
        }
    }

    #[verifier::when_used_as_spec(spec_reached_bottom)]
    pub fn reached_bottom(self, field: Field) -> (hit: bool)
        requires
            self.wf(),
        ensures
            hit == self.spec_reached_bottom(field),
    {
        self.y + self.h > field.height
    }

    #[verifier::when_used_as_spec(spec_reached_top)]
    pub fn reached_top(self) -> (hit: bool)
        ensures
            hit == self.spec_reached_top(),
    {
        self.y <= 0
    }

    #[verifier::when_used_as_spec(spec_hit_left_wall)]
    pub fn hit_left_wall(self) -> (hit: bool)
        ensures
            hit == self.spec_hit_left_wall(),
    {
        self.x <= 0
    }

    #[verifier::when_used_as_spec(spec_hit_right_wall)]
    pub fn hit_right_wall(self, field: Field) -> (hit: bool)
        requires
            self.wf(),
        ensures
            hit == self.spec_hit_right_wall(field),
    {
        self.x + self.w >= field.width
    }

    #[verifier::when_used_as_spec(spec_hit_paddle)]
    pub fn hit_paddle(self, paddle: Paddle) -> (hit: bool)
        requires
            self.wf(),
            paddle.wf(),
        ensures
            hit == self.spec_hit_paddle(paddle),
    {
        let bottom: i64 = self.y + self.h;
        let right: i64 = self.x + self.w;
        let paddle_right: i64 = paddle.x + paddle.width;
        paddle.y < bottom && bottom < paddle.y + paddle.height && (paddle.x < right && right
            < paddle_right || paddle.x < self.x && self.x < paddle_right)
    }

    #[verifier::when_used_as_spec(spec_paddle_side)]
    pub fn paddle_side(self, paddle: Paddle) -> (side: i8)
        requires
            self.wf(),
            paddle.wf(),
        ensures
            side == self.spec_paddle_side(paddle),
    {
        self.rect().side_of_center(paddle.rect())
    }

    /// What the ball meets at the edge of the field, if anything.
    #[verifier::when_used_as_spec(spec_bounce)]
    pub fn bounce(self, field: Field, paddle: Paddle) -> (met: Option<Bounce>)
        requires
            self.wf(),
            paddle.wf(),
        ensures
            met == self.spec_bounce(field, paddle),
    {
        if self.reached_bottom(field) {
            Some(Bounce::Floor)
        } else if self.reached_top() {
            Some(Bounce::Ceiling)
        } else if self.hit_left_wall() {
            Some(Bounce::LeftWall)
        } else if self.hit_right_wall(field) {
            Some(Bounce::RightWall)
        } else if self.hit_paddle(paddle) {
            Some(Bounce::Paddle)
        } else {
            None
        }
    }

    /// Turns the ball away from a brick that it touches on `side`.
    pub fn turn(&mut self, side: Option<Side>)
        ensures
            *final(self) == old(self).turned(side),
    {
        match side {
            Some(Side::Below) => {
                self.dy = 1;
            },
            Some(Side::Above) => {
                self.dy = -1;
            },
            Some(Side::Left) => {
                self.dx = -1;
            },
            Some(Side::Right) => {
                self.dx = 1;
            },
            None => {},
        }
    }

    /// Tests the ball against every brick in order. Each living brick that it
    /// touches loses one health and turns the ball; no brick ends the pass.
    pub fn meet_bricks(&mut self, bricks: &mut Vec<Enemy>)
        requires
            old(self).wf(),
            forall|i: int| 0 <= i < old(bricks)@.len() ==> (#[trigger] old(bricks)@[i]).wf(),
        ensures
            *final(self) == old(self).after_bricks(old(bricks)@),
            final(bricks)@ == struck_all(old(bricks)@, old(self).spec_rect()),
    {
        let outline = self.rect();
        let n: usize = bricks.len();
        let mut k: usize = 0;
        proof {
            assert(old(bricks)@.take(0).len() == 0);
        }
        while k < n
            invariant
                k <= n,
                n == bricks@.len(),
                n == old(bricks)@.len(),
                outline == old(self).spec_rect(),
                outline.wf(),
                *self == old(self).after_bricks(old(bricks)@.take(k as int)),
                forall|i: int| 0 <= i < n ==> (#[trigger] old(bricks)@[i]).wf(),
                forall|i: int| 0 <= i < k ==> bricks@[i] == old(bricks)@[i].struck_by(outline),
                forall|i: int| k <= i < n ==> bricks@[i] == old(bricks)@[i],
            decreases n - k,
        {
            let brick = bricks[k];
            let side = brick.touched_by(outline);
            if side.is_some() {
                bricks.set(k, Enemy { health: brick.health - 1, ..brick });
                self.turn(side);
            }
            proof {
                let before = old(bricks)@.take(k as int);
                let upto = old(bricks)@.take(k + 1);
                assert(upto.drop_last() == before);
                assert(upto.last() == old(bricks)@[k as int]);
            }
            k += 1;
        }
        proof {
            assert(old(bricks)@.take(n as int) == old(bricks)@);
            assert(bricks@ =~= struck_all(old(bricks)@, outline));
        }
    }

    /// Answers to what the ball meets at the edge of the field.
    pub fn meet_walls(&mut self, field: Field, paddle: Paddle)
        requires
            old(self).wf(),
            paddle.wf(),
        ensures
            *final(self) == old(self).after_bounce(field, paddle),
    {
        match self.bounce(field, paddle) {
            Some(Bounce::Floor) => {
                self.phase = Phase::Dead;
            },
            Some(Bounce::Ceiling) => {
                self.dy = 1;
            },
            Some(Bounce::LeftWall) => {
                self.dx = 1;
            },
            Some(Bounce::RightWall) => {
                self.dx = -1;
            },
            Some(Bounce::Paddle) => {
                self.dx = self.paddle_side(paddle);
                self.dy = -1;
            },
            None => {},
        }
    }

    /// Moves the ball by its speed along its direction.
    pub fn advance(&mut self)
        requires
            old(self).wf(),
        ensures
            *final(self) == old(self).advanced(),
            final(self).x == old(self).x + old(self).speed * old(self).dx,
            final(self).y == old(self).y + old(self).speed * old(self).dy,
    {
        let step_x: i64 = if self.dx > 0 {
            self.speed
        } else if self.dx < 0 {
            -self.speed
        } else {
            0
        };
        let step_y: i64 = if self.dy > 0 {
            self.speed
        } else if self.dy < 0 {
            -self.speed
        } else {
            0
        };
        proof {
            lemma_signed_step(self.speed as int, self.dx as int);
            lemma_signed_step(self.speed as int, self.dy as int);
        }
        self.x = self.x + step_x;
        self.y = self.y + step_y;
    }

    /// Centres a waiting ball over the paddle.
    pub fn seat(&mut self, paddle: Paddle)
        requires
            old(self).wf(),
            paddle.wf(),
        ensures
            *final(self) == old(self).seated(paddle),
    {
        self.x = paddle.x + paddle.width / 2 - self.w / 2;
    }

    /// Sets a waiting ball in play, straight up. Any other ball stays as it is.
    pub fn launch(&mut self)
        ensures
            *final(self) == old(self).launched(),
    {
        if self.is_attached() {
            self.dx = 0;
            self.dy = -1;
            self.phase = Phase::InPlay;
        }
    }

    /// Advances the ball by one step among `bricks`: see [`Ball::stepped`] for the
    /// ball and [`Ball::strikes`] for the bricks.
    pub fn step(&mut self, bricks: &mut Vec<Enemy>, field: Field, paddle: Paddle)
        requires
            old(self).wf(),
            old(self).within(field, paddle),
            field.wf(),
            paddle.fits(field),
            forall|i: int| 0 <= i < old(bricks)@.len() ==> (#[trigger] old(bricks)@[i]).wf(),
        ensures
            *final(self) == old(self).stepped(old(bricks)@, field, paddle),
            final(bricks)@ == old(self).strikes(old(bricks)@),
            final(self).wf(),
            final(self).within(field, paddle),
            forall|i: int| 0 <= i < final(bricks)@.len() ==> (#[trigger] final(bricks)@[i]).wf(),
    {
        proof {
            old(self).lemma_step_stays_within(old(bricks)@, field, paddle);
        }
        match self.phase {
            Phase::Attached => {
                self.seat(paddle);
            },
            Phase::InPlay => {
                proof {
                    self.lemma_bricks_only_turn(bricks@);
                }
                self.meet_bricks(bricks);
                self.meet_walls(field, paddle);
                self.advance();
            },
            Phase::Dead => {},
        }
    }

    /// The bricks change nothing of a ball but its direction, and each component
    /// of the direction that was -1, 0 or +1 before is so after.
    pub proof fn lemma_bricks_only_turn(self, bricks: Seq<Enemy>)
        ensures
            ({
                let b = self.after_bricks(bricks);
                &&& b == (Ball { dx: b.dx, dy: b.dy, ..self })
                &&& -1 <= self.dx <= 1 ==> -1 <= b.dx <= 1
                &&& -1 <= self.dy <= 1 ==> -1 <= b.dy <= 1
            }),
        decreases bricks.len(),
    {
        if bricks.len() > 0 {
            self.lemma_bricks_only_turn(bricks.drop_last());
        }
    }

    /// One step keeps a ball where the simulation can hold it.
    pub proof fn lemma_step_stays_within(
        self,
        bricks: Seq<Enemy>,
        field: Field,
        paddle: Paddle,
    )
        requires
            self.wf(),
            self.within(field, paddle),
            field.wf(),
            paddle.fits(field),
        ensures
            self.stepped(bricks, field, paddle).wf(),
            self.stepped(bricks, field, paddle).within(field, paddle),
    {
        if self.phase == Phase::InPlay {
            self.lemma_bricks_only_turn(bricks);
            let turned = self.after_bricks(bricks).after_bounce(field, paddle);
            lemma_signed_step(turned.speed as int, turned.dx as int);
            lemma_signed_step(turned.speed as int, turned.dy as int);
        }
    }
}

/// A step of length `speed` in direction `d` is `speed`, `-speed` or nothing.
pub proof fn lemma_signed_step(speed: int, d: int)
    requires
        -1 <= d <= 1,
    ensures
        speed * d == (if d > 0 {
            speed
        } else if d < 0 {
            -speed
        } else {
            0
        }),
{
    assert(speed * 1 == speed);
    assert(speed * (-1) == -speed) by (nonlinear_arith);
    assert(speed * 0 == 0);
}

} // verus!
