//! The bricks that the balls wear down.

use vstd::prelude::*;
use crate::geometry::{Rect, Side, MAX_COORD};

verus! {

/// Width of every brick (40 pixels).
pub const ENEMY_WIDTH: i64 = 80;

/// Height of every brick (10 pixels).
pub const ENEMY_HEIGHT: i64 = 20;

/// A brick: a fixed position and the number of hits it can still take.
#[derive(Clone, Copy, Debug, PartialEq, Eq, Structural)]
pub struct Enemy {
    pub health: u32,
    pub x: i64,
    pub y: i64,
}

impl Enemy {
    /// The brick's corner is within [`MAX_COORD`] of the origin.
    pub open spec fn wf(self) -> bool {
        &&& -MAX_COORD <= self.x <= MAX_COORD
        &&& -MAX_COORD <= self.y <= MAX_COORD
    }

    pub open spec fn spec_rect(self) -> Rect {
        Rect { x: self.x, y: self.y, w: ENEMY_WIDTH, h: ENEMY_HEIGHT }
    }

    /// The brick can still take a hit.
    pub open spec fn spec_is_alive(self) -> bool {
        self.health >= 1
    }

    /// The side on which a ball with outline `ball` touches this brick. A brick
    /// without health is not touched.
    pub open spec fn spec_touched_by(self, ball: Rect) -> Option<Side> {
        if self.spec_is_alive() {
            ball.spec_contact(self.spec_rect())
        } else {
            None
        }
    }

    /// The brick after one hit.
    pub open spec fn damaged(self) -> Enemy {
        if self.health >= 1 {
            Enemy { health: (self.health - 1) as u32, ..self }
        } else {
            self
        }
    }

    /// The brick after a ball with outline `ball` has passed: one health less where
    /// the ball touches it.
    pub open spec fn struck_by(self, ball: Rect) -> Enemy {
        if self.spec_touched_by(ball).is_some() {
            self.damaged()
        } else {
            self
        }
    }

    /// A brick with `health` hits left and its top-left corner at `(x, y)`.
    pub fn new(health: u32, x: i64, y: i64) -> (enemy: Enemy)
        requires
            -MAX_COORD <= x <= MAX_COORD,
            -MAX_COORD <= y <= MAX_COORD,
        ensures
            enemy == (Enemy { health, x, y }),
            enemy.wf(),
    {
        Enemy { health, x, y }
    }

    /// Whether the brick is one that the simulation accepts.
    pub fn is_valid(self) -> (ok: bool)
        ensures
            ok == self.wf(),
    {
        -MAX_COORD <= self.x && self.x <= MAX_COORD && -MAX_COORD <= self.y && self.y <= MAX_COORD
    }

    #[verifier::when_used_as_spec(spec_rect)]
    pub fn rect(self) -> (r: Rect)
        ensures
            r == self.spec_rect(),
            self.wf() ==> r.wf(),
    {
        Rect { x: self.x, y: self.y, w: ENEMY_WIDTH, h: ENEMY_HEIGHT }
    }

    #[verifier::when_used_as_spec(spec_is_alive)]
    pub fn is_alive(self) -> (alive: bool)
        ensures
            alive == self.spec_is_alive(),
    {
        self.health >= 1
    }

    /// The side on which a ball with outline `ball` touches this brick, if any.
    #[verifier::when_used_as_spec(spec_touched_by)]
    pub fn touched_by(self, ball: Rect) -> (side: Option<Side>)
        requires
            self.wf(),
            ball.wf(),
        ensures
            side == self.spec_touched_by(ball),
    {
        if self.is_alive() {
            ball.contact(self.rect())
        } else {
            None
        }
    }
}

} // verus!
