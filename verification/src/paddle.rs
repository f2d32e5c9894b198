//! The bar that the player slides along the bottom of the field.

use vstd::prelude::*;
use crate::field::Field;
use crate::geometry::{Rect, MAX_COORD, MAX_EXTENT};
use crate::input::Horizontal;

verus! {

/// Width of the standard paddle (50 pixels).
pub const PADDLE_WIDTH: i64 = 100;

/// Height of the standard paddle (10 pixels).
pub const PADDLE_HEIGHT: i64 = 20;

/// Distance that the standard paddle moves in one step (5 pixels).
pub const PADDLE_SPEED: i64 = 10;

/// Distance between the floor and the top edge of the paddle in the standard
/// layout (50 pixels).
pub const PADDLE_RISE: i64 = 100;

/// Vertical distance between the top of the paddle and the top of a ball that
/// waits on it (30 pixels).
pub const ATTACH_GAP: i64 = 60;

/// The paddle: top-left corner, size, and the distance it moves in one step.
#[derive(Clone, Copy, Debug, PartialEq, Eq, Structural)]
pub struct Paddle {
    pub x: i64,
    pub y: i64,
    pub width: i64,
    pub height: i64,
    pub speed: i64,
}

impl Paddle {
    /// The paddle is representable: see [`Rect::wf`]; its speed is between 0 and
    /// [`MAX_EXTENT`].
    pub open spec fn wf(self) -> bool {
        &&& self.spec_rect().wf()
        &&& 0 <= self.speed <= MAX_EXTENT
    }

    /// The paddle lies inside the field, and the row in which a waiting ball
    /// rests, [`ATTACH_GAP`] above the paddle, is not above the ceiling.
    pub open spec fn fits(self, field: Field) -> bool {
        &&& self.wf()
        &&& 0 <= self.x
        &&& self.x + self.width <= field.width
        &&& ATTACH_GAP <= self.y
        &&& self.y + self.height <= field.height
    }

    pub open spec fn spec_rect(self) -> Rect {
        Rect { x: self.x, y: self.y, w: self.width, h: self.height }
    }

    /// A step to the left stays inside the field.
    pub open spec fn spec_can_move_left(self) -> bool {
        self.x - self.speed >= 0
    }

    /// A step to the right stays inside the field.
    pub open spec fn spec_can_move_right(self, field: Field) -> bool {
        self.x + self.width + self.speed <= field.width
    }

    /// The paddle after a step to the left, or unchanged where the wall is in the way.
    pub open spec fn moved_left(self) -> Paddle {
        if self.spec_can_move_left() {
            Paddle { x: (self.x - self.speed) as i64, ..self }
        } else {
            self
        }
    }

    /// The paddle after a step to the right, or unchanged where the wall is in the way.
    pub open spec fn moved_right(self, field: Field) -> Paddle {
        if self.spec_can_move_right(field) {
            Paddle { x: (self.x + self.speed) as i64, ..self }
        } else {
            self
        }
    }

    /// The paddle after one step in which the player asked for `dir`.
    pub open spec fn steered(self, dir: Horizontal, field: Field) -> Paddle {
        match dir {
            Horizontal::Left => self.moved_left(),
            Horizontal::Right => self.moved_right(field),
            Horizontal::Still => self,
        }
    }

    /// A paddle of the standard size and speed with its top-left corner at `(x, y)`.
    pub fn new(x: i64, y: i64) -> (paddle: Paddle)
        requires
            -MAX_COORD <= x <= MAX_COORD,
            -MAX_COORD <= y <= MAX_COORD,
        ensures
            paddle == (Paddle {
                x,
                y,
                width: PADDLE_WIDTH,
                height: PADDLE_HEIGHT,
                speed: PADDLE_SPEED,
            }),
            paddle.wf(),
    {
        Paddle { x, y, width: PADDLE_WIDTH, height: PADDLE_HEIGHT, speed: PADDLE_SPEED }
    }

    /// Whether the paddle is one that the simulation accepts in `field`.
    pub fn is_valid(self, field: Field) -> (ok: bool)
        ensures
            ok == self.fits(field),
    {
        -MAX_COORD <= self.x && self.x <= MAX_COORD && -MAX_COORD <= self.y && self.y <= MAX_COORD
            && 0 <= self.width && self.width <= MAX_EXTENT && 0 <= self.height && self.height
            <= MAX_EXTENT && 0 <= self.speed && self.speed <= MAX_EXTENT && 0 <= self.x && self.x
            + self.width <= field.width && ATTACH_GAP <= self.y && self.y + self.height
            <= field.height
    }

    #[verifier::when_used_as_spec(spec_rect)]
    pub fn rect(self) -> (r: Rect)
        ensures
            r == self.spec_rect(),
    {
        Rect { x: self.x, y: self.y, w: self.width, h: self.height }
    }

    #[verifier::when_used_as_spec(spec_can_move_left)]
    pub fn can_move_left(self) -> (free: bool)
        requires
            self.wf(),
        ensures
            free == self.spec_can_move_left(),
    {
        self.x - self.speed >= 0
    }

    #[verifier::when_used_as_spec(spec_can_move_right)]
    pub fn can_move_right(self, field: Field) -> (free: bool)
        requires
            self.wf(),
        ensures
            free == self.spec_can_move_right(field),
    {
        self.x + self.width + self.speed <= field.width
    }

    /// Moves one step to the left if that stays inside the field, and says
    /// whether it moved.
    pub fn try_move_left(&mut self) -> (moved: bool)
        requires
            old(self).wf(),
        ensures
            moved == old(self).spec_can_move_left(),
            *final(self) == old(self).moved_left(),
            final(self).wf(),
    {
        if self.can_move_left() {
            self.x = self.x - self.speed;
            true
        } else {
            false
        }
    }

    /// Moves one step to the right if that stays inside the field, and says
    /// whether it moved.
    pub fn try_move_right(&mut self, field: Field) -> (moved: bool)
        requires
            old(self).wf(),
            field.wf(),
        ensures
            moved == old(self).spec_can_move_right(field),
            *final(self) == old(self).moved_right(field),
            final(self).wf(),
    {
        if self.can_move_right(field) {
            self.x = self.x + self.speed;
            true
        } else {
            false
        }
    }

    /// Applies the player's horizontal request for one step.
    pub fn steer(&mut self, dir: Horizontal, field: Field)
        requires
            old(self).fits(field),
            field.wf(),
        ensures
            *final(self) == old(self).steered(dir, field),
            final(self).fits(field),
    {
        match dir {
            Horizontal::Left => {
                self.try_move_left();
            },
            Horizontal::Right => {
                self.try_move_right(field);
            },
            Horizontal::Still => {},
        }
    }
}

} // verus!
