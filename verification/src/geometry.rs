//! Axis-aligned rectangles and the contact tests between them.
//!
//! The origin is the top-left corner of the field and `y` grows downward.

use vstd::prelude::*;

verus! {

/// Number of length units in one pixel: positions advance in half pixels.
pub const UNITS_PER_PIXEL: i64 = 2;

/// Largest width, height or speed that an entity or the field may have.
pub const MAX_EXTENT: i64 = 1_099_511_627_776;

/// Largest distance from the origin, along either axis, at which a corner may lie.
pub const MAX_COORD: i64 = 8_796_093_022_208;

/// Converts a whole number of pixels to length units.
pub fn px(pixels: i32) -> (units: i64)
    ensures
        units == pixels * UNITS_PER_PIXEL,
{
    let p: i64 = pixels as i64;
    p * UNITS_PER_PIXEL
}

/// An axis-aligned rectangle: top-left corner, width and height.
#[derive(Clone, Copy, Debug, PartialEq, Eq, Structural)]
pub struct Rect {
    pub x: i64,
    pub y: i64,
    pub w: i64,
    pub h: i64,
}

/// The side of a brick that a ball touches.
#[derive(Clone, Copy, Debug, PartialEq, Eq, Structural)]
pub enum Side {
    /// The ball comes from below and meets the brick's bottom edge.
    Below,
    /// The ball comes from above and rests on the brick's top edge.
    Above,
    /// The ball comes from the left and meets the brick's left edge.
    Left,
    /// The ball comes from the right and meets the brick's right edge.
    Right,
}

impl Rect {
    /// The rectangle is representable: its corner is within [`MAX_COORD`] of the
    /// origin and its sides are between 0 and [`MAX_EXTENT`].
    pub open spec fn wf(self) -> bool {
        &&& -MAX_COORD <= self.x <= MAX_COORD
        &&& -MAX_COORD <= self.y <= MAX_COORD
        &&& 0 <= self.w <= MAX_EXTENT
        &&& 0 <= self.h <= MAX_EXTENT
    }

    pub open spec fn left(self) -> int {
        self.x as int
    }

    pub open spec fn right(self) -> int {
        self.x + self.w
    }

    pub open spec fn top(self) -> int {
        self.y as int
    }

    pub open spec fn bottom(self) -> int {
        self.y + self.h
    }

    /// Twice the horizontal midpoint, which is an integer for every width.
    pub open spec fn mid_x2(self) -> int {
        2 * self.x + self.w
    }

    /// Twice the vertical midpoint.
    pub open spec fn mid_y2(self) -> int {
        2 * self.y + self.h
    }

    /// The point lies inside the rectangle; the right and bottom edges are outside.
    pub open spec fn spec_contains(self, point_x: i64, point_y: i64) -> bool {
        &&& self.left() <= point_x < self.right()
        &&& self.top() <= point_y < self.bottom()
    }

    /// The interiors of the two rectangles share a point: rectangles that only
    /// touch along an edge do not overlap.
    pub open spec fn spec_overlaps(self, other: Rect) -> bool {
        &&& self.left() < other.right()
        &&& other.left() < self.right()
        &&& self.top() < other.bottom()
        &&& other.top() < self.bottom()
    }

    /// -1 where this rectangle's horizontal midpoint is left of the other's, else +1.
    pub open spec fn spec_side_of_center(self, other: Rect) -> i8 {
        if self.mid_x2() < other.mid_x2() {
            -1i8
        } else {
            1i8
        }
    }

    /// The horizontal midpoint of this rectangle lies within the other's
    /// horizontal span, ends included.
    pub open spec fn mid_x_within(self, other: Rect) -> bool {
        2 * other.left() <= self.mid_x2() <= 2 * other.right()
    }

    /// The vertical spans of the two rectangles touch or overlap.
    pub open spec fn rows_meet(self, other: Rect) -> bool {
        self.top() <= other.bottom() && other.top() <= self.bottom()
    }

    /// This rectangle (a ball) meets `brick` from below: its midpoint is under the
    /// brick and its top edge lies within the brick's vertical span.
    pub open spec fn spec_hits_from_below(self, brick: Rect) -> bool {
        self.mid_x_within(brick) && brick.top() <= self.top() <= brick.bottom()
    }

    /// This rectangle meets `brick` from above: its midpoint is over the brick and
    /// its bottom edge lies exactly on the brick's top edge.
    pub open spec fn spec_hits_from_above(self, brick: Rect) -> bool {
        self.mid_x_within(brick) && self.bottom() == brick.top()
    }

    /// This rectangle meets `brick` from the left: it starts left of the brick, its
    /// right edge has reached the brick's left edge, and their rows meet.
    pub open spec fn spec_hits_from_left(self, brick: Rect) -> bool {
        self.left() < brick.left() <= self.right() && self.rows_meet(brick)
    }

    /// This rectangle meets `brick` from the right: it ends right of the brick, its
    /// left edge has reached the brick's right edge, and their rows meet.
    pub open spec fn spec_hits_from_right(self, brick: Rect) -> bool {
        self.left() <= brick.right() < self.right() && self.rows_meet(brick)
    }

    /// The side on which this rectangle touches `brick`, if any. Where several of
    /// the four tests hold, the first in the order below, above, left, right counts.
    pub open spec fn spec_contact(self, brick: Rect) -> Option<Side> {
        if self.spec_hits_from_below(brick) {
            Some(Side::Below)
        } else if self.spec_hits_from_above(brick) {
            Some(Side::Above)
        } else if self.spec_hits_from_left(brick) {
            Some(Side::Left)
        } else if self.spec_hits_from_right(brick) {
            Some(Side::Right)
        } else {
            None
        }
    }

    #[verifier::when_used_as_spec(spec_contains)]
    pub fn contains(self, point_x: i64, point_y: i64) -> (inside: bool)
        requires
            self.wf(),
        ensures
            inside == self.spec_contains(point_x, point_y),
    {
        self.x <= point_x && point_x < self.x + self.w && self.y <= point_y && point_y < self.y
            + self.h
    }

    #[verifier::when_used_as_spec(spec_overlaps)]
    pub fn overlaps(self, other: Rect) -> (shared: bool)
        requires
            self.wf(),
            other.wf(),
        ensures
            shared == self.spec_overlaps(other),
    {
        self.x < other.x + other.w && other.x < self.x + self.w && self.y < other.y + other.h
            && other.y < self.y + self.h
    }

    #[verifier::when_used_as_spec(spec_side_of_center)]
    pub fn side_of_center(self, other: Rect) -> (side: i8)
        requires
            self.wf(),
            other.wf(),
        ensures
            side == self.spec_side_of_center(other),
    {
        if 2 * self.x + self.w < 2 * other.x + other.w {
            -1
        } else {
            1
        }
    }

    #[verifier::when_used_as_spec(spec_hits_from_below)]
    pub fn hits_from_below(self, brick: Rect) -> (hit: bool)
        requires
            self.wf(),
            brick.wf(),
        ensures
            hit == self.spec_hits_from_below(brick),
    {
        let mid2: i64 = 2 * self.x + self.w;
        2 * brick.x <= mid2 && mid2 <= 2 * (brick.x + brick.w) && brick.y <= self.y && self.y
            <= brick.y + brick.h
    }

    #[verifier::when_used_as_spec(spec_hits_from_above)]
    pub fn hits_from_above(self, brick: Rect) -> (hit: bool)
        requires
            self.wf(),
            brick.wf(),
        ensures
            hit == self.spec_hits_from_above(brick),
    {
        let mid2: i64 = 2 * self.x + self.w;
        2 * brick.x <= mid2 && mid2 <= 2 * (brick.x + brick.w) && self.y + self.h == brick.y
    }

    #[verifier::when_used_as_spec(spec_hits_from_left)]
    pub fn hits_from_left(self, brick: Rect) -> (hit: bool)
        requires
            self.wf(),
            brick.wf(),
        ensures
            hit == self.spec_hits_from_left(brick),
    {
        self.x < brick.x && brick.x <= self.x + self.w && self.y <= brick.y + brick.h && brick.y
            <= self.y + self.h
    }

    #[verifier::when_used_as_spec(spec_hits_from_right)]
    pub fn hits_from_right(self, brick: Rect) -> (hit: bool)
        requires
            self.wf(),
            brick.wf(),
        ensures
            hit == self.spec_hits_from_right(brick),
    {
        self.x <= brick.x + brick.w && brick.x + brick.w < self.x + self.w && self.y <= brick.y
            + brick.h && brick.y <= self.y + self.h
    }

    #[verifier::when_used_as_spec(spec_contact)]
    pub fn contact(self, brick: Rect) -> (side: Option<Side>)
        requires
            self.wf(),
            brick.wf(),
        ensures
            side == self.spec_contact(brick),
    {
        if self.hits_from_below(brick) {
            Some(Side::Below)
        } else if self.hits_from_above(brick) {
            Some(Side::Above)
        } else if self.hits_from_left(brick) {
            Some(Side::Left)
        } else if self.hits_from_right(brick) {
            Some(Side::Right)
        } else {
            None
        }
    }
}

} // verus!
