//! The rectangular play area.

use vstd::prelude::*;
use crate::geometry::{Rect, MAX_EXTENT};

verus! {

/// The play area: its top-left corner is the origin, `width` runs to the right
/// wall and `height` down to the floor.
#[derive(Clone, Copy, Debug, PartialEq, Eq, Structural)]
pub struct Field {
    pub width: i64,
    pub height: i64,
}

impl Field {
    /// Both dimensions are between 0 and [`MAX_EXTENT`].
    pub open spec fn wf(self) -> bool {
        &&& 0 <= self.width <= MAX_EXTENT
        &&& 0 <= self.height <= MAX_EXTENT
    }

    /// The field as a rectangle at the origin.
    pub open spec fn spec_rect(self) -> Rect {
        Rect { x: 0, y: 0, w: self.width, h: self.height }
    }

    /// Whether `width` and `height` are dimensions that [`Field::new`] accepts.
    pub fn accepts(width: i64, height: i64) -> (ok: bool)
        ensures
            ok == (Field { width, height }).wf(),
    {
        0 <= width && width <= MAX_EXTENT && 0 <= height && height <= MAX_EXTENT
    }

    /// A field of the given dimensions.
    pub fn new(width: i64, height: i64) -> (field: Field)
        requires
            0 <= width <= MAX_EXTENT,
            0 <= height <= MAX_EXTENT,
        ensures
            field == (Field { width, height }),
            field.wf(),
    {
        Field { width, height }
    }

    #[verifier::when_used_as_spec(spec_rect)]
    pub fn rect(self) -> (r: Rect)
        ensures
            r == self.spec_rect(),
    {
        Rect { x: 0, y: 0, w: self.width, h: self.height }
    }
}

} // verus!
